//! One row record of the grid: its samples between two padding words.

use vstd::prelude::*;
use crate::bulk::ReadBytes;
use crate::stream::ByteStream;
use crate::stream::ReadError;
use crate::value::to_mm;
use crate::value::Millimeters;

verus! {

/// The length in bytes of the padding word on either side of a record.
pub const PADDING_BYTES: i64 = 4;

/// Whether the samples of the row that starts where `reader` stands are all
/// there. A row without samples needs no bytes.
pub open spec fn row_fits(request: ReadBytes, reader: ByteStream) -> bool {
    request.items() == 0 || reader.offset() + 4 + 2 * request.items() <= reader.bytes().len()
}

/// The depth in column `j` of the row that starts where `reader` stands.
pub open spec fn row_value(request: ReadBytes, reader: ByteStream, j: int) -> Millimeters {
    Millimeters::from_raw(request.byte_order().decode_int16(reader.window(4 + 2 * j, 2)))
}

/// Decodes the row record at which the stream stands: steps over the leading
/// padding word, reads one 16-bit sample per column and converts each to a
/// depth, then steps over the trailing padding word.
///
/// On success the stream has moved by exactly eight bytes more than the
/// samples take. The padding words are stepped over without being read, so
/// a missing trailing word does no harm. The first failure ends the row:
/// `InvalidSeek` if the step over the leading word would carry the position
/// beyond `u64::MAX`, then `UnexpectedEof` if a sample is missing, then
/// `InvalidSeek` for the step over the trailing word.
pub fn process_row(read_bytes: ReadBytes, reader: &mut ByteStream) -> (res: Result<
    Vec<Millimeters>,
    ReadError,
>)
    ensures
        final(reader).bytes() == old(reader).bytes(),
        res.is_ok() <==> row_fits(read_bytes, *old(reader)) && old(reader).offset() + 8 + 2
            * read_bytes.items() <= u64::MAX,
        match res {
            Ok(row) => {
                &&& final(reader).offset() == old(reader).offset() + 8 + 2 * read_bytes.items()
                &&& row@.len() == read_bytes.items()
                &&& forall|j: int|
                    0 <= j < read_bytes.items() ==> row@[j] == row_value(
                        read_bytes,
                        *old(reader),
                        j,
                    )
            },
            Err(e) => {
                if old(reader).offset() + 4 > u64::MAX {
                    e == ReadError::InvalidSeek && final(reader).offset() == old(reader).offset()
                } else if !row_fits(read_bytes, *old(reader)) {
                    e == ReadError::UnexpectedEof && final(reader).offset() == if old(
                        reader,
                    ).offset() + 4 < old(reader).bytes().len() {
                        old(reader).bytes().len()
                    } else {
                        old(reader).offset() + 4
                    }
                } else {
                    e == ReadError::InvalidSeek && final(reader).offset() == old(reader).offset()
                        + 4 + 2 * read_bytes.items()
                }
            },
        },
{
    match reader.seek_current(PADDING_BYTES) {
        Ok(_) => {},
        Err(e) => {
            return Err(e);
        },
    }
    let ghost at_samples = *reader;
    let raw = match read_bytes.read_int16s(reader) {
        Ok(raw) => raw,
        Err(e) => {
            return Err(e);
        },
    };
    let mut row: Vec<Millimeters> = Vec::new();
    let mut j: usize = 0;
    while j < raw.len()
        invariant
            j <= raw.len(),
            raw@.len() == read_bytes.items(),
            row@.len() == j,
            at_samples.bytes() == old(reader).bytes(),
            at_samples.offset() == old(reader).offset() + 4,
            forall|k: int|
                0 <= k < raw@.len() ==> raw@[k] == read_bytes.byte_order().decode_int16(
                    at_samples.window(2 * k, 2),
                ),
            forall|k: int| 0 <= k < j ==> row@[k] == row_value(read_bytes, *old(reader), k),
        decreases raw.len() - j,
    {
        row.push(to_mm(raw[j]));
        j = j + 1;
    }
    match reader.seek_current(PADDING_BYTES) {
        Ok(_) => Ok(row),
        Err(e) => Err(e),
    }
}

} // verus!
