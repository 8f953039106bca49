//! A whole file: its layout in bytes, the grid decoded from it, and the
//! grid's cells paired with their coordinates.

use vstd::prelude::*;
use vstd::arithmetic::div_mod::lemma_fundamental_div_mod_converse;
use crate::bulk::ReadBytes;
use crate::endian::be_word;
use crate::endian::get_endian;
use crate::endian::signed32;
use crate::endian::Endian;
use crate::header::CoordinateGenerator;
use crate::header::GridPoint;
use crate::header::Header;
use crate::row::process_row;
use crate::row::PADDING_BYTES;
use crate::stream::ByteStream;
use crate::stream::ReadError;
use crate::value::Millimeters;
use crate::version::get_xmrg_version;
use crate::version::version_of;
use crate::version::XmrgVersion;

verus! {

/// How many words the header has.
pub const HEADER_WORDS: i32 = 4;

/// The position of the first row record in a file from before 1997: behind
/// the probe word, the four header words and one padding word.
pub const FIRST_ROW_OFFSET: u64 = 24;

/// The byte order that the first word of a file announces.
pub open spec fn file_endian(bytes: Seq<u8>) -> Endian {
    Endian::detect(signed32(be_word(bytes.subrange(0, 4))))
}

/// The 32-bit word at `at` bytes from the start of a file, in the file's own
/// byte order.
pub open spec fn file_word(bytes: Seq<u8>, at: int) -> i32 {
    file_endian(bytes).decode_int32(bytes.subrange(at, at + 4))
}

/// The header of a file: the four words behind the probe word.
pub open spec fn file_header(bytes: Seq<u8>) -> Header {
    Header {
        xor: file_word(bytes, 4),
        yor: file_word(bytes, 8),
        columns: file_word(bytes, 12),
        rows: file_word(bytes, 16),
    }
}

/// The layout of a file, told from the word at byte 24 and the number of
/// columns.
pub open spec fn file_version(bytes: Seq<u8>) -> Option<XmrgVersion> {
    version_of(file_word(bytes, 24) as int, file_header(bytes).columns as int)
}

/// How many samples a row record of a grid holds: one per column.
pub open spec fn row_width(header: Header) -> nat {
    if header.columns > 0 {
        header.columns as nat
    } else {
        0
    }
}

/// How many row records a grid has.
pub open spec fn row_count(header: Header) -> nat {
    if header.rows > 0 {
        header.rows as nat
    } else {
        0
    }
}

/// The length in bytes of a row record: two bytes per sample between two
/// padding words of four bytes.
pub open spec fn row_stride(header: Header) -> nat {
    8 + 2 * row_width(header)
}

/// The position in the file of the sample in row `r` and column `c`.
pub open spec fn sample_offset(header: Header, r: int, c: int) -> int {
    24 + r * row_stride(header) + 4 + 2 * c
}

/// The depth that a file from before 1997 holds in row `r` and column `c`.
pub open spec fn file_value(bytes: Seq<u8>, r: int, c: int) -> Millimeters {
    let at = sample_offset(file_header(bytes), r, c);
    Millimeters::from_raw(file_endian(bytes).decode_int16(bytes.subrange(at, at + 2)))
}

/// The depths that a file holds, row by row. Only a file from before 1997
/// is decoded; any other holds no rows.
pub open spec fn file_rows(bytes: Seq<u8>) -> Seq<Seq<Millimeters>> {
    if file_version(bytes) == Some(XmrgVersion::Pre1997) {
        Seq::new(
            row_count(file_header(bytes)),
            |r: int| Seq::new(row_width(file_header(bytes)), |c: int| file_value(bytes, r, c)),
        )
    } else {
        Seq::empty()
    }
}

/// Whether a file holds every byte that decoding reads: the header up to
/// the word at byte 24 and, in a file from before 1997, every sample up to
/// the last one of the last row. The padding word behind the last row is
/// never read and may be missing.
pub open spec fn file_complete(bytes: Seq<u8>) -> bool {
    let header = file_header(bytes);
    &&& bytes.len() >= 28
    &&& file_version(bytes) == Some(XmrgVersion::Pre1997) && header.has_cells() ==> bytes.len()
        >= 24 + header.rows * row_stride(header) - 4
}

/// What is known of one cell: where it lies and how much fell there.
#[derive(Debug, Copy, Clone, PartialEq, Eq, Structural)]
pub struct Feature {
    pub point: GridPoint,
    pub value: Millimeters,
}

impl Feature {
    /// The feature of the cell `point` with the depth `value`.
    pub fn new(point: GridPoint, value: Millimeters) -> (feature: Self)
        ensures
            feature.point == point,
            feature.value == value,
    {
        Feature { point, value }
    }
}

/// The features that come of walking `values` and `cells` in step: as many
/// as the shorter of the two holds, the `k`-th made of the `k`-th of each.
pub open spec fn paired(values: Seq<Millimeters>, cells: Seq<GridPoint>) -> Seq<Feature> {
    Seq::new(
        if values.len() <= cells.len() {
            values.len()
        } else {
            cells.len()
        },
        |k: int| Feature { point: cells[k], value: values[k] },
    )
}

/// The depths of each of the given rows.
pub open spec fn rows_of(values: Seq<Vec<Millimeters>>) -> Seq<Seq<Millimeters>> {
    Seq::new(values.len(), |r: int| values[r]@)
}

/// What a grid is made of: its header and its depths, row by row.
pub struct GridView {
    pub header: Header,
    pub rows: Seq<Seq<Millimeters>>,
}

impl GridView {
    /// Whether the grid has cells and holds exactly one depth for each: as
    /// many rows as the header counts, each as long as the header says.
    pub open spec fn is_full(self) -> bool {
        &&& self.header.has_cells()
        &&& self.rows.len() == self.header.rows
        &&& forall|r: int| 0 <= r < self.rows.len() ==> (#[trigger] self.rows[r]).len()
            == self.header.columns
    }
}

/// A decoded grid: the header of the file and the depths of its cells, one
/// list per row in the order of the file.
pub struct XmrgData {
    header: Header,
    values: Vec<Vec<Millimeters>>,
}

impl View for XmrgData {
    type V = GridView;

    closed spec fn view(&self) -> GridView {
        GridView { header: self.header, rows: rows_of(self.values@) }
    }
}

impl XmrgData {
    /// A grid of the given header and rows. The rows are taken as they are:
    /// nothing asks that they have the size that the header gives.
    pub fn new(header: Header, values: Vec<Vec<Millimeters>>) -> (grid: Self)
        ensures
            grid@.header == header,
            grid@.rows == rows_of(values@),
    {
        XmrgData { header, values }
    }

    /// The header of the grid.
    pub fn header(&self) -> (header: Header)
        ensures
            header == self@.header,
    {
        self.header
    }

    /// The depths of the grid, one list per row.
    pub fn values(&self) -> (values: &Vec<Vec<Millimeters>>)
        ensures
            rows_of(values@) == self@.rows,
    {
        &self.values
    }

    /// Pairs every depth of the grid with the coordinates of its cell, one
    /// at a time.
    ///
    /// The depths are taken row by row in the order in which they are held,
    /// the cells in the order of [`Header::cells`]: along the first row from
    /// the first cell on, then along the next. The two are walked in step,
    /// and the features end where either of them ends. The generator
    /// borrows the grid and holds no copy of it.
    pub fn generate_features(&self) -> (generator: FeatureGenerator<'_>)
        ensures
            generator.remaining() == paired(self@.rows.flatten(), self@.header.cells()),
    {
        let generator = FeatureGenerator {
            values: &self.values,
            row: 0,
            column: 0,
            cells: self.header.into_iter(),
        };
        proof {
            let rows = rows_of(self.values@);
            assert(values_from(rows, 0, 0) =~= rows.flatten());
        }
        generator
    }
}

/// The depths that are left of `rows` from column `column` of row `row` on,
/// row by row.
pub open spec fn values_from(rows: Seq<Seq<Millimeters>>, row: int, column: int) -> Seq<
    Millimeters,
> {
    if 0 <= row < rows.len() {
        if 0 <= column < rows[row].len() {
            rows[row].skip(column) + rows.skip(row + 1).flatten()
        } else {
            rows.skip(row + 1).flatten()
        }
    } else {
        Seq::empty()
    }
}

/// Walks over the depths of a grid and the cells of its header in step.
pub struct FeatureGenerator<'a> {
    values: &'a Vec<Vec<Millimeters>>,
    row: usize,
    column: usize,
    cells: CoordinateGenerator,
}

impl<'a> FeatureGenerator<'a> {
    /// The features that the generator has yet to hand out, in order.
    pub closed spec fn remaining(&self) -> Seq<Feature> {
        paired(
            values_from(rows_of(self.values@), self.row as int, self.column as int),
            self.cells.remaining(),
        )
    }

    /// Hands out the next feature, or `None` once the depths or the cells
    /// have run out; from then on every call returns `None`.
    pub fn next(&mut self) -> (item: Option<Feature>)
        ensures
            old(self).remaining().len() > 0 ==> item == Some(old(self).remaining()[0])
                && final(self).remaining() == old(self).remaining().skip(1),
            old(self).remaining().len() == 0 ==> item.is_none() && final(self).remaining()
                == old(self).remaining(),
    {
        let ghost rows = rows_of(self.values@);
        let ghost left = values_from(rows, self.row as int, self.column as int);
        while self.row < self.values.len() && self.column >= self.values[self.row].len()
            invariant
                self.values == old(self).values,
                self.cells == old(self).cells,
                rows == rows_of(self.values@),
                left == values_from(rows, self.row as int, self.column as int),
            decreases self.values@.len() - self.row,
        {
            proof {
                let rest = rows.skip(self.row + 1);
                if rest.len() > 0 {
                    assert(rest.drop_first() =~= rows.skip(self.row + 2));
                }
            }
            self.row = self.row + 1;
            self.column = 0;
        }
        if self.row >= self.values.len() {
            return None;
        }
        let value = self.values[self.row][self.column];
        match self.cells.next() {
            Some(point) => {
                self.column = self.column + 1;
                Some(Feature::new(point, value))
            },
            None => None,
        }
    }
}

/// Rows of one length, flattened, are as many items as rows times that
/// length.
proof fn lemma_flatten_len_of_even_rows(rows: Seq<Seq<Millimeters>>, width: int)
    requires
        width > 0,
        forall|r: int| 0 <= r < rows.len() ==> (#[trigger] rows[r]).len() == width,
    ensures
        rows.flatten().len() == rows.len() * width,
    decreases rows.len(),
{
    if rows.len() == 0 {
        assert(rows.len() * width == 0) by (nonlinear_arith)
            requires
                rows.len() == 0,
        ;
    } else {
        let front = rows.drop_last();
        assert(rows =~= front.push(rows.last()));
        front.lemma_flatten_push(rows.last());
        lemma_flatten_len_of_even_rows(front, width);
        assert(rows.len() * width == front.len() * width + width) by (nonlinear_arith)
            requires
                rows.len() == front.len() + 1,
        ;
    }
}

/// Rows of one length, flattened, hold at place `k` the item of row
/// `k / width` and column `k % width`.
proof fn lemma_flatten_index_of_even_rows(rows: Seq<Seq<Millimeters>>, width: int, k: int)
    requires
        width > 0,
        forall|r: int| 0 <= r < rows.len() ==> (#[trigger] rows[r]).len() == width,
        0 <= k < rows.len() * width,
    ensures
        0 <= k / width < rows.len(),
        0 <= k % width < width,
        rows.flatten()[k] == rows[k / width][k % width],
    decreases rows.len(),
{
    if rows.len() == 0 {
        assert(rows.len() * width == 0) by (nonlinear_arith)
            requires
                rows.len() == 0,
        ;
    } else {
        let front = rows.drop_last();
        let n = front.len() as int;
        assert(rows =~= front.push(rows.last()));
        front.lemma_flatten_push(rows.last());
        lemma_flatten_len_of_even_rows(front, width);
        assert(rows.len() * width == n * width + width) by (nonlinear_arith)
            requires
                rows.len() == n + 1,
        ;
        if k >= n * width {
            lemma_fundamental_div_mod_converse(k, width, n, k - n * width);
        } else {
            lemma_flatten_index_of_even_rows(front, width, k);
        }
    }
}

/// In a grid that holds one depth for each of its cells, every cell is
/// paired with its own depth: there are as many features as cells, and the
/// `k`-th is the cell in column `k % columns` of row `k / columns`, counted
/// from the first cell, with the depth held at that row and column.
pub proof fn lemma_features_cover_full_grid(grid: GridView, k: int)
    requires
        grid.is_full(),
        0 <= k < grid.header.rows * grid.header.columns,
    ensures
        paired(grid.rows.flatten(), grid.header.cells()).len() == grid.header.rows
            * grid.header.columns,
        0 <= k / (grid.header.columns as int) < grid.header.rows,
        0 <= k % (grid.header.columns as int) < grid.header.columns,
        paired(grid.rows.flatten(), grid.header.cells())[k] == (Feature {
            point: GridPoint {
                x: (grid.header.xor + k % (grid.header.columns as int)) as i64,
                y: (grid.header.yor + k / (grid.header.columns as int)) as i64,
            },
            value: grid.rows[k / (grid.header.columns as int)][k % (grid.header.columns as int)],
        }),
{
    lemma_flatten_len_of_even_rows(grid.rows, grid.header.columns as int);
    lemma_flatten_index_of_even_rows(grid.rows, grid.header.columns as int, k);
}

/// A file from before 1997 whose header counts at least one row and one
/// column decodes to a grid that holds one depth for each of its cells.
pub proof fn lemma_decoded_grid_is_full(bytes: Seq<u8>)
    requires
        file_version(bytes) == Some(XmrgVersion::Pre1997),
        file_header(bytes).has_cells(),
    ensures
        (GridView { header: file_header(bytes), rows: file_rows(bytes) }).is_full(),
{
}

/// Decodes a file from its bytes.
///
/// The first word tells the byte order, the next four are the header, and
/// the word at byte 24 tells the layout. A file from before 1997 has its
/// rows decoded, starting at byte 24; a file of any other layout, known or
/// not, gives a grid without rows. Decoding fails with `UnexpectedEof`
/// exactly when the file ends before a byte that had to be read.
pub fn read_xmrg(bytes: Vec<u8>) -> (res: Result<XmrgData, ReadError>)
    ensures
        res.is_ok() <==> file_complete(bytes@),
        match res {
            Ok(grid) => grid@.header == file_header(bytes@) && grid@.rows == file_rows(bytes@),
            Err(e) => e == ReadError::UnexpectedEof,
        },
{
    let ghost file = bytes@;
    let mut reader = ByteStream::new(bytes);
    let endian = match get_endian(&mut reader) {
        Ok(endian) => endian,
        Err(e) => {
            return Err(e);
        },
    };
    let words = match ReadBytes::new(HEADER_WORDS, endian).read_int32s(&mut reader) {
        Ok(words) => words,
        Err(e) => {
            return Err(e);
        },
    };
    proof {
        assert forall|i: int| 0 <= i < 4 implies words@[i] == file_word(file, 4 + 4 * i) by {
            assert(file.subrange(4 + 4 * i, 4 + 4 * i + 4) =~= file.subrange(
                4 + 4 * i,
                8 + 4 * i,
            ));
        }
    }
    let header = Header::from_vec(words);
    match reader.seek_current(PADDING_BYTES) {
        Ok(_) => {},
        Err(e) => {
            return Err(e);
        },
    }
    let marker = match endian.read_int32(&mut reader) {
        Ok(marker) => marker,
        Err(e) => {
            return Err(e);
        },
    };
    let mut values: Vec<Vec<Millimeters>> = Vec::new();
    match get_xmrg_version(marker, header.columns) {
        Some(XmrgVersion::Pre1997) => {
            let row_reader = ReadBytes::new(header.columns, endian);
            reader.seek_start(FIRST_ROW_OFFSET);
            let ghost stride = row_stride(header);
            let mut r: i32 = 0;
            while r < header.rows
                invariant
                    0 <= r,
                    r <= header.rows || r == 0,
                    file == bytes@,
                    header == file_header(file),
                    endian == file_endian(file),
                    file_version(file) == Some(XmrgVersion::Pre1997),
                    stride == row_stride(header),
                    row_reader.items() == row_width(header),
                    row_reader.byte_order() == endian,
                    reader.bytes() == file,
                    reader.offset() == 24 + r * stride,
                    r > 0 && header.columns > 0 ==> 24 + r * stride - 4 <= file.len(),
                    values@.len() == r,
                    forall|i: int, c: int|
                        0 <= i < r && 0 <= c < row_width(header) ==> (#[trigger] values@[i]@[c])
                            == file_value(file, i, c),
                    forall|i: int| 0 <= i < r ==> (#[trigger] values@[i])@.len() == row_width(header),
                decreases header.rows - r,
            {
                proof {
                    lemma_row_bounds(header, r as int);
                }
                let ghost at_row = reader;
                match process_row(row_reader, &mut reader) {
                    Ok(row) => {
                        proof {
                            assert forall|c: int| 0 <= c < row_width(header) implies row@[c]
                                == file_value(file, r as int, c) by {
                                assert(at_row.window(4 + 2 * c, 2) =~= file.subrange(
                                    sample_offset(header, r as int, c),
                                    sample_offset(header, r as int, c) + 2,
                                ));
                            }
                            assert(24 + (r + 1) * stride == 24 + r * stride + stride)
                                by (nonlinear_arith);
                        }
                        values.push(row);
                    },
                    Err(e) => {
                        return Err(e);
                    },
                }
                r = r + 1;
            }
        },
        _ => {},
    }
    proof {
        assert(rows_of(values@) =~~= file_rows(file));
    }
    Ok(XmrgData::new(header, values))
}

/// Row `r` of a grid starts and ends at positions that a stream can have,
/// and it ends no later than the last row does.
proof fn lemma_row_bounds(header: Header, r: int)
    requires
        0 <= r < header.rows,
    ensures
        0 <= r * row_stride(header),
        24 + r * row_stride(header) + row_stride(header) <= u64::MAX,
        24 + r * row_stride(header) + row_stride(header) <= 24 + header.rows * row_stride(header),
{
    let stride = row_stride(header);
    assert(0 <= r * stride && r * stride + stride <= header.rows * stride && header.rows * stride
        <= 0x7FFF_FFFF * 0x1_0000_0006) by (nonlinear_arith)
        requires
            0 <= r < header.rows,
            header.rows <= 0x7FFF_FFFF,
            8 <= stride <= 0x1_0000_0006,
    ;
}

} // verus!
