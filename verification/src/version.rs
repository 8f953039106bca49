//! The on-disk layouts of the format, told apart by the second record's size.

use vstd::prelude::*;

verus! {

/// The length in bytes of the second record as build 5.2.2 writes it.
pub const BUILD_5_2_2_BYTES: i32 = 66;

/// The length in bytes of the second record as build 4.2 writes it.
pub const BUILD_4_2_BYTES: i32 = 38;

/// A layout of the file that the length of its second record identifies.
#[allow(non_camel_case_types)]
#[derive(Debug, Copy, Clone, PartialEq, Eq, Structural)]
pub enum XmrgVersion {
    /// Files written before 1997, which have no second header record: the
    /// record after the header is already the first row of the grid.
    Pre1997,
    /// Files written by build 4.2.
    Build4_2,
    /// Files written by build 5.2.2.
    Build5_2_2,
}

/// The layout that a second record of `byte_count` bytes announces in a grid
/// of `max_x` columns, if any. The two fixed lengths are tried first, so a
/// grid of 33 or of 19 columns is never taken for a file from before 1997
/// on the strength of a 66- or 38-byte record.
pub open spec fn version_of(byte_count: int, max_x: int) -> Option<XmrgVersion> {
    if byte_count == BUILD_5_2_2_BYTES {
        Some(XmrgVersion::Build5_2_2)
    } else if byte_count == BUILD_4_2_BYTES {
        Some(XmrgVersion::Build4_2)
    } else if byte_count == 2 * max_x {
        Some(XmrgVersion::Pre1997)
    } else {
        None
    }
}

/// Tells the layout of a file from the length of the record that follows its
/// header: 66 bytes mean build 5.2.2, 38 bytes mean build 4.2, and a record
/// of two bytes per column is a row of a file from before 1997. Any other
/// length is not recognised.
pub fn get_xmrg_version(byte_count: i32, max_x: i32) -> (version: Option<XmrgVersion>)
    ensures
        version == version_of(byte_count as int, max_x as int),
        byte_count == 66 ==> version == Some(XmrgVersion::Build5_2_2),
        byte_count == 38 ==> version == Some(XmrgVersion::Build4_2),
        byte_count != 66 && byte_count != 38 && byte_count == 2 * max_x ==> version == Some(
            XmrgVersion::Pre1997,
        ),
        byte_count != 66 && byte_count != 38 && byte_count != 2 * max_x ==> version.is_none(),
{
    if byte_count == BUILD_5_2_2_BYTES {
        Some(XmrgVersion::Build5_2_2)
    } else if byte_count == BUILD_4_2_BYTES {
        Some(XmrgVersion::Build4_2)
    } else if byte_count as i64 == 2 * (max_x as i64) {
        Some(XmrgVersion::Pre1997)
    } else {
        None
    }
}

} // verus!
