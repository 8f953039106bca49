//! Decoder for XMRG gridded-precipitation files.
//!
//! An XMRG file is a Fortran sequential-record raster: a probe word that
//! reveals the byte order, a four-integer header, and one record of 16-bit
//! samples per grid row. This crate decodes such a file from its bytes into a
//! grid of precipitation depths and enumerates the HRAP grid coordinates that
//! belong to each cell.

pub mod bulk;
pub mod date;
pub mod endian;
pub mod grid;
pub mod header;
pub mod row;
pub mod stream;
pub mod value;
pub mod version;

pub use crate::stream::ByteStream;
pub use crate::stream::ReadError;
pub use crate::endian::get_endian;
pub use crate::endian::read_b_int32;
pub use crate::endian::Endian;
pub use crate::bulk::Int16s;
pub use crate::bulk::Int32s;
pub use crate::bulk::ReadBytes;
pub use crate::bulk::U8s;
pub use crate::row::process_row;
pub use crate::value::to_mm;
pub use crate::value::Millimeters;
pub use crate::version::get_xmrg_version;
pub use crate::version::XmrgVersion;
pub use crate::header::CoordinateGenerator;
pub use crate::header::GridPoint;
pub use crate::header::Header;
pub use crate::grid::read_xmrg;
pub use crate::grid::Feature;
pub use crate::grid::FeatureGenerator;
pub use crate::grid::XmrgData;
pub use crate::date::find_old_xmrg_date;
pub use crate::date::read_old_xmrg_date;
pub use crate::date::DateSegments;
