//! Precipitation depths in fixed point.

use vstd::prelude::*;

verus! {

/// The depth that stands for "no measurement": -999 mm, in hundredths.
pub const NO_DATA_HUNDREDTHS: i32 = -99_900;

/// A precipitation depth, held as a whole number of hundredths of a
/// millimetre so that it is exact. A cell without a measurement holds
/// -999 mm.
#[derive(Debug, Copy, Clone, PartialEq, Eq, Structural)]
pub struct Millimeters {
    pub hundredths: i32,
}

impl Millimeters {
    /// The depth that a raw sample stands for. Samples count hundredths of a
    /// millimetre; a negative sample marks a cell without a measurement.
    pub open spec fn from_raw(data_point: i16) -> Millimeters {
        if data_point < 0 {
            Millimeters { hundredths: NO_DATA_HUNDREDTHS }
        } else {
            Millimeters { hundredths: data_point as i32 }
        }
    }

    /// Whether this is the depth of a cell without a measurement.
    pub open spec fn no_data(self) -> bool {
        self.hundredths == NO_DATA_HUNDREDTHS
    }

    /// Whether this is the depth of a cell without a measurement.
    #[verifier::when_used_as_spec(no_data)]
    pub fn is_no_data(self) -> (b: bool)
        ensures
            b == self.no_data(),
    {
        self.hundredths == NO_DATA_HUNDREDTHS
    }
}

/// Converts a raw sample to a depth: a negative sample becomes -999 mm, the
/// mark of a cell without a measurement, and any other sample is a count of
/// hundredths of a millimetre.
pub fn to_mm(data_point: i16) -> (mm: Millimeters)
    ensures
        mm == Millimeters::from_raw(data_point),
        data_point < 0 ==> mm.hundredths == -99_900,
        data_point >= 0 ==> mm.hundredths == data_point,
        mm.no_data() || 0 <= mm.hundredths <= i16::MAX,
{
    if data_point < 0 {
        Millimeters { hundredths: NO_DATA_HUNDREDTHS }
    } else {
        Millimeters { hundredths: data_point as i32 }
    }
}

} // verus!
