//! The closed domain of image orientations.
//!
//! An orientation names one of the eight combinations of rotation and
//! mirroring, coded by the integers 1 through 8. The mapping between the
//! named values and their codes is explicit and bidirectional: it is used
//! both to validate codes read from a tag and to emit the numeric code
//! during serialization.

use vstd::prelude::*;

verus! {

/// One of the eight combinations of rotation (none, quarter, half,
/// three-quarter) and mirroring, as coded by the integers 1 through 8.
#[derive(Debug, Clone, Copy, PartialEq, Eq, Structural)]
pub enum Orientation {
    Normal,
    Mirrored,
    UpsideDown,
    UpsideDownMirrored,
    QuarterRotationCCWMirrored,
    QuarterRotationCCW,
    QuarterRotationCWMirrored,
    QuarterRotationCW,
}

/// The numeric code of an orientation: the explicit value-to-integer half
/// of the bidirectional mapping table.
pub open spec fn spec_orientation_code(orientation: Orientation) -> u16 {
    match orientation {
        Orientation::Normal => 1,
        Orientation::Mirrored => 2,
        Orientation::UpsideDown => 3,
        Orientation::UpsideDownMirrored => 4,
        Orientation::QuarterRotationCCWMirrored => 5,
        Orientation::QuarterRotationCCW => 6,
        Orientation::QuarterRotationCWMirrored => 7,
        Orientation::QuarterRotationCW => 8,
    }
}

/// The orientation named by a numeric code, or `None` when the code lies
/// outside 1..=8: the integer-to-value half of the mapping table.
pub open spec fn spec_orientation_of_code(code: u16) -> Option<Orientation> {
    if code == 1 {
        Some(Orientation::Normal)
    } else if code == 2 {
        Some(Orientation::Mirrored)
    } else if code == 3 {
        Some(Orientation::UpsideDown)
    } else if code == 4 {
        Some(Orientation::UpsideDownMirrored)
    } else if code == 5 {
        Some(Orientation::QuarterRotationCCWMirrored)
    } else if code == 6 {
        Some(Orientation::QuarterRotationCCW)
    } else if code == 7 {
        Some(Orientation::QuarterRotationCWMirrored)
    } else if code == 8 {
        Some(Orientation::QuarterRotationCW)
    } else {
        None
    }
}

/// The numeric code of `orientation`, always in 1..=8.
pub fn orientation_as_u16(orientation: Orientation) -> (code: u16)
    ensures
        code == spec_orientation_code(orientation),
        1 <= code <= 8,
{
    match orientation {
        Orientation::Normal => 1,
        Orientation::Mirrored => 2,
        Orientation::UpsideDown => 3,
        Orientation::UpsideDownMirrored => 4,
        Orientation::QuarterRotationCCWMirrored => 5,
        Orientation::QuarterRotationCCW => 6,
        Orientation::QuarterRotationCWMirrored => 7,
        Orientation::QuarterRotationCW => 8,
    }
}

impl Orientation {
    /// Validates a numeric code: returns the orientation it names exactly
    /// when the code lies in 1..=8, and `Err(())` otherwise.
    pub fn try_from(v: u16) -> (r: Result<Orientation, ()>)
        ensures
            r matches Ok(o) ==> spec_orientation_of_code(v) == Some(o),
            r is Err <==> !(1 <= v <= 8),
    {
        match v {
            1 => Ok(Orientation::Normal),
            2 => Ok(Orientation::Mirrored),
            3 => Ok(Orientation::UpsideDown),
            4 => Ok(Orientation::UpsideDownMirrored),
            5 => Ok(Orientation::QuarterRotationCCWMirrored),
            6 => Ok(Orientation::QuarterRotationCCW),
            7 => Ok(Orientation::QuarterRotationCWMirrored),
            8 => Ok(Orientation::QuarterRotationCW),
            _ => Err(()),
        }
    }
}

/// The two halves of the mapping table invert each other: every orientation
/// is recovered from its own code, every code in 1..=8 names exactly one
/// orientation (so distinct orientations have distinct codes), and every
/// code outside 1..=8 names none.
pub proof fn lemma_orientation_code_bijective()
    ensures
        forall|o: Orientation| spec_orientation_of_code(spec_orientation_code(o)) == Some(o),
        forall|c: u16|
            1 <= c <= 8 ==> ((#[trigger] spec_orientation_of_code(c)) matches Some(o)
                && spec_orientation_code(o) == c),
        forall|c: u16| !(1 <= c <= 8) ==> #[trigger] spec_orientation_of_code(c) is None,
{
}

} // verus!
