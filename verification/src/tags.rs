//! Raw tagged values and the field codecs.
//!
//! The tag container hands back raw values of a few primitive kinds. Each
//! codec turns one raw value into one typed optional field and never fails:
//! a missing tag is silently absent, and a malformed one degrades to an
//! absent field with a diagnostic. Only the first element of a multi-valued
//! tag is consulted.

use vstd::prelude::*;
use vstd::utf8::{decode_utf8, valid_utf8};

use crate::datetime::{parse_date_time, spec_parse_date_time, DateTime};
use crate::orientation::{spec_orientation_of_code, Orientation};
use crate::text::{chars_of_str, utf8_to_string};

verus! {

/// A raw tagged value, as the container reader hands it back: a sequence
/// of short integers, a sequence of byte blocks meant as ASCII text, or
/// some other kind the codecs do not read.
#[derive(Debug, Clone, PartialEq)]
pub enum RawValue {
    Short(Vec<u16>),
    Ascii(Vec<Vec<u8>>),
    Other,
}

/// The mathematical shape of a [`RawValue`].
pub enum RawValueView {
    Short(Seq<u16>),
    Ascii(Seq<Seq<u8>>),
    Other,
}

impl View for RawValue {
    type V = RawValueView;

    open spec fn view(&self) -> RawValueView {
        match self {
            RawValue::Short(v) => RawValueView::Short(v@),
            RawValue::Ascii(v) => RawValueView::Ascii(v@.map_values(|b: Vec<u8>| b@)),
            RawValue::Other => RawValueView::Other,
        }
    }
}

/// The four raw tag values the codecs read, each absent when the container
/// holds no such tag.
#[derive(Debug, Clone, PartialEq)]
pub struct RawTags {
    pub orientation: Option<RawValue>,
    pub date_time_original: Option<RawValue>,
    pub camera_model: Option<RawValue>,
    pub camera_serial: Option<RawValue>,
}

/// The mathematical shape of a [`RawTags`].
pub struct RawTagsView {
    pub orientation: Option<RawValueView>,
    pub date_time_original: Option<RawValueView>,
    pub camera_model: Option<RawValueView>,
    pub camera_serial: Option<RawValueView>,
}

impl View for RawTags {
    type V = RawTagsView;

    open spec fn view(&self) -> RawTagsView {
        RawTagsView {
            orientation: match self.orientation {
                Some(ref v) => Some(v@),
                None => None,
            },
            date_time_original: match self.date_time_original {
                Some(ref v) => Some(v@),
                None => None,
            },
            camera_model: match self.camera_model {
                Some(ref v) => Some(v@),
                None => None,
            },
            camera_serial: match self.camera_serial {
                Some(ref v) => Some(v@),
                None => None,
            },
        }
    }
}

/// Which image field a diagnostic speaks of.
#[derive(Debug, Clone, Copy, PartialEq, Eq, Structural)]
pub enum TagField {
    Orientation,
    CaptureTime,
    CameraModel,
    CameraSerial,
}

/// Why a codec left a field absent, beyond the tag simply not being there.
#[derive(Debug, Clone, Copy, PartialEq, Eq, Structural)]
pub enum FieldIssue {
    /// The tag holds a value of a kind the field does not use.
    WrongKind,
    /// The value lies outside the field's domain.
    InvalidValue,
    /// The text is not valid UTF-8.
    BadEncoding,
    /// The text does not match the fixed date-time layout.
    BadFormat,
}

/// What the orientation codec yields: the orientation named by the first
/// short integer when it lies in 1..=8; absent otherwise, with a
/// diagnostic for a wrong kind or an out-of-domain code.
pub open spec fn spec_decode_orientation(raw: Option<RawValueView>) -> (
    Option<Orientation>,
    Option<FieldIssue>,
) {
    match raw {
        None => (None, None),
        Some(RawValueView::Short(vals)) => {
            if vals.len() == 0 {
                (None, None)
            } else {
                match spec_orientation_of_code(vals[0]) {
                    Some(o) => (Some(o), None),
                    None => (None, Some(FieldIssue::InvalidValue)),
                }
            }
        },
        Some(_) => (None, Some(FieldIssue::WrongKind)),
    }
}

/// What a text codec yields: the first byte block decoded as UTF-8; absent
/// otherwise, with a diagnostic for a wrong kind or invalid UTF-8.
pub open spec fn spec_decode_text(raw: Option<RawValueView>) -> (
    Option<Seq<char>>,
    Option<FieldIssue>,
) {
    match raw {
        None => (None, None),
        Some(RawValueView::Ascii(blocks)) => {
            if blocks.len() == 0 {
                (None, None)
            } else if valid_utf8(blocks[0]) {
                (Some(decode_utf8(blocks[0])), None)
            } else {
                (None, Some(FieldIssue::BadEncoding))
            }
        },
        Some(_) => (None, Some(FieldIssue::WrongKind)),
    }
}

/// What the capture-time codec yields: the first byte block decoded as
/// UTF-8 and read in the fixed `YYYY:MM:DD HH:MM:SS` layout; absent
/// otherwise, with a diagnostic for a wrong kind, invalid UTF-8, or a
/// text not in that layout.
pub open spec fn spec_decode_capture_time(raw: Option<RawValueView>) -> (
    Option<DateTime>,
    Option<FieldIssue>,
) {
    match raw {
        None => (None, None),
        Some(RawValueView::Ascii(blocks)) => {
            if blocks.len() == 0 {
                (None, None)
            } else if !valid_utf8(blocks[0]) {
                (None, Some(FieldIssue::BadEncoding))
            } else {
                match spec_parse_date_time(decode_utf8(blocks[0]), ':', ' ') {
                    Some(dt) => (Some(dt), None),
                    None => (None, Some(FieldIssue::BadFormat)),
                }
            }
        },
        Some(_) => (None, Some(FieldIssue::WrongKind)),
    }
}

/// The orientation codec. Never fails: every deviation degrades to an
/// absent field, with a diagnostic where the tag was present but unusable.
pub fn decode_orientation(raw: &Option<RawValue>) -> (r: (Option<Orientation>, Option<FieldIssue>))
    ensures
        r == spec_decode_orientation(match raw {
            Some(v) => Some(v@),
            None => None,
        }),
{
    match raw {
        None => (None, None),
        Some(RawValue::Short(vals)) => {
            if vals.len() == 0 {
                (None, None)
            } else {
                match Orientation::try_from(vals[0]) {
                    Ok(o) => (Some(o), None),
                    Err(_) => (None, Some(FieldIssue::InvalidValue)),
                }
            }
        },
        Some(_) => (None, Some(FieldIssue::WrongKind)),
    }
}

/// A text codec: camera model and camera serial are two instantiations of
/// it against their two tags. Never fails.
pub fn decode_text(raw: &Option<RawValue>) -> (r: (Option<String>, Option<FieldIssue>))
    ensures
        ({
            let sv = spec_decode_text(match raw {
                Some(v) => Some(v@),
                None => None,
            });
            ((match r.0 {
                Some(s) => Some(s@),
                None => None,
            }) == sv.0) && r.1 == sv.1
        }),
{
    match raw {
        None => (None, None),
        Some(RawValue::Ascii(blocks)) => {
            if blocks.len() == 0 {
                (None, None)
            } else {
                match utf8_to_string(&blocks[0]) {
                    Some(s) => (Some(s), None),
                    None => (None, Some(FieldIssue::BadEncoding)),
                }
            }
        },
        Some(_) => (None, Some(FieldIssue::WrongKind)),
    }
}

/// The capture-time codec. Never fails.
pub fn decode_capture_time(raw: &Option<RawValue>) -> (r: (Option<DateTime>, Option<FieldIssue>))
    ensures
        r == spec_decode_capture_time(match raw {
            Some(v) => Some(v@),
            None => None,
        }),
{
    match raw {
        None => (None, None),
        Some(RawValue::Ascii(blocks)) => {
            if blocks.len() == 0 {
                (None, None)
            } else {
                match utf8_to_string(&blocks[0]) {
                    None => (None, Some(FieldIssue::BadEncoding)),
                    Some(s) => {
                        let cs = chars_of_str(s.as_str());
                        match parse_date_time(&cs, ':', ' ') {
                            Some(dt) => (Some(dt), None),
                            None => (None, Some(FieldIssue::BadFormat)),
                        }
                    },
                }
            }
        },
        Some(_) => (None, Some(FieldIssue::WrongKind)),
    }
}

} // verus!
