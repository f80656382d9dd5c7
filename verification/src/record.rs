//! The metadata record: filesystem attributes and tag-based image
//! attributes, combined into one flat value per file.
//!
//! A record is built once per file and never mutated; every optional field
//! is explicitly present or absent, and absence is never an error.

use vstd::prelude::*;

use crate::datetime::DateTime;
use crate::orientation::Orientation;

verus! {

/// Filesystem attributes of one file. The timestamps are UTC wall-clock
/// values and are absent when the platform does not report them.
#[derive(Debug, Clone, PartialEq)]
pub struct FileMetadataOfInterest {
    pub filename: String,
    pub size: u64,
    pub created_time: Option<DateTime>,
    pub modified_time: Option<DateTime>,
}

/// The mathematical shape of [`FileMetadataOfInterest`].
pub struct FileMetadataView {
    pub filename: Seq<char>,
    pub size: u64,
    pub created_time: Option<DateTime>,
    pub modified_time: Option<DateTime>,
}

impl View for FileMetadataOfInterest {
    type V = FileMetadataView;

    open spec fn view(&self) -> FileMetadataView {
        FileMetadataView {
            filename: self.filename@,
            size: self.size,
            created_time: self.created_time,
            modified_time: self.modified_time,
        }
    }
}

impl FileMetadataView {
    /// Well-formed file attributes: any timestamps present are themselves
    /// well-formed date-times.
    pub open spec fn wf(self) -> bool {
        &&& (self.created_time matches Some(t) ==> t.wf())
        &&& (self.modified_time matches Some(t) ==> t.wf())
    }
}

/// Tag-based image attributes of one file. Every field is independently
/// optional; a missing or malformed tag leaves its field absent.
#[derive(Debug, Clone, PartialEq)]
pub struct ImageMetadataOfInterest {
    pub orientation: Option<Orientation>,
    pub capture_time: Option<DateTime>,
    pub camera_model: Option<String>,
    pub camera_serial: Option<String>,
}

/// The mathematical shape of [`ImageMetadataOfInterest`].
pub struct ImageMetadataView {
    pub orientation: Option<Orientation>,
    pub capture_time: Option<DateTime>,
    pub camera_model: Option<Seq<char>>,
    pub camera_serial: Option<Seq<char>>,
}

impl View for ImageMetadataOfInterest {
    type V = ImageMetadataView;

    open spec fn view(&self) -> ImageMetadataView {
        ImageMetadataView {
            orientation: self.orientation,
            capture_time: self.capture_time,
            camera_model: match self.camera_model {
                Some(ref s) => Some(s@),
                None => None,
            },
            camera_serial: match self.camera_serial {
                Some(ref s) => Some(s@),
                None => None,
            },
        }
    }
}

impl ImageMetadataView {
    /// Well-formed image attributes: a capture time present is itself a
    /// well-formed date-time.
    pub open spec fn wf(self) -> bool {
        self.capture_time matches Some(t) ==> t.wf()
    }
}

/// The full metadata record of one file: its filesystem attributes and its
/// image attributes, presented flat at the serialization boundary.
#[derive(Debug, Clone, PartialEq)]
pub struct MetadataOfInterest {
    pub file_metadata: FileMetadataOfInterest,
    pub image_metadata: ImageMetadataOfInterest,
}

/// The mathematical shape of [`MetadataOfInterest`].
pub struct MetadataView {
    pub file_metadata: FileMetadataView,
    pub image_metadata: ImageMetadataView,
}

impl View for MetadataOfInterest {
    type V = MetadataView;

    open spec fn view(&self) -> MetadataView {
        MetadataView { file_metadata: self.file_metadata@, image_metadata: self.image_metadata@ }
    }
}

impl MetadataView {
    /// A well-formed record: all date-times it holds are well-formed.
    pub open spec fn wf(self) -> bool {
        self.file_metadata.wf() && self.image_metadata.wf()
    }
}

} // verus!
