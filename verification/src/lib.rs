//! Extraction of normalized metadata records from image files.
//!
//! The crate combines filesystem attributes (name, size, timestamps) with
//! tag-based metadata embedded in the image (orientation, capture time,
//! camera model, camera serial) into one flat record, and serializes that
//! record to a canonical JSON text with absent fields omitted.

pub mod assemble;
pub mod config;
pub mod datetime;
pub mod json;
pub mod orientation;
pub mod paths;
pub mod record;
pub mod serializer;
pub mod tags;
pub mod text;

pub use crate::assemble::{
    assemble_metadata, image_metadata_from_tags, read_metadata_from_bytes,
    read_metadata_from_bytes_with_issues, ContainerError,
};
pub use crate::config::Config;
pub use crate::datetime::DateTime;
pub use crate::orientation::{orientation_as_u16, Orientation};
pub use crate::paths::{file_name_of, sidecar_path_for};
pub use crate::record::{FileMetadataOfInterest, ImageMetadataOfInterest, MetadataOfInterest};
pub use crate::serializer::{deserialize_metadata, serialize_metadata, JsonError};
pub use crate::tags::{FieldIssue, RawTags, RawValue, TagField};
