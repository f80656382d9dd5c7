//! The metadata assembler, and the boundary to the tag-container reader.
//!
//! The container reader — the `exif` crate — parses the tagged-metadata
//! region of an image held in memory and answers tag lookups. Opening the
//! container is the one whole-file failure here; once it is open, the four
//! codecs each yield a present-or-absent field and assembly itself cannot
//! fail.

use vstd::prelude::*;

use crate::record::{
    FileMetadataOfInterest, ImageMetadataOfInterest, ImageMetadataView, MetadataOfInterest,
};
use crate::tags::{
    decode_capture_time, decode_orientation, decode_text, spec_decode_capture_time,
    spec_decode_orientation, spec_decode_text, FieldIssue, RawTags, RawTagsView, RawValue,
    TagField,
};

verus! {

/// The whole-file failure of assembly: the bytes are not a readable
/// tagged-metadata container. Carries the reader's own description.
#[derive(Debug, Clone, PartialEq)]
pub struct ContainerError {
    pub message: String,
}

/// The tag container type of the `exif` crate, opaque here: the library
/// reads it only through [`raw_tags_of`]'s wrappers.
#[verifier::external_type_specification]
#[verifier::external_body]
pub struct ExExif(exif::Exif);

/// The raw values a container holds at the four tags of interest (primary
/// image): what `Exif::get_field` answers for each, converted to the
/// library's raw-value kinds. A container's tag table is fixed once
/// parsed, so this is a function of the container alone.
pub uninterp spec fn raw_tags_of(container: exif::Exif) -> RawTagsView;

/// The outcome of parsing `bytes` as a tagged-metadata container, seen
/// through the four tags of interest: `None` when the bytes are not a
/// readable container, otherwise the parsed container's raw values at
/// those tags. Parsing an in-memory byte sequence is deterministic, so
/// this is a function of the bytes alone.
pub uninterp spec fn container_tags_of(bytes: Seq<u8>) -> Option<RawTagsView>;

/// Opens the tag container held in `bytes`: succeeds exactly on the bytes
/// that parse as a container, and then returns the container those bytes
/// denote.
///
/// Relies on `exif::Reader::read_from_container`: it parses the container
/// from any in-memory reader, deterministically in the bytes, and fails
/// on bytes that are not a readable container; nothing further is assumed
/// of which bytes succeed.
#[verifier::external_body]
fn open_container(bytes: &Vec<u8>) -> (r: Result<exif::Exif, ContainerError>)
    ensures
        match r {
            Ok(c) => container_tags_of(bytes@) == Some(raw_tags_of(c)),
            Err(_) => container_tags_of(bytes@) is None,
        },
{
    let mut reader = std::io::Cursor::new(bytes.as_slice());
    match exif::Reader::new().read_from_container(&mut reader) {
        Ok(container) => Ok(container),
        Err(e) => Err(ContainerError { message: format!("{}", e) }),
    }
}

/// Looks up the four tags of interest in the primary image.
///
/// Relies on `exif::Exif::get_field` with the crate's `Tag::Orientation`,
/// `Tag::DateTimeOriginal`, `Tag::Model` and `Tag::BodySerialNumber`
/// constants: each lookup answers the container's value at that tag, here
/// converted variant-for-variant into the library's raw-value kinds.
#[verifier::external_body]
fn lookup_raw_tags(container: &exif::Exif) -> (r: RawTags)
    ensures
        r@ == raw_tags_of(*container),
{
    let conv = |f: &exif::Field| match &f.value {
        exif::Value::Short(v) => RawValue::Short(v.clone()),
        exif::Value::Ascii(v) => RawValue::Ascii(v.clone()),
        _ => RawValue::Other,
    };
    RawTags {
        orientation: container.get_field(exif::Tag::Orientation, exif::In::PRIMARY).map(conv),
        date_time_original: container.get_field(exif::Tag::DateTimeOriginal, exif::In::PRIMARY).map(
            conv,
        ),
        camera_model: container.get_field(exif::Tag::Model, exif::In::PRIMARY).map(conv),
        camera_serial: container.get_field(exif::Tag::BodySerialNumber, exif::In::PRIMARY).map(
            conv,
        ),
    }
}

/// The image attributes the four codecs yield from the four raw tags:
/// each field from its own tag alone.
pub open spec fn spec_image_metadata_of(tags: RawTagsView) -> ImageMetadataView {
    ImageMetadataView {
        orientation: spec_decode_orientation(tags.orientation).0,
        capture_time: spec_decode_capture_time(tags.date_time_original).0,
        camera_model: spec_decode_text(tags.camera_model).0,
        camera_serial: spec_decode_text(tags.camera_serial).0,
    }
}

/// The diagnostics the four codecs emit, in tag order: one entry, naming
/// its field, for each field whose tag was present but unusable.
pub open spec fn spec_image_issues(tags: RawTagsView) -> Seq<(TagField, FieldIssue)> {
    (match spec_decode_orientation(tags.orientation).1 {
        Some(i) => seq![(TagField::Orientation, i)],
        None => Seq::empty(),
    }) + (match spec_decode_capture_time(tags.date_time_original).1 {
        Some(i) => seq![(TagField::CaptureTime, i)],
        None => Seq::empty(),
    }) + (match spec_decode_text(tags.camera_model).1 {
        Some(i) => seq![(TagField::CameraModel, i)],
        None => Seq::empty(),
    }) + (match spec_decode_text(tags.camera_serial).1 {
        Some(i) => seq![(TagField::CameraSerial, i)],
        None => Seq::empty(),
    })
}

/// Runs the four codecs against the raw tags. Cannot fail: every field is
/// present or absent, and the diagnostics come back beside the result.
pub fn image_metadata_from_tags(tags: &RawTags) -> (r: (
    ImageMetadataOfInterest,
    Vec<(TagField, FieldIssue)>,
))
    ensures
        r.0@ == spec_image_metadata_of(tags@),
        r.1@ == spec_image_issues(tags@),
{
    let mut issues: Vec<(TagField, FieldIssue)> = Vec::new();
    let (orientation, oi) = decode_orientation(&tags.orientation);
    match oi {
        Some(i) => issues.push((TagField::Orientation, i)),
        None => (),
    }
    let (capture_time, ci) = decode_capture_time(&tags.date_time_original);
    match ci {
        Some(i) => issues.push((TagField::CaptureTime, i)),
        None => (),
    }
    let (camera_model, mi) = decode_text(&tags.camera_model);
    match mi {
        Some(i) => issues.push((TagField::CameraModel, i)),
        None => (),
    }
    let (camera_serial, si) = decode_text(&tags.camera_serial);
    match si {
        Some(i) => issues.push((TagField::CameraSerial, i)),
        None => (),
    }
    let meta = ImageMetadataOfInterest { orientation, capture_time, camera_model, camera_serial };
    proof {
        assert(issues@ =~= spec_image_issues(tags@));
    }
    (meta, issues)
}

/// Combines the file attributes with the codecs' output into one record.
/// Cannot fail: field-level problems have already degraded to absence.
pub fn assemble_metadata(file_metadata: FileMetadataOfInterest, tags: &RawTags) -> (r:
    MetadataOfInterest)
    ensures
        r@.file_metadata == file_metadata@,
        r@.image_metadata == spec_image_metadata_of(tags@),
{
    let (image_metadata, _issues) = image_metadata_from_tags(tags);
    MetadataOfInterest { file_metadata, image_metadata }
}

/// Assembles the record of one file: the given file attributes, plus the
/// image attributes read from the tagged-metadata container in `bytes` —
/// and, beside the record, the field diagnostics the codecs emitted.
/// Fails exactly when the bytes are not a readable container — the
/// whole-file failure; field-level problems never surface here.
pub fn read_metadata_from_bytes_with_issues(
    file_metadata: FileMetadataOfInterest,
    bytes: &Vec<u8>,
) -> (r: Result<(MetadataOfInterest, Vec<(TagField, FieldIssue)>), ContainerError>)
    ensures
        r is Ok <==> container_tags_of(bytes@) is Some,
        r matches Ok(p) ==> p.0@.file_metadata == file_metadata@ && (container_tags_of(bytes@)
            matches Some(t) && p.0@.image_metadata == spec_image_metadata_of(t) && p.1@
            == spec_image_issues(t)),
{
    match open_container(bytes) {
        Err(e) => Err(e),
        Ok(container) => {
            let tags = lookup_raw_tags(&container);
            proof {
                assert(container_tags_of(bytes@) == Some(tags@));
            }
            let (image_metadata, issues) = image_metadata_from_tags(&tags);
            Ok((MetadataOfInterest { file_metadata, image_metadata }, issues))
        },
    }
}

/// Assembles the record of one file: the given file attributes, plus the
/// image attributes read from the tagged-metadata container in `bytes`.
/// Fails exactly when the bytes are not a readable container — the
/// whole-file failure; field-level problems never surface here.
pub fn read_metadata_from_bytes(file_metadata: FileMetadataOfInterest, bytes: &Vec<u8>) -> (r:
    Result<MetadataOfInterest, ContainerError>)
    ensures
        r is Ok <==> container_tags_of(bytes@) is Some,
        r matches Ok(m) ==> m@.file_metadata == file_metadata@ && (container_tags_of(bytes@)
            matches Some(t) && m@.image_metadata == spec_image_metadata_of(t)),
{
    match read_metadata_from_bytes_with_issues(file_metadata, bytes) {
        Err(e) => Err(e),
        Ok((m, _issues)) => Ok(m),
    }
}

/// Field isolation: each image-attribute field depends on its own tag
/// alone, so a missing or corrupt tag leaves every other field exactly as
/// it would have been — and assembly still succeeds, by its type alone.
pub proof fn lemma_field_isolation(t1: RawTagsView, t2: RawTagsView)
    ensures
        t1.orientation == t2.orientation ==> spec_image_metadata_of(t1).orientation
            == spec_image_metadata_of(t2).orientation,
        t1.date_time_original == t2.date_time_original ==> spec_image_metadata_of(t1).capture_time
            == spec_image_metadata_of(t2).capture_time,
        t1.camera_model == t2.camera_model ==> spec_image_metadata_of(t1).camera_model
            == spec_image_metadata_of(t2).camera_model,
        t1.camera_serial == t2.camera_serial ==> spec_image_metadata_of(t1).camera_serial
            == spec_image_metadata_of(t2).camera_serial,
{
}

} // verus!
