use rusimeta::{
    deserialize_metadata, file_name_of, image_metadata_from_tags, read_metadata_from_bytes,
    read_metadata_from_bytes_with_issues, serialize_metadata, sidecar_path_for, DateTime,
    FieldIssue, FileMetadataOfInterest, Orientation, RawTags, RawValue, TagField,
};

fn file_meta(filename: &str, size: u64) -> FileMetadataOfInterest {
    FileMetadataOfInterest {
        filename: filename.to_string(),
        size,
        created_time: None,
        modified_time: None,
    }
}

fn ascii(s: &str) -> RawValue {
    RawValue::Ascii(vec![s.as_bytes().to_vec()])
}

fn full_tags() -> RawTags {
    RawTags {
        orientation: Some(RawValue::Short(vec![1])),
        date_time_original: Some(ascii("2019:07:26 13:25:33")),
        camera_model: Some(ascii("Canon EOS 5D Mark IV")),
        camera_serial: Some(ascii("025021000537")),
    }
}

#[test]
fn codecs_decode_all_four_fields_of_a_complete_tag_set() {
    let (meta, issues) = image_metadata_from_tags(&full_tags());
    assert_eq!(meta.orientation, Some(Orientation::Normal));
    assert_eq!(meta.capture_time, DateTime::new(2019, 7, 26, 13, 25, 33));
    assert_eq!(meta.camera_model.as_deref(), Some("Canon EOS 5D Mark IV"));
    assert_eq!(meta.camera_serial.as_deref(), Some("025021000537"));
    assert!(issues.is_empty());
}

#[test]
fn an_absent_tag_leaves_only_its_own_field_absent() {
    let mut tags = full_tags();
    tags.date_time_original = None;
    let (meta, issues) = image_metadata_from_tags(&tags);
    assert_eq!(meta.capture_time, None);
    assert!(issues.is_empty());
    assert_eq!(meta.orientation, Some(Orientation::Normal));
    assert_eq!(meta.camera_model.as_deref(), Some("Canon EOS 5D Mark IV"));
    assert_eq!(meta.camera_serial.as_deref(), Some("025021000537"));
}

#[test]
fn a_corrupt_tag_degrades_to_absent_with_a_diagnostic() {
    let mut tags = full_tags();
    tags.date_time_original = Some(ascii("26.07.2019 13:25"));
    let (meta, issues) = image_metadata_from_tags(&tags);
    assert_eq!(meta.capture_time, None);
    assert_eq!(issues, vec![(TagField::CaptureTime, FieldIssue::BadFormat)]);
    assert_eq!(meta.orientation, Some(Orientation::Normal));
    assert_eq!(meta.camera_model.as_deref(), Some("Canon EOS 5D Mark IV"));
}

#[test]
fn codec_diagnostics_name_each_failure_kind() {
    let tags = RawTags {
        orientation: Some(RawValue::Short(vec![9])),
        date_time_original: Some(RawValue::Short(vec![3])),
        camera_model: Some(RawValue::Ascii(vec![vec![0xff, 0xfe]])),
        camera_serial: Some(RawValue::Other),
    };
    let (meta, issues) = image_metadata_from_tags(&tags);
    assert_eq!(meta.orientation, None);
    assert_eq!(meta.capture_time, None);
    assert_eq!(meta.camera_model, None);
    assert_eq!(meta.camera_serial, None);
    assert_eq!(
        issues,
        vec![
            (TagField::Orientation, FieldIssue::InvalidValue),
            (TagField::CaptureTime, FieldIssue::WrongKind),
            (TagField::CameraModel, FieldIssue::BadEncoding),
            (TagField::CameraSerial, FieldIssue::WrongKind),
        ]
    );
}

#[test]
fn an_empty_tag_sequence_is_silently_absent() {
    let tags = RawTags {
        orientation: Some(RawValue::Short(vec![])),
        date_time_original: Some(RawValue::Ascii(vec![])),
        camera_model: None,
        camera_serial: None,
    };
    let (meta, issues) = image_metadata_from_tags(&tags);
    assert_eq!(meta.orientation, None);
    assert_eq!(meta.capture_time, None);
    assert!(issues.is_empty());
}

#[test]
fn only_the_first_element_of_a_multi_valued_tag_counts() {
    let tags = RawTags {
        orientation: Some(RawValue::Short(vec![6, 1])),
        date_time_original: None,
        camera_model: Some(RawValue::Ascii(vec![
            b"first model".to_vec(),
            b"second model".to_vec(),
        ])),
        camera_serial: None,
    };
    let (meta, _) = image_metadata_from_tags(&tags);
    assert_eq!(meta.orientation, Some(Orientation::QuarterRotationCCW));
    assert_eq!(meta.camera_model.as_deref(), Some("first model"));
}

/// A minimal little-endian TIFF container holding one orientation tag.
fn tiff_with_orientation(code: u16) -> Vec<u8> {
    let mut b: Vec<u8> = Vec::new();
    b.extend_from_slice(b"II\x2a\x00");
    b.extend_from_slice(&8u32.to_le_bytes());
    b.extend_from_slice(&1u16.to_le_bytes());
    b.extend_from_slice(&0x0112u16.to_le_bytes());
    b.extend_from_slice(&3u16.to_le_bytes());
    b.extend_from_slice(&1u32.to_le_bytes());
    b.extend_from_slice(&code.to_le_bytes());
    b.extend_from_slice(&[0, 0]);
    b.extend_from_slice(&0u32.to_le_bytes());
    b
}

/// A little-endian TIFF container with orientation, camera model, and an
/// Exif sub-directory holding capture time and body serial number.
fn tiff_with_full_metadata() -> Vec<u8> {
    let model = b"Canon EOS 5D Mark IV\0";
    let dto = b"2019:07:26 13:25:33\0";
    let serial = b"025021000537\0";
    let mut b: Vec<u8> = Vec::new();
    b.extend_from_slice(b"II\x2a\x00");
    b.extend_from_slice(&8u32.to_le_bytes());
    // Primary directory at offset 8: three entries.
    b.extend_from_slice(&3u16.to_le_bytes());
    // Model, ASCII, stored at offset 80.
    b.extend_from_slice(&0x0110u16.to_le_bytes());
    b.extend_from_slice(&2u16.to_le_bytes());
    b.extend_from_slice(&(model.len() as u32).to_le_bytes());
    b.extend_from_slice(&80u32.to_le_bytes());
    // Orientation, one short, value 1.
    b.extend_from_slice(&0x0112u16.to_le_bytes());
    b.extend_from_slice(&3u16.to_le_bytes());
    b.extend_from_slice(&1u32.to_le_bytes());
    b.extend_from_slice(&1u16.to_le_bytes());
    b.extend_from_slice(&[0, 0]);
    // Exif sub-directory pointer to offset 50.
    b.extend_from_slice(&0x8769u16.to_le_bytes());
    b.extend_from_slice(&4u16.to_le_bytes());
    b.extend_from_slice(&1u32.to_le_bytes());
    b.extend_from_slice(&50u32.to_le_bytes());
    b.extend_from_slice(&0u32.to_le_bytes());
    // Exif sub-directory at offset 50: two entries.
    b.extend_from_slice(&2u16.to_le_bytes());
    b.extend_from_slice(&0x9003u16.to_le_bytes());
    b.extend_from_slice(&2u16.to_le_bytes());
    b.extend_from_slice(&(dto.len() as u32).to_le_bytes());
    b.extend_from_slice(&101u32.to_le_bytes());
    b.extend_from_slice(&0xa431u16.to_le_bytes());
    b.extend_from_slice(&2u16.to_le_bytes());
    b.extend_from_slice(&(serial.len() as u32).to_le_bytes());
    b.extend_from_slice(&121u32.to_le_bytes());
    b.extend_from_slice(&0u32.to_le_bytes());
    // Value area: model at 80, capture time at 101, serial at 121.
    assert_eq!(b.len(), 80);
    b.extend_from_slice(model);
    b.extend_from_slice(dto);
    b.extend_from_slice(serial);
    b
}

#[test]
fn a_container_with_full_metadata_yields_a_complete_record() {
    let bytes = tiff_with_full_metadata();
    let m = read_metadata_from_bytes(file_meta("JAM19896.jpg", 953_458), &bytes).unwrap();
    assert_eq!(m.file_metadata.filename, "JAM19896.jpg");
    assert_eq!(m.file_metadata.size, 953_458);
    assert_eq!(m.image_metadata.orientation, Some(Orientation::Normal));
    assert_eq!(m.image_metadata.capture_time, DateTime::new(2019, 7, 26, 13, 25, 33));
    assert_eq!(m.image_metadata.camera_model.as_deref(), Some("Canon EOS 5D Mark IV"));
    assert_eq!(m.image_metadata.camera_serial.as_deref(), Some("025021000537"));
    let text = serialize_metadata(&m);
    assert_eq!(
        text,
        "{\"filename\":\"JAM19896.jpg\",\"size\":953458,\"orientation\":1,\
         \"capture_time\":\"2019-07-26T13:25:33\",\"camera_model\":\"Canon EOS 5D Mark IV\",\
         \"camera_serial\":\"025021000537\"}"
    );
}

#[test]
fn a_container_with_only_an_orientation_yields_a_partial_record() {
    let bytes = tiff_with_orientation(6);
    let m = read_metadata_from_bytes(file_meta("rotated_CCW90.jpg", 327_616), &bytes).unwrap();
    assert_eq!(m.image_metadata.orientation, Some(Orientation::QuarterRotationCCW));
    assert_eq!(m.image_metadata.capture_time, None);
    assert_eq!(m.image_metadata.camera_model, None);
    assert_eq!(m.image_metadata.camera_serial, None);
    assert_eq!(
        serialize_metadata(&m),
        "{\"filename\":\"rotated_CCW90.jpg\",\"size\":327616,\"orientation\":6}"
    );
}

#[test]
fn a_container_with_an_out_of_domain_orientation_reports_the_field() {
    let bytes = tiff_with_orientation(9);
    let (m, issues) =
        read_metadata_from_bytes_with_issues(file_meta("odd.jpg", 99), &bytes).unwrap();
    assert_eq!(m.image_metadata.orientation, None);
    assert_eq!(issues, vec![(TagField::Orientation, FieldIssue::InvalidValue)]);
    assert_eq!(
        serialize_metadata(&m),
        "{\"filename\":\"odd.jpg\",\"size\":99}"
    );
}

#[test]
fn a_clean_container_reports_no_issues() {
    let bytes = tiff_with_full_metadata();
    let (_, issues) =
        read_metadata_from_bytes_with_issues(file_meta("JAM19896.jpg", 953_458), &bytes).unwrap();
    assert!(issues.is_empty());
}

#[test]
fn bytes_that_are_no_container_fail_as_a_whole_file() {
    let text_file = b"This is just a text file, not an image.".to_vec();
    assert!(read_metadata_from_bytes(file_meta("notanimage.txt", 39), &text_file).is_err());
    let mp3ish = vec![0x49, 0x44, 0x33, 0x03, 0x00, 0x00, 0x00, 0x00];
    assert!(read_metadata_from_bytes(file_meta("song.mp3", 8), &mp3ish).is_err());
}

#[test]
fn a_failing_file_does_not_abort_the_rest_of_a_batch() {
    let inputs: Vec<(&str, Vec<u8>)> = vec![
        ("good1.jpg", tiff_with_orientation(1)),
        ("bad.txt", b"not an image".to_vec()),
        ("good2.jpg", tiff_with_orientation(8)),
    ];
    let mut sidecars = Vec::new();
    let mut failures = Vec::new();
    for (name, bytes) in &inputs {
        match read_metadata_from_bytes(file_meta(name, bytes.len() as u64), bytes) {
            Ok(m) => sidecars.push((sidecar_path_for(name).unwrap(), serialize_metadata(&m))),
            Err(_) => failures.push(name.to_string()),
        }
    }
    assert_eq!(failures, vec!["bad.txt".to_string()]);
    assert_eq!(sidecars.len(), 2);
    assert_eq!(sidecars[0].0, "good1.json");
    assert_eq!(sidecars[1].0, "good2.json");
}

#[test]
fn processing_the_same_file_twice_gives_identical_sidecar_content() {
    let bytes = tiff_with_full_metadata();
    let once = serialize_metadata(
        &read_metadata_from_bytes(file_meta("JAM19896.jpg", 953_458), &bytes).unwrap(),
    );
    let again = serialize_metadata(
        &read_metadata_from_bytes(file_meta("JAM19896.jpg", 953_458), &bytes).unwrap(),
    );
    assert_eq!(once, again);
    assert_eq!(deserialize_metadata(&once), deserialize_metadata(&again));
}

#[test]
fn sidecar_paths_keep_the_directory_and_stem() {
    assert_eq!(
        sidecar_path_for("tests/resource/images1/JAM19896.jpg").as_deref(),
        Some("tests/resource/images1/JAM19896.json")
    );
    assert_eq!(
        sidecar_path_for("/abs/dir/JAM19896.jpg").as_deref(),
        Some("/abs/dir/JAM19896.json")
    );
    assert_eq!(sidecar_path_for("plain.jpg").as_deref(), Some("plain.json"));
    assert_eq!(sidecar_path_for("noextension").as_deref(), Some("noextension.json"));
    assert_eq!(sidecar_path_for("x.tar.gz").as_deref(), Some("x.tar.json"));
    assert_eq!(sidecar_path_for("dir.v2/.hidden").as_deref(), Some("dir.v2/.hidden.json"));
    assert_eq!(sidecar_path_for("dir/"), None);
    assert_eq!(sidecar_path_for(""), None);
}

#[test]
fn file_names_are_the_final_path_component() {
    assert_eq!(file_name_of("a/b/c.jpg").as_deref(), Some("c.jpg"));
    assert_eq!(file_name_of("c.jpg").as_deref(), Some("c.jpg"));
    assert_eq!(file_name_of("/x/y/"), None);
    assert_eq!(file_name_of(""), None);
}
