use rusimeta::{
    deserialize_metadata, orientation_as_u16, serialize_metadata, Config, DateTime,
    FileMetadataOfInterest, ImageMetadataOfInterest, JsonError, MetadataOfInterest, Orientation,
};

fn record(
    filename: &str,
    size: u64,
    orientation: Option<Orientation>,
    capture_time: Option<DateTime>,
    camera_model: Option<&str>,
    camera_serial: Option<&str>,
) -> MetadataOfInterest {
    MetadataOfInterest {
        file_metadata: FileMetadataOfInterest {
            filename: filename.to_string(),
            size,
            created_time: None,
            modified_time: None,
        },
        image_metadata: ImageMetadataOfInterest {
            orientation,
            capture_time,
            camera_model: camera_model.map(|s| s.to_string()),
            camera_serial: camera_serial.map(|s| s.to_string()),
        },
    }
}

#[test]
fn complete_record_serializes_to_exact_canonical_text() {
    let m = record(
        "JAM19896.jpg",
        953_458,
        Some(Orientation::Normal),
        DateTime::new(2019, 7, 26, 13, 25, 33),
        Some("Canon EOS 5D Mark IV"),
        Some("025021000537"),
    );
    let text = serialize_metadata(&m);
    assert_eq!(
        text,
        "{\"filename\":\"JAM19896.jpg\",\"size\":953458,\"orientation\":1,\
         \"capture_time\":\"2019-07-26T13:25:33\",\"camera_model\":\"Canon EOS 5D Mark IV\",\
         \"camera_serial\":\"025021000537\"}"
    );
}

#[test]
fn complete_record_round_trips_through_json() {
    let m = record(
        "JAM19896.jpg",
        953_458,
        Some(Orientation::Normal),
        DateTime::new(2019, 7, 26, 13, 25, 33),
        Some("Canon EOS 5D Mark IV"),
        Some("025021000537"),
    );
    let text = serialize_metadata(&m);
    assert_eq!(deserialize_metadata(&text).unwrap(), m);
}

#[test]
fn partial_record_omits_absent_fields() {
    let m = record("rotated_CCW90.jpg", 327_616, Some(Orientation::QuarterRotationCCW), None, None, None);
    let text = serialize_metadata(&m);
    assert_eq!(
        text,
        "{\"filename\":\"rotated_CCW90.jpg\",\"size\":327616,\"orientation\":6}"
    );
    assert!(!text.contains("null"));
    assert_eq!(deserialize_metadata(&text).unwrap(), m);
}

#[test]
fn serialized_text_is_valid_json_for_an_independent_parser() {
    let m = record(
        "JAM19896.jpg",
        953_458,
        Some(Orientation::Normal),
        DateTime::new(2019, 7, 26, 13, 25, 33),
        Some("Canon EOS 5D Mark IV"),
        Some("025021000537"),
    );
    let text = serialize_metadata(&m);
    let v: serde_json::Value = serde_json::from_str(&text).unwrap();
    let obj = v.as_object().unwrap();
    assert_eq!(obj.len(), 6);
    assert_eq!(obj.get("filename").unwrap().as_str().unwrap(), "JAM19896.jpg");
    assert_eq!(obj.get("size").unwrap().as_u64().unwrap(), 953_458);
    assert_eq!(obj.get("orientation").unwrap().as_u64().unwrap(), 1);
    assert_eq!(
        obj.get("capture_time").unwrap().as_str().unwrap(),
        "2019-07-26T13:25:33"
    );
    assert_eq!(
        obj.get("camera_model").unwrap().as_str().unwrap(),
        "Canon EOS 5D Mark IV"
    );
    assert_eq!(
        obj.get("camera_serial").unwrap().as_str().unwrap(),
        "025021000537"
    );
    assert!(obj.get("created_time").is_none());
    assert!(obj.get("modified_time").is_none());
}

#[test]
fn timestamps_round_trip_as_utc_strings() {
    let mut m = record("a.jpg", 1, None, None, None, None);
    m.file_metadata.created_time = DateTime::new(2024, 2, 29, 23, 59, 59);
    m.file_metadata.modified_time = DateTime::new(2020, 1, 30, 9, 28, 7);
    let text = serialize_metadata(&m);
    assert!(text.contains("\"created_time\":\"2024-02-29T23:59:59Z\""));
    assert!(text.contains("\"modified_time\":\"2020-01-30T09:28:07Z\""));
    assert_eq!(deserialize_metadata(&text).unwrap(), m);
}

#[test]
fn strings_with_special_characters_round_trip() {
    let m = record(
        "we\"ird\\name\n.jpg",
        7,
        None,
        None,
        Some("model\twith\u{1}controls"),
        Some("caf\u{e9} s\u{2603}rial"),
    );
    let text = serialize_metadata(&m);
    assert!(text.contains("we\\\"ird\\\\name\\u000a.jpg"));
    assert_eq!(deserialize_metadata(&text).unwrap(), m);
    let v: serde_json::Value = serde_json::from_str(&text).unwrap();
    assert_eq!(
        v.as_object().unwrap().get("filename").unwrap().as_str().unwrap(),
        "we\"ird\\name\n.jpg"
    );
}

#[test]
fn deserialize_accepts_any_member_order_and_ignores_unknown_keys() {
    let text = "{\"size\":42,\"extra\":\"ignored\",\"filename\":\"x.jpg\",\"orientation\":8}";
    let m = deserialize_metadata(text).unwrap();
    assert_eq!(m.file_metadata.filename, "x.jpg");
    assert_eq!(m.file_metadata.size, 42);
    assert_eq!(m.image_metadata.orientation, Some(Orientation::QuarterRotationCW));
    assert_eq!(m.image_metadata.capture_time, None);
}

#[test]
fn malformed_texts_are_refused() {
    for text in [
        "",
        "{",
        "[]",
        "{\"filename\":}",
        "{\"filename\":\"a\",}",
        "{\"filename\":\"a\" \"size\":1}",
        "{\"size\":1.5,\"filename\":\"a\"}",
        "not json at all",
        "{\"filename\":\"a\",\"size\":1}trailing",
    ] {
        assert_eq!(deserialize_metadata(text), Err(JsonError::Malformed), "{:?}", text);
    }
}

#[test]
fn missing_required_fields_are_refused() {
    assert_eq!(
        deserialize_metadata("{\"size\":1}"),
        Err(JsonError::MissingRequired)
    );
    assert_eq!(
        deserialize_metadata("{\"filename\":\"a.jpg\"}"),
        Err(JsonError::MissingRequired)
    );
}

#[test]
fn wrongly_typed_fields_are_refused() {
    assert_eq!(
        deserialize_metadata("{\"filename\":7,\"size\":1}"),
        Err(JsonError::WrongType)
    );
    assert_eq!(
        deserialize_metadata("{\"filename\":\"a\",\"size\":\"big\"}"),
        Err(JsonError::WrongType)
    );
    assert_eq!(
        deserialize_metadata("{\"filename\":\"a\",\"size\":1,\"orientation\":9}"),
        Err(JsonError::WrongType)
    );
    assert_eq!(
        deserialize_metadata("{\"filename\":\"a\",\"size\":1,\"orientation\":0}"),
        Err(JsonError::WrongType)
    );
    assert_eq!(
        deserialize_metadata("{\"filename\":\"a\",\"size\":1,\"capture_time\":\"2019:07:26 13:25:33\"}"),
        Err(JsonError::WrongType)
    );
    assert_eq!(
        deserialize_metadata("{\"filename\":\"a\",\"size\":1,\"created_time\":\"2019-07-26T13:25:33\"}"),
        Err(JsonError::WrongType)
    );
}

#[test]
fn duplicated_known_keys_are_refused() {
    assert_eq!(
        deserialize_metadata("{\"filename\":\"a\",\"size\":1,\"size\":2}"),
        Err(JsonError::DuplicateKey)
    );
}

#[test]
fn orientation_codes_one_to_eight_map_to_distinct_values() {
    let mut seen = Vec::new();
    for code in 1u16..=8 {
        let o = Orientation::try_from(code).unwrap();
        assert_eq!(orientation_as_u16(o), code);
        assert!(!seen.contains(&o));
        seen.push(o);
    }
    assert_eq!(seen.len(), 8);
}

#[test]
fn orientation_codes_outside_the_domain_are_refused() {
    for code in [0u16, 9, 10, 100, u16::MAX] {
        assert_eq!(Orientation::try_from(code), Err(()));
    }
}

#[test]
fn date_time_rejects_impossible_calendar_dates() {
    assert!(DateTime::new(2019, 2, 29, 0, 0, 0).is_none());
    assert!(DateTime::new(2020, 2, 29, 0, 0, 0).is_some());
    assert!(DateTime::new(1900, 2, 29, 0, 0, 0).is_none());
    assert!(DateTime::new(2000, 2, 29, 0, 0, 0).is_some());
    assert!(DateTime::new(2019, 13, 1, 0, 0, 0).is_none());
    assert!(DateTime::new(2019, 4, 31, 0, 0, 0).is_none());
    assert!(DateTime::new(2019, 4, 30, 23, 59, 59).is_some());
    assert!(DateTime::new(2019, 4, 30, 24, 0, 0).is_none());
    assert!(DateTime::new(2019, 4, 30, 0, 0, 60).is_none());
}

#[test]
fn config_from_strings_keeps_paths_in_order() {
    let cfg = Config::from_strings(vec!["a.jpg".to_string(), "b/c.jpg".to_string()]);
    assert!(!cfg.print_help());
    assert_eq!(cfg.image_paths(), &vec!["a.jpg".to_string(), "b/c.jpg".to_string()]);
}

#[test]
fn config_from_args_handles_help_and_paths() {
    assert!(Config::from_args(vec!["prog".to_string()]).is_err());
    let help = Config::from_args(vec!["prog".to_string(), "-h".to_string()]).unwrap();
    assert!(help.print_help());
    assert!(help.image_paths().is_empty());
    let help2 = Config::from_args(vec!["prog".to_string(), "--help".to_string()]).unwrap();
    assert!(help2.print_help());
    let cfg = Config::from_args(vec![
        "prog".to_string(),
        "one.jpg".to_string(),
        "two.jpg".to_string(),
    ])
    .unwrap();
    assert!(!cfg.print_help());
    assert_eq!(cfg.image_paths(), &vec!["one.jpg".to_string(), "two.jpg".to_string()]);
}
