//! The sidecar schema: a metadata record as a flat JSON object.
//!
//! Writing produces one canonical text: `filename` and `size` always, then
//! each optional field only when present — an absent field is omitted, never
//! written as `null`. Reading accepts the members in any order, ignores
//! unknown keys, refuses a duplicated known key, a missing required field,
//! and a known key whose value has the wrong type or form. Reading back a
//! written record gives the record again.

use vstd::prelude::*;

use crate::datetime::{parse_date_time, push_date_time, spec_format_date_time, spec_parse_date_time, DateTime};
use crate::json::{
    members_view, parse_object, serialize_object, spec_parse_object, spec_ser_object, JsonMember,
    JsonMemberView, JsonValue, JsonValueView,
};
use crate::orientation::{orientation_as_u16, spec_orientation_code, spec_orientation_of_code, Orientation};
use crate::record::{
    FileMetadataOfInterest, FileMetadataView, ImageMetadataOfInterest, ImageMetadataView,
    MetadataOfInterest, MetadataView,
};
use crate::text::{chars_of_str, string_from_chars};

verus! {

/// Why a sidecar text was refused.
#[derive(Debug, Clone, Copy, PartialEq, Eq, Structural)]
pub enum JsonError {
    /// The text is not a JSON object of the accepted form.
    Malformed,
    /// A required field (`filename` or `size`) is absent.
    MissingRequired,
    /// A known key holds a value of the wrong type or form.
    WrongType,
    /// A known key appears more than once.
    DuplicateKey,
}

/// The JSON text of a UTC timestamp: the fixed date-time layout with `'-'`
/// and `'T'` separators, followed by `'Z'`.
pub open spec fn spec_utc_string(t: DateTime) -> Seq<char> {
    spec_format_date_time(t, '-', 'T') + seq!['Z']
}

/// The JSON text of a naive date-time: the fixed layout with `'-'` and
/// `'T'` separators.
pub open spec fn spec_iso_string(t: DateTime) -> Seq<char> {
    spec_format_date_time(t, '-', 'T')
}

/// The member list a record serializes to: the required fields first, then
/// each optional field exactly when it is present, in the fixed order.
pub open spec fn spec_record_members(m: MetadataView) -> Seq<JsonMemberView> {
    seq![
        JsonMemberView { key: "filename"@, value: JsonValueView::Str(m.file_metadata.filename) },
        JsonMemberView { key: "size"@, value: JsonValueView::UInt(m.file_metadata.size) },
    ] + (match m.file_metadata.created_time {
        Some(t) => seq![
            JsonMemberView { key: "created_time"@, value: JsonValueView::Str(spec_utc_string(t)) },
        ],
        None => Seq::empty(),
    }) + (match m.file_metadata.modified_time {
        Some(t) => seq![
            JsonMemberView { key: "modified_time"@, value: JsonValueView::Str(spec_utc_string(t)) },
        ],
        None => Seq::empty(),
    }) + (match m.image_metadata.orientation {
        Some(o) => seq![
            JsonMemberView {
                key: "orientation"@,
                value: JsonValueView::UInt(spec_orientation_code(o) as u64),
            },
        ],
        None => Seq::empty(),
    }) + (match m.image_metadata.capture_time {
        Some(t) => seq![
            JsonMemberView { key: "capture_time"@, value: JsonValueView::Str(spec_iso_string(t)) },
        ],
        None => Seq::empty(),
    }) + (match m.image_metadata.camera_model {
        Some(s) => seq![JsonMemberView { key: "camera_model"@, value: JsonValueView::Str(s) }],
        None => Seq::empty(),
    }) + (match m.image_metadata.camera_serial {
        Some(s) => seq![JsonMemberView { key: "camera_serial"@, value: JsonValueView::Str(s) }],
        None => Seq::empty(),
    })
}

/// The canonical sidecar text of a record.
pub open spec fn spec_serialize_record(m: MetadataView) -> Seq<char> {
    spec_ser_object(spec_record_members(m))
}

/// The JSON text of a UTC timestamp.
fn utc_string(t: &DateTime) -> (s: String)
    requires
        t.wf(),
    ensures
        s@ == spec_utc_string(*t),
{
    let mut v: Vec<char> = Vec::new();
    push_date_time(t, '-', 'T', &mut v);
    v.push('Z');
    string_from_chars(&v)
}

/// The JSON text of a naive date-time.
fn iso_string(t: &DateTime) -> (s: String)
    requires
        t.wf(),
    ensures
        s@ == spec_iso_string(*t),
{
    let mut v: Vec<char> = Vec::new();
    push_date_time(t, '-', 'T', &mut v);
    string_from_chars(&v)
}

/// Builds the member list of a record, in the fixed field order, omitting
/// absent optional fields.
#[verifier::rlimit(100)]
fn build_members(m: &MetadataOfInterest) -> (ms: Vec<JsonMember>)
    requires
        m@.wf(),
    ensures
        members_view(ms@) == spec_record_members(m@),
{
    let mut ms: Vec<JsonMember> = Vec::new();
    ms.push(
        JsonMember {
            key: String::from_str("filename"),
            value: JsonValue::Str(clone_string(&m.file_metadata.filename)),
        },
    );
    ms.push(
        JsonMember { key: String::from_str("size"), value: JsonValue::UInt(m.file_metadata.size) },
    );
    match &m.file_metadata.created_time {
        Some(t) => ms.push(
            JsonMember {
                key: String::from_str("created_time"),
                value: JsonValue::Str(utc_string(t)),
            },
        ),
        None => (),
    }
    match &m.file_metadata.modified_time {
        Some(t) => ms.push(
            JsonMember {
                key: String::from_str("modified_time"),
                value: JsonValue::Str(utc_string(t)),
            },
        ),
        None => (),
    }
    match &m.image_metadata.orientation {
        Some(o) => ms.push(
            JsonMember {
                key: String::from_str("orientation"),
                value: JsonValue::UInt(orientation_as_u16(*o) as u64),
            },
        ),
        None => (),
    }
    match &m.image_metadata.capture_time {
        Some(t) => ms.push(
            JsonMember {
                key: String::from_str("capture_time"),
                value: JsonValue::Str(iso_string(t)),
            },
        ),
        None => (),
    }
    match &m.image_metadata.camera_model {
        Some(s) => ms.push(
            JsonMember { key: String::from_str("camera_model"), value: JsonValue::Str(clone_string(s)) },
        ),
        None => (),
    }
    match &m.image_metadata.camera_serial {
        Some(s) => ms.push(
            JsonMember { key: String::from_str("camera_serial"), value: JsonValue::Str(clone_string(s)) },
        ),
        None => (),
    }
    proof {
        assert(members_view(ms@) =~= spec_record_members(m@));
    }
    ms
}

/// A copy of a string with the same characters.
fn clone_string(s: &String) -> (r: String)
    ensures
        r@ == s@,
{
    s.clone()
}

/// The canonical sidecar JSON text of a record: a flat object holding
/// `filename` and `size` always, and each optional field exactly when it
/// is present, in the fixed field order, with absent fields omitted.
pub fn serialize_metadata(m: &MetadataOfInterest) -> (s: String)
    requires
        m@.wf(),
    ensures
        s@ == spec_serialize_record(m@),
{
    let ms = build_members(m);
    let chars = serialize_object(&ms);
    string_from_chars(&chars)
}

/// How often a key occurs in a member list.
pub open spec fn spec_key_count(ms: Seq<JsonMemberView>, key: Seq<char>) -> nat
    decreases ms.len(),
{
    if ms.len() == 0 {
        0
    } else {
        (if ms[0].key == key {
            1nat
        } else {
            0nat
        }) + spec_key_count(ms.drop_first(), key)
    }
}

/// The value of the first member with the given key, if any.
pub open spec fn spec_find(ms: Seq<JsonMemberView>, key: Seq<char>) -> Option<JsonValueView>
    decreases ms.len(),
{
    if ms.len() == 0 {
        None
    } else if ms[0].key == key {
        Some(ms[0].value)
    } else {
        spec_find(ms.drop_first(), key)
    }
}

/// The date-time denoted by a UTC timestamp text: the fixed layout with
/// `'-'` and `'T'` separators followed by `'Z'`, twenty characters in all.
pub open spec fn spec_parse_utc(t: Seq<char>) -> Option<DateTime> {
    if t.len() == 20 && t[19] == 'Z' {
        spec_parse_date_time(t.subrange(0, 19), '-', 'T')
    } else {
        None
    }
}

/// The date-time denoted by a naive date-time text: the fixed layout with
/// `'-'` and `'T'` separators.
pub open spec fn spec_parse_iso(t: Seq<char>) -> Option<DateTime> {
    spec_parse_date_time(t, '-', 'T')
}

/// A required string field: absent is an error, as is a non-string value.
pub open spec fn spec_req_str(ms: Seq<JsonMemberView>, key: Seq<char>) -> Result<
    Seq<char>,
    JsonError,
> {
    match spec_find(ms, key) {
        None => Err(JsonError::MissingRequired),
        Some(JsonValueView::Str(s)) => Ok(s),
        Some(JsonValueView::UInt(_)) => Err(JsonError::WrongType),
    }
}

/// A required unsigned-integer field.
pub open spec fn spec_req_uint(ms: Seq<JsonMemberView>, key: Seq<char>) -> Result<u64, JsonError> {
    match spec_find(ms, key) {
        None => Err(JsonError::MissingRequired),
        Some(JsonValueView::UInt(n)) => Ok(n),
        Some(JsonValueView::Str(_)) => Err(JsonError::WrongType),
    }
}

/// An optional UTC timestamp field: absent deserializes to absent; present
/// it must be a string in the UTC layout.
pub open spec fn spec_opt_utc(ms: Seq<JsonMemberView>, key: Seq<char>) -> Result<
    Option<DateTime>,
    JsonError,
> {
    match spec_find(ms, key) {
        None => Ok(None),
        Some(JsonValueView::Str(t)) => match spec_parse_utc(t) {
            Some(dt) => Ok(Some(dt)),
            None => Err(JsonError::WrongType),
        },
        Some(JsonValueView::UInt(_)) => Err(JsonError::WrongType),
    }
}

/// An optional naive date-time field.
pub open spec fn spec_opt_iso(ms: Seq<JsonMemberView>, key: Seq<char>) -> Result<
    Option<DateTime>,
    JsonError,
> {
    match spec_find(ms, key) {
        None => Ok(None),
        Some(JsonValueView::Str(t)) => match spec_parse_iso(t) {
            Some(dt) => Ok(Some(dt)),
            None => Err(JsonError::WrongType),
        },
        Some(JsonValueView::UInt(_)) => Err(JsonError::WrongType),
    }
}

/// The optional orientation field: present it must be an integer in 1..=8,
/// which names the orientation.
pub open spec fn spec_opt_orientation(ms: Seq<JsonMemberView>, key: Seq<char>) -> Result<
    Option<Orientation>,
    JsonError,
> {
    match spec_find(ms, key) {
        None => Ok(None),
        Some(JsonValueView::UInt(n)) => if 1 <= n <= 8 {
            Ok(spec_orientation_of_code(n as u16))
        } else {
            Err(JsonError::WrongType)
        },
        Some(JsonValueView::Str(_)) => Err(JsonError::WrongType),
    }
}

/// An optional string field.
pub open spec fn spec_opt_str(ms: Seq<JsonMemberView>, key: Seq<char>) -> Result<
    Option<Seq<char>>,
    JsonError,
> {
    match spec_find(ms, key) {
        None => Ok(None),
        Some(JsonValueView::Str(s)) => Ok(Some(s)),
        Some(JsonValueView::UInt(_)) => Err(JsonError::WrongType),
    }
}

/// True when some known key occurs more than once.
pub open spec fn spec_dup_known_key(ms: Seq<JsonMemberView>) -> bool {
    ||| spec_key_count(ms, "filename"@) > 1
    ||| spec_key_count(ms, "size"@) > 1
    ||| spec_key_count(ms, "created_time"@) > 1
    ||| spec_key_count(ms, "modified_time"@) > 1
    ||| spec_key_count(ms, "orientation"@) > 1
    ||| spec_key_count(ms, "capture_time"@) > 1
    ||| spec_key_count(ms, "camera_model"@) > 1
    ||| spec_key_count(ms, "camera_serial"@) > 1
}

/// The record denoted by a member list: a duplicated known key is refused
/// first; then the required fields are read, then each optional field, in
/// the fixed field order; unknown keys are ignored.
pub open spec fn spec_record_of_members(ms: Seq<JsonMemberView>) -> Result<
    MetadataView,
    JsonError,
> {
    if spec_dup_known_key(ms) {
        Err(JsonError::DuplicateKey)
    } else {
        match spec_req_str(ms, "filename"@) {
            Err(e) => Err(e),
            Ok(filename) => match spec_req_uint(ms, "size"@) {
                Err(e) => Err(e),
                Ok(size) => match spec_opt_utc(ms, "created_time"@) {
                    Err(e) => Err(e),
                    Ok(created_time) => match spec_opt_utc(ms, "modified_time"@) {
                        Err(e) => Err(e),
                        Ok(modified_time) => match spec_opt_orientation(ms, "orientation"@) {
                            Err(e) => Err(e),
                            Ok(orientation) => match spec_opt_iso(ms, "capture_time"@) {
                                Err(e) => Err(e),
                                Ok(capture_time) => match spec_opt_str(ms, "camera_model"@) {
                                    Err(e) => Err(e),
                                    Ok(camera_model) => match spec_opt_str(
                                        ms,
                                        "camera_serial"@,
                                    ) {
                                        Err(e) => Err(e),
                                        Ok(camera_serial) => Ok(
                                            MetadataView {
                                                file_metadata: FileMetadataView {
                                                    filename,
                                                    size,
                                                    created_time,
                                                    modified_time,
                                                },
                                                image_metadata: ImageMetadataView {
                                                    orientation,
                                                    capture_time,
                                                    camera_model,
                                                    camera_serial,
                                                },
                                            },
                                        ),
                                    },
                                },
                            },
                        },
                    },
                },
            },
        }
    }
}

/// The record denoted by a sidecar text: the object members read as a
/// record, or `Malformed` when the text is not an accepted JSON object.
pub open spec fn spec_deserialize_record(t: Seq<char>) -> Result<MetadataView, JsonError> {
    match spec_parse_object(t) {
        None => Err(JsonError::Malformed),
        Some(ms) => spec_record_of_members(ms),
    }
}

/// True when `k` reads as the same characters as `lit`.
fn key_is(k: &String, lit: &str) -> (r: bool)
    ensures
        r == (k@ == lit@),
{
    let s = String::from_str(lit);
    *k == s
}

/// Counts the members whose key is `lit`.
fn count_key(ms: &Vec<JsonMember>, lit: &str) -> (r: usize)
    ensures
        r == spec_key_count(members_view(ms@), lit@),
{
    let n = ms.len();
    let mut cnt: usize = 0;
    let mut i: usize = 0;
    while i < n
        invariant
            n == ms@.len(),
            0 <= i <= n,
            cnt <= i,
            cnt == spec_key_count(members_view(ms@).take(i as int), lit@),
        decreases n - i,
    {
        let hit = key_is(&ms[i].key, lit);
        proof {
            let mv = members_view(ms@);
            assert(mv.take(i + 1 as int) =~= mv.take(i as int).push(mv[i as int]));
            lemma_key_count_push(mv.take(i as int), mv[i as int], lit@);
            assert(mv[i as int].key == ms@[i as int]@.key);
        }
        if hit {
            cnt = cnt + 1;
        }
        i = i + 1;
    }
    proof {
        assert(members_view(ms@).take(n as int) =~= members_view(ms@));
    }
    cnt
}

/// Counting a member list extended by one member adds one exactly when the
/// new member carries the counted key.
proof fn lemma_key_count_push(ms: Seq<JsonMemberView>, m: JsonMemberView, key: Seq<char>)
    ensures
        spec_key_count(ms.push(m), key) == spec_key_count(ms, key) + (if m.key == key {
            1nat
        } else {
            0nat
        }),
    decreases ms.len(),
{
    reveal_with_fuel(spec_key_count, 2);
    if ms.len() == 0 {
        assert(ms.push(m)[0] == m);
        assert(ms.push(m).drop_first() =~= Seq::<JsonMemberView>::empty());
        assert(spec_key_count(ms.push(m).drop_first(), key) == 0);
    } else {
        lemma_key_count_push(ms.drop_first(), m, key);
        assert(ms.push(m)[0] == ms[0]);
        assert(ms.push(m).drop_first() =~= ms.drop_first().push(m));
        assert(spec_key_count(ms.push(m).drop_first(), key) == spec_key_count(ms.drop_first(), key)
            + (if m.key == key {
            1nat
        } else {
            0nat
        }));
    }
}

/// The index of the first member whose key is `lit`, if any.
fn find_key(ms: &Vec<JsonMember>, lit: &str) -> (r: Option<usize>)
    ensures
        match r {
            Some(i) => i < ms@.len() && spec_find(members_view(ms@), lit@) == Some(
                ms@[i as int]@.value,
            ),
            None => spec_find(members_view(ms@), lit@) is None,
        },
{
    let n = ms.len();
    proof {
        assert(members_view(ms@).skip(0) =~= members_view(ms@));
    }
    let mut i: usize = 0;
    while i < n
        invariant
            n == ms@.len(),
            0 <= i <= n,
            spec_find(members_view(ms@), lit@) == spec_find(
                members_view(ms@).skip(i as int),
                lit@,
            ),
        decreases n - i,
    {
        let hit = key_is(&ms[i].key, lit);
        proof {
            let mv = members_view(ms@);
            assert(mv.skip(i as int)[0] == mv[i as int]);
            assert(mv.skip(i as int).drop_first() =~= mv.skip(i + 1 as int));
            assert(mv[i as int].key == ms@[i as int]@.key);
        }
        if hit {
            return Some(i);
        }
        i = i + 1;
    }
    proof {
        assert(members_view(ms@).skip(n as int) =~= Seq::<JsonMemberView>::empty());
    }
    None
}

/// Parses a UTC timestamp text.
fn parse_utc_string(t: &String) -> (r: Option<DateTime>)
    ensures
        r == spec_parse_utc(t@),
        r matches Some(dt) ==> dt.wf(),
{
    let mut cs = chars_of_str(t.as_str());
    if cs.len() == 20 && cs[19] == 'Z' {
        cs.truncate(19);
        proof {
            assert(cs@ =~= t@.subrange(0, 19));
        }
        parse_date_time(&cs, '-', 'T')
    } else {
        None
    }
}

/// Parses a naive date-time text.
fn parse_iso_string(t: &String) -> (r: Option<DateTime>)
    ensures
        r == spec_parse_iso(t@),
        r matches Some(dt) ==> dt.wf(),
{
    let cs = chars_of_str(t.as_str());
    parse_date_time(&cs, '-', 'T')
}

/// Builds the record a member list denotes; refuses exactly what the
/// schema refuses, with the same error.
fn record_of_members(ms: &Vec<JsonMember>) -> (r: Result<MetadataOfInterest, JsonError>)
    ensures
        match (r, spec_record_of_members(members_view(ms@))) {
            (Ok(rec), Ok(v)) => rec@ == v,
            (Err(e1), Err(e2)) => e1 == e2,
            _ => false,
        },
{
    if count_key(ms, "filename") > 1 || count_key(ms, "size") > 1 || count_key(ms, "created_time")
        > 1 || count_key(ms, "modified_time") > 1 || count_key(ms, "orientation") > 1 || count_key(
        ms,
        "capture_time",
    ) > 1 || count_key(ms, "camera_model") > 1 || count_key(ms, "camera_serial") > 1 {
        return Err(JsonError::DuplicateKey);
    }
    let filename: String = match find_key(ms, "filename") {
        None => {
            return Err(JsonError::MissingRequired);
        },
        Some(i) => match &ms[i].value {
            JsonValue::Str(s) => clone_string(s),
            JsonValue::UInt(_) => {
                return Err(JsonError::WrongType);
            },
        },
    };
    let size: u64 = match find_key(ms, "size") {
        None => {
            return Err(JsonError::MissingRequired);
        },
        Some(i) => match &ms[i].value {
            JsonValue::UInt(n) => *n,
            JsonValue::Str(_) => {
                return Err(JsonError::WrongType);
            },
        },
    };
    let created_time: Option<DateTime> = match find_key(ms, "created_time") {
        None => None,
        Some(i) => match &ms[i].value {
            JsonValue::Str(t) => match parse_utc_string(t) {
                Some(dt) => Some(dt),
                None => {
                    return Err(JsonError::WrongType);
                },
            },
            JsonValue::UInt(_) => {
                return Err(JsonError::WrongType);
            },
        },
    };
    let modified_time: Option<DateTime> = match find_key(ms, "modified_time") {
        None => None,
        Some(i) => match &ms[i].value {
            JsonValue::Str(t) => match parse_utc_string(t) {
                Some(dt) => Some(dt),
                None => {
                    return Err(JsonError::WrongType);
                },
            },
            JsonValue::UInt(_) => {
                return Err(JsonError::WrongType);
            },
        },
    };
    let orientation: Option<Orientation> = match find_key(ms, "orientation") {
        None => None,
        Some(i) => match &ms[i].value {
            JsonValue::UInt(n) => {
                if 1 <= *n && *n <= 8 {
                    match Orientation::try_from(*n as u16) {
                        Ok(o) => Some(o),
                        Err(_) => {
                            return Err(JsonError::WrongType);
                        },
                    }
                } else {
                    return Err(JsonError::WrongType);
                }
            },
            JsonValue::Str(_) => {
                return Err(JsonError::WrongType);
            },
        },
    };
    let capture_time: Option<DateTime> = match find_key(ms, "capture_time") {
        None => None,
        Some(i) => match &ms[i].value {
            JsonValue::Str(t) => match parse_iso_string(t) {
                Some(dt) => Some(dt),
                None => {
                    return Err(JsonError::WrongType);
                },
            },
            JsonValue::UInt(_) => {
                return Err(JsonError::WrongType);
            },
        },
    };
    let camera_model: Option<String> = match find_key(ms, "camera_model") {
        None => None,
        Some(i) => match &ms[i].value {
            JsonValue::Str(s) => Some(clone_string(s)),
            JsonValue::UInt(_) => {
                return Err(JsonError::WrongType);
            },
        },
    };
    let camera_serial: Option<String> = match find_key(ms, "camera_serial") {
        None => None,
        Some(i) => match &ms[i].value {
            JsonValue::Str(s) => Some(clone_string(s)),
            JsonValue::UInt(_) => {
                return Err(JsonError::WrongType);
            },
        },
    };
    Ok(
        MetadataOfInterest {
            file_metadata: FileMetadataOfInterest { filename, size, created_time, modified_time },
            image_metadata: ImageMetadataOfInterest {
                orientation,
                capture_time,
                camera_model,
                camera_serial,
            },
        },
    )
}

/// Reads a sidecar JSON text back into a record: returns exactly the
/// record the text denotes, or the error the schema assigns — `Malformed`
/// for a text that is not an accepted JSON object, `MissingRequired` when
/// `filename` or `size` is absent, `WrongType` for a known key whose value
/// has the wrong type or form, `DuplicateKey` for a repeated known key.
pub fn deserialize_metadata(s: &str) -> (r: Result<MetadataOfInterest, JsonError>)
    ensures
        match (r, spec_deserialize_record(s@)) {
            (Ok(rec), Ok(v)) => rec@ == v,
            (Err(e1), Err(e2)) => e1 == e2,
            _ => false,
        },
{
    let cs = chars_of_str(s);
    match parse_object(&cs) {
        None => Err(JsonError::Malformed),
        Some(ms) => record_of_members(&ms),
    }
}

/// Key counts distribute over concatenation of member lists.
proof fn lemma_count_concat_all(a: Seq<JsonMemberView>, b: Seq<JsonMemberView>)
    ensures
        forall|k: Seq<char>|
            #[trigger] spec_key_count(a + b, k) == spec_key_count(a, k) + spec_key_count(b, k),
    decreases a.len(),
{
    if a.len() == 0 {
        assert forall|k: Seq<char>|
            #[trigger] spec_key_count(a + b, k) == spec_key_count(a, k) + spec_key_count(
                b,
                k,
            ) by {
            assert(a + b =~= b);
        }
    } else {
        lemma_count_concat_all(a.drop_first(), b);
        assert forall|k: Seq<char>|
            #[trigger] spec_key_count(a + b, k) == spec_key_count(a, k) + spec_key_count(
                b,
                k,
            ) by {
            assert((a + b)[0] == a[0]);
            assert((a + b).drop_first() =~= a.drop_first() + b);
            assert(spec_key_count((a + b).drop_first(), k) == spec_key_count(
                a.drop_first() + b,
                k,
            ));
        }
    }
}

/// Finding a key in a concatenation looks in the first part, then the
/// second.
proof fn lemma_find_concat_all(a: Seq<JsonMemberView>, b: Seq<JsonMemberView>)
    ensures
        forall|k: Seq<char>|
            #[trigger] spec_find(a + b, k) == (match spec_find(a, k) {
                Some(v) => Some(v),
                None => spec_find(b, k),
            }),
    decreases a.len(),
{
    if a.len() == 0 {
        assert forall|k: Seq<char>|
            #[trigger] spec_find(a + b, k) == (match spec_find(a, k) {
                Some(v) => Some(v),
                None => spec_find(b, k),
            }) by {
            assert(a + b =~= b);
        }
    } else {
        lemma_find_concat_all(a.drop_first(), b);
        assert forall|k: Seq<char>|
            #[trigger] spec_find(a + b, k) == (match spec_find(a, k) {
                Some(v) => Some(v),
                None => spec_find(b, k),
            }) by {
            assert((a + b)[0] == a[0]);
            assert((a + b).drop_first() =~= a.drop_first() + b);
            assert(spec_find((a + b).drop_first(), k) == spec_find(a.drop_first() + b, k));
        }
    }
}

/// Counting and finding in a one-member or empty segment.
proof fn lemma_segment_all(seg: Seq<JsonMemberView>)
    requires
        seg.len() <= 1,
    ensures
        forall|k: Seq<char>|
            #[trigger] spec_key_count(seg, k) == (if seg.len() == 1 && seg[0].key == k {
                1nat
            } else {
                0nat
            }),
        forall|k: Seq<char>|
            #[trigger] spec_find(seg, k) == (if seg.len() == 1 && seg[0].key == k {
                Some(seg[0].value)
            } else {
                None
            }),
{
    if seg.len() == 1 {
        assert(seg.drop_first() =~= Seq::<JsonMemberView>::empty());
        assert forall|k: Seq<char>|
            #[trigger] spec_key_count(seg, k) == (if seg.len() == 1 && seg[0].key == k {
                1nat
            } else {
                0nat
            }) by {
            assert(spec_key_count(seg.drop_first(), k) == 0);
        }
        assert forall|k: Seq<char>|
            #[trigger] spec_find(seg, k) == (if seg.len() == 1 && seg[0].key == k {
                Some(seg[0].value)
            } else {
                None
            }) by {
            assert(spec_find(seg.drop_first(), k) is None);
        }
    }
}

/// The member list of a record, split into its segments: the two required
/// members, then one segment per optional field, empty when that field is
/// absent.
proof fn lemma_record_members_shape(m: MetadataView)
    ensures
        ({
            let all = spec_record_members(m);
            let a = seq![
                JsonMemberView {
                    key: "filename"@,
                    value: JsonValueView::Str(m.file_metadata.filename),
                },
                JsonMemberView { key: "size"@, value: JsonValueView::UInt(m.file_metadata.size) },
            ];
            let b = spec_opt_segment_utc("created_time"@, m.file_metadata.created_time);
            let c = spec_opt_segment_utc("modified_time"@, m.file_metadata.modified_time);
            let d = spec_opt_segment_orientation(m.image_metadata.orientation);
            let e = spec_opt_segment_iso("capture_time"@, m.image_metadata.capture_time);
            let f = spec_opt_segment_str("camera_model"@, m.image_metadata.camera_model);
            let g = spec_opt_segment_str("camera_serial"@, m.image_metadata.camera_serial);
            all == a + b + c + d + e + f + g
        }),
{
}

/// The optional segment of a UTC timestamp field.
pub open spec fn spec_opt_segment_utc(key: Seq<char>, ot: Option<DateTime>) -> Seq<
    JsonMemberView,
> {
    match ot {
        Some(t) => seq![JsonMemberView { key, value: JsonValueView::Str(spec_utc_string(t)) }],
        None => Seq::empty(),
    }
}

/// The optional segment of a naive date-time field.
pub open spec fn spec_opt_segment_iso(key: Seq<char>, ot: Option<DateTime>) -> Seq<
    JsonMemberView,
> {
    match ot {
        Some(t) => seq![JsonMemberView { key, value: JsonValueView::Str(spec_iso_string(t)) }],
        None => Seq::empty(),
    }
}

/// The optional segment of the orientation field.
pub open spec fn spec_opt_segment_orientation(oo: Option<Orientation>) -> Seq<JsonMemberView> {
    match oo {
        Some(o) => seq![
            JsonMemberView {
                key: "orientation"@,
                value: JsonValueView::UInt(spec_orientation_code(o) as u64),
            },
        ],
        None => Seq::empty(),
    }
}

/// The optional segment of a string field.
pub open spec fn spec_opt_segment_str(key: Seq<char>, os: Option<Seq<char>>) -> Seq<
    JsonMemberView,
> {
    match os {
        Some(s) => seq![JsonMemberView { key, value: JsonValueView::Str(s) }],
        None => Seq::empty(),
    }
}

/// Key counts over the seven segments of a record's member list, summed.
proof fn lemma_parts_count(
    a: Seq<JsonMemberView>,
    b: Seq<JsonMemberView>,
    c: Seq<JsonMemberView>,
    d: Seq<JsonMemberView>,
    e: Seq<JsonMemberView>,
    f: Seq<JsonMemberView>,
    g: Seq<JsonMemberView>,
    k: Seq<char>,
)
    ensures
        spec_key_count(a + b + c + d + e + f + g, k) == spec_key_count(a, k) + spec_key_count(b, k)
            + spec_key_count(c, k) + spec_key_count(d, k) + spec_key_count(e, k) + spec_key_count(
            f,
            k,
        ) + spec_key_count(g, k),
{
    lemma_count_concat_all(a, b);
    assert(spec_key_count(a + b, k) == spec_key_count(a, k) + spec_key_count(b, k));
    lemma_count_concat_all(a + b, c);
    assert(spec_key_count(a + b + c, k) == spec_key_count(a + b, k) + spec_key_count(c, k));
    lemma_count_concat_all(a + b + c, d);
    assert(spec_key_count(a + b + c + d, k) == spec_key_count(a + b + c, k) + spec_key_count(
        d,
        k,
    ));
    lemma_count_concat_all(a + b + c + d, e);
    assert(spec_key_count(a + b + c + d + e, k) == spec_key_count(a + b + c + d, k)
        + spec_key_count(e, k));
    lemma_count_concat_all(a + b + c + d + e, f);
    assert(spec_key_count(a + b + c + d + e + f, k) == spec_key_count(a + b + c + d + e, k)
        + spec_key_count(f, k));
    lemma_count_concat_all(a + b + c + d + e + f, g);
    assert(spec_key_count(a + b + c + d + e + f + g, k) == spec_key_count(a + b + c + d + e + f, k)
        + spec_key_count(g, k));
}

/// Finding a key over the seven segments of a record's member list: the
/// first segment that knows the key answers.
proof fn lemma_parts_find(
    a: Seq<JsonMemberView>,
    b: Seq<JsonMemberView>,
    c: Seq<JsonMemberView>,
    d: Seq<JsonMemberView>,
    e: Seq<JsonMemberView>,
    f: Seq<JsonMemberView>,
    g: Seq<JsonMemberView>,
    k: Seq<char>,
)
    ensures
        spec_find(a + b + c + d + e + f + g, k) == (match spec_find(a, k) {
            Some(v) => Some(v),
            None => match spec_find(b, k) {
                Some(v) => Some(v),
                None => match spec_find(c, k) {
                    Some(v) => Some(v),
                    None => match spec_find(d, k) {
                        Some(v) => Some(v),
                        None => match spec_find(e, k) {
                            Some(v) => Some(v),
                            None => match spec_find(f, k) {
                                Some(v) => Some(v),
                                None => spec_find(g, k),
                            },
                        },
                    },
                },
            },
        }),
{
    lemma_find_concat_all(a, b);
    assert(spec_find(a + b, k) == (match spec_find(a, k) {
        Some(v) => Some(v),
        None => spec_find(b, k),
    }));
    lemma_find_concat_all(a + b, c);
    assert(spec_find(a + b + c, k) == (match spec_find(a + b, k) {
        Some(v) => Some(v),
        None => spec_find(c, k),
    }));
    lemma_find_concat_all(a + b + c, d);
    assert(spec_find(a + b + c + d, k) == (match spec_find(a + b + c, k) {
        Some(v) => Some(v),
        None => spec_find(d, k),
    }));
    lemma_find_concat_all(a + b + c + d, e);
    assert(spec_find(a + b + c + d + e, k) == (match spec_find(a + b + c + d, k) {
        Some(v) => Some(v),
        None => spec_find(e, k),
    }));
    lemma_find_concat_all(a + b + c + d + e, f);
    assert(spec_find(a + b + c + d + e + f, k) == (match spec_find(a + b + c + d + e, k) {
        Some(v) => Some(v),
        None => spec_find(f, k),
    }));
    lemma_find_concat_all(a + b + c + d + e + f, g);
    assert(spec_find(a + b + c + d + e + f + g, k) == (match spec_find(a + b + c + d + e + f, k) {
        Some(v) => Some(v),
        None => spec_find(g, k),
    }));
}

/// Counting and finding in the two-member required segment.
proof fn lemma_pair_segment(a: Seq<JsonMemberView>, k: Seq<char>)
    requires
        a.len() == 2,
    ensures
        spec_key_count(a, k) == (if a[0].key == k {
            1nat
        } else {
            0nat
        }) + (if a[1].key == k {
            1nat
        } else {
            0nat
        }),
        spec_find(a, k) == (if a[0].key == k {
            Some(a[0].value)
        } else if a[1].key == k {
            Some(a[1].value)
        } else {
            None
        }),
{
    assert(a.drop_first() =~= seq![a[1]]);
    lemma_segment_all(a.drop_first());
    assert(seq![a[1]][0] == a[1]);
    assert(spec_key_count(a.drop_first(), k) == (if a[1].key == k {
        1nat
    } else {
        0nat
    }));
    assert(spec_find(a.drop_first(), k) == (if a[1].key == k {
        Some(a[1].value)
    } else {
        None
    }));
}

/// The eight schema keys are pairwise distinct character sequences.
proof fn lemma_known_keys_distinct()
    ensures
        "filename"@ != "size"@,
        "filename"@ != "created_time"@ && "filename"@ != "modified_time"@ && "filename"@
            != "orientation"@ && "filename"@ != "capture_time"@ && "filename"@ != "camera_model"@
            && "filename"@ != "camera_serial"@,
        "size"@ != "created_time"@ && "size"@ != "modified_time"@ && "size"@ != "orientation"@
            && "size"@ != "capture_time"@ && "size"@ != "camera_model"@ && "size"@
            != "camera_serial"@,
        "created_time"@ != "modified_time"@ && "created_time"@ != "orientation"@
            && "created_time"@ != "capture_time"@ && "created_time"@ != "camera_model"@
            && "created_time"@ != "camera_serial"@,
        "modified_time"@ != "orientation"@ && "modified_time"@ != "capture_time"@
            && "modified_time"@ != "camera_model"@ && "modified_time"@ != "camera_serial"@,
        "orientation"@ != "capture_time"@ && "orientation"@ != "camera_model"@ && "orientation"@
            != "camera_serial"@,
        "capture_time"@ != "camera_model"@ && "capture_time"@ != "camera_serial"@,
        "camera_model"@ != "camera_serial"@,
{
    broadcast use vstd::string::group_string_axioms;

    reveal_strlit("filename");
    reveal_strlit("size");
    reveal_strlit("created_time");
    reveal_strlit("modified_time");
    reveal_strlit("orientation");
    reveal_strlit("capture_time");
    reveal_strlit("camera_model");
    reveal_strlit("camera_serial");
    assert("filename"@.len() == 8);
    assert("size"@.len() == 4);
    assert("created_time"@.len() == 12);
    assert("modified_time"@.len() == 13);
    assert("orientation"@.len() == 11);
    assert("capture_time"@.len() == 12);
    assert("camera_model"@.len() == 12);
    assert("camera_serial"@.len() == 13);
    assert("created_time"@[1] == 'r' && "capture_time"@[1] == 'a' && "camera_model"@[1] == 'a');
    assert("capture_time"@[2] == 'p' && "camera_model"@[2] == 'm');
    assert("modified_time"@[0] == 'm' && "camera_serial"@[0] == 'c');
}

/// How often each schema key occurs in a record's member list: once for
/// the required fields, and exactly as often as the field is present for
/// the optional ones. An absent field contributes no key at all.
pub proof fn lemma_record_member_counts(m: MetadataView)
    ensures
        spec_key_count(spec_record_members(m), "filename"@) == 1,
        spec_key_count(spec_record_members(m), "size"@) == 1,
        spec_key_count(spec_record_members(m), "created_time"@)
            == (if m.file_metadata.created_time is Some {
            1nat
        } else {
            0nat
        }),
        spec_key_count(spec_record_members(m), "modified_time"@)
            == (if m.file_metadata.modified_time is Some {
            1nat
        } else {
            0nat
        }),
        spec_key_count(spec_record_members(m), "orientation"@)
            == (if m.image_metadata.orientation is Some {
            1nat
        } else {
            0nat
        }),
        spec_key_count(spec_record_members(m), "capture_time"@)
            == (if m.image_metadata.capture_time is Some {
            1nat
        } else {
            0nat
        }),
        spec_key_count(spec_record_members(m), "camera_model"@)
            == (if m.image_metadata.camera_model is Some {
            1nat
        } else {
            0nat
        }),
        spec_key_count(spec_record_members(m), "camera_serial"@)
            == (if m.image_metadata.camera_serial is Some {
            1nat
        } else {
            0nat
        }),
{
    lemma_known_keys_distinct();
    lemma_record_members_shape(m);
    let a = seq![
        JsonMemberView { key: "filename"@, value: JsonValueView::Str(m.file_metadata.filename) },
        JsonMemberView { key: "size"@, value: JsonValueView::UInt(m.file_metadata.size) },
    ];
    let b = spec_opt_segment_utc("created_time"@, m.file_metadata.created_time);
    let c = spec_opt_segment_utc("modified_time"@, m.file_metadata.modified_time);
    let d = spec_opt_segment_orientation(m.image_metadata.orientation);
    let e = spec_opt_segment_iso("capture_time"@, m.image_metadata.capture_time);
    let f = spec_opt_segment_str("camera_model"@, m.image_metadata.camera_model);
    let g = spec_opt_segment_str("camera_serial"@, m.image_metadata.camera_serial);
    lemma_segment_all(b);
    lemma_segment_all(c);
    lemma_segment_all(d);
    lemma_segment_all(e);
    lemma_segment_all(f);
    lemma_segment_all(g);
    lemma_pair_segment(a, "filename"@);
    lemma_parts_count(a, b, c, d, e, f, g, "filename"@);
    lemma_pair_segment(a, "size"@);
    lemma_parts_count(a, b, c, d, e, f, g, "size"@);
    lemma_pair_segment(a, "created_time"@);
    lemma_parts_count(a, b, c, d, e, f, g, "created_time"@);
    lemma_pair_segment(a, "modified_time"@);
    lemma_parts_count(a, b, c, d, e, f, g, "modified_time"@);
    lemma_pair_segment(a, "orientation"@);
    lemma_parts_count(a, b, c, d, e, f, g, "orientation"@);
    lemma_pair_segment(a, "capture_time"@);
    lemma_parts_count(a, b, c, d, e, f, g, "capture_time"@);
    lemma_pair_segment(a, "camera_model"@);
    lemma_parts_count(a, b, c, d, e, f, g, "camera_model"@);
    lemma_pair_segment(a, "camera_serial"@);
    lemma_parts_count(a, b, c, d, e, f, g, "camera_serial"@);
}

/// Where each schema key leads in a record's member list: required fields
/// to their values, optional fields to their values exactly when present.
proof fn lemma_record_member_finds(m: MetadataView)
    ensures
        spec_find(spec_record_members(m), "filename"@) == Some(
            JsonValueView::Str(m.file_metadata.filename),
        ),
        spec_find(spec_record_members(m), "size"@) == Some(
            JsonValueView::UInt(m.file_metadata.size),
        ),
        spec_find(spec_record_members(m), "created_time"@)
            == (match m.file_metadata.created_time {
            Some(t) => Some(JsonValueView::Str(spec_utc_string(t))),
            None => None,
        }),
        spec_find(spec_record_members(m), "modified_time"@)
            == (match m.file_metadata.modified_time {
            Some(t) => Some(JsonValueView::Str(spec_utc_string(t))),
            None => None,
        }),
        spec_find(spec_record_members(m), "orientation"@)
            == (match m.image_metadata.orientation {
            Some(o) => Some(JsonValueView::UInt(spec_orientation_code(o) as u64)),
            None => None,
        }),
        spec_find(spec_record_members(m), "capture_time"@)
            == (match m.image_metadata.capture_time {
            Some(t) => Some(JsonValueView::Str(spec_iso_string(t))),
            None => None,
        }),
        spec_find(spec_record_members(m), "camera_model"@)
            == (match m.image_metadata.camera_model {
            Some(s) => Some(JsonValueView::Str(s)),
            None => None,
        }),
        spec_find(spec_record_members(m), "camera_serial"@)
            == (match m.image_metadata.camera_serial {
            Some(s) => Some(JsonValueView::Str(s)),
            None => None,
        }),
{
    lemma_known_keys_distinct();
    lemma_record_members_shape(m);
    let a = seq![
        JsonMemberView { key: "filename"@, value: JsonValueView::Str(m.file_metadata.filename) },
        JsonMemberView { key: "size"@, value: JsonValueView::UInt(m.file_metadata.size) },
    ];
    let b = spec_opt_segment_utc("created_time"@, m.file_metadata.created_time);
    let c = spec_opt_segment_utc("modified_time"@, m.file_metadata.modified_time);
    let d = spec_opt_segment_orientation(m.image_metadata.orientation);
    let e = spec_opt_segment_iso("capture_time"@, m.image_metadata.capture_time);
    let f = spec_opt_segment_str("camera_model"@, m.image_metadata.camera_model);
    let g = spec_opt_segment_str("camera_serial"@, m.image_metadata.camera_serial);
    lemma_segment_all(b);
    lemma_segment_all(c);
    lemma_segment_all(d);
    lemma_segment_all(e);
    lemma_segment_all(f);
    lemma_segment_all(g);
    lemma_pair_segment(a, "filename"@);
    lemma_parts_find(a, b, c, d, e, f, g, "filename"@);
    lemma_pair_segment(a, "size"@);
    lemma_parts_find(a, b, c, d, e, f, g, "size"@);
    lemma_pair_segment(a, "created_time"@);
    lemma_parts_find(a, b, c, d, e, f, g, "created_time"@);
    lemma_pair_segment(a, "modified_time"@);
    lemma_parts_find(a, b, c, d, e, f, g, "modified_time"@);
    lemma_pair_segment(a, "orientation"@);
    lemma_parts_find(a, b, c, d, e, f, g, "orientation"@);
    lemma_pair_segment(a, "capture_time"@);
    lemma_parts_find(a, b, c, d, e, f, g, "capture_time"@);
    lemma_pair_segment(a, "camera_model"@);
    lemma_parts_find(a, b, c, d, e, f, g, "camera_model"@);
    lemma_pair_segment(a, "camera_serial"@);
    lemma_parts_find(a, b, c, d, e, f, g, "camera_serial"@);
}

/// Round trip for the timestamp texts: a well-formed date-time written as
/// a UTC or naive timestamp text reads back as itself.
proof fn lemma_time_text_round_trip(t: DateTime)
    requires
        t.wf(),
    ensures
        spec_parse_utc(spec_utc_string(t)) == Some(t),
        spec_parse_iso(spec_iso_string(t)) == Some(t),
{
    crate::datetime::lemma_date_time_round_trip(t, '-', 'T');
    let u = spec_utc_string(t);
    assert(u.len() == 20);
    assert(u[19] == 'Z');
    assert(u.subrange(0, 19) =~= spec_format_date_time(t, '-', 'T'));
}

/// Round trip at the schema layer: the member list a well-formed record
/// serializes to reads back as exactly that record.
pub proof fn lemma_members_round_trip(m: MetadataView)
    requires
        m.wf(),
    ensures
        spec_record_of_members(spec_record_members(m)) == Ok::<MetadataView, JsonError>(m),
{
    lemma_record_member_counts(m);
    lemma_record_member_finds(m);
    let all = spec_record_members(m);
    assert(!spec_dup_known_key(all));
    match m.file_metadata.created_time {
        Some(t) => {
            lemma_time_text_round_trip(t);
        },
        None => {},
    }
    match m.file_metadata.modified_time {
        Some(t) => {
            lemma_time_text_round_trip(t);
        },
        None => {},
    }
    match m.image_metadata.capture_time {
        Some(t) => {
            lemma_time_text_round_trip(t);
        },
        None => {},
    }
    match m.image_metadata.orientation {
        Some(o) => {
            crate::orientation::lemma_orientation_code_bijective();
            assert(1 <= spec_orientation_code(o) <= 8);
            assert((spec_orientation_code(o) as u64) as u16 == spec_orientation_code(o));
            assert(spec_opt_orientation(all, "orientation"@) == Ok::<
                Option<Orientation>,
                JsonError,
            >(Some(o)));
        },
        None => {},
    }
}

/// Round trip: deserializing the serialized text of any well-formed record
/// gives back exactly that record.
pub proof fn lemma_record_round_trip(m: MetadataView)
    requires
        m.wf(),
    ensures
        spec_deserialize_record(spec_serialize_record(m)) == Ok::<MetadataView, JsonError>(m),
{
    crate::json::lemma_json_round_trip(spec_record_members(m));
    lemma_members_round_trip(m);
}

/// Omission: a field absent from a record contributes no key to the JSON
/// object at all — and a present optional field contributes its key
/// exactly once. (No field is ever written as a JSON `null`: the schema
/// has no such value.)
pub proof fn lemma_absent_field_omitted(m: MetadataView)
    ensures
        m.file_metadata.created_time is None ==> spec_key_count(
            spec_record_members(m),
            "created_time"@,
        ) == 0,
        m.file_metadata.modified_time is None ==> spec_key_count(
            spec_record_members(m),
            "modified_time"@,
        ) == 0,
        m.image_metadata.orientation is None ==> spec_key_count(
            spec_record_members(m),
            "orientation"@,
        ) == 0,
        m.image_metadata.capture_time is None ==> spec_key_count(
            spec_record_members(m),
            "capture_time"@,
        ) == 0,
        m.image_metadata.camera_model is None ==> spec_key_count(
            spec_record_members(m),
            "camera_model"@,
        ) == 0,
        m.image_metadata.camera_serial is None ==> spec_key_count(
            spec_record_members(m),
            "camera_serial"@,
        ) == 0,
        m.file_metadata.created_time is Some ==> spec_key_count(
            spec_record_members(m),
            "created_time"@,
        ) == 1,
        m.file_metadata.modified_time is Some ==> spec_key_count(
            spec_record_members(m),
            "modified_time"@,
        ) == 1,
        m.image_metadata.orientation is Some ==> spec_key_count(
            spec_record_members(m),
            "orientation"@,
        ) == 1,
        m.image_metadata.capture_time is Some ==> spec_key_count(
            spec_record_members(m),
            "capture_time"@,
        ) == 1,
        m.image_metadata.camera_model is Some ==> spec_key_count(
            spec_record_members(m),
            "camera_model"@,
        ) == 1,
        m.image_metadata.camera_serial is Some ==> spec_key_count(
            spec_record_members(m),
            "camera_serial"@,
        ) == 1,
{
    lemma_record_member_counts(m);
}

} // verus!
