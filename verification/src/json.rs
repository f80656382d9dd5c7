//! A small JSON layer: flat objects whose values are strings or unsigned
//! integers — exactly the shapes the sidecar schema needs.
//!
//! The writer produces one canonical text per object: members in the given
//! order, no insignificant whitespace, strings escaped minimally (a quote,
//! a backslash, and control characters, the last as `\u00XX`). The reader
//! accepts that canonical form plus the usual one-character escapes and
//! `\u00XX`; everything else is malformed. Writing an object and reading
//! the text back gives the same members again.

use vstd::prelude::*;

use crate::text::{
    digit_val, hex_char, hex_val, push_dec_digits, spec_dec_digits, spec_digit_val,
    spec_digits_val, spec_hex_char, spec_hex_val, spec_is_digit, chars_of_str, string_from_chars,
};

verus! {

/// A JSON value of the sidecar schema: a string or an unsigned integer.
#[derive(Debug, Clone, PartialEq)]
pub enum JsonValue {
    Str(String),
    UInt(u64),
}

/// The mathematical shape of a [`JsonValue`].
pub enum JsonValueView {
    Str(Seq<char>),
    UInt(u64),
}

impl View for JsonValue {
    type V = JsonValueView;

    open spec fn view(&self) -> JsonValueView {
        match self {
            JsonValue::Str(s) => JsonValueView::Str(s@),
            JsonValue::UInt(n) => JsonValueView::UInt(*n),
        }
    }
}

/// One `"key": value` member of a JSON object.
#[derive(Debug, Clone, PartialEq)]
pub struct JsonMember {
    pub key: String,
    pub value: JsonValue,
}

/// The mathematical shape of a [`JsonMember`].
pub struct JsonMemberView {
    pub key: Seq<char>,
    pub value: JsonValueView,
}

impl View for JsonMember {
    type V = JsonMemberView;

    open spec fn view(&self) -> JsonMemberView {
        JsonMemberView { key: self.key@, value: self.value@ }
    }
}

/// The member list of an object, member by member, as views.
pub open spec fn members_view(ms: Seq<JsonMember>) -> Seq<JsonMemberView> {
    ms.map_values(|m: JsonMember| m@)
}

/// The escaped form of one character inside a JSON string literal: quote
/// and backslash take a backslash, control characters become `\u00XX`
/// with lower-case hexadecimal digits, everything else stands as itself.
pub open spec fn spec_escape_char(c: char) -> Seq<char> {
    if c == '"' {
        seq!['\\', '"']
    } else if c == '\\' {
        seq!['\\', '\\']
    } else if (c as u32) < 0x20 {
        seq![
            '\\',
            'u',
            '0',
            '0',
            spec_hex_char(((c as u32) / 16) as u8),
            spec_hex_char(((c as u32) % 16) as u8),
        ]
    } else {
        seq![c]
    }
}

/// The escaped form of a whole string: each character escaped in order.
pub open spec fn spec_escape(s: Seq<char>) -> Seq<char>
    decreases s.len(),
{
    if s.len() == 0 {
        Seq::empty()
    } else {
        spec_escape_char(s[0]) + spec_escape(s.drop_first())
    }
}

/// Escaping distributes over appending one character at the end.
pub proof fn lemma_escape_push(s: Seq<char>, c: char)
    ensures
        spec_escape(s.push(c)) == spec_escape(s) + spec_escape_char(c),
    decreases s.len(),
{
    if s.len() == 0 {
        assert(s.push(c)[0] == c);
        assert(s.push(c).drop_first() =~= Seq::<char>::empty());
        assert(spec_escape(s.push(c)) == spec_escape_char(c) + spec_escape(
            Seq::<char>::empty(),
        ));
        assert(spec_escape_char(c) + spec_escape(Seq::<char>::empty()) =~= spec_escape_char(c));
        assert(spec_escape(s) + spec_escape_char(c) =~= spec_escape_char(c));
    } else {
        lemma_escape_push(s.drop_first(), c);
        assert(s.push(c)[0] == s[0]);
        assert(s.push(c).drop_first() =~= s.drop_first().push(c));
        assert(spec_escape(s.push(c)) == spec_escape_char(s[0]) + spec_escape(
            s.drop_first().push(c),
        ));
        assert(spec_escape_char(s[0]) + (spec_escape(s.drop_first()) + spec_escape_char(c))
            =~= (spec_escape_char(s[0]) + spec_escape(s.drop_first())) + spec_escape_char(c));
    }
}

/// Appends the escaped form of one character to `out`.
fn push_escaped_char(c: char, out: &mut Vec<char>)
    ensures
        final(out)@ == old(out)@ + spec_escape_char(c),
{
    if c == '"' {
        out.push('\\');
        out.push('"');
    } else if c == '\\' {
        out.push('\\');
        out.push('\\');
    } else if (c as u32) < 0x20 {
        let u = c as u32;
        out.push('\\');
        out.push('u');
        out.push('0');
        out.push('0');
        out.push(hex_char((u / 16) as u8));
        out.push(hex_char((u % 16) as u8));
    } else {
        out.push(c);
    }
    proof {
        assert(final(out)@ =~= old(out)@ + spec_escape_char(c));
    }
}

/// Appends the escaped form of a whole string to `out`.
pub fn push_escaped_str(s: &str, out: &mut Vec<char>)
    ensures
        final(out)@ == old(out)@ + spec_escape(s@),
{
    let cs = chars_of_str(s);
    let n = cs.len();
    let mut i: usize = 0;
    while i < n
        invariant
            n == cs@.len(),
            cs@ == s@,
            0 <= i <= n,
            out@ == old(out)@ + spec_escape(cs@.take(i as int)),
        decreases n - i,
    {
        push_escaped_char(cs[i], out);
        proof {
            assert(cs@.take(i + 1 as int) =~= cs@.take(i as int).push(cs@[i as int]));
            lemma_escape_push(cs@.take(i as int), cs@[i as int]);
        }
        i = i + 1;
    }
    proof {
        assert(cs@.take(n as int) =~= s@);
    }
}

/// The canonical text of one JSON value.
pub open spec fn spec_ser_value(v: JsonValueView) -> Seq<char> {
    match v {
        JsonValueView::Str(s) => seq!['"'] + spec_escape(s) + seq!['"'],
        JsonValueView::UInt(n) => spec_dec_digits(n),
    }
}

/// The canonical text of one object member: quoted escaped key, a colon,
/// then the value.
pub open spec fn spec_ser_member(m: JsonMemberView) -> Seq<char> {
    seq!['"'] + spec_escape(m.key) + seq!['"', ':'] + spec_ser_value(m.value)
}

/// The canonical text of a member list: members in order with a comma
/// between neighbours.
pub open spec fn spec_ser_members(ms: Seq<JsonMemberView>) -> Seq<char>
    decreases ms.len(),
{
    if ms.len() == 0 {
        Seq::empty()
    } else if ms.len() == 1 {
        spec_ser_member(ms[0])
    } else {
        spec_ser_member(ms[0]) + seq![','] + spec_ser_members(ms.drop_first())
    }
}

/// The canonical text of a whole object: the member list in braces.
pub open spec fn spec_ser_object(ms: Seq<JsonMemberView>) -> Seq<char> {
    seq!['{'] + spec_ser_members(ms) + seq!['}']
}

/// Serializing one more member extends the member-list text by a comma
/// (when the list was not empty) and that member's text.
pub proof fn lemma_ser_members_push(ms: Seq<JsonMemberView>, m: JsonMemberView)
    ensures
        ms.len() == 0 ==> spec_ser_members(ms.push(m)) == spec_ser_member(m),
        ms.len() > 0 ==> spec_ser_members(ms.push(m)) == spec_ser_members(ms) + seq![',']
            + spec_ser_member(m),
    decreases ms.len(),
{
    if ms.len() == 0 {
        assert(ms.push(m) =~= seq![m]);
    } else {
        lemma_ser_members_push(ms.drop_first(), m);
        assert(ms.push(m)[0] == ms[0]);
        assert(ms.push(m).drop_first() =~= ms.drop_first().push(m));
        if ms.len() == 1 {
            assert(spec_ser_members(ms.push(m)) =~= spec_ser_members(ms) + seq![',']
                + spec_ser_member(m));
        } else {
            assert(spec_ser_members(ms.push(m)) =~= spec_ser_members(ms) + seq![',']
                + spec_ser_member(m));
        }
    }
}

/// Appends the canonical text of one JSON value to `out`.
fn push_value(v: &JsonValue, out: &mut Vec<char>)
    ensures
        final(out)@ == old(out)@ + spec_ser_value(v@),
{
    match v {
        JsonValue::Str(s) => {
            out.push('"');
            push_escaped_str(s.as_str(), out);
            out.push('"');
            proof {
                assert(final(out)@ =~= old(out)@ + spec_ser_value(v@));
            }
        },
        JsonValue::UInt(n) => {
            push_dec_digits(*n, out);
        },
    }
}

/// Appends the canonical text of one object member to `out`.
fn push_member(m: &JsonMember, out: &mut Vec<char>)
    ensures
        final(out)@ == old(out)@ + spec_ser_member(m@),
{
    out.push('"');
    push_escaped_str(m.key.as_str(), out);
    out.push('"');
    out.push(':');
    push_value(&m.value, out);
    proof {
        assert(final(out)@ =~= old(out)@ + spec_ser_member(m@));
    }
}

/// The canonical text of the object with the given members, as characters.
pub fn serialize_object(ms: &Vec<JsonMember>) -> (out: Vec<char>)
    ensures
        out@ == spec_ser_object(members_view(ms@)),
{
    let mut out: Vec<char> = Vec::new();
    out.push('{');
    let n = ms.len();
    let mut i: usize = 0;
    while i < n
        invariant
            n == ms@.len(),
            0 <= i <= n,
            out@ == seq!['{'] + spec_ser_members(members_view(ms@).take(i as int)),
        decreases n - i,
    {
        if i > 0 {
            out.push(',');
        }
        push_member(&ms[i], &mut out);
        proof {
            let mv = members_view(ms@);
            assert(mv.take(i + 1 as int) =~= mv.take(i as int).push(mv[i as int]));
            lemma_ser_members_push(mv.take(i as int), mv[i as int]);
            assert(mv[i as int] == ms@[i as int]@);
            assert(out@ =~= seq!['{'] + spec_ser_members(mv.take(i + 1 as int)));
        }
        i = i + 1;
    }
    out.push('}');
    proof {
        assert(members_view(ms@).take(n as int) =~= members_view(ms@));
        assert(out@ =~= spec_ser_object(members_view(ms@)));
    }
    out
}

/// The character denoted by the escape starting just after a backslash at
/// `i`, with the index just after the escape: one of the one-character
/// escapes, or `\u00XX` with two hexadecimal digits. `None` on anything
/// else, including `\uXXXX` escapes beyond `00FF`.
pub open spec fn spec_parse_escape(s: Seq<char>, i: int) -> Option<(char, int)> {
    if !(0 <= i < s.len()) {
        None
    } else if s[i] == '"' {
        Some(('"', i + 1))
    } else if s[i] == '\\' {
        Some(('\\', i + 1))
    } else if s[i] == '/' {
        Some(('/', i + 1))
    } else if s[i] == 'n' {
        Some(('\n', i + 1))
    } else if s[i] == 't' {
        Some(('\t', i + 1))
    } else if s[i] == 'r' {
        Some(('\r', i + 1))
    } else if s[i] == 'b' {
        Some(('\u{8}', i + 1))
    } else if s[i] == 'f' {
        Some(('\u{c}', i + 1))
    } else if s[i] == 'u' {
        if i + 5 <= s.len() && s[i + 1] == '0' && s[i + 2] == '0' {
            match (spec_hex_val(s[i + 3]), spec_hex_val(s[i + 4])) {
                (Some(h1), Some(h2)) => Some(((((h1 * 16 + h2) as u8) as char), i + 5)),
                _ => None,
            }
        } else {
            None
        }
    } else {
        None
    }
}

/// The content of a string literal from `i` up to its closing quote, with
/// the index just after that quote. `None` on a missing quote, a bad
/// escape, or a raw control character.
pub open spec fn spec_parse_string_body(s: Seq<char>, i: int) -> Option<(Seq<char>, int)>
    decreases s.len() - i,
{
    if !(0 <= i < s.len()) {
        None
    } else if s[i] == '"' {
        Some((Seq::empty(), i + 1))
    } else if s[i] == '\\' {
        match spec_parse_escape(s, i + 1) {
            None => None,
            Some((c, j)) => if i < j <= s.len() {
                match spec_parse_string_body(s, j) {
                    None => None,
                    Some((t, e)) => Some((seq![c] + t, e)),
                }
            } else {
                None
            },
        }
    } else if (s[i] as u32) < 0x20 {
        None
    } else {
        match spec_parse_string_body(s, i + 1) {
            None => None,
            Some((t, e)) => Some((seq![s[i]] + t, e)),
        }
    }
}

/// The first index at or after `i` that does not hold a decimal digit.
pub open spec fn spec_digit_run_end(s: Seq<char>, i: int) -> int
    decreases s.len() - i,
{
    if 0 <= i < s.len() && spec_is_digit(s[i]) {
        spec_digit_run_end(s, i + 1)
    } else {
        i
    }
}

/// The digit run starting at a position inside `s` ends at or after it,
/// within the text, and holds digits only.
pub proof fn lemma_digit_run_end(s: Seq<char>, i: int)
    requires
        0 <= i <= s.len(),
    ensures
        i <= spec_digit_run_end(s, i) <= s.len(),
        forall|k: int| i <= k < spec_digit_run_end(s, i) ==> spec_is_digit(s[k]),
    decreases s.len() - i,
{
    if 0 <= i < s.len() && spec_is_digit(s[i]) {
        lemma_digit_run_end(s, i + 1);
    }
}

/// The unsigned integer starting at `i`: a run of digits with no leading
/// zero, not continued by a fraction or exponent, whose value fits in
/// sixty-four bits; paired with the index just after the run. `None` on
/// any deviation.
pub open spec fn spec_parse_number(s: Seq<char>, i: int) -> Option<(u64, int)> {
    let e = spec_digit_run_end(s, i);
    if !(0 <= i < s.len()) {
        None
    } else if e == i {
        None
    } else if s[i] == '0' && e > i + 1 {
        None
    } else if e < s.len() && (s[e] == '.' || s[e] == 'e' || s[e] == 'E') {
        None
    } else if spec_digits_val(s.subrange(i, e)) > u64::MAX {
        None
    } else {
        Some((spec_digits_val(s.subrange(i, e)) as u64, e))
    }
}

/// The value starting at `i`: a string literal or an unsigned integer.
pub open spec fn spec_parse_value(s: Seq<char>, i: int) -> Option<(JsonValueView, int)> {
    if !(0 <= i < s.len()) {
        None
    } else if s[i] == '"' {
        match spec_parse_string_body(s, i + 1) {
            None => None,
            Some((t, e)) => Some((JsonValueView::Str(t), e)),
        }
    } else {
        match spec_parse_number(s, i) {
            None => None,
            Some((n, e)) => Some((JsonValueView::UInt(n), e)),
        }
    }
}

/// The `"key":value` member starting at `i`, with the index just after it.
pub open spec fn spec_parse_member(s: Seq<char>, i: int) -> Option<(JsonMemberView, int)> {
    if !(0 <= i < s.len() && s[i] == '"') {
        None
    } else {
        match spec_parse_string_body(s, i + 1) {
            None => None,
            Some((k, j)) => if j < s.len() && s[j] == ':' {
                match spec_parse_value(s, j + 1) {
                    None => None,
                    Some((v, e)) => Some((JsonMemberView { key: k, value: v }, e)),
                }
            } else {
                None
            },
        }
    }
}

/// The comma-separated member list starting at `i`, with the index just
/// after its last member.
pub open spec fn spec_parse_members(s: Seq<char>, i: int) -> Option<(Seq<JsonMemberView>, int)>
    decreases s.len() - i,
{
    match spec_parse_member(s, i) {
        None => None,
        Some((m, j)) => if j < s.len() && s[j] == ',' {
            if i < j + 1 {
                match spec_parse_members(s, j + 1) {
                    None => None,
                    Some((ms, e)) => Some((seq![m] + ms, e)),
                }
            } else {
                None
            }
        } else {
            Some((seq![m], j))
        },
    }
}

/// The member list denoted by a whole text: an object in braces, either
/// empty or with at least one member, and nothing after the closing
/// brace. `None` on any deviation.
pub open spec fn spec_parse_object(s: Seq<char>) -> Option<Seq<JsonMemberView>> {
    if s.len() < 2 || s[0] != '{' {
        None
    } else if s[1] == '}' {
        if s.len() == 2 {
            Some(Seq::empty())
        } else {
            None
        }
    } else {
        match spec_parse_members(s, 1) {
            None => None,
            Some((ms, j)) => if j + 1 == s.len() && s[j] == '}' {
                Some(ms)
            } else {
                None
            },
        }
    }
}

/// Reads the escape starting just after a backslash at `i`.
fn parse_escape(s: &Vec<char>, i: usize) -> (r: Option<(char, usize)>)
    ensures
        match r {
            Some((c, j)) => spec_parse_escape(s@, i as int) == Some((c, j as int)) && i < j
                <= s@.len(),
            None => spec_parse_escape(s@, i as int) is None,
        },
{
    let n = s.len();
    if !(i < n) {
        return None;
    }
    match s[i] {
        '"' => Some(('"', i + 1)),
        '\\' => Some(('\\', i + 1)),
        '/' => Some(('/', i + 1)),
        'n' => Some(('\n', i + 1)),
        't' => Some(('\t', i + 1)),
        'r' => Some(('\r', i + 1)),
        'b' => Some(('\u{8}', i + 1)),
        'f' => Some(('\u{c}', i + 1)),
        'u' => {
            if n - i >= 5 && s[i + 1] == '0' && s[i + 2] == '0' {
                let h1 = hex_val(s[i + 3]);
                let h2 = hex_val(s[i + 4]);
                match (h1, h2) {
                    (Some(h1), Some(h2)) => {
                        let b: u8 = h1 * 16 + h2;
                        Some((b as char, i + 5))
                    },
                    _ => None,
                }
            } else {
                None
            }
        },
        _ => None,
    }
}

/// Reads a string literal's content from `i` up to its closing quote.
fn parse_string_body(s: &Vec<char>, i: usize) -> (r: Option<(Vec<char>, usize)>)
    ensures
        match r {
            Some((v, e)) => spec_parse_string_body(s@, i as int) == Some((v@, e as int)) && i < e
                <= s@.len(),
            None => spec_parse_string_body(s@, i as int) is None,
        },
{
    let n = s.len();
    if i > n {
        return None;
    }
    let mut acc: Vec<char> = Vec::new();
    let mut cur = i;
    loop
        invariant
            n == s@.len(),
            i <= cur <= n,
            ({
                let full = spec_parse_string_body(s@, i as int);
                let rest = spec_parse_string_body(s@, cur as int);
                match rest {
                    Some((t, e)) => full == Some((acc@ + t, e)),
                    None => full is None,
                }
            }),
        decreases n - cur,
    {
        if !(cur < n) {
            return None;
        }
        let c = s[cur];
        if c == '"' {
            proof {
                assert(acc@ + Seq::<char>::empty() =~= acc@);
            }
            return Some((acc, cur + 1));
        } else if c == '\\' {
            match parse_escape(s, cur + 1) {
                None => {
                    return None;
                },
                Some((ec, j)) => {
                    proof {
                        let rest = spec_parse_string_body(s@, cur as int);
                        let rest2 = spec_parse_string_body(s@, j as int);
                        match rest2 {
                            Some((t, e)) => {
                                assert(rest == Some((seq![ec] + t, e)));
                                assert(acc@ + (seq![ec] + t) =~= acc@.push(ec) + t);
                            },
                            None => {
                                assert(rest is None);
                            },
                        }
                    }
                    acc.push(ec);
                    cur = j;
                },
            }
        } else if (c as u32) < 0x20 {
            return None;
        } else {
            proof {
                let rest = spec_parse_string_body(s@, cur as int);
                let rest2 = spec_parse_string_body(s@, cur + 1 as int);
                match rest2 {
                    Some((t, e)) => {
                        assert(rest == Some((seq![c] + t, e)));
                        assert(acc@ + (seq![c] + t) =~= acc@.push(c) + t);
                    },
                    None => {
                        assert(rest is None);
                    },
                }
            }
            acc.push(c);
            cur = cur + 1;
        }
    }
}

/// Reads the unsigned integer starting at `i`.
fn parse_number(s: &Vec<char>, i: usize) -> (r: Option<(u64, usize)>)
    ensures
        match r {
            Some((v, e)) => spec_parse_number(s@, i as int) == Some((v, e as int)) && i < e
                <= s@.len(),
            None => spec_parse_number(s@, i as int) is None,
        },
{
    let n = s.len();
    if !(i < n) {
        return None;
    }
    // Find the end of the digit run.
    let mut e = i;
    while e < n && digit_val(s[e]).is_some()
        invariant
            n == s@.len(),
            i <= e <= n,
            spec_digit_run_end(s@, i as int) == spec_digit_run_end(s@, e as int),
        decreases n - e,
    {
        e = e + 1;
    }
    proof {
        assert(spec_digit_run_end(s@, e as int) == e);
        lemma_digit_run_end(s@, i as int);
    }
    if e == i {
        return None;
    }
    if s[i] == '0' && e > i + 1 {
        return None;
    }
    if e < n && (s[e] == '.' || s[e] == 'e' || s[e] == 'E') {
        return None;
    }
    // Accumulate the value, watching for overflow.
    let ghost run = s@.subrange(i as int, e as int);
    let mut acc: u64 = 0;
    let mut k = i;
    while k < e
        invariant
            n == s@.len(),
            i <= k <= e <= n,
            spec_digit_run_end(s@, i as int) == e,
            forall|t: int| i <= t < e ==> spec_is_digit(s@[t]),
            run == s@.subrange(i as int, e as int),
            acc == spec_digits_val(s@.subrange(i as int, k as int)),
        decreases e - k,
    {
        let d = match digit_val(s[k]) {
            Some(d) => d,
            None => 0,  // unreachable: the run holds digits only
        };
        proof {
            assert(s@.subrange(i as int, k + 1 as int).drop_last() =~= s@.subrange(
                i as int,
                k as int,
            ));
            assert(s@.subrange(i as int, k + 1 as int).last() == s@[k as int]);
        }
        let next = match acc.checked_mul(10) {
            Some(p) => p.checked_add(d as u64),
            None => None,
        };
        match next {
            Some(x) => {
                acc = x;
                k = k + 1;
            },
            None => {
                proof {
                    assert(spec_digits_val(s@.subrange(i as int, k + 1 as int)) > u64::MAX);
                    lemma_digits_val_grows(s@, i as int, k + 1 as int, e as int);
                }
                return None;
            },
        }
    }
    proof {
        assert(s@.subrange(i as int, e as int) == run);
    }
    Some((acc, e))
}

/// Along a digit run, the value of a longer prefix is at least the value
/// of a shorter one.
proof fn lemma_digits_val_grows(s: Seq<char>, i: int, k: int, e: int)
    requires
        0 <= i <= k <= e <= s.len(),
    ensures
        spec_digits_val(s.subrange(i, e)) >= spec_digits_val(s.subrange(i, k)),
    decreases e - k,
{
    if k < e {
        lemma_digits_val_grows(s, i, k, e - 1);
        assert(s.subrange(i, e).drop_last() =~= s.subrange(i, e - 1));
        let v = spec_digits_val(s.subrange(i, e - 1));
        assert(spec_digits_val(s.subrange(i, e)) >= v * 10) by {
            assert(spec_digits_val(s.subrange(i, e)) == v * 10 + match spec_digit_val(
                s.subrange(i, e).last(),
            ) {
                Some(d) => d as nat,
                None => 0,
            });
        }
        assert(v * 10 >= v) by (nonlinear_arith);
    } else {
        assert(s.subrange(i, e) == s.subrange(i, k));
    }
}

/// Reads the value starting at `i`.
fn parse_value(s: &Vec<char>, i: usize) -> (r: Option<(JsonValue, usize)>)
    ensures
        match r {
            Some((v, e)) => spec_parse_value(s@, i as int) == Some((v@, e as int)) && i < e
                <= s@.len(),
            None => spec_parse_value(s@, i as int) is None,
        },
{
    let n = s.len();
    if !(i < n) {
        return None;
    }
    if s[i] == '"' {
        match parse_string_body(s, i + 1) {
            None => None,
            Some((cs, e)) => {
                let t = string_from_chars(&cs);
                Some((JsonValue::Str(t), e))
            },
        }
    } else {
        match parse_number(s, i) {
            None => None,
            Some((v, e)) => Some((JsonValue::UInt(v), e)),
        }
    }
}

/// Reads the member starting at `i`.
fn parse_member(s: &Vec<char>, i: usize) -> (r: Option<(JsonMember, usize)>)
    ensures
        match r {
            Some((m, j)) => spec_parse_member(s@, i as int) == Some((m@, j as int)) && i < j
                <= s@.len(),
            None => spec_parse_member(s@, i as int) is None,
        },
{
    let n = s.len();
    if !(i < n) {
        return None;
    }
    if s[i] != '"' {
        return None;
    }
    match parse_string_body(s, i + 1) {
        None => None,
        Some((kchars, j)) => {
            if j < n && s[j] == ':' {
                match parse_value(s, j + 1) {
                    None => None,
                    Some((v, e)) => {
                        let key = string_from_chars(&kchars);
                        Some((JsonMember { key, value: v }, e))
                    },
                }
            } else {
                None
            }
        },
    }
}

/// Reads the comma-separated member list starting at `i`.
fn parse_members(s: &Vec<char>, i: usize) -> (r: Option<(Vec<JsonMember>, usize)>)
    ensures
        match r {
            Some((v, e)) => spec_parse_members(s@, i as int) == Some((members_view(v@), e as int))
                && i < e <= s@.len(),
            None => spec_parse_members(s@, i as int) is None,
        },
{
    let n = s.len();
    if i > n {
        return None;
    }
    let mut acc: Vec<JsonMember> = Vec::new();
    let mut cur = i;
    loop
        invariant
            n == s@.len(),
            i <= cur <= n,
            ({
                let full = spec_parse_members(s@, i as int);
                let rest = spec_parse_members(s@, cur as int);
                match rest {
                    Some((ms, e)) => full == Some((members_view(acc@) + ms, e)),
                    None => full is None,
                }
            }),
        decreases n - cur,
    {
        match parse_member(s, cur) {
            None => {
                return None;
            },
            Some((m, j)) => {
                if j < n && s[j] == ',' {
                    proof {
                        let rest = spec_parse_members(s@, cur as int);
                        let rest2 = spec_parse_members(s@, j + 1 as int);
                        match rest2 {
                            Some((ms, e)) => {
                                assert(rest == Some((seq![m@] + ms, e)));
                                assert(members_view(acc@) + (seq![m@] + ms) =~= members_view(
                                    acc@.push(m),
                                ) + ms) by {
                                    assert(members_view(acc@.push(m)) =~= members_view(acc@).push(
                                        m@,
                                    ));
                                }
                            },
                            None => {
                                assert(rest is None);
                            },
                        }
                    }
                    acc.push(m);
                    cur = j + 1;
                } else {
                    proof {
                        let rest = spec_parse_members(s@, cur as int);
                        assert(rest == Some((seq![m@], j as int)));
                        assert(members_view(acc@) + seq![m@] =~= members_view(acc@.push(m))) by {
                            assert(members_view(acc@.push(m)) =~= members_view(acc@).push(m@));
                        }
                    }
                    acc.push(m);
                    return Some((acc, j));
                }
            },
        }
    }
}

/// Reads a whole object text into its member list; returns exactly the
/// members the text denotes, `None` when the text is malformed.
pub fn parse_object(s: &Vec<char>) -> (r: Option<Vec<JsonMember>>)
    ensures
        match r {
            Some(v) => spec_parse_object(s@) == Some(members_view(v@)),
            None => spec_parse_object(s@) is None,
        },
{
    let n = s.len();
    if n < 2 || s[0] != '{' {
        return None;
    }
    if s[1] == '}' {
        if n == 2 {
            proof {
                assert(members_view(Seq::<JsonMember>::empty()) =~= Seq::<JsonMemberView>::empty());
            }
            return Some(Vec::new());
        } else {
            return None;
        }
    }
    match parse_members(s, 1) {
        None => None,
        Some((v, j)) => {
            if j == n - 1 && s[j] == '}' {
                Some(v)
            } else {
                None
            }
        },
    }
}
/// The characters of a known subrange of `s`, position by position.
proof fn lemma_subrange_chars(s: Seq<char>, i: int, x: Seq<char>)
    requires
        0 <= i,
        i + x.len() <= s.len(),
        s.subrange(i, i + x.len() as int) == x,
    ensures
        forall|p: int| i <= p < i + x.len() ==> s[p] == x[p - i],
{
    assert forall|p: int| i <= p < i + x.len() implies s[p] == x[p - i] by {
        assert(x[p - i] == s.subrange(i, i + x.len() as int)[p - i]);
    }
}

/// A subrange of `s` whose characters are known position by position.
proof fn lemma_chars_subrange(s: Seq<char>, i: int, x: Seq<char>)
    requires
        0 <= i,
        i + x.len() <= s.len(),
        forall|p: int| i <= p < i + x.len() ==> s[p] == x[p - i],
    ensures
        s.subrange(i, i + x.len() as int) == x,
{
    assert(s.subrange(i, i + x.len() as int) =~= x);
}

/// Reading a string literal's canonical text gives back the characters it
/// was written from: where `s` holds the escaped form of `v` at `i`,
/// followed by a closing quote, parsing from `i` yields `v` and stops just
/// after that quote.
proof fn lemma_parse_escaped(s: Seq<char>, i: int, v: Seq<char>)
    requires
        0 <= i,
        i + spec_escape(v).len() < s.len(),
        s.subrange(i, i + spec_escape(v).len() as int) == spec_escape(v),
        s[i + spec_escape(v).len()] == '"',
    ensures
        spec_parse_string_body(s, i) == Some((v, i + spec_escape(v).len() + 1)),
    decreases v.len(),
{
    broadcast use vstd::utf8::char_u32_cast;

    let ev = spec_escape(v);
    let l = ev.len() as int;
    lemma_subrange_chars(s, i, ev);
    if v.len() == 0 {
        assert(ev =~= Seq::<char>::empty());
        assert(s[i] == '"');
        assert(Seq::<char>::empty() =~= v);
    } else {
        let c = v[0];
        let vr = v.drop_first();
        let ec = spec_escape_char(c);
        let er = spec_escape(vr);
        let l0 = ec.len() as int;
        assert(ev == ec + er);
        assert(l == l0 + er.len());
        assert forall|p: int| i <= p < i + l0 implies s[p] == ec[p - i] by {
            assert(s[p] == ev[p - i]);
            assert((ec + er)[p - i] == ec[p - i]);
        }
        assert forall|p: int| i + l0 <= p < i + l implies s[p] == er[p - (i + l0)] by {
            assert(s[p] == ev[p - i]);
            assert((ec + er)[p - i] == er[p - i - l0]);
        }
        lemma_chars_subrange(s, i + l0, er);
        assert(s[(i + l0) + er.len()] == '"');
        lemma_parse_escaped(s, i + l0, vr);
        assert(spec_parse_string_body(s, i + l0) == Some((vr, i + l + 1)));
        if c == '"' {
            assert(s[i] == '\\' && s[i + 1] == '"');
            assert(spec_parse_escape(s, i + 1) == Some(('"', i + 2)));
            assert(seq![c] + vr =~= v);
        } else if c == '\\' {
            assert(s[i] == '\\' && s[i + 1] == '\\');
            assert(spec_parse_escape(s, i + 1) == Some(('\\', i + 2)));
            assert(seq![c] + vr =~= v);
        } else if (c as u32) < 0x20 {
            let u = c as u32;
            assert(s[i] == '\\' && s[i + 1] == 'u' && s[i + 2] == '0' && s[i + 3] == '0');
            assert(s[i + 4] == spec_hex_char((u / 16) as u8));
            assert(s[i + 5] == spec_hex_char((u % 16) as u8));
            crate::text::lemma_hex_char_val((u / 16) as u8);
            crate::text::lemma_hex_char_val((u % 16) as u8);
            assert(spec_hex_val(s[i + 4]) == Some((u / 16) as u8));
            assert(spec_hex_val(s[i + 5]) == Some((u % 16) as u8));
            let b = (((u / 16) as u8) * 16 + ((u % 16) as u8)) as u8;
            assert(b == u) by {
                assert(u / 16 * 16 + u % 16 == u);
            }
            let bc = b as char;
            assert(bc == c) by {
                assert(b as u32 == c as u32);
                assert(bc as u32 == b as u32);
                vstd::utf8::char_u32_cast(c, c as u32);
                vstd::utf8::char_u32_cast(bc, bc as u32);
            }
            assert(spec_parse_escape(s, i + 1) == Some((c, i + 6)));
            assert(seq![c] + vr =~= v);
        } else {
            assert(ec =~= seq![c]);
            assert(s[i] == c);
            assert(s[i] != '"' && s[i] != '\\' && !((s[i] as u32) < 0x20));
            assert(seq![c] + vr =~= v);
        }
    }
}

/// A run of digit characters bounded by a non-digit (or the end of the
/// text) is exactly the digit run the parser finds.
proof fn lemma_digit_run_end_exact(s: Seq<char>, i: int, j: int)
    requires
        0 <= i <= j <= s.len(),
        forall|t: int| i <= t < j ==> spec_is_digit(s[t]),
        j < s.len() ==> !spec_is_digit(s[j]),
    ensures
        spec_digit_run_end(s, i) == j,
    decreases j - i,
{
    if i < j {
        lemma_digit_run_end_exact(s, i + 1, j);
    }
}

/// Reading a number's canonical text gives back the number it was written
/// from: where `s` holds the decimal rendering of `x` at `i`, followed by
/// a comma or a closing brace (or nothing), parsing from `i` yields `x`.
proof fn lemma_parse_number_of_digits(s: Seq<char>, i: int, x: u64)
    requires
        0 <= i,
        i + spec_dec_digits(x).len() <= s.len(),
        s.subrange(i, i + spec_dec_digits(x).len() as int) == spec_dec_digits(x),
        i + spec_dec_digits(x).len() < s.len() ==> {
            let c = s[i + spec_dec_digits(x).len()];
            c == ',' || c == '}'
        },
    ensures
        spec_parse_number(s, i) == Some((x, i + spec_dec_digits(x).len())),
{
    crate::text::lemma_dec_digits(x);
    let d = spec_dec_digits(x);
    let l = d.len() as int;
    lemma_subrange_chars(s, i, d);
    assert(forall|t: int| i <= t < i + l ==> spec_is_digit(s[t])) by {
        assert(forall|t: int| i <= t < i + l ==> s[t] == d[t - i]);
    }
    if i + l < s.len() {
        let c = s[i + l];
        assert(!spec_is_digit(c) && c != '.' && c != 'e' && c != 'E');
    }
    lemma_digit_run_end_exact(s, i, i + l);
    assert(s[i] == d[0]);
    if x == 0 {
        assert(d == seq!['0']);
        assert(l == 1);
    } else {
        assert(s[i] != '0');
    }
    assert(spec_digits_val(s.subrange(i, i + l)) == x);
}

/// Reading a value's canonical text gives back the value it was written
/// from, where a comma or closing brace follows it.
proof fn lemma_parse_value_of_ser(s: Seq<char>, i: int, v: JsonValueView)
    requires
        0 <= i,
        i + spec_ser_value(v).len() < s.len(),
        s.subrange(i, i + spec_ser_value(v).len() as int) == spec_ser_value(v),
        s[i + spec_ser_value(v).len()] == ',' || s[i + spec_ser_value(v).len()] == '}',
    ensures
        spec_parse_value(s, i) == Some((v, i + spec_ser_value(v).len())),
{
    let sv = spec_ser_value(v);
    let l = sv.len() as int;
    lemma_subrange_chars(s, i, sv);
    match v {
        JsonValueView::Str(t) => {
            let et = spec_escape(t);
            assert(sv == seq!['"'] + et + seq!['"']);
            assert(s[i] == sv[0]);
            assert((seq!['"'] + et + seq!['"'])[0] == '"');
            assert forall|p: int| i + 1 <= p < i + 1 + et.len() implies s[p] == et[p - (i + 1)] by {
                assert(s[p] == sv[p - i]);
                assert((seq!['"'] + et + seq!['"'])[p - i] == et[p - i - 1]);
            }
            lemma_chars_subrange(s, i + 1, et);
            assert(s[(i + 1) + et.len()] == sv[l - 1]);
            assert((seq!['"'] + et + seq!['"'])[l - 1] == '"');
            lemma_parse_escaped(s, i + 1, t);
            assert(spec_parse_string_body(s, i + 1) == Some((t, i + l)));
        },
        JsonValueView::UInt(x) => {
            crate::text::lemma_dec_digits(x);
            assert(sv == spec_dec_digits(x));
            assert(s[i] == sv[0]);
            assert(spec_is_digit(s[i]));
            assert(s[i] != '"');
            lemma_parse_number_of_digits(s, i, x);
        },
    }
}

/// Reading a member's canonical text gives back the member it was written
/// from, where a comma or closing brace follows it.
#[verifier::rlimit(60)]
proof fn lemma_parse_member_of_ser(s: Seq<char>, i: int, m: JsonMemberView)
    requires
        0 <= i,
        i + spec_ser_member(m).len() < s.len(),
        s.subrange(i, i + spec_ser_member(m).len() as int) == spec_ser_member(m),
        s[i + spec_ser_member(m).len()] == ',' || s[i + spec_ser_member(m).len()] == '}',
    ensures
        spec_parse_member(s, i) == Some((m, i + spec_ser_member(m).len())),
{
    let sm = spec_ser_member(m);
    let l = sm.len() as int;
    let ek = spec_escape(m.key);
    let lk = ek.len() as int;
    let sv = spec_ser_value(m.value);
    lemma_subrange_chars(s, i, sm);
    assert(sm == seq!['"'] + ek + seq!['"', ':'] + sv);
    assert(s[i] == sm[0]);
    assert((seq!['"'] + ek + seq!['"', ':'] + sv)[0] == '"');
    assert forall|p: int| i + 1 <= p < i + 1 + lk implies s[p] == ek[p - (i + 1)] by {
        assert(s[p] == sm[p - i]);
        assert((seq!['"'] + ek + seq!['"', ':'] + sv)[p - i] == ek[p - i - 1]);
    }
    lemma_chars_subrange(s, i + 1, ek);
    assert(s[(i + 1) + lk] == sm[1 + lk]);
    assert((seq!['"'] + ek + seq!['"', ':'] + sv)[1 + lk] == '"');
    lemma_parse_escaped(s, i + 1, m.key);
    let j = i + 2 + lk;
    assert(spec_parse_string_body(s, i + 1) == Some((m.key, j)));
    assert(s[j] == sm[j - i]);
    assert((seq!['"'] + ek + seq!['"', ':'] + sv)[2 + lk] == ':');
    assert(s[j] == ':');
    assert forall|p: int| j + 1 <= p < j + 1 + sv.len() implies s[p] == sv[p - (j + 1)] by {
        assert(s[p] == sm[p - i]);
        assert((seq!['"'] + ek + seq!['"', ':'] + sv)[p - i] == sv[p - i - 3 - lk]);
    }
    lemma_chars_subrange(s, j + 1, sv);
    assert((j + 1) + sv.len() == i + l);
    lemma_parse_value_of_ser(s, j + 1, m.value);
    assert(spec_parse_value(s, j + 1) == Some((m.value, i + l)));
}

/// Reading a member list's canonical text gives back the members it was
/// written from, where a closing brace follows the list.
proof fn lemma_parse_members_of_ser(s: Seq<char>, i: int, ms: Seq<JsonMemberView>)
    requires
        0 <= i,
        ms.len() >= 1,
        i + spec_ser_members(ms).len() < s.len(),
        s.subrange(i, i + spec_ser_members(ms).len() as int) == spec_ser_members(ms),
        s[i + spec_ser_members(ms).len()] == '}',
    ensures
        spec_parse_members(s, i) == Some((ms, i + spec_ser_members(ms).len())),
    decreases ms.len(),
{
    let sm = spec_ser_members(ms);
    let l = sm.len() as int;
    let m0 = ms[0];
    let s0 = spec_ser_member(m0);
    let l0 = s0.len() as int;
    lemma_subrange_chars(s, i, sm);
    if ms.len() == 1 {
        assert(sm == s0);
        lemma_parse_member_of_ser(s, i, m0);
        assert(spec_parse_member(s, i) == Some((m0, i + l)));
        assert(s[i + l] == '}');
        assert(seq![m0] =~= ms);
    } else {
        let rest = ms.drop_first();
        let sr = spec_ser_members(rest);
        assert(sm == s0 + seq![','] + sr);
        assert forall|p: int| i <= p < i + l0 implies s[p] == s0[p - i] by {
            assert(s[p] == sm[p - i]);
            assert((s0 + seq![','] + sr)[p - i] == s0[p - i]);
        }
        lemma_chars_subrange(s, i, s0);
        let j = i + l0;
        assert(s[j] == sm[l0]);
        assert((s0 + seq![','] + sr)[l0] == ',');
        assert(s[j] == ',');
        lemma_parse_member_of_ser(s, i, m0);
        assert(spec_parse_member(s, i) == Some((m0, j)));
        assert forall|p: int| j + 1 <= p < j + 1 + sr.len() implies s[p] == sr[p - (j + 1)] by {
            assert(s[p] == sm[p - i]);
            assert((s0 + seq![','] + sr)[p - i] == sr[p - i - l0 - 1]);
        }
        lemma_chars_subrange(s, j + 1, sr);
        assert((j + 1) + sr.len() == i + l);
        assert(rest.len() >= 1);
        lemma_parse_members_of_ser(s, j + 1, rest);
        assert(spec_parse_members(s, j + 1) == Some((rest, i + l)));
        assert(seq![m0] + rest =~= ms);
    }
}

/// Round trip at the JSON layer: parsing the canonical text of any member
/// list gives back exactly that member list.
pub proof fn lemma_json_round_trip(ms: Seq<JsonMemberView>)
    ensures
        spec_parse_object(spec_ser_object(ms)) == Some(ms),
{
    let s = spec_ser_object(ms);
    let sm = spec_ser_members(ms);
    assert(s == seq!['{'] + sm + seq!['}']);
    assert(s.len() == 2 + sm.len());
    assert(s[0] == (seq!['{'] + sm + seq!['}'])[0]);
    assert(s[0] == '{');
    assert(s[s.len() - 1 as int] == (seq!['{'] + sm + seq!['}'])[s.len() - 1 as int]);
    assert(s[s.len() - 1 as int] == '}');
    if ms.len() == 0 {
        assert(sm =~= Seq::<char>::empty());
        assert(s.len() == 2);
        assert(s[1] == '}');
        assert(Seq::<JsonMemberView>::empty() =~= ms);
    } else {
        let s0 = spec_ser_member(ms[0]);
        assert(s0 == seq!['"'] + spec_escape(ms[0].key) + seq!['"', ':'] + spec_ser_value(
            ms[0].value,
        ));
        assert(s0[0] == '"');
        assert(sm[0] == '"') by {
            if ms.len() == 1 {
                assert(sm == s0);
            } else {
                assert(sm == s0 + seq![','] + spec_ser_members(ms.drop_first()));
                assert((s0 + seq![','] + spec_ser_members(ms.drop_first()))[0] == s0[0]);
            }
        }
        assert(s[1] == (seq!['{'] + sm + seq!['}'])[1]);
        assert(s[1] == sm[0]);
        assert(s[1] != '}');
        assert forall|p: int| 1 <= p < 1 + sm.len() implies s[p] == sm[p - 1] by {
            assert(s[p] == (seq!['{'] + sm + seq!['}'])[p]);
        }
        lemma_chars_subrange(s, 1, sm);
        assert(s[1 + sm.len() as int] == '}');
        lemma_parse_members_of_ser(s, 1, ms);
        assert(spec_parse_members(s, 1) == Some((ms, 1 + sm.len() as int)));
    }
}

} // verus!
