//! Path text handling: the final component of a path, its stem, and the
//! sidecar path derived from it.
//!
//! Paths are handled as text with `'/'` as the separator. The sidecar of a
//! source file lives in the same directory, keeps the file stem, and takes
//! the `json` extension.

use vstd::prelude::*;

use crate::text::{chars_of_str, string_from_chars};

verus! {

/// The index of the last occurrence of `c`, if any.
pub open spec fn spec_last_index_of(p: Seq<char>, c: char) -> Option<int>
    decreases p.len(),
{
    if p.len() == 0 {
        None
    } else if p.last() == c {
        Some(p.len() - 1)
    } else {
        spec_last_index_of(p.drop_last(), c)
    }
}

/// Where the final path component begins: just after the last `'/'`, or
/// at the start when the path has none.
pub open spec fn spec_name_start(p: Seq<char>) -> int {
    match spec_last_index_of(p, '/') {
        Some(i) => i + 1,
        None => 0,
    }
}

/// The final path component: the text after the last `'/'`, or the whole
/// path without one; `None` when that text is empty.
pub open spec fn spec_file_name_of(p: Seq<char>) -> Option<Seq<char>> {
    if spec_name_start(p) < p.len() {
        Some(p.subrange(spec_name_start(p), p.len() as int))
    } else {
        None
    }
}

/// Where the extension begins within the whole path: at the last `'.'` of
/// the final component, unless that dot starts the component (a hidden
/// file has no extension); the end of the path when there is no
/// extension.
pub open spec fn spec_stem_end(p: Seq<char>) -> int {
    match spec_last_index_of(p, '.') {
        Some(j) => if j > spec_name_start(p) {
            j
        } else {
            p.len() as int
        },
        None => p.len() as int,
    }
}

/// The sidecar path of a source path: same directory, same stem, the
/// `json` extension; `None` when the path has no final component.
pub open spec fn spec_sidecar_path(p: Seq<char>) -> Option<Seq<char>> {
    match spec_file_name_of(p) {
        None => None,
        Some(_) => Some(p.take(spec_stem_end(p)) + ".json"@),
    }
}

/// The index of the last occurrence of `c` in `p`, if any.
fn last_index_of(p: &Vec<char>, c: char) -> (r: Option<usize>)
    ensures
        match r {
            Some(i) => i < p@.len() && spec_last_index_of(p@, c) == Some(i as int),
            None => spec_last_index_of(p@, c) is None,
        },
{
    let mut i = p.len();
    proof {
        assert(p@.take(p@.len() as int) =~= p@);
    }
    while i > 0
        invariant
            i <= p@.len(),
            spec_last_index_of(p@, c) == spec_last_index_of(p@.take(i as int), c),
        decreases i,
    {
        i = i - 1;
        proof {
            assert(p@.take(i + 1 as int).last() == p@[i as int]);
            assert(p@.take(i + 1 as int).drop_last() =~= p@.take(i as int));
        }
        if p[i] == c {
            return Some(i);
        }
    }
    proof {
        assert(p@.take(0) =~= Seq::<char>::empty());
    }
    None
}

/// The final component of a path: the text after the last `'/'` (the
/// whole path without one), or `None` when that text is empty — for an
/// empty path or one ending in `'/'`.
pub fn file_name_of(path: &str) -> (r: Option<String>)
    ensures
        match r {
            Some(s) => spec_file_name_of(path@) == Some(s@),
            None => spec_file_name_of(path@) is None,
        },
{
    let cs = chars_of_str(path);
    let n = cs.len();
    let start = match last_index_of(&cs, '/') {
        Some(i) => i + 1,
        None => 0,
    };
    if start >= n {
        return None;
    }
    let mut out: Vec<char> = Vec::new();
    let mut k = start;
    while k < n
        invariant
            start <= k <= n,
            n == cs@.len(),
            out@ == cs@.subrange(start as int, k as int),
        decreases n - k,
    {
        out.push(cs[k]);
        proof {
            assert(cs@.subrange(start as int, k + 1 as int) =~= cs@.subrange(
                start as int,
                k as int,
            ).push(cs@[k as int]));
        }
        k = k + 1;
    }
    Some(string_from_chars(&out))
}

/// The sidecar path of a source path: the same directory, the same file
/// stem, and the `json` extension in place of the old one. `None` exactly
/// when the path has no final component.
pub fn sidecar_path_for(path: &str) -> (r: Option<String>)
    ensures
        match r {
            Some(s) => spec_sidecar_path(path@) == Some(s@),
            None => spec_sidecar_path(path@) is None,
        },
{
    proof {
        reveal_strlit(".json");
    }
    let cs = chars_of_str(path);
    let n = cs.len();
    let start = match last_index_of(&cs, '/') {
        Some(i) => i + 1,
        None => 0,
    };
    if start >= n {
        return None;
    }
    let stem_end = match last_index_of(&cs, '.') {
        Some(j) => if j > start {
            j
        } else {
            n
        },
        None => n,
    };
    let mut out: Vec<char> = Vec::new();
    let mut k: usize = 0;
    while k < stem_end
        invariant
            k <= stem_end <= n,
            n == cs@.len(),
            out@ == cs@.subrange(0, k as int),
        decreases stem_end - k,
    {
        out.push(cs[k]);
        proof {
            assert(cs@.subrange(0, k + 1 as int) =~= cs@.subrange(0, k as int).push(
                cs@[k as int],
            ));
        }
        k = k + 1;
    }
    out.push('.');
    out.push('j');
    out.push('s');
    out.push('o');
    out.push('n');
    proof {
        assert(out@ =~= path@.take(spec_stem_end(path@)) + ".json"@);
    }
    Some(string_from_chars(&out))
}

} // verus!
