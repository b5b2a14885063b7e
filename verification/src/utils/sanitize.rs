//! File paths turned into names.
use vstd::prelude::*;
use crate::text::{self, push_char};

verus! {

/// Path separators: `/` and `\`.
pub open spec fn is_separator(c: char) -> bool {
    c == '/' || c == '\\'
}

/// The characters searched for: a dot, or a separator.
pub open spec fn is_target(c: char, dot: bool) -> bool {
    if dot {
        c == '.'
    } else {
        is_separator(c)
    }
}

/// Index of the last dot (or separator) in `s`, or -1 when it has none.
pub open spec fn last_index_where(s: Seq<char>, dot: bool) -> int
    decreases s.len(),
{
    if s.len() == 0 {
        -1
    } else if is_target(s.last(), dot) {
        s.len() - 1
    } else {
        last_index_where(s.drop_last(), dot)
    }
}

/// `s` without what follows its last `.`, the dot included; `s` itself when it has no dot.
pub open spec fn strip_extension(s: Seq<char>) -> Seq<char> {
    let i = last_index_where(s, true);
    if i >= 0 {
        s.take(i)
    } else {
        s
    }
}

/// The path with every separator replaced by `_`, and its extension removed.
pub open spec fn spec_sanitize_path(path: Seq<char>) -> Seq<char> {
    strip_extension(path.map_values(|c: char| if is_separator(c) { '_' } else { c }))
}

/// The last segment of the path (what follows its last separator), without its extension.
pub open spec fn spec_filename_without_extension(path: Seq<char>) -> Seq<char> {
    strip_extension(path.skip(last_index_where(path, false) + 1))
}

/// Index of the last character satisfying the test, computed from the end.
fn last_index_of(s: &Vec<char>, dot: bool) -> (r: Option<usize>)
    ensures
        last_index_where(s@, dot) == match r {
            Some(i) => i as int,
            None => -1,
        },
        r matches Some(i) ==> i < s@.len(),
{
    let mut i: usize = s.len();
    assert(s@.take(i as int) =~= s@);
    while i > 0
        invariant
            i <= s@.len(),
            last_index_where(s@, dot) == last_index_where(s@.take(i as int), dot),
        decreases i,
    {
        let c = s[i - 1];
        let hit = if dot {
            c == '.'
        } else {
            c == '/' || c == '\\'
        };
        assert(s@.take(i as int).last() == c);
        if hit {
            return Some(i - 1);
        }
        assert(s@.take(i as int).drop_last() =~= s@.take(i - 1));
        i = i - 1;
    }
    assert(s@.take(0) =~= Seq::<char>::empty());
    None
}

/// Sanatize a file path.
pub fn sanitize_path(path: &str) -> (r: String)
    ensures
        r@ == spec_sanitize_path(path@),
{
    // Step 1: Replace backslashes and forward slashes with underscores
    let chars = text::chars_of(path);
    let mut replaced: Vec<char> = Vec::new();
    let mut i: usize = 0;
    while i < chars.len()
        invariant
            i <= chars@.len(),
            chars@ == path@,
            replaced@ == chars@.take(i as int).map_values(|c: char| if is_separator(c) { '_' } else { c }),
        decreases chars@.len() - i,
    {
        let c = chars[i];
        replaced.push(if c == '/' || c == '\\' { '_' } else { c });
        i = i + 1;
        assert(replaced@ =~= chars@.take(i as int).map_values(|c: char| if is_separator(c) { '_' } else { c }));
    }
    assert(chars@.take(chars@.len() as int) =~= chars@);
    // Step 2: Remove the extension (everything after the last '.')
    match last_index_of(&replaced, true) {
        Some(idx) => text::string_from_chars(&replaced.as_slice()[0..idx]),
        None => text::string_from_chars(replaced.as_slice()),
    }
}

/// Returns the last segment of the path (after the last / or \) and removes the extension.
pub fn get_filename_without_extension(path: &str) -> (r: String)
    ensures
        r@ == spec_filename_without_extension(path@),
{
    let chars = text::chars_of(path);
    // Step 1: Get the last segment after / or \
    let n = chars.len();
    let start: usize = match last_index_of(&chars, false) {
        Some(sep) => sep + 1,
        None => 0,
    };
    let mut segment: Vec<char> = Vec::new();
    let mut i = start;
    while i < chars.len()
        invariant
            start <= i <= chars@.len(),
            segment@ == chars@.subrange(start as int, i as int),
        decreases chars@.len() - i,
    {
        segment.push(chars[i]);
        i = i + 1;
        assert(segment@ =~= chars@.subrange(start as int, i as int));
    }
    assert(segment@ =~= chars@.skip(last_index_where(chars@, false) + 1));
    // Step 2: Remove the extension, if any
    match last_index_of(&segment, true) {
        Some(idx) => text::string_from_chars(&segment.as_slice()[0..idx]),
        None => text::string_from_chars(segment.as_slice()),
    }
}

/// The index of the last dot (or separator) is -1 or a position of one.
proof fn lemma_last_index_where(s: Seq<char>, dot: bool)
    ensures
        -1 <= last_index_where(s, dot) < s.len(),
        last_index_where(s, dot) >= 0 ==> is_target(s[last_index_where(s, dot)], dot),
        forall|j: int| last_index_where(s, dot) < j < s.len() ==> !is_target(#[trigger] s[j], dot),
    decreases s.len(),
{
    if s.len() > 0 && !is_target(s.last(), dot) {
        lemma_last_index_where(s.drop_last(), dot);
        assert forall|j: int| last_index_where(s, dot) < j < s.len() implies !is_target(
            #[trigger] s[j],
            dot,
        ) by {
            if j < s.len() - 1 {
                assert(s[j] == s.drop_last()[j]);
            }
        }
    }
}

/// A sanitized path holds no path separator.
pub proof fn lemma_sanitized_path_has_no_separator(path: Seq<char>)
    ensures
        forall|i: int|
            0 <= i < spec_sanitize_path(path).len() ==> !is_separator(
                #[trigger] spec_sanitize_path(path)[i],
            ),
{
    let m = path.map_values(|c: char| if is_separator(c) { '_' } else { c });
    lemma_last_index_where(m, true);
    assert forall|i: int| 0 <= i < spec_sanitize_path(path).len() implies !is_separator(
        #[trigger] spec_sanitize_path(path)[i],
    ) by {
        assert(spec_sanitize_path(path)[i] == m[i]);
    }
}

/// The file name taken from a path holds no path separator.
pub proof fn lemma_filename_has_no_separator(path: Seq<char>)
    ensures
        forall|i: int|
            0 <= i < spec_filename_without_extension(path).len() ==> !is_separator(
                #[trigger] spec_filename_without_extension(path)[i],
            ),
{
    let k = last_index_where(path, false);
    lemma_last_index_where(path, false);
    let seg = path.skip(k + 1);
    lemma_last_index_where(seg, true);
    assert forall|i: int| 0 <= i < spec_filename_without_extension(path).len() implies !is_separator(
        #[trigger] spec_filename_without_extension(path)[i],
    ) by {
        assert(spec_filename_without_extension(path)[i] == seg[i]);
        assert(seg[i] == path[k + 1 + i]);
    }
}


/// A sanitized path is the path with each separator written as `_`, cut before its last
/// `.`: each character of the result is the path's character at that place (`_` for a
/// separator); where the result is shorter than the path, the path has a `.` right after it
/// and none later; and the result is the whole path exactly when the path has no `.`.
pub proof fn lemma_sanitize_path_shape(path: Seq<char>)
    ensures
        ({
            let r = spec_sanitize_path(path);
            &&& r.len() <= path.len()
            &&& forall|i: int|
                0 <= i < r.len() ==> #[trigger] r[i] == (if is_separator(path[i]) {
                    '_'
                } else {
                    path[i]
                })
            &&& r.len() < path.len() ==> path[r.len() as int] == '.'
            &&& forall|j: int| r.len() < j < path.len() ==> #[trigger] path[j] != '.'
            &&& (r.len() == path.len() <==> !path.contains('.'))
        }),
{
    let m = path.map_values(|c: char| if is_separator(c) { '_' } else { c });
    lemma_last_index_where(m, true);
    let k = last_index_where(m, true);
    let r = spec_sanitize_path(path);
    assert forall|i: int| 0 <= i < r.len() implies #[trigger] r[i] == (if is_separator(path[i]) {
        '_'
    } else {
        path[i]
    }) by {
        assert(r[i] == m[i]);
    }
    assert forall|j: int| r.len() < j < path.len() implies #[trigger] path[j] != '.' by {
        assert(m[j] != '.');
    }
    if k >= 0 {
        assert(m[k] == '.');
        assert(path[k] == '.');
        assert(path.contains('.'));
    } else {
        if path.contains('.') {
            let j = choose|j: int| 0 <= j < path.len() && path[j] == '.';
            assert(m[j] == '.');
        }
    }
}

/// `r` is the piece of `path` after the separator at `k` (or from the start, for `k == -1`)
/// that ends the path's last segment, cut before the segment's last `.`: no separator comes
/// after `k`, `r` starts right after it, and either reaches the end of the path, which then
/// holds no `.` after `k`, or stops right before a `.` after which there is none.
pub open spec fn last_segment_stem(path: Seq<char>, k: int, r: Seq<char>) -> bool {
    &&& -1 <= k < path.len()
    &&& k >= 0 ==> is_separator(path[k])
    &&& forall|j: int| k < j < path.len() ==> !is_separator(#[trigger] path[j])
    &&& k + 1 + r.len() <= path.len()
    &&& r == path.subrange(k + 1, k + 1 + r.len())
    &&& k + 1 + r.len() < path.len() ==> path[k + 1 + r.len()] == '.'
    &&& forall|j: int| k + 1 + r.len() < j < path.len() ==> #[trigger] path[j] != '.'
    &&& (k + 1 + r.len() == path.len() <==> !path.skip(k + 1).contains('.'))
}

/// The file name of a path is the part of its last segment before the segment's last `.`:
/// it is the piece of the path that starts right after a separator (or at the start) with
/// no separator after it, and either reaches the end of the path, which then holds no `.`
/// after that separator, or stops right before a `.` after which there is none.
pub proof fn lemma_filename_shape(path: Seq<char>)
    ensures
        ({
            let r = spec_filename_without_extension(path);
            exists|k: int| last_segment_stem(path, k, r)
        }),
{
    let k = last_index_where(path, false);
    lemma_last_index_where(path, false);
    let seg = path.skip(k + 1);
    lemma_last_index_where(seg, true);
    let d = last_index_where(seg, true);
    let r = spec_filename_without_extension(path);
    assert(r == path.subrange(k + 1, k + 1 + r.len()));
    assert forall|j: int| k + 1 + r.len() < j < path.len() implies #[trigger] path[j] != '.' by {
        assert(seg[j - k - 1] == path[j]);
    }
    if d >= 0 {
        assert(seg[d] == '.');
        assert(path[k + 1 + d] == '.');
        assert(seg.contains('.'));
    } else {
        assert(r == seg);
        if seg.contains('.') {
            let j = choose|j: int| 0 <= j < seg.len() && seg[j] == '.';
            assert(path[k + 1 + j] == '.');
        }
    }
    assert(last_segment_stem(path, k, r));
}

} // verus!
