//! Rewriting of easyjs strings into JavaScript template strings.
use vstd::prelude::*;
use crate::lexer::model::is_allowed_in_ident;
use crate::text::{self, is_alphabetic, spec_is_alphabetic};
use crate::lexer::lex::allowed_in_ident;

verus! {

/// One step of `string_interpolation` at index `i`, given the output so far, whether a
/// `${` is open, and where it was opened.
pub open spec fn interpolate_from(
    chars: Seq<char>,
    i: int,
    result: Seq<char>,
    listening: bool,
    found_at: int,
) -> Seq<char>
    decreases chars.len() - i,
{
    if i < 0 || i >= chars.len() {
        result
    } else {
        let c = chars[i];
        let next_char = if i + 1 < chars.len() {
            chars[i + 1]
        } else {
            ' '
        };
        let prev_char = if i > 0 {
            chars[i - 1]
        } else {
            ' '
        };
        if c == '$' && prev_char != '\\' && next_char != '{' {
            let r1 = if listening {
                result.push('}')
            } else {
                result
            };
            let r2 = r1.push('$').push('{');
            // the block is closed at the end of the input
            let r3 = if i == chars.len() - 1 {
                r2.push('}')
            } else {
                r2
            };
            interpolate_from(chars, i + 1, r3, true, i)
        } else {
            let closes = listening && i > found_at && !(spec_is_alphabetic(c) || is_allowed_in_ident(c));
            let r1 = if closes {
                result.push('}')
            } else {
                result
            };
            let l1 = listening && !closes;
            let r2 = r1.push(c);
            let r3 = if l1 && i == chars.len() - 1 {
                r2.push('}')
            } else {
                r2
            };
            interpolate_from(chars, i + 1, r3, l1, found_at)
        }
    }
}

/// Turn each `$name` of a string into `${name}`: a `$` not escaped by `\` and not already
/// followed by `{` opens a `${`, which closes before the first character that cannot be part
/// of an identifier (or at the end of the string, even right after the `$`).
pub fn string_interpolation(input: &str) -> (r: String)
    ensures
        r@ == interpolate_from(input@, 0, Seq::empty(), false, 0),
{
    let mut result: Vec<char> = Vec::new();
    let mut listen_for_ending = false;
    let mut found_at: usize = 0;
    // Collect chars to access by index
    let chars = text::chars_of(input);
    let n = chars.len();
    let ghost target = interpolate_from(chars@, 0, Seq::empty(), false, 0);
    let mut i: usize = 0;
    while i < n
        invariant
            n == chars@.len(),
            chars@ == input@,
            i <= n,
            interpolate_from(chars@, i as int, result@, listen_for_ending, found_at as int) == target,
        decreases n - i,
    {
        let c = chars[i];
        // Look ahead safely
        let next_char = if i + 1 < n {
            chars[i + 1]
        } else {
            ' '
        };
        // Look behind safely
        let prev_char = if i > 0 {
            chars[i - 1]
        } else {
            ' '
        };
        if c == '$' && prev_char != '\\' && next_char != '{' {
            if listen_for_ending {
                result.push('}');
            }
            listen_for_ending = true;
            found_at = i;
            result.push('$');
            result.push('{');
            // Close the interpolation block if at the end of input
            if i == n - 1 {
                result.push('}');
            }
            i = i + 1;
            continue;
        }
        if listen_for_ending && i > found_at {
            if !is_alphabetic(c) && !allowed_in_ident(c) {
                // Stop listening if a non-alphabetic char is found
                listen_for_ending = false;
                result.push('}');
            }
        }
        result.push(c);
        // Close the interpolation block if at the end of input and still listening
        if listen_for_ending && i == n - 1 {
            result.push('}');
        }
        i = i + 1;
    }
    text::string_from_chars(result.as_slice())
}

/// Text without `$` is left as it is by interpolation.
pub proof fn lemma_interpolation_without_dollar(chars: Seq<char>)
    requires
        !chars.contains('$'),
    ensures
        interpolate_from(chars, 0, Seq::empty(), false, 0) == chars,
{
    lemma_copy_from(chars, 0, Seq::empty());
    assert(Seq::<char>::empty() + chars.skip(0) =~= chars);
}

proof fn lemma_copy_from(chars: Seq<char>, i: int, result: Seq<char>)
    requires
        !chars.contains('$'),
        0 <= i <= chars.len(),
    ensures
        interpolate_from(chars, i, result, false, 0) == result + chars.skip(i),
    decreases chars.len() - i,
{
    if i < chars.len() {
        assert(chars[i] != '$');
        lemma_copy_from(chars, i + 1, result.push(chars[i]));
        assert(result.push(chars[i]) + chars.skip(i + 1) =~= result + chars.skip(i));
    } else {
        assert(result + chars.skip(i) =~= result);
    }
}

/// The characters that continue a name after `$`.
pub open spec fn name_char(c: char) -> bool {
    spec_is_alphabetic(c) || is_allowed_in_ident(c)
}

proof fn lemma_name_run(chars: Seq<char>, i: int, j: int, k: int, r: Seq<char>)
    requires
        0 <= i < j <= k < chars.len(),
        forall|m: int| j <= m < k ==> name_char(#[trigger] chars[m]) && chars[m] != '$',
    ensures
        interpolate_from(chars, j, r, true, i) == interpolate_from(
            chars,
            k,
            r + chars.subrange(j, k),
            true,
            i,
        ),
    decreases k - j,
{
    if j < k {
        assert(name_char(chars[j]) && chars[j] != '$');
        lemma_name_run(chars, i, j + 1, k, r.push(chars[j]));
        assert(r.push(chars[j]) + chars.subrange(j + 1, k) =~= r + chars.subrange(j, k));
    } else {
        assert(r + chars.subrange(j, k) =~= r);
    }
}

/// A `$` that no `\` escapes, followed by a name and then by a character that cannot be part
/// of a name, becomes `${`, the name, `}` and that character; the text after it is then
/// read with no block open.
pub proof fn lemma_name_is_closed(chars: Seq<char>, i: int, k: int, r: Seq<char>, f: int)
    requires
        0 <= i,
        i + 1 < k < chars.len(),
        chars[i] == '$',
        i == 0 || chars[i - 1] != '\\',
        chars[i + 1] != '{',
        forall|m: int| i < m < k ==> name_char(#[trigger] chars[m]) && chars[m] != '$',
        !name_char(chars[k]),
        chars[k] != '$',
    ensures
        interpolate_from(chars, i, r, false, f) == interpolate_from(
            chars,
            k + 1,
            r + seq!['$', '{'] + chars.subrange(i + 1, k) + seq!['}', chars[k]],
            false,
            i,
        ),
{
    let r1 = r.push('$').push('{');
    lemma_name_run(chars, i, i + 1, k, r1);
    assert(r1 + chars.subrange(i + 1, k) =~= r + seq!['$', '{'] + chars.subrange(i + 1, k));
    let r2 = r1 + chars.subrange(i + 1, k);
    assert(r2.push('}').push(chars[k]) =~= r + seq!['$', '{'] + chars.subrange(i + 1, k) + seq![
        '}',
        chars[k],
    ]);
}

/// A whole string `$name` followed by such a character and more text: the name is wrapped
/// in `${` and `}`.
pub proof fn lemma_interpolated_name(x: Seq<char>, c: char, rest: Seq<char>)
    requires
        x.len() > 0,
        x[0] != '{',
        forall|m: int| 0 <= m < x.len() ==> name_char(#[trigger] x[m]) && x[m] != '$',
        !name_char(c),
        c != '$',
    ensures
        interpolate_from(seq!['$'] + x + seq![c] + rest, 0, Seq::empty(), false, 0)
            == interpolate_from(
            seq!['$'] + x + seq![c] + rest,
            x.len() + 2int,
            seq!['$', '{'] + x + seq!['}', c],
            false,
            0,
        ),
{
    let chars = seq!['$'] + x + seq![c] + rest;
    let k: int = x.len() as int + 1;
    assert forall|m: int| 0 < m < k implies name_char(#[trigger] chars[m]) && chars[m] != '$' by {
        assert(chars[m] == x[m - 1]);
    }
    assert(chars[k] == c);
    assert(chars[1] == x[0]);
    assert(chars.subrange(1, k) =~= x);
    lemma_name_is_closed(chars, 0, k, Seq::empty(), 0);
    assert(Seq::<char>::empty() + seq!['$', '{'] + x + seq!['}', c] =~= seq!['$', '{'] + x + seq![
        '}',
        c,
    ]);
}

/// A string that ends in `$name` has the block closed at its end: interpolating `$` and a
/// name gives `${`, the name and `}`.
pub proof fn lemma_name_at_end(x: Seq<char>)
    requires
        x.len() > 0,
        x[0] != '{',
        forall|m: int| 0 <= m < x.len() ==> name_char(#[trigger] x[m]) && x[m] != '$',
    ensures
        interpolate_from(seq!['$'] + x, 0, Seq::empty(), false, 0) == seq!['$', '{'] + x + seq![
            '}',
        ],
{
    let chars = seq!['$'] + x;
    let k: int = x.len() as int;
    assert forall|m: int| 0 < m < k implies name_char(#[trigger] chars[m]) && chars[m] != '$' by {
        assert(chars[m] == x[m - 1]);
    }
    assert(chars[1] == x[0]);
    assert(chars[k] == x[k - 1]);
    let r1 = seq!['$', '{'];
    assert(Seq::<char>::empty().push('$').push('{') =~= r1);
    if k > 1 {
        lemma_name_run(chars, 0, 1, k, r1);
    }
    assert(r1 + chars.subrange(1, k) =~= r1 + x.take(k - 1));
    assert(chars.len() == k + 1);
    assert(interpolate_from(chars, 0, Seq::empty(), false, 0) == interpolate_from(chars, 1, r1, true, 0));
    assert(interpolate_from(chars, 1, r1, true, 0) == interpolate_from(chars, k, r1 + x.take(k - 1), true, 0));
    let r2 = (r1 + x.take(k - 1)).push(x[k - 1]).push('}');
    assert(interpolate_from(chars, k, r1 + x.take(k - 1), true, 0) == interpolate_from(chars, k + 1, r2, true, 0));
    assert(interpolate_from(chars, k + 1, r2, true, 0) == r2);
    assert((r1 + x.take(k - 1)).push(x[k - 1]).push('}') =~= seq!['$', '{'] + x + seq!['}']);
}

/// A `$` that a `\` escapes opens no block: it is copied as it stands, and the text after it
/// is read in the same way as before.
pub proof fn lemma_escaped_dollar(chars: Seq<char>, i: int, r: Seq<char>)
    requires
        0 < i < chars.len(),
        chars[i] == '$',
        chars[i - 1] == '\\',
    ensures
        interpolate_from(chars, i, r, false, 0) == interpolate_from(chars, i + 1, r.push('$'), false, 0),
{
}

} // verus!

