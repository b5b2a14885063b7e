//! Reading number literals: what std's `str::parse` accepts for `i64` and for 64-bit
//! floating-point numbers, as the standard library documents it.
use vstd::prelude::*;
use crate::text::chars_of;

verus! {

/// Whether `c` is an ASCII digit.
pub open spec fn is_digit(c: char) -> bool {
    '0' <= c && c <= '9'
}

/// Whether `s` is made of ASCII digits only.
pub open spec fn all_ascii_digits(s: Seq<char>) -> bool {
    forall|i: int| 0 <= i < s.len() ==> is_digit(#[trigger] s[i])
}

/// The value of a sequence of ASCII digits.
pub open spec fn digits_value(s: Seq<char>) -> int
    decreases s.len(),
{
    if s.len() == 0 {
        0
    } else {
        digits_value(s.drop_last()) * 10 + ((s.last() as u32) - ('0' as u32))
    }
}

/// The text after a leading `+` or `-`, if there is one.
pub open spec fn skip_sign(s: Seq<char>) -> Seq<char> {
    if s.len() > 0 && (s[0] == '+' || s[0] == '-') {
        s.skip(1)
    } else {
        s
    }
}

/// What `str::parse::<i64>` gives: an optional sign, then one ASCII digit or more, whose
/// value must fit in an `i64`.
pub open spec fn spec_parse_i64(s: Seq<char>) -> Option<i64> {
    let neg = s.len() > 0 && s[0] == '-';
    let body = skip_sign(s);
    if body.len() == 0 || !all_ascii_digits(body) {
        None
    } else {
        let v = if neg {
            -digits_value(body)
        } else {
            digits_value(body)
        };
        if i64::MIN <= v <= i64::MAX {
            Some(v as i64)
        } else {
            None
        }
    }
}

/// `c` is the character `w` (a lower-case letter or another character), ignoring ASCII case.
pub open spec fn ci_char(c: char, w: char) -> bool {
    c == w || ('a' <= w && w <= 'z' && (c as u32) + 32 == (w as u32))
}

/// `s` is the word `w`, written in lower case, ignoring ASCII case.
pub open spec fn ci_word(s: Seq<char>, w: Seq<char>) -> bool {
    s.len() == w.len() && forall|i: int| 0 <= i < s.len() ==> ci_char(#[trigger] s[i], w[i])
}

/// Digits with at most one `.` among them, and at least one digit.
pub open spec fn mantissa_syntax(m: Seq<char>) -> bool {
    ||| (m.len() > 0 && all_ascii_digits(m))
    ||| exists|i: int|
        0 <= i < m.len() && #[trigger] m[i] == '.' && m.len() >= 2 && all_ascii_digits(m.take(i))
            && all_ascii_digits(m.skip(i + 1))
}

/// After the `e` of an exponent: an optional sign, then one digit or more.
pub open spec fn exponent_syntax(e: Seq<char>) -> bool {
    let d = skip_sign(e);
    d.len() > 0 && all_ascii_digits(d)
}

/// A mantissa, then an optional exponent.
pub open spec fn number_syntax(b: Seq<char>) -> bool {
    ||| mantissa_syntax(b)
    ||| exists|k: int|
        0 <= k < b.len() && (#[trigger] b[k] == 'e' || b[k] == 'E') && mantissa_syntax(b.take(k))
            && exponent_syntax(b.skip(k + 1))
}

/// The grammar that std documents for `str::parse::<f64>`: an optional sign, then `inf`,
/// `infinity`, `nan` (in any case) or a decimal number with an optional exponent.
pub open spec fn float_syntax(s: Seq<char>) -> bool {
    let b = skip_sign(s);
    ci_word(b, "inf"@) || ci_word(b, "infinity"@) || ci_word(b, "nan"@) || number_syntax(b)
}

proof fn lemma_digits_value_nonneg(s: Seq<char>)
    requires
        all_ascii_digits(s),
    ensures
        digits_value(s) >= 0,
    decreases s.len(),
{
    if s.len() > 0 {
        assert(is_digit(s[s.len() - 1]));
        lemma_digits_value_nonneg(s.drop_last());
    }
}

proof fn lemma_digits_value_grows(s: Seq<char>, i: int)
    requires
        all_ascii_digits(s),
        0 <= i <= s.len(),
    ensures
        digits_value(s.take(i)) <= digits_value(s),
    decreases s.len() - i,
{
    if i < s.len() {
        lemma_digits_value_grows(s, i + 1);
        let t = s.take(i + 1);
        assert(t.drop_last() =~= s.take(i));
        assert(is_digit(t[i]));
        lemma_digits_value_nonneg(s.take(i));
    } else {
        assert(s.take(i) =~= s);
    }
}

/// `str::parse::<i64>`.
pub fn parse_i64(s: &str) -> (r: Option<i64>)
    ensures
        r == spec_parse_i64(s@),
{
    let cs = chars_of(s);
    let n = cs.len();
    let neg = n > 0 && cs[0] == '-';
    let start: usize = if n > 0 && (cs[0] == '-' || cs[0] == '+') {
        1
    } else {
        0
    };
    let ghost body = skip_sign(s@);
    assert(body =~= cs@.skip(start as int));
    if start >= n {
        return None;
    }
    let mut acc: u64 = 0;
    let mut i: usize = start;
    while i < n
        invariant
            start <= i <= n,
            n == cs@.len(),
            cs@ == s@,
            body == skip_sign(s@),
            body == cs@.skip(start as int),
            all_ascii_digits(body.take(i - start)),
            acc == digits_value(body.take(i - start)),
            acc <= 0x8000_0000_0000_0000u64,
        decreases n - i,
    {
        let c = cs[i];
        if !('0' <= c && c <= '9') {
            assert(body[i - start] == c);
            assert(!all_ascii_digits(body));
            return None;
        }
        let d: u64 = ((c as u32) - ('0' as u32)) as u64;
        let next: u128 = (acc as u128) * 10 + (d as u128);
        let ghost k = i - start;
        proof {
            let t = body.take(k + 1);
            assert(t.drop_last() =~= body.take(k));
            assert(t.last() == c);
            assert(all_ascii_digits(t)) by {
                assert forall|j: int| 0 <= j < t.len() implies is_digit(#[trigger] t[j]) by {
                    if j < k {
                        assert(t[j] == body.take(k)[j]);
                    }
                }
            }
        }
        if next > 0x8000_0000_0000_0000u128 {
            proof {
                if all_ascii_digits(body) {
                    lemma_digits_value_grows(body, k + 1);
                }
            }
            return None;
        }
        acc = next as u64;
        i = i + 1;
    }
    assert(body.take(n - start) =~= body);
    if neg {
        if acc == 0x8000_0000_0000_0000u64 {
            Some(i64::MIN)
        } else {
            Some(-(acc as i64))
        }
    } else {
        if acc > 0x7fff_ffff_ffff_ffffu64 {
            None
        } else {
            Some(acc as i64)
        }
    }
}

/// Whether the characters `v[lo..hi]` are all ASCII digits.
fn digits_in(v: &Vec<char>, lo: usize, hi: usize) -> (r: bool)
    requires
        lo <= hi <= v@.len(),
    ensures
        r == all_ascii_digits(v@.subrange(lo as int, hi as int)),
{
    let ghost m = v@.subrange(lo as int, hi as int);
    let mut i: usize = lo;
    while i < hi
        invariant
            lo <= i <= hi <= v@.len(),
            m == v@.subrange(lo as int, hi as int),
            forall|j: int| 0 <= j < i - lo ==> is_digit(#[trigger] m[j]),
        decreases hi - i,
    {
        if !('0' <= v[i] && v[i] <= '9') {
            assert(m[i - lo] == v@[i as int]);
            return false;
        }
        assert(m[i - lo] == v@[i as int]);
        i = i + 1;
    }
    true
}

/// The first position in `v[lo..hi]` that holds `a` or `b`, or `hi`.
fn find_either(v: &Vec<char>, lo: usize, hi: usize, a: char, b: char) -> (r: usize)
    requires
        lo <= hi <= v@.len(),
    ensures
        lo <= r <= hi,
        forall|j: int| lo <= j < r ==> v@[j] != a && v@[j] != b,
        r < hi ==> (v@[r as int] == a || v@[r as int] == b),
{
    let mut i: usize = lo;
    while i < hi
        invariant
            lo <= i <= hi <= v@.len(),
            forall|j: int| lo <= j < i ==> v@[j] != a && v@[j] != b,
        decreases hi - i,
    {
        if v[i] == a || v[i] == b {
            return i;
        }
        i = i + 1;
    }
    hi
}

proof fn lemma_mantissa_has_no_e(m: Seq<char>, j: int)
    requires
        mantissa_syntax(m),
        0 <= j < m.len(),
    ensures
        m[j] != 'e' && m[j] != 'E',
{
    if m.len() > 0 && all_ascii_digits(m) {
        assert(is_digit(m[j]));
    } else {
        let i = choose|i: int|
            0 <= i < m.len() && #[trigger] m[i] == '.' && m.len() >= 2 && all_ascii_digits(
                m.take(i),
            ) && all_ascii_digits(m.skip(i + 1));
        if j < i {
            assert(is_digit(m.take(i)[j]));
        } else if j > i {
            assert(is_digit(m.skip(i + 1)[j - i - 1]));
        }
    }
}

/// Whether `v[lo..hi]` is a mantissa.
fn mantissa_in(v: &Vec<char>, lo: usize, hi: usize) -> (r: bool)
    requires
        lo <= hi <= v@.len(),
    ensures
        r == mantissa_syntax(v@.subrange(lo as int, hi as int)),
{
    let ghost m = v@.subrange(lo as int, hi as int);
    let d = find_either(v, lo, hi, '.', '.');
    if d == hi {
        assert forall|i: int| 0 <= i < m.len() implies #[trigger] m[i] != '.' by {
            assert(m[i] == v@[lo + i]);
        }
        hi > lo && digits_in(v, lo, hi)
    } else {
        let k: usize = d - lo;
        assert(m[k as int] == '.');
        assert(!is_digit(m[k as int]));
        let r = hi - lo >= 2 && digits_in(v, lo, d) && digits_in(v, d + 1, hi);
        assert(m.take(k as int) =~= v@.subrange(lo as int, d as int));
        assert(m.skip(k + 1) =~= v@.subrange(d + 1, hi as int));
        if !r {
            assert forall|i: int|
                0 <= i < m.len() && #[trigger] m[i] == '.' && m.len() >= 2 implies !(
                all_ascii_digits(m.take(i)) && all_ascii_digits(m.skip(i + 1))) by {
                if i < k {
                    assert(m[i] == v@[lo + i]);
                } else if i > k {
                    assert(m.take(i)[k as int] == '.');
                    assert(!is_digit(m.take(i)[k as int]));
                }
            }
        }
        r
    }
}

/// Whether `v[lo..hi]` is the part of an exponent after its `e`.
fn exponent_in(v: &Vec<char>, lo: usize, hi: usize) -> (r: bool)
    requires
        lo <= hi <= v@.len(),
    ensures
        r == exponent_syntax(v@.subrange(lo as int, hi as int)),
{
    let ghost e = v@.subrange(lo as int, hi as int);
    let start: usize = if lo < hi && (v[lo] == '+' || v[lo] == '-') {
        lo + 1
    } else {
        lo
    };
    assert(skip_sign(e) =~= v@.subrange(start as int, hi as int));
    start < hi && digits_in(v, start, hi)
}

/// Whether `v[lo..hi]` is a number: a mantissa and an optional exponent.
fn number_in(v: &Vec<char>, lo: usize, hi: usize) -> (r: bool)
    requires
        lo <= hi <= v@.len(),
    ensures
        r == number_syntax(v@.subrange(lo as int, hi as int)),
{
    let ghost b = v@.subrange(lo as int, hi as int);
    let k = find_either(v, lo, hi, 'e', 'E');
    if k == hi {
        assert forall|j: int| 0 <= j < b.len() implies !(#[trigger] b[j] == 'e' || b[j] == 'E') by {
            assert(b[j] == v@[lo + j]);
        }
        mantissa_in(v, lo, hi)
    } else {
        let kk: usize = k - lo;
        assert(b[kk as int] == v@[k as int]);
        proof {
            if mantissa_syntax(b) {
                lemma_mantissa_has_no_e(b, kk as int);
            }
        }
        let r = mantissa_in(v, lo, k) && exponent_in(v, k + 1, hi);
        assert(b.take(kk as int) =~= v@.subrange(lo as int, k as int));
        assert(b.skip(kk + 1) =~= v@.subrange(k + 1, hi as int));
        if !r {
            assert forall|j: int|
                0 <= j < b.len() && (#[trigger] b[j] == 'e' || b[j] == 'E') implies !(
                mantissa_syntax(b.take(j)) && exponent_syntax(b.skip(j + 1))) by {
                if j < kk {
                    assert(b[j] == v@[lo + j]);
                } else if j > kk {
                    if mantissa_syntax(b.take(j)) {
                        lemma_mantissa_has_no_e(b.take(j), kk as int);
                    }
                }
            }
        }
        r
    }
}

/// Whether `v[lo..hi]` is the word `w` (in lower case), ignoring ASCII case.
fn word_in(v: &Vec<char>, lo: usize, hi: usize, w: &str) -> (r: bool)
    requires
        lo <= hi <= v@.len(),
    ensures
        r == ci_word(v@.subrange(lo as int, hi as int), w@),
{
    let ghost s = v@.subrange(lo as int, hi as int);
    let wc = chars_of(w);
    if hi - lo != wc.len() {
        return false;
    }
    let mut i: usize = 0;
    while i < wc.len()
        invariant
            lo <= hi <= v@.len(),
            s == v@.subrange(lo as int, hi as int),
            hi - lo == wc@.len(),
            wc@ == w@,
            i <= wc@.len(),
            forall|j: int| 0 <= j < i ==> ci_char(#[trigger] s[j], w@[j]),
        decreases wc@.len() - i,
    {
        let c = v[lo + i];
        let x = wc[i];
        assert(s[i as int] == c);
        if !(c == x || ('a' <= x && x <= 'z' && (c as u32) == (x as u32) - 32)) {
            return false;
        }
        i = i + 1;
    }
    true
}

/// Whether `str::parse::<f64>` accepts the text, by the grammar that std documents.
pub fn is_float_syntax(s: &str) -> (r: bool)
    ensures
        r == float_syntax(s@),
{
    let v = chars_of(s);
    let n = v.len();
    let lo: usize = if n > 0 && (v[0] == '+' || v[0] == '-') {
        1
    } else {
        0
    };
    assert(skip_sign(s@) =~= v@.subrange(lo as int, n as int));
    word_in(&v, lo, n, "inf") || word_in(&v, lo, n, "infinity") || word_in(&v, lo, n, "nan")
        || number_in(&v, lo, n)
}

} // verus!
