//! Hashes and generated names.
use vstd::prelude::*;
use std::hash::BuildHasher;
use rand::distr::SampleString;
use crate::text::{self, digits, push_str, push_char};

verus! {

/// The 64-bit hash that std's `DefaultHasher`, created with `DefaultHasher::new()`, gives
/// a string. It is a function of the characters alone (the hasher's keys are fixed).
pub uninterp spec fn spec_default_hash(s: Seq<char>) -> u64;

/// `BuildHasher::hash_one` with std's `BuildHasherDefault<DefaultHasher>`: feeds the string to
/// a `DefaultHasher::new()` and returns `finish()`. The result is named by `spec_default_hash`;
/// nothing more is stated of it.
#[verifier::external_body]
fn default_hash(input: &str) -> (r: u64)
    ensures
        r == spec_default_hash(input@),
{
    std::hash::BuildHasherDefault::<std::collections::hash_map::DefaultHasher>::default().hash_one(input)
}

/// ASCII letters and digits.
pub open spec fn is_ascii_alphanumeric(c: char) -> bool {
    ('a' <= c && c <= 'z') || ('A' <= c && c <= 'Z') || ('0' <= c && c <= '9')
}

/// `SampleString::sample_string` of rand's `Alphanumeric` distribution, drawn from the
/// thread-local generator `rand::rng()`: `len` characters, each an ASCII letter or digit.
/// Which characters come out is left open.
#[verifier::external_body]
fn random_alphanumeric(len: usize) -> (r: String)
    ensures
        r@.len() == len,
        forall|i: int| 0 <= i < len ==> is_ascii_alphanumeric(#[trigger] r@[i]),
{
    rand::distr::Alphanumeric.sample_string(&mut rand::rng(), len)
}

/// The hexadecimal text of the string's hash.
pub fn generate_hash(input: &str) -> (r: String)
    ensures
        r@ == digits(spec_default_hash(input@) as nat, 16),
{
    let hash = default_hash(input);
    // Convert hash to a hexadecimal string
    text::u64_digits(hash, 16)
}

/// The short name made from a string: `hashsed_`, its first character, and the first four
/// decimal digits of its hash.
pub open spec fn spec_hash_string(input: Seq<char>) -> Seq<char> {
    "hashsed_"@ + input.take(1) + digits(spec_default_hash(input) as nat, 10).take(4)
}

/// The short name made from a string; the string must start with an ASCII character and
/// its hash must have four decimal digits at least.
pub fn hash_string(input: &str) -> (r: String)
    requires
        input@.len() > 0,
        (input@[0] as u32) < 128,
        spec_default_hash(input@) >= 1000,
    ensures
        r@ == spec_hash_string(input@),
{
    let hash_value = default_hash(input);
    let hash = text::u64_digits(hash_value, 10);
    proof {
        lemma_four_digits(hash_value as nat);
    }
    let mut s = String::new();
    push_str(&mut s, "hashsed_");
    push_char(&mut s, input.get_char(0));
    let mut i: usize = 0;
    while i < 4
        invariant
            hash@.len() >= 4,
            i <= 4,
            s@ == "hashsed_"@ + input@.take(1) + hash@.take(i as int),
        decreases 4 - i,
    {
        push_char(&mut s, hash.as_str().get_char(i));
        i = i + 1;
        assert(s@ =~= "hashsed_"@ + input@.take(1) + hash@.take(i as int));
    }
    s
}

/// A number of at least 1000 has at least four decimal digits.
proof fn lemma_four_digits(n: nat)
    requires
        n >= 1000,
    ensures
        digits(n, 10).len() >= 4,
    decreases n,
{
    assert(digits(n, 10) == digits(n / 10, 10).push(text::hex_char(n % 10)));
    if n / 10 >= 1000 {
        lemma_four_digits(n / 10);
    } else {
        assert(n / 10 >= 100);
        assert(digits(n / 10, 10) == digits(n / 100, 10).push(text::hex_char((n / 10) % 10)));
        assert(n / 100 >= 10);
        assert(digits(n / 100, 10) == digits(n / 1000, 10).push(text::hex_char((n / 100) % 10)));
    }
}

/// `hash_string` where it is defined: `None` when the string is empty, starts with a
/// character beyond ASCII, or has a hash below 1000.
pub fn hash_string_checked(input: &str) -> (r: Option<String>)
    ensures
        match r {
            Some(s) => input@.len() > 0 && (input@[0] as u32) < 128 && spec_default_hash(input@) >= 1000
                && s@ == spec_hash_string(input@),
            None => !(input@.len() > 0 && (input@[0] as u32) < 128 && spec_default_hash(input@) >= 1000),
        },
{
    if input.unicode_len() == 0 {
        return None;
    }
    if (input.get_char(0) as u32) >= 128 {
        return None;
    }
    if default_hash(input) < 1000 {
        return None;
    }
    Some(hash_string(input))
}

/// Generate a random hash from a length: `_` and `length` random ASCII letters or digits.
pub fn random_hash(length: usize) -> (r: String)
    ensures
        r@.len() == length + 1,
        r@[0] == '_',
        forall|i: int| 1 <= i <= length ==> is_ascii_alphanumeric(#[trigger] r@[i]),
{
    let rnd = random_alphanumeric(length);
    let mut s = text::char_to_string('_');
    push_str(&mut s, rnd.as_str());
    assert forall|i: int| 1 <= i <= length implies is_ascii_alphanumeric(#[trigger] s@[i]) by {
        assert(s@[i] == rnd@[i - 1]);
    }
    s
}

/// Get JS name if is_pub: the name itself, or else a random name of the form `_xxxx`.
pub fn get_js_name(ej_name: String, is_pub: bool) -> (r: String)
    ensures
        is_pub ==> r@ == ej_name@,
        !is_pub ==> r@.len() == 5 && r@[0] == '_' && forall|i: int|
            1 <= i < 5 ==> is_ascii_alphanumeric(#[trigger] r@[i]),
{
    if is_pub {
        ej_name
    } else {
        random_hash(4)
    }
}

} // verus!
