//! Shared byte- and character-level helpers.
//!
//! The codecs in this crate work on byte sequences (the UTF-8 bytes of the
//! strings crossing the wire) and hand back `String` values.  This module
//! holds the bridge between the two: the correspondence between all-ASCII
//! byte sequences and their character sequences, construction of a `String`
//! from bytes, and character-exact string comparison.

use vstd::prelude::*;
use vstd::string::StrSliceExecFns;
use vstd::utf8::*;

verus! {

/// Every byte of `s` is in the ASCII range.
pub open spec fn all_ascii_bytes(s: Seq<u8>) -> bool {
    forall|i: int| 0 <= i < s.len() ==> (#[trigger] s[i]) < 0x80
}

/// The characters of an all-ASCII byte sequence, byte for byte.
pub open spec fn ascii_to_chars(s: Seq<u8>) -> Seq<char> {
    s.map_values(|b: u8| b as char)
}

/// An all-ASCII byte sequence is valid UTF-8 and decodes to its own bytes
/// read as characters.
pub proof fn lemma_ascii_decode(s: Seq<u8>)
    requires
        all_ascii_bytes(s),
    ensures
        valid_utf8(s),
        decode_utf8(s) == ascii_to_chars(s),
    decreases s.len(),
{
    if s.len() == 0 {
        assert(decode_utf8(s) =~= ascii_to_chars(s));
    } else {
        let b = s[0];
        assert(b & 0x7F == b) by (bit_vector)
            requires
                b < 0x80,
        ;
        assert(valid_first_scalar(s));
        assert(length_of_first_scalar(s) == 1);
        assert(pop_first_scalar(s) =~= s.drop_first());
        lemma_ascii_decode(s.drop_first());
        assert(decode_first_scalar(s) == b as u32);
        assert((b as u32) as char == b as char);
        assert(decode_utf8(s) =~= ascii_to_chars(s));
    }
}

/// Encoding all-ASCII characters yields their codes as bytes, one each.
pub proof fn lemma_ascii_encode(s: Seq<char>)
    requires
        is_ascii_chars(s),
    ensures
        encode_utf8(s) == s.map_values(|c: char| c as u8),
        all_ascii_bytes(encode_utf8(s)),
        ascii_to_chars(encode_utf8(s)) == s,
{
    is_ascii_chars_encode_utf8(s);
    assert(encode_utf8(s) =~= s.map_values(|c: char| c as u8));
    assert forall|i: int| 0 <= i < encode_utf8(s).len() implies (#[trigger] encode_utf8(s)[i])
        < 0x80 by {
        assert((s[i] as u32) < 0x80);
    }
    assert forall|i: int| 0 <= i < s.len() implies #[trigger] ascii_to_chars(encode_utf8(s))[i]
        == s[i] by {
        assert((s[i] as u32) < 0x80);
        assert((s[i] as u8) as char == s[i]);
    }
    assert(ascii_to_chars(encode_utf8(s)) =~= s);
}

/// Characters whose codes stay below 0x80 are ASCII characters.
pub proof fn lemma_ascii_chars_from_codes(s: Seq<char>)
    requires
        forall|i: int| 0 <= i < s.len() ==> ((#[trigger] s[i]) as u32) < 0x80,
    ensures
        is_ascii_chars(s),
{
    assert forall|i: int| 0 <= i < s.len() implies '\0' <= #[trigger] s[i] <= '\u{7f}' by {
        assert((s[i] as u32) < 0x80);
        assert(('\0' as u32) == 0);
        assert(('\u{7f}' as u32) == 0x7f);
        vstd::utf8::char_u32_cast(s[i], s[i] as u32);
        vstd::utf8::char_u32_cast('\0', 0);
        vstd::utf8::char_u32_cast('\u{7f}', 0x7f);
    }
}

/// The characters of an all-ASCII byte sequence are ASCII characters.
pub proof fn lemma_ascii_to_chars_ascii(s: Seq<u8>)
    requires
        all_ascii_bytes(s),
    ensures
        is_ascii_chars(ascii_to_chars(s)),
{
    assert forall|i: int|
        0 <= i < ascii_to_chars(s).len() implies '\0' <= #[trigger] ascii_to_chars(s)[i]
        <= '\u{7f}' by {
        assert(((s[i] as char) as u32) == s[i] as u32);
    }
}

/// Relies on `String::from_utf8`: it returns `Ok` exactly when the bytes are
/// valid UTF-8, and the returned string holds the decoded characters.
#[verifier::external_body]
pub fn string_from_utf8(bytes: Vec<u8>) -> (r: Option<String>)
    ensures
        r is Some <==> valid_utf8(bytes@),
        r matches Some(s) ==> s@ == decode_utf8(bytes@),
{
    String::from_utf8(bytes).ok()
}

/// Builds the string whose characters are the given ASCII bytes.
pub fn ascii_string(bytes: Vec<u8>) -> (r: String)
    requires
        all_ascii_bytes(bytes@),
    ensures
        r@ == ascii_to_chars(bytes@),
{
    proof {
        lemma_ascii_decode(bytes@);
    }
    let r = string_from_utf8(bytes);
    match r {
        Some(s) => s,
        None => {
            proof {
                assert(false);
            }
            String::new()
        },
    }
}

/// Character-exact equality of two string slices.
pub fn str_eq(a: &str, b: &str) -> (r: bool)
    ensures
        r == (a@ == b@),
{
    let an = a.unicode_len();
    let bn = b.unicode_len();
    if an != bn {
        return false;
    }
    let mut i: usize = 0;
    while i < an
        invariant
            an == a@.len(),
            an == b@.len(),
            i <= an,
            forall|j: int| 0 <= j < i ==> a@[j] == b@[j],
        decreases an - i,
    {
        if a.get_char(i) != b.get_char(i) {
            return false;
        }
        i += 1;
    }
    proof {
        assert(a@ =~= b@);
    }
    true
}

/// True when `c` occurs in `s`.
pub open spec fn contains_char(s: Seq<char>, c: char) -> bool {
    exists|i: int| 0 <= i < s.len() && s[i] == c
}

/// Scans a string slice for a character.
pub fn str_contains_char(s: &str, c: char) -> (r: bool)
    ensures
        r == contains_char(s@, c),
{
    let n = s.unicode_len();
    let mut i: usize = 0;
    while i < n
        invariant
            n == s@.len(),
            i <= n,
            forall|j: int| 0 <= j < i ==> s@[j] != c,
        decreases n - i,
    {
        if s.get_char(i) == c {
            return true;
        }
        i += 1;
    }
    false
}

} // verus!
