//! The application/x-www-form-urlencoded byte codec.
//!
//! Query strings and token-request bodies carry their values in this
//! encoding: unreserved bytes stand for themselves, space becomes `+`, and
//! every other byte becomes `%` followed by two uppercase hex digits.  The
//! decoder is lenient the way web-facing parsers are: a `+` becomes a space,
//! a `%` followed by two hex digits becomes that byte, and anything else
//! (including a stray `%`) is kept as it is.
//!
//! Both directions are verified against the spec functions here, and
//! decoding is proved to invert encoding.

use crate::text::{all_ascii_bytes, ascii_string, ascii_to_chars, string_from_utf8};
use vstd::prelude::*;
use vstd::string::StrSliceExecFns;
use vstd::utf8::*;

verus! {

/// Bytes that the encoder passes through unchanged: ASCII alphanumerics and
/// `* - . _`.
pub open spec fn is_unreserved_byte(b: u8) -> bool {
    ||| 0x30 <= b <= 0x39
    ||| 0x41 <= b <= 0x5A
    ||| 0x61 <= b <= 0x7A
    ||| b == 0x2A
    ||| b == 0x2D
    ||| b == 0x2E
    ||| b == 0x5F
}

/// The uppercase hex digit for a value below 16.
pub open spec fn hex_upper(v: u8) -> u8
    recommends
        v < 16,
{
    if v < 10 {
        (0x30 + v) as u8
    } else {
        (0x37 + v) as u8
    }
}

/// An ASCII hex digit, either case.
pub open spec fn is_hex_byte(b: u8) -> bool {
    ||| 0x30 <= b <= 0x39
    ||| 0x41 <= b <= 0x46
    ||| 0x61 <= b <= 0x66
}

/// The value of an ASCII hex digit.
pub open spec fn hex_val(b: u8) -> u8
    recommends
        is_hex_byte(b),
{
    if 0x30 <= b <= 0x39 {
        (b - 0x30) as u8
    } else if 0x41 <= b <= 0x46 {
        (b - 0x37) as u8
    } else {
        (b - 0x57) as u8
    }
}

/// The encoding of one byte.
pub open spec fn encode_byte(b: u8) -> Seq<u8> {
    if is_unreserved_byte(b) {
        seq![b]
    } else if b == 0x20 {
        seq![0x2Bu8]
    } else {
        seq![0x25u8, hex_upper(b / 16), hex_upper(b % 16)]
    }
}

/// The encoding of a byte sequence.
pub open spec fn form_encode_bytes(s: Seq<u8>) -> Seq<u8>
    decreases s.len(),
{
    if s.len() == 0 {
        seq![]
    } else {
        encode_byte(s.first()) + form_encode_bytes(s.drop_first())
    }
}

/// The decoding of a byte sequence.
pub open spec fn form_decode_bytes(s: Seq<u8>) -> Seq<u8>
    decreases s.len(),
{
    if s.len() == 0 {
        seq![]
    } else if s.first() == 0x2B {
        seq![0x20u8] + form_decode_bytes(s.drop_first())
    } else if s.first() == 0x25 && s.len() >= 3 && is_hex_byte(s[1]) && is_hex_byte(s[2]) {
        seq![(16 * hex_val(s[1]) + hex_val(s[2])) as u8] + form_decode_bytes(s.skip(3))
    } else {
        seq![s.first()] + form_decode_bytes(s.drop_first())
    }
}

/// Encoding distributes over appending one byte.
pub proof fn lemma_form_encode_push(s: Seq<u8>, b: u8)
    ensures
        form_encode_bytes(s.push(b)) == form_encode_bytes(s) + encode_byte(b),
{
    assert(s.push(b) =~= s + seq![b]);
    lemma_form_encode_concat(s, seq![b]);
    assert(seq![b].first() == b);
    assert(seq![b].drop_first() =~= Seq::<u8>::empty());
    assert(form_encode_bytes(Seq::<u8>::empty()) =~= Seq::<u8>::empty());
    assert(form_encode_bytes(seq![b]) =~= encode_byte(b));
}

/// Encoding distributes over concatenation.
pub proof fn lemma_form_encode_concat(a: Seq<u8>, b: Seq<u8>)
    ensures
        form_encode_bytes(a + b) == form_encode_bytes(a) + form_encode_bytes(b),
    decreases a.len(),
{
    if a.len() == 0 {
        assert(a + b =~= b);
        assert(form_encode_bytes(a + b) =~= form_encode_bytes(a) + form_encode_bytes(b));
    } else {
        assert((a + b).drop_first() =~= a.drop_first() + b);
        lemma_form_encode_concat(a.drop_first(), b);
        assert(form_encode_bytes(a + b) =~= form_encode_bytes(a) + form_encode_bytes(b));
    }
}

/// Everything the encoder emits is ASCII.
pub proof fn lemma_form_encode_ascii(s: Seq<u8>)
    ensures
        all_ascii_bytes(form_encode_bytes(s)),
    decreases s.len(),
{
    if s.len() > 0 {
        lemma_form_encode_ascii(s.drop_first());
    }
}

/// The encoder never emits `&`, `=`, `?` or `#`.
pub proof fn lemma_form_encode_no_delimiters(s: Seq<u8>)
    ensures
        forall|i: int|
            0 <= i < form_encode_bytes(s).len() ==> {
                let b = #[trigger] form_encode_bytes(s)[i];
                b != 0x26 && b != 0x3D && b != 0x3F && b != 0x23
            },
    decreases s.len(),
{
    if s.len() > 0 {
        lemma_form_encode_no_delimiters(s.drop_first());
        let e = encode_byte(s.first());
        let rest = form_encode_bytes(s.drop_first());
        assert forall|i: int|
            0 <= i < form_encode_bytes(s).len() implies {
            let b = #[trigger] form_encode_bytes(s)[i];
            b != 0x26 && b != 0x3D && b != 0x3F && b != 0x23
        } by {
            if i >= e.len() {
                assert(form_encode_bytes(s)[i] == rest[i - e.len()]);
            }
        }
    }
}

/// Decoding what the encoder produced, followed by anything else, yields the
/// original bytes followed by the decoding of the rest.
pub proof fn lemma_form_decode_encode_prefix(x: Seq<u8>, rest: Seq<u8>)
    ensures
        form_decode_bytes(form_encode_bytes(x) + rest) == x + form_decode_bytes(rest),
    decreases x.len(),
{
    if x.len() == 0 {
        assert(form_encode_bytes(x) + rest =~= rest);
        assert(form_decode_bytes(form_encode_bytes(x) + rest) =~= x + form_decode_bytes(rest));
    } else {
        let b = x.first();
        let whole = form_encode_bytes(x) + rest;
        let tail = form_encode_bytes(x.drop_first()) + rest;
        lemma_form_decode_encode_prefix(x.drop_first(), rest);
        if is_unreserved_byte(b) {
            assert(whole.first() == b);
            assert(whole.drop_first() =~= tail);
            assert(form_decode_bytes(whole) =~= x + form_decode_bytes(rest));
        } else if b == 0x20 {
            assert(whole.first() == 0x2B);
            assert(whole.drop_first() =~= tail);
            assert(form_decode_bytes(whole) =~= x + form_decode_bytes(rest));
        } else {
            let h1 = hex_upper(b / 16);
            let h2 = hex_upper(b % 16);
            assert(whole.first() == 0x25);
            assert(whole.len() >= 3);
            assert(whole[1] == h1);
            assert(whole[2] == h2);
            assert(is_hex_byte(h1));
            assert(is_hex_byte(h2));
            assert(hex_val(h1) == b / 16);
            assert(hex_val(h2) == b % 16);
            assert(16 * (b / 16) + (b % 16) == b) by (nonlinear_arith);
            assert(whole.skip(3) =~= tail);
            assert(form_decode_bytes(whole) =~= x + form_decode_bytes(rest));
        }
    }
}

/// Decoding inverts encoding.
pub proof fn lemma_form_decode_encode(x: Seq<u8>)
    ensures
        form_decode_bytes(form_encode_bytes(x)) == x,
{
    lemma_form_decode_encode_prefix(x, seq![]);
    assert(form_encode_bytes(x) + seq![] =~= form_encode_bytes(x));
    assert(x + form_decode_bytes(seq![]) =~= x);
}

/// Returns true if the encoder passes this byte through unchanged.
pub fn byte_is_unreserved(b: u8) -> (r: bool)
    ensures
        r == is_unreserved_byte(b),
{
    (0x30 <= b && b <= 0x39) || (0x41 <= b && b <= 0x5A) || (0x61 <= b && b <= 0x7A) || b == 0x2A
        || b == 0x2D || b == 0x2E || b == 0x5F
}

/// The uppercase hex digit of a value below 16.
pub fn hex_upper_digit(v: u8) -> (r: u8)
    requires
        v < 16,
    ensures
        r == hex_upper(v),
{
    if v < 10 {
        0x30 + v
    } else {
        0x37 + v
    }
}

/// Returns true if the byte is an ASCII hex digit.
pub fn byte_is_hex(b: u8) -> (r: bool)
    ensures
        r == is_hex_byte(b),
{
    (0x30 <= b && b <= 0x39) || (0x41 <= b && b <= 0x46) || (0x61 <= b && b <= 0x66)
}

/// The value of an ASCII hex digit.
pub fn hex_digit_val(b: u8) -> (r: u8)
    requires
        is_hex_byte(b),
    ensures
        r == hex_val(b),
{
    if 0x30 <= b && b <= 0x39 {
        b - 0x30
    } else if 0x41 <= b && b <= 0x46 {
        b - 0x37
    } else {
        b - 0x57
    }
}

/// Form-urlencodes a byte sequence.
pub fn form_urlencode_bytes(input: &[u8]) -> (out: Vec<u8>)
    ensures
        out@ == form_encode_bytes(input@),
{
    let n = input.len();
    let mut out: Vec<u8> = Vec::new();
    let mut i: usize = 0;
    while i < n
        invariant
            n == input@.len(),
            i <= n,
            out@ == form_encode_bytes(input@.take(i as int)),
        decreases n - i,
    {
        let b = input[i];
        proof {
            assert(input@.take(i + 1 as int) =~= input@.take(i as int).push(b));
            lemma_form_encode_push(input@.take(i as int), b);
        }
        if byte_is_unreserved(b) {
            out.push(b);
        } else if b == 0x20 {
            out.push(0x2B);
        } else {
            out.push(0x25);
            out.push(hex_upper_digit(b / 16));
            out.push(hex_upper_digit(b % 16));
        }
        proof {
            assert(out@ =~= form_encode_bytes(input@.take(i + 1 as int)));
        }
        i += 1;
    }
    proof {
        assert(input@.take(n as int) =~= input@);
    }
    out
}

/// Form-urldecodes a byte sequence.
pub fn form_urldecode_bytes(input: &[u8]) -> (out: Vec<u8>)
    ensures
        out@ == form_decode_bytes(input@),
{
    let n = input.len();
    let mut out: Vec<u8> = Vec::new();
    let mut i: usize = 0;
    proof {
        assert(input@.skip(0) =~= input@);
    }
    while i < n
        invariant
            n == input@.len(),
            i <= n,
            form_decode_bytes(input@) == out@ + form_decode_bytes(input@.skip(i as int)),
        decreases n - i,
    {
        let b = input[i];
        let ghost suf = input@.skip(i as int);
        proof {
            assert(suf.first() == b);
            assert(suf.drop_first() =~= input@.skip(i + 1 as int));
        }
        if b == 0x2B {
            out.push(0x20);
            i += 1;
        } else if b == 0x25 && n - i >= 3 && byte_is_hex(input[i + 1]) && byte_is_hex(
            input[i + 2],
        ) {
            proof {
                assert(suf.len() >= 3);
                assert(suf[1] == input@[i + 1]);
                assert(suf[2] == input@[i + 2]);
                assert(suf.skip(3) =~= input@.skip(i + 3 as int));
            }
            let v1 = hex_digit_val(input[i + 1]);
            let v2 = hex_digit_val(input[i + 2]);
            out.push(16 * v1 + v2);
            i += 3;
        } else {
            out.push(b);
            i += 1;
        }
    }
    proof {
        assert(form_decode_bytes(input@.skip(n as int)) =~= Seq::<u8>::empty());
        assert(out@ =~= out@ + form_decode_bytes(input@.skip(n as int)));
    }
    out
}

/// The form-urlencoding of a character sequence: its UTF-8 bytes encoded,
/// read back as (ASCII) characters.
pub open spec fn form_encode_str(s: Seq<char>) -> Seq<char> {
    ascii_to_chars(form_encode_bytes(encode_utf8(s)))
}

/// The form-urldecoding of a character sequence: its UTF-8 bytes decoded;
/// `None` when the decoded bytes are not UTF-8.
pub open spec fn form_decode_str(s: Seq<char>) -> Option<Seq<char>> {
    let d = form_decode_bytes(encode_utf8(s));
    if valid_utf8(d) {
        Some(decode_utf8(d))
    } else {
        None
    }
}

/// Form-urlencodes a string.
pub fn form_urlencode(s: &str) -> (r: String)
    ensures
        r@ == form_encode_str(s@),
        is_ascii_chars(r@),
{
    let bytes = s.as_bytes_vec();
    let out = form_urlencode_bytes(bytes.as_slice());
    proof {
        lemma_form_encode_ascii(bytes@);
        crate::text::lemma_ascii_to_chars_ascii(out@);
    }
    ascii_string(out)
}

/// Form-urldecodes a string.
pub fn form_urldecode(s: &str) -> (r: Option<String>)
    ensures
        match r {
            Some(t) => form_decode_str(s@) == Some(t@),
            None => form_decode_str(s@) is None,
        },
{
    let bytes = s.as_bytes_vec();
    let out = form_urldecode_bytes(bytes.as_slice());
    string_from_utf8(out)
}

/// Decoding inverts encoding, at the character level.
pub proof fn lemma_form_roundtrip_str(s: Seq<char>)
    ensures
        form_decode_str(form_encode_str(s)) == Some(s),
{
    broadcast use encode_utf8_valid_utf8, encode_utf8_decode_utf8;

    let eb = form_encode_bytes(encode_utf8(s));
    lemma_form_encode_ascii(encode_utf8(s));
    crate::text::lemma_ascii_to_chars_ascii(eb);
    crate::text::lemma_ascii_encode(ascii_to_chars(eb));
    assert(encode_utf8(ascii_to_chars(eb)) =~= eb) by {
        assert forall|i: int| 0 <= i < eb.len() implies ascii_to_chars(eb).map_values(
            |c: char| c as u8,
        )[i] == eb[i] by {
            assert((eb[i] as char) as u8 == eb[i]);
        }
        assert(ascii_to_chars(eb).map_values(|c: char| c as u8) =~= eb);
    }
    lemma_form_decode_encode(encode_utf8(s));
}

} // verus!
