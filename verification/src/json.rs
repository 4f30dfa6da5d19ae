//! JSON emission helpers.
//!
//! The token endpoint answers with small JSON objects whose values are
//! ASCII protocol strings.  This module provides the two pieces those
//! bodies need: a quoted, escaped JSON string (escaping `"` and `\`, the
//! only characters of the protocol's string classes that JSON cannot take
//! bare), and decimal rendering of an unsigned number.

use crate::text::{all_ascii_bytes, ascii_string, ascii_to_chars};
use vstd::prelude::*;
use vstd::string::StrSliceExecFns;
use vstd::utf8::is_ascii_chars;

verus! {

/// The escape of one byte inside a JSON string.
pub open spec fn json_escape_byte(b: u8) -> Seq<u8> {
    if b == 0x22 {
        seq![0x5Cu8, 0x22u8]
    } else if b == 0x5C {
        seq![0x5Cu8, 0x5Cu8]
    } else {
        seq![b]
    }
}

/// The escape of a byte sequence.
pub open spec fn json_escape_bytes(s: Seq<u8>) -> Seq<u8>
    decreases s.len(),
{
    if s.len() == 0 {
        seq![]
    } else {
        json_escape_byte(s.first()) + json_escape_bytes(s.drop_first())
    }
}

/// Escaping distributes over appending one byte.
pub proof fn lemma_json_escape_push(s: Seq<u8>, b: u8)
    ensures
        json_escape_bytes(s.push(b)) == json_escape_bytes(s) + json_escape_byte(b),
    decreases s.len(),
{
    if s.len() == 0 {
        assert(s.push(b).first() == b);
        assert(s.push(b).drop_first() =~= Seq::<u8>::empty());
        assert(json_escape_bytes(Seq::<u8>::empty()) =~= Seq::<u8>::empty());
        assert(json_escape_bytes(s.push(b)) =~= json_escape_bytes(s) + json_escape_byte(b));
    } else {
        assert(s.push(b).first() == s.first());
        assert(s.push(b).drop_first() =~= s.drop_first().push(b));
        lemma_json_escape_push(s.drop_first(), b);
        assert(json_escape_bytes(s.push(b)) =~= json_escape_bytes(s) + json_escape_byte(b));
    }
}

/// Escaping ASCII bytes yields ASCII bytes.
pub proof fn lemma_json_escape_ascii(s: Seq<u8>)
    requires
        all_ascii_bytes(s),
    ensures
        all_ascii_bytes(json_escape_bytes(s)),
    decreases s.len(),
{
    if s.len() > 0 {
        lemma_json_escape_ascii(s.drop_first());
    }
}

/// A quoted JSON string holding the (ASCII) characters of `s`, escaped.
pub open spec fn json_string(s: Seq<char>) -> Seq<char>
    recommends
        is_ascii_chars(s),
{
    seq!['"'] + ascii_to_chars(json_escape_bytes(s.map_values(|c: char| c as u8))) + seq!['"']
}

/// Emits a quoted, escaped JSON string.
pub fn json_string_exec(s: &str) -> (r: String)
    requires
        is_ascii_chars(s@),
    ensures
        r@ == json_string(s@),
{
    let bytes = s.as_bytes_vec();
    proof {
        crate::text::lemma_ascii_encode(s@);
    }
    let n = bytes.len();
    let mut out: Vec<u8> = Vec::new();
    out.push(0x22);
    let mut i: usize = 0;
    proof {
        assert(bytes@.take(0) =~= Seq::<u8>::empty());
        assert(json_escape_bytes(Seq::<u8>::empty()) =~= Seq::<u8>::empty());
        assert(out@ =~= seq![0x22u8] + json_escape_bytes(bytes@.take(0)));
    }
    while i < n
        invariant
            n == bytes@.len(),
            i <= n,
            all_ascii_bytes(bytes@),
            out@ == seq![0x22u8] + json_escape_bytes(bytes@.take(i as int)),
        decreases n - i,
    {
        let b = bytes[i];
        proof {
            assert(bytes@.take(i + 1 as int) =~= bytes@.take(i as int).push(b));
            lemma_json_escape_push(bytes@.take(i as int), b);
        }
        if b == 0x22 {
            out.push(0x5C);
            out.push(0x22);
        } else if b == 0x5C {
            out.push(0x5C);
            out.push(0x5C);
        } else {
            out.push(b);
        }
        proof {
            assert(out@ =~= seq![0x22u8] + json_escape_bytes(bytes@.take(i + 1 as int)));
        }
        i += 1;
    }
    out.push(0x22);
    proof {
        assert(bytes@.take(n as int) =~= bytes@);
        lemma_json_escape_ascii(bytes@);
        assert(all_ascii_bytes(out@));
    }
    let r = ascii_string(out);
    proof {
        assert(bytes@ == s@.map_values(|c: char| c as u8));
        assert(r@ =~= json_string(s@));
    }
    r
}

/// The decimal digits of `n`, as ASCII bytes.
pub open spec fn dec_rep(n: nat) -> Seq<u8>
    decreases n,
{
    if n < 10 {
        seq![(0x30 + n) as u8]
    } else {
        dec_rep(n / 10) + seq![(0x30 + n % 10) as u8]
    }
}

/// The decimal digits of `n`, as characters.
pub open spec fn dec_chars(n: nat) -> Seq<char> {
    ascii_to_chars(dec_rep(n))
}

/// Decimal digits are ASCII.
pub proof fn lemma_dec_rep_ascii(n: nat)
    ensures
        all_ascii_bytes(dec_rep(n)),
    decreases n,
{
    if n >= 10 {
        lemma_dec_rep_ascii(n / 10);
    }
}

/// Appends the decimal digits of `n`.
fn push_dec(n: u32, out: &mut Vec<u8>)
    ensures
        final (out)@ == old(out)@ + dec_rep(n as nat),
    decreases n,
{
    if n < 10 {
        out.push(0x30 + (n as u8));
        proof {
            assert(out@ =~= old(out)@ + dec_rep(n as nat));
        }
    } else {
        push_dec(n / 10, out);
        out.push(0x30 + ((n % 10) as u8));
        proof {
            assert(out@ =~= old(out)@ + dec_rep(n as nat));
        }
    }
}

/// Renders `n` in decimal.
pub fn u32_to_string(n: u32) -> (r: String)
    ensures
        r@ == dec_chars(n as nat),
{
    let mut out: Vec<u8> = Vec::new();
    push_dec(n, &mut out);
    proof {
        lemma_dec_rep_ascii(n as nat);
        assert(out@ =~= dec_rep(n as nat));
    }
    ascii_string(out)
}

} // verus!
