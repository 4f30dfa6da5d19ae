//! The protocol laws.
//!
//! The engines' contracts pin each endpoint to a decision function; this
//! module proves the protocol-level properties those decisions compose
//! into: what a built redirect parses back to (the `state` and `code`
//! round trips), that a full flow ends in token issuance and consumes its
//! grant and nonce, that errors detected before trust never redirect, and
//! that codes and nonces are single-use.

use crate::client_data::ClientData;
use crate::form::{encode_byte, form_decode_bytes, form_encode_bytes, form_encode_str,
    is_unreserved_byte, lemma_form_decode_encode, lemma_form_encode_ascii,
    lemma_form_encode_no_delimiters};
use crate::query::{decoded_pairs, first_param, first_pos, key_count, last_param,
    lemma_first_pos, lemma_first_pos_is, pairs_utf8, query_pairs, raw_pairs, split_pair};
use crate::text::{all_ascii_bytes, ascii_to_chars, contains_char, lemma_ascii_encode,
    lemma_ascii_to_chars_ascii};
use crate::uri::{strip_fragment, uri_params, uri_params_ok, uri_query, with_query_pair,
    query_sep};
use vstd::prelude::*;
use vstd::utf8::*;

verus! {

/// UTF-8 encoding distributes over concatenation.
pub proof fn lemma_encode_utf8_concat(a: Seq<char>, b: Seq<char>)
    ensures
        encode_utf8(a + b) == encode_utf8(a) + encode_utf8(b),
    decreases a.len(),
{
    if a.len() == 0 {
        assert(a + b =~= b);
        assert(encode_utf8(a) =~= Seq::<u8>::empty());
        assert(encode_utf8(a + b) =~= encode_utf8(a) + encode_utf8(b));
    } else {
        assert((a + b).first() == a.first());
        assert((a + b).drop_first() =~= a.drop_first() + b);
        lemma_encode_utf8_concat(a.drop_first(), b);
        assert(encode_utf8(a + b) =~= encode_utf8(a) + encode_utf8(b));
    }
}

/// An ASCII byte value that no character of `s` has does not occur in the
/// UTF-8 bytes of `s`: multi-byte encodings only use bytes at or above
/// 0x80.
pub proof fn lemma_encode_utf8_no_byte(s: Seq<char>, b: u8)
    requires
        b < 0x80,
        forall|i: int| 0 <= i < s.len() ==> (#[trigger] s[i]) as u32 != b as u32,
    ensures
        forall|j: int| 0 <= j < encode_utf8(s).len() ==> #[trigger] encode_utf8(s)[j] != b,
    decreases s.len(),
{
    if s.len() > 0 {
        let c = s.first() as u32;
        lemma_encode_utf8_no_byte(s.drop_first(), b);
        broadcast use char_is_scalar;

        assert forall|j: int|
            0 <= j < encode_scalar(c).len() implies #[trigger] encode_scalar(c)[j] != b by {
            if has_width_1_encoding(c) {
                assert(leading_byte_width_1(c) != b) by (bit_vector)
                    requires
                        c < 0x80 && c != b as u32 && b < 0x80,
                ;
            } else {
                assert(leading_byte_width_2(c) >= 0x80) by (bit_vector);
                assert(leading_byte_width_3(c) >= 0x80) by (bit_vector);
                assert(leading_byte_width_4(c) >= 0x80) by (bit_vector);
                assert(last_continuation_byte(c) >= 0x80) by (bit_vector);
                assert(second_last_continuation_byte(c) >= 0x80) by (bit_vector);
                assert(third_last_continuation_byte(c) >= 0x80) by (bit_vector);
            }
        }
        assert forall|j: int|
            0 <= j < encode_utf8(s).len() implies #[trigger] encode_utf8(s)[j] != b by {
            if j < encode_scalar(c).len() {
                assert(encode_utf8(s)[j] == encode_scalar(c)[j]);
            } else {
                assert(encode_utf8(s)[j] == encode_utf8(s.drop_first())[j - encode_scalar(
                    c,
                ).len()]);
            }
        }
    }
}

/// A plain character: unreserved ASCII, which every codec here passes
/// through unchanged.
pub open spec fn plain_char(c: char) -> bool {
    ||| 0x30 <= c as u32 <= 0x39
    ||| 0x41 <= c as u32 <= 0x5A
    ||| 0x61 <= c as u32 <= 0x7A
    ||| c as u32 == 0x2A
    ||| c as u32 == 0x2D
    ||| c as u32 == 0x2E
    ||| c as u32 == 0x5F
}

/// A plain string: nonempty, all plain characters.  The protocol's fixed
/// parameter names and grant-type values are plain.
pub open spec fn plain_str(s: Seq<char>) -> bool {
    s.len() > 0 && forall|i: int| 0 <= i < s.len() ==> plain_char(#[trigger] s[i])
}

/// Plain characters are ASCII and their bytes are unreserved.
pub proof fn lemma_plain_bytes(s: Seq<char>)
    requires
        forall|i: int| 0 <= i < s.len() ==> plain_char(#[trigger] s[i]),
    ensures
        is_ascii_chars(s),
        encode_utf8(s) == s.map_values(|c: char| c as u8),
        encode_utf8(s).len() == s.len(),
        forall|j: int|
            0 <= j < encode_utf8(s).len() ==> is_unreserved_byte(#[trigger] encode_utf8(s)[j]),
        ascii_to_chars(encode_utf8(s)) == s,
{
    crate::text::lemma_ascii_chars_from_codes(s);
    lemma_ascii_encode(s);
    assert forall|j: int|
        0 <= j < encode_utf8(s).len() implies is_unreserved_byte(
        #[trigger] encode_utf8(s)[j],
    ) by {
        assert(encode_utf8(s)[j] == s[j] as u8);
        assert(plain_char(s[j]));
        assert((s[j] as u32) < 0x80);
    }
}

/// Unreserved bytes decode to themselves: they contain no `+` and no `%`.
pub proof fn lemma_form_decode_plain(s: Seq<u8>)
    requires
        forall|i: int| 0 <= i < s.len() ==> is_unreserved_byte(#[trigger] s[i]),
    ensures
        form_decode_bytes(s) == s,
    decreases s.len(),
{
    if s.len() > 0 {
        lemma_form_decode_plain(s.drop_first());
        assert(form_decode_bytes(s) =~= s);
    }
}

/// Unreserved bytes encode to themselves.
pub proof fn lemma_form_encode_plain(s: Seq<u8>)
    requires
        forall|i: int| 0 <= i < s.len() ==> is_unreserved_byte(#[trigger] s[i]),
    ensures
        form_encode_bytes(s) == s,
    decreases s.len(),
{
    if s.len() > 0 {
        lemma_form_encode_plain(s.drop_first());
        assert(encode_byte(s.first()) =~= seq![s.first()]);
        assert(form_encode_bytes(s) =~= s);
    }
}

/// A plain string form-urlencodes to itself.
pub proof fn lemma_form_encode_str_plain(s: Seq<char>)
    requires
        forall|i: int| 0 <= i < s.len() ==> plain_char(#[trigger] s[i]),
    ensures
        form_encode_str(s) == s,
{
    lemma_plain_bytes(s);
    lemma_form_encode_plain(encode_utf8(s));
}

/// The UTF-8 bytes of an encoded value are the encoding of its bytes.
pub proof fn lemma_encode_of_encoded(v: Seq<char>)
    ensures
        encode_utf8(form_encode_str(v)) == form_encode_bytes(encode_utf8(v)),
        all_ascii_bytes(form_encode_bytes(encode_utf8(v))),
{
    let eb = form_encode_bytes(encode_utf8(v));
    lemma_form_encode_ascii(encode_utf8(v));
    lemma_ascii_to_chars_ascii(eb);
    lemma_ascii_encode(ascii_to_chars(eb));
    assert forall|i: int|
        0 <= i < eb.len() implies ascii_to_chars(eb).map_values(|c: char| c as u8)[i]
        == eb[i] by {
        assert((eb[i] as char) as u8 == eb[i]);
    }
    assert(ascii_to_chars(eb).map_values(|c: char| c as u8) =~= eb);
}

/// No byte of `s` is `b`.
pub open spec fn no_byte(s: Seq<u8>, b: u8) -> bool {
    forall|i: int| 0 <= i < s.len() ==> (#[trigger] s[i]) != b
}

/// Splitting on `&` distributes over an `&`-joint.
pub proof fn lemma_raw_pairs_amp(a: Seq<u8>, b: Seq<u8>)
    ensures
        raw_pairs(a + seq![0x26u8] + b) == raw_pairs(a) + raw_pairs(b),
    decreases a.len(),
{
    let whole = a + seq![0x26u8] + b;
    lemma_first_pos(a, 0x26);
    let k = first_pos(a, 0x26);
    assert forall|i: int| 0 <= i < k implies whole[i] != 0x26 by {
        assert(whole[i] == a[i]);
    }
    if k == a.len() {
        assert(whole[k as int] == 0x26);
        lemma_first_pos_is(whole, 0x26, k as int);
        assert(whole.take(k as int) =~= a);
        assert(whole.skip(k as int + 1) =~= b);
        if a.len() == 0 {
            assert(raw_pairs(a) =~= Seq::<(Seq<u8>, Seq<u8>)>::empty());
            assert(raw_pairs(whole) =~= raw_pairs(a) + raw_pairs(b));
        } else {
            assert(a.take(a.len() as int) =~= a);
            assert(raw_pairs(a) =~= seq![split_pair(a)]);
            assert(raw_pairs(whole) =~= raw_pairs(a) + raw_pairs(b));
        }
    } else {
        assert(whole[k as int] == a[k as int]);
        lemma_first_pos_is(whole, 0x26, k as int);
        assert(whole.take(k as int) =~= a.take(k as int));
        assert(whole.skip(k as int + 1) =~= a.skip(k as int + 1) + seq![0x26u8] + b);
        lemma_raw_pairs_amp(a.skip(k as int + 1), b);
        if a.take(k as int).len() == 0 {
            assert(raw_pairs(whole) =~= raw_pairs(a) + raw_pairs(b));
        } else {
            assert(raw_pairs(whole) =~= raw_pairs(a) + raw_pairs(b));
        }
    }
}

/// One `key=value` piece parses to its raw pair.
pub proof fn lemma_raw_pairs_single(k: Seq<u8>, v: Seq<u8>)
    requires
        k.len() > 0,
        no_byte(k, 0x26),
        no_byte(k, 0x3D),
        no_byte(v, 0x26),
    ensures
        raw_pairs(k + seq![0x3Du8] + v) == seq![(k, v)],
    decreases k.len(),
{
    let whole = k + seq![0x3Du8] + v;
    assert forall|i: int| 0 <= i < whole.len() implies whole[i] != 0x26 by {
        if i < k.len() {
            assert(whole[i] == k[i]);
        } else if i == k.len() {
            assert(whole[i] == 0x3D);
        } else {
            assert(whole[i] == v[i - k.len() - 1]);
        }
    }
    lemma_first_pos_is(whole, 0x26, whole.len() as int);
    assert(whole.take(whole.len() as int) =~= whole);
    assert(raw_pairs(whole) =~= seq![split_pair(whole)]);
    assert forall|i: int| 0 <= i < k.len() implies whole[i] != 0x3D by {
        assert(whole[i] == k[i]);
    }
    assert(whole[k.len() as int] == 0x3D);
    lemma_first_pos_is(whole, 0x3D, k.len() as int);
    assert(whole.take(k.len() as int) =~= k);
    assert(whole.skip(k.len() as int + 1) =~= v);
    assert(split_pair(whole).0 == k);
    assert(split_pair(whole).1 == v);
}

/// The byte form of one raw pair.
pub open spec fn pair_bytes(p: (Seq<u8>, Seq<u8>)) -> Seq<u8> {
    p.0 + seq![0x3Du8] + p.1
}

/// The byte form of a raw pair list, `&`-joined.
pub open spec fn joined_bytes(ps: Seq<(Seq<u8>, Seq<u8>)>) -> Seq<u8>
    decreases ps.len(),
{
    if ps.len() == 0 {
        seq![]
    } else if ps.len() == 1 {
        pair_bytes(ps.first())
    } else {
        pair_bytes(ps.first()) + seq![0x26u8] + joined_bytes(ps.drop_first())
    }
}

/// A well-formed raw pair: a nonempty key free of the separators, and a
/// value free of `&`.
pub open spec fn wf_raw_pair(p: (Seq<u8>, Seq<u8>)) -> bool {
    &&& p.0.len() > 0
    &&& no_byte(p.0, 0x26)
    &&& no_byte(p.0, 0x3D)
    &&& no_byte(p.1, 0x26)
}

/// A joined pair list parses back to exactly its pairs.
pub proof fn lemma_raw_pairs_joined(ps: Seq<(Seq<u8>, Seq<u8>)>)
    requires
        forall|i: int| 0 <= i < ps.len() ==> wf_raw_pair(#[trigger] ps[i]),
    ensures
        raw_pairs(joined_bytes(ps)) == ps,
    decreases ps.len(),
{
    if ps.len() == 0 {
        assert(raw_pairs(joined_bytes(ps)) =~= ps);
    } else if ps.len() == 1 {
        lemma_raw_pairs_single(ps.first().0, ps.first().1);
        assert(pair_bytes(ps.first()) =~= ps.first().0 + seq![0x3Du8] + ps.first().1);
        assert(raw_pairs(joined_bytes(ps)) =~= ps);
    } else {
        lemma_raw_pairs_single(ps.first().0, ps.first().1);
        lemma_raw_pairs_amp(pair_bytes(ps.first()), joined_bytes(ps.drop_first()));
        lemma_raw_pairs_joined(ps.drop_first());
        assert(raw_pairs(joined_bytes(ps)) =~= seq![ps.first()] + ps.drop_first());
        assert(seq![ps.first()] + ps.drop_first() =~= ps);
    }
}

/// One appended pair at character level: key, `=`, encoded value.
pub open spec fn pair_chars(p: (Seq<char>, Seq<char>)) -> Seq<char> {
    p.0 + seq!['='] + form_encode_str(p.1)
}

/// Pairs after the first, each preceded by `&`.
pub open spec fn amp_joined(ps: Seq<(Seq<char>, Seq<char>)>) -> Seq<char>
    decreases ps.len(),
{
    if ps.len() == 0 {
        Seq::<char>::empty()
    } else {
        seq!['&'] + pair_chars(ps.first()) + amp_joined(ps.drop_first())
    }
}

/// Appending each pair in turn.
pub open spec fn fold_pairs(base: Seq<char>, ps: Seq<(Seq<char>, Seq<char>)>) -> Seq<char>
    decreases ps.len(),
{
    if ps.len() == 0 {
        base
    } else {
        fold_pairs(with_query_pair(base, ps.first().0, ps.first().1), ps.drop_first())
    }
}

/// With a query mark already present, folding appends `&`-joined pairs.
proof fn lemma_fold_amp(b: Seq<char>, ps: Seq<(Seq<char>, Seq<char>)>)
    requires
        contains_char(b, '?'),
    ensures
        fold_pairs(b, ps) == b + amp_joined(ps),
    decreases ps.len(),
{
    if ps.len() == 0 {
        assert(b + amp_joined(ps) =~= b);
    } else {
        let b2 = with_query_pair(b, ps.first().0, ps.first().1);
        assert(query_sep(b) == seq!['&']);
        assert(b2 =~= b + (seq!['&'] + pair_chars(ps.first())));
        let w = choose|i: int| 0 <= i < b.len() && b[i] == '?';
        assert(b2[w] == '?');
        assert(contains_char(b2, '?'));
        lemma_fold_amp(b2, ps.drop_first());
        assert(fold_pairs(b, ps) == b2 + amp_joined(ps.drop_first()));
        assert(b2 + amp_joined(ps.drop_first()) =~= b + amp_joined(ps));
    }
}

/// Folding onto a clean base opens the query with `?`.
pub proof fn lemma_fold_shape(base: Seq<char>, ps: Seq<(Seq<char>, Seq<char>)>)
    requires
        !contains_char(base, '?'),
        ps.len() > 0,
    ensures
        fold_pairs(base, ps) == base + seq!['?'] + (pair_chars(ps.first()) + amp_joined(
            ps.drop_first(),
        )),
{
    let b2 = with_query_pair(base, ps.first().0, ps.first().1);
    assert(query_sep(base) == seq!['?']);
    assert(b2 =~= base + seq!['?'] + pair_chars(ps.first()));
    assert(b2[base.len() as int] == '?');
    assert(contains_char(b2, '?'));
    lemma_fold_amp(b2, ps.drop_first());
    assert(fold_pairs(base, ps) == b2 + amp_joined(ps.drop_first()));
    assert(b2 + amp_joined(ps.drop_first()) =~= base + seq!['?'] + (pair_chars(ps.first())
        + amp_joined(ps.drop_first())));
}

/// The byte image of a character pair list.
pub open spec fn byte_pairs(ps: Seq<(Seq<char>, Seq<char>)>) -> Seq<(Seq<u8>, Seq<u8>)> {
    ps.map_values(
        |p: (Seq<char>, Seq<char>)| (encode_utf8(p.0), form_encode_bytes(encode_utf8(p.1))),
    )
}

/// The UTF-8 bytes of the joined query characters are the joined bytes.
proof fn lemma_joined_chars_bytes(ps: Seq<(Seq<char>, Seq<char>)>)
    requires
        ps.len() > 0,
    ensures
        encode_utf8(pair_chars(ps.first()) + amp_joined(ps.drop_first())) == joined_bytes(
            byte_pairs(ps),
        ),
    decreases ps.len(),
{
    let p = ps.first();
    let bp = (encode_utf8(p.0), form_encode_bytes(encode_utf8(p.1)));
    assert(pair_chars(p) =~= p.0 + (seq!['='] + form_encode_str(p.1)));
    lemma_encode_utf8_concat(p.0, seq!['='] + form_encode_str(p.1));
    lemma_encode_utf8_concat(seq!['='], form_encode_str(p.1));
    assert(('=' as u32) == 0x3D);
    crate::text::lemma_ascii_chars_from_codes(seq!['=']);
    lemma_ascii_encode(seq!['=']);
    assert(encode_utf8(seq!['=']) =~= seq![0x3Du8]);
    lemma_encode_of_encoded(p.1);
    assert(encode_utf8(pair_chars(p)) =~= pair_bytes(bp));
    if ps.len() == 1 {
        assert(amp_joined(ps.drop_first()) =~= Seq::<char>::empty());
        assert(pair_chars(p) + amp_joined(ps.drop_first()) =~= pair_chars(p));
        assert(joined_bytes(byte_pairs(ps)) =~= pair_bytes(byte_pairs(ps).first()));
        assert(byte_pairs(ps).first() == bp);
        assert(encode_utf8(pair_chars(ps.first()) + amp_joined(ps.drop_first()))
            =~= joined_bytes(byte_pairs(ps)));
    } else {
        let rest = ps.drop_first();
        assert(amp_joined(rest) =~= seq!['&'] + (pair_chars(rest.first()) + amp_joined(
            rest.drop_first(),
        )));
        lemma_joined_chars_bytes(rest);
        lemma_encode_utf8_concat(pair_chars(p), amp_joined(rest));
        lemma_encode_utf8_concat(
            seq!['&'],
            pair_chars(rest.first()) + amp_joined(rest.drop_first()),
        );
        assert(('&' as u32) == 0x26);
        crate::text::lemma_ascii_chars_from_codes(seq!['&']);
        lemma_ascii_encode(seq!['&']);
        assert(encode_utf8(seq!['&']) =~= seq![0x26u8]);
        assert(byte_pairs(ps).first() == bp);
        assert(byte_pairs(ps).drop_first() =~= byte_pairs(rest));
        assert(joined_bytes(byte_pairs(ps)) =~= pair_bytes(bp) + seq![0x26u8] + joined_bytes(
            byte_pairs(rest),
        ));
        assert(encode_utf8(pair_chars(ps.first()) + amp_joined(ps.drop_first()))
            =~= joined_bytes(byte_pairs(ps)));
    }
}

/// No character of `s` codes to `b` (an ASCII byte).
proof fn lemma_chars_exclude_byte(s: Seq<char>, c: char, b: u8)
    requires
        c as u32 == b as u32,
        b < 0x80,
        !contains_char(s, c),
    ensures
        forall|i: int| 0 <= i < s.len() ==> (#[trigger] s[i]) as u32 != b as u32,
{
    assert forall|i: int| 0 <= i < s.len() implies (#[trigger] s[i]) as u32 != b as u32 by {
        if s[i] as u32 == b as u32 {
            vstd::utf8::char_u32_cast(s[i], s[i] as u32);
            vstd::utf8::char_u32_cast(c, c as u32);
            assert(s[i] == c);
        }
    }
}

/// The core of the parsing laws: a query string joined from pairs with
/// plain keys and encoded values parses back to exactly those pairs.
pub proof fn lemma_joined_params(ps: Seq<(Seq<char>, Seq<char>)>)
    requires
        ps.len() > 0,
        forall|i: int| 0 <= i < ps.len() ==> plain_str((#[trigger] ps[i]).0),
    ensures
        ({
            let qb = encode_utf8(pair_chars(ps.first()) + amp_joined(ps.drop_first()));
            pairs_utf8(qb) && query_pairs(qb) == ps
        }),
{
    broadcast use encode_utf8_valid_utf8, encode_utf8_decode_utf8;

    lemma_joined_chars_bytes(ps);
    let bps = byte_pairs(ps);
    let qb = encode_utf8(pair_chars(ps.first()) + amp_joined(ps.drop_first()));
    assert(qb == joined_bytes(bps));
    assert forall|i: int| 0 <= i < bps.len() implies wf_raw_pair(#[trigger] bps[i]) by {
        assert(bps[i].0 == encode_utf8(ps[i].0));
        assert(bps[i].1 == form_encode_bytes(encode_utf8(ps[i].1)));
        assert(plain_str(ps[i].0));
        lemma_plain_bytes(ps[i].0);
        lemma_form_encode_no_delimiters(encode_utf8(ps[i].1));
    }
    lemma_raw_pairs_joined(bps);
    assert forall|i: int|
        0 <= i < decoded_pairs(qb).len() implies valid_utf8(#[trigger] decoded_pairs(qb)[i].0)
        && valid_utf8(decoded_pairs(qb)[i].1) && decode_utf8(decoded_pairs(qb)[i].0)
        == ps[i].0 && decode_utf8(decoded_pairs(qb)[i].1) == ps[i].1 by {
        assert(raw_pairs(qb)[i] == bps[i]);
        assert(decoded_pairs(qb)[i].0 == form_decode_bytes(encode_utf8(ps[i].0)));
        assert(decoded_pairs(qb)[i].1 == form_decode_bytes(
            form_encode_bytes(encode_utf8(ps[i].1)),
        ));
        lemma_plain_bytes(ps[i].0);
        lemma_form_decode_plain(encode_utf8(ps[i].0));
        lemma_form_decode_encode(encode_utf8(ps[i].1));
    }
    assert(pairs_utf8(qb));
    assert(query_pairs(qb) =~= ps);
}

/// The master parsing law: a location built from a clean base (no query,
/// no fragment) by appending pairs with plain keys and encoded values
/// parses back to exactly those pairs.
pub proof fn lemma_built_location(base: Seq<char>, ps: Seq<(Seq<char>, Seq<char>)>)
    requires
        !contains_char(base, '#'),
        !contains_char(base, '?'),
        ps.len() > 0,
        forall|i: int| 0 <= i < ps.len() ==> plain_str((#[trigger] ps[i]).0),
    ensures
        uri_params_ok(encode_utf8(fold_pairs(base, ps))),
        uri_params(encode_utf8(fold_pairs(base, ps))) == ps,
{
    broadcast use encode_utf8_valid_utf8, encode_utf8_decode_utf8;

    let loc = fold_pairs(base, ps);
    let q = pair_chars(ps.first()) + amp_joined(ps.drop_first());
    lemma_fold_shape(base, ps);
    assert(loc =~= base + (seq!['?'] + q));
    lemma_encode_utf8_concat(base, seq!['?'] + q);
    lemma_encode_utf8_concat(seq!['?'], q);
    assert(('?' as u32) == 0x3F);
    crate::text::lemma_ascii_chars_from_codes(seq!['?']);
    lemma_ascii_encode(seq!['?']);
    assert(encode_utf8(seq!['?']) =~= seq![0x3Fu8]);
    let eb = encode_utf8(base);
    let qb = encode_utf8(q);
    assert(encode_utf8(loc) =~= eb + seq![0x3Fu8] + qb);
    let u = encode_utf8(loc);
    lemma_joined_chars_bytes(ps);
    let bps = byte_pairs(ps);
    assert(qb == joined_bytes(bps));
    lemma_joined_params(ps);
    // the joined bytes carry no '#', '?'
    lemma_no_hash_qmark_joined(ps);
    // the base bytes carry no '#', '?'
    lemma_chars_exclude_byte(base, '#', 0x23);
    lemma_encode_utf8_no_byte(base, 0x23);
    lemma_chars_exclude_byte(base, '?', 0x3F);
    lemma_encode_utf8_no_byte(base, 0x3F);
    // so the fragment strip is the identity
    assert forall|i: int| 0 <= i < u.len() implies u[i] != 0x23 by {
        if i < eb.len() {
            assert(u[i] == eb[i]);
        } else if i == eb.len() {
            assert(u[i] == 0x3F);
        } else {
            assert(u[i] == qb[i - eb.len() - 1]);
        }
    }
    lemma_first_pos_is(u, 0x23, u.len() as int);
    assert(strip_fragment(u) =~= u);
    // and the first '?' sits right after the base
    assert forall|i: int| 0 <= i < eb.len() implies u[i] != 0x3F by {
        assert(u[i] == eb[i]);
    }
    assert(u[eb.len() as int] == 0x3F);
    lemma_first_pos_is(u, 0x3F, eb.len() as int);
    assert(uri_query(u) matches Some(qq) && qq =~= qb);
    assert(uri_query(u) == Some(qb));
}

/// The joined query characters' bytes avoid `#` and `?`.
proof fn lemma_no_hash_qmark_joined(ps: Seq<(Seq<char>, Seq<char>)>)
    requires
        ps.len() > 0,
        forall|i: int| 0 <= i < ps.len() ==> plain_str((#[trigger] ps[i]).0),
    ensures
        no_byte(joined_bytes(byte_pairs(ps)), 0x23),
        no_byte(joined_bytes(byte_pairs(ps)), 0x3F),
    decreases ps.len(),
{
    let bps = byte_pairs(ps);
    let p = ps.first();
    let bp = (encode_utf8(p.0), form_encode_bytes(encode_utf8(p.1)));
    assert(bps.first() == bp);
    assert(plain_str(p.0));
    lemma_plain_bytes(p.0);
    lemma_form_encode_no_delimiters(encode_utf8(p.1));
    assert forall|i: int| 0 <= i < pair_bytes(bp).len() implies pair_bytes(bp)[i] != 0x23
        && pair_bytes(bp)[i] != 0x3F by {
        if i < bp.0.len() {
            assert(pair_bytes(bp)[i] == bp.0[i]);
            assert(is_unreserved_byte(bp.0[i]));
        } else if i == bp.0.len() {
            assert(pair_bytes(bp)[i] == 0x3D);
        } else {
            assert(pair_bytes(bp)[i] == bp.1[i - bp.0.len() - 1]);
        }
    }
    if ps.len() == 1 {
        assert(joined_bytes(bps) =~= pair_bytes(bp));
    } else {
        lemma_no_hash_qmark_joined(ps.drop_first());
        assert(bps.drop_first() =~= byte_pairs(ps.drop_first()));
        assert(joined_bytes(bps) =~= pair_bytes(bp) + seq![0x26u8] + joined_bytes(
            byte_pairs(ps.drop_first()),
        ));
        assert forall|i: int| 0 <= i < joined_bytes(bps).len() implies joined_bytes(bps)[i]
            != 0x23 && joined_bytes(bps)[i] != 0x3F by {
            if i < pair_bytes(bp).len() {
                assert(joined_bytes(bps)[i] == pair_bytes(bp)[i]);
            } else if i == pair_bytes(bp).len() {
                assert(joined_bytes(bps)[i] == 0x26);
            } else {
                assert(joined_bytes(bps)[i] == joined_bytes(byte_pairs(ps.drop_first()))[i
                    - pair_bytes(bp).len() - 1]);
            }
        }
    }
}




/// The protocol name `code` is plain.
pub proof fn lemma_plain_code()
    ensures
        plain_str("code"@),
        "code"@.len() == 4,
{
    reveal_strlit("code");
    assert("code"@.len() == 4);
    assert forall|i: int| 0 <= i < "code"@.len() implies plain_char(#[trigger] "code"@[i]) by {
        if i == 0 {
            assert("code"@[0] == 'c');
        }
        else if i == 1 {
            assert("code"@[1] == 'o');
        }
        else if i == 2 {
            assert("code"@[2] == 'd');
        }
        else {
            assert("code"@[3] == 'e');
        }
    }
}

/// The protocol name `state` is plain.
pub proof fn lemma_plain_state()
    ensures
        plain_str("state"@),
        "state"@.len() == 5,
{
    reveal_strlit("state");
    assert("state"@.len() == 5);
    assert forall|i: int| 0 <= i < "state"@.len() implies plain_char(#[trigger] "state"@[i]) by {
        if i == 0 {
            assert("state"@[0] == 's');
        }
        else if i == 1 {
            assert("state"@[1] == 't');
        }
        else if i == 2 {
            assert("state"@[2] == 'a');
        }
        else if i == 3 {
            assert("state"@[3] == 't');
        }
        else {
            assert("state"@[4] == 'e');
        }
    }
}

/// The protocol name `error` is plain.
pub proof fn lemma_plain_error()
    ensures
        plain_str("error"@),
        "error"@.len() == 5,
{
    reveal_strlit("error");
    assert("error"@.len() == 5);
    assert forall|i: int| 0 <= i < "error"@.len() implies plain_char(#[trigger] "error"@[i]) by {
        if i == 0 {
            assert("error"@[0] == 'e');
        }
        else if i == 1 {
            assert("error"@[1] == 'r');
        }
        else if i == 2 {
            assert("error"@[2] == 'r');
        }
        else if i == 3 {
            assert("error"@[3] == 'o');
        }
        else {
            assert("error"@[4] == 'r');
        }
    }
}

/// The protocol name `error_description` is plain.
pub proof fn lemma_plain_error_description()
    ensures
        plain_str("error_description"@),
        "error_description"@.len() == 17,
{
    reveal_strlit("error_description");
    assert("error_description"@.len() == 17);
    assert forall|i: int| 0 <= i < "error_description"@.len() implies plain_char(#[trigger] "error_description"@[i]) by {
        if i == 0 {
            assert("error_description"@[0] == 'e');
        }
        else if i == 1 {
            assert("error_description"@[1] == 'r');
        }
        else if i == 2 {
            assert("error_description"@[2] == 'r');
        }
        else if i == 3 {
            assert("error_description"@[3] == 'o');
        }
        else if i == 4 {
            assert("error_description"@[4] == 'r');
        }
        else if i == 5 {
            assert("error_description"@[5] == '_');
        }
        else if i == 6 {
            assert("error_description"@[6] == 'd');
        }
        else if i == 7 {
            assert("error_description"@[7] == 'e');
        }
        else if i == 8 {
            assert("error_description"@[8] == 's');
        }
        else if i == 9 {
            assert("error_description"@[9] == 'c');
        }
        else if i == 10 {
            assert("error_description"@[10] == 'r');
        }
        else if i == 11 {
            assert("error_description"@[11] == 'i');
        }
        else if i == 12 {
            assert("error_description"@[12] == 'p');
        }
        else if i == 13 {
            assert("error_description"@[13] == 't');
        }
        else if i == 14 {
            assert("error_description"@[14] == 'i');
        }
        else if i == 15 {
            assert("error_description"@[15] == 'o');
        }
        else {
            assert("error_description"@[16] == 'n');
        }
    }
}

/// The protocol name `error_uri` is plain.
pub proof fn lemma_plain_error_uri()
    ensures
        plain_str("error_uri"@),
        "error_uri"@.len() == 9,
{
    reveal_strlit("error_uri");
    assert("error_uri"@.len() == 9);
    assert forall|i: int| 0 <= i < "error_uri"@.len() implies plain_char(#[trigger] "error_uri"@[i]) by {
        if i == 0 {
            assert("error_uri"@[0] == 'e');
        }
        else if i == 1 {
            assert("error_uri"@[1] == 'r');
        }
        else if i == 2 {
            assert("error_uri"@[2] == 'r');
        }
        else if i == 3 {
            assert("error_uri"@[3] == 'o');
        }
        else if i == 4 {
            assert("error_uri"@[4] == 'r');
        }
        else if i == 5 {
            assert("error_uri"@[5] == '_');
        }
        else if i == 6 {
            assert("error_uri"@[6] == 'u');
        }
        else if i == 7 {
            assert("error_uri"@[7] == 'r');
        }
        else {
            assert("error_uri"@[8] == 'i');
        }
    }
}

/// The protocol name `response_type` is plain.
pub proof fn lemma_plain_response_type()
    ensures
        plain_str("response_type"@),
        "response_type"@.len() == 13,
{
    reveal_strlit("response_type");
    assert("response_type"@.len() == 13);
    assert forall|i: int| 0 <= i < "response_type"@.len() implies plain_char(#[trigger] "response_type"@[i]) by {
        if i == 0 {
            assert("response_type"@[0] == 'r');
        }
        else if i == 1 {
            assert("response_type"@[1] == 'e');
        }
        else if i == 2 {
            assert("response_type"@[2] == 's');
        }
        else if i == 3 {
            assert("response_type"@[3] == 'p');
        }
        else if i == 4 {
            assert("response_type"@[4] == 'o');
        }
        else if i == 5 {
            assert("response_type"@[5] == 'n');
        }
        else if i == 6 {
            assert("response_type"@[6] == 's');
        }
        else if i == 7 {
            assert("response_type"@[7] == 'e');
        }
        else if i == 8 {
            assert("response_type"@[8] == '_');
        }
        else if i == 9 {
            assert("response_type"@[9] == 't');
        }
        else if i == 10 {
            assert("response_type"@[10] == 'y');
        }
        else if i == 11 {
            assert("response_type"@[11] == 'p');
        }
        else {
            assert("response_type"@[12] == 'e');
        }
    }
}

/// The protocol name `client_id` is plain.
pub proof fn lemma_plain_client_id()
    ensures
        plain_str("client_id"@),
        "client_id"@.len() == 9,
{
    reveal_strlit("client_id");
    assert("client_id"@.len() == 9);
    assert forall|i: int| 0 <= i < "client_id"@.len() implies plain_char(#[trigger] "client_id"@[i]) by {
        if i == 0 {
            assert("client_id"@[0] == 'c');
        }
        else if i == 1 {
            assert("client_id"@[1] == 'l');
        }
        else if i == 2 {
            assert("client_id"@[2] == 'i');
        }
        else if i == 3 {
            assert("client_id"@[3] == 'e');
        }
        else if i == 4 {
            assert("client_id"@[4] == 'n');
        }
        else if i == 5 {
            assert("client_id"@[5] == 't');
        }
        else if i == 6 {
            assert("client_id"@[6] == '_');
        }
        else if i == 7 {
            assert("client_id"@[7] == 'i');
        }
        else {
            assert("client_id"@[8] == 'd');
        }
    }
}

/// The protocol name `redirect_uri` is plain.
pub proof fn lemma_plain_redirect_uri()
    ensures
        plain_str("redirect_uri"@),
        "redirect_uri"@.len() == 12,
{
    reveal_strlit("redirect_uri");
    assert("redirect_uri"@.len() == 12);
    assert forall|i: int| 0 <= i < "redirect_uri"@.len() implies plain_char(#[trigger] "redirect_uri"@[i]) by {
        if i == 0 {
            assert("redirect_uri"@[0] == 'r');
        }
        else if i == 1 {
            assert("redirect_uri"@[1] == 'e');
        }
        else if i == 2 {
            assert("redirect_uri"@[2] == 'd');
        }
        else if i == 3 {
            assert("redirect_uri"@[3] == 'i');
        }
        else if i == 4 {
            assert("redirect_uri"@[4] == 'r');
        }
        else if i == 5 {
            assert("redirect_uri"@[5] == 'e');
        }
        else if i == 6 {
            assert("redirect_uri"@[6] == 'c');
        }
        else if i == 7 {
            assert("redirect_uri"@[7] == 't');
        }
        else if i == 8 {
            assert("redirect_uri"@[8] == '_');
        }
        else if i == 9 {
            assert("redirect_uri"@[9] == 'u');
        }
        else if i == 10 {
            assert("redirect_uri"@[10] == 'r');
        }
        else {
            assert("redirect_uri"@[11] == 'i');
        }
    }
}

/// The protocol name `scope` is plain.
pub proof fn lemma_plain_scope()
    ensures
        plain_str("scope"@),
        "scope"@.len() == 5,
{
    reveal_strlit("scope");
    assert("scope"@.len() == 5);
    assert forall|i: int| 0 <= i < "scope"@.len() implies plain_char(#[trigger] "scope"@[i]) by {
        if i == 0 {
            assert("scope"@[0] == 's');
        }
        else if i == 1 {
            assert("scope"@[1] == 'c');
        }
        else if i == 2 {
            assert("scope"@[2] == 'o');
        }
        else if i == 3 {
            assert("scope"@[3] == 'p');
        }
        else {
            assert("scope"@[4] == 'e');
        }
    }
}

/// The protocol name `grant_type` is plain.
pub proof fn lemma_plain_grant_type()
    ensures
        plain_str("grant_type"@),
        "grant_type"@.len() == 10,
{
    reveal_strlit("grant_type");
    assert("grant_type"@.len() == 10);
    assert forall|i: int| 0 <= i < "grant_type"@.len() implies plain_char(#[trigger] "grant_type"@[i]) by {
        if i == 0 {
            assert("grant_type"@[0] == 'g');
        }
        else if i == 1 {
            assert("grant_type"@[1] == 'r');
        }
        else if i == 2 {
            assert("grant_type"@[2] == 'a');
        }
        else if i == 3 {
            assert("grant_type"@[3] == 'n');
        }
        else if i == 4 {
            assert("grant_type"@[4] == 't');
        }
        else if i == 5 {
            assert("grant_type"@[5] == '_');
        }
        else if i == 6 {
            assert("grant_type"@[6] == 't');
        }
        else if i == 7 {
            assert("grant_type"@[7] == 'y');
        }
        else if i == 8 {
            assert("grant_type"@[8] == 'p');
        }
        else {
            assert("grant_type"@[9] == 'e');
        }
    }
}

/// The protocol name `authorization_code` is plain.
pub proof fn lemma_plain_authorization_code()
    ensures
        plain_str("authorization_code"@),
        "authorization_code"@.len() == 18,
{
    reveal_strlit("authorization_code");
    assert("authorization_code"@.len() == 18);
    assert forall|i: int| 0 <= i < "authorization_code"@.len() implies plain_char(#[trigger] "authorization_code"@[i]) by {
        if i == 0 {
            assert("authorization_code"@[0] == 'a');
        }
        else if i == 1 {
            assert("authorization_code"@[1] == 'u');
        }
        else if i == 2 {
            assert("authorization_code"@[2] == 't');
        }
        else if i == 3 {
            assert("authorization_code"@[3] == 'h');
        }
        else if i == 4 {
            assert("authorization_code"@[4] == 'o');
        }
        else if i == 5 {
            assert("authorization_code"@[5] == 'r');
        }
        else if i == 6 {
            assert("authorization_code"@[6] == 'i');
        }
        else if i == 7 {
            assert("authorization_code"@[7] == 'z');
        }
        else if i == 8 {
            assert("authorization_code"@[8] == 'a');
        }
        else if i == 9 {
            assert("authorization_code"@[9] == 't');
        }
        else if i == 10 {
            assert("authorization_code"@[10] == 'i');
        }
        else if i == 11 {
            assert("authorization_code"@[11] == 'o');
        }
        else if i == 12 {
            assert("authorization_code"@[12] == 'n');
        }
        else if i == 13 {
            assert("authorization_code"@[13] == '_');
        }
        else if i == 14 {
            assert("authorization_code"@[14] == 'c');
        }
        else if i == 15 {
            assert("authorization_code"@[15] == 'o');
        }
        else if i == 16 {
            assert("authorization_code"@[16] == 'd');
        }
        else {
            assert("authorization_code"@[17] == 'e');
        }
    }
}


/// A key that no pair carries has no value and count zero.
pub proof fn lemma_param_absent(ps: Seq<(Seq<char>, Seq<char>)>, k: Seq<char>)
    requires
        forall|i: int| 0 <= i < ps.len() ==> (#[trigger] ps[i]).0 != k,
    ensures
        first_param(ps, k) is None,
        last_param(ps, k) is None,
        key_count(ps, k) == 0,
    decreases ps.len(),
{
    if ps.len() > 0 {
        lemma_param_absent(ps.drop_first(), k);
    }
}

/// A key that exactly one pair carries has that pair's value, first and
/// last, and count one.
pub proof fn lemma_param_unique(ps: Seq<(Seq<char>, Seq<char>)>, k: Seq<char>, j: int)
    requires
        0 <= j < ps.len(),
        ps[j].0 == k,
        forall|i: int| 0 <= i < ps.len() && i != j ==> (#[trigger] ps[i]).0 != k,
    ensures
        first_param(ps, k) == Some(ps[j].1),
        last_param(ps, k) == Some(ps[j].1),
        key_count(ps, k) == 1,
    decreases ps.len(),
{
    if j == 0 {
        assert forall|i: int| 0 <= i < ps.drop_first().len() implies (#[trigger] ps.drop_first()[i]).0 != k by {
            assert(ps.drop_first()[i] == ps[i + 1]);
        }
        lemma_param_absent(ps.drop_first(), k);
    } else {
        assert forall|i: int| 0 <= i < ps.drop_first().len() && i != j - 1 implies (#[trigger] ps.drop_first()[i]).0 != k by {
            assert(ps.drop_first()[i] == ps[i + 1]);
        }
        assert(ps.drop_first()[j - 1] == ps[j]);
        lemma_param_unique(ps.drop_first(), k, j - 1);
        assert(ps.first().0 != k);
    }
}

/// Folding a concatenation folds the parts in turn.
pub proof fn lemma_fold_append(base: Seq<char>, a: Seq<(Seq<char>, Seq<char>)>, b: Seq<(Seq<char>, Seq<char>)>)
    ensures
        fold_pairs(base, a + b) == fold_pairs(fold_pairs(base, a), b),
    decreases a.len(),
{
    if a.len() == 0 {
        assert(a + b =~= b);
    } else {
        assert((a + b).first() == a.first());
        assert((a + b).drop_first() =~= a.drop_first() + b);
        lemma_fold_append(with_query_pair(base, a.first().0, a.first().1), a.drop_first(), b);
    }
}

/// Law: an authorization request is accepted only for a registered
/// client: whenever the endpoint does not fail directly to the
/// user-agent, the `client_id` it accepted names a registered client.  In
/// particular a missing or unknown `client_id` never produces a redirect.
pub proof fn lemma_accept_needs_known_client(u: Seq<u8>, clients: Seq<ClientData>)
    ensures
        ({
            match crate::authz_server::authz_decision(u, clients) {
                crate::authz_server::AuthzOutcome::Accept(req, _err) => {
                    &&& first_param(uri_params(u), "client_id"@) == Some(req.client_id)
                    &&& crate::store::client_of(clients, req.client_id) is Some
                },
                crate::authz_server::AuthzOutcome::Direct(_e) => true,
            }
        }),
{
}

/// Law: an authorization request is accepted only with a trustworthy
/// redirection URI: whenever the endpoint does not fail directly, a
/// supplied `redirect_uri` is byte-equal to one registered for the
/// accepted client.  A mismatched `redirect_uri` therefore never produces
/// a redirect.
pub proof fn lemma_accept_needs_registered_redirect(u: Seq<u8>, clients: Seq<ClientData>)
    ensures
        ({
            match crate::authz_server::authz_decision(u, clients) {
                crate::authz_server::AuthzOutcome::Accept(req, _err) => {
                    match req.redirect_uri {
                        Some(r) => crate::store::client_of(clients, req.client_id) matches Some(
                            c,
                        ) && crate::authz_server::uri_registered(c, r),
                        None => true,
                    }
                },
                crate::authz_server::AuthzOutcome::Direct(_e) => true,
            }
        }),
{
}

/// Law: a consumed code cannot be consumed again: once the grant store
/// holds no grant under a code, presenting that code at the token
/// endpoint is answered with `invalid_grant`, whatever else the request
/// carries.
pub proof fn lemma_code_single_use(
    client_id: Seq<char>,
    ps: Seq<(Seq<char>, Seq<char>)>,
    grants: Seq<crate::store::GrantRecord>,
    code: Seq<char>,
)
    requires
        last_param(ps, "grant_type"@) == Some("authorization_code"@),
        last_param(ps, "code"@) == Some(code),
        crate::store::grant_of(grants, code) is None,
    ensures
        crate::authz_server::token_body_decision(client_id, ps, grants)
            matches crate::authz_server::TokenDecision::Fail {
            status,
            error,
            ..
        } && status == 400 && error == crate::token_error::TokenErrorCode::InvalidGrant,
{
}

/// Law: a code presented by a client it was not issued to is refused with
/// `invalid_grant`, and the code is named for revocation of anything
/// already issued against it.
pub proof fn lemma_code_client_binding(
    client_id: Seq<char>,
    ps: Seq<(Seq<char>, Seq<char>)>,
    grants: Seq<crate::store::GrantRecord>,
    code: Seq<char>,
    g: crate::store::GrantRecord,
)
    requires
        last_param(ps, "grant_type"@) == Some("authorization_code"@),
        last_param(ps, "code"@) == Some(code),
        crate::store::grant_of(grants, code) == Some(g),
        g.client_id@ != client_id,
    ensures
        crate::authz_server::token_body_decision(client_id, ps, grants)
            matches crate::authz_server::TokenDecision::Fail {
            status,
            error,
            revoke,
            ..
        } && status == 400 && error == crate::token_error::TokenErrorCode::InvalidGrant
            && revoke == Some(code),
{
}

/// Law: a code issued with a bound redirection URI is redeemed only by
/// re-presenting that URI byte for byte; a missing or different value is
/// refused with `invalid_grant`.
pub proof fn lemma_code_redirect_binding(
    client_id: Seq<char>,
    ps: Seq<(Seq<char>, Seq<char>)>,
    grants: Seq<crate::store::GrantRecord>,
    code: Seq<char>,
    g: crate::store::GrantRecord,
    ru: Seq<char>,
)
    requires
        last_param(ps, "grant_type"@) == Some("authorization_code"@),
        last_param(ps, "code"@) == Some(code),
        crate::store::grant_of(grants, code) == Some(g),
        g.client_id@ == client_id,
        crate::store::opt_uri_view(g.redirect_uri) == Some(ru),
        last_param(ps, "redirect_uri"@) != Some(ru),
    ensures
        crate::authz_server::token_body_decision(client_id, ps, grants)
            matches crate::authz_server::TokenDecision::Fail {
            status,
            error,
            ..
        } && status == 400 && error == crate::token_error::TokenErrorCode::InvalidGrant,
{
}

/// Law: a nonce is consumable exactly once: consumption reports exactly
/// whether the value was stored, and afterwards the value is no longer
/// stored, so a second consumption of the same value reports false.
pub proof fn lemma_nonce_single_use(values: Seq<String>, n: Seq<char>)
    ensures
        !crate::store::nonce_present(crate::store::without_nonce(values, n), n),
        crate::store::without_nonce(crate::store::without_nonce(values, n), n)
            == crate::store::without_nonce(values, n),
{
    crate::store::lemma_without_nonce(values, n, n);
    lemma_without_nonce_absent(crate::store::without_nonce(values, n), n);
}

/// Removing an absent nonce changes nothing.
proof fn lemma_without_nonce_absent(values: Seq<String>, n: Seq<char>)
    requires
        !crate::store::nonce_present(values, n),
    ensures
        crate::store::without_nonce(values, n) == values,
    decreases values.len(),
{
    if values.len() > 0 {
        lemma_without_nonce_absent(values.drop_first(), n);
        assert(crate::store::without_nonce(values, n) =~= values);
    }
}


/// Law (state round trip, granted side): whatever `state` the request
/// supplied appears unchanged among the parameters of the `Location` a
/// granted request redirects to, beside its `code`.
pub proof fn lemma_grant_state_round_trip(base: Seq<char>, code: Seq<char>, state: Seq<char>)
    requires
        !contains_char(base, '#'),
        !contains_char(base, '?'),
    ensures
        ({
            let u = encode_utf8(crate::authz_server::grant_location(base, code, Some(state)));
            &&& uri_params_ok(u)
            &&& last_param(uri_params(u), "state"@) == Some(state)
            &&& last_param(uri_params(u), "code"@) == Some(code)
            &&& first_param(uri_params(u), "state"@) == Some(state)
            &&& first_param(uri_params(u), "code"@) == Some(code)
            &&& last_param(uri_params(u), "error"@) is None
        }),
{
    lemma_plain_code();
    lemma_plain_state();
    let ps = seq![("code"@, code), ("state"@, state)];
    assert forall|i: int| 0 <= i < ps.len() implies plain_str((#[trigger] ps[i]).0) by {
        if i == 0 {
            assert(ps[0].0 == "code"@);
        } else {
            assert(ps[1].0 == "state"@);
        }
    }
    lemma_grant_is_fold(base, code, state);
    lemma_built_location(base, ps);
    let u = encode_utf8(crate::authz_server::grant_location(base, code, Some(state)));
    assert(uri_params(u) == ps);
    reveal_strlit("code");
    reveal_strlit("state");
    reveal_strlit("error");
    assert("code"@.len() == 4);
    assert("state"@.len() == 5);
    assert("error"@.len() == 5);
    assert("error"@[0] == 'e');
    assert("state"@[0] == 's');
    assert("code"@ != "state"@);
    assert("code"@ != "error"@);
    assert("state"@ != "error"@);
    lemma_param_unique(ps, "code"@, 0);
    lemma_param_unique(ps, "state"@, 1);
    assert forall|i: int| 0 <= i < ps.len() implies (#[trigger] ps[i]).0 != "error"@ by {
        if i == 0 {
        } else {
        }
    }
    lemma_param_absent(ps, "error"@);
}

/// The granted `Location` is the fold of its two pairs.
proof fn lemma_grant_is_fold(base: Seq<char>, code: Seq<char>, state: Seq<char>)
    ensures
        crate::authz_server::grant_location(base, code, Some(state)) == fold_pairs(
            base,
            seq![("code"@, code), ("state"@, state)],
        ),
{
    let ps = seq![("code"@, code), ("state"@, state)];
    let w1 = with_query_pair(base, "code"@, code);
    assert(ps.first() == ("code"@, code));
    assert(ps.drop_first() =~= seq![("state"@, state)]);
    assert(fold_pairs(base, ps) == fold_pairs(w1, ps.drop_first()));
    let rest = ps.drop_first();
    assert(rest.first() == ("state"@, state));
    assert(rest.drop_first() =~= Seq::<(Seq<char>, Seq<char>)>::empty());
    let w2 = with_query_pair(w1, "state"@, state);
    assert(fold_pairs(w1, rest) == fold_pairs(w2, rest.drop_first()));
    assert(fold_pairs(w2, rest.drop_first()) == w2);
}

/// The pair list a denial appends: the error code, the optional fields,
/// and the `state` last.
pub open spec fn deny_pairs(e: crate::authz_error::AuthzError) -> Seq<(Seq<char>, Seq<char>)> {
    seq![("error"@, e.error.spec_str())] + (match e.error_description {
        Some(d) => seq![("error_description"@, d@)],
        None => seq![],
    }) + (match e.error_uri {
        Some(x) => seq![("error_uri"@, x@)],
        None => seq![],
    }) + (match e.state {
        Some(st) => seq![("state"@, st@)],
        None => seq![],
    })
}

/// A denial writes exactly its pair list.
proof fn lemma_deny_is_fold(base: Seq<char>, e: crate::authz_error::AuthzError)
    ensures
        e.into_query(base) == fold_pairs(base, deny_pairs(e)),
{
    let a = seq![("error"@, e.error.spec_str())];
    let b = match e.error_description {
        Some(d) => seq![("error_description"@, d@)],
        None => seq![],
    };
    let c = match e.error_uri {
        Some(x) => seq![("error_uri"@, x@)],
        None => seq![],
    };
    let d = match e.state {
        Some(st) => seq![("state"@, st@)],
        None => seq![],
    };
    lemma_fold_append(base, a + b + c, d);
    lemma_fold_append(base, a + b, c);
    lemma_fold_append(base, a, b);
    assert(a + b + c + d =~= deny_pairs(e));
    lemma_fold_single_or_empty(base, a, b, c, d, e);
}

/// The step-by-step unfolding behind `lemma_deny_is_fold`.
proof fn lemma_fold_single_or_empty(
    base: Seq<char>,
    a: Seq<(Seq<char>, Seq<char>)>,
    b: Seq<(Seq<char>, Seq<char>)>,
    c: Seq<(Seq<char>, Seq<char>)>,
    d: Seq<(Seq<char>, Seq<char>)>,
    e: crate::authz_error::AuthzError,
)
    requires
        a == seq![("error"@, e.error.spec_str())],
        b == (match e.error_description {
            Some(x) => seq![("error_description"@, x@)],
            None => Seq::<(Seq<char>, Seq<char>)>::empty(),
        }),
        c == (match e.error_uri {
            Some(x) => seq![("error_uri"@, x@)],
            None => Seq::<(Seq<char>, Seq<char>)>::empty(),
        }),
        d == (match e.state {
            Some(x) => seq![("state"@, x@)],
            None => Seq::<(Seq<char>, Seq<char>)>::empty(),
        }),
    ensures
        e.into_query(base) == fold_pairs(fold_pairs(fold_pairs(fold_pairs(base, a), b), c), d),
{
    let u1 = with_query_pair(base, "error"@, e.error.spec_str());
    lemma_fold_one(base, "error"@, e.error.spec_str());
    let u2 = match e.error_description {
        Some(x) => with_query_pair(u1, "error_description"@, x@),
        None => u1,
    };
    match e.error_description {
        Some(x) => {
            lemma_fold_one(u1, "error_description"@, x@);
        },
        None => {
            assert(fold_pairs(u1, b) == u1);
        },
    }
    let u3 = match e.error_uri {
        Some(x) => with_query_pair(u2, "error_uri"@, x@),
        None => u2,
    };
    match e.error_uri {
        Some(x) => {
            lemma_fold_one(u2, "error_uri"@, x@);
        },
        None => {
            assert(fold_pairs(u2, c) == u2);
        },
    }
    match e.state {
        Some(x) => {
            lemma_fold_one(u3, "state"@, x@);
        },
        None => {
            assert(fold_pairs(u3, d) == u3);
        },
    }
}

/// Folding one pair is one append.
proof fn lemma_fold_one(base: Seq<char>, k: Seq<char>, v: Seq<char>)
    ensures
        fold_pairs(base, seq![(k, v)]) == with_query_pair(base, k, v),
{
    let ps = seq![(k, v)];
    assert(ps.first() == (k, v));
    assert(ps.drop_first() =~= Seq::<(Seq<char>, Seq<char>)>::empty());
    assert(fold_pairs(with_query_pair(base, k, v), ps.drop_first()) == with_query_pair(
        base,
        k,
        v,
    ));
}

/// Law (state round trip, denied side): whatever `state` a denial
/// carries appears unchanged among the parameters of the `Location` it
/// redirects to, beside its error code.
pub proof fn lemma_deny_state_round_trip(
    base: Seq<char>,
    e: crate::authz_error::AuthzError,
    st: Seq<char>,
)
    requires
        !contains_char(base, '#'),
        !contains_char(base, '?'),
        crate::authz_server::opt_str_view(e.state) == Some(st),
    ensures
        ({
            let u = encode_utf8(e.into_query(base));
            &&& uri_params_ok(u)
            &&& last_param(uri_params(u), "state"@) == Some(st)
            &&& last_param(uri_params(u), "error"@) == Some(e.error.spec_str())
        }),
{
    lemma_plain_error();
    lemma_plain_error_description();
    lemma_plain_error_uri();
    lemma_plain_state();
    lemma_deny_is_fold(base, e);
    let ps = deny_pairs(e);
    reveal_strlit("error");
    reveal_strlit("error_description");
    reveal_strlit("error_uri");
    reveal_strlit("state");
    assert("error"@.len() == 5);
    assert("error_description"@.len() == 17);
    assert("error_uri"@.len() == 9);
    assert("state"@.len() == 5);
    assert("error"@[0] == 'e');
    assert("state"@[0] == 's');
    assert("error"@ != "state"@);
    let n = ps.len();
    assert(ps[0] == ("error"@, e.error.spec_str()));
    assert forall|i: int| 0 <= i < ps.len() implies plain_str((#[trigger] ps[i]).0) by {
        lemma_deny_pair_keys(e, i);
    }
    lemma_built_location(base, ps);
    let u = encode_utf8(e.into_query(base));
    assert(uri_params(u) == ps);
    // the state pair sits last, and no other pair carries its key
    let stv = e.state->Some_0;
    assert(ps[n - 1] == ("state"@, stv@));
    assert forall|i: int| 0 <= i < ps.len() && i != n - 1 implies (#[trigger] ps[i]).0
        != "state"@ by {
        lemma_deny_pair_keys(e, i);
    }
    lemma_param_unique(ps, "state"@, n - 1);
    assert forall|i: int| 0 <= i < ps.len() && i != 0 implies (#[trigger] ps[i]).0
        != "error"@ by {
        lemma_deny_pair_keys(e, i);
    }
    lemma_param_unique(ps, "error"@, 0);
}

/// Which key each denial pair carries.
proof fn lemma_deny_pair_keys(e: crate::authz_error::AuthzError, i: int)
    requires
        0 <= i < deny_pairs(e).len(),
    ensures
        ({
            let ps = deny_pairs(e);
            &&& plain_str(ps[i].0)
            &&& (i == 0 ==> ps[i].0 == "error"@)
            &&& (i != 0 ==> ps[i].0 != "error"@)
            &&& (i == ps.len() - 1 && e.state is Some ==> ps[i].0 == "state"@)
            &&& (i != ps.len() - 1 && e.state is Some ==> ps[i].0 != "state"@)
            &&& (e.state is None ==> ps[i].0 != "state"@)
        }),
{
    lemma_plain_error();
    lemma_plain_error_description();
    lemma_plain_error_uri();
    lemma_plain_state();
    reveal_strlit("error");
    reveal_strlit("error_description");
    reveal_strlit("error_uri");
    reveal_strlit("state");
    assert("error"@.len() == 5);
    assert("error_description"@.len() == 17);
    assert("error_uri"@.len() == 9);
    assert("state"@.len() == 5);
    assert("error"@[0] == 'e');
    assert("state"@[0] == 's');
    let ps = deny_pairs(e);
    let b_len: int = if e.error_description is Some {
        1
    } else {
        0
    };
    let c_len: int = if e.error_uri is Some {
        1
    } else {
        0
    };
    let d_len: int = if e.state is Some {
        1
    } else {
        0
    };
    assert(ps.len() == 1 + b_len + c_len + d_len);
    if i == 0 {
        assert(ps[0].0 == "error"@);
    } else if i < 1 + b_len {
        assert(ps[i].0 == "error_description"@);
    } else if i < 1 + b_len + c_len {
        assert(ps[i].0 == "error_uri"@);
    } else {
        assert(ps[i].0 == "state"@);
    }
}


/// The starting `Location` (without a scope) is the fold of its four
/// pairs.
proof fn lemma_start_is_fold(base: Seq<char>, cid: Seq<char>, ru: Seq<char>, st: Seq<char>)
    ensures
        crate::client::start_location(base, cid, ru, st, None) == fold_pairs(
            base,
            seq![
                ("response_type"@, "code"@),
                ("client_id"@, cid),
                ("redirect_uri"@, ru),
                ("state"@, st),
            ],
        ),
{
    let ps = seq![
        ("response_type"@, "code"@),
        ("client_id"@, cid),
        ("redirect_uri"@, ru),
        ("state"@, st),
    ];
    let w1 = with_query_pair(base, "response_type"@, "code"@);
    let w2 = with_query_pair(w1, "client_id"@, cid);
    let w3 = with_query_pair(w2, "redirect_uri"@, ru);
    let w4 = with_query_pair(w3, "state"@, st);
    assert(ps.first() == ("response_type"@, "code"@));
    let r1 = ps.drop_first();
    assert(r1.first() == ("client_id"@, cid));
    let r2 = r1.drop_first();
    assert(r2.first() == ("redirect_uri"@, ru));
    let r3 = r2.drop_first();
    assert(r3.first() == ("state"@, st));
    let r4 = r3.drop_first();
    assert(r4 =~= Seq::<(Seq<char>, Seq<char>)>::empty());
    assert(fold_pairs(base, ps) == fold_pairs(w1, r1));
    assert(fold_pairs(w1, r1) == fold_pairs(w2, r2));
    assert(fold_pairs(w2, r2) == fold_pairs(w3, r3));
    assert(fold_pairs(w3, r3) == fold_pairs(w4, r4));
    assert(fold_pairs(w4, r4) == w4);
}

/// The token-request body is the joined form of its four pairs.
proof fn lemma_body_is_joined(code: Seq<char>, ru: Seq<char>, cid: Seq<char>)
    ensures
        ({
            let ps = seq![
                ("grant_type"@, "authorization_code"@),
                ("code"@, code),
                ("redirect_uri"@, ru),
                ("client_id"@, cid),
            ];
            crate::client::token_request_body(code, ru, cid) == pair_chars(ps.first())
                + amp_joined(ps.drop_first())
        }),
{
    lemma_plain_authorization_code();
    lemma_form_encode_str_plain("authorization_code"@);
    let ps = seq![
        ("grant_type"@, "authorization_code"@),
        ("code"@, code),
        ("redirect_uri"@, ru),
        ("client_id"@, cid),
    ];
    assert(ps.first() == ("grant_type"@, "authorization_code"@));
    let r1 = ps.drop_first();
    assert(r1.first() == ("code"@, code));
    let r2 = r1.drop_first();
    assert(r2.first() == ("redirect_uri"@, ru));
    let r3 = r2.drop_first();
    assert(r3.first() == ("client_id"@, cid));
    assert(r3.drop_first() =~= Seq::<(Seq<char>, Seq<char>)>::empty());
    assert(amp_joined(r3.drop_first()) =~= Seq::<char>::empty());
    assert(amp_joined(r3) =~= seq!['&'] + pair_chars(("client_id"@, cid)) + amp_joined(
        r3.drop_first(),
    ));
    assert(amp_joined(r2) =~= seq!['&'] + pair_chars(("redirect_uri"@, ru)) + amp_joined(r3));
    assert(amp_joined(r1) =~= seq!['&'] + pair_chars(("code"@, code)) + amp_joined(r2));
    assert(crate::client::token_request_body(code, ru, cid) =~= pair_chars(ps.first())
        + amp_joined(r1));
}

/// Law (full round trip): with a registered client, a clean authorization
/// endpoint and redirection URI, and a stored grant and nonce, the three
/// legs of the flow compose: the started request is accepted with no
/// error, the granted redirect passes the client's checks and reaches the
/// token exchange, and the token request is answered with issuance for
/// the same client and code, consuming the grant; the nonce is consumed
/// by the redirect leg.
#[verifier::rlimit(60)]
pub proof fn lemma_full_round_trip(
    authz_url: Seq<char>,
    clients: Seq<ClientData>,
    c: ClientData,
    state: Seq<char>,
    code: Seq<char>,
    nonces: Seq<String>,
    grants: Seq<crate::store::GrantRecord>,
    g: crate::store::GrantRecord,
)
    requires
        crate::uri::has_absolute_scheme(encode_utf8(authz_url)),
        !contains_char(authz_url, '#'),
        !contains_char(authz_url, '?'),
        c.redirect_uri@.len() >= 1,
        !contains_char(c.redirect_uri@[0]@, '#'),
        !contains_char(c.redirect_uri@[0]@, '?'),
        crate::syntax::all_vschar(c.client_id@),
        crate::store::client_of(clients, c.client_id@) == Some(c),
        crate::store::grant_of(grants, code) == Some(g),
        g.client_id@ == c.client_id@,
        crate::store::opt_uri_view(g.redirect_uri) == Some(c.redirect_uri@[0]@),
        crate::store::nonce_present(nonces, state),
    ensures
        ({
            let cid = c.client_id@;
            let ru = c.redirect_uri@[0]@;
            let start = crate::client::start_location(authz_url, cid, ru, state, None);
            let d1 = crate::authz_server::authz_decision(encode_utf8(start), clients);
            let gloc = crate::authz_server::grant_location(ru, code, Some(state));
            let d2 = crate::client::redirect_decision(encode_utf8(gloc), nonces);
            let body = encode_utf8(crate::client::token_request_body(code, ru, cid));
            let auth = Some(
                (form_encode_str(cid), Some(form_encode_str(c.credentials@))),
            );
            &&& d1 matches crate::authz_server::AuthzOutcome::Accept(req, err) && err is None
                && req.client_id == cid && req.redirect_uri == Some(ru) && req.state == Some(
                state,
            )
            &&& d2 == (crate::client::RedirectDecision::Proceed { code })
            &&& crate::client::redirect_consumed_state(encode_utf8(gloc)) == Some(state)
            &&& crate::authz_server::token_decision(auth, body, clients, grants)
                == (crate::authz_server::TokenDecision::Issue { code, client_id: cid })
            &&& crate::authz_server::token_consumed_code(auth, body, clients, grants) == Some(
                code,
            )
        }),
{
    let cid = c.client_id@;
    let ru = c.redirect_uri@[0]@;
    // --- leg 1: the authorization request parses and is accepted ---
    lemma_plain_response_type();
    lemma_plain_client_id();
    lemma_plain_redirect_uri();
    lemma_plain_state();
    lemma_plain_scope();
    lemma_plain_code();
    lemma_plain_error();
    lemma_plain_grant_type();
    let ps1 = seq![
        ("response_type"@, "code"@),
        ("client_id"@, cid),
        ("redirect_uri"@, ru),
        ("state"@, state),
    ];
    assert forall|i: int| 0 <= i < ps1.len() implies plain_str((#[trigger] ps1[i]).0) by {
        if i == 0 {
        } else if i == 1 {
        } else if i == 2 {
        } else {
        }
    }
    lemma_start_is_fold(authz_url, cid, ru, state);
    lemma_built_location(authz_url, ps1);
    let start = crate::client::start_location(authz_url, cid, ru, state, None);
    assert(uri_params(encode_utf8(start)) == ps1);
    lemma_fold_shape(authz_url, ps1);
    lemma_encode_utf8_concat(
        authz_url,
        seq!['?'] + (pair_chars(ps1.first()) + amp_joined(ps1.drop_first())),
    );
    assert(start =~= authz_url + (seq!['?'] + (pair_chars(ps1.first()) + amp_joined(
        ps1.drop_first(),
    ))));
    lemma_scheme_prefix(
        encode_utf8(authz_url),
        encode_utf8(seq!['?'] + (pair_chars(ps1.first()) + amp_joined(ps1.drop_first()))),
    );
    assert(crate::uri::has_absolute_scheme(encode_utf8(start)));
    reveal_strlit("response_type");
    reveal_strlit("client_id");
    reveal_strlit("redirect_uri");
    reveal_strlit("state");
    reveal_strlit("scope");
    reveal_strlit("code");
    reveal_strlit("error");
    reveal_strlit("grant_type");
    assert("response_type"@.len() == 13);
    assert("client_id"@.len() == 9);
    assert("redirect_uri"@.len() == 12);
    assert("state"@.len() == 5);
    assert("scope"@.len() == 5);
    assert("code"@.len() == 4);
    assert("error"@.len() == 5);
    assert("grant_type"@.len() == 10);
    assert("state"@[1] == 't');
    assert("scope"@[1] == 'c');
    assert("error"@[1] == 'r');
    assert("state"@ != "scope"@);
    assert("state"@ != "error"@);
    assert("scope"@ != "error"@);
    lemma_param_unique(ps1, "response_type"@, 0);
    lemma_param_unique(ps1, "client_id"@, 1);
    lemma_param_unique(ps1, "redirect_uri"@, 2);
    lemma_param_unique(ps1, "state"@, 3);
    assert forall|i: int| 0 <= i < ps1.len() implies (#[trigger] ps1[i]).0 != "scope"@ by {
        if i == 0 {
        } else if i == 1 {
        } else if i == 2 {
        } else {
        }
    }
    lemma_param_absent(ps1, "scope"@);
    assert(crate::authz_server::uri_registered(c, ru));
    assert(crate::authz_server::authz_soft_error(ps1) is None);
    let d1 = crate::authz_server::authz_decision(encode_utf8(start), clients);
    assert(d1 matches crate::authz_server::AuthzOutcome::Accept(req, err) && err is None
        && req.client_id == cid && req.redirect_uri == Some(ru) && req.state == Some(state));
    // --- leg 2: the granted redirect passes the client checks ---
    lemma_grant_state_round_trip(ru, code, state);
    let gloc = crate::authz_server::grant_location(ru, code, Some(state));
    let d2 = crate::client::redirect_decision(encode_utf8(gloc), nonces);
    assert(d2 == (crate::client::RedirectDecision::Proceed { code }));
    assert(crate::client::redirect_consumed_state(encode_utf8(gloc)) == Some(state));
    // --- leg 3: the token request is authenticated, parsed, and issued ---
    crate::form::lemma_form_roundtrip_str(cid);
    crate::form::lemma_form_roundtrip_str(c.credentials@);
    let ps3 = seq![
        ("grant_type"@, "authorization_code"@),
        ("code"@, code),
        ("redirect_uri"@, ru),
        ("client_id"@, cid),
    ];
    assert forall|i: int| 0 <= i < ps3.len() implies plain_str((#[trigger] ps3[i]).0) by {
        if i == 0 {
        } else if i == 1 {
        } else if i == 2 {
        } else {
        }
    }
    lemma_body_is_joined(code, ru, cid);
    lemma_joined_params(ps3);
    let body = encode_utf8(crate::client::token_request_body(code, ru, cid));
    assert(pairs_utf8(body));
    assert(query_pairs(body) == ps3);
    lemma_param_unique(ps3, "grant_type"@, 0);
    lemma_param_unique(ps3, "code"@, 1);
    lemma_param_unique(ps3, "redirect_uri"@, 2);
    lemma_param_unique(ps3, "client_id"@, 3);
    let auth = Some((form_encode_str(cid), Some(form_encode_str(c.credentials@))));
    assert(crate::authz_server::token_decision(auth, body, clients, grants)
        == (crate::authz_server::TokenDecision::Issue { code, client_id: cid }));
}


/// A URI that starts with a scheme keeps it under any suffix.
proof fn lemma_scheme_prefix(p: Seq<u8>, rest: Seq<u8>)
    requires
        crate::uri::has_absolute_scheme(p),
    ensures
        crate::uri::has_absolute_scheme(p + rest),
{
    let w = p + rest;
    lemma_first_pos(p, 0x3A);
    let k = first_pos(p, 0x3A);
    assert forall|i: int| 0 <= i < k implies w[i] != 0x3A by {
        assert(w[i] == p[i]);
    }
    assert(w[k as int] == p[k as int]);
    lemma_first_pos_is(w, 0x3A, k as int);
    assert(w[0] == p[0]);
    assert forall|i: int| 0 <= i < k implies crate::uri::is_scheme_byte(#[trigger] w[i]) by {
        assert(w[i] == p[i]);
    }
}

} // verus!
