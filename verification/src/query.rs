//! Query-string parsing.
//!
//! A query (or an x-www-form-urlencoded request body) is a `&`-separated
//! list of pieces; empty pieces are skipped; each piece splits at its first
//! `=` into a raw key and a raw value (a piece without `=` is a key with an
//! empty value); key and value then form-urldecode, and the decoded bytes
//! must be UTF-8.  The spec functions here define that grammar over bytes,
//! and the parser is verified against them.

use crate::form::{form_decode_bytes, form_urldecode_bytes, is_unreserved_byte};
use crate::text::string_from_utf8;
use vstd::prelude::*;
use vstd::slice::slice_subrange;
use vstd::utf8::*;

verus! {

/// Index of the first occurrence of `b` in `s`, or `s.len()` when absent.
pub open spec fn first_pos(s: Seq<u8>, b: u8) -> nat
    decreases s.len(),
{
    if s.len() == 0 {
        0
    } else if s.first() == b {
        0
    } else {
        (1 + first_pos(s.drop_first(), b)) as nat
    }
}

/// The characterisation of `first_pos`.
pub proof fn lemma_first_pos(s: Seq<u8>, b: u8)
    ensures
        first_pos(s, b) <= s.len(),
        first_pos(s, b) < s.len() ==> s[first_pos(s, b) as int] == b,
        forall|i: int| 0 <= i < first_pos(s, b) ==> s[i] != b,
    decreases s.len(),
{
    if s.len() == 0 {
    } else if s.first() == b {
    } else {
        lemma_first_pos(s.drop_first(), b);
        assert forall|i: int| 0 <= i < first_pos(s, b) implies s[i] != b by {
            if i > 0 {
                assert(s[i] == s.drop_first()[i - 1]);
            }
        }
    }
}

/// A scan that saw no `b` before `k`, and `b` at `k` unless it ran off the
/// end, has found `first_pos`.
pub proof fn lemma_first_pos_is(s: Seq<u8>, b: u8, k: int)
    requires
        0 <= k <= s.len(),
        forall|i: int| 0 <= i < k ==> s[i] != b,
        k < s.len() ==> s[k] == b,
    ensures
        first_pos(s, b) == k,
    decreases s.len(),
{
    if s.len() == 0 {
    } else if k == 0 {
    } else {
        assert(s.first() != b);
        assert forall|i: int| 0 <= i < k - 1 implies s.drop_first()[i] != b by {
            assert(s.drop_first()[i] == s[i + 1]);
        }
        assert(k - 1 < s.drop_first().len() ==> s.drop_first()[k - 1] == b);
        lemma_first_pos_is(s.drop_first(), b, k - 1);
    }
}

/// Splits one nonempty piece at its first `=`.
pub open spec fn split_pair(piece: Seq<u8>) -> (Seq<u8>, Seq<u8>) {
    let e = first_pos(piece, 0x3D);
    if e == piece.len() {
        (piece, Seq::<u8>::empty())
    } else {
        (piece.take(e as int), piece.skip(e as int + 1))
    }
}

/// The raw (still encoded) key/value pairs of a query string.
pub open spec fn raw_pairs(q: Seq<u8>) -> Seq<(Seq<u8>, Seq<u8>)>
    decreases q.len(),
{
    if q.len() == 0 {
        seq![]
    } else {
        let k = first_pos(q, 0x26);
        let piece = q.take(k as int);
        let tail = if k < q.len() {
            raw_pairs(q.skip(k as int + 1))
        } else {
            seq![]
        };
        if piece.len() == 0 {
            tail
        } else {
            seq![split_pair(piece)] + tail
        }
    }
}

/// The decoded key/value byte pairs of a query string.
pub open spec fn decoded_pairs(q: Seq<u8>) -> Seq<(Seq<u8>, Seq<u8>)> {
    raw_pairs(q).map_values(
        |p: (Seq<u8>, Seq<u8>)| (form_decode_bytes(p.0), form_decode_bytes(p.1)),
    )
}

/// All decoded keys and values of the query are valid UTF-8.
pub open spec fn pairs_utf8(q: Seq<u8>) -> bool {
    forall|i: int|
        0 <= i < decoded_pairs(q).len() ==> valid_utf8(#[trigger] decoded_pairs(q)[i].0)
            && valid_utf8(decoded_pairs(q)[i].1)
}

/// The character-level key/value pairs of a query string.
pub open spec fn query_pairs(q: Seq<u8>) -> Seq<(Seq<char>, Seq<char>)>
    recommends
        pairs_utf8(q),
{
    decoded_pairs(q).map_values(
        |p: (Seq<u8>, Seq<u8>)| (decode_utf8(p.0), decode_utf8(p.1)),
    )
}

/// The character pairs of a parsed pair list.
pub open spec fn pairs_view(v: Seq<(String, String)>) -> Seq<(Seq<char>, Seq<char>)> {
    v.map_values(|p: (String, String)| (p.0@, p.1@))
}

/// Parses a query string (or form body) into decoded key/value pairs;
/// `None` when a decoded key or value is not UTF-8.
pub fn parse_query_bytes(q: &[u8]) -> (r: Option<Vec<(String, String)>>)
    ensures
        match r {
            Some(v) => pairs_utf8(q@) && pairs_view(v@) == query_pairs(q@),
            None => !pairs_utf8(q@),
        },
{
    let n = q.len();
    let mut out: Vec<(String, String)> = Vec::new();
    let mut i: usize = 0;
    let ghost mut done: Seq<(Seq<u8>, Seq<u8>)> = seq![];
    proof {
        assert(q@.skip(0) =~= q@);
        assert(done + raw_pairs(q@.skip(0)) =~= raw_pairs(q@));
    }
    while i < n
        invariant
            n == q@.len(),
            i <= n,
            raw_pairs(q@) == done + raw_pairs(q@.skip(i as int)),
            out@.len() == done.len(),
            forall|t: int|
                0 <= t < done.len() ==> valid_utf8(form_decode_bytes((#[trigger] done[t]).0))
                    && valid_utf8(form_decode_bytes(done[t].1)),
            forall|t: int|
                0 <= t < done.len() ==> (#[trigger] out@[t]).0@ == decode_utf8(
                    form_decode_bytes(done[t].0),
                ) && out@[t].1@ == decode_utf8(form_decode_bytes(done[t].1)),
        decreases n - i,
    {
        let ghost suf = q@.skip(i as int);
        let mut j: usize = i;
        while j < n && q[j] != 0x26
            invariant
                n == q@.len(),
                i <= j <= n,
                forall|m: int| i <= m < j ==> q@[m] != 0x26,
            decreases n - j,
        {
            j += 1;
        }
        proof {
            assert forall|m: int| 0 <= m < j - i implies suf[m] != 0x26 by {
                assert(suf[m] == q@[i + m]);
            }
            if j < n {
                assert(suf[j - i] == q@[j as int]);
            }
            lemma_first_pos_is(suf, 0x26, j as int - i as int);
        }
        if j == i {
            proof {
                assert(suf.take(0) =~= Seq::<u8>::empty());
                assert(suf.skip(1) =~= q@.skip(i as int + 1));
            }
            i += 1;
        } else {
            let mut e: usize = i;
            while e < j && q[e] != 0x3D
                invariant
                    n == q@.len(),
                    i <= e <= j <= n,
                    forall|m: int| i <= m < e ==> q@[m] != 0x3D,
                decreases j - e,
            {
                e += 1;
            }
            let key_slice = slice_subrange(q, i, e);
            let val_slice = if e < j {
                slice_subrange(q, e + 1, j)
            } else {
                slice_subrange(q, j, j)
            };
            let ghost piece = suf.take(j as int - i as int);
            proof {
                assert(piece =~= q@.subrange(i as int, j as int));
                assert forall|m: int| 0 <= m < e - i implies piece[m] != 0x3D by {
                    assert(piece[m] == q@[i + m]);
                }
                if e < j {
                    assert(piece[e - i] == q@[e as int]);
                }
                lemma_first_pos_is(piece, 0x3D, e as int - i as int);
                if e < j {
                    assert(piece.take(e as int - i as int) =~= q@.subrange(
                        i as int,
                        e as int,
                    ));
                    assert(piece.skip(e as int - i as int + 1) =~= q@.subrange(
                        e as int + 1,
                        j as int,
                    ));
                } else {
                    assert(piece =~= q@.subrange(i as int, e as int));
                    assert(Seq::<u8>::empty() =~= q@.subrange(j as int, j as int));
                }
                assert(split_pair(piece).0 == key_slice@);
                assert(split_pair(piece).1 == val_slice@);
                assert(piece.len() > 0);
                if j < n {
                    assert(suf.skip(j as int - i as int + 1) =~= q@.skip(j as int + 1));
                    assert(raw_pairs(suf) == seq![split_pair(piece)] + raw_pairs(
                        q@.skip(j as int + 1),
                    ));
                } else {
                    assert(raw_pairs(suf) == seq![split_pair(piece)] + Seq::<(
                        Seq<u8>,
                        Seq<u8>,
                    )>::empty());
                }
            }
            let kd = form_urldecode_bytes(key_slice);
            let vd = form_urldecode_bytes(val_slice);
            let ks = string_from_utf8(kd);
            let vs = string_from_utf8(vd);
            match (ks, vs) {
                (Some(kstr), Some(vstr)) => {
                    out.push((kstr, vstr));
                    proof {
                        let ghost pair = (key_slice@, val_slice@);
                        assert(split_pair(piece) == pair);
                        let tail = if j < n {
                            raw_pairs(q@.skip(j as int + 1))
                        } else {
                            Seq::<(Seq<u8>, Seq<u8>)>::empty()
                        };
                        assert((done + (seq![pair] + tail)) =~= ((done + seq![pair]) + tail));
                        done = done + seq![pair];
                    }
                },
                _ => {
                    proof {
                        let t = done.len() as int;
                        assert(raw_pairs(q@)[t] == split_pair(piece));
                        assert(decoded_pairs(q@)[t].0 == form_decode_bytes(key_slice@));
                        assert(decoded_pairs(q@)[t].1 == form_decode_bytes(val_slice@));
                        assert(!valid_utf8(decoded_pairs(q@)[t].0) || !valid_utf8(
                            decoded_pairs(q@)[t].1,
                        ));
                    }
                    return None;
                },
            }
            if j < n {
                i = j + 1;
            } else {
                i = n;
                proof {
                    assert(q@.skip(n as int) =~= Seq::<u8>::empty());
                }
            }
        }
    }
    proof {
        assert(q@.skip(n as int) =~= Seq::<u8>::empty());
        assert(done =~= raw_pairs(q@));
        assert forall|t: int|
            0 <= t < decoded_pairs(q@).len() implies valid_utf8(
            #[trigger] decoded_pairs(q@)[t].0,
        ) && valid_utf8(decoded_pairs(q@)[t].1) by {
            assert(decoded_pairs(q@)[t].0 == form_decode_bytes(raw_pairs(q@)[t].0));
            assert(decoded_pairs(q@)[t].1 == form_decode_bytes(raw_pairs(q@)[t].1));
        }
        assert(pairs_view(out@) =~= query_pairs(q@));
    }
    Some(out)
}

/// The value of the first pair whose key is `k`, if any.
pub open spec fn first_param(ps: Seq<(Seq<char>, Seq<char>)>, k: Seq<char>) -> Option<Seq<char>>
    decreases ps.len(),
{
    if ps.len() == 0 {
        None
    } else if ps.first().0 == k {
        Some(ps.first().1)
    } else {
        first_param(ps.drop_first(), k)
    }
}

/// The value of the last pair whose key is `k`, if any.
pub open spec fn last_param(ps: Seq<(Seq<char>, Seq<char>)>, k: Seq<char>) -> Option<Seq<char>>
    decreases ps.len(),
{
    if ps.len() == 0 {
        None
    } else if last_param(ps.drop_first(), k) is Some {
        last_param(ps.drop_first(), k)
    } else if ps.first().0 == k {
        Some(ps.first().1)
    } else {
        None
    }
}

/// How many pairs carry the key `k`.
pub open spec fn key_count(ps: Seq<(Seq<char>, Seq<char>)>, k: Seq<char>) -> nat
    decreases ps.len(),
{
    if ps.len() == 0 {
        0
    } else {
        (key_count(ps.drop_first(), k) + if ps.first().0 == k {
            1nat
        } else {
            0nat
        }) as nat
    }
}

/// A key occurs in no pair exactly when it has no first value.
pub proof fn lemma_first_param_count(ps: Seq<(Seq<char>, Seq<char>)>, k: Seq<char>)
    ensures
        (key_count(ps, k) == 0) <==> (first_param(ps, k) is None),
    decreases ps.len(),
{
    if ps.len() > 0 {
        lemma_first_param_count(ps.drop_first(), k);
    }
}

/// Looks a key up in a parsed pair list, returning the first match, the
/// last match, and the number of matches.
pub fn lookup_param(v: &Vec<(String, String)>, key: &str) -> (r: (Option<String>, Option<
    String,
>, usize))
    ensures
        ({
            let ps = pairs_view(v@);
            &&& match r.0 {
                Some(s) => first_param(ps, key@) == Some(s@),
                None => first_param(ps, key@) is None,
            }
            &&& match r.1 {
                Some(s) => last_param(ps, key@) == Some(s@),
                None => last_param(ps, key@) is None,
            }
            &&& r.2 == key_count(ps, key@)
        }),
{
    let ghost ps = pairs_view(v@);
    let n = v.len();
    let mut first: Option<String> = None;
    let mut last: Option<String> = None;
    let mut count: usize = 0;
    let mut i: usize = 0;
    proof {
        assert(ps.skip(0) =~= ps);
    }
    while i < n
        invariant
            n == v@.len(),
            ps == pairs_view(v@),
            ps.len() == n,
            i <= n,
            count <= i,
            match first {
                Some(s) => first_param(ps, key@) == Some(s@),
                None => first_param(ps, key@) == first_param(ps.skip(i as int), key@),
            },
            match last {
                Some(s) => last_param(ps, key@) == (match last_param(
                    ps.skip(i as int),
                    key@,
                ) {
                    Some(t) => Some(t),
                    None => Some(s@),
                }),
                None => last_param(ps, key@) == last_param(ps.skip(i as int), key@),
            },
            key_count(ps, key@) == count + key_count(ps.skip(i as int), key@),
        decreases n - i,
    {
        let ghost suf = ps.skip(i as int);
        proof {
            assert(suf.first() == ps[i as int]);
            assert(ps[i as int].0 == v@[i as int].0@);
            assert(ps[i as int].1 == v@[i as int].1@);
            assert(suf.drop_first() =~= ps.skip(i as int + 1));
        }
        let hit = crate::text::str_eq(v[i].0.as_str(), key);
        if hit {
            if first.is_none() {
                first = Some(v[i].1.clone());
            }
            last = Some(v[i].1.clone());
            count = count + 1;
        }
        i += 1;
    }
    proof {
        assert(ps.skip(n as int) =~= Seq::<(Seq<char>, Seq<char>)>::empty());
    }
    (first, last, count)
}

} // verus!
