//! Request- and redirection-URI handling.
//!
//! The engines need three things from a URI: whether it is absolute (it
//! starts with a scheme, as RFC 3986 defines one), the query part (between
//! the first `?` and the fragment), and a way to append an encoded query
//! pair when building a redirect `Location`.

use crate::form::{form_encode_str, form_urlencode};
use crate::query::{first_pos, lemma_first_pos_is, pairs_utf8, parse_query_bytes, pairs_view,
    query_pairs};
use crate::text::contains_char;
use vstd::prelude::*;
use vstd::string::StrSliceExecFns;
use vstd::string::StringExecFns;
use vstd::utf8::encode_utf8;

verus! {

/// An ASCII letter.
pub open spec fn is_alpha_byte(b: u8) -> bool {
    ||| 0x41 <= b <= 0x5A
    ||| 0x61 <= b <= 0x7A
}

/// A byte allowed in a URI scheme: letters, digits, `+`, `-`, `.`.
pub open spec fn is_scheme_byte(b: u8) -> bool {
    ||| is_alpha_byte(b)
    ||| 0x30 <= b <= 0x39
    ||| b == 0x2B
    ||| b == 0x2D
    ||| b == 0x2E
}

/// The URI starts with a scheme followed by `:`.
pub open spec fn has_absolute_scheme(u: Seq<u8>) -> bool {
    let c = first_pos(u, 0x3A);
    &&& c < u.len()
    &&& c >= 1
    &&& is_alpha_byte(u[0])
    &&& forall|i: int| 0 <= i < c ==> is_scheme_byte(#[trigger] u[i])
}

/// The URI with its fragment (everything from the first `#`) removed.
pub open spec fn strip_fragment(u: Seq<u8>) -> Seq<u8> {
    u.take(first_pos(u, 0x23) as int)
}

/// The query part: what follows the first `?`, fragment excluded; `None`
/// when there is no `?` outside the fragment.
pub open spec fn uri_query(u: Seq<u8>) -> Option<Seq<u8>> {
    let s = strip_fragment(u);
    let q = first_pos(s, 0x3F);
    if q == s.len() {
        None
    } else {
        Some(s.skip(q as int + 1))
    }
}

/// The query parameters of a URI: the pairs of its query part, or no pairs
/// when it has no query.
pub open spec fn uri_params(u: Seq<u8>) -> Seq<(Seq<char>, Seq<char>)> {
    match uri_query(u) {
        Some(q) => query_pairs(q),
        None => seq![],
    }
}

/// All parameters of the URI decode to UTF-8.
pub open spec fn uri_params_ok(u: Seq<u8>) -> bool {
    match uri_query(u) {
        Some(q) => pairs_utf8(q),
        None => true,
    }
}

/// Returns true if the URI starts with a scheme.
pub fn uri_has_scheme(uri: &str) -> (r: bool)
    ensures
        r == has_absolute_scheme(encode_utf8(uri@)),
{
    let bytes = uri.as_bytes_vec();
    proof {
        assert(bytes@ == encode_utf8(uri@));
    }
    let n = bytes.len();
    let mut c: usize = 0;
    while c < n && bytes[c] != 0x3A
        invariant
            n == bytes@.len(),
            c <= n,
            forall|m: int| 0 <= m < c ==> bytes@[m] != 0x3A,
        decreases n - c,
    {
        c += 1;
    }
    proof {
        lemma_first_pos_is(bytes@, 0x3A, c as int);
    }
    if c == n || c == 0 {
        return false;
    }
    let mut all_scheme: bool = true;
    let mut i: usize = 0;
    while i < c
        invariant
            n == bytes@.len(),
            c < n,
            i <= c,
            all_scheme == (forall|m: int| 0 <= m < i ==> is_scheme_byte(#[trigger] bytes@[m])),
        decreases c - i,
    {
        let b = bytes[i];
        let ok = (0x41 <= b && b <= 0x5A) || (0x61 <= b && b <= 0x7A) || (0x30 <= b && b
            <= 0x39) || b == 0x2B || b == 0x2D || b == 0x2E;
        proof {
            assert(ok == is_scheme_byte(bytes@[i as int]));
        }
        all_scheme = all_scheme && ok;
        i += 1;
    }
    let b0 = bytes[0];
    let alpha0 = (0x41 <= b0 && b0 <= 0x5A) || (0x61 <= b0 && b0 <= 0x7A);
    alpha0 && all_scheme
}

/// Parses the query parameters of a URI; `None` when a decoded key or
/// value is not UTF-8.
pub fn parse_uri_params(uri: &str) -> (r: Option<Vec<(String, String)>>)
    ensures
        match r {
            Some(v) => uri_params_ok(encode_utf8(uri@)) && pairs_view(v@) == uri_params(
                encode_utf8(uri@),
            ),
            None => !uri_params_ok(encode_utf8(uri@)),
        },
{
    let bytes = uri.as_bytes_vec();
    let n = bytes.len();
    let mut h: usize = 0;
    while h < n && bytes[h] != 0x23
        invariant
            n == bytes@.len(),
            h <= n,
            forall|m: int| 0 <= m < h ==> bytes@[m] != 0x23,
        decreases n - h,
    {
        h += 1;
    }
    proof {
        lemma_first_pos_is(bytes@, 0x23, h as int);
    }
    let ghost stripped = strip_fragment(bytes@);
    let mut q: usize = 0;
    while q < h && bytes[q] != 0x3F
        invariant
            n == bytes@.len(),
            h <= n,
            q <= h,
            forall|m: int| 0 <= m < q ==> bytes@[m] != 0x3F,
        decreases h - q,
    {
        q += 1;
    }
    proof {
        assert(stripped.len() == h);
        assert forall|m: int| 0 <= m < q implies stripped[m] != 0x3F by {
            assert(stripped[m] == bytes@[m]);
        }
        if q < h {
            assert(stripped[q as int] == bytes@[q as int]);
        }
        lemma_first_pos_is(stripped, 0x3F, q as int);
    }
    if q == h {
        proof {
            assert(uri_query(bytes@) is None);
        }
        return Some(Vec::new());
    }
    let qs = vstd::slice::slice_subrange(bytes.as_slice(), q + 1, h);
    proof {
        assert(qs@ =~= stripped.skip(q as int + 1));
    }
    let r = parse_query_bytes(qs);
    proof {
        if r is Some {
            assert(pairs_view(r->Some_0@) =~= uri_params(encode_utf8(uri@)));
        }
    }
    r
}

/// A separator for a new query pair: `&` when the URI already has a query
/// mark, `?` otherwise.
pub open spec fn query_sep(url: Seq<char>) -> Seq<char> {
    if contains_char(url, '?') {
        seq!['&']
    } else {
        seq!['?']
    }
}

/// The URI with `key=value` appended to its query, the value
/// form-urlencoded.
pub open spec fn with_query_pair(url: Seq<char>, key: Seq<char>, value: Seq<char>) -> Seq<char> {
    url + query_sep(url) + key + seq!['='] + form_encode_str(value)
}

/// Appends `key=value` to the query of `url`, form-urlencoding the value.
/// The key is taken as it stands: the engines pass fixed protocol names
/// that need no encoding.
pub fn append_query_pair(url: &mut String, key: &str, value: &str)
    ensures
        final (url)@ == with_query_pair(old(url)@, key@, value@),
{
    let has_q = crate::text::str_contains_char(url.as_str(), '?');
    if has_q {
        url.append("&");
    } else {
        url.append("?");
    }
    proof {
        reveal_strlit("&");
        reveal_strlit("?");
        assert("&"@ =~= seq!['&']);
        assert("?"@ =~= seq!['?']);
    }
    url.append(key);
    url.append("=");
    proof {
        reveal_strlit("=");
        assert("="@ =~= seq!['=']);
    }
    let ev = form_urlencode(value);
    url.append(ev.as_str());
}

} // verus!
