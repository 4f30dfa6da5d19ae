//! The random token source.
//!
//! Authorization codes and anti-CSRF nonces must be unguessable, so they
//! come from an outside randomness source.  Nothing can be promised about
//! which value comes back — two calls may differ — only what shape every
//! outcome has.

use crate::syntax::all_vschar;
use vstd::prelude::*;

verus! {

/// Relies on `textnonce::TextNonce::new` (via `TextNonce::sized(32)`): a
/// fresh 32-character token in the base64 alphabet, 16 characters of time
/// and 16 of randomness; `None` when the source fails.
#[verifier::external_body]
pub fn fresh_token() -> (r: Option<String>)
    ensures
        r matches Some(t) ==> t@.len() == 32 && all_vschar(t@),
{
    textnonce::TextNonce::sized(32).ok().map(textnonce::TextNonce::into_string)
}

} // verus!
