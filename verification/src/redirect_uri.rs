//! The redirection URI.

use vstd::prelude::*;

verus! {

/// A redirection URI, compared byte for byte after percent-decoding:
/// no prefix, substring or host-only matching.
pub struct RedirectUri(pub String);

impl View for RedirectUri {
    type V = Seq<char>;

    open spec fn view(&self) -> Seq<char> {
        self.0@
    }
}

impl RedirectUri {
    /// The URI as a string slice.
    pub fn as_str(&self) -> (r: &str)
        ensures
            r@ == self@,
    {
        self.0.as_str()
    }
}

impl Clone for RedirectUri {
    fn clone(&self) -> (r: Self)
        ensures
            r == *self,
    {
        RedirectUri(self.0.clone())
    }
}

impl PartialEq for RedirectUri {
    fn eq(&self, other: &Self) -> (r: bool) {
        crate::text::str_eq(self.0.as_str(), other.0.as_str())
    }
}

impl vstd::std_specs::cmp::PartialEqSpecImpl for RedirectUri {
    open spec fn obeys_eq_spec() -> bool {
        true
    }

    open spec fn eq_spec(&self, other: &Self) -> bool {
        self@ == other@
    }
}

} // verus!
