//! The client type.

use vstd::prelude::*;

verus! {

/// Client type, either confidential or public (RFC 6749 section 2.2).
/// A client that cannot be trusted to keep secrets is public; this usually
/// includes all clients in end-user hands.
#[derive(Clone, Copy, PartialEq, Eq, Structural, Debug)]
pub enum ClientType {
    /// A client that can keep its credentials confidential.
    ConfidentialClient,
    /// A client that cannot be trusted to keep secrets.
    PublicClient,
}

impl ClientType {
    /// The serialized name of the type.
    pub fn as_str(&self) -> (r: &'static str)
        ensures
            *self is ConfidentialClient ==> r@ == "confidential"@,
            *self is PublicClient ==> r@ == "public"@,
    {
        match *self {
            ClientType::ConfidentialClient => "confidential",
            ClientType::PublicClient => "public",
        }
    }
}

} // verus!
