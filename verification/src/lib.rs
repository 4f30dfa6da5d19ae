//! Server-side and client-side protocol engines for the OAuth 2.0
//! "authorization code" grant (RFC 6749), with verified validation rules.
//!
//! The crate provides three cooperating pieces:
//!
//! * an authorization-server engine: the authorization endpoint and the
//!   token endpoint, with the error-handling policy of RFC 6749 section
//!   4.1.2.1 (errors detected before the redirect URI is trusted are never
//!   redirected);
//! * a client engine: starting a flow, handling the redirect back, and
//!   preparing the token-endpoint exchange, protected by a single-use nonce;
//! * the shared data model: client records, grants, the two error
//!   vocabularies, and the syntax rules of RFC 6749 Appendix A.
//!
//! Transport (HTTP, TLS) and persistent storage stay with the embedding
//! application; the engines work on plain request strings and in-memory
//! stores.

pub mod authz_error;
pub mod authz_request;
pub mod authz_server;
pub mod client;
pub mod client_data;
pub mod client_id;
pub mod client_type;
pub mod error;
pub mod form;
pub mod json;
pub mod laws;
pub mod nonce;
pub mod query;
pub mod redirect_uri;
pub mod store;
pub mod syntax;
pub mod token_data;
pub mod token_error;
pub mod text;
pub mod uri;

pub use authz_error::{AuthzError, AuthzErrorCode};
pub use authz_request::AuthzRequest;
pub use authz_server::AuthzServer;
pub use client::Client;
pub use client_data::{BasicAuth, ClientData};
pub use client_id::ClientId;
pub use client_type::ClientType;
pub use error::OAuthError;
pub use redirect_uri::RedirectUri;
pub use token_data::TokenData;
pub use authz_server::{token_issue_failure_response, token_success_response, TokenRequestOutcome,
    TokenResponse};
pub use client::{classify_token_response, OauthStart, RedirectOutcome, TokenRequest,
    TokenResponseClass};
pub use store::{ClientRegistry, GrantRecord, GrantStore, NonceStore};
pub use token_error::{TokenError, TokenErrorCode};
