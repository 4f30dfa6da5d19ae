//! The result of token issuance.

use crate::json::{dec_chars, json_string, json_string_exec, u32_to_string};
use crate::syntax::{all_name_chars, all_nqchar, all_vschar};
use vstd::prelude::*;
use vstd::string::StringExecFns;

verus! {

/// A successful token-endpoint answer (RFC 6749 section 5.1).
pub struct TokenData {
    /// The access token (VSCHAR).
    pub access_token: String,
    /// The token type, for instance `bearer`.
    pub token_type: String,
    /// Lifetime of the token in seconds.
    pub expires_in: Option<u32>,
    /// A refresh token, if one was issued.
    pub refresh_token: Option<String>,
    /// The granted scope, if it differs from the requested one.
    pub scope: Option<String>,
}

impl TokenData {
    /// The fields hold the character classes RFC 6749 gives them.
    pub open spec fn wf(self) -> bool {
        &&& self.access_token@.len() > 0 && all_vschar(self.access_token@)
        &&& self.token_type@.len() > 0 && all_name_chars(self.token_type@)
        &&& match self.refresh_token {
            Some(s) => s@.len() > 0 && all_vschar(s@),
            None => true,
        }
        &&& match self.scope {
            Some(s) => s@.len() > 0 && all_nqchar(s@),
            None => true,
        }
    }

    /// The JSON body: fields with no value are left out entirely.
    pub open spec fn spec_json(self) -> Seq<char> {
        "{\r\n  \"access_token\": "@ + json_string(self.access_token@)
            + ",\r\n  \"token_type\": "@ + json_string(self.token_type@) + (
        match self.expires_in {
            Some(n) => ",\r\n  \"expires_in\": "@ + dec_chars(n as nat),
            None => Seq::<char>::empty(),
        }) + (match self.refresh_token {
            Some(s) => ",\r\n  \"refresh_token\": "@ + json_string(s@),
            None => Seq::<char>::empty(),
        }) + (match self.scope {
            Some(s) => ",\r\n  \"scope\": "@ + json_string(s@),
            None => Seq::<char>::empty(),
        }) + "\r\n}"@
    }

    /// Serializes, leaving out the optional fields that are absent: the
    /// standard wants them omitted entirely, not emitted as null.
    pub fn as_json(&self) -> (r: String)
        requires
            self.wf(),
        ensures
            r@ == self.spec_json(),
    {
        let mut out = String::new();
        out.append("{\r\n  \"access_token\": ");
        proof {
            crate::text::lemma_ascii_chars_from_codes(self.access_token@);
            crate::text::lemma_ascii_chars_from_codes(self.token_type@);
        }
        let js = json_string_exec(self.access_token.as_str());
        out.append(js.as_str());
        out.append(",\r\n  \"token_type\": ");
        let js = json_string_exec(self.token_type.as_str());
        out.append(js.as_str());
        if let Some(n) = self.expires_in {
            out.append(",\r\n  \"expires_in\": ");
            let ds = u32_to_string(n);
            out.append(ds.as_str());
        }
        if let Some(s) = &self.refresh_token {
            proof {
                crate::text::lemma_ascii_chars_from_codes(s@);
            }
            out.append(",\r\n  \"refresh_token\": ");
            let js = json_string_exec(s.as_str());
            out.append(js.as_str());
        }
        if let Some(s) = &self.scope {
            proof {
                crate::text::lemma_ascii_chars_from_codes(s@);
            }
            out.append(",\r\n  \"scope\": ");
            let js = json_string_exec(s.as_str());
            out.append(js.as_str());
        }
        out.append("\r\n}");
        proof {
            assert(out@ =~= self.spec_json());
        }
        out
    }
}

} // verus!
