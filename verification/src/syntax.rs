//! Syntax validation for OAuth 2.0 protocol elements.
//!
//! RFC 6749 Appendix A defines the character classes that the protocol's
//! string-valued parameters may use.  Each class gets a spec-level predicate
//! on `char`, an executable check for a single character, and an executable
//! check for a whole string, proved equivalent to the predicate holding of
//! every character.

use vstd::prelude::*;
use vstd::string::StrSliceExecFns;

verus! {

/// DIGIT: `%x30-39`.
pub open spec fn is_digit(c: char) -> bool {
    0x30 <= c as u32 <= 0x39
}

/// name-char: `"-" / "." / "_" / DIGIT / ALPHA`.
pub open spec fn is_name_char(c: char) -> bool {
    ||| c as u32 == 0x2D
    ||| c as u32 == 0x2E
    ||| c as u32 == 0x5F
    ||| is_digit(c)
    ||| 0x41 <= c as u32 <= 0x5A
    ||| 0x61 <= c as u32 <= 0x7A
}

/// `"_" / DIGIT / ALPHA`, the characters of a response-type name.
pub open spec fn is_digit_alpha_under(c: char) -> bool {
    ||| is_digit(c)
    ||| 0x41 <= c as u32 <= 0x5A
    ||| 0x61 <= c as u32 <= 0x7A
    ||| c as u32 == 0x5F
}

/// VSCHAR: `%x20-7E`, the visible ASCII characters plus space.
pub open spec fn is_vschar(c: char) -> bool {
    0x20 <= c as u32 <= 0x7E
}

/// NQCHAR: `%x21 / %x23-5B / %x5D-7E` (VSCHAR without space, `"` and `\`).
pub open spec fn is_nqchar(c: char) -> bool {
    ||| c as u32 == 0x21
    ||| 0x23 <= c as u32 <= 0x5B
    ||| 0x5D <= c as u32 <= 0x7E
}

/// NQSCHAR: `%x20-21 / %x23-5B / %x5D-7E` (VSCHAR without `"` and `\`).
pub open spec fn is_nqschar(c: char) -> bool {
    ||| 0x20 <= c as u32 <= 0x21
    ||| 0x23 <= c as u32 <= 0x5B
    ||| 0x5D <= c as u32 <= 0x7E
}

/// UNICODECHARNOCRLF: tab, visible ASCII, and the non-control Unicode
/// scalar values (the class excludes more than just CR and LF).
pub open spec fn is_unicodecharnocrlf(c: char) -> bool {
    ||| c as u32 == 0x09
    ||| 0x20 <= c as u32 <= 0x7E
    ||| 0x80 <= c as u32 <= 0xD7FF
    ||| 0xE000 <= c as u32 <= 0xFFFD
    ||| 0x10000 <= c as u32 <= 0x10FFFF
}

/// Every character of `s` is a DIGIT.
pub open spec fn all_digits(s: Seq<char>) -> bool {
    forall|i: int| 0 <= i < s.len() ==> is_digit(#[trigger] s[i])
}

/// Every character of `s` is a name-char.
pub open spec fn all_name_chars(s: Seq<char>) -> bool {
    forall|i: int| 0 <= i < s.len() ==> is_name_char(#[trigger] s[i])
}

/// Every character of `s` is `"_" / DIGIT / ALPHA`.
pub open spec fn all_digit_alpha_under(s: Seq<char>) -> bool {
    forall|i: int| 0 <= i < s.len() ==> is_digit_alpha_under(#[trigger] s[i])
}

/// Every character of `s` is a VSCHAR.
pub open spec fn all_vschar(s: Seq<char>) -> bool {
    forall|i: int| 0 <= i < s.len() ==> is_vschar(#[trigger] s[i])
}

/// Every character of `s` is an NQCHAR.
pub open spec fn all_nqchar(s: Seq<char>) -> bool {
    forall|i: int| 0 <= i < s.len() ==> is_nqchar(#[trigger] s[i])
}

/// Every character of `s` is an NQSCHAR.
pub open spec fn all_nqschar(s: Seq<char>) -> bool {
    forall|i: int| 0 <= i < s.len() ==> is_nqschar(#[trigger] s[i])
}

/// Every character of `s` is a UNICODECHARNOCRLF.
pub open spec fn all_unicodecharnocrlf(s: Seq<char>) -> bool {
    forall|i: int| 0 <= i < s.len() ==> is_unicodecharnocrlf(#[trigger] s[i])
}

/// Returns true if c is a digit.
pub fn char_is_digit(c: char) -> (r: bool)
    ensures
        r == is_digit(c),
{
    let u: u32 = c as u32;
    0x30 <= u && u <= 0x39
}

/// Returns true if str consists entirely of digits.
pub fn str_is_digits(v: &str) -> (r: bool)
    ensures
        r == all_digits(v@),
{
    let len = v.unicode_len();
    let mut i: usize = 0;
    while i < len
        invariant
            len == v@.len(),
            i <= len,
            forall|j: int| 0 <= j < i ==> is_digit(#[trigger] v@[j]),
        decreases len - i,
    {
        if !char_is_digit(v.get_char(i)) {
            return false;
        }
        i += 1;
    }
    true
}

/// Returns true if char meets RFC 6749 Appendix A definition for name-char.
pub fn char_is_name_char(c: char) -> (r: bool)
    ensures
        r == is_name_char(c),
{
    let u: u32 = c as u32;
    u == 0x2D || u == 0x2E || u == 0x5F || (0x30 <= u && u <= 0x39) || (0x41 <= u && u <= 0x5A)
        || (0x61 <= u && u <= 0x7A)
}

/// Returns true if str meets RFC 6749 Appendix A definition for name-char.
pub fn str_is_name(v: &str) -> (r: bool)
    ensures
        r == all_name_chars(v@),
{
    let len = v.unicode_len();
    let mut i: usize = 0;
    while i < len
        invariant
            len == v@.len(),
            i <= len,
            forall|j: int| 0 <= j < i ==> is_name_char(#[trigger] v@[j]),
        decreases len - i,
    {
        if !char_is_name_char(v.get_char(i)) {
            return false;
        }
        i += 1;
    }
    true
}

/// Returns true if char meets RFC 6749 Appendix A definition for
/// `"_" / DIGIT / ALPHA`.
pub fn char_is_digit_alpha_under(c: char) -> (r: bool)
    ensures
        r == is_digit_alpha_under(c),
{
    let u: u32 = c as u32;
    (0x30 <= u && u <= 0x39) || (0x41 <= u && u <= 0x5A) || (0x61 <= u && u <= 0x7A) || u == 0x5F
}

/// Returns true if string meets RFC 6749 Appendix A definition for
/// `"_" / DIGIT / ALPHA`.
pub fn str_is_digit_alpha_under(v: &str) -> (r: bool)
    ensures
        r == all_digit_alpha_under(v@),
{
    let len = v.unicode_len();
    let mut i: usize = 0;
    while i < len
        invariant
            len == v@.len(),
            i <= len,
            forall|j: int| 0 <= j < i ==> is_digit_alpha_under(#[trigger] v@[j]),
        decreases len - i,
    {
        if !char_is_digit_alpha_under(v.get_char(i)) {
            return false;
        }
        i += 1;
    }
    true
}

/// Returns true if char meets RFC 6749 Appendix A definition for VSCHAR.
pub fn char_is_vschar(c: char) -> (r: bool)
    ensures
        r == is_vschar(c),
{
    let u: u32 = c as u32;
    0x20 <= u && u <= 0x7E
}

/// Returns true if string meets RFC 6749 Appendix A definition for VSCHAR.
pub fn str_is_vschar(v: &str) -> (r: bool)
    ensures
        r == all_vschar(v@),
{
    let len = v.unicode_len();
    let mut i: usize = 0;
    while i < len
        invariant
            len == v@.len(),
            i <= len,
            forall|j: int| 0 <= j < i ==> is_vschar(#[trigger] v@[j]),
        decreases len - i,
    {
        if !char_is_vschar(v.get_char(i)) {
            return false;
        }
        i += 1;
    }
    true
}

/// Returns true if char meets RFC 6749 Appendix A definition for NQCHAR.
pub fn char_is_nqchar(c: char) -> (r: bool)
    ensures
        r == is_nqchar(c),
{
    let u: u32 = c as u32;
    u == 0x21 || (0x23 <= u && u <= 0x5B) || (0x5D <= u && u <= 0x7E)
}

/// Returns true if str meets RFC 6749 Appendix A definition for NQCHAR.
pub fn str_is_nqchar(v: &str) -> (r: bool)
    ensures
        r == all_nqchar(v@),
{
    let len = v.unicode_len();
    let mut i: usize = 0;
    while i < len
        invariant
            len == v@.len(),
            i <= len,
            forall|j: int| 0 <= j < i ==> is_nqchar(#[trigger] v@[j]),
        decreases len - i,
    {
        if !char_is_nqchar(v.get_char(i)) {
            return false;
        }
        i += 1;
    }
    true
}

/// Returns true if char meets RFC 6749 Appendix A definition for NQSCHAR.
pub fn char_is_nqschar(c: char) -> (r: bool)
    ensures
        r == is_nqschar(c),
{
    let u: u32 = c as u32;
    (0x20 <= u && u <= 0x21) || (0x23 <= u && u <= 0x5B) || (0x5D <= u && u <= 0x7E)
}

/// Returns true if str meets RFC 6749 Appendix A definition for NQSCHAR.
pub fn str_is_nqschar(v: &str) -> (r: bool)
    ensures
        r == all_nqschar(v@),
{
    let len = v.unicode_len();
    let mut i: usize = 0;
    while i < len
        invariant
            len == v@.len(),
            i <= len,
            forall|j: int| 0 <= j < i ==> is_nqschar(#[trigger] v@[j]),
        decreases len - i,
    {
        if !char_is_nqschar(v.get_char(i)) {
            return false;
        }
        i += 1;
    }
    true
}

/// Returns true if char meets RFC 6749 Appendix A definition for
/// UNICODECHARNOCRLF.
pub fn char_is_unicodecharnocrlf(c: char) -> (r: bool)
    ensures
        r == is_unicodecharnocrlf(c),
{
    let u: u32 = c as u32;
    u == 0x09 || (0x20 <= u && u <= 0x7E) || (0x80 <= u && u <= 0xD7FF) || (0xE000 <= u && u
        <= 0xFFFD) || (0x10000 <= u && u <= 0x10FFFF)
}

/// Returns true if str meets RFC 6749 Appendix A definition for
/// UNICODECHARNOCRLF.
pub fn str_is_unicodecharnocrlf(v: &str) -> (r: bool)
    ensures
        r == all_unicodecharnocrlf(v@),
{
    let len = v.unicode_len();
    let mut i: usize = 0;
    while i < len
        invariant
            len == v@.len(),
            i <= len,
            forall|j: int| 0 <= j < i ==> is_unicodecharnocrlf(#[trigger] v@[j]),
        decreases len - i,
    {
        if !char_is_unicodecharnocrlf(v.get_char(i)) {
            return false;
        }
        i += 1;
    }
    true
}

/// A client identifier is a sequence of VSCHAR (possibly empty).
pub fn valid_client_id_str(client_id: &str) -> (r: bool)
    ensures
        r == all_vschar(client_id@),
{
    str_is_vschar(client_id)
}

/// A client secret is a sequence of VSCHAR (possibly empty).
pub fn valid_client_secret_str(client_secret: &str) -> (r: bool)
    ensures
        r == all_vschar(client_secret@),
{
    str_is_vschar(client_secret)
}

/// A response type is a non-empty name made of `"_" / DIGIT / ALPHA`.
pub fn valid_response_type_str(response_type: &str) -> (r: bool)
    ensures
        r == (response_type@.len() > 0 && all_digit_alpha_under(response_type@)),
{
    !response_type.is_empty() && str_is_digit_alpha_under(response_type)
}

/// A scope is a non-empty sequence of NQCHAR.
pub fn valid_scope_str(scope: &str) -> (r: bool)
    ensures
        r == (scope@.len() > 0 && all_nqchar(scope@)),
{
    !scope.is_empty() && str_is_nqchar(scope)
}

/// A state value is a non-empty sequence of VSCHAR.
pub fn valid_state_str(state: &str) -> (r: bool)
    ensures
        r == (state@.len() > 0 && all_vschar(state@)),
{
    !state.is_empty() && str_is_vschar(state)
}

/// An error code is a non-empty sequence of NQSCHAR.
pub fn valid_error_str(error: &str) -> (r: bool)
    ensures
        r == (error@.len() > 0 && all_nqschar(error@)),
{
    !error.is_empty() && str_is_nqschar(error)
}

/// An error description is a non-empty sequence of NQSCHAR.
pub fn valid_error_description_str(error_description: &str) -> (r: bool)
    ensures
        r == (error_description@.len() > 0 && all_nqschar(error_description@)),
{
    !error_description.is_empty() && str_is_nqschar(error_description)
}

/// A grant type may also be a URI; this only checks the grant-name form.
pub fn valid_grant_name_str(grant_type: &str) -> (r: bool)
    ensures
        r == (grant_type@.len() > 0 && all_name_chars(grant_type@)),
{
    !grant_type.is_empty() && str_is_name(grant_type)
}

/// An authorization code is a non-empty sequence of VSCHAR.
pub fn valid_code_str(code: &str) -> (r: bool)
    ensures
        r == (code@.len() > 0 && all_vschar(code@)),
{
    !code.is_empty() && str_is_vschar(code)
}

/// An access token is a non-empty sequence of VSCHAR.
pub fn valid_access_token_str(access_token: &str) -> (r: bool)
    ensures
        r == (access_token@.len() > 0 && all_vschar(access_token@)),
{
    !access_token.is_empty() && str_is_vschar(access_token)
}

/// A token type may also be a URI; this only checks the token-name form.
pub fn valid_token_name_str(token_type: &str) -> (r: bool)
    ensures
        r == (token_type@.len() > 0 && all_name_chars(token_type@)),
{
    !token_type.is_empty() && str_is_name(token_type)
}

/// An expires-in value is a non-empty sequence of digits.
pub fn valid_expires_in_str(expires_in: &str) -> (r: bool)
    ensures
        r == (expires_in@.len() > 0 && all_digits(expires_in@)),
{
    !expires_in.is_empty() && str_is_digits(expires_in)
}

/// A username is any sequence of UNICODECHARNOCRLF.
pub fn valid_username_str(username: &str) -> (r: bool)
    ensures
        r == all_unicodecharnocrlf(username@),
{
    str_is_unicodecharnocrlf(username)
}

/// A password is any sequence of UNICODECHARNOCRLF.
pub fn valid_password_str(password: &str) -> (r: bool)
    ensures
        r == all_unicodecharnocrlf(password@),
{
    str_is_unicodecharnocrlf(password)
}

/// A refresh token is a non-empty sequence of VSCHAR.
pub fn valid_refresh_token_str(refresh_token: &str) -> (r: bool)
    ensures
        r == (refresh_token@.len() > 0 && all_vschar(refresh_token@)),
{
    !refresh_token.is_empty() && str_is_vschar(refresh_token)
}

} // verus!
