//! The stored form of a username/password pair.
use vstd::prelude::*;

verus! {

/// What base64 with the URL-safe alphabet and padding makes of the UTF-8
/// bytes of `s`.
pub uninterp spec fn base64_url_safe(s: Seq<char>) -> Seq<char>;

/// Relies on `base64::encode_config` with `base64::URL_SAFE`: the encoding
/// depends on the input text alone.
#[verifier::external_body]
fn encode_url_safe(s: &str) -> (r: String)
    ensures
        r@ == base64_url_safe(s@),
{
    base64::encode_config(s, base64::URL_SAFE)
}

/// The text `username:password`.
pub open spec fn credential_text(username: Seq<char>, password: Seq<char>) -> Seq<char> {
    username + seq![':'] + password
}

/// The key under which a username/password pair is stored: the URL-safe
/// base64 of `username:password`. It is an encoding, not a hash.
pub open spec fn credential_of(username: Seq<char>, password: Seq<char>) -> Seq<char> {
    base64_url_safe(credential_text(username, password))
}

/// Encodes a username/password pair as the store keys it.
pub fn encode_credential(username: &str, password: &str) -> (r: String)
    ensures
        r@ == credential_of(username@, password@),
{
    let mut text = username.to_string();
    text.append(":");
    text.append(password);
    proof {
        reveal_strlit(":");
        assert(text@ =~= credential_text(username@, password@));
    }
    encode_url_safe(text.as_str())
}

} // verus!
