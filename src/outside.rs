//! What the library takes from std and from outside crates without proof:
//! each item below names the function it relies on.
use vstd::prelude::*;

verus! {

/// The text that `str::to_uppercase` makes of a string (Unicode case mapping).
pub uninterp spec fn upper_of(s: Seq<char>) -> Seq<char>;

/// The standard base64 alphabet, without padding, applied to the UTF-8 bytes
/// of a string.
pub uninterp spec fn base64_no_pad_of(s: Seq<char>) -> Seq<char>;

/// The `application/x-www-form-urlencoded` serialization of a string's bytes.
pub uninterp spec fn form_encoded_of(s: Seq<char>) -> Seq<char>;

/// Whether `url::Url::parse` accepts a string as an absolute URL.
pub uninterp spec fn url_parses(s: Seq<char>) -> bool;

#[verifier::external_type_specification]
#[verifier::external_body]
pub struct ExUrl(url::Url);

#[verifier::external_type_specification]
#[verifier::external_body]
pub struct ExParseError(url::ParseError);

#[verifier::external_type_specification]
#[verifier::external_body]
pub struct ExValue(serde_json::Value);

/// Relies on `url::Url::parse`: it fails exactly on the strings it does not
/// accept as URLs.
pub assume_specification[ url::Url::parse ](input: &str) -> (r: Result<url::Url, url::ParseError>)
    ensures
        r is Ok <==> url_parses(input@),
;

/// Relies on `url::Url::set_path`, which replaces the path.
pub assume_specification[ url::Url::set_path ](u: &mut url::Url, path: &str);

/// Relies on `url::Url::set_query`, which replaces or removes the query.
pub assume_specification[ url::Url::set_query ](u: &mut url::Url, query: Option<&str>);

/// Relies on `url::Url::set_fragment`, which replaces or removes the fragment.
pub assume_specification[ url::Url::set_fragment ](u: &mut url::Url, fragment: Option<&str>);

/// Relies on `url::Url::as_str`, the serialization of the URL.
pub assume_specification[ url::Url::as_str ](u: &url::Url) -> (r: &str);

/// Relies on `str::to_uppercase`: the result depends on the characters alone,
/// and an empty string stays empty.
#[verifier::external_body]
pub fn to_upper(s: &str) -> (r: String)
    ensures
        r@ == upper_of(s@),
        s@.len() == 0 ==> r@.len() == 0,
{
    s.to_uppercase()
}

/// Relies on `base64::Engine::encode` with the `STANDARD_NO_PAD` engine.
#[verifier::external_body]
pub fn base64_no_pad(s: &str) -> (r: String)
    ensures
        r@ == base64_no_pad_of(s@),
{
    base64::Engine::encode(&base64::engine::general_purpose::STANDARD_NO_PAD, s)
}

/// Relies on `url::form_urlencoded::byte_serialize`, collected into a string.
#[verifier::external_body]
pub fn form_encode(s: &str) -> (r: String)
    ensures
        r@ == form_encoded_of(s@),
{
    url::form_urlencoded::byte_serialize(s.as_bytes()).collect()
}

} // verus!
