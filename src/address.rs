use vstd::prelude::*;

verus! {

#[verifier::external_type_specification]
#[verifier::external_body]
pub struct ExParseError(url::ParseError);

/// The serialization of the absolute URL that `s` parses to, or nothing when
/// `s` is not a well-formed absolute URL.
pub uninterp spec fn parsed_url(s: Seq<char>) -> Option<Seq<char>>;

/// Relies on `url::Url::parse`, which parses an absolute URL or fails with a
/// `ParseError` (always on empty input: there is no scheme and no base), and on
/// `String::from(Url)`, which gives the parsed URL's serialization.
#[verifier::external_body]
fn parse_url(s: &str) -> (r: Result<String, url::ParseError>)
    ensures
        r is Ok <==> parsed_url(s@) is Some,
        r matches Ok(u) ==> parsed_url(s@) == Some(u@),
        s@.len() == 0 ==> r is Err,
{
    url::Url::parse(s).map(|u| String::from(u))
}

/// Checks that `s` is a well-formed absolute URL and gives its normalized form.
pub fn validate_url(s: &str) -> (r: Option<String>)
    ensures
        r is Some <==> parsed_url(s@) is Some,
        r matches Some(u) ==> parsed_url(s@) == Some(u@),
        s@.len() == 0 ==> r is None,
{
    match parse_url(s) {
        Ok(u) => Some(u),
        Err(_) => None,
    }
}

} // verus!
