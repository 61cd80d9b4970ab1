//! Endpoint addresses: what this library relies on from the `url` crate.
use vstd::prelude::*;

verus! {

/// The normalised form of a URL and its path, or nothing where the text is no URL.
pub uninterp spec fn parsed(text: Seq<char>) -> Option<(Seq<char>, Seq<char>)>;

/// The normalised form of a URL after its path was replaced.
pub uninterp spec fn with_path(text: Seq<char>, path: Seq<char>) -> Option<Seq<char>>;

/// The normalised form of the URL that a reference stands for, seen from a base URL.
pub uninterp spec fn resolved(base: Seq<char>, reference: Seq<char>) -> Option<Seq<char>>;

/// `Url::parse`, with `Url::as_str` and `Url::path` of its result. What a text parses to takes the
/// URL standard to state, so it is given a name; it rests on the text alone.
#[verifier::external_body]
pub(crate) fn parse_url(text: &str) -> (r: Option<(String, String)>)
    ensures
        match parsed(text@) {
            Some(p) => r matches Some(q) && q.0@ == p.0 && q.1@ == p.1,
            None => r is None,
        },
{
    match url::Url::parse(text) {
        Ok(u) => Some((u.as_str().to_owned(), u.path().to_owned())),
        Err(_) => None,
    }
}

/// `Url::set_path` on the URL that a text parses to, with `Url::as_str` of the result. What comes
/// out is given a name; it is a URL where the text is one.
#[verifier::external_body]
pub(crate) fn replace_path(text: &str, path: &str) -> (r: Option<String>)
    ensures
        match with_path(text@, path@) {
            Some(p) => r matches Some(q) && q@ == p,
            None => r is None,
        },
        r is Some <==> parsed(text@) is Some,
{
    match url::Url::parse(text) {
        Ok(mut u) => {
            u.set_path(path);
            Some(u.as_str().to_owned())
        },
        Err(_) => None,
    }
}

/// `Url::join` on the URL that a text parses to, with `Url::as_str` of the result. What a reference
/// stands for takes the URL standard to state, so it is given a name.
#[verifier::external_body]
pub(crate) fn resolve_url(base: &str, reference: &str) -> (r: Option<String>)
    ensures
        match resolved(base@, reference@) {
            Some(p) => r matches Some(q) && q@ == p,
            None => r is None,
        },
        r is Some ==> parsed(base@) is Some,
{
    match url::Url::parse(base) {
        Ok(u) => match u.join(reference) {
            Ok(joined) => Some(joined.as_str().to_owned()),
            Err(_) => None,
        },
        Err(_) => None,
    }
}

} // verus!
