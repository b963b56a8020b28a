//! URL parsing and normalization. A URL is handled by its canonical,
//! fragment-stripped string form; what only the url crate can compute
//! (parsing, resolving a reference against a base) sits behind trusted
//! wrappers from plain strings to plain strings.

use vstd::prelude::*;

verus! {

/// Whether a URL string carries no fragment. In the url crate's
/// serialization the '#' delimiter appears exactly when a fragment is
/// present: a '#' anywhere else is percent-encoded, so a fragment-stripped
/// URL contains no '#' at all.
pub open spec fn fragment_free(s: Seq<char>) -> bool {
    forall|i: int| 0 <= i < s.len() ==> s[i] != '#'
}

/// The canonical, fragment-stripped serialization of the absolute URL written
/// in `s`, or None when `s` is not a valid absolute URL. The result depends
/// on `s` alone.
pub uninterp spec fn parsed_url(s: Seq<char>) -> Option<Seq<char>>;

/// The canonical, fragment-stripped serialization of the URL written in
/// `href` resolved against the absolute URL written in `base` (relative
/// paths, protocol-relative references and absolute URLs alike), or None
/// when `base` is not a valid absolute URL or `href` cannot be resolved
/// against it. The result depends on the two strings alone.
pub uninterp spec fn resolved_link(base: Seq<char>, href: Seq<char>) -> Option<Seq<char>>;

/// Relies on url::Url::parse, Url::set_fragment and Url::as_str: parses an
/// absolute URL, drops its fragment, and serializes it canonically.
#[verifier::external_body]
pub fn parse_url(s: &str) -> (r: Option<String>)
    ensures
        r matches Some(u) ==> parsed_url(s@) == Some(u@) && fragment_free(u@),
        r is None <==> parsed_url(s@) is None,
{
    match url::Url::parse(s) {
        Ok(mut u) => {
            u.set_fragment(None);
            Some(u.as_str().to_owned())
        }
        Err(_) => None,
    }
}

/// Relies on url::Url::parse, Url::join, Url::set_fragment and Url::as_str:
/// resolves `href` against `base`, drops the fragment, and serializes the
/// result canonically.
#[verifier::external_body]
pub fn resolve_link(base: &str, href: &str) -> (r: Option<String>)
    ensures
        r matches Some(u) ==> resolved_link(base@, href@) == Some(u@) && fragment_free(u@),
        r is None <==> resolved_link(base@, href@) is None,
{
    let b = match url::Url::parse(base) {
        Ok(b) => b,
        Err(_) => return None,
    };
    let mut u = match b.join(href) {
        Ok(u) => u,
        Err(_) => return None,
    };
    u.set_fragment(None);
    Some(u.as_str().to_owned())
}

} // verus!
