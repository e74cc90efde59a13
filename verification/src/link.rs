use url::Url;
use vstd::prelude::*;

verus! {

/// Whether `url::Url::parse` accepts `text` as an absolute URL.
pub uninterp spec fn url_parses(text: Seq<char>) -> bool;

/// The absolute URL that `reference` denotes relative to the URL `base`, as
/// `url::Url::join` resolves it; `None` where `base` is no absolute URL or the
/// reference cannot be resolved against it.
pub uninterp spec fn url_join(base: Seq<char>, reference: Seq<char>) -> Option<Seq<char>>;

/// The error of the `url` crate's parser.
#[verifier::external_type_specification]
#[verifier::external_body]
pub struct ExParseError(url::ParseError);

/// Calls `url::Url::parse` and tells whether it returned a URL.
#[verifier::external_body]
pub(crate) fn parses(text: &str) -> (ok: bool)
    ensures
        ok == url_parses(text@),
{
    Url::parse(text).is_ok()
}

/// Parses `base` with `url::Url::parse`, resolves `reference` against it with
/// `Url::join` and returns the serialization of the result. The error is that
/// of whichever of the two calls failed. The result depends on the two texts
/// alone.
#[verifier::external_body]
pub(crate) fn join(base: &str, reference: &str) -> (r: Result<String, url::ParseError>)
    ensures
        match r {
            Ok(u) => url_join(base@, reference@) == Some(u@),
            Err(_) => url_join(base@, reference@) is None,
        },
{
    Url::parse(base)?.join(reference).map(|u| u.to_string())
}

/// The words of the `url` crate for one of its errors, from the error's
/// `Display`.
#[verifier::external_body]
pub(crate) fn describe(e: &url::ParseError) -> (s: String) {
    e.to_string()
}

/// The host of the absolute URL `text`, as `url::Url::host_str` gives it;
/// none where the URL has no host or `text` is no absolute URL.
pub uninterp spec fn url_host(text: Seq<char>) -> Option<Seq<char>>;

/// The port that the absolute URL `text` names, as `url::Url::port` gives
/// it: none where it names none or names the default port of its scheme, or
/// `text` is no absolute URL.
pub uninterp spec fn url_port(text: Seq<char>) -> Option<u16>;

/// Parses `text` with `url::Url::parse` and returns the host of the URL from
/// `Url::host_str`, or the error of the parser. It succeeds exactly where
/// the text is an absolute URL.
#[verifier::external_body]
pub(crate) fn host_of(text: &str) -> (r: Result<Option<String>, url::ParseError>)
    ensures
        r is Ok <==> url_parses(text@),
        r matches Ok(h) ==> crate::types::text_of(h) == url_host(text@),
{
    Url::parse(text).map(|u| u.host_str().map(|h| h.to_owned()))
}

/// Parses `text` with `url::Url::parse` and returns the port of the URL from
/// `Url::port`; none where the text is no absolute URL.
#[verifier::external_body]
pub(crate) fn port_of(text: &str) -> (r: Option<u16>)
    ensures
        r == url_port(text@),
{
    Url::parse(text).ok().and_then(|u| u.port())
}

/// An absolute URL against which relative ones are resolved.
#[derive(Debug, Clone)]
pub struct BaseUrl {
    text: String,
}

impl View for BaseUrl {
    type V = Seq<char>;

    closed spec fn view(&self) -> Seq<char> {
        self.text@
    }
}

impl BaseUrl {
    /// Takes `text` as a base where it is an absolute URL.
    pub fn parse(text: &str) -> (r: Option<BaseUrl>)
        ensures
            r is Some <==> url_parses(text@),
            r matches Some(b) ==> b@ == text@,
    {
        if parses(text) {
            Some(BaseUrl { text: text.to_owned() })
        } else {
            None
        }
    }

    /// The text of the URL.
    pub fn as_str(&self) -> (s: &str)
        ensures
            s@ == self@,
    {
        self.text.as_str()
    }
}

/// The view of an optional base.
pub open spec fn base_view(base: Option<&BaseUrl>) -> Option<Seq<char>> {
    match base {
        Some(b) => Some(b@),
        None => None,
    }
}

} // verus!
