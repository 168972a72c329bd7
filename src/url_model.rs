//! The parts of a parsed URL that the canonicalizer reads, held as plain values.
use vstd::prelude::*;

verus! {

/// The mathematical view of a parsed URL.
pub struct UrlParts {
    /// The scheme, lower-cased, without the `:` delimiter.
    pub scheme: Seq<char>,
    /// Whether `://` follows the scheme: a host, and maybe a port, were parsed.
    pub has_authority: bool,
    /// The path, without query or fragment.
    pub path: Seq<char>,
    /// The explicit port, absent when none was written or it is the scheme's default.
    pub port: Option<u16>,
    /// The parser's normalized serialization of the whole URL.
    pub serialization: Seq<char>,
}

/// A parsed URL, as the URL parser reports it.
pub struct ParsedUrl {
    pub scheme: String,
    pub has_authority: bool,
    pub path: String,
    pub port: Option<u16>,
    pub serialization: String,
}

impl View for ParsedUrl {
    type V = UrlParts;

    open spec fn view(&self) -> UrlParts {
        UrlParts {
            scheme: self.scheme@,
            has_authority: self.has_authority,
            path: self.path@,
            port: self.port,
            serialization: self.serialization@,
        }
    }
}

/// The serialization `t` begins with the scheme `sc` followed by `:`.
pub open spec fn begins_with_scheme(t: Seq<char>, sc: Seq<char>) -> bool {
    &&& sc.len() < t.len()
    &&& t.take(sc.len() as int) == sc
    &&& t[sc.len() as int] == ':'
}

impl UrlParts {
    pub open spec fn wf(self) -> bool {
        begins_with_scheme(self.serialization, self.scheme)
    }
}

impl ParsedUrl {
    pub open spec fn wf(&self) -> bool {
        self@.wf()
    }
}

/// What the URL parser makes of a string: `None` where it refuses it.
pub uninterp spec fn url_parse(s: Seq<char>) -> Option<UrlParts>;

/// Relies on `url::Url::parse` to parse an absolute URL, and on `Url::scheme`,
/// `Url::has_authority`, `Url::path`, `Url::port` and `Url::as_str` for its parts.
/// `Url::scheme` is the serialization up to the `:` that ends the scheme.
#[verifier::external_body]
pub(crate) fn parse_url(s: &str) -> (r: Option<ParsedUrl>)
    ensures
        match r {
            Some(p) => url_parse(s@) == Some(p@) && p.wf(),
            None => url_parse(s@) is None,
        },
{
    match url::Url::parse(s) {
        Ok(u) => Some(
            ParsedUrl {
                scheme: u.scheme().to_string(),
                has_authority: u.has_authority(),
                path: u.path().to_string(),
                port: u.port(),
                serialization: u.as_str().to_string(),
            },
        ),
        Err(_) => None,
    }
}

} // verus!
