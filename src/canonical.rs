//! Turning user-supplied addresses into fully qualified `http` / `https` addresses.
use vstd::prelude::*;
use vstd::string::*;
use crate::port::{parse_i32, port_text_is_https};
use crate::url_model::{begins_with_scheme, parse_url, url_parse, ParsedUrl, UrlParts};

verus! {

/// The scheme put in front of an address that has none, so that the URL
/// parser reads its host, port and path.
pub open spec fn placeholder_prefix() -> Seq<char> {
    "fake://"@
}

pub open spec fn is_web_scheme(sc: Seq<char>) -> bool {
    sc == "http"@ || sc == "https"@
}

pub open spec fn inferred_scheme(https: bool) -> Seq<char> {
    if https {
        "https"@
    } else {
        "http"@
    }
}

/// What an address that the parser read directly becomes: an `http` or `https`
/// URL is its serialization; another scheme with an authority is refused;
/// otherwise the parser took a host for a scheme and the port text for a path,
/// and the scheme is inferred from that port text.
pub open spec fn canonical_of_parsed(u: UrlParts) -> Option<Seq<char>> {
    if is_web_scheme(u.scheme) {
        Some(u.serialization)
    } else if u.has_authority {
        None
    } else {
        Some(inferred_scheme(port_text_is_https(u.path)) + "://"@ + u.serialization)
    }
}

/// What an address read behind the placeholder scheme becomes: the placeholder
/// is replaced by the scheme that the port implies.
pub open spec fn canonical_of_placeholder(v: UrlParts) -> Seq<char> {
    inferred_scheme(v.port == Some(443u16)) + v.serialization.skip(v.scheme.len() as int)
}

/// The fully qualified `http` / `https` form of the address `s`, or `None`
/// where `s` is refused.
pub open spec fn canonical_address(s: Seq<char>) -> Option<Seq<char>> {
    match url_parse(s) {
        Some(u) => canonical_of_parsed(u),
        None => match url_parse(placeholder_prefix() + s) {
            Some(v) => Some(canonical_of_placeholder(v)),
            None => None,
        },
    }
}

/// `s` names no scheme of its own: the parser refuses it, or reads a scheme
/// that is neither `http` nor `https` with no authority after it.
pub open spec fn schemeless(s: Seq<char>) -> bool {
    match url_parse(s) {
        Some(u) => !is_web_scheme(u.scheme) && !u.has_authority,
        None => true,
    }
}

/// The port of a schemeless address `s` is `443`.
pub open spec fn schemeless_port_is_443(s: Seq<char>) -> bool {
    match url_parse(s) {
        Some(u) => port_text_is_https(u.path),
        None => match url_parse(placeholder_prefix() + s) {
            Some(v) => v.port == Some(443u16),
            None => false,
        },
    }
}

/// `s` is a URL with an explicit `http` or `https` scheme.
pub open spec fn valid_http(s: Seq<char>) -> bool {
    match url_parse(s) {
        Some(u) => is_web_scheme(u.scheme),
        None => false,
    }
}

fn is_web_scheme_exec(sc: &String) -> (r: bool)
    ensures
        r == is_web_scheme(sc@),
{
    let http = String::from_str("http");
    let https = String::from_str("https");
    *sc == http || *sc == https
}

fn scheme_text(https: bool) -> (r: String)
    ensures
        r@ == inferred_scheme(https),
{
    if https {
        String::from_str("https")
    } else {
        String::from_str("http")
    }
}

/// Decides whether port text names `443`, dropping one trailing character
/// where the text cannot be read as an integer.
pub fn port_is_https(t: &str) -> (r: bool)
    ensures
        r == port_text_is_https(t@),
{
    match parse_i32(t) {
        Some(v) => v == 443,
        None => {
            let n = t.unicode_len();
            if n == 0 {
                false
            } else {
                let shorter = t.substring_char(0, n - 1);
                assert(shorter@ == t@.drop_last());
                match parse_i32(shorter) {
                    Some(v) => v == 443,
                    None => false,
                }
            }
        },
    }
}

/// Canonicalizes an address that the URL parser read directly.
pub fn canonicalize_http_url(url: &ParsedUrl) -> (r: Option<String>)
    requires
        url.wf(),
    ensures
        match r {
            Some(t) => canonical_of_parsed(url@) == Some(t@),
            None => canonical_of_parsed(url@) is None,
        },
{
    if is_web_scheme_exec(&url.scheme) {
        Some(url.serialization.clone())
    } else if url.has_authority {
        None
    } else {
        let mut out = scheme_text(port_is_https(url.path.as_str()));
        out.append("://");
        out.append(url.serialization.as_str());
        Some(out)
    }
}

/// Canonicalizes an address that the URL parser read behind the placeholder
/// scheme: the placeholder gives way to the scheme that the port implies.
pub fn canonicalize_placeholder_url(url: &ParsedUrl) -> (r: String)
    requires
        url.wf(),
    ensures
        r@ == canonical_of_placeholder(url@),
{
    let mut out = scheme_text(url.port == Some(443u16));
    let ser = url.serialization.as_str();
    let rest = ser.substring_char(url.scheme.as_str().unicode_len(), ser.unicode_len());
    assert(rest@ == url.serialization@.skip(url.scheme@.len() as int));
    out.append(rest);
    out
}

/// Returns the fully qualified `http` / `https` form of the address `s`, or
/// `None` where `s` names another scheme or cannot be parsed.
pub fn canonicalize_http_address(s: &String) -> (r: Option<String>)
    ensures
        match r {
            Some(t) => canonical_address(s@) == Some(t@),
            None => canonical_address(s@) is None,
        },
        // an explicit `http` or `https` scheme is kept
        valid_http(s@) ==> r is Some && begins_with_scheme(r->0@, url_parse(s@)->0.scheme),
        // an explicit other scheme followed by an authority is refused
        url_parse(s@) matches Some(u) && !is_web_scheme(u.scheme) && u.has_authority ==> r is None,
        // an address without a scheme gets `https` for port 443, `http` otherwise
        schemeless(s@) && (url_parse(s@) is Some || url_parse(placeholder_prefix() + s@) is Some)
            ==> r is Some && begins_with_scheme(r->0@, inferred_scheme(schemeless_port_is_443(s@))),
{
    proof {
        reveal_strlit("://");
    }
    match parse_url(s.as_str()) {
        Some(u) => {
            let r = canonicalize_http_url(&u);
            proof {
                if !is_web_scheme(u@.scheme) && !u@.has_authority {
                    let sc = inferred_scheme(port_text_is_https(u@.path));
                    let t = sc + "://"@ + u@.serialization;
                    assert(t.take(sc.len() as int) == sc);
                    assert(t[sc.len() as int] == ':');
                }
            }
            r
        },
        None => {
            let mut prefixed = String::from_str("fake://");
            prefixed.append(s.as_str());
            match parse_url(prefixed.as_str()) {
                Some(v) => {
                    let t = canonicalize_placeholder_url(&v);
                    proof {
                        let sc = inferred_scheme(v@.port == Some(443u16));
                        let k = v@.scheme.len() as int;
                        assert(t@.take(sc.len() as int) == sc);
                        assert(t@[sc.len() as int] == v@.serialization[k]);
                    }
                    Some(t)
                },
                None => None,
            }
        },
    }
}

/// Returns `s` itself where it is a URL with an explicit `http` or `https`
/// scheme (in any case), and `None` otherwise.
pub fn valid_http_url(s: String) -> (r: Option<String>)
    ensures
        match r {
            Some(t) => valid_http(s@) && t@ == s@,
            None => !valid_http(s@),
        },
{
    match parse_url(s.as_str()) {
        Some(u) => {
            if is_web_scheme_exec(&u.scheme) {
                Some(s)
            } else {
                None
            }
        },
        None => None,
    }
}


/// An address that the parser reads as an `http` or `https` URL whose
/// serialization is the address itself is its own canonical form.
pub proof fn lemma_serialized_web_address_is_fixed(t: Seq<char>)
    requires
        url_parse(t) matches Some(u) && is_web_scheme(u.scheme) && u.serialization == t,
    ensures
        canonical_address(t) == Some(t),
{
}

} // verus!
