//! Target resolution: validating the base URL of a scan and resolving each
//! candidate path against it.
//!
//! URL parsing and relative resolution are done by the `url` crate.  The
//! parts of a parsed URL that the validation rules read — scheme, host,
//! port, and the canonical serialization — are carried in [`UrlParts`], a
//! plain-value model, and the validation itself is verified over it.

use vstd::prelude::*;
use crate::text::copy_bytes;
use crate::text::has_prefix;
use crate::text::starts_with_bytes;

verus! {

/// Why a base URL was rejected.
#[derive(Clone, Copy, Debug, PartialEq, Eq, Structural)]
pub enum TargetError {
    /// The string does not parse as a URL at all.
    Malformed,
    /// The scheme does not start with `http`.
    SchemeNotHttp,
    /// The URL carries no host.
    MissingHost,
    /// The port is outside the valid range.
    PortOutOfRange,
}

/// Why a single probe failed; none of these aborts the run.
#[derive(Clone, Copy, Debug, PartialEq, Eq, Structural)]
pub enum ProbeError {
    /// The candidate path could not be resolved against the base URL.
    JoinFailure,
    /// The request exceeded its total timeout.
    Timeout,
    /// The connection could not be established.
    ConnectFailure,
    /// The request failed for another reason.
    RequestFailure,
    /// The response body could not be read.
    BodyReadFailure,
}

/// The parts of a parsed URL that the validation rules read.
pub struct UrlParts {
    /// The scheme, lower-cased by the parser.
    pub scheme: Vec<u8>,
    /// The host, when one is present.
    pub host: Option<Vec<u8>>,
    /// The explicit port, when one is given.
    pub port: Option<u32>,
    /// The canonical serialization, used as the join base.
    pub canonical: Vec<u8>,
}

/// The mathematical model of [`UrlParts`].
#[verifier::ext_equal]
pub ghost struct UrlPartsView {
    pub scheme: Seq<u8>,
    pub host: Option<Seq<u8>>,
    pub port: Option<u32>,
    pub canonical: Seq<u8>,
}

impl View for UrlParts {
    type V = UrlPartsView;

    open spec fn view(&self) -> UrlPartsView {
        UrlPartsView {
            scheme: self.scheme@,
            host: match self.host {
                Some(h) => Some(h@),
                None => None,
            },
            port: self.port,
            canonical: self.canonical@,
        }
    }
}

/// What `url::Url::parse` makes of a string: `None` when it does not parse,
/// otherwise the parts of the parsed URL.  Parsing is a function of the
/// string alone.
pub uninterp spec fn parsed_url(s: Seq<u8>) -> Option<UrlPartsView>;

/// What resolving `path` against the URL parsed from `base` yields, by
/// standard relative-URL resolution: `None` when either step fails,
/// otherwise the canonical serialization of the result.  Resolution is a
/// function of the two strings alone.
pub uninterp spec fn joined_url(base: Seq<u8>, path: Seq<u8>) -> Option<Seq<u8>>;

/// Relies on `url::Url::parse` and its accessors `scheme`, `host_str`,
/// `port`, and `as_str`: parsing is deterministic in the input string, and
/// the accessors read parts of the parsed URL.
#[verifier::external_body]
fn parse_url(raw: &Vec<u8>) -> (r: Option<UrlParts>)
    ensures
        (r is Some) == (parsed_url(raw@) is Some),
        r matches Some(p) ==> parsed_url(raw@) == Some(p@),
{
    let text = String::from_utf8_lossy(raw).into_owned();
    match url::Url::parse(&text) {
        Ok(u) => Some(UrlParts {
            scheme: u.scheme().as_bytes().to_vec(),
            host: u.host_str().map(|h| h.as_bytes().to_vec()),
            port: u.port().map(|p| p as u32),
            canonical: u.as_str().as_bytes().to_vec(),
        }),
        Err(_) => None,
    }
}

/// Relies on `url::Url::parse` and `url::Url::join`: resolving a candidate
/// path against a base URL is deterministic in the two strings.
#[verifier::external_body]
fn url_join(base: &Vec<u8>, path: &Vec<u8>) -> (r: Option<Vec<u8>>)
    ensures
        (r is Some) == (joined_url(base@, path@) is Some),
        r matches Some(u) ==> joined_url(base@, path@) == Some(u@),
{
    let b = String::from_utf8_lossy(base).into_owned();
    let p = String::from_utf8_lossy(path).into_owned();
    match url::Url::parse(&b) {
        Ok(bu) => match bu.join(&p) {
            Ok(u) => Some(u.as_str().as_bytes().to_vec()),
            Err(_) => None,
        },
        Err(_) => None,
    }
}

/// The scheme prefix every accepted target must carry.
pub open spec fn http_prefix() -> Seq<u8> {
    seq![104u8, 116u8, 116u8, 112u8]
}

fn http_prefix_vec() -> (r: Vec<u8>)
    ensures
        r@ == http_prefix(),
{
    let mut r: Vec<u8> = Vec::new();
    r.push(104);
    r.push(116);
    r.push(116);
    r.push(112);
    proof {
        assert(r@ =~= http_prefix());
    }
    r
}

/// The verdict on the parts of a parsed URL: the scheme must start with
/// `http`, a host must be present, and an explicit port must be in range;
/// an accepted target is its canonical serialization.
pub open spec fn validate_parts_spec(p: UrlPartsView) -> Result<Seq<u8>, TargetError> {
    if !has_prefix(p.scheme, http_prefix()) {
        Err(TargetError::SchemeNotHttp)
    } else if p.host is None {
        Err(TargetError::MissingHost)
    } else if p.port matches Some(q) && q > 65535 {
        Err(TargetError::PortOutOfRange)
    } else {
        Ok(p.canonical)
    }
}

/// Validate the parts of a parsed URL, following [`validate_parts_spec`]
/// exactly.
pub fn validate_parts(p: &UrlParts) -> (r: Result<Vec<u8>, TargetError>)
    ensures
        match r {
            Ok(c) => validate_parts_spec(p@) == Ok::<Seq<u8>, TargetError>(c@),
            Err(e) => validate_parts_spec(p@) == Err::<Seq<u8>, TargetError>(e),
        },
{
    let http = http_prefix_vec();
    if !starts_with_bytes(&p.scheme, &http) {
        return Err(TargetError::SchemeNotHttp);
    }
    if p.host.is_none() {
        return Err(TargetError::MissingHost);
    }
    match p.port {
        Some(q) => {
            if q > 65535 {
                return Err(TargetError::PortOutOfRange);
            }
        },
        None => {},
    }
    Ok(copy_bytes(&p.canonical))
}

/// Validate a raw target URL: reject what does not parse, then apply the
/// scheme, host, and port rules; an accepted target is returned in the
/// canonical form used as the join base for every probe.
pub fn validate_url(raw: &Vec<u8>) -> (r: Result<Vec<u8>, TargetError>)
    ensures
        parsed_url(raw@) is None ==> r == Err::<Vec<u8>, TargetError>(TargetError::Malformed),
        parsed_url(raw@) matches Some(p) ==> (match r {
            Ok(c) => validate_parts_spec(p) == Ok::<Seq<u8>, TargetError>(c@),
            Err(e) => validate_parts_spec(p) == Err::<Seq<u8>, TargetError>(e),
        }),
{
    match parse_url(raw) {
        None => Err(TargetError::Malformed),
        Some(parts) => validate_parts(&parts),
    }
}

/// Resolve one candidate path against the validated base URL; a failure is
/// the per-path `JoinFailure`, never fatal to the run.
pub fn resolve_probe_url(base: &Vec<u8>, path: &Vec<u8>) -> (r: Result<Vec<u8>, ProbeError>)
    ensures
        (r is Ok) == (joined_url(base@, path@) is Some),
        r matches Ok(u) ==> joined_url(base@, path@) == Some(u@),
        r is Err ==> r == Err::<Vec<u8>, ProbeError>(ProbeError::JoinFailure),
{
    match url_join(base, path) {
        Some(u) => Ok(u),
        None => Err(ProbeError::JoinFailure),
    }
}

} // verus!
