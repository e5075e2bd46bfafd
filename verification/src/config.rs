//! Runtime configuration: the upstream target, the admission threshold and
//! the switch of the cache layer.

use hyper::http::uri::InvalidUri;
use hyper::Uri;
use vstd::prelude::*;

verus! {

/// The threshold that holds where none is configured.
pub const DEFAULT_STATUS_CODE_THRESHOLD: u16 = 599;

/// The opaque error of the `http` crate's URI parser.
#[verifier::external_type_specification]
#[verifier::external_body]
pub struct ExInvalidUri(InvalidUri);

/// What the `http` crate's parser makes of `text`: `None` where it rejects
/// the text, else the scheme and the authority of the URI, each where the
/// URI has one.
pub uninterp spec fn uri_parts(text: Seq<char>) -> Option<(Option<Seq<char>>, Option<Seq<char>>)>;

/// The model of an optional string.
pub open spec fn text_view(text: Option<String>) -> Option<Seq<char>> {
    match text {
        Some(t) => Some(t@),
        None => None,
    }
}

/// The model of what the parser gave.
pub open spec fn parts_view(r: Result<(Option<String>, Option<String>), InvalidUri>) -> Option<
    (Option<Seq<char>>, Option<Seq<char>>),
> {
    match r {
        Ok(parts) => Some((text_view(parts.0), text_view(parts.1))),
        Err(_) => None,
    }
}

/// Parses `text` with `Uri::try_from` and reads the scheme with
/// `Uri::scheme_str` and the authority with `Uri::authority`. Trusted: the
/// result is what `uri_parts` names.
#[verifier::external_body]
fn parse_uri_parts(text: &str) -> (r: Result<(Option<String>, Option<String>), InvalidUri>)
    ensures
        parts_view(r) == uri_parts(text@),
{
    match Uri::try_from(text) {
        Ok(uri) => Ok(
            (
                uri.scheme_str().map(|s| s.to_string()),
                uri.authority().map(|a| a.as_str().to_string()),
            ),
        ),
        Err(e) => Err(e),
    }
}

/// Why a configuration names no usable upstream.
#[derive(Debug, PartialEq, Eq)]
pub enum ConfigError {
    /// The text is no URI.
    InvalidUri,
    /// The URI lacks a scheme or an authority.
    NotAbsolute,
}

/// The upstream target: where misses are forwarded to.
#[derive(Debug, PartialEq, Eq)]
pub struct Upstream {
    pub scheme: String,
    pub authority: String,
}

/// Mathematical model of an [`Upstream`].
pub ghost struct UpstreamView {
    pub scheme: Seq<char>,
    pub authority: Seq<char>,
}

impl View for Upstream {
    type V = UpstreamView;

    open spec fn view(&self) -> UpstreamView {
        UpstreamView { scheme: self.scheme@, authority: self.authority@ }
    }
}

/// The upstream that the parts of a URI make, or the reason why they make
/// none: `None` stands for a text that is no URI, and an upstream needs
/// both a scheme and an authority.
pub open spec fn upstream_of_parts(
    parts: Option<(Option<Seq<char>>, Option<Seq<char>>)>,
) -> Result<UpstreamView, ConfigError> {
    match parts {
        None => Err(ConfigError::InvalidUri),
        Some((Some(scheme), Some(authority))) => Ok(UpstreamView { scheme, authority }),
        Some(_) => Err(ConfigError::NotAbsolute),
    }
}

/// The upstream that a proxy text names, or the reason why it names none.
pub open spec fn upstream_of(text: Seq<char>) -> Result<UpstreamView, ConfigError> {
    upstream_of_parts(uri_parts(text))
}

/// The model of the parts of a URI, `None` where the text was no URI.
pub open spec fn owned_parts_view(parts: Option<(Option<String>, Option<String>)>) -> Option<
    (Option<Seq<char>>, Option<Seq<char>>),
> {
    match parts {
        Some(p) => Some((text_view(p.0), text_view(p.1))),
        None => None,
    }
}

/// Makes the upstream from the parts of a parsed URI; `None` stands for a
/// text that is no URI.
pub fn upstream_from_parts(parts: Option<(Option<String>, Option<String>)>) -> (r: Result<
    Upstream,
    ConfigError,
>)
    ensures
        match r {
            Ok(upstream) => upstream_of_parts(owned_parts_view(parts)) matches Ok(u) && u
                == upstream@,
            Err(e) => upstream_of_parts(owned_parts_view(parts)) matches Err(x) && x == e,
        },
{
    match parts {
        None => Err(ConfigError::InvalidUri),
        Some((Some(scheme), Some(authority))) => Ok(Upstream { scheme, authority }),
        Some(_) => Err(ConfigError::NotAbsolute),
    }
}

/// The settings, each optional: what is absent keeps its default, or what
/// an earlier configuration set.
#[derive(Debug, PartialEq, Eq)]
pub struct Config {
    /// The upstream, as a URI with scheme and authority.
    pub proxy: Option<String>,
    /// Responses with a status below this are stored.
    pub status_code_threshold: Option<u16>,
    /// Whether the cache layer is on.
    pub enabled: Option<bool>,
}

impl Default for Config {
    fn default() -> (r: Config)
        ensures
            r.proxy is None,
            r.status_code_threshold is None,
            r.enabled is None,
    {
        Config { proxy: None, status_code_threshold: None, enabled: None }
    }
}

impl Clone for Config {
    fn clone(&self) -> (r: Config)
        ensures
            r == *self,
    {
        let proxy = match &self.proxy {
            Some(p) => Some(p.clone()),
            None => None,
        };
        Config { proxy, status_code_threshold: self.status_code_threshold, enabled: self.enabled }
    }
}

impl Config {
    /// The admission threshold in force.
    pub open spec fn threshold_spec(&self) -> u16 {
        match self.status_code_threshold {
            Some(t) => t,
            None => DEFAULT_STATUS_CODE_THRESHOLD,
        }
    }

    /// Whether the cache layer is on. It is, unless switched off.
    pub open spec fn enabled_spec(&self) -> bool {
        match self.enabled {
            Some(e) => e,
            None => true,
        }
    }

    /// The admission threshold in force: the configured one, else 599.
    #[verifier::when_used_as_spec(threshold_spec)]
    pub fn threshold(&self) -> (t: u16)
        ensures
            t == self.threshold_spec(),
    {
        match self.status_code_threshold {
            Some(t) => t,
            None => DEFAULT_STATUS_CODE_THRESHOLD,
        }
    }

    /// Whether the cache layer is on.
    #[verifier::when_used_as_spec(enabled_spec)]
    pub fn cache_enabled(&self) -> (e: bool)
        ensures
            e == self.enabled_spec(),
    {
        match self.enabled {
            Some(e) => e,
            None => true,
        }
    }

    /// Takes over each setting that `another` holds and keeps the others.
    pub fn apply(&mut self, another: Config)
        ensures
            final(self).enabled == if another.enabled is Some {
                another.enabled
            } else {
                old(self).enabled
            },
            final(self).proxy == if another.proxy is Some {
                another.proxy
            } else {
                old(self).proxy
            },
            final(self).status_code_threshold == if another.status_code_threshold is Some {
                another.status_code_threshold
            } else {
                old(self).status_code_threshold
            },
    {
        if another.enabled.is_some() {
            self.enabled = another.enabled;
        }
        if another.proxy.is_some() {
            self.proxy = another.proxy;
        }
        if another.status_code_threshold.is_some() {
            self.status_code_threshold = another.status_code_threshold;
        }
    }

    /// The upstream that `proxy` names. The text must parse as a URI and
    /// hold a scheme and an authority.
    pub fn get_uri(&self) -> (r: Result<Upstream, ConfigError>)
        requires
            self.proxy is Some,
        ensures
            match r {
                Ok(upstream) => upstream_of(self.proxy->0@) matches Ok(u) && u == upstream@,
                Err(e) => upstream_of(self.proxy->0@) matches Err(x) && x == e,
            },
    {
        match &self.proxy {
            Some(text) => match parse_uri_parts(text.as_str()) {
                Ok(parts) => upstream_from_parts(Some(parts)),
                Err(_) => upstream_from_parts(None),
            },
            None => Err(ConfigError::InvalidUri),
        }
    }
}

} // verus!
