//! The run configuration: where the store lives, which files are
//! eligible, which paths are excluded from submission, and which endpoints
//! receive the change list.
//!
//! A configuration value is built by a validating constructor from plain
//! fields (the file format that supplies them is read elsewhere): it
//! normalizes the base URL to exactly one trailing separator and derives
//! the host name from it, failing when none can be parsed.

use vstd::prelude::*;

verus! {

/// One remote endpoint: its submission URL, the key value, and the URL
/// where the key is published.
#[derive(Debug)]
pub struct EngineConfiguration {
    pub indexnow_url: String,
    pub key_value: String,
    pub key_url: String,
}

/// A validated run configuration. `host` is derived from `base_url`,
/// never supplied; `base_url` ends with exactly one `/`. The engines are
/// named and kept in the order handed to the constructor (callers supply
/// them sorted by name for deterministic output).
#[derive(Debug)]
pub struct Configuration {
    pub database: String,
    pub file_extensions: Option<Vec<String>>,
    pub exclude: Option<Vec<String>>,
    pub base_url: String,
    pub engines: Vec<(String, EngineConfiguration)>,
    pub host: String,
}

/// Why a configuration was rejected.
#[derive(Debug)]
pub enum ConfigError {
    /// The extension allow-list is absent; without it nothing is ever
    /// eligible, which is treated as a configuration mistake.
    MissingExtensions,
    /// No host name can be parsed from the base URL.
    NoHostname,
    /// An exclude pattern is not a valid regular expression; the pattern
    /// is carried along.
    InvalidExclude(String),
}

/// The host name of the URL denoted by `s`, when `s` parses as an
/// absolute URL that has one (a function of the string alone).
pub uninterp spec fn url_host_of(s: Seq<char>) -> Option<Seq<char>>;

/// Relies on `url::Url::parse` and `url::Url::host_str`: the host name of
/// the URL, or none when the string does not parse or has no host.
#[verifier::external_body]
fn host_of_url(s: &str) -> (r: Option<String>)
    ensures
        (r is Some) <==> (url_host_of(s@) is Some),
        r matches Some(h) ==> url_host_of(s@) == Some(h@),
{
    match url::Url::parse(s) {
        Ok(u) => match u.host_str() {
            Some(h) => Some(h.to_string()),
            None => None,
        },
        Err(_) => None,
    }
}

/// `s` with every trailing slash removed.
pub open spec fn trim_trailing_slashes(s: Seq<char>) -> Seq<char>
    decreases s.len(),
{
    if s.len() > 0 && s.last() == '/' {
        trim_trailing_slashes(s.drop_last())
    } else {
        s
    }
}

/// `s` normalized to end with exactly one slash.
pub open spec fn normalized_base_url(s: Seq<char>) -> Seq<char> {
    trim_trailing_slashes(s).push('/')
}

/// Normalizes a base URL to exactly one trailing slash.
pub fn normalize_base_url(s: &str) -> (r: String)
    ensures
        r@ == normalized_base_url(s@),
{
    let mut k: usize = s.unicode_len();
    proof {
        assert(s@.take(k as int) =~= s@);
    }
    while k > 0 && s.get_char(k - 1) == '/'
        invariant
            k <= s@.len(),
            trim_trailing_slashes(s@) == trim_trailing_slashes(s@.take(k as int)),
        decreases k,
    {
        proof {
            assert(s@.take(k as int).drop_last() =~= s@.take(k - 1 as int));
            assert(s@.take(k as int).last() == s@[k - 1]);
        }
        k = k - 1;
    }
    proof {
        if k > 0 {
            assert(s@.take(k as int).last() == s@[k - 1]);
        }
        assert(trim_trailing_slashes(s@) == s@.take(k as int));
    }
    let mut out = String::new();
    out.append(s.substring_char(0, k));
    out.append("/");
    proof {
        reveal_strlit("/");
        assert(s@.subrange(0, k as int) =~= s@.take(k as int));
        assert(s@.take(k as int) + "/"@ =~= trim_trailing_slashes(s@).push('/'));
    }
    out
}

impl Configuration {
    /// Builds a validated configuration from plain fields: requires the
    /// extension allow-list to be present, normalizes the base URL, and
    /// derives the host name from it; fails exactly when the allow-list
    /// is absent or no host name can be parsed.
    pub fn new(
        database: String,
        file_extensions: Option<Vec<String>>,
        exclude: Option<Vec<String>>,
        base_url: String,
        engines: Vec<(String, EngineConfiguration)>,
    ) -> (r: Result<Configuration, ConfigError>)
        ensures
            r is Ok <==> (file_extensions is Some && url_host_of(
                normalized_base_url(base_url@),
            ) is Some),
            r matches Ok(c) ==> c.database == database && c.file_extensions == file_extensions
                && c.exclude == exclude && c.engines == engines && c.base_url@
                == normalized_base_url(base_url@) && url_host_of(c.base_url@) == Some(c.host@),
            r matches Err(e) ==> ((e is MissingExtensions) <==> (file_extensions is None)),
    {
        if file_extensions.is_none() {
            return Err(ConfigError::MissingExtensions);
        }
        let normalized = normalize_base_url(base_url.as_str());
        let host = match host_of_url(normalized.as_str()) {
            Some(h) => h,
            None => {
                return Err(ConfigError::NoHostname);
            },
        };
        Ok(
            Configuration {
                database,
                file_extensions,
                exclude,
                base_url: normalized,
                engines,
                host,
            },
        )
    }
}

} // verus!
