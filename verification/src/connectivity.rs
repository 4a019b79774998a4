//! Whether the remote store can be reached: the address that is probed, and
//! the cache that bounds how often it is.

use crate::text::{
    append, append_str, chars_of, copy_str, ends_with, has_suffix, lower, same_chars, same_text,
    split, split_on, string_of, to_lower, views,
};
use vstd::prelude::*;

verus! {

/// For how many milliseconds the answer of a probe is taken to hold.
pub const CACHE_WINDOW_MS: u64 = 5000;

/// After how many seconds a probe that got no answer is given up.
pub const PROBE_TIMEOUT_SECS: u64 = 20;

/// The path at which the remote store is probed.
pub const PROBE_PATH: &'static str = "/v2";

/// The longest address, counted in characters with the host that is to
/// replace its own, that is rewritten. A `Url` stops the process where a
/// change makes its text longer than four gigabytes, and how much longer a
/// host or a path makes it depends on how they are encoded; this bound
/// leaves room for every encoding.
pub const MAX_URL_LEN: usize = 0x00ff_ffff;

#[verifier::external_type_specification]
#[verifier::external_body]
pub struct ExUrl(url::Url);

/// The serialization of an address: the text that `Url::as_str` gives.
pub uninterp spec fn url_text(u: url::Url) -> Seq<char>;

/// What `Url::parse` makes of a text: the address it describes, or the
/// message of the error.
pub uninterp spec fn url_parse(input: Seq<char>) -> Result<url::Url, Seq<char>>;

/// The domain name that is the host of an address, as `Url::domain` gives
/// it.
pub uninterp spec fn url_domain(u: url::Url) -> Option<Seq<char>>;

/// The address after `Url::set_host` was called on it with a host.
pub uninterp spec fn url_after_set_host(u: url::Url, host: Seq<char>) -> url::Url;

/// The address after `Url::set_path` was called on it.
pub uninterp spec fn url_after_set_path(u: url::Url, path: Seq<char>) -> url::Url;

/// The address after `Url::set_query` was called on it with no query.
pub uninterp spec fn url_after_clear_query(u: url::Url) -> url::Url;

/// The address after `Url::set_fragment` was called on it with no fragment.
pub uninterp spec fn url_after_clear_fragment(u: url::Url) -> url::Url;

/// `url::Url::parse`: the address that the text describes, or the parser's
/// error as the text it displays.
#[verifier::external_body]
fn parse_url(input: &str) -> (r: Result<url::Url, String>)
    ensures
        match r {
            Ok(u) => url_parse(input@) == Ok::<url::Url, Seq<char>>(u),
            Err(e) => url_parse(input@) == Err::<url::Url, Seq<char>>(e@),
        },
{
    url::Url::parse(input).map_err(|e| e.to_string())
}

/// `Url`'s `to_string`: the serialization of the address.
#[verifier::external_body]
fn url_to_string(u: &url::Url) -> (r: String)
    ensures
        r@ == url_text(*u),
{
    u.to_string()
}

/// `Url::domain`: the host of the address where it is a domain name.
#[verifier::external_body]
fn domain_of_url(u: &url::Url) -> (r: Option<String>)
    ensures
        match r {
            Some(d) => url_domain(*u) == Some(d@),
            None => url_domain(*u) is None,
        },
{
    u.domain().map(|d| d.to_string())
}

/// `Url::set_host` with a host; whether it took the host is not reported.
/// The address has to stay well under the four gigabytes that a `Url` can
/// hold.
#[verifier::external_body]
fn set_url_host(u: &mut url::Url, host: &str)
    requires
        url_text(*old(u)).len() + host@.len() <= MAX_URL_LEN,
    ensures
        *final(u) == url_after_set_host(*old(u), host@),
{
    let _ = u.set_host(Some(host));
}

/// `Url::set_path`. The address has to stay well under the four gigabytes
/// that a `Url` can hold.
#[verifier::external_body]
fn set_url_path(u: &mut url::Url, path: &str)
    requires
        url_text(*old(u)).len() + path@.len() <= MAX_URL_LEN,
    ensures
        *final(u) == url_after_set_path(*old(u), path@),
{
    u.set_path(path);
}

/// `Url::set_query` with no query.
#[verifier::external_body]
fn clear_url_query(u: &mut url::Url)
    ensures
        *final(u) == url_after_clear_query(*old(u)),
{
    u.set_query(None);
}

/// `Url::set_fragment` with no fragment.
#[verifier::external_body]
fn clear_url_fragment(u: &mut url::Url)
    ensures
        *final(u) == url_after_clear_fragment(*old(u)),
{
    u.set_fragment(None);
}

/// The host that stands for a domain name: `localhost` for that name and
/// for every name under it, whatever the case of its letters; else the last
/// two labels of the name; a name of one label is itself.
pub open spec fn canonical_host(domain: Seq<char>) -> Seq<char> {
    if has_suffix(lower(domain), ".localhost"@) || lower(domain) == "localhost"@ {
        "localhost"@
    } else {
        let parts = split(domain, '.');
        if parts.len() >= 2 {
            parts[parts.len() - 2] + "."@ + parts[parts.len() - 1]
        } else {
            domain
        }
    }
}

/// The host that stands for a domain name.
pub fn canonical_host_of(domain: &str) -> (r: String)
    ensures
        r@ == canonical_host(domain@),
{
    let d = chars_of(domain);
    let low = to_lower(&d);
    if ends_with(&low, &chars_of(".localhost")) || same_chars(&low, &chars_of("localhost")) {
        return copy_str("localhost");
    }
    let parts = split_on(&d, '.');
    if parts.len() >= 2 {
        let mut out: Vec<char> = Vec::new();
        append(&mut out, &parts[parts.len() - 2]);
        append_str(&mut out, ".");
        append(&mut out, &parts[parts.len() - 1]);
        proof {
            let p = views(parts@);
            assert(p[p.len() - 2] == parts@[parts.len() - 2]@);
            assert(p[p.len() - 1] == parts@[parts.len() - 1]@);
            assert(out@ =~= p[p.len() - 2] + "."@ + p[p.len() - 1]);
        }
        string_of(&out)
    } else {
        copy_str(domain)
    }
}

/// Why an address could not be brought into the form that is probed.
#[derive(Debug, Clone, PartialEq)]
pub enum UrlError {
    /// The text is no address; the message says why.
    Parse(String),
    /// The address is longer than `MAX_URL_LEN` allows.
    TooLong,
}

/// What a `UrlError` stands for.
pub enum UrlErrorView {
    Parse(Seq<char>),
    TooLong,
}

impl View for UrlError {
    type V = UrlErrorView;

    open spec fn view(&self) -> UrlErrorView {
        match *self {
            UrlError::Parse(m) => UrlErrorView::Parse(m@),
            UrlError::TooLong => UrlErrorView::TooLong,
        }
    }
}

/// An address after its host, where that is a domain name, was replaced by
/// the canonical host; nothing where that would make it too long.
pub open spec fn with_canonical_host(u: url::Url) -> Option<url::Url> {
    match url_domain(u) {
        Some(d) => if url_text(u).len() + canonical_host(d).len() <= MAX_URL_LEN {
            Some(url_after_set_host(u, canonical_host(d)))
        } else {
            None
        },
        None => Some(u),
    }
}

/// The address that is probed for an address that has been parsed: its
/// domain replaced by the canonical host, its path by `PROBE_PATH`, its
/// query and fragment taken away; nothing where it is too long for that.
pub open spec fn rewritten(u: url::Url) -> Option<Seq<char>> {
    match with_canonical_host(u) {
        Some(hosted) => if url_text(hosted).len() + PROBE_PATH@.len() <= MAX_URL_LEN {
            Some(
                url_text(
                    url_after_clear_fragment(
                        url_after_clear_query(url_after_set_path(hosted, PROBE_PATH@)),
                    ),
                ),
            )
        } else {
            None
        },
        None => None,
    }
}

/// The address at which the remote store of `input` is probed: `input`
/// parsed and rewritten.
pub open spec fn probe_address(input: Seq<char>) -> Result<Seq<char>, UrlErrorView> {
    match url_parse(input) {
        Err(m) => Err(UrlErrorView::Parse(m)),
        Ok(u) => match rewritten(u) {
            Some(text) => Ok(text),
            None => Err(UrlErrorView::TooLong),
        },
    }
}

/// The rest of `format_url`, for an address that has been parsed.
fn rewrite_url(u: url::Url) -> (r: Result<String, UrlError>)
    ensures
        match r {
            Ok(s) => rewritten(u) == Some(s@),
            Err(e) => e@ == UrlErrorView::TooLong && rewritten(u) is None,
        },
{
    let mut u = u;
    match domain_of_url(&u) {
        Some(d) => {
            let host = canonical_host_of(d.as_str());
            let len = url_to_string(&u).as_str().unicode_len();
            let host_len = host.as_str().unicode_len();
            if len > MAX_URL_LEN || host_len > MAX_URL_LEN - len {
                return Err(UrlError::TooLong);
            }
            set_url_host(&mut u, host.as_str());
        },
        None => {},
    }
    let len = url_to_string(&u).as_str().unicode_len();
    let path_len = PROBE_PATH.unicode_len();
    if len > MAX_URL_LEN || path_len > MAX_URL_LEN - len {
        return Err(UrlError::TooLong);
    }
    set_url_path(&mut u, PROBE_PATH);
    clear_url_query(&mut u);
    clear_url_fragment(&mut u);
    Ok(url_to_string(&u))
}

/// The address at which the remote store of `input_url` is probed.
pub fn format_url(input_url: &str) -> (r: Result<String, UrlError>)
    ensures
        match r {
            Ok(s) => probe_address(input_url@) == Ok::<Seq<char>, UrlErrorView>(s@),
            Err(e) => probe_address(input_url@) == Err::<Seq<char>, UrlErrorView>(e@),
        },
{
    match parse_url(input_url) {
        Err(m) => Err(UrlError::Parse(m)),
        Ok(u) => rewrite_url(u),
    }
}

/// The address to probe for `url`, and nothing where `url` has none: the
/// remote store then counts as out of reach without a probe.
pub fn probe_target(url: &str) -> (r: Option<String>)
    ensures
        match r {
            Some(s) => probe_address(url@) == Ok::<Seq<char>, UrlErrorView>(s@),
            None => probe_address(url@) is Err,
        },
{
    match format_url(url) {
        Ok(s) => Some(s),
        Err(_) => None,
    }
}

/// What a probe found, and when. Times are milliseconds on a clock that
/// never runs backwards.
#[derive(Debug, Clone, Copy, PartialEq, Eq)]
pub struct ConnectivityCache {
    pub last_check: Option<(u64, bool)>,
}

/// The milliseconds that have passed from `then` to `now`; none where the
/// clock shows `now` before `then`.
pub open spec fn elapsed(then: u64, now: u64) -> int {
    if now >= then {
        now - then
    } else {
        0
    }
}

impl ConnectivityCache {
    /// The answer that the cache holds for the time `now`: that of the last
    /// probe, if it is younger than `CACHE_WINDOW_MS`.
    pub open spec fn fresh(self, now: u64) -> Option<bool> {
        match self.last_check {
            Some((then, result)) => if elapsed(then, now) < CACHE_WINDOW_MS {
                Some(result)
            } else {
                None
            },
            None => None,
        }
    }

    /// The cache after a check at `now`: as it was where it held an answer,
    /// and else holding `probed`, the answer of the probe made then.
    pub open spec fn after_check(self, now: u64, probed: bool) -> ConnectivityCache {
        if self.fresh(now) is Some {
            self
        } else {
            ConnectivityCache { last_check: Some((now, probed)) }
        }
    }

    /// A cache that holds no answer.
    pub fn new() -> (r: ConnectivityCache)
        ensures
            r.last_check is None,
    {
        ConnectivityCache { last_check: None }
    }

    /// The answer that the cache holds for the time `now`.
    pub fn lookup(&self, now: u64) -> (r: Option<bool>)
        ensures
            r == self.fresh(now),
    {
        match self.last_check {
            Some((then, result)) => {
                let age: u64 = if now >= then {
                    now - then
                } else {
                    0
                };
                if age < CACHE_WINDOW_MS {
                    Some(result)
                } else {
                    None
                }
            },
            None => None,
        }
    }

    /// Notes the answer of a probe that ended at `now`.
    pub fn record(&mut self, now: u64, result: bool)
        ensures
            final(self).last_check == Some((now, result)),
    {
        self.last_check = Some((now, result));
    }

    /// Of two checks less than `CACHE_WINDOW_MS` apart at most one makes a
    /// probe: where the first made one, the second finds its answer.
    pub proof fn lemma_cache_bound(self, first: u64, probed: bool, second: u64)
        requires
            first <= second,
            second - first < CACHE_WINDOW_MS,
        ensures
            self.fresh(first) is None ==> self.after_check(first, probed).fresh(second) == Some(
                probed,
            ),
            !(self.fresh(first) is None && self.after_check(first, probed).fresh(second) is None),
    {
    }
}

/// What probes found, for every remote store that was probed: one cache
/// for each address of a remote store, whatever connection asked. The host
/// holds one of these for the whole process. Of two entries for one address
/// the later one counts.
#[derive(Debug, Clone, PartialEq)]
pub struct EndpointCaches {
    pub entries: Vec<(String, ConnectivityCache)>,
}

impl EndpointCaches {
    /// The cache that entries hold for an address: that of the last entry
    /// for it, and a cache without an answer where there is none.
    pub open spec fn found(
        entries: Seq<(String, ConnectivityCache)>,
        endpoint: Seq<char>,
    ) -> ConnectivityCache
        decreases entries.len(),
    {
        if entries.len() == 0 {
            ConnectivityCache { last_check: None }
        } else if entries.last().0@ == endpoint {
            entries.last().1
        } else {
            Self::found(entries.drop_last(), endpoint)
        }
    }

    /// The cache of the remote store at `endpoint`.
    pub open spec fn cache_of(&self, endpoint: Seq<char>) -> ConnectivityCache {
        Self::found(self.entries@, endpoint)
    }

    /// These caches are those of `before`, but for the remote store at
    /// `endpoint`, whose cache is `cache`.
    pub open spec fn follows(
        &self,
        before: EndpointCaches,
        endpoint: Seq<char>,
        cache: ConnectivityCache,
    ) -> bool {
        forall|e: Seq<char>| #[trigger]
            self.cache_of(e) == if e == endpoint {
                cache
            } else {
                before.cache_of(e)
            }
    }

    /// Nothing has been probed yet.
    pub fn new() -> (r: EndpointCaches)
        ensures
            r.entries@.len() == 0,
    {
        EndpointCaches { entries: Vec::new() }
    }

    proof fn lemma_found_at(
        entries: Seq<(String, ConnectivityCache)>,
        endpoint: Seq<char>,
        j: int,
    )
        requires
            0 <= j < entries.len(),
            entries[j].0@ == endpoint,
            forall|k: int| j < k < entries.len() ==> entries[k].0@ != endpoint,
        ensures
            Self::found(entries, endpoint) == entries[j].1,
        decreases entries.len(),
    {
        if j < entries.len() - 1 {
            Self::lemma_found_at(entries.drop_last(), endpoint, j);
        }
    }

    proof fn lemma_found_none(entries: Seq<(String, ConnectivityCache)>, endpoint: Seq<char>)
        requires
            forall|k: int| 0 <= k < entries.len() ==> entries[k].0@ != endpoint,
        ensures
            Self::found(entries, endpoint) == (ConnectivityCache { last_check: None }),
        decreases entries.len(),
    {
        if entries.len() > 0 {
            Self::lemma_found_none(entries.drop_last(), endpoint);
        }
    }

    proof fn lemma_found_elsewhere(
        entries: Seq<(String, ConnectivityCache)>,
        j: int,
        entry: (String, ConnectivityCache),
        other: Seq<char>,
    )
        requires
            0 <= j < entries.len(),
            entry.0@ == entries[j].0@,
            other != entry.0@,
        ensures
            Self::found(entries.update(j, entry), other) == Self::found(entries, other),
        decreases entries.len(),
    {
        let changed = entries.update(j, entry);
        if j < entries.len() - 1 {
            assert(changed.drop_last() =~= entries.drop_last().update(j, entry));
            Self::lemma_found_elsewhere(entries.drop_last(), j, entry, other);
        } else {
            assert(changed.drop_last() =~= entries.drop_last());
        }
    }

    fn position(&self, endpoint: &str) -> (r: Option<usize>)
        ensures
            match r {
                Some(j) => j < self.entries@.len() && self.entries@[j as int].0@ == endpoint@
                    && forall|k: int|
                    j < k < self.entries@.len() ==> self.entries@[k].0@ != endpoint@,
                None => forall|k: int|
                    0 <= k < self.entries@.len() ==> self.entries@[k].0@ != endpoint@,
            },
    {
        let mut i: usize = self.entries.len();
        while i > 0
            invariant
                i <= self.entries.len(),
                forall|k: int| i <= k < self.entries@.len() ==> self.entries@[k].0@ != endpoint@,
            decreases i,
        {
            if same_text(self.entries[i - 1].0.as_str(), endpoint) {
                return Some(i - 1);
            }
            i -= 1;
        }
        None
    }

    /// The cache of the remote store at `endpoint`.
    pub fn get(&self, endpoint: &str) -> (r: ConnectivityCache)
        ensures
            r == self.cache_of(endpoint@),
    {
        match self.position(endpoint) {
            Some(j) => {
                proof {
                    Self::lemma_found_at(self.entries@, endpoint@, j as int);
                }
                self.entries[j].1
            },
            None => {
                proof {
                    Self::lemma_found_none(self.entries@, endpoint@);
                }
                ConnectivityCache::new()
            },
        }
    }

    /// Makes `cache` the cache of the remote store at `endpoint`; the caches
    /// of the other remote stores stay as they are.
    pub fn put(&mut self, endpoint: &str, cache: ConnectivityCache)
        ensures
            final(self).follows(*old(self), endpoint@, cache),
    {
        let entry = (copy_str(endpoint), cache);
        match self.position(endpoint) {
            Some(j) => {
                self.entries[j] = entry;
                proof {
                    let before = old(self).entries@;
                    assert(self.entries@ == before.update(j as int, entry));
                    Self::lemma_found_at(self.entries@, endpoint@, j as int);
                    assert forall|e: Seq<char>| e != endpoint@ implies #[trigger] self.cache_of(e)
                        == old(self).cache_of(e) by {
                        Self::lemma_found_elsewhere(before, j as int, entry, e);
                    }
                }
            },
            None => {
                self.entries.push(entry);
                assert(self.entries@.drop_last() =~= old(self).entries@);
            },
        }
    }
}

} // verus!
