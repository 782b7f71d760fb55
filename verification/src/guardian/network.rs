//! Network Firewall for Guardian
//! Controls and monitors all network requests

use vstd::prelude::*;
use super::console::GuardianConsole;
use crate::string::functions::views;
use crate::strlist::{copy_list, list_contains, list_insert, list_remove, list_set, owned};
use crate::text::{chars_of, find_from, find_from_exec, has_prefix, occurs_at_exec, string_of_range, lemma_find_from};

verus! {

broadcast use vstd::string::group_string_axioms;

/// Network firewall configuration
pub struct NetworkConfig {
    pub allowed_domains: Vec<String>,
    pub blocked_domains: Vec<String>,
    pub allow_localhost: bool,
    pub require_approval: bool,
}

impl NetworkConfig {
    /// Two configurations hold the same lists and flags.
    pub open spec fn same_as(&self, other: &NetworkConfig) -> bool {
        &&& self.allowed_domains@ == other.allowed_domains@
        &&& self.blocked_domains@ == other.blocked_domains@
        &&& self.allow_localhost == other.allow_localhost
        &&& self.require_approval == other.require_approval
    }

    /// The whitelist as a set of domains.
    pub open spec fn allowed(&self) -> Set<Seq<char>> {
        list_set(self.allowed_domains@)
    }

    /// The blacklist as a set of domains.
    pub open spec fn blocked(&self) -> Set<Seq<char>> {
        list_set(self.blocked_domains@)
    }
}

impl Clone for NetworkConfig {
    fn clone(&self) -> (r: Self)
        ensures
            r.same_as(self),
    {
        NetworkConfig {
            allowed_domains: copy_list(&self.allowed_domains),
            blocked_domains: copy_list(&self.blocked_domains),
            allow_localhost: self.allow_localhost,
            require_approval: self.require_approval,
        }
    }
}

impl Default for NetworkConfig {
    /// An empty whitelist, a blacklist of three known-bad domains, localhost
    /// allowed and owner approval required.
    fn default() -> (c: Self)
        ensures
            views(c.allowed_domains@) == Seq::<Seq<char>>::empty(),
            views(c.blocked_domains@) == seq!["malware.com"@, "phishing.net"@, "evil.com"@],
            c.allow_localhost,
            c.require_approval,
    {
        let mut blocked: Vec<String> = Vec::new();
        blocked.push(owned("malware.com"));
        blocked.push(owned("phishing.net"));
        blocked.push(owned("evil.com"));
        let c = NetworkConfig {
            allowed_domains: Vec::new(),
            blocked_domains: blocked,
            allow_localhost: true,
            require_approval: true,
        };
        proof {
            assert(views(c.allowed_domains@) =~= Seq::<Seq<char>>::empty());
            assert(views(c.blocked_domains@) =~= seq!["malware.com"@, "phishing.net"@, "evil.com"@]);
        }
        c
    }
}

/// Network request info
pub struct NetworkRequest {
    pub url: String,
    pub domain: String,
    pub method: String,
    pub timestamp: u64,
}

impl Clone for NetworkRequest {
    fn clone(&self) -> (r: Self)
        ensures
            r == *self,
    {
        NetworkRequest {
            url: self.url.clone(),
            domain: self.domain.clone(),
            method: self.method.clone(),
            timestamp: self.timestamp,
        }
    }
}

/// Why a URL is allowed or blocked, or that the owner must decide.
#[derive(PartialEq, Eq, Structural)]
pub enum UrlVerdict {
    /// The host is `localhost` or `127.0.0.1` and localhost is allowed.
    LocalhostAllowed,
    /// The domain is blacklisted: blocked, and the owner is alerted.
    Blacklisted,
    /// The domain is whitelisted: allowed.
    Whitelisted,
    /// The domain is in neither list and approval is required: the owner
    /// is asked.
    NeedsApproval,
    /// The domain is in neither list and no approval is required: allowed.
    AllowedByDefault,
    /// The owner would have to be asked, but nobody is (interactive mode is
    /// off): blocked without asking.
    DeniedWithoutOwner,
}

impl UrlVerdict {
    /// The decision, where the firewall takes it without the owner.
    pub open spec fn decision(self) -> Option<bool> {
        match self {
            UrlVerdict::LocalhostAllowed => Some(true),
            UrlVerdict::Blacklisted => Some(false),
            UrlVerdict::Whitelisted => Some(true),
            UrlVerdict::NeedsApproval => None,
            UrlVerdict::AllowedByDefault => Some(true),
            UrlVerdict::DeniedWithoutOwner => Some(false),
        }
    }

    /// The decision, where the firewall takes it without the owner.
    pub fn decided(&self) -> (r: Option<bool>)
        ensures
            r == self.decision(),
    {
        match self {
            UrlVerdict::LocalhostAllowed => Some(true),
            UrlVerdict::Blacklisted => Some(false),
            UrlVerdict::Whitelisted => Some(true),
            UrlVerdict::NeedsApproval => None,
            UrlVerdict::AllowedByDefault => Some(true),
            UrlVerdict::DeniedWithoutOwner => Some(false),
        }
    }
}

/// `s` with every leading copy of the non-empty `p` removed
/// (`str::trim_start_matches`).
pub open spec fn strip_all_prefix(s: Seq<char>, p: Seq<char>) -> Seq<char>
    decreases s.len(),
    when p.len() > 0
{
    if has_prefix(s, p) {
        strip_all_prefix(s.skip(p.len() as int), p)
    } else {
        s
    }
}

/// The text of `s` before the first `c`, or all of `s` if there is none
/// (`s.split(c).next()`).
pub open spec fn before_char(s: Seq<char>, c: char) -> Seq<char> {
    match find_from(s, seq![c], 0) {
        Some(i) => s.take(i),
        None => s,
    }
}

/// The domain of a URL: without leading `http://` and then `https://`
/// prefixes, up to the first `/`, and up to the first `:`.
pub open spec fn domain_of(url: Seq<char>) -> Seq<char> {
    let rest = strip_all_prefix(strip_all_prefix(url, "http://"@), "https://"@);
    before_char(before_char(rest, '/'), ':')
}

pub open spec fn is_localhost(domain: Seq<char>) -> bool {
    domain == "localhost"@ || domain == "127.0.0.1"@
}

/// The verdict of `check_url` for a domain under a configuration.
pub open spec fn url_verdict(config: NetworkConfig, domain: Seq<char>) -> UrlVerdict {
    if is_localhost(domain) && config.allow_localhost {
        UrlVerdict::LocalhostAllowed
    } else if config.blocked().contains(domain) {
        UrlVerdict::Blacklisted
    } else if config.allowed().contains(domain) {
        UrlVerdict::Whitelisted
    } else if config.require_approval {
        UrlVerdict::NeedsApproval
    } else {
        UrlVerdict::AllowedByDefault
    }
}

/// Removes every leading copy of `p` from `v[start..]`.
fn skip_all_prefix(v: &Vec<char>, p: &Vec<char>, start: usize) -> (i: usize)
    requires
        p.len() > 0,
        start <= v.len(),
    ensures
        start <= i <= v.len(),
        v@.skip(i as int) == strip_all_prefix(v@.skip(start as int), p@),
{
    let mut i = start;
    while occurs_at_exec(v, p, i)
        invariant
            p.len() > 0,
            start <= i <= v.len(),
            strip_all_prefix(v@.skip(start as int), p@) == strip_all_prefix(
                v@.skip(i as int),
                p@,
            ),
        decreases v.len() - i,
    {
        proof {
            assert(v@.skip(i as int).subrange(0, p@.len() as int) == v@.subrange(
                i as int,
                i + p@.len(),
            ));
            assert(v@.skip(i as int).skip(p@.len() as int) == v@.skip(i + p@.len()));
        }
        i = i + p.len();
    }
    proof {
        if has_prefix(v@.skip(i as int), p@) {
            assert(v@.skip(i as int).subrange(0, p@.len() as int) == v@.subrange(
                i as int,
                i + p@.len(),
            ));
        }
    }
    i
}

/// End of the text of `v[start..]` before the first `c`.
fn end_before(v: &Vec<char>, start: usize, end: usize, c: char) -> (j: usize)
    requires
        start <= end <= v.len(),
    ensures
        start <= j <= end,
        v@.subrange(start as int, j as int) == before_char(v@.subrange(start as int, end as int), c),
{
    let ghost w = v@.subrange(start as int, end as int);
    let mut k = start;
    while k < end && v[k] != c
        invariant
            start <= k <= end,
            end <= v.len(),
            forall|m: int| start <= m < k ==> v@[m] != c,
        decreases end - k,
    {
        k = k + 1;
    }
    proof {
        lemma_find_from(w, seq![c], 0);
        if k < end {
            assert(w.subrange(k - start, k - start + 1) =~= seq![c]);
            assert(crate::text::occurs_at(w, seq![c], k - start));
            assert forall|m: int| 0 <= m < k - start implies !crate::text::occurs_at(w, seq![c], m) by {
                assert(w.subrange(m, m + 1)[0] == v@[start + m]);
            }
            assert(find_from(w, seq![c], 0) == Some(k - start));
            assert(w.take(k - start) =~= v@.subrange(start as int, k as int));
        } else {
            assert forall|m: int| 0 <= m implies !crate::text::occurs_at(w, seq![c], m) by {
                if 0 <= m < w.len() {
                    assert(w.subrange(m, m + 1)[0] == v@[start + m]);
                }
            }
            assert(find_from(w, seq![c], 0) is None);
        }
    }
    k
}

/// Network Firewall - Controls all HTTP/HTTPS requests
pub struct NetworkFirewall {
    config: NetworkConfig,
    console: GuardianConsole,
    request_log: Vec<NetworkRequest>,
}

impl NetworkFirewall {
    /// The current configuration.
    pub closed spec fn spec_config(&self) -> NetworkConfig {
        self.config
    }

    /// The requests logged so far, oldest first.
    pub closed spec fn spec_log(&self) -> Seq<NetworkRequest> {
        self.request_log@
    }

    /// Create new network firewall
    pub fn new(config: NetworkConfig) -> (f: Self)
        ensures
            f.spec_config() == config,
            f.spec_log() == Seq::<NetworkRequest>::empty(),
    {
        NetworkFirewall { config, console: GuardianConsole::new(), request_log: Vec::new() }
    }

    /// Check if a URL is allowed: the verdict for its domain.  Blacklisted
    /// domains are blocked and whitelisted ones allowed; localhost is allowed
    /// when configured; any other domain is allowed without asking unless
    /// approval is required, in which case the owner decides.
    pub fn check_url(&self, url: &str) -> (v: UrlVerdict)
        ensures
            v == url_verdict(self.spec_config(), domain_of(url@)),
    {
        let domain = self.extract_domain(url).unwrap();
        let is_local = crate::text::str_eq(domain.as_str(), "localhost") || crate::text::str_eq(
            domain.as_str(),
            "127.0.0.1",
        );
        if is_local && self.config.allow_localhost {
            return UrlVerdict::LocalhostAllowed;
        }
        if list_contains(&self.config.blocked_domains, domain.as_str()) {
            return UrlVerdict::Blacklisted;
        }
        if list_contains(&self.config.allowed_domains, domain.as_str()) {
            return UrlVerdict::Whitelisted;
        }
        if self.config.require_approval {
            UrlVerdict::NeedsApproval
        } else {
            UrlVerdict::AllowedByDefault
        }
    }

    /// Extract domain from URL: never fails.
    pub fn extract_domain(&self, url: &str) -> (r: Result<String, String>)
        ensures
            r matches Ok(d) && d@ == domain_of(url@),
    {
        let v = chars_of(url);
        let http = chars_of("http://");
        let https = chars_of("https://");
        proof {
            reveal_strlit("http://");
            reveal_strlit("https://");
            assert(v@.skip(0) == v@);
        }
        let a = skip_all_prefix(&v, &http, 0);
        let b = skip_all_prefix(&v, &https, a);
        let ghost rest = v@.skip(b as int);
        let e1 = end_before(&v, b, v.len(), '/');
        let e2 = end_before(&v, b, e1, ':');
        proof {
            assert(v@.subrange(b as int, v@.len() as int) == rest);
        }
        Ok(string_of_range(&v, b, e2))
    }

    /// Add domain to whitelist (and take it off the blacklist).
    pub fn add_to_whitelist(&mut self, domain: &str) -> (r: Result<(), String>)
        ensures
            r is Ok,
            final(self).spec_config().allowed() == old(self).spec_config().allowed().insert(domain@),
            final(self).spec_config().blocked() == old(self).spec_config().blocked().remove(domain@),
            final(self).spec_config().allow_localhost == old(self).spec_config().allow_localhost,
            final(self).spec_config().require_approval == old(self).spec_config().require_approval,
            final(self).spec_log() == old(self).spec_log(),
    {
        list_insert(&mut self.config.allowed_domains, owned(domain));
        list_remove(&mut self.config.blocked_domains, domain);
        Ok(())
    }

    /// Add domain to blacklist (and take it off the whitelist).
    pub fn add_to_blacklist(&mut self, domain: &str) -> (r: Result<(), String>)
        ensures
            r is Ok,
            final(self).spec_config().blocked() == old(self).spec_config().blocked().insert(domain@),
            final(self).spec_config().allowed() == old(self).spec_config().allowed().remove(domain@),
            final(self).spec_config().allow_localhost == old(self).spec_config().allow_localhost,
            final(self).spec_config().require_approval == old(self).spec_config().require_approval,
            final(self).spec_log() == old(self).spec_log(),
    {
        list_insert(&mut self.config.blocked_domains, owned(domain));
        list_remove(&mut self.config.allowed_domains, domain);
        Ok(())
    }

    /// Remove domain from whitelist
    pub fn remove_from_whitelist(&mut self, domain: &str) -> (r: Result<(), String>)
        ensures
            r is Ok,
            final(self).spec_config().allowed() == old(self).spec_config().allowed().remove(domain@),
            final(self).spec_config().blocked() == old(self).spec_config().blocked(),
            final(self).spec_config().allow_localhost == old(self).spec_config().allow_localhost,
            final(self).spec_config().require_approval == old(self).spec_config().require_approval,
            final(self).spec_log() == old(self).spec_log(),
    {
        list_remove(&mut self.config.allowed_domains, domain);
        Ok(())
    }

    /// Remove domain from blacklist
    pub fn remove_from_blacklist(&mut self, domain: &str) -> (r: Result<(), String>)
        ensures
            r is Ok,
            final(self).spec_config().blocked() == old(self).spec_config().blocked().remove(domain@),
            final(self).spec_config().allowed() == old(self).spec_config().allowed(),
            final(self).spec_config().allow_localhost == old(self).spec_config().allow_localhost,
            final(self).spec_config().require_approval == old(self).spec_config().require_approval,
            final(self).spec_log() == old(self).spec_log(),
    {
        list_remove(&mut self.config.blocked_domains, domain);
        Ok(())
    }

    /// Log a network request
    pub fn log_request(&mut self, request: NetworkRequest)
        ensures
            final(self).spec_log() == old(self).spec_log().push(request),
            final(self).spec_config() == old(self).spec_config(),
    {
        self.request_log.push(request);
    }

    /// Get request log
    pub fn get_request_log(&self) -> (r: Vec<NetworkRequest>)
        ensures
            r@ == self.spec_log(),
    {
        let mut r: Vec<NetworkRequest> = Vec::new();
        let mut i: usize = 0;
        while i < self.request_log.len()
            invariant
                i <= self.request_log.len(),
                r@ == self.request_log@.take(i as int),
            decreases self.request_log.len() - i,
        {
            r.push(self.request_log[i].clone());
            proof {
                assert(self.request_log@.take(i + 1) == self.request_log@.take(i as int).push(
                    self.request_log@[i as int],
                ));
            }
            i = i + 1;
        }
        proof {
            assert(self.request_log@.take(self.request_log@.len() as int) == self.request_log@);
        }
        r
    }

    /// Get configuration
    pub fn get_config(&self) -> (c: NetworkConfig)
        ensures
            c.same_as(&self.spec_config()),
    {
        self.config.clone()
    }

    /// Update configuration
    pub fn update_config(&mut self, config: NetworkConfig)
        ensures
            final(self).spec_config() == config,
            final(self).spec_log() == old(self).spec_log(),
    {
        self.config = config;
    }
}

// ---------------------------------------------------------------------
// Laws
// ---------------------------------------------------------------------

/// A blacklisted domain is blocked, whatever the whitelist says, unless it
/// is a localhost name and localhost is allowed.
pub proof fn law_blacklist_wins(config: NetworkConfig, domain: Seq<char>)
    requires
        config.blocked().contains(domain),
        !(is_localhost(domain) && config.allow_localhost),
    ensures
        url_verdict(config, domain) == UrlVerdict::Blacklisted,
{
}

/// After `add_to_whitelist(domain)` (which takes the domain off the
/// blacklist), requests to the domain are allowed without asking.
pub proof fn law_whitelisted_domain_allowed(
    before: NetworkConfig,
    after: NetworkConfig,
    domain: Seq<char>,
)
    requires
        after.allowed() == before.allowed().insert(domain),
        after.blocked() == before.blocked().remove(domain),
        after.allow_localhost == before.allow_localhost,
        after.require_approval == before.require_approval,
    ensures
        url_verdict(after, domain).decision() == Some(true),
{
}

/// After `add_to_blacklist(domain)`, requests to the domain are blocked,
/// unless it is a localhost name and localhost is allowed.
pub proof fn law_blacklisted_domain_blocked(
    before: NetworkConfig,
    after: NetworkConfig,
    domain: Seq<char>,
)
    requires
        after.blocked() == before.blocked().insert(domain),
        after.allowed() == before.allowed().remove(domain),
        after.allow_localhost == before.allow_localhost,
        after.require_approval == before.require_approval,
        !(is_localhost(domain) && after.allow_localhost),
    ensures
        url_verdict(after, domain) == UrlVerdict::Blacklisted,
{
}

/// A domain in neither list is allowed without asking exactly when no
/// approval is required.
pub proof fn law_unknown_domain(config: NetworkConfig, domain: Seq<char>)
    requires
        !config.blocked().contains(domain),
        !config.allowed().contains(domain),
        !(is_localhost(domain) && config.allow_localhost),
    ensures
        url_verdict(config, domain).decision() == if config.require_approval {
            None::<bool>
        } else {
            Some(true)
        },
{
}

} // verus!
