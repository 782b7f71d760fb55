//! Guardian Core - Central security manager

use vstd::prelude::*;
use super::console::{approval_error, approval_error_seq, GuardianConsole};
use super::network::{
    domain_of, url_verdict, NetworkConfig, NetworkFirewall, NetworkRequest, UrlVerdict,
};
use crate::strlist::owned;

verus! {

broadcast use vstd::string::group_string_axioms;

/// Guardian configuration
pub struct GuardianConfig {
    pub network: NetworkConfig,
    pub interactive_mode: bool,
    pub log_all_requests: bool,
}

impl Clone for GuardianConfig {
    fn clone(&self) -> (r: Self)
        ensures
            r.network.same_as(&self.network),
            r.interactive_mode == self.interactive_mode,
            r.log_all_requests == self.log_all_requests,
    {
        GuardianConfig {
            network: self.network.clone(),
            interactive_mode: self.interactive_mode,
            log_all_requests: self.log_all_requests,
        }
    }
}

impl Default for GuardianConfig {
    /// The default network configuration, interactive mode on, and every
    /// allowed request logged.
    fn default() -> (c: Self)
        ensures
            crate::string::functions::views(c.network.allowed_domains@) == Seq::<
                Seq<char>,
            >::empty(),
            crate::string::functions::views(c.network.blocked_domains@) == seq![
                "malware.com"@,
                "phishing.net"@,
                "evil.com"@,
            ],
            c.network.allow_localhost,
            c.network.require_approval,
            c.interactive_mode,
            c.log_all_requests,
    {
        GuardianConfig { network: NetworkConfig::default(), interactive_mode: true, log_all_requests: true }
    }
}

/// Guardian statistics
#[derive(Clone, Copy, Debug)]
pub struct GuardianStats {
    pub total_requests: u64,
    pub allowed_requests: u64,
    pub blocked_requests: u64,
    pub whitelist_hits: u64,
    pub blacklist_hits: u64,
}

impl GuardianStats {
    /// All counters at zero.
    pub open spec fn zero() -> GuardianStats {
        GuardianStats {
            total_requests: 0,
            allowed_requests: 0,
            blocked_requests: 0,
            whitelist_hits: 0,
            blacklist_hits: 0,
        }
    }

    /// These counters after `t` more requests of which `a` were allowed and
    /// `b` blocked.
    pub open spec fn bumped(self, t: int, a: int, b: int) -> GuardianStats {
        GuardianStats {
            total_requests: (self.total_requests + t) as u64,
            allowed_requests: (self.allowed_requests + a) as u64,
            blocked_requests: (self.blocked_requests + b) as u64,
            ..self
        }
    }
}

impl Default for GuardianStats {
    fn default() -> (s: Self)
        ensures
            s == GuardianStats::zero(),
    {
        GuardianStats {
            total_requests: 0,
            allowed_requests: 0,
            blocked_requests: 0,
            whitelist_hits: 0,
            blacklist_hits: 0,
        }
    }
}

/// A request whose fate the owner has to decide.
pub struct PendingRequest {
    pub url: String,
    pub timestamp: u64,
}

/// The Guardian's verdict on a request that the network firewall judged
/// `v`: with interactive mode off, a request that would need the owner's
/// approval is decided without asking, and refused.
pub open spec fn guardian_verdict(interactive: bool, v: UrlVerdict) -> UrlVerdict {
    if v == UrlVerdict::NeedsApproval && !interactive {
        UrlVerdict::DeniedWithoutOwner
    } else {
        v
    }
}

/// Guardian Core - Main security manager
pub struct Guardian {
    config: GuardianConfig,
    network_firewall: NetworkFirewall,
    console: GuardianConsole,
    stats: GuardianStats,
    awaiting: Option<PendingRequest>,
}

impl Guardian {
    pub closed spec fn spec_config(&self) -> GuardianConfig {
        self.config
    }

    pub closed spec fn spec_network(&self) -> NetworkFirewall {
        self.network_firewall
    }

    pub closed spec fn spec_stats(&self) -> GuardianStats {
        self.stats
    }

    /// The URL of the request that waits for the owner's answer, if any.
    pub closed spec fn spec_awaiting(&self) -> Option<Seq<char>> {
        match self.awaiting {
            Some(p) => Some(p.url@),
            None => None,
        }
    }

    /// The invariant: every check is counted once in `total_requests`, and
    /// at most once more as allowed or blocked, or as awaiting the owner.
    pub open spec fn wf(&self) -> bool {
        self.spec_stats().allowed_requests + self.spec_stats().blocked_requests + (if self.spec_awaiting() is Some {
            1int
        } else {
            0
        }) <= self.spec_stats().total_requests
    }

    /// Create new Guardian with config
    pub fn new(config: GuardianConfig) -> (g: Self)
        ensures
            g.wf(),
            g.spec_config() == config,
            g.spec_network().spec_config().same_as(&config.network),
            g.spec_network().spec_log() == Seq::<NetworkRequest>::empty(),
            g.spec_stats() == GuardianStats::zero(),
            g.spec_awaiting() is None,
    {
        let network_firewall = NetworkFirewall::new(config.network.clone());
        Guardian {
            config,
            network_firewall,
            console: GuardianConsole::new(),
            stats: GuardianStats::default(),
            awaiting: None,
        }
    }

    /// Create Guardian with default config
    pub fn default() -> (g: Self)
        ensures
            g.wf(),
            g.spec_stats() == GuardianStats::zero(),
            g.spec_awaiting() is None,
            g.spec_config().interactive_mode,
            g.spec_config().log_all_requests,
            g.spec_network().spec_config().allow_localhost,
            g.spec_network().spec_config().require_approval,
            g.spec_network().spec_config().allowed() == Set::<Seq<char>>::empty(),
            g.spec_network().spec_config().blocked() == set![
                "malware.com"@,
                "phishing.net"@,
                "evil.com"@,
            ],
    {
        let g = Self::new(GuardianConfig::default());
        proof {
            let c = g.spec_network().spec_config();
            assert(c.allowed() =~= Set::<Seq<char>>::empty());
            let v = crate::string::functions::views(c.blocked_domains@);
            assert(v == seq!["malware.com"@, "phishing.net"@, "evil.com"@]);
            assert(v[0] == "malware.com"@ && v[1] == "phishing.net"@ && v[2] == "evil.com"@);
            assert(c.blocked() =~= set!["malware.com"@, "phishing.net"@, "evil.com"@]);
        }
        g
    }

    /// Logs an allowed request, if the configuration asks for it.
    fn log_allowed(&mut self, url: &str, timestamp: u64)
        ensures
            final(self).config == old(self).config,
            final(self).stats == old(self).stats,
            final(self).awaiting == old(self).awaiting,
            final(self).network_firewall.spec_config() == old(self).network_firewall.spec_config(),
            final(self).network_firewall.spec_log() == if old(self).config.log_all_requests {
                old(self).network_firewall.spec_log().push(
                    NetworkRequest {
                        url: final(self).network_firewall.spec_log().last().url,
                        domain: final(self).network_firewall.spec_log().last().domain,
                        method: final(self).network_firewall.spec_log().last().method,
                        timestamp,
                    },
                )
            } else {
                old(self).network_firewall.spec_log()
            },
            old(self).config.log_all_requests ==> {
                let last = final(self).network_firewall.spec_log().last();
                &&& last.url@ == url@
                &&& last.domain@ == domain_of(url@)
                &&& last.method@ == "GET"@
            },
    {
        if self.config.log_all_requests {
            let domain = match self.network_firewall.extract_domain(url) {
                Ok(d) => d,
                Err(_) => String::new(),
            };
            self.network_firewall.log_request(
                NetworkRequest { url: owned(url), domain, method: owned("GET"), timestamp },
            );
        }
    }

    /// Check if a network request is allowed.  Counts the request, and:
    /// an allowed verdict is logged (when configured) and counted as
    /// allowed; a blocked verdict is counted as blocked; when the owner
    /// must decide, the request waits for `answer_network`, unless
    /// interactive mode is off, in which case it is refused without asking.
    pub fn check_network(&mut self, url: &str) -> (v: UrlVerdict)
        requires
            old(self).wf(),
            old(self).spec_stats().total_requests < u64::MAX,
        ensures
            final(self).wf(),
            v == guardian_verdict(
                old(self).spec_config().interactive_mode,
                url_verdict(old(self).spec_network().spec_config(), domain_of(url@)),
            ),
            final(self).spec_config() == old(self).spec_config(),
            final(self).spec_network().spec_config() == old(self).spec_network().spec_config(),
            final(self).spec_stats() == match v.decision() {
                Some(true) => old(self).spec_stats().bumped(1, 1, 0),
                Some(false) => old(self).spec_stats().bumped(1, 0, 1),
                None => old(self).spec_stats().bumped(1, 0, 0),
            },
            final(self).spec_awaiting() == if v.decision() is None {
                Some(url@)
            } else {
                None::<Seq<char>>
            },
            v.decision() == Some(true) && old(self).spec_config().log_all_requests ==> {
                let log = final(self).spec_network().spec_log();
                &&& log.len() == old(self).spec_network().spec_log().len() + 1
                &&& log.drop_last() == old(self).spec_network().spec_log()
                &&& log.last().url@ == url@
                &&& log.last().domain@ == domain_of(url@)
                &&& log.last().method@ == "GET"@
            },
            !(v.decision() == Some(true) && old(self).spec_config().log_all_requests)
                ==> final(self).spec_network().spec_log() == old(self).spec_network().spec_log(),
    {
        let timestamp = crate::clock::unix_time_secs();
        self.stats.total_requests = self.stats.total_requests + 1;
        let checked = self.network_firewall.check_url(url);
        let verdict = if checked == UrlVerdict::NeedsApproval && !self.config.interactive_mode {
            UrlVerdict::DeniedWithoutOwner
        } else {
            checked
        };
        self.awaiting = None;
        match verdict.decided() {
            Some(true) => {
                self.log_allowed(url, timestamp);
                self.stats.allowed_requests = self.stats.allowed_requests + 1;
            },
            Some(false) => {
                self.stats.blocked_requests = self.stats.blocked_requests + 1;
            },
            None => {
                self.awaiting = Some(PendingRequest { url: owned(url), timestamp });
            },
        }
        verdict
    }

    /// Whether a request waits for the owner's answer.
    pub fn awaiting_approval(&self) -> (b: bool)
        ensures
            b == self.spec_awaiting() is Some,
    {
        self.awaiting.is_some()
    }

    /// Applies the owner's answer to the request that waits for it: an
    /// approval is logged (when configured) and counted as allowed, a
    /// refusal is counted as blocked, and a failed prompt is reported as an
    /// error.  The request no longer waits.
    pub fn answer_network(&mut self, answer: Result<bool, String>) -> (r: Result<bool, String>)
        requires
            old(self).wf(),
            old(self).spec_awaiting() is Some,
        ensures
            final(self).wf(),
            final(self).spec_awaiting() is None,
            final(self).spec_config() == old(self).spec_config(),
            final(self).spec_network().spec_config() == old(self).spec_network().spec_config(),
            match answer {
                Ok(true) => r == Ok::<bool, String>(true) && final(self).spec_stats()
                    == old(self).spec_stats().bumped(0, 1, 0),
                Ok(false) => r == Ok::<bool, String>(false) && final(self).spec_stats()
                    == old(self).spec_stats().bumped(0, 0, 1),
                Err(e) => r matches Err(m) && m@ == approval_error_seq(e@)
                    && final(self).spec_stats() == old(self).spec_stats(),
            },
            answer == Ok::<bool, String>(true) && old(self).spec_config().log_all_requests ==> {
                let log = final(self).spec_network().spec_log();
                let url = old(self).spec_awaiting()->0;
                &&& log.len() == old(self).spec_network().spec_log().len() + 1
                &&& log.drop_last() == old(self).spec_network().spec_log()
                &&& log.last().url@ == url
                &&& log.last().domain@ == domain_of(url)
                &&& log.last().method@ == "GET"@
            },
            !(answer == Ok::<bool, String>(true) && old(self).spec_config().log_all_requests)
                ==> final(self).spec_network().spec_log() == old(self).spec_network().spec_log(),
    {
        let pending = self.awaiting.take().unwrap();
        match answer {
            Ok(true) => {
                self.log_allowed(pending.url.as_str(), pending.timestamp);
                self.stats.allowed_requests = self.stats.allowed_requests + 1;
                Ok(true)
            },
            Ok(false) => {
                self.stats.blocked_requests = self.stats.blocked_requests + 1;
                Ok(false)
            },
            Err(e) => Err(approval_error(e.as_str())),
        }
    }

    /// Get network firewall
    pub fn network(&self) -> (n: &NetworkFirewall)
        ensures
            *n == self.spec_network(),
    {
        &self.network_firewall
    }

    /// The network firewall, for changing its lists and configuration.
    pub fn network_mut(&mut self) -> (n: &mut NetworkFirewall)
        ensures
            *n == old(self).spec_network(),
            final(self).spec_network() == *final(n),
            final(self).spec_config() == old(self).spec_config(),
            final(self).spec_stats() == old(self).spec_stats(),
            final(self).spec_awaiting() == old(self).spec_awaiting(),
    {
        &mut self.network_firewall
    }

    /// Get statistics
    pub fn get_stats(&self) -> (s: GuardianStats)
        ensures
            s == self.spec_stats(),
    {
        self.stats
    }

    /// Enable interactive mode
    pub fn enable_interactive(&mut self)
        ensures
            final(self).spec_config().interactive_mode,
            final(self).spec_config().network == old(self).spec_config().network,
            final(self).spec_config().log_all_requests == old(self).spec_config().log_all_requests,
            final(self).spec_network() == old(self).spec_network(),
            final(self).spec_stats() == old(self).spec_stats(),
            final(self).spec_awaiting() == old(self).spec_awaiting(),
    {
        self.config.interactive_mode = true;
    }

    /// Disable interactive mode (auto-decide): from then on a request that
    /// would need the owner's approval is refused without asking.
    pub fn disable_interactive(&mut self)
        ensures
            !final(self).spec_config().interactive_mode,
            final(self).spec_config().network == old(self).spec_config().network,
            final(self).spec_config().log_all_requests == old(self).spec_config().log_all_requests,
            final(self).spec_network() == old(self).spec_network(),
            final(self).spec_stats() == old(self).spec_stats(),
            final(self).spec_awaiting() == old(self).spec_awaiting(),
    {
        self.config.interactive_mode = false;
    }

    /// Reset statistics (a request waiting for the owner is dropped).
    pub fn reset_stats(&mut self)
        ensures
            final(self).wf(),
            final(self).spec_stats() == GuardianStats::zero(),
            final(self).spec_awaiting() is None,
            final(self).spec_config() == old(self).spec_config(),
            final(self).spec_network() == old(self).spec_network(),
    {
        self.stats = GuardianStats::default();
        self.awaiting = None;
    }
}

/// With interactive mode off, the Guardian decides every request itself:
/// none is left for the owner, and one that would need the owner's approval
/// is refused.
pub proof fn law_not_interactive_decides(v: UrlVerdict)
    ensures
        guardian_verdict(false, v).decision() is Some,
        v == UrlVerdict::NeedsApproval ==> guardian_verdict(false, v).decision() == Some(false),
{
}

/// The Guardian never overturns a decision the network firewall takes by
/// itself, and in interactive mode it passes the firewall's verdict on
/// unchanged; only a request left for the owner can change, and only when
/// interactive mode is off.
pub proof fn law_guardian_keeps_firewall_verdict(interactive: bool, v: UrlVerdict)
    ensures
        interactive ==> guardian_verdict(interactive, v) == v,
        v.decision() is Some ==> guardian_verdict(interactive, v) == v,
        guardian_verdict(interactive, v) != v ==> !interactive && v == UrlVerdict::NeedsApproval,
{
}

/// A request to a domain in neither list, when no approval is required, is
/// allowed by the Guardian without asking the owner, whatever the mode.
pub proof fn law_guardian_allows_unlisted_without_approval(
    config: NetworkConfig,
    domain: Seq<char>,
    interactive: bool,
)
    requires
        !config.blocked().contains(domain),
        !config.allowed().contains(domain),
        !config.require_approval,
    ensures
        guardian_verdict(interactive, url_verdict(config, domain)).decision() == Some(true),
{
}

} // verus!
