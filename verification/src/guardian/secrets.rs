//! Secret Protection for Guardian
//! Protects API keys, passwords, and sensitive data from exposure

use vstd::prelude::*;
use super::console::GuardianConsole;
use crate::string::functions::{fill, views};
use crate::strlist::{copy_list, list_insert, list_remove, list_set, owned};
use crate::text::{
    chars_of, find_from_exec, has_infix, lemma_find_from, push_char, push_str, str_eq, str_lower,
    str_upper, string_of_range, to_lowercase, to_uppercase, ascii_lower_seq, is_ascii_seq,
};

verus! {

broadcast use vstd::string::group_string_axioms;

/// Secret protection configuration
pub struct SecretConfig {
    pub protected_patterns: Vec<String>,
    pub log_all_access: bool,
}

impl SecretConfig {
    /// The protected patterns as a set.
    pub open spec fn patterns(&self) -> Set<Seq<char>> {
        list_set(self.protected_patterns@)
    }
}

impl Clone for SecretConfig {
    fn clone(&self) -> (r: Self)
        ensures
            r.protected_patterns@ == self.protected_patterns@,
            r.log_all_access == self.log_all_access,
    {
        SecretConfig {
            protected_patterns: copy_list(&self.protected_patterns),
            log_all_access: self.log_all_access,
        }
    }
}

impl Default for SecretConfig {
    /// Eight common secret-name patterns, and every access logged.
    fn default() -> (c: Self)
        ensures
            views(c.protected_patterns@) == seq![
                "PASSWORD"@,
                "PASSWD"@,
                "SECRET"@,
                "API_KEY"@,
                "TOKEN"@,
                "PRIVATE_KEY"@,
                "ACCESS_KEY"@,
                "CREDENTIAL"@,
            ],
            c.log_all_access,
    {
        let mut p: Vec<String> = Vec::new();
        p.push(owned("PASSWORD"));
        p.push(owned("PASSWD"));
        p.push(owned("SECRET"));
        p.push(owned("API_KEY"));
        p.push(owned("TOKEN"));
        p.push(owned("PRIVATE_KEY"));
        p.push(owned("ACCESS_KEY"));
        p.push(owned("CREDENTIAL"));
        let c = SecretConfig { protected_patterns: p, log_all_access: true };
        proof {
            assert(views(c.protected_patterns@) =~= seq![
                "PASSWORD"@,
                "PASSWD"@,
                "SECRET"@,
                "API_KEY"@,
                "TOKEN"@,
                "PRIVATE_KEY"@,
                "ACCESS_KEY"@,
                "CREDENTIAL"@,
            ]);
        }
        c
    }
}

/// Secret access type
#[derive(Clone, Copy, Debug, PartialEq, Eq, Structural)]
pub enum SecretAccessType {
    Read,
    Write,
    Print,
    Export,
}

/// Secret access info
pub struct SecretAccess {
    pub variable_name: String,
    pub access_type: SecretAccessType,
    pub timestamp: u64,
    pub blocked: bool,
}

impl Clone for SecretAccess {
    fn clone(&self) -> (r: Self)
        ensures
            r == *self,
    {
        SecretAccess {
            variable_name: self.variable_name.clone(),
            access_type: self.access_type,
            timestamp: self.timestamp,
            blocked: self.blocked,
        }
    }
}

impl SecretAccessType {
    /// The access type named (in any letter case) by `s`.
    pub open spec fn spec_parse(lowered: Seq<char>) -> Option<SecretAccessType> {
        if lowered == "read"@ {
            Some(SecretAccessType::Read)
        } else if lowered == "write"@ {
            Some(SecretAccessType::Write)
        } else if lowered == "print"@ {
            Some(SecretAccessType::Print)
        } else if lowered == "export"@ {
            Some(SecretAccessType::Export)
        } else {
            None
        }
    }

    /// Parses `read`, `write`, `print` or `export`, in any letter case.
    pub fn from_str(s: &str) -> (r: Option<Self>)
        ensures
            r == Self::spec_parse(str_lower(s@)),
            is_ascii_seq(s@) ==> r == Self::spec_parse(ascii_lower_seq(s@)),
    {
        let l = to_lowercase(s);
        if str_eq(l.as_str(), "read") {
            Some(SecretAccessType::Read)
        } else if str_eq(l.as_str(), "write") {
            Some(SecretAccessType::Write)
        } else if str_eq(l.as_str(), "print") {
            Some(SecretAccessType::Print)
        } else if str_eq(l.as_str(), "export") {
            Some(SecretAccessType::Export)
        } else {
            None
        }
    }

    pub open spec fn spec_as_str(self) -> Seq<char> {
        match self {
            SecretAccessType::Read => "READ"@,
            SecretAccessType::Write => "WRITE"@,
            SecretAccessType::Print => "PRINT"@,
            SecretAccessType::Export => "EXPORT"@,
        }
    }

    pub fn as_str(&self) -> (r: &'static str)
        ensures
            r@ == self.spec_as_str(),
    {
        match self {
            SecretAccessType::Read => "READ",
            SecretAccessType::Write => "WRITE",
            SecretAccessType::Print => "PRINT",
            SecretAccessType::Export => "EXPORT",
        }
    }

    pub open spec fn spec_is_exposure(self) -> bool {
        self is Print || self is Export
    }

    /// Check if this access type could expose the secret
    pub fn is_exposure(&self) -> (b: bool)
        ensures
            b == self.spec_is_exposure(),
    {
        match self {
            SecretAccessType::Print | SecretAccessType::Export => true,
            _ => false,
        }
    }
}

/// Secret statistics
#[derive(Clone, Copy, Debug)]
pub struct SecretStats {
    pub total_access: u64,
    pub allowed_access: u64,
    pub blocked_access: u64,
    pub exposure_attempts: u64,
}

impl SecretStats {
    pub open spec fn zero() -> SecretStats {
        SecretStats { total_access: 0, allowed_access: 0, blocked_access: 0, exposure_attempts: 0 }
    }
}

impl Default for SecretStats {
    fn default() -> (s: Self)
        ensures
            s == SecretStats::zero(),
    {
        SecretStats { total_access: 0, allowed_access: 0, blocked_access: 0, exposure_attempts: 0 }
    }
}

/// A variable name is protected when its upper-cased form contains one
/// of the protected patterns.
pub open spec fn is_protected(patterns: Set<Seq<char>>, name: Seq<char>) -> bool {
    exists|p: Seq<char>| patterns.contains(p) && has_infix(str_upper(name), p)
}

/// `value` masked: `"****"` when it has at most four characters, otherwise
/// its first two characters, a `*` for each character in between, and its
/// last two characters.
pub open spec fn mask_seq(value: Seq<char>) -> Seq<char> {
    let n = value.len();
    if n <= 4 {
        "****"@
    } else {
        value.take(2) + Seq::new((n - 4) as nat, |i: int| '*') + value.skip(n - 2)
    }
}

/// Secret Protection Firewall
pub struct SecretProtection {
    config: SecretConfig,
    console: GuardianConsole,
    access_log: Vec<SecretAccess>,
    stats: SecretStats,
}

impl SecretProtection {
    pub closed spec fn spec_config(&self) -> SecretConfig {
        self.config
    }

    pub closed spec fn spec_log(&self) -> Seq<SecretAccess> {
        self.access_log@
    }

    pub closed spec fn spec_stats(&self) -> SecretStats {
        self.stats
    }

    /// The invariant: every access is counted once as allowed or blocked,
    /// and exactly the exposure attempts are blocked.
    pub open spec fn wf(&self) -> bool {
        &&& self.spec_stats().allowed_access + self.spec_stats().blocked_access
            == self.spec_stats().total_access
        &&& self.spec_stats().exposure_attempts == self.spec_stats().blocked_access
    }

    /// Create new secret protection
    pub fn new(config: SecretConfig) -> (p: Self)
        ensures
            p.wf(),
            p.spec_config() == config,
            p.spec_log() == Seq::<SecretAccess>::empty(),
            p.spec_stats() == SecretStats::zero(),
    {
        SecretProtection {
            config,
            console: GuardianConsole::new(),
            access_log: Vec::new(),
            stats: SecretStats::default(),
        }
    }

    /// Whether the upper-cased `name` contains a protected pattern.
    fn protected_name(&self, name: &str) -> (b: bool)
        ensures
            b == is_protected(self.config.patterns(), name@),
    {
        let upper = to_uppercase(name);
        let v = chars_of(upper.as_str());
        let mut i: usize = 0;
        while i < self.config.protected_patterns.len()
            invariant
                i <= self.config.protected_patterns.len(),
                v@ == str_upper(name@),
                forall|k: int|
                    0 <= k < i ==> !has_infix(v@, #[trigger] self.config.protected_patterns@[k]@),
            decreases self.config.protected_patterns.len() - i,
        {
            let p = chars_of(self.config.protected_patterns[i].as_str());
            proof {
                lemma_find_from(v@, p@, 0);
            }
            if find_from_exec(&v, &p, 0).is_some() {
                proof {
                    let x = self.config.protected_patterns@[i as int]@;
                    assert(views(self.config.protected_patterns@)[i as int] == x);
                    assert(self.config.patterns().contains(x));
                }
                return true;
            }
            i = i + 1;
        }
        proof {
            assert forall|p: Seq<char>| self.config.patterns().contains(p) implies !has_infix(
                str_upper(name@),
                p,
            ) by {
                let k = choose|k: int|
                    0 <= k < views(self.config.protected_patterns@).len() && views(
                        self.config.protected_patterns@,
                    )[k] == p;
                assert(self.config.protected_patterns@[k]@ == p);
            }
        }
        false
    }

    /// Check if accessing a secret variable is allowed.  Printing or
    /// exporting a variable whose name contains a protected pattern is
    /// blocked (and counted as an exposure attempt); everything else is
    /// allowed.  Every access is counted, and logged when configured.
    pub fn check_access(&mut self, variable_name: &str, access_type: SecretAccessType) -> (r: Result<
        bool,
        String,
    >)
        requires
            old(self).wf(),
            old(self).spec_stats().total_access < u64::MAX,
        ensures
            final(self).wf(),
            final(self).spec_config() == old(self).spec_config(),
            ({
                let blocked = is_protected(old(self).spec_config().patterns(), variable_name@)
                    && access_type.spec_is_exposure();
                let s = old(self).spec_stats();
                &&& r == Ok::<bool, String>(!blocked)
                &&& final(self).spec_stats() == if blocked {
                    SecretStats {
                        total_access: (s.total_access + 1) as u64,
                        blocked_access: (s.blocked_access + 1) as u64,
                        exposure_attempts: (s.exposure_attempts + 1) as u64,
                        ..s
                    }
                } else {
                    SecretStats {
                        total_access: (s.total_access + 1) as u64,
                        allowed_access: (s.allowed_access + 1) as u64,
                        ..s
                    }
                }
                &&& if old(self).spec_config().log_all_access {
                    let log = final(self).spec_log();
                    &&& log.len() == old(self).spec_log().len() + 1
                    &&& log.drop_last() == old(self).spec_log()
                    &&& log.last().variable_name@ == variable_name@
                    &&& log.last().access_type == access_type
                    &&& log.last().blocked == blocked
                } else {
                    final(self).spec_log() == old(self).spec_log()
                }
            }),
    {
        let timestamp = crate::clock::unix_time_secs();
        self.stats.total_access = self.stats.total_access + 1;
        let blocked = self.protected_name(variable_name) && access_type.is_exposure();
        if blocked {
            self.stats.exposure_attempts = self.stats.exposure_attempts + 1;
            self.stats.blocked_access = self.stats.blocked_access + 1;
        } else {
            self.stats.allowed_access = self.stats.allowed_access + 1;
        }
        if self.config.log_all_access {
            self.access_log.push(
                SecretAccess {
                    variable_name: owned(variable_name),
                    access_type,
                    timestamp,
                    blocked,
                },
            );
        }
        Ok(!blocked)
    }

    /// Mask a secret value (show only first/last few characters)
    pub fn mask_value(&self, value: &str) -> (r: String)
        ensures
            r@ == mask_seq(value@),
    {
        let v = chars_of(value);
        let n = v.len();
        if n <= 4 {
            return owned("****");
        }
        let mut r = string_of_range(&v, 0, 2);
        let stars = fill('*', n - 4);
        push_str(&mut r, stars.as_str());
        let last = string_of_range(&v, n - 2, n);
        push_str(&mut r, last.as_str());
        proof {
            assert(r@ =~= mask_seq(value@));
        }
        r
    }

    /// Log a secret access
    pub fn log_access(&mut self, access: SecretAccess)
        ensures
            final(self).spec_log() == old(self).spec_log().push(access),
            final(self).spec_config() == old(self).spec_config(),
            final(self).spec_stats() == old(self).spec_stats(),
    {
        self.access_log.push(access);
    }

    /// Get access log
    pub fn get_access_log(&self) -> (r: Vec<SecretAccess>)
        ensures
            r@ == self.spec_log(),
    {
        let mut r: Vec<SecretAccess> = Vec::new();
        let mut i: usize = 0;
        while i < self.access_log.len()
            invariant
                i <= self.access_log.len(),
                r@ == self.access_log@.take(i as int),
            decreases self.access_log.len() - i,
        {
            r.push(self.access_log[i].clone());
            proof {
                assert(self.access_log@.take(i + 1) == self.access_log@.take(i as int).push(
                    self.access_log@[i as int],
                ));
            }
            i = i + 1;
        }
        proof {
            assert(self.access_log@.take(self.access_log@.len() as int) == self.access_log@);
        }
        r
    }

    /// Get statistics
    pub fn get_stats(&self) -> (s: SecretStats)
        ensures
            s == self.spec_stats(),
    {
        self.stats
    }

    /// Add protected pattern (upper-cased).
    pub fn add_protected_pattern(&mut self, pattern: &str)
        ensures
            final(self).spec_config().patterns() == old(self).spec_config().patterns().insert(
                str_upper(pattern@),
            ),
            final(self).spec_config().log_all_access == old(self).spec_config().log_all_access,
            final(self).spec_log() == old(self).spec_log(),
            final(self).spec_stats() == old(self).spec_stats(),
    {
        list_insert(&mut self.config.protected_patterns, to_uppercase(pattern));
    }

    /// Remove protected pattern (its upper-cased form).
    pub fn remove_protected_pattern(&mut self, pattern: &str)
        ensures
            final(self).spec_config().patterns() == old(self).spec_config().patterns().remove(
                str_upper(pattern@),
            ),
            final(self).spec_config().log_all_access == old(self).spec_config().log_all_access,
            final(self).spec_log() == old(self).spec_log(),
            final(self).spec_stats() == old(self).spec_stats(),
    {
        let up = to_uppercase(pattern);
        list_remove(&mut self.config.protected_patterns, up.as_str());
    }
}

// ---------------------------------------------------------------------
// Laws
// ---------------------------------------------------------------------

/// After `add_protected_pattern(pattern)`, a variable whose upper-cased
/// name contains the upper-cased pattern is protected.
pub proof fn law_added_pattern_protects(
    before: Set<Seq<char>>,
    after: Set<Seq<char>>,
    pattern: Seq<char>,
    name: Seq<char>,
)
    requires
        after == before.insert(str_upper(pattern)),
        has_infix(str_upper(name), str_upper(pattern)),
    ensures
        is_protected(after, name),
{
    assert(after.contains(str_upper(pattern)));
}

/// Reading or writing a secret is never blocked, protected or not.
pub proof fn law_only_exposure_blocked(
    patterns: Set<Seq<char>>,
    name: Seq<char>,
    access: SecretAccessType,
)
    requires
        access is Read || access is Write,
    ensures
        !(is_protected(patterns, name) && access.spec_is_exposure()),
{
}

/// The name of an access type parses back to the same type.
pub proof fn law_access_name_parses_back(t: SecretAccessType)
    ensures
        is_ascii_seq(t.spec_as_str()),
        SecretAccessType::spec_parse(ascii_lower_seq(t.spec_as_str())) == Some(t),
{
    reveal_strlit("READ");
    reveal_strlit("WRITE");
    reveal_strlit("PRINT");
    reveal_strlit("EXPORT");
    reveal_strlit("read");
    reveal_strlit("write");
    reveal_strlit("print");
    reveal_strlit("export");
    let name = t.spec_as_str();
    let low = ascii_lower_seq(name);
    match t {
        SecretAccessType::Read => {
            assert(low =~= "read"@);
        },
        SecretAccessType::Write => {
            assert(low =~= "write"@);
            assert("write"@ != "read"@);
        },
        SecretAccessType::Print => {
            assert(low =~= "print"@);
            assert("print"@[0] != "write"@[0]);
            assert("print"@ != "read"@ && "print"@ != "write"@);
        },
        SecretAccessType::Export => {
            assert(low =~= "export"@);
            assert("export"@ != "read"@ && "export"@ != "write"@ && "export"@ != "print"@);
        },
    }
}

} // verus!
