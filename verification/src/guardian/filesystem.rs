//! File System Firewall for Guardian
//! Protects sensitive files and directories

use vstd::prelude::*;
use super::console::{approval_error, approval_error_seq, GuardianConsole};
use crate::string::functions::{contains, ends_with, replace_all, replace_all_seq, split, split_seq, starts_with, views};
use crate::strlist::{copy_list, list_insert, list_remove, list_set, owned};
use crate::text::{
    chars_of, find_from, find_from_exec, has_infix, has_prefix, has_suffix, lemma_find_from, occurs_at,
    str_eq, str_lower, string_of_range, to_lowercase, ascii_lower_seq, is_ascii_seq,
};

verus! {

broadcast use vstd::string::group_string_axioms;

/// File system firewall configuration
pub struct FileSystemConfig {
    pub allowed_paths: Vec<String>,
    pub blocked_patterns: Vec<String>,
    pub max_file_size_mb: u64,
    pub require_approval_for_sensitive: bool,
    pub log_all_operations: bool,
}

impl FileSystemConfig {
    /// The whitelisted path prefixes as a set.
    pub open spec fn allowed(&self) -> Set<Seq<char>> {
        list_set(self.allowed_paths@)
    }

    /// The blocked patterns as a set.
    pub open spec fn patterns(&self) -> Set<Seq<char>> {
        list_set(self.blocked_patterns@)
    }
}

impl Clone for FileSystemConfig {
    fn clone(&self) -> (r: Self)
        ensures
            r.allowed_paths@ == self.allowed_paths@,
            r.blocked_patterns@ == self.blocked_patterns@,
            r.max_file_size_mb == self.max_file_size_mb,
            r.require_approval_for_sensitive == self.require_approval_for_sensitive,
            r.log_all_operations == self.log_all_operations,
    {
        FileSystemConfig {
            allowed_paths: copy_list(&self.allowed_paths),
            blocked_patterns: copy_list(&self.blocked_patterns),
            max_file_size_mb: self.max_file_size_mb,
            require_approval_for_sensitive: self.require_approval_for_sensitive,
            log_all_operations: self.log_all_operations,
        }
    }
}

impl Default for FileSystemConfig {
    /// Four working directories allowed; executables, scripts and sensitive
    /// system paths blocked; 100 MB files; approval required for sensitive
    /// operations; every operation logged.
    fn default() -> (c: Self)
        ensures
            views(c.allowed_paths@) == seq!["./data"@, "./temp"@, "./logs"@, "./config"@],
            views(c.blocked_patterns@) == seq![
                "*.exe"@,
                "*.dll"@,
                "*.sys"@,
                "*.bat"@,
                "*.cmd"@,
                "*.sh"@,
                "/etc/passwd"@,
                "/etc/shadow"@,
                "/etc/sudoers"@,
                "/root/*"@,
                "/windows/system32/*"@,
                "C:\\Windows\\System32\\*"@,
                "C:\\Users\\*\\AppData\\*"@,
            ],
            c.max_file_size_mb == 100,
            c.require_approval_for_sensitive,
            c.log_all_operations,
    {
        let mut a: Vec<String> = Vec::new();
        a.push(owned("./data"));
        a.push(owned("./temp"));
        a.push(owned("./logs"));
        a.push(owned("./config"));
        let mut p: Vec<String> = Vec::new();
        p.push(owned("*.exe"));
        p.push(owned("*.dll"));
        p.push(owned("*.sys"));
        p.push(owned("*.bat"));
        p.push(owned("*.cmd"));
        p.push(owned("*.sh"));
        p.push(owned("/etc/passwd"));
        p.push(owned("/etc/shadow"));
        p.push(owned("/etc/sudoers"));
        p.push(owned("/root/*"));
        p.push(owned("/windows/system32/*"));
        p.push(owned("C:\\Windows\\System32\\*"));
        p.push(owned("C:\\Users\\*\\AppData\\*"));
        let c = FileSystemConfig {
            allowed_paths: a,
            blocked_patterns: p,
            max_file_size_mb: 100,
            require_approval_for_sensitive: true,
            log_all_operations: true,
        };
        proof {
            assert(views(c.allowed_paths@) =~= seq!["./data"@, "./temp"@, "./logs"@, "./config"@]);
            assert(views(c.blocked_patterns@) =~= seq![
                "*.exe"@,
                "*.dll"@,
                "*.sys"@,
                "*.bat"@,
                "*.cmd"@,
                "*.sh"@,
                "/etc/passwd"@,
                "/etc/shadow"@,
                "/etc/sudoers"@,
                "/root/*"@,
                "/windows/system32/*"@,
                "C:\\Windows\\System32\\*"@,
                "C:\\Users\\*\\AppData\\*"@,
            ]);
        }
        c
    }
}

/// File operation type
#[derive(Clone, Copy, Debug, PartialEq, Eq, Structural)]
pub enum FileOpType {
    Read,
    Write,
    Delete,
    Create,
    Rename,
    Copy,
    Execute,
}

impl FileOpType {
    /// The operation named by the lower-cased text `lowered`.
    pub open spec fn spec_parse(lowered: Seq<char>) -> Option<FileOpType> {
        if lowered == "read"@ {
            Some(FileOpType::Read)
        } else if lowered == "write"@ {
            Some(FileOpType::Write)
        } else if lowered == "delete"@ {
            Some(FileOpType::Delete)
        } else if lowered == "create"@ {
            Some(FileOpType::Create)
        } else if lowered == "rename"@ {
            Some(FileOpType::Rename)
        } else if lowered == "copy"@ {
            Some(FileOpType::Copy)
        } else if lowered == "execute"@ {
            Some(FileOpType::Execute)
        } else {
            None
        }
    }

    /// Parses an operation name in any letter case.
    pub fn parse(s: &str) -> (r: Option<Self>)
        ensures
            r == Self::spec_parse(str_lower(s@)),
            is_ascii_seq(s@) ==> r == Self::spec_parse(ascii_lower_seq(s@)),
    {
        let l = to_lowercase(s);
        let t = l.as_str();
        if str_eq(t, "read") {
            Some(FileOpType::Read)
        } else if str_eq(t, "write") {
            Some(FileOpType::Write)
        } else if str_eq(t, "delete") {
            Some(FileOpType::Delete)
        } else if str_eq(t, "create") {
            Some(FileOpType::Create)
        } else if str_eq(t, "rename") {
            Some(FileOpType::Rename)
        } else if str_eq(t, "copy") {
            Some(FileOpType::Copy)
        } else if str_eq(t, "execute") {
            Some(FileOpType::Execute)
        } else {
            None
        }
    }

    pub open spec fn spec_as_str(self) -> Seq<char> {
        match self {
            FileOpType::Read => "READ"@,
            FileOpType::Write => "WRITE"@,
            FileOpType::Delete => "DELETE"@,
            FileOpType::Create => "CREATE"@,
            FileOpType::Rename => "RENAME"@,
            FileOpType::Copy => "COPY"@,
            FileOpType::Execute => "EXECUTE"@,
        }
    }

    pub fn as_str(&self) -> (r: &'static str)
        ensures
            r@ == self.spec_as_str(),
    {
        match self {
            FileOpType::Read => "READ",
            FileOpType::Write => "WRITE",
            FileOpType::Delete => "DELETE",
            FileOpType::Create => "CREATE",
            FileOpType::Rename => "RENAME",
            FileOpType::Copy => "COPY",
            FileOpType::Execute => "EXECUTE",
        }
    }

    pub open spec fn spec_is_sensitive(self) -> bool {
        self is Delete || self is Write || self is Execute
    }

    /// Operations that modify, delete or run files.
    pub fn is_sensitive(&self) -> (b: bool)
        ensures
            b == self.spec_is_sensitive(),
    {
        match self {
            FileOpType::Delete | FileOpType::Write | FileOpType::Execute => true,
            _ => false,
        }
    }
}

/// File operation info
pub struct FileOperation {
    pub path: String,
    pub operation: FileOpType,
    pub timestamp: u64,
    pub success: bool,
    pub blocked: bool,
}

impl Clone for FileOperation {
    fn clone(&self) -> (r: Self)
        ensures
            r == *self,
    {
        FileOperation {
            path: self.path.clone(),
            operation: self.operation,
            timestamp: self.timestamp,
            success: self.success,
            blocked: self.blocked,
        }
    }
}

/// File system statistics
#[derive(Clone, Copy, Debug)]
pub struct FileSystemStats {
    pub total_operations: u64,
    pub allowed_operations: u64,
    pub blocked_operations: u64,
    pub sensitive_access: u64,
    pub blocked_patterns_hits: u64,
}

impl FileSystemStats {
    pub open spec fn zero() -> FileSystemStats {
        FileSystemStats {
            total_operations: 0,
            allowed_operations: 0,
            blocked_operations: 0,
            sensitive_access: 0,
            blocked_patterns_hits: 0,
        }
    }

    /// These counters increased by the given amounts (total, allowed,
    /// blocked, sensitive, pattern hits).
    pub open spec fn bumped(self, t: int, a: int, b: int, s: int, h: int) -> FileSystemStats {
        FileSystemStats {
            total_operations: (self.total_operations + t) as u64,
            allowed_operations: (self.allowed_operations + a) as u64,
            blocked_operations: (self.blocked_operations + b) as u64,
            sensitive_access: (self.sensitive_access + s) as u64,
            blocked_patterns_hits: (self.blocked_patterns_hits + h) as u64,
        }
    }
}

impl Default for FileSystemStats {
    fn default() -> (s: Self)
        ensures
            s == FileSystemStats::zero(),
    {
        FileSystemStats {
            total_operations: 0,
            allowed_operations: 0,
            blocked_operations: 0,
            sensitive_access: 0,
            blocked_patterns_hits: 0,
        }
    }
}

/// Why an operation waits for the owner.
#[derive(Clone, Copy, Debug, PartialEq, Eq, Structural)]
pub enum ApprovalStage {
    /// The operation writes, deletes or executes.
    SensitiveOperation,
    /// The path lies under none of the allowed paths.
    PathNotWhitelisted,
}

/// The outcome of a step of checking a file operation.
pub enum FileCheck {
    /// The operation may run.
    Allowed,
    /// The path matches this blocked pattern.
    BlockedPattern(String),
    /// The owner refused the operation.
    Denied,
    /// The owner decides, through `answer_operation`.
    NeedsApproval(ApprovalStage),
}

/// Name for what `std::path::Path::starts_with` answers for the paths
/// `path` and `base`: whether the components of `base` begin those of
/// `path`.
pub uninterp spec fn path_components_start_with(path: Seq<char>, base: Seq<char>) -> bool;

/// `Path::new(path).starts_with(Path::new(base))`.
#[verifier::external_body]
fn path_starts_with(path: &str, base: &str) -> (b: bool)
    ensures
        b == path_components_start_with(path@, base@),
{
    std::path::Path::new(path).starts_with(std::path::Path::new(base))
}

/// `s` with every backslash turned into a slash.
pub open spec fn slashed(s: Seq<char>) -> Seq<char> {
    replace_all_seq(s, "\\"@, "/"@)
}

/// The pieces `ps` occur in `s` one after another, without overlapping,
/// the first at or after `start`.
pub open spec fn parts_in_order(s: Seq<char>, ps: Seq<Seq<char>>, start: int) -> bool
    decreases ps.len(),
{
    if ps.len() == 0 {
        true
    } else {
        exists|i: int|
            start <= i && #[trigger] occurs_at(s, ps[0], i) && parts_in_order(
                s,
                ps.drop_first(),
                i + ps[0].len(),
            )
    }
}

/// A glob whose pieces between the `*`s are `parts` (at least two) matches
/// `p`: `p` starts with the first piece, ends with the last, and holds the
/// pieces in between in order, after the first and before the last.
pub open spec fn glob_matches(p: Seq<char>, parts: Seq<Seq<char>>) -> bool {
    let first = parts[0];
    let last = parts[parts.len() - 1];
    &&& has_prefix(p, first)
    &&& has_suffix(p, last)
    &&& parts_in_order(
        p.take(p.len() - last.len()),
        parts.subrange(1, parts.len() - 1),
        first.len() as int,
    )
}

/// The simple glob match of the firewall, after both sides are slashed: in
/// a pattern with a `*`, each `*` stands for any text; a pattern without
/// one matches the paths that contain it.
pub open spec fn pattern_matches(path: Seq<char>, pattern: Seq<char>) -> bool {
    let p = slashed(path);
    let q = slashed(pattern);
    let parts = split_seq(q, "*"@);
    if parts.len() >= 2 {
        glob_matches(p, parts)
    } else {
        has_infix(p, q)
    }
}

/// Pieces in order from a later start are in order from an earlier one.
proof fn lemma_parts_in_order_earlier(s: Seq<char>, ps: Seq<Seq<char>>, a: int, b: int)
    requires
        b <= a,
        parts_in_order(s, ps, a),
    ensures
        parts_in_order(s, ps, b),
{
    if ps.len() > 0 {
        let i = choose|i: int|
            a <= i && #[trigger] occurs_at(s, ps[0], i) && parts_in_order(
                s,
                ps.drop_first(),
                i + ps[0].len(),
            );
        assert(b <= i && occurs_at(s, ps[0], i));
    }
}

/// Taking the leftmost occurrence of the first piece loses nothing.
proof fn lemma_parts_in_order_leftmost(s: Seq<char>, ps: Seq<Seq<char>>, start: int)
    requires
        0 <= start,
        ps.len() > 0,
    ensures
        parts_in_order(s, ps, start) == match find_from(s, ps[0], start) {
            Some(i) => parts_in_order(s, ps.drop_first(), i + ps[0].len()),
            None => false,
        },
{
    lemma_find_from(s, ps[0], start);
    match find_from(s, ps[0], start) {
        Some(i0) => {
            if parts_in_order(s, ps, start) {
                let i = choose|i: int|
                    start <= i && #[trigger] occurs_at(s, ps[0], i) && parts_in_order(
                        s,
                        ps.drop_first(),
                        i + ps[0].len(),
                    );
                assert(i0 <= i);
                lemma_parts_in_order_earlier(s, ps.drop_first(), i + ps[0].len(), i0 + ps[0].len());
            }
            if parts_in_order(s, ps.drop_first(), i0 + ps[0].len()) {
                assert(start <= i0 && occurs_at(s, ps[0], i0));
            }
        },
        None => {
            if parts_in_order(s, ps, start) {
                let i = choose|i: int|
                    start <= i && #[trigger] occurs_at(s, ps[0], i) && parts_in_order(
                        s,
                        ps.drop_first(),
                        i + ps[0].len(),
                    );
                assert(!occurs_at(s, ps[0], i));
            }
        },
    }
}

/// Whether the pieces of `parts` strictly between the first and the last
/// occur in `s` in order, the first of them at or after `start`.
fn parts_in_order_exec(s: &Vec<char>, parts: &Vec<String>, start: usize) -> (b: bool)
    requires
        parts@.len() >= 2,
    ensures
        b == parts_in_order(s@, views(parts@).subrange(1, parts@.len() - 1), start as int),
{
    let k = parts.len();
    let ghost all = views(parts@).subrange(1, k - 1);
    let mut pos = start;
    let mut j: usize = 1;
    proof {
        assert(views(parts@).subrange(1, k - 1) == all);
    }
    while j < k - 1
        invariant
            k == parts@.len(),
            k >= 2,
            1 <= j <= k - 1,
            all == views(parts@).subrange(1, k - 1),
            parts_in_order(s@, all, start as int) == parts_in_order(
                s@,
                views(parts@).subrange(j as int, k - 1),
                pos as int,
            ),
        decreases k - 1 - j,
    {
        let ghost ps = views(parts@).subrange(j as int, k - 1);
        let piece = chars_of(parts[j].as_str());
        proof {
            assert(ps[0] == parts@[j as int]@);
            assert(ps.drop_first() =~= views(parts@).subrange(j + 1, k - 1));
            lemma_parts_in_order_leftmost(s@, ps, pos as int);
            lemma_find_from(s@, piece@, pos as int);
        }
        match find_from_exec(s, &piece, pos) {
            Some(i) => {
                proof {
                    assert(occurs_at(s@, piece@, i as int));
                }
                let n = piece.len();
                let total = s.len();
                assert(i + n <= total);
                pos = i + n;
            },
            None => {
                return false;
            },
        }
        j = j + 1;
    }
    proof {
        assert(views(parts@).subrange(j as int, k - 1).len() == 0);
    }
    true
}

/// Some blocked pattern matches the path.
pub open spec fn pattern_hit(config: FileSystemConfig, path: Seq<char>) -> bool {
    exists|q: Seq<char>| #[trigger] config.patterns().contains(q) && pattern_matches(path, q)
}

/// The allowed list is empty, or the path lies under one of its entries.
pub open spec fn path_whitelisted(config: FileSystemConfig, path: Seq<char>) -> bool {
    config.allowed_paths@.len() == 0 || exists|a: Seq<char>|
        #[trigger] config.allowed().contains(a) && path_components_start_with(path, a)
}

/// `new` is `old`, plus one entry for the operation when `log_all` is set.
pub open spec fn op_logged(
    old: Seq<FileOperation>,
    new: Seq<FileOperation>,
    log_all: bool,
    path: Seq<char>,
    operation: FileOpType,
    success: bool,
    blocked: bool,
) -> bool {
    if log_all {
        &&& new.len() == old.len() + 1
        &&& new.drop_last() == old
        &&& new.last().path@ == path
        &&& new.last().operation == operation
        &&& new.last().success == success
        &&& new.last().blocked == blocked
    } else {
        new == old
    }
}

/// What the whitelist step does to the counters `s0`, the log and the
/// waiting operation, and what it returns: a whitelisted path is allowed,
/// counted and logged; any other waits for the owner.
pub open spec fn path_step(
    c: FileSystemConfig,
    s0: FileSystemStats,
    s1: FileSystemStats,
    log0: Seq<FileOperation>,
    log1: Seq<FileOperation>,
    waiting: Option<(Seq<char>, FileOpType, ApprovalStage)>,
    path: Seq<char>,
    operation: FileOpType,
    r: FileCheck,
) -> bool {
    if path_whitelisted(c, path) {
        &&& r is Allowed
        &&& s1 == s0.bumped(0, 1, 0, 0, 0)
        &&& op_logged(log0, log1, c.log_all_operations, path, operation, true, false)
        &&& waiting is None
    } else {
        &&& r matches FileCheck::NeedsApproval(ApprovalStage::PathNotWhitelisted)
        &&& s1 == s0
        &&& log1 == log0
        &&& waiting == Some((path, operation, ApprovalStage::PathNotWhitelisted))
    }
}

/// An operation that waits for the owner's answer.
pub struct PendingOperation {
    pub path: String,
    pub operation: FileOpType,
    pub stage: ApprovalStage,
    pub timestamp: u64,
}

/// File System Firewall
pub struct FileSystemFirewall {
    config: FileSystemConfig,
    console: GuardianConsole,
    operation_log: Vec<FileOperation>,
    stats: FileSystemStats,
    awaiting: Option<PendingOperation>,
}

impl FileSystemFirewall {
    pub closed spec fn spec_config(&self) -> FileSystemConfig {
        self.config
    }

    pub closed spec fn spec_log(&self) -> Seq<FileOperation> {
        self.operation_log@
    }

    pub closed spec fn spec_stats(&self) -> FileSystemStats {
        self.stats
    }

    /// The path, operation and stage of the operation that waits for the
    /// owner, if any.
    pub closed spec fn spec_awaiting(&self) -> Option<(Seq<char>, FileOpType, ApprovalStage)> {
        match self.awaiting {
            Some(p) => Some((p.path@, p.operation, p.stage)),
            None => None,
        }
    }

    /// The invariant on the counters: every operation counts once in the
    /// total and at most once as allowed, blocked or waiting; every pattern
    /// hit is a blocked operation; sensitive operations are counted once
    /// each; an operation waits on the sensitive stage only if it is
    /// sensitive.
    pub open spec fn wf(&self) -> bool {
        let s = self.spec_stats();
        &&& s.allowed_operations + s.blocked_operations + (if self.spec_awaiting() is Some {
            1int
        } else {
            0
        }) <= s.total_operations
        &&& s.blocked_patterns_hits <= s.blocked_operations
        &&& s.sensitive_access <= s.total_operations
        &&& self.spec_awaiting() matches Some((_, op, stage)) ==> (stage
            is SensitiveOperation ==> op.spec_is_sensitive())
    }

    /// Create new file system firewall
    pub fn new(config: FileSystemConfig) -> (f: Self)
        ensures
            f.wf(),
            f.spec_config() == config,
            f.spec_log() == Seq::<FileOperation>::empty(),
            f.spec_stats() == FileSystemStats::zero(),
            f.spec_awaiting() is None,
    {
        FileSystemFirewall {
            config,
            console: GuardianConsole::new(),
            operation_log: Vec::new(),
            stats: FileSystemStats::default(),
            awaiting: None,
        }
    }

    fn record(&mut self, path: &str, operation: FileOpType, timestamp: u64, success: bool, blocked: bool)
        ensures
            final(self).config == old(self).config,
            final(self).stats == old(self).stats,
            final(self).awaiting == old(self).awaiting,
            op_logged(
                old(self).operation_log@,
                final(self).operation_log@,
                old(self).config.log_all_operations,
                path@,
                operation,
                success,
                blocked,
            ),
    {
        if self.config.log_all_operations {
            self.operation_log.push(
                FileOperation { path: owned(path), operation, timestamp, success, blocked },
            );
            proof {
                assert(self.operation_log@.drop_last() =~= old(self).operation_log@);
            }
        }
    }

    /// Check if path matches pattern (simple glob matching)
    pub fn matches_pattern(&self, path: &str, pattern: &str) -> (b: bool)
        ensures
            b == pattern_matches(path@, pattern@),
    {
        let normalized_path = replace_all(path, "\\", "/");
        let normalized_pattern = replace_all(pattern, "\\", "/");
        let parts = split(normalized_pattern.as_str(), "*");
        let k = parts.len();
        if k >= 2 {
            proof {
                assert(parts@[0]@ == views(parts@)[0]);
                assert(parts@[k - 1]@ == views(parts@)[k - 1]);
            }
            let starts = starts_with(normalized_path.as_str(), parts[0].as_str());
            let ends = ends_with(normalized_path.as_str(), parts[k - 1].as_str());
            if !(starts && ends) {
                return false;
            }
            let v = chars_of(normalized_path.as_str());
            let last_len = chars_of(parts[k - 1].as_str()).len();
            let body = string_of_range(&v, 0, v.len() - last_len);
            let s = chars_of(body.as_str());
            let first_len = chars_of(parts[0].as_str()).len();
            proof {
                assert(s@ =~= v@.take(v@.len() - last_len));
            }
            return parts_in_order_exec(&s, &parts, first_len);
        }
        contains(normalized_path.as_str(), normalized_pattern.as_str())
    }

    /// The first blocked pattern that matches the path, if any.
    fn find_blocked_pattern(&self, path: &str) -> (r: Option<usize>)
        ensures
            match r {
                Some(i) => i < self.config.blocked_patterns.len() && pattern_matches(
                    path@,
                    self.config.blocked_patterns@[i as int]@,
                ),
                None => !pattern_hit(self.config, path@),
            },
    {
        let mut i: usize = 0;
        while i < self.config.blocked_patterns.len()
            invariant
                i <= self.config.blocked_patterns.len(),
                forall|k: int|
                    0 <= k < i ==> !pattern_matches(
                        path@,
                        #[trigger] self.config.blocked_patterns@[k]@,
                    ),
            decreases self.config.blocked_patterns.len() - i,
        {
            if self.matches_pattern(path, self.config.blocked_patterns[i].as_str()) {
                return Some(i);
            }
            i = i + 1;
        }
        proof {
            assert forall|q: Seq<char>| #[trigger]
                self.config.patterns().contains(q) implies !pattern_matches(path@, q) by {
                let k = choose|k: int|
                    0 <= k < views(self.config.blocked_patterns@).len() && views(
                        self.config.blocked_patterns@,
                    )[k] == q;
                assert(self.config.blocked_patterns@[k]@ == q);
            }
        }
        None
    }

    /// Whether the allowed list is empty or the path lies under one of its
    /// entries.
    fn is_whitelisted(&self, path: &str) -> (b: bool)
        ensures
            b == path_whitelisted(self.config, path@),
    {
        let n = self.config.allowed_paths.len();
        if n == 0 {
            return true;
        }
        let mut i: usize = 0;
        while i < n
            invariant
                n == self.config.allowed_paths.len(),
                i <= n,
                forall|k: int|
                    0 <= k < i ==> !path_components_start_with(
                        path@,
                        #[trigger] self.config.allowed_paths@[k]@,
                    ),
            decreases n - i,
        {
            if path_starts_with(path, self.config.allowed_paths[i].as_str()) {
                proof {
                    let a = self.config.allowed_paths@[i as int]@;
                    assert(views(self.config.allowed_paths@)[i as int] == a);
                    assert(views(self.config.allowed_paths@).contains(a));
                    assert(self.config.allowed().contains(a));
                }
                return true;
            }
            i = i + 1;
        }
        proof {
            assert forall|a: Seq<char>| #[trigger]
                self.config.allowed().contains(a) implies !path_components_start_with(
                path@,
                a,
            ) by {
                let k = choose|k: int|
                    0 <= k < views(self.config.allowed_paths@).len() && views(
                        self.config.allowed_paths@,
                    )[k] == a;
                assert(self.config.allowed_paths@[k]@ == a);
            }
        }
        false
    }

    /// The whitelist step: allow and log a whitelisted path, else wait for
    /// the owner.
    fn finish(&mut self, path: &str, operation: FileOpType, timestamp: u64) -> (r: FileCheck)
        requires
            old(self).wf(),
            old(self).spec_awaiting() is None,
            old(self).spec_stats().allowed_operations + old(self).spec_stats().blocked_operations
                < old(self).spec_stats().total_operations,
        ensures
            final(self).wf(),
            final(self).config == old(self).config,
            path_step(
                old(self).spec_config(),
                old(self).spec_stats(),
                final(self).spec_stats(),
                old(self).spec_log(),
                final(self).spec_log(),
                final(self).spec_awaiting(),
                path@,
                operation,
                r,
            ),
    {
        if self.is_whitelisted(path) {
            self.record(path, operation, timestamp, true, false);
            self.stats.allowed_operations = self.stats.allowed_operations + 1;
            FileCheck::Allowed
        } else {
            self.awaiting = Some(
                PendingOperation {
                    path: owned(path),
                    operation,
                    stage: ApprovalStage::PathNotWhitelisted,
                    timestamp,
                },
            );
            FileCheck::NeedsApproval(ApprovalStage::PathNotWhitelisted)
        }
    }

    /// Check if a file operation is allowed.  In order: a path that matches
    /// a blocked pattern is blocked; a sensitive operation waits for the
    /// owner when approval is required; a path outside the allowed paths
    /// (when there are any) waits for the owner; anything else is allowed.
    /// Every operation is counted, and every decided one logged when
    /// configured.
    pub fn check_operation(&mut self, path: &str, operation: FileOpType) -> (r: FileCheck)
        requires
            old(self).wf(),
            old(self).spec_stats().total_operations < u64::MAX,
        ensures
            final(self).wf(),
            final(self).spec_config() == old(self).spec_config(),
            ({
                let c = old(self).spec_config();
                let s = old(self).spec_stats();
                let log0 = old(self).spec_log();
                let log1 = final(self).spec_log();
                if pattern_hit(c, path@) {
                    &&& r matches FileCheck::BlockedPattern(q) && c.patterns().contains(q@)
                        && pattern_matches(path@, q@)
                    &&& final(self).spec_stats() == s.bumped(1, 0, 1, 0, 1)
                    &&& op_logged(log0, log1, c.log_all_operations, path@, operation, false, true)
                    &&& final(self).spec_awaiting() is None
                } else if operation.spec_is_sensitive() && c.require_approval_for_sensitive {
                    &&& r matches FileCheck::NeedsApproval(ApprovalStage::SensitiveOperation)
                    &&& final(self).spec_stats() == s.bumped(1, 0, 0, 1, 0)
                    &&& log1 == log0
                    &&& final(self).spec_awaiting() == Some(
                        (path@, operation, ApprovalStage::SensitiveOperation),
                    )
                } else {
                    path_step(
                        c,
                        s.bumped(1, 0, 0, 0, 0),
                        final(self).spec_stats(),
                        log0,
                        log1,
                        final(self).spec_awaiting(),
                        path@,
                        operation,
                        r,
                    )
                }
            }),
    {
        let timestamp = crate::clock::unix_time_secs();
        self.stats.total_operations = self.stats.total_operations + 1;
        self.awaiting = None;
        match self.find_blocked_pattern(path) {
            Some(i) => {
                let pattern = self.config.blocked_patterns[i].clone();
                proof {
                    assert(views(self.config.blocked_patterns@)[i as int] == pattern@);
                    assert(views(self.config.blocked_patterns@).contains(pattern@));
                    assert(self.config.patterns().contains(pattern@));
                }
                self.stats.blocked_operations = self.stats.blocked_operations + 1;
                self.stats.blocked_patterns_hits = self.stats.blocked_patterns_hits + 1;
                self.record(path, operation, timestamp, false, true);
                return FileCheck::BlockedPattern(pattern);
            },
            None => {},
        }
        if operation.is_sensitive() && self.config.require_approval_for_sensitive {
            self.stats.sensitive_access = self.stats.sensitive_access + 1;
            self.awaiting = Some(
                PendingOperation {
                    path: owned(path),
                    operation,
                    stage: ApprovalStage::SensitiveOperation,
                    timestamp,
                },
            );
            return FileCheck::NeedsApproval(ApprovalStage::SensitiveOperation);
        }
        self.finish(path, operation, timestamp)
    }

    /// Whether an operation waits for the owner's answer.
    pub fn awaiting_approval(&self) -> (b: bool)
        ensures
            b == self.spec_awaiting() is Some,
    {
        self.awaiting.is_some()
    }

    /// Applies the owner's answer to the waiting operation.  A refusal
    /// blocks, counts and logs it; a failed prompt is reported as an error;
    /// an approval of a sensitive operation goes on to the whitelist step,
    /// and an approval of a path outside the whitelist allows, counts and
    /// logs it.
    pub fn answer_operation(&mut self, answer: Result<bool, String>) -> (r: Result<FileCheck, String>)
        requires
            old(self).wf(),
            old(self).spec_awaiting() is Some,
        ensures
            final(self).wf(),
            final(self).spec_config() == old(self).spec_config(),
            ({
                let (path, op, stage) = old(self).spec_awaiting()->0;
                let c = old(self).spec_config();
                let s = old(self).spec_stats();
                let log0 = old(self).spec_log();
                let log1 = final(self).spec_log();
                match answer {
                    Err(e) => {
                        &&& r matches Err(m) && m@ == approval_error_seq(e@)
                        &&& final(self).spec_stats() == s
                        &&& log1 == log0
                        &&& final(self).spec_awaiting() is None
                    },
                    Ok(false) => {
                        &&& r matches Ok(FileCheck::Denied)
                        &&& final(self).spec_stats() == s.bumped(0, 0, 1, 0, 0)
                        &&& op_logged(log0, log1, c.log_all_operations, path, op, false, true)
                        &&& final(self).spec_awaiting() is None
                    },
                    Ok(true) => match stage {
                        ApprovalStage::SensitiveOperation => r matches Ok(x) && path_step(
                            c,
                            s,
                            final(self).spec_stats(),
                            log0,
                            log1,
                            final(self).spec_awaiting(),
                            path,
                            op,
                            x,
                        ),
                        ApprovalStage::PathNotWhitelisted => {
                            &&& r matches Ok(FileCheck::Allowed)
                            &&& final(self).spec_stats() == s.bumped(0, 1, 0, 0, 0)
                            &&& op_logged(log0, log1, c.log_all_operations, path, op, true, false)
                            &&& final(self).spec_awaiting() is None
                        },
                    },
                }
            }),
    {
        let pending = self.awaiting.take().unwrap();
        match answer {
            Err(e) => Err(approval_error(e.as_str())),
            Ok(false) => {
                self.stats.blocked_operations = self.stats.blocked_operations + 1;
                self.record(pending.path.as_str(), pending.operation, pending.timestamp, false, true);
                Ok(FileCheck::Denied)
            },
            Ok(true) => match pending.stage {
                ApprovalStage::SensitiveOperation => Ok(
                    self.finish(pending.path.as_str(), pending.operation, pending.timestamp),
                ),
                ApprovalStage::PathNotWhitelisted => {
                    self.record(
                        pending.path.as_str(),
                        pending.operation,
                        pending.timestamp,
                        true,
                        false,
                    );
                    self.stats.allowed_operations = self.stats.allowed_operations + 1;
                    Ok(FileCheck::Allowed)
                },
            },
        }
    }

    /// Log a file operation
    pub fn log_operation(&mut self, operation: FileOperation)
        ensures
            final(self).spec_log() == old(self).spec_log().push(operation),
            final(self).spec_config() == old(self).spec_config(),
            final(self).spec_stats() == old(self).spec_stats(),
            final(self).spec_awaiting() == old(self).spec_awaiting(),
    {
        self.operation_log.push(operation);
    }

    /// Get operation log
    pub fn get_operation_log(&self) -> (r: Vec<FileOperation>)
        ensures
            r@ == self.spec_log(),
    {
        let mut r: Vec<FileOperation> = Vec::new();
        let mut i: usize = 0;
        while i < self.operation_log.len()
            invariant
                i <= self.operation_log.len(),
                r@ == self.operation_log@.take(i as int),
            decreases self.operation_log.len() - i,
        {
            r.push(self.operation_log[i].clone());
            proof {
                assert(self.operation_log@.take(i + 1) == self.operation_log@.take(i as int).push(
                    self.operation_log@[i as int],
                ));
            }
            i = i + 1;
        }
        proof {
            assert(self.operation_log@.take(self.operation_log@.len() as int)
                == self.operation_log@);
        }
        r
    }

    /// Get statistics
    pub fn get_stats(&self) -> (s: FileSystemStats)
        ensures
            s == self.spec_stats(),
    {
        self.stats
    }

    /// Add allowed path
    pub fn add_allowed_path(&mut self, path: &str)
        ensures
            final(self).spec_config().allowed() == old(self).spec_config().allowed().insert(path@),
            final(self).spec_config().allowed_paths@.len() > 0,
            final(self).spec_config().blocked_patterns == old(self).spec_config().blocked_patterns,
            final(self).spec_config().max_file_size_mb == old(self).spec_config().max_file_size_mb,
            final(self).spec_config().require_approval_for_sensitive == old(
                self,
            ).spec_config().require_approval_for_sensitive,
            final(self).spec_config().log_all_operations == old(self).spec_config().log_all_operations,
            final(self).spec_log() == old(self).spec_log(),
            final(self).spec_stats() == old(self).spec_stats(),
            final(self).spec_awaiting() == old(self).spec_awaiting(),
    {
        list_insert(&mut self.config.allowed_paths, owned(path));
        proof {
            assert(self.config.allowed().contains(path@));
            assert(views(self.config.allowed_paths@).contains(path@));
        }
    }

    /// Add blocked pattern
    pub fn add_blocked_pattern(&mut self, pattern: &str)
        ensures
            final(self).spec_config().patterns() == old(self).spec_config().patterns().insert(
                pattern@,
            ),
            final(self).spec_config().allowed_paths == old(self).spec_config().allowed_paths,
            final(self).spec_config().max_file_size_mb == old(self).spec_config().max_file_size_mb,
            final(self).spec_config().require_approval_for_sensitive == old(
                self,
            ).spec_config().require_approval_for_sensitive,
            final(self).spec_config().log_all_operations == old(self).spec_config().log_all_operations,
            final(self).spec_log() == old(self).spec_log(),
            final(self).spec_stats() == old(self).spec_stats(),
            final(self).spec_awaiting() == old(self).spec_awaiting(),
    {
        list_insert(&mut self.config.blocked_patterns, owned(pattern));
    }

    /// Remove allowed path
    pub fn remove_allowed_path(&mut self, path: &str)
        ensures
            final(self).spec_config().allowed() == old(self).spec_config().allowed().remove(path@),
            final(self).spec_config().blocked_patterns == old(self).spec_config().blocked_patterns,
            final(self).spec_config().max_file_size_mb == old(self).spec_config().max_file_size_mb,
            final(self).spec_config().require_approval_for_sensitive == old(
                self,
            ).spec_config().require_approval_for_sensitive,
            final(self).spec_config().log_all_operations == old(self).spec_config().log_all_operations,
            final(self).spec_log() == old(self).spec_log(),
            final(self).spec_stats() == old(self).spec_stats(),
            final(self).spec_awaiting() == old(self).spec_awaiting(),
    {
        list_remove(&mut self.config.allowed_paths, path);
    }

    /// Remove blocked pattern
    pub fn remove_blocked_pattern(&mut self, pattern: &str)
        ensures
            final(self).spec_config().patterns() == old(self).spec_config().patterns().remove(
                pattern@,
            ),
            final(self).spec_config().allowed_paths == old(self).spec_config().allowed_paths,
            final(self).spec_config().max_file_size_mb == old(self).spec_config().max_file_size_mb,
            final(self).spec_config().require_approval_for_sensitive == old(
                self,
            ).spec_config().require_approval_for_sensitive,
            final(self).spec_config().log_all_operations == old(self).spec_config().log_all_operations,
            final(self).spec_log() == old(self).spec_log(),
            final(self).spec_stats() == old(self).spec_stats(),
            final(self).spec_awaiting() == old(self).spec_awaiting(),
    {
        list_remove(&mut self.config.blocked_patterns, pattern);
    }

    /// Set max file size
    pub fn set_max_file_size(&mut self, size_mb: u64)
        ensures
            final(self).spec_config().max_file_size_mb == size_mb,
            final(self).spec_config().allowed_paths == old(self).spec_config().allowed_paths,
            final(self).spec_config().blocked_patterns == old(self).spec_config().blocked_patterns,
            final(self).spec_config().require_approval_for_sensitive == old(
                self,
            ).spec_config().require_approval_for_sensitive,
            final(self).spec_config().log_all_operations == old(self).spec_config().log_all_operations,
            final(self).spec_log() == old(self).spec_log(),
            final(self).spec_stats() == old(self).spec_stats(),
            final(self).spec_awaiting() == old(self).spec_awaiting(),
    {
        self.config.max_file_size_mb = size_mb;
    }

    /// Enable/disable approval for sensitive operations
    pub fn set_require_approval(&mut self, require: bool)
        ensures
            final(self).spec_config().require_approval_for_sensitive == require,
            final(self).spec_config().allowed_paths == old(self).spec_config().allowed_paths,
            final(self).spec_config().blocked_patterns == old(self).spec_config().blocked_patterns,
            final(self).spec_config().max_file_size_mb == old(self).spec_config().max_file_size_mb,
            final(self).spec_config().log_all_operations == old(self).spec_config().log_all_operations,
            final(self).spec_log() == old(self).spec_log(),
            final(self).spec_stats() == old(self).spec_stats(),
            final(self).spec_awaiting() == old(self).spec_awaiting(),
    {
        self.config.require_approval_for_sensitive = require;
    }
}

// ---------------------------------------------------------------------
// Laws
// ---------------------------------------------------------------------

/// After `add_blocked_pattern(pattern)`, every path that the pattern
/// matches is blocked.
pub proof fn law_added_pattern_blocks_path(
    before: FileSystemConfig,
    after: FileSystemConfig,
    pattern: Seq<char>,
    path: Seq<char>,
)
    requires
        after.patterns() == before.patterns().insert(pattern),
        pattern_matches(path, pattern),
    ensures
        pattern_hit(after, path),
{
    assert(after.patterns().contains(pattern));
}

/// With no allowed paths configured, every path passes the whitelist
/// step.
pub proof fn law_empty_whitelist_allows(config: FileSystemConfig, path: Seq<char>)
    requires
        config.allowed_paths@.len() == 0,
    ensures
        path_whitelisted(config, path),
{
}

/// A pattern without `*` matches exactly the paths that contain it (after
/// backslashes become slashes).
pub proof fn law_plain_pattern_is_substring(path: Seq<char>, pattern: Seq<char>)
    requires
        !has_infix(slashed(pattern), "*"@),
    ensures
        pattern_matches(path, pattern) == has_infix(slashed(path), slashed(pattern)),
{
    let q = slashed(pattern);
    reveal_strlit("*");
    lemma_find_from(q, "*"@, 0);
    assert(find_from(q, "*"@, 0) is None) by {
        if find_from(q, "*"@, 0) is Some {
            assert(occurs_at(q, "*"@, find_from(q, "*"@, 0)->0));
        }
    }
}

/// The name of an operation type parses back to the same type.
pub proof fn law_op_name_parses_back(op: FileOpType)
    ensures
        is_ascii_seq(op.spec_as_str()),
        FileOpType::spec_parse(ascii_lower_seq(op.spec_as_str())) == Some(op),
{
    reveal_strlit("READ");
    reveal_strlit("WRITE");
    reveal_strlit("DELETE");
    reveal_strlit("CREATE");
    reveal_strlit("RENAME");
    reveal_strlit("COPY");
    reveal_strlit("EXECUTE");
    reveal_strlit("read");
    reveal_strlit("write");
    reveal_strlit("delete");
    reveal_strlit("create");
    reveal_strlit("rename");
    reveal_strlit("copy");
    reveal_strlit("execute");
    let low = ascii_lower_seq(op.spec_as_str());
    assert("copy"@[0] != "read"@[0]);
    assert("create"@[0] != "delete"@[0]);
    assert("rename"@[0] != "delete"@[0] && "rename"@[0] != "create"@[0]);
    match op {
        FileOpType::Read => assert(low =~= "read"@),
        FileOpType::Write => assert(low =~= "write"@),
        FileOpType::Delete => assert(low =~= "delete"@),
        FileOpType::Create => assert(low =~= "create"@),
        FileOpType::Rename => assert(low =~= "rename"@),
        FileOpType::Copy => assert(low =~= "copy"@),
        FileOpType::Execute => assert(low =~= "execute"@),
    }
}

} // verus!
