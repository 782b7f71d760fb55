//! Database Firewall for Guardian
//! Protects against SQL injection and dangerous queries

use vstd::prelude::*;
use super::console::{approval_error, approval_error_seq, GuardianConsole};
use crate::string::functions::{starts_with, trim, views};
use crate::strlist::{copy_list, list_insert, list_remove, list_set, owned};
use crate::text::{
    ascii_upper_seq, chars_of, find_from_exec, has_infix, has_prefix, is_ascii_seq, lemma_find_from,
    str_upper, to_uppercase, trim_seq, trim_start_seq,
};

verus! {

broadcast use vstd::string::group_string_axioms;

/// Database firewall configuration
pub struct DatabaseConfig {
    pub blocked_keywords: Vec<String>,
    pub blocked_patterns: Vec<String>,
    pub max_rows_affected: usize,
    pub require_approval_for_dangerous: bool,
    pub log_all_queries: bool,
}

impl DatabaseConfig {
    pub open spec fn keywords(&self) -> Set<Seq<char>> {
        list_set(self.blocked_keywords@)
    }

    pub open spec fn patterns(&self) -> Set<Seq<char>> {
        list_set(self.blocked_patterns@)
    }
}

impl Clone for DatabaseConfig {
    fn clone(&self) -> (r: Self)
        ensures
            r.blocked_keywords@ == self.blocked_keywords@,
            r.blocked_patterns@ == self.blocked_patterns@,
            r.max_rows_affected == self.max_rows_affected,
            r.require_approval_for_dangerous == self.require_approval_for_dangerous,
            r.log_all_queries == self.log_all_queries,
    {
        DatabaseConfig {
            blocked_keywords: copy_list(&self.blocked_keywords),
            blocked_patterns: copy_list(&self.blocked_patterns),
            max_rows_affected: self.max_rows_affected,
            require_approval_for_dangerous: self.require_approval_for_dangerous,
            log_all_queries: self.log_all_queries,
        }
    }
}

impl Default for DatabaseConfig {
    /// Seven dangerous SQL keywords, eight SQL-injection patterns, at most
    /// 1000 affected rows, approval required for dangerous queries, and every
    /// query logged.
    fn default() -> (c: Self)
        ensures
            views(c.blocked_keywords@) == seq![
                "DROP TABLE"@,
                "DROP DATABASE"@,
                "TRUNCATE"@,
                "DELETE FROM"@,
                "ALTER TABLE"@,
                "GRANT"@,
                "REVOKE"@,
            ],
            views(c.blocked_patterns@) == seq![
                "' OR '1'='1"@,
                "' OR 1=1"@,
                "' OR ''='"@,
                "UNION SELECT"@,
                "UNION ALL SELECT"@,
                "'; DROP TABLE"@,
                "--"@,
                "/*"@,
            ],
            c.max_rows_affected == 1000,
            c.require_approval_for_dangerous,
            c.log_all_queries,
    {
        let mut k: Vec<String> = Vec::new();
        k.push(owned("DROP TABLE"));
        k.push(owned("DROP DATABASE"));
        k.push(owned("TRUNCATE"));
        k.push(owned("DELETE FROM"));
        k.push(owned("ALTER TABLE"));
        k.push(owned("GRANT"));
        k.push(owned("REVOKE"));
        let mut p: Vec<String> = Vec::new();
        p.push(owned("' OR '1'='1"));
        p.push(owned("' OR 1=1"));
        p.push(owned("' OR ''='"));
        p.push(owned("UNION SELECT"));
        p.push(owned("UNION ALL SELECT"));
        p.push(owned("'; DROP TABLE"));
        p.push(owned("--"));
        p.push(owned("/*"));
        let c = DatabaseConfig {
            blocked_keywords: k,
            blocked_patterns: p,
            max_rows_affected: 1000,
            require_approval_for_dangerous: true,
            log_all_queries: true,
        };
        proof {
            assert(views(c.blocked_keywords@) =~= seq![
                "DROP TABLE"@,
                "DROP DATABASE"@,
                "TRUNCATE"@,
                "DELETE FROM"@,
                "ALTER TABLE"@,
                "GRANT"@,
                "REVOKE"@,
            ]);
            assert(views(c.blocked_patterns@) =~= seq![
                "' OR '1'='1"@,
                "' OR 1=1"@,
                "' OR ''='"@,
                "UNION SELECT"@,
                "UNION ALL SELECT"@,
                "'; DROP TABLE"@,
                "--"@,
                "/*"@,
            ]);
        }
        c
    }
}

/// Query type
#[derive(Clone, Copy, Debug, PartialEq, Eq, Structural)]
pub enum QueryType {
    Select,
    Insert,
    Update,
    Delete,
    Create,
    Drop,
    Alter,
    Truncate,
    Unknown,
}

/// The type of a query whose trimmed, upper-cased text is `up`: the first
/// keyword, in this order, that `up` starts with.
pub open spec fn classify(up: Seq<char>) -> QueryType {
    if has_prefix(up, "SELECT"@) {
        QueryType::Select
    } else if has_prefix(up, "INSERT"@) {
        QueryType::Insert
    } else if has_prefix(up, "UPDATE"@) {
        QueryType::Update
    } else if has_prefix(up, "DELETE"@) {
        QueryType::Delete
    } else if has_prefix(up, "CREATE"@) {
        QueryType::Create
    } else if has_prefix(up, "DROP"@) {
        QueryType::Drop
    } else if has_prefix(up, "ALTER"@) {
        QueryType::Alter
    } else if has_prefix(up, "TRUNCATE"@) {
        QueryType::Truncate
    } else {
        QueryType::Unknown
    }
}

/// The type of the SQL text `sql`.
pub open spec fn query_type_of(sql: Seq<char>) -> QueryType {
    classify(str_upper(trim_seq(sql)))
}

impl QueryType {
    pub fn from_sql(sql: &str) -> (t: Self)
        ensures
            t == query_type_of(sql@),
            is_ascii_seq(trim_seq(sql@)) ==> t == classify(ascii_upper_seq(trim_seq(sql@))),
    {
        let t = trim(sql);
        let up = to_uppercase(t.as_str());
        let u = up.as_str();
        if starts_with(u, "SELECT") {
            QueryType::Select
        } else if starts_with(u, "INSERT") {
            QueryType::Insert
        } else if starts_with(u, "UPDATE") {
            QueryType::Update
        } else if starts_with(u, "DELETE") {
            QueryType::Delete
        } else if starts_with(u, "CREATE") {
            QueryType::Create
        } else if starts_with(u, "DROP") {
            QueryType::Drop
        } else if starts_with(u, "ALTER") {
            QueryType::Alter
        } else if starts_with(u, "TRUNCATE") {
            QueryType::Truncate
        } else {
            QueryType::Unknown
        }
    }

    pub open spec fn spec_is_dangerous(self) -> bool {
        self is Drop || self is Delete || self is Truncate || self is Alter
    }

    pub fn is_dangerous(&self) -> (b: bool)
        ensures
            b == self.spec_is_dangerous(),
    {
        match self {
            QueryType::Drop | QueryType::Delete | QueryType::Truncate | QueryType::Alter => true,
            _ => false,
        }
    }

    pub open spec fn spec_as_str(self) -> Seq<char> {
        match self {
            QueryType::Select => "SELECT"@,
            QueryType::Insert => "INSERT"@,
            QueryType::Update => "UPDATE"@,
            QueryType::Delete => "DELETE"@,
            QueryType::Create => "CREATE"@,
            QueryType::Drop => "DROP"@,
            QueryType::Alter => "ALTER"@,
            QueryType::Truncate => "TRUNCATE"@,
            QueryType::Unknown => "UNKNOWN"@,
        }
    }

    pub fn as_str(&self) -> (r: &'static str)
        ensures
            r@ == self.spec_as_str(),
    {
        match self {
            QueryType::Select => "SELECT",
            QueryType::Insert => "INSERT",
            QueryType::Update => "UPDATE",
            QueryType::Delete => "DELETE",
            QueryType::Create => "CREATE",
            QueryType::Drop => "DROP",
            QueryType::Alter => "ALTER",
            QueryType::Truncate => "TRUNCATE",
            QueryType::Unknown => "UNKNOWN",
        }
    }
}

/// Database query info
pub struct DatabaseQuery {
    pub sql: String,
    pub query_type: QueryType,
    pub timestamp: u64,
    pub rows_affected: Option<usize>,
    pub blocked: bool,
}

impl Clone for DatabaseQuery {
    fn clone(&self) -> (r: Self)
        ensures
            r == *self,
    {
        DatabaseQuery {
            sql: self.sql.clone(),
            query_type: self.query_type,
            timestamp: self.timestamp,
            rows_affected: self.rows_affected,
            blocked: self.blocked,
        }
    }
}

/// Database statistics
#[derive(Clone, Copy, Debug)]
pub struct DatabaseStats {
    pub total_queries: u64,
    pub allowed_queries: u64,
    pub blocked_queries: u64,
    pub dangerous_queries: u64,
    pub injection_attempts: u64,
}

impl DatabaseStats {
    pub open spec fn zero() -> DatabaseStats {
        DatabaseStats {
            total_queries: 0,
            allowed_queries: 0,
            blocked_queries: 0,
            dangerous_queries: 0,
            injection_attempts: 0,
        }
    }

    /// These counters increased by the given amounts (total, allowed,
    /// blocked, dangerous, injection attempts).
    pub open spec fn bumped(self, t: int, a: int, b: int, d: int, i: int) -> DatabaseStats {
        DatabaseStats {
            total_queries: (self.total_queries + t) as u64,
            allowed_queries: (self.allowed_queries + a) as u64,
            blocked_queries: (self.blocked_queries + b) as u64,
            dangerous_queries: (self.dangerous_queries + d) as u64,
            injection_attempts: (self.injection_attempts + i) as u64,
        }
    }
}

impl Default for DatabaseStats {
    fn default() -> (s: Self)
        ensures
            s == DatabaseStats::zero(),
    {
        DatabaseStats {
            total_queries: 0,
            allowed_queries: 0,
            blocked_queries: 0,
            dangerous_queries: 0,
            injection_attempts: 0,
        }
    }
}

/// The outcome of checking a query.
pub enum QueryCheck {
    /// The query may run.
    Allowed,
    /// The query contains this SQL-injection pattern: blocked.
    InjectionBlocked(String),
    /// The query contains this dangerous keyword: blocked.
    KeywordBlocked(String),
    /// The query is of a dangerous type: the owner decides, through
    /// `answer_query`.
    NeedsApproval,
}

/// Some blocked pattern, upper-cased, occurs in the upper-cased query.
pub open spec fn injection_hit(config: DatabaseConfig, sql: Seq<char>) -> bool {
    exists|p: Seq<char>| config.patterns().contains(p) && has_infix(str_upper(sql), str_upper(p))
}

/// Some blocked keyword occurs in the upper-cased query.
pub open spec fn keyword_hit(config: DatabaseConfig, sql: Seq<char>) -> bool {
    exists|k: Seq<char>| config.keywords().contains(k) && has_infix(str_upper(sql), k)
}

/// `new` is `old`, plus one entry for `sql` when `log_all` is set.
pub open spec fn logged_once(
    old: Seq<DatabaseQuery>,
    new: Seq<DatabaseQuery>,
    log_all: bool,
    sql: Seq<char>,
    query_type: QueryType,
    blocked: bool,
) -> bool {
    if log_all {
        &&& new.len() == old.len() + 1
        &&& new.drop_last() == old
        &&& new.last().sql@ == sql
        &&& new.last().query_type == query_type
        &&& new.last().rows_affected is None
        &&& new.last().blocked == blocked
    } else {
        new == old
    }
}

/// A query that waits for the owner's answer.
pub struct PendingQuery {
    pub sql: String,
    pub query_type: QueryType,
    pub timestamp: u64,
}

/// Database Firewall - Protects against SQL injection and dangerous queries
pub struct DatabaseFirewall {
    config: DatabaseConfig,
    console: GuardianConsole,
    query_log: Vec<DatabaseQuery>,
    stats: DatabaseStats,
    awaiting: Option<PendingQuery>,
}

/// Index of the first entry of `list` that occurs in `hay` (upper-cased
/// first when `upper` is set).
fn first_hit(list: &Vec<String>, hay: &Vec<char>, upper: bool) -> (r: Option<usize>)
    ensures
        match r {
            Some(i) => i < list.len() && has_infix(
                hay@,
                if upper {
                    str_upper(list@[i as int]@)
                } else {
                    list@[i as int]@
                },
            ),
            None => forall|p: Seq<char>|
                #![trigger list_set(list@).contains(p)]
                list_set(list@).contains(p) ==> !has_infix(
                    hay@,
                    if upper {
                        str_upper(p)
                    } else {
                        p
                    },
                ),
        },
{
    let mut i: usize = 0;
    while i < list.len()
        invariant
            i <= list.len(),
            forall|k: int|
                0 <= k < i ==> !has_infix(
                    hay@,
                    if upper {
                        str_upper(#[trigger] list@[k]@)
                    } else {
                        list@[k]@
                    },
                ),
        decreases list.len() - i,
    {
        let pat = if upper {
            to_uppercase(list[i].as_str())
        } else {
            list[i].clone()
        };
        let p = chars_of(pat.as_str());
        proof {
            lemma_find_from(hay@, p@, 0);
        }
        if find_from_exec(hay, &p, 0).is_some() {
            return Some(i);
        }
        i = i + 1;
    }
    proof {
        assert forall|p: Seq<char>| #![trigger list_set(list@).contains(p)]
            list_set(list@).contains(p) implies !has_infix(
            hay@,
            if upper {
                str_upper(p)
            } else {
                p
            },
        ) by {
            let k = choose|k: int| 0 <= k < views(list@).len() && views(list@)[k] == p;
            assert(list@[k]@ == p);
        }
    }
    None
}

impl DatabaseFirewall {
    pub closed spec fn spec_config(&self) -> DatabaseConfig {
        self.config
    }

    pub closed spec fn spec_log(&self) -> Seq<DatabaseQuery> {
        self.query_log@
    }

    pub closed spec fn spec_stats(&self) -> DatabaseStats {
        self.stats
    }

    /// The text and type of the query that waits for the owner, if any.
    pub closed spec fn spec_awaiting(&self) -> Option<(Seq<char>, QueryType)> {
        match self.awaiting {
            Some(p) => Some((p.sql@, p.query_type)),
            None => None,
        }
    }

    /// The invariant on the counters: every query counts once in the
    /// total, and at most once as allowed, blocked or awaiting; injection
    /// attempts and dangerous queries are counted once each, and every
    /// blocked query is one of them.
    pub open spec fn wf(&self) -> bool {
        let s = self.spec_stats();
        &&& s.allowed_queries + s.blocked_queries + (if self.spec_awaiting() is Some {
            1int
        } else {
            0
        }) <= s.total_queries
        &&& s.injection_attempts <= s.blocked_queries
        &&& s.blocked_queries + (if self.spec_awaiting() is Some {
            1int
        } else {
            0
        }) <= s.injection_attempts + s.dangerous_queries
        &&& s.injection_attempts + s.dangerous_queries <= s.total_queries
        &&& self.spec_awaiting() matches Some((_, t)) ==> t.spec_is_dangerous()
    }

    /// Create new database firewall
    pub fn new(config: DatabaseConfig) -> (f: Self)
        ensures
            f.wf(),
            f.spec_config() == config,
            f.spec_log() == Seq::<DatabaseQuery>::empty(),
            f.spec_stats() == DatabaseStats::zero(),
            f.spec_awaiting() is None,
    {
        DatabaseFirewall {
            config,
            console: GuardianConsole::new(),
            query_log: Vec::new(),
            stats: DatabaseStats::default(),
            awaiting: None,
        }
    }

    fn record(&mut self, sql: &str, query_type: QueryType, timestamp: u64, blocked: bool)
        ensures
            final(self).config == old(self).config,
            final(self).stats == old(self).stats,
            final(self).awaiting == old(self).awaiting,
            logged_once(
                old(self).query_log@,
                final(self).query_log@,
                old(self).config.log_all_queries,
                sql@,
                query_type,
                blocked,
            ),
    {
        if self.config.log_all_queries {
            self.query_log.push(
                DatabaseQuery {
                    sql: owned(sql),
                    query_type,
                    timestamp,
                    rows_affected: None,
                    blocked,
                },
            );
            proof {
                assert(self.query_log@.drop_last() =~= old(self).query_log@);
            }
        }
    }

    /// Check if a SQL query is allowed.  In order: a query containing an
    /// injection pattern (compared upper-cased) is blocked; one containing
    /// a blocked keyword is blocked; one of a dangerous type waits for the
    /// owner when approval is required; anything else is allowed.  Every
    /// query is counted, and every decided query logged when configured.
    pub fn check_query(&mut self, sql: &str) -> (r: QueryCheck)
        requires
            old(self).wf(),
            old(self).spec_stats().total_queries < u64::MAX,
        ensures
            final(self).wf(),
            final(self).spec_config() == old(self).spec_config(),
            ({
                let c = old(self).spec_config();
                let s = old(self).spec_stats();
                let t = query_type_of(sql@);
                let log0 = old(self).spec_log();
                let log1 = final(self).spec_log();
                if injection_hit(c, sql@) {
                    &&& r matches QueryCheck::InjectionBlocked(p) && c.patterns().contains(p@)
                        && has_infix(str_upper(sql@), str_upper(p@))
                    &&& final(self).spec_stats() == s.bumped(1, 0, 1, 0, 1)
                    &&& logged_once(log0, log1, c.log_all_queries, sql@, t, true)
                    &&& final(self).spec_awaiting() is None
                } else if keyword_hit(c, sql@) {
                    &&& r matches QueryCheck::KeywordBlocked(k) && c.keywords().contains(k@)
                        && has_infix(str_upper(sql@), k@)
                    &&& final(self).spec_stats() == s.bumped(1, 0, 1, 1, 0)
                    &&& logged_once(log0, log1, c.log_all_queries, sql@, t, true)
                    &&& final(self).spec_awaiting() is None
                } else if t.spec_is_dangerous() && c.require_approval_for_dangerous {
                    &&& r is NeedsApproval
                    &&& final(self).spec_stats() == s.bumped(1, 0, 0, 1, 0)
                    &&& log1 == log0
                    &&& final(self).spec_awaiting() == Some((sql@, t))
                } else {
                    &&& r is Allowed
                    &&& final(self).spec_stats() == s.bumped(
                        1,
                        1,
                        0,
                        if t.spec_is_dangerous() {
                            1
                        } else {
                            0
                        },
                        0,
                    )
                    &&& logged_once(log0, log1, c.log_all_queries, sql@, t, false)
                    &&& final(self).spec_awaiting() is None
                }
            }),
    {
        let timestamp = crate::clock::unix_time_secs();
        self.stats.total_queries = self.stats.total_queries + 1;
        self.awaiting = None;
        let query_type = QueryType::from_sql(sql);
        let up = to_uppercase(sql);
        let hay = chars_of(up.as_str());
        match first_hit(&self.config.blocked_patterns, &hay, true) {
            Some(i) => {
                let pattern = self.config.blocked_patterns[i].clone();
                proof {
                    assert(views(self.config.blocked_patterns@)[i as int] == pattern@);
                    assert(views(self.config.blocked_patterns@).contains(pattern@));
                    assert(self.config.patterns().contains(pattern@));
                    assert(has_infix(str_upper(sql@), str_upper(pattern@)));
                }
                self.stats.injection_attempts = self.stats.injection_attempts + 1;
                self.stats.blocked_queries = self.stats.blocked_queries + 1;
                self.record(sql, query_type, timestamp, true);
                return QueryCheck::InjectionBlocked(pattern);
            },
            None => {},
        }
        match first_hit(&self.config.blocked_keywords, &hay, false) {
            Some(i) => {
                let keyword = self.config.blocked_keywords[i].clone();
                proof {
                    assert(views(self.config.blocked_keywords@)[i as int] == keyword@);
                    assert(views(self.config.blocked_keywords@).contains(keyword@));
                    assert(self.config.keywords().contains(keyword@));
                    assert(has_infix(str_upper(sql@), keyword@));
                }
                self.stats.dangerous_queries = self.stats.dangerous_queries + 1;
                self.stats.blocked_queries = self.stats.blocked_queries + 1;
                self.record(sql, query_type, timestamp, true);
                return QueryCheck::KeywordBlocked(keyword);
            },
            None => {},
        }
        if query_type.is_dangerous() {
            self.stats.dangerous_queries = self.stats.dangerous_queries + 1;
            if self.config.require_approval_for_dangerous {
                self.awaiting = Some(PendingQuery { sql: owned(sql), query_type, timestamp });
                return QueryCheck::NeedsApproval;
            }
        }
        self.record(sql, query_type, timestamp, false);
        self.stats.allowed_queries = self.stats.allowed_queries + 1;
        QueryCheck::Allowed
    }

    /// Whether a query waits for the owner's answer.
    pub fn awaiting_approval(&self) -> (b: bool)
        ensures
            b == self.spec_awaiting() is Some,
    {
        self.awaiting.is_some()
    }

    /// Applies the owner's answer to the waiting dangerous query: an
    /// approval logs it and counts it as allowed, a refusal logs it as
    /// blocked and counts it as blocked, and a failed prompt is reported as
    /// an error.  The query no longer waits.
    pub fn answer_query(&mut self, answer: Result<bool, String>) -> (r: Result<bool, String>)
        requires
            old(self).wf(),
            old(self).spec_awaiting() is Some,
        ensures
            final(self).wf(),
            final(self).spec_awaiting() is None,
            final(self).spec_config() == old(self).spec_config(),
            ({
                let (sql, t) = old(self).spec_awaiting()->0;
                let c = old(self).spec_config();
                let s = old(self).spec_stats();
                let log0 = old(self).spec_log();
                let log1 = final(self).spec_log();
                match answer {
                    Ok(true) => r == Ok::<bool, String>(true) && final(self).spec_stats()
                        == s.bumped(0, 1, 0, 0, 0) && logged_once(
                        log0,
                        log1,
                        c.log_all_queries,
                        sql,
                        t,
                        false,
                    ),
                    Ok(false) => r == Ok::<bool, String>(false) && final(self).spec_stats()
                        == s.bumped(0, 0, 1, 0, 0) && logged_once(
                        log0,
                        log1,
                        c.log_all_queries,
                        sql,
                        t,
                        true,
                    ),
                    Err(e) => r matches Err(m) && m@ == approval_error_seq(e@)
                        && final(self).spec_stats() == s && log1 == log0,
                }
            }),
    {
        let pending = self.awaiting.take().unwrap();
        match answer {
            Ok(true) => {
                self.record(pending.sql.as_str(), pending.query_type, pending.timestamp, false);
                self.stats.allowed_queries = self.stats.allowed_queries + 1;
                Ok(true)
            },
            Ok(false) => {
                self.stats.blocked_queries = self.stats.blocked_queries + 1;
                self.record(pending.sql.as_str(), pending.query_type, pending.timestamp, true);
                Ok(false)
            },
            Err(e) => Err(approval_error(e.as_str())),
        }
    }

    /// Log a database query
    pub fn log_query(&mut self, query: DatabaseQuery)
        ensures
            final(self).spec_log() == old(self).spec_log().push(query),
            final(self).spec_config() == old(self).spec_config(),
            final(self).spec_stats() == old(self).spec_stats(),
            final(self).spec_awaiting() == old(self).spec_awaiting(),
    {
        self.query_log.push(query);
    }

    /// Get query log
    pub fn get_query_log(&self) -> (r: Vec<DatabaseQuery>)
        ensures
            r@ == self.spec_log(),
    {
        let mut r: Vec<DatabaseQuery> = Vec::new();
        let mut i: usize = 0;
        while i < self.query_log.len()
            invariant
                i <= self.query_log.len(),
                r@ == self.query_log@.take(i as int),
            decreases self.query_log.len() - i,
        {
            r.push(self.query_log[i].clone());
            proof {
                assert(self.query_log@.take(i + 1) == self.query_log@.take(i as int).push(
                    self.query_log@[i as int],
                ));
            }
            i = i + 1;
        }
        proof {
            assert(self.query_log@.take(self.query_log@.len() as int) == self.query_log@);
        }
        r
    }

    /// Get statistics
    pub fn get_stats(&self) -> (s: DatabaseStats)
        ensures
            s == self.spec_stats(),
    {
        self.stats
    }

    /// Add blocked keyword (upper-cased)
    pub fn add_blocked_keyword(&mut self, keyword: &str)
        ensures
            final(self).spec_config().keywords() == old(self).spec_config().keywords().insert(
                str_upper(keyword@),
            ),
            final(self).spec_config().blocked_patterns == old(self).spec_config().blocked_patterns,
            final(self).spec_config().require_approval_for_dangerous == old(
                self,
            ).spec_config().require_approval_for_dangerous,
            final(self).spec_config().log_all_queries == old(self).spec_config().log_all_queries,
            final(self).spec_config().max_rows_affected == old(self).spec_config().max_rows_affected,
            final(self).spec_log() == old(self).spec_log(),
            final(self).spec_stats() == old(self).spec_stats(),
            final(self).spec_awaiting() == old(self).spec_awaiting(),
    {
        list_insert(&mut self.config.blocked_keywords, to_uppercase(keyword));
    }

    /// Remove blocked keyword (its upper-cased form)
    pub fn remove_blocked_keyword(&mut self, keyword: &str)
        ensures
            final(self).spec_config().keywords() == old(self).spec_config().keywords().remove(
                str_upper(keyword@),
            ),
            final(self).spec_config().blocked_patterns == old(self).spec_config().blocked_patterns,
            final(self).spec_config().require_approval_for_dangerous == old(
                self,
            ).spec_config().require_approval_for_dangerous,
            final(self).spec_config().log_all_queries == old(self).spec_config().log_all_queries,
            final(self).spec_config().max_rows_affected == old(self).spec_config().max_rows_affected,
            final(self).spec_log() == old(self).spec_log(),
            final(self).spec_stats() == old(self).spec_stats(),
            final(self).spec_awaiting() == old(self).spec_awaiting(),
    {
        let up = to_uppercase(keyword);
        list_remove(&mut self.config.blocked_keywords, up.as_str());
    }

    /// Add blocked pattern
    pub fn add_blocked_pattern(&mut self, pattern: &str)
        ensures
            final(self).spec_config().patterns() == old(self).spec_config().patterns().insert(
                pattern@,
            ),
            final(self).spec_config().blocked_keywords == old(self).spec_config().blocked_keywords,
            final(self).spec_config().require_approval_for_dangerous == old(
                self,
            ).spec_config().require_approval_for_dangerous,
            final(self).spec_config().log_all_queries == old(self).spec_config().log_all_queries,
            final(self).spec_config().max_rows_affected == old(self).spec_config().max_rows_affected,
            final(self).spec_log() == old(self).spec_log(),
            final(self).spec_stats() == old(self).spec_stats(),
            final(self).spec_awaiting() == old(self).spec_awaiting(),
    {
        list_insert(&mut self.config.blocked_patterns, owned(pattern));
    }

    /// Remove blocked pattern
    pub fn remove_blocked_pattern(&mut self, pattern: &str)
        ensures
            final(self).spec_config().patterns() == old(self).spec_config().patterns().remove(
                pattern@,
            ),
            final(self).spec_config().blocked_keywords == old(self).spec_config().blocked_keywords,
            final(self).spec_config().require_approval_for_dangerous == old(
                self,
            ).spec_config().require_approval_for_dangerous,
            final(self).spec_config().log_all_queries == old(self).spec_config().log_all_queries,
            final(self).spec_config().max_rows_affected == old(self).spec_config().max_rows_affected,
            final(self).spec_log() == old(self).spec_log(),
            final(self).spec_stats() == old(self).spec_stats(),
            final(self).spec_awaiting() == old(self).spec_awaiting(),
    {
        list_remove(&mut self.config.blocked_patterns, pattern);
    }

    /// Enable/disable approval for dangerous queries
    pub fn set_require_approval(&mut self, require: bool)
        ensures
            final(self).spec_config().require_approval_for_dangerous == require,
            final(self).spec_config().blocked_keywords == old(self).spec_config().blocked_keywords,
            final(self).spec_config().blocked_patterns == old(self).spec_config().blocked_patterns,
            final(self).spec_config().log_all_queries == old(self).spec_config().log_all_queries,
            final(self).spec_config().max_rows_affected == old(self).spec_config().max_rows_affected,
            final(self).spec_log() == old(self).spec_log(),
            final(self).spec_stats() == old(self).spec_stats(),
            final(self).spec_awaiting() == old(self).spec_awaiting(),
    {
        self.config.require_approval_for_dangerous = require;
    }
}

// ---------------------------------------------------------------------
// Laws
// ---------------------------------------------------------------------

/// After `add_blocked_pattern(pattern)`, a query that contains the
/// pattern (compared upper-cased) is an injection attempt.
pub proof fn law_added_pattern_blocks(
    before: DatabaseConfig,
    after: DatabaseConfig,
    pattern: Seq<char>,
    sql: Seq<char>,
)
    requires
        after.patterns() == before.patterns().insert(pattern),
        has_infix(str_upper(sql), str_upper(pattern)),
    ensures
        injection_hit(after, sql),
{
    assert(after.patterns().contains(pattern));
}

/// After `add_blocked_keyword(keyword)`, a query that contains the keyword
/// (compared upper-cased) is blocked, as an injection attempt or for the
/// keyword.
pub proof fn law_added_keyword_blocks(
    before: DatabaseConfig,
    after: DatabaseConfig,
    keyword: Seq<char>,
    sql: Seq<char>,
)
    requires
        after.keywords() == before.keywords().insert(str_upper(keyword)),
        has_infix(str_upper(sql), str_upper(keyword)),
    ensures
        injection_hit(after, sql) || keyword_hit(after, sql),
{
    assert(after.keywords().contains(str_upper(keyword)));
}

/// `p` is not a prefix of `s` when they differ at a position within both.
proof fn lemma_not_prefix(s: Seq<char>, p: Seq<char>, j: int)
    requires
        0 <= j < p.len(),
        j < s.len(),
        s[j] != p[j],
    ensures
        !has_prefix(s, p),
{
    if has_prefix(s, p) {
        assert(s.subrange(0, p.len() as int)[j] == s[j]);
    }
}

/// A text has at most one of two prefixes that differ within both.
proof fn lemma_prefixes_exclusive(s: Seq<char>, a: Seq<char>, b: Seq<char>, j: int)
    requires
        has_prefix(s, a),
        0 <= j < a.len(),
        j < b.len(),
        a[j] != b[j],
    ensures
        !has_prefix(s, b),
{
    assert(s.subrange(0, a.len() as int)[j] == s[j]);
    if has_prefix(s, b) {
        assert(s.subrange(0, b.len() as int)[j] == s[j]);
    }
}

/// The name of a query type, read as SQL, is a query of that type.
pub proof fn law_query_name_parses_back(q: QueryType)
    ensures
        is_ascii_seq(trim_seq(q.spec_as_str())),
        classify(ascii_upper_seq(trim_seq(q.spec_as_str()))) == q,
{
    reveal_strlit("SELECT");
    reveal_strlit("INSERT");
    reveal_strlit("UPDATE");
    reveal_strlit("DELETE");
    reveal_strlit("CREATE");
    reveal_strlit("DROP");
    reveal_strlit("ALTER");
    reveal_strlit("TRUNCATE");
    reveal_strlit("UNKNOWN");
    let name = q.spec_as_str();
    assert(trim_start_seq(name) == name);
    assert(trim_seq(name) == name);
    let up = ascii_upper_seq(name);
    assert(up =~= name);
    match q {
        QueryType::Select => {
            assert(up.subrange(0, up.len() as int) =~= up);
        },
        QueryType::Insert => {
            lemma_not_prefix(up, "SELECT"@, 0);
            assert(up.subrange(0, up.len() as int) =~= up);
        },
        QueryType::Update => {
            lemma_not_prefix(up, "SELECT"@, 0);
            lemma_not_prefix(up, "INSERT"@, 0);
            assert(up.subrange(0, up.len() as int) =~= up);
        },
        QueryType::Delete => {
            lemma_not_prefix(up, "SELECT"@, 0);
            lemma_not_prefix(up, "INSERT"@, 0);
            lemma_not_prefix(up, "UPDATE"@, 0);
            assert(up.subrange(0, up.len() as int) =~= up);
        },
        QueryType::Create => {
            lemma_not_prefix(up, "SELECT"@, 0);
            lemma_not_prefix(up, "INSERT"@, 0);
            lemma_not_prefix(up, "UPDATE"@, 0);
            lemma_not_prefix(up, "DELETE"@, 0);
            assert(up.subrange(0, up.len() as int) =~= up);
        },
        QueryType::Drop => {
            assert(up.subrange(0, up.len() as int) =~= up);
        },
        QueryType::Alter => {
            lemma_not_prefix(up, "DROP"@, 0);
            assert(up.subrange(0, up.len() as int) =~= up);
        },
        QueryType::Truncate => {
            lemma_not_prefix(up, "SELECT"@, 0);
            lemma_not_prefix(up, "INSERT"@, 0);
            lemma_not_prefix(up, "UPDATE"@, 0);
            lemma_not_prefix(up, "DELETE"@, 0);
            lemma_not_prefix(up, "CREATE"@, 0);
            lemma_not_prefix(up, "DROP"@, 0);
            lemma_not_prefix(up, "ALTER"@, 0);
            assert(up.subrange(0, up.len() as int) =~= up);
        },
        QueryType::Unknown => {
            lemma_not_prefix(up, "SELECT"@, 0);
            lemma_not_prefix(up, "INSERT"@, 0);
            lemma_not_prefix(up, "UPDATE"@, 1);
            lemma_not_prefix(up, "DELETE"@, 0);
            lemma_not_prefix(up, "CREATE"@, 0);
            lemma_not_prefix(up, "DROP"@, 0);
            lemma_not_prefix(up, "ALTER"@, 0);
        },
    }
}

/// Exactly the query types named `DROP`, `DELETE`, `TRUNCATE` and `ALTER`
/// are dangerous.
pub proof fn law_dangerous_types_by_name(q: QueryType)
    ensures
        q.spec_is_dangerous() <==> (q.spec_as_str() == "DROP"@ || q.spec_as_str() == "DELETE"@
            || q.spec_as_str() == "TRUNCATE"@ || q.spec_as_str() == "ALTER"@),
{
    reveal_strlit("SELECT");
    reveal_strlit("INSERT");
    reveal_strlit("UPDATE");
    reveal_strlit("DELETE");
    reveal_strlit("CREATE");
    reveal_strlit("DROP");
    reveal_strlit("ALTER");
    reveal_strlit("TRUNCATE");
    reveal_strlit("UNKNOWN");
    assert("SELECT"@[0] != "DROP"@[0] && "SELECT"@[0] != "DELETE"@[0] && "SELECT"@[0] != "ALTER"@[0]);
    assert("INSERT"@[0] != "DELETE"@[0] && "UPDATE"@[0] != "DELETE"@[0] && "CREATE"@[0] != "DELETE"@[0]);
    assert("UNKNOWN"@[0] != "TRUNCATE"@[0]);
}

/// A query whose upper-cased, trimmed text is `up` is dangerous exactly
/// when it starts with `DROP`, `DELETE`, `TRUNCATE` or `ALTER`; one that
/// starts with `SELECT`, `INSERT`, `UPDATE` or `CREATE`, or with no
/// keyword, is not.
pub proof fn law_dangerous_queries(up: Seq<char>)
    ensures
        classify(up).spec_is_dangerous() <==> (has_prefix(up, "DROP"@) || has_prefix(up, "DELETE"@)
            || has_prefix(up, "TRUNCATE"@) || has_prefix(up, "ALTER"@)),
{
    reveal_strlit("SELECT");
    reveal_strlit("INSERT");
    reveal_strlit("UPDATE");
    reveal_strlit("DELETE");
    reveal_strlit("CREATE");
    reveal_strlit("DROP");
    reveal_strlit("ALTER");
    reveal_strlit("TRUNCATE");
    assert("ALTER"@[0] == 'A');
    assert("CREATE"@[0] == 'C');
    assert("DELETE"@[0] == 'D');
    assert("DELETE"@[1] == 'E');
    assert("DROP"@[0] == 'D');
    assert("DROP"@[1] == 'R');
    assert("INSERT"@[0] == 'I');
    assert("SELECT"@[0] == 'S');
    assert("TRUNCATE"@[0] == 'T');
    assert("UPDATE"@[0] == 'U');
    if has_prefix(up, "DROP"@) || has_prefix(up, "DELETE"@) || has_prefix(up, "TRUNCATE"@)
        || has_prefix(up, "ALTER"@) {
        if has_prefix(up, "INSERT"@) { lemma_prefixes_exclusive(up, "INSERT"@, "SELECT"@, 0); }
        if has_prefix(up, "UPDATE"@) { lemma_prefixes_exclusive(up, "UPDATE"@, "SELECT"@, 0); }
        if has_prefix(up, "UPDATE"@) { lemma_prefixes_exclusive(up, "UPDATE"@, "INSERT"@, 0); }
        if has_prefix(up, "DELETE"@) { lemma_prefixes_exclusive(up, "DELETE"@, "SELECT"@, 0); }
        if has_prefix(up, "DELETE"@) { lemma_prefixes_exclusive(up, "DELETE"@, "INSERT"@, 0); }
        if has_prefix(up, "DELETE"@) { lemma_prefixes_exclusive(up, "DELETE"@, "UPDATE"@, 0); }
        if has_prefix(up, "CREATE"@) { lemma_prefixes_exclusive(up, "CREATE"@, "SELECT"@, 0); }
        if has_prefix(up, "CREATE"@) { lemma_prefixes_exclusive(up, "CREATE"@, "INSERT"@, 0); }
        if has_prefix(up, "CREATE"@) { lemma_prefixes_exclusive(up, "CREATE"@, "UPDATE"@, 0); }
        if has_prefix(up, "CREATE"@) { lemma_prefixes_exclusive(up, "CREATE"@, "DELETE"@, 0); }
        if has_prefix(up, "DROP"@) { lemma_prefixes_exclusive(up, "DROP"@, "SELECT"@, 0); }
        if has_prefix(up, "DROP"@) { lemma_prefixes_exclusive(up, "DROP"@, "INSERT"@, 0); }
        if has_prefix(up, "DROP"@) { lemma_prefixes_exclusive(up, "DROP"@, "UPDATE"@, 0); }
        if has_prefix(up, "DROP"@) { lemma_prefixes_exclusive(up, "DROP"@, "DELETE"@, 1); }
        if has_prefix(up, "DROP"@) { lemma_prefixes_exclusive(up, "DROP"@, "CREATE"@, 0); }
        if has_prefix(up, "ALTER"@) { lemma_prefixes_exclusive(up, "ALTER"@, "SELECT"@, 0); }
        if has_prefix(up, "ALTER"@) { lemma_prefixes_exclusive(up, "ALTER"@, "INSERT"@, 0); }
        if has_prefix(up, "ALTER"@) { lemma_prefixes_exclusive(up, "ALTER"@, "UPDATE"@, 0); }
        if has_prefix(up, "ALTER"@) { lemma_prefixes_exclusive(up, "ALTER"@, "DELETE"@, 0); }
        if has_prefix(up, "ALTER"@) { lemma_prefixes_exclusive(up, "ALTER"@, "CREATE"@, 0); }
        if has_prefix(up, "ALTER"@) { lemma_prefixes_exclusive(up, "ALTER"@, "DROP"@, 0); }
        if has_prefix(up, "TRUNCATE"@) { lemma_prefixes_exclusive(up, "TRUNCATE"@, "SELECT"@, 0); }
        if has_prefix(up, "TRUNCATE"@) { lemma_prefixes_exclusive(up, "TRUNCATE"@, "INSERT"@, 0); }
        if has_prefix(up, "TRUNCATE"@) { lemma_prefixes_exclusive(up, "TRUNCATE"@, "UPDATE"@, 0); }
        if has_prefix(up, "TRUNCATE"@) { lemma_prefixes_exclusive(up, "TRUNCATE"@, "DELETE"@, 0); }
        if has_prefix(up, "TRUNCATE"@) { lemma_prefixes_exclusive(up, "TRUNCATE"@, "CREATE"@, 0); }
        if has_prefix(up, "TRUNCATE"@) { lemma_prefixes_exclusive(up, "TRUNCATE"@, "DROP"@, 0); }
        if has_prefix(up, "TRUNCATE"@) { lemma_prefixes_exclusive(up, "TRUNCATE"@, "ALTER"@, 0); }
    }
}

} // verus!
