//! SQLite storage: the bookkeeping around the connection.
//!
//! The statistics kept per database, the statement that a batch insert
//! prepares, the hexadecimal text that a blob is read as, and the retry
//! policy for opening the file.

use vstd::prelude::*;
use super::counter::{lemma_wrap_add_step, lemma_wrap_add_zero, wrap_add, wrap_inc};
use crate::string::functions::{join, seq_join, starts_with, views};
use crate::strlist::owned;
use crate::text::{has_prefix, push_char, push_str, str_upper, to_uppercase};

verus! {

broadcast use vstd::string::group_string_axioms;

/// Database statistics.  Each counter wraps around at `u64::MAX`.
#[derive(Clone, Copy, Debug)]
pub struct DatabaseStats {
    pub queries: u64,
    pub inserts: u64,
    pub updates: u64,
    pub deletes: u64,
    pub transactions: u64,
    pub errors: u64,
}

impl DatabaseStats {
    pub open spec fn zero() -> DatabaseStats {
        DatabaseStats { queries: 0, inserts: 0, updates: 0, deletes: 0, transactions: 0, errors: 0 }
    }

    /// These counters advanced by the given numbers of queries, inserts,
    /// updates, deletes, transactions and errors.
    pub open spec fn advanced(self, q: nat, i: nat, u: nat, d: nat, t: nat, e: nat) -> DatabaseStats {
        DatabaseStats {
            queries: wrap_add(self.queries, q),
            inserts: wrap_add(self.inserts, i),
            updates: wrap_add(self.updates, u),
            deletes: wrap_add(self.deletes, d),
            transactions: wrap_add(self.transactions, t),
            errors: wrap_add(self.errors, e),
        }
    }

    proof fn lemma_zero_steps(self)
        ensures
            self.advanced(0, 0, 0, 0, 0, 0) == self,
    {
        lemma_wrap_add_zero(self.queries);
        lemma_wrap_add_zero(self.inserts);
        lemma_wrap_add_zero(self.updates);
        lemma_wrap_add_zero(self.deletes);
        lemma_wrap_add_zero(self.transactions);
        lemma_wrap_add_zero(self.errors);
    }

    pub fn record_query(&mut self)
        ensures
            *final(self) == old(self).advanced(1, 0, 0, 0, 0, 0),
    {
        proof {
            self.lemma_zero_steps();
        }
        self.queries = wrap_inc(self.queries);
    }

    pub fn record_insert(&mut self)
        ensures
            *final(self) == old(self).advanced(0, 1, 0, 0, 0, 0),
    {
        proof {
            self.lemma_zero_steps();
        }
        self.inserts = wrap_inc(self.inserts);
    }

    pub fn record_update(&mut self)
        ensures
            *final(self) == old(self).advanced(0, 0, 1, 0, 0, 0),
    {
        proof {
            self.lemma_zero_steps();
        }
        self.updates = wrap_inc(self.updates);
    }

    pub fn record_delete(&mut self)
        ensures
            *final(self) == old(self).advanced(0, 0, 0, 1, 0, 0),
    {
        proof {
            self.lemma_zero_steps();
        }
        self.deletes = wrap_inc(self.deletes);
    }

    pub fn record_transaction(&mut self)
        ensures
            *final(self) == old(self).advanced(0, 0, 0, 0, 1, 0),
    {
        proof {
            self.lemma_zero_steps();
        }
        self.transactions = wrap_inc(self.transactions);
    }

    pub fn record_error(&mut self)
        ensures
            *final(self) == old(self).advanced(0, 0, 0, 0, 0, 1),
    {
        proof {
            self.lemma_zero_steps();
        }
        self.errors = wrap_inc(self.errors);
    }

    /// Counts a statement that ran: by the start of its upper-cased text,
    /// an insert, an update or a delete; anything else is not counted.
    pub fn record_statement(&mut self, sql: &str)
        ensures
            *final(self) == statement_counted(*old(self), sql@),
    {
        let up = to_uppercase(sql);
        if starts_with(up.as_str(), "INSERT") {
            self.record_insert();
        } else if starts_with(up.as_str(), "UPDATE") {
            self.record_update();
        } else if starts_with(up.as_str(), "DELETE") {
            self.record_delete();
        }
    }
}

impl Default for DatabaseStats {
    fn default() -> (s: Self)
        ensures
            s == DatabaseStats::zero(),
    {
        DatabaseStats { queries: 0, inserts: 0, updates: 0, deletes: 0, transactions: 0, errors: 0 }
    }
}

/// The counters after a statement `sql` ran.
pub open spec fn statement_counted(s: DatabaseStats, sql: Seq<char>) -> DatabaseStats {
    let up = str_upper(sql);
    if has_prefix(up, "INSERT"@) {
        s.advanced(0, 1, 0, 0, 0, 0)
    } else if has_prefix(up, "UPDATE"@) {
        s.advanced(0, 0, 1, 0, 0, 0)
    } else if has_prefix(up, "DELETE"@) {
        s.advanced(0, 0, 0, 1, 0, 0)
    } else {
        s
    }
}

/// `n` question marks separated by `", "`.
pub open spec fn placeholders(n: nat) -> Seq<char> {
    seq_join(Seq::new(n, |i: int| "?"@), ", "@)
}

/// The statement that inserts one row into `table`, with a placeholder
/// for each column.
pub open spec fn insert_statement(table: Seq<char>, columns: Seq<Seq<char>>) -> Seq<char> {
    "INSERT INTO "@ + table + " ("@ + seq_join(columns, ", "@) + ") VALUES ("@ + placeholders(
        columns.len(),
    ) + ")"@
}

/// Builds `INSERT INTO table (c1, c2, ...) VALUES (?, ?, ...)`.
pub fn insert_sql(table: &str, columns: &[String]) -> (r: String)
    ensures
        r@ == insert_statement(table@, views(columns@)),
{
    let mut marks: Vec<String> = Vec::new();
    let mut i: usize = 0;
    while i < columns.len()
        invariant
            i <= columns.len(),
            views(marks@) == Seq::new(i as nat, |k: int| "?"@),
        decreases columns.len() - i,
    {
        let ghost before = views(marks@);
        marks.push(owned("?"));
        proof {
            assert(views(marks@) =~= Seq::new((i + 1) as nat, |k: int| "?"@)) by {
                assert(views(marks@) == before.push("?"@));
            }
        }
        i = i + 1;
    }
    let cols = join(columns, ", ");
    let qs = join(marks.as_slice(), ", ");
    let mut r = owned("INSERT INTO ");
    push_str(&mut r, table);
    push_str(&mut r, " (");
    push_str(&mut r, cols.as_str());
    push_str(&mut r, ") VALUES (");
    push_str(&mut r, qs.as_str());
    push_str(&mut r, ")");
    r
}

/// The lower-case hexadecimal digit of `n`, for `n < 16`.
pub open spec fn hex_digit(n: u8) -> char {
    if n < 10 {
        ((n + 48) as u8) as char
    } else {
        ((n + 87) as u8) as char
    }
}

/// Each byte as two lower-case hexadecimal digits.
pub open spec fn hex_text(bytes: Seq<u8>) -> Seq<char>
    decreases bytes.len(),
{
    if bytes.len() == 0 {
        Seq::empty()
    } else {
        hex_text(bytes.drop_last()) + seq![
            hex_digit(bytes.last() / 16),
            hex_digit(bytes.last() % 16),
        ]
    }
}

fn digit(n: u8) -> (c: char)
    requires
        n < 16,
    ensures
        c == hex_digit(n),
{
    if n < 10 {
        ((n + 48) as u8) as char
    } else {
        ((n + 87) as u8) as char
    }
}

/// A blob as text: each byte as two lower-case hexadecimal digits.
pub fn blob_hex(bytes: &[u8]) -> (r: String)
    ensures
        r@ == hex_text(bytes@),
{
    let mut r = String::new();
    let mut i: usize = 0;
    while i < bytes.len()
        invariant
            i <= bytes.len(),
            r@ == hex_text(bytes@.take(i as int)),
        decreases bytes.len() - i,
    {
        let b = bytes[i];
        push_char(&mut r, digit(b / 16));
        push_char(&mut r, digit(b % 16));
        proof {
            assert(bytes@.take(i + 1).drop_last() =~= bytes@.take(i as int));
            assert(bytes@.take(i + 1).last() == b);
        }
        i = i + 1;
    }
    proof {
        assert(bytes@.take(bytes@.len() as int) =~= bytes@);
    }
    r
}

/// How often opening the database file is tried.
pub const MAX_OPEN_ATTEMPTS: u32 = 3;

/// After a failed attempt to open the file, when `attempts` attempts had
/// failed before: the new count of failures, and the wait in milliseconds
/// before the next attempt (100 ms times that count), or `None` when the
/// attempts are used up.
pub fn after_open_failure(attempts: u32) -> (r: (u32, Option<u64>))
    requires
        attempts < MAX_OPEN_ATTEMPTS,
    ensures
        r.0 == attempts + 1,
        r.1 == (if attempts + 1 >= MAX_OPEN_ATTEMPTS {
            None::<u64>
        } else {
            Some((100 * (attempts + 1)) as u64)
        }),
{
    let failed = attempts + 1;
    if failed >= MAX_OPEN_ATTEMPTS {
        (failed, None)
    } else {
        (failed, Some(100 * (failed as u64)))
    }
}

/// The error reported when every attempt to open the file failed.
pub open spec fn open_failure_text(error: Seq<char>) -> Seq<char> {
    "Failed to open database after 3 attempts: "@ + error
}

/// The error reported when every attempt to open the file failed.
pub fn open_failure_message(error: &str) -> (r: String)
    ensures
        r@ == open_failure_text(error@),
{
    let mut r = owned("Failed to open database after 3 attempts: ");
    push_str(&mut r, error);
    r
}

// ---------------------------------------------------------------------
// Laws
// ---------------------------------------------------------------------

/// A blob is shown as two characters per byte.
pub proof fn law_hex_length(bytes: Seq<u8>)
    ensures
        hex_text(bytes).len() == 2 * bytes.len(),
    decreases bytes.len(),
{
    if bytes.len() > 0 {
        law_hex_length(bytes.drop_last());
    }
}

/// A statement that ran is counted as at most one insert, update or
/// delete, and never as a query, transaction or error.
pub proof fn law_statement_counted_once(s: DatabaseStats, sql: Seq<char>)
    ensures
        ({
            let t = statement_counted(s, sql);
            &&& t.queries == s.queries
            &&& t.transactions == s.transactions
            &&& t.errors == s.errors
            &&& (t == s || t == s.advanced(0, 1, 0, 0, 0, 0) || t == s.advanced(0, 0, 1, 0, 0, 0)
                || t == s.advanced(0, 0, 0, 1, 0, 0))
        }),
{
    s.lemma_zero_steps();
}

} // verus!
