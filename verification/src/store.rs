//! The relational store: one table of records, reached through a single
//! connection. The table is modelled as a sequence of record models in
//! insertion order, together with the last committed state and whether a
//! transaction is open; every statement runs through a trusted wrapper
//! whose contract says what it does to that model.
use crate::record::Record;
use crate::record::RecordModel;
use crate::EtlError;
use vstd::math::min;
use vstd::prelude::*;

verus! {

#[verifier::external_type_specification]
#[verifier::external_body]
pub struct ExConnection(rusqlite::Connection);

/// The rows of the dataset table as this connection sees them, in rowid
/// (insertion) order; empty when the table is absent.
pub uninterp spec fn table_rows(conn: rusqlite::Connection) -> Seq<RecordModel>;

/// The rows of the dataset table as last committed.
pub uninterp spec fn committed_rows(conn: rusqlite::Connection) -> Seq<RecordModel>;

/// Whether this connection holds an open transaction.
pub uninterp spec fn txn_open(conn: rusqlite::Connection) -> bool;

/// The text a REAL column hands back for a bound text: the store's cast
/// of the text to a real number, as text again.
pub uninterp spec fn stored_real(s: Seq<char>) -> Seq<char>;

/// A record as the table keeps it: text and integer fields verbatim, each
/// real field as the store's cast of its text.
pub open spec fn stored_record(r: RecordModel) -> RecordModel {
    RecordModel {
        league_average_gpct: stored_real(r.league_average_gpct),
        ppf: stored_real(r.ppf),
        replacement_gpct: stored_real(r.replacement_gpct),
        gwar: stored_real(r.gwar),
        ..r
    }
}

// ---------------------------------------------------------------------------
// Spec-level effects of the CRUD statements
// ---------------------------------------------------------------------------

pub open spec fn row_with_year(r: RecordModel, y: int) -> RecordModel {
    RecordModel { year: y, ..r }
}

/// What UPDATE ... SET year WHERE key_retro = key leaves behind.
pub open spec fn update_rows(rows: Seq<RecordModel>, key: Seq<char>, y: int) -> Seq<RecordModel> {
    rows.map_values(
        |r: RecordModel|
            if r.key_retro == key {
                row_with_year(r, y)
            } else {
                r
            },
    )
}

/// The rows whose key_retro equals the key.
pub open spec fn matching(rows: Seq<RecordModel>, key: Seq<char>) -> Seq<RecordModel> {
    rows.filter(|r: RecordModel| r.key_retro == key)
}

/// What DELETE ... WHERE key_retro = key leaves behind.
pub open spec fn remaining(rows: Seq<RecordModel>, key: Seq<char>) -> Seq<RecordModel> {
    rows.filter(|r: RecordModel| r.key_retro != key)
}

// ---------------------------------------------------------------------------
// The first four columns of a row, as the read query returns them
// ---------------------------------------------------------------------------

pub struct RowSummary {
    pub name: String,
    pub year: i32,
    pub team: String,
    pub league: String,
}

pub struct RowSummaryModel {
    pub name: Seq<char>,
    pub year: int,
    pub team: Seq<char>,
    pub league: Seq<char>,
}

impl View for RowSummary {
    type V = RowSummaryModel;

    open spec fn view(&self) -> RowSummaryModel {
        RowSummaryModel {
            name: self.name@,
            year: self.year as int,
            team: self.team@,
            league: self.league@,
        }
    }
}

pub open spec fn brief_of(r: RecordModel) -> RowSummaryModel {
    RowSummaryModel { name: r.name, year: r.year, team: r.team, league: r.league }
}

pub open spec fn summaries_view(v: Seq<RowSummary>) -> Seq<RowSummaryModel> {
    v.map_values(|x: RowSummary| x@)
}

/// The read query returns the first columns of distinct table rows; the
/// store promises no order for a scan, so only distinctness is stated.
pub open spec fn is_brief_selection(out: Seq<RowSummaryModel>, rows: Seq<RecordModel>) -> bool {
    exists|idx: Seq<int>|
        idx.len() == out.len() && (forall|i: int|
            0 <= i < idx.len() ==> 0 <= #[trigger] idx[i] < rows.len() && out[i] == brief_of(
                rows[idx[i]],
            )) && (forall|i: int, j: int| 0 <= i < j < idx.len() ==> idx[i] != idx[j])
}

// ---------------------------------------------------------------------------
// Trusted wrappers around rusqlite
// ---------------------------------------------------------------------------

/// Relies on rusqlite::Connection::open and Connection::execute_batch: opens
/// the database file and applies the given profile's pragmas before any
/// other statement runs on the connection.
#[verifier::external_body]
pub(crate) fn open_conn(path: &str, pragmas: &str) -> (r: Result<rusqlite::Connection, EtlError>)
    ensures
        r matches Ok(conn) ==> !txn_open(conn) && table_rows(conn) == committed_rows(conn),
{
    let conn = match rusqlite::Connection::open(path) {
        Ok(c) => c,
        Err(e) => {
            return Err(EtlError::Store(e.to_string()));
        },
    };
    match conn.execute_batch(pragmas) {
        Ok(()) => Ok(conn),
        Err(e) => Err(EtlError::Store(e.to_string())),
    }
}

/// Relies on rusqlite::Connection::execute_batch running BEGIN: it opens a
/// deferred transaction and changes no data; a failed BEGIN leaves none open.
#[verifier::external_body]
pub(crate) fn begin_txn(conn: &mut rusqlite::Connection) -> (res: Result<(), EtlError>)
    requires
        !txn_open(*old(conn)),
    ensures
        res is Ok ==> txn_open(*final(conn)) && table_rows(*final(conn)) == table_rows(*old(conn))
            && committed_rows(*final(conn)) == committed_rows(*old(conn)),
        res is Err ==> !txn_open(*final(conn)) && table_rows(*final(conn)) == table_rows(
            *old(conn),
        ) && committed_rows(*final(conn)) == committed_rows(*old(conn)),
{
    conn.execute_batch("BEGIN").map_err(|e| EtlError::Store(e.to_string()))
}

/// Relies on rusqlite::Connection::execute_batch running COMMIT: on success
/// the open transaction's view of the table becomes the committed state;
/// a failed COMMIT never commits part of it.
#[verifier::external_body]
pub(crate) fn commit_txn(conn: &mut rusqlite::Connection) -> (res: Result<(), EtlError>)
    requires
        txn_open(*old(conn)),
    ensures
        res is Ok ==> !txn_open(*final(conn)) && table_rows(*final(conn)) == table_rows(*old(conn))
            && committed_rows(*final(conn)) == table_rows(*old(conn)),
        res is Err ==> committed_rows(*final(conn)) == committed_rows(*old(conn)),
{
    conn.execute_batch("COMMIT").map_err(|e| EtlError::Store(e.to_string()))
}

/// Relies on rusqlite::Connection::execute_batch running ROLLBACK: whatever
/// happened, afterwards no transaction is open and the table shows the last
/// committed state (when no transaction was open, that was already so).
#[verifier::external_body]
pub(crate) fn rollback_txn(conn: &mut rusqlite::Connection) -> (res: Result<(), EtlError>)
    ensures
        !txn_open(*final(conn)),
        table_rows(*final(conn)) == committed_rows(*old(conn)),
        committed_rows(*final(conn)) == committed_rows(*old(conn)),
{
    conn.execute_batch("ROLLBACK").map_err(|e| EtlError::Store(e.to_string()))
}

/// Relies on rusqlite::Connection::execute_batch running DROP TABLE IF
/// EXISTS and CREATE TABLE: inside the open transaction the table becomes
/// empty with the fixed 12-column schema; on failure nothing is committed.
#[verifier::external_body]
pub(crate) fn recreate_table(conn: &mut rusqlite::Connection) -> (res: Result<(), EtlError>)
    requires
        txn_open(*old(conn)),
    ensures
        res is Ok ==> txn_open(*final(conn)) && table_rows(*final(conn)).len() == 0
            && committed_rows(*final(conn)) == committed_rows(*old(conn)),
        res is Err ==> committed_rows(*final(conn)) == committed_rows(*old(conn)),
{
    conn.execute_batch(
        "DROP TABLE IF EXISTS GooseDB;
         CREATE TABLE GooseDB (
            name TEXT, year INTEGER, team TEXT, league TEXT,
            goose_eggs INTEGER, broken_eggs INTEGER, mehs INTEGER,
            league_average_gpct REAL, ppf REAL, replacement_gpct REAL,
            gwar REAL, key_retro TEXT)",
    ).map_err(|e| EtlError::Store(e.to_string()))
}

/// Relies on rusqlite::Connection::execute running one INSERT: on success
/// exactly one row, the given one, is appended to the table; on failure the
/// statement leaves the table as it was and nothing is committed.
#[verifier::external_body]
pub(crate) fn insert_row(conn: &mut rusqlite::Connection, r: &Record) -> (res: Result<(), EtlError>)
    requires
        txn_open(*old(conn)),
    ensures
        res is Ok ==> txn_open(*final(conn)) && committed_rows(*final(conn)) == committed_rows(
            *old(conn),
        ) && table_rows(*final(conn)) == table_rows(*old(conn)).push(
            (RecordModel {
                league_average_gpct: stored_real(r@.league_average_gpct),
                ppf: stored_real(r@.ppf),
                replacement_gpct: stored_real(r@.replacement_gpct),
                gwar: stored_real(r@.gwar),
                ..r@
            }),
        ),
        res is Err ==> committed_rows(*final(conn)) == committed_rows(*old(conn)),
{
    match conn.execute(
        "INSERT INTO GooseDB VALUES (?, ?, ?, ?, ?, ?, ?, CAST(? AS REAL), CAST(? AS REAL), CAST(? AS REAL), CAST(? AS REAL), ?)",
        (
            r.name.as_str(), r.year, r.team.as_str(), r.league.as_str(),
            r.goose_eggs, r.broken_eggs, r.mehs,
            r.league_average_gpct.as_str(), r.ppf.as_str(),
            r.replacement_gpct.as_str(), r.gwar.as_str(), r.key_retro.as_str(),
        ),
    ) {
        Ok(_) => Ok(()),
        Err(e) => Err(EtlError::Store(e.to_string())),
    }
}

/// Relies on rusqlite::Connection::execute running one UPDATE of the year
/// column for the rows matching the key: every matching row gets the new
/// year, no other row changes, and the count of changed rows comes back.
#[verifier::external_body]
pub(crate) fn update_year(conn: &mut rusqlite::Connection, key: &str, year: i32) -> (res: Result<
    usize,
    EtlError,
>)
    requires
        txn_open(*old(conn)),
    ensures
        res matches Ok(n) ==> txn_open(*final(conn)) && table_rows(*final(conn)) == update_rows(
            table_rows(*old(conn)),
            key@,
            year as int,
        ) && n == matching(table_rows(*old(conn)), key@).len() && committed_rows(*final(conn))
            == committed_rows(*old(conn)),
        res is Err ==> committed_rows(*final(conn)) == committed_rows(*old(conn)),
{
    match conn.execute("UPDATE GooseDB SET year = ? WHERE key_retro = ?", (year, key)) {
        Ok(n) => Ok(n),
        Err(e) => Err(EtlError::Store(e.to_string())),
    }
}

/// Relies on rusqlite::Connection::execute running one DELETE of the rows
/// matching the key: exactly those rows leave, the rest keep their order,
/// and the count of deleted rows comes back.
#[verifier::external_body]
pub(crate) fn delete_matching(conn: &mut rusqlite::Connection, key: &str) -> (res: Result<usize, EtlError>)
    requires
        txn_open(*old(conn)),
    ensures
        res matches Ok(n) ==> txn_open(*final(conn)) && table_rows(*final(conn)) == remaining(
            table_rows(*old(conn)),
            key@,
        ) && n == matching(table_rows(*old(conn)), key@).len() && committed_rows(*final(conn))
            == committed_rows(*old(conn)),
        res is Err ==> committed_rows(*final(conn)) == committed_rows(*old(conn)),
{
    match conn.execute("DELETE FROM GooseDB WHERE key_retro = ?", (key,)) {
        Ok(n) => Ok(n),
        Err(e) => Err(EtlError::Store(e.to_string())),
    }
}

/// Relies on rusqlite::Statement::query_map over SELECT ... LIMIT: it hands
/// back the first four columns of min(limit, count) distinct rows of the
/// table; the scan order is the store's own.
#[verifier::external_body]
pub(crate) fn select_brief(conn: &rusqlite::Connection, limit: usize) -> (res: Result<Vec<RowSummary>, EtlError>)
    ensures
        res matches Ok(v) ==> v@.len() == min(limit as int, table_rows(*conn).len() as int)
            && is_brief_selection(summaries_view(v@), table_rows(*conn)),
{
    let run = || -> rusqlite::Result<Vec<RowSummary>> {
        let mut stmt = conn.prepare("SELECT name, year, team, league FROM GooseDB LIMIT ?")?;
        let rows = stmt.query_map((limit as i64,), |row| {
            Ok(RowSummary { name: row.get(0)?, year: row.get(1)?, team: row.get(2)?, league: row.get(3)? })
        })?;
        rows.collect()
    };
    run().map_err(|e| EtlError::Store(e.to_string()))
}

/// Relies on rusqlite::Connection::query_row over SELECT COUNT(*): it
/// returns the number of rows of the table.
#[verifier::external_body]
pub(crate) fn count_rows_raw(conn: &rusqlite::Connection) -> (res: Result<usize, EtlError>)
    ensures
        res matches Ok(n) ==> n == table_rows(*conn).len(),
{
    let c: i64 = match conn.query_row("SELECT COUNT(*) FROM GooseDB", (), |row| row.get(0)) {
        Ok(c) => c,
        Err(e) => return Err(EtlError::Store(e.to_string())),
    };
    usize::try_from(c).map_err(|e| EtlError::Store(e.to_string()))
}

// ---------------------------------------------------------------------------
// The store and its facade
// ---------------------------------------------------------------------------

pub struct Store {
    pub(crate) conn: rusqlite::Connection,
}

/// How the store's abstraction maps onto the connection model; for the
/// loader, which drives the connection directly.
pub(crate) proof fn store_model(s: Store)
    ensures
        s.wf() <==> (!txn_open(s.conn) && table_rows(s.conn) == committed_rows(s.conn)),
        s.rows() == table_rows(s.conn),
{
}

impl Store {
    /// The rows of the dataset table, in insertion order.
    pub closed spec fn rows(self) -> Seq<RecordModel> {
        table_rows(self.conn)
    }

    /// Outside an operation the store holds no open transaction and shows
    /// exactly the committed state.
    pub closed spec fn wf(self) -> bool {
        &&& !txn_open(self.conn)
        &&& table_rows(self.conn) == committed_rows(self.conn)
    }

    /// Opens the store under the interactive profile: write-ahead logging
    /// with normal synchronous durability, for concurrent readers.
    pub fn open_interactive(path: &str) -> (res: Result<Store, EtlError>)
        ensures
            res matches Ok(s) ==> s.wf(),
    {
        match open_conn(path, "PRAGMA journal_mode = WAL; PRAGMA synchronous = NORMAL;") {
            Ok(conn) => Ok(Store { conn }),
            Err(e) => Err(e),
        }
    }

    /// Opens the store under the bulk-load profile: no per-statement fsync
    /// and an in-memory journal, trading crash-safety for load throughput.
    pub fn open_bulk(path: &str) -> (res: Result<Store, EtlError>)
        ensures
            res matches Ok(s) ==> s.wf(),
    {
        match open_conn(path, "PRAGMA synchronous = OFF; PRAGMA journal_mode = MEMORY;") {
            Ok(conn) => Ok(Store { conn }),
            Err(e) => Err(e),
        }
    }

    /// Inserts exactly one fully-specified record, in its own transaction.
    pub fn crud_create(&mut self, r: &Record) -> (res: Result<(), EtlError>)
        requires
            old(self).wf(),
        ensures
            final(self).wf(),
            res is Ok ==> final(self).rows() == old(self).rows().push(stored_record(r@)),
            res is Err ==> final(self).rows() == old(self).rows(),
    {
        match begin_txn(&mut self.conn) {
            Err(e) => {
                return Err(e);
            },
            Ok(()) => {},
        }
        match insert_row(&mut self.conn, r) {
            Err(e) => {
                let _ = rollback_txn(&mut self.conn);
                return Err(e);
            },
            Ok(()) => {},
        }
        match commit_txn(&mut self.conn) {
            Err(e) => {
                let _ = rollback_txn(&mut self.conn);
                Err(e)
            },
            Ok(()) => Ok(()),
        }
    }

    /// Sets the year of every row matching the key, in its own transaction;
    /// zero matching rows is a no-op, not an error. Returns how many rows
    /// matched.
    pub fn crud_update(&mut self, key: &str, year: i32) -> (res: Result<usize, EtlError>)
        requires
            old(self).wf(),
        ensures
            final(self).wf(),
            res matches Ok(n) ==> final(self).rows() == update_rows(
                old(self).rows(),
                key@,
                year as int,
            ) && n == matching(old(self).rows(), key@).len(),
            res is Err ==> final(self).rows() == old(self).rows(),
    {
        match begin_txn(&mut self.conn) {
            Err(e) => {
                return Err(e);
            },
            Ok(()) => {},
        }
        let n = match update_year(&mut self.conn, key, year) {
            Err(e) => {
                let _ = rollback_txn(&mut self.conn);
                return Err(e);
            },
            Ok(n) => n,
        };
        match commit_txn(&mut self.conn) {
            Err(e) => {
                let _ = rollback_txn(&mut self.conn);
                Err(e)
            },
            Ok(()) => Ok(n),
        }
    }

    /// Deletes every row matching the key, in its own transaction; zero
    /// matching rows is a no-op, not an error. Returns how many rows were
    /// removed.
    pub fn crud_delete(&mut self, key: &str) -> (res: Result<usize, EtlError>)
        requires
            old(self).wf(),
        ensures
            final(self).wf(),
            res matches Ok(n) ==> final(self).rows() == remaining(old(self).rows(), key@) && n
                == matching(old(self).rows(), key@).len(),
            res is Err ==> final(self).rows() == old(self).rows(),
    {
        match begin_txn(&mut self.conn) {
            Err(e) => {
                return Err(e);
            },
            Ok(()) => {},
        }
        let n = match delete_matching(&mut self.conn, key) {
            Err(e) => {
                let _ = rollback_txn(&mut self.conn);
                return Err(e);
            },
            Ok(n) => n,
        };
        match commit_txn(&mut self.conn) {
            Err(e) => {
                let _ = rollback_txn(&mut self.conn);
                Err(e)
            },
            Ok(()) => Ok(n),
        }
    }

    /// Reads up to 10 rows (first four columns only) in the store's own
    /// scan order.
    pub fn crud_read(&self) -> (res: Result<Vec<RowSummary>, EtlError>)
        ensures
            res matches Ok(v) ==> v@.len() == min(10, self.rows().len() as int)
                && is_brief_selection(summaries_view(v@), self.rows()),
    {
        select_brief(&self.conn, 10)
    }

    /// The ad-hoc query of the facade: the same read of up to 10 rows.
    pub fn db_query(&self) -> (res: Result<Vec<RowSummary>, EtlError>)
        ensures
            res matches Ok(v) ==> v@.len() == min(10, self.rows().len() as int)
                && is_brief_selection(summaries_view(v@), self.rows()),
    {
        select_brief(&self.conn, 10)
    }

    /// The number of rows of the table.
    pub fn count_rows(&self) -> (res: Result<usize, EtlError>)
        ensures
            res matches Ok(n) ==> n == self.rows().len(),
    {
        count_rows_raw(&self.conn)
    }

    pub(crate) fn conn_mut(&mut self) -> &mut rusqlite::Connection {
        &mut self.conn
    }
}

} // verus!
