//! A PostgreSQL server-side cursor reader.
//!
//! Rows are streamed through a `DECLARE CURSOR`/`FETCH` session; at most one
//! batch of rows is buffered at a time.
//!
//! # Restart model
//!
//! A server-side cursor does not survive the process, so the cursor is never
//! treated as a durable checkpoint. The committed position is the last delivered
//! row's ordering-key tuple. On restart the first read declares a fresh cursor
//! that selects the rows after the restored key, so that rows that were not
//! committed are read again rather than skipped.

use super::postgres_keyset::{
    delivers, key_columns_fault, keyset_json, keyset_of_bytes, keyset_open,
    keyset_predicate_sql, keyset_predicate_text, order_by_sql, order_by_text,
    validate_key_columns, KeyView, KeysetColumn, KeysetPosition, KeysetRows,
    PostgresComponentConfigError,
};
use crate::item_stream::{StreamOpenError, StreamOpenOutcome, StreamUpdateError};
use crate::json::json_text;
use crate::runtime::{FailureCategory, ReadOutcome, ReaderError};
use crate::text::{copy_text, decimal, decimal_text};
use std::collections::VecDeque;
use vstd::prelude::*;

verus! {

/// The default `FETCH` batch size: bounds how many rows the reader ever holds in
/// memory at once.
pub const DEFAULT_FETCH_SIZE: usize = 500;

/// A bounded cursor format configuration.
#[derive(Clone, Copy, Debug, PartialEq, Eq, Structural)]
pub struct PostgresCursorFormat {
    /// How many rows one `FETCH` round trip retrieves.
    pub fetch_size: usize,
}

impl PostgresCursorFormat {
    /// The default format: [`DEFAULT_FETCH_SIZE`].
    pub fn new() -> (r: Self)
        ensures
            r.fetch_size == DEFAULT_FETCH_SIZE,
    {
        PostgresCursorFormat { fetch_size: DEFAULT_FETCH_SIZE }
    }

    /// Sets how many rows one `FETCH` round trip retrieves.
    pub fn with_fetch_size(self, fetch_size: usize) -> (r: Self)
        ensures
            r.fetch_size == fetch_size,
    {
        PostgresCursorFormat { fetch_size }
    }
}

impl Default for PostgresCursorFormat {
    fn default() -> (r: Self)
        ensures
            r.fetch_size == DEFAULT_FETCH_SIZE,
    {
        Self::new()
    }
}

/// The text that declares the cursor.
pub open spec fn declare_cursor_text(
    base_query: Seq<char>,
    key_columns: Seq<KeysetColumn>,
    has_restored: bool,
) -> Seq<char> {
    if has_restored {
        "DECLARE oxide_batch_cursor NO SCROLL CURSOR WITHOUT HOLD FOR SELECT * FROM ("@ + base_query
            + ") AS ob_cursor_source WHERE "@ + keyset_predicate_text(key_columns, 1)
            + " ORDER BY "@ + order_by_text(key_columns)
    } else {
        "DECLARE oxide_batch_cursor NO SCROLL CURSOR WITHOUT HOLD FOR SELECT * FROM ("@ + base_query
            + ") AS ob_cursor_source ORDER BY "@ + order_by_text(key_columns)
    }
}

/// Builds the text that declares the cursor over the base query in key order,
/// from the first row or from the row after the restored key.
pub fn declare_cursor_sql(
    base_query: &str,
    key_columns: &[KeysetColumn],
    has_restored: bool,
) -> (r: String)
    requires
        key_columns@.len() < usize::MAX,
    ensures
        r@ == declare_cursor_text(base_query@, key_columns@, has_restored),
{
    let mut out: String = copy_text(
        "DECLARE oxide_batch_cursor NO SCROLL CURSOR WITHOUT HOLD FOR SELECT * FROM (",
    );
    out.append(base_query);
    if has_restored {
        out.append(") AS ob_cursor_source WHERE ");
        out.append(keyset_predicate_sql(key_columns, 1).as_str());
        out.append(" ORDER BY ");
    } else {
        out.append(") AS ob_cursor_source ORDER BY ");
    }
    out.append(order_by_sql(key_columns).as_str());
    out
}

/// The text that fetches the next batch.
pub open spec fn fetch_text(fetch_size: usize) -> Seq<char> {
    "FETCH FORWARD "@ + decimal(fetch_size as nat) + " FROM oxide_batch_cursor"@
}

/// Builds the text that fetches the next batch.
fn fetch_sql(fetch_size: usize) -> (r: String)
    ensures
        r@ == fetch_text(fetch_size),
{
    let mut out: String = copy_text("FETCH FORWARD ");
    out.append(decimal_text(fetch_size as u64).as_str());
    out.append(" FROM oxide_batch_cursor");
    out
}

/// The next step of a read.
pub enum CursorAction {
    /// Begin a transaction of the reader's own and run this statement in it, with
    /// the key values bound in order.
    Start {
        /// The statement.
        sql: String,
        /// The key values to bind.
        keys: KeysetPosition,
    },
    /// Run this statement in the held transaction and hand its rows over.
    Fetch {
        /// The statement.
        sql: String,
    },
    /// Deliver the front row.
    Deliver,
    /// The read failed.
    Fail(ReaderError),
}

/// The next step of a read, by its content.
#[verifier::ext_equal]
pub enum CursorStep {
    Start { sql: Seq<char>, keys: Seq<KeyView> },
    Fetch { sql: Seq<char> },
    Deliver,
    Fail(FailureCategory),
}

impl View for CursorAction {
    type V = CursorStep;

    open spec fn view(&self) -> CursorStep {
        match self {
            CursorAction::Start { sql, keys } => CursorStep::Start { sql: sql@, keys: keys@ },
            CursorAction::Fetch { sql } => CursorStep::Fetch { sql: sql@ },
            CursorAction::Deliver => CursorStep::Deliver,
            CursorAction::Fail(error) => CursorStep::Fail(error.category),
        }
    }
}

/// A failure that leaves the checkpoint where it was.
pub open spec fn plain_failure(action: CursorAction) -> bool {
    action matches CursorAction::Fail(error) ==> !error.checkpoint_advanced
}

/// A restartable reader over a server-side cursor, whose rows have the type `R`.
///
/// `key_columns` must be a strict total order (composite and `NOT NULL`); a
/// non-unique order can skip rows or deliver them again across a restart.
pub struct PostgresCursorReader<R> {
    /// A full `SELECT`, without a trailing `ORDER BY` or `LIMIT`, whose projection
    /// has every key column by name.
    pub base_query: String,
    /// The ordering-key columns.
    pub key_columns: Vec<KeysetColumn>,
    /// How many rows one `FETCH` retrieves.
    pub fetch_size: usize,
    /// The buffered rows and the position.
    pub rows: KeysetRows<R>,
    /// The cursor has been declared.
    pub started: bool,
    /// The reader's own transaction is held.
    pub session: bool,
    /// The cursor has no more rows.
    pub done: bool,
}

impl<R> PostgresCursorReader<R> {
    /// The configuration is one that the builder accepts.
    pub open spec fn wf(&self) -> bool {
        &&& key_columns_fault(self.key_columns@) is None
        &&& self.key_columns@.len() < usize::MAX
        &&& self.fetch_size > 0
    }

    /// Only the rows and the session's state differ.
    pub open spec fn same_source(&self, other: &Self) -> bool {
        &&& self.base_query == other.base_query
        &&& self.key_columns == other.key_columns
        &&& self.fetch_size == other.fetch_size
    }

    /// The step that a started reader takes.
    pub open spec fn step(&self) -> CursorStep {
        if self.rows.buffered@.len() == 0 && !self.done {
            if self.session {
                CursorStep::Fetch { sql: fetch_text(self.fetch_size) }
            } else {
                CursorStep::Fail(FailureCategory::Invariant)
            }
        } else {
            CursorStep::Deliver
        }
    }

    /// The first step of a read: the cursor is declared on first use, filtered by
    /// the restored position if there is one.
    pub open spec fn first_step(&self) -> CursorStep {
        if !self.started {
            CursorStep::Start {
                sql: declare_cursor_text(
                    self.base_query@,
                    self.key_columns@,
                    self.rows.position@.len() > 0,
                ),
                keys: self.rows.position@,
            }
        } else {
            self.step()
        }
    }

    fn advance(&self) -> (r: CursorAction)
        ensures
            r@ == self.step(),
            plain_failure(r),
    {
        if self.rows.buffered.len() == 0 && !self.done {
            if self.session {
                CursorAction::Fetch { sql: fetch_sql(self.fetch_size) }
            } else {
                CursorAction::Fail(ReaderError::with_category(FailureCategory::Invariant))
            }
        } else {
            CursorAction::Deliver
        }
    }

    /// Starts a read.
    pub fn read(&self) -> (r: CursorAction)
        requires
            self.wf(),
        ensures
            r@ == self.first_step(),
            plain_failure(r),
    {
        if self.started {
            return self.advance();
        }
        let sql: String = declare_cursor_sql(
            self.base_query.as_str(),
            self.key_columns.as_slice(),
            !self.rows.position.is_empty(),
        );
        CursorAction::Start { sql, keys: self.rows.position.clone() }
    }

    /// Takes what came of declaring the cursor. A failure leaves the reader to
    /// try again.
    pub fn cursor_declared(&mut self, result: Result<(), FailureCategory>) -> (r: CursorAction)
        requires
            old(self).wf(),
        ensures
            final(self).wf(),
            final(self).same_source(old(self)),
            final(self).rows == old(self).rows,
            final(self).done == old(self).done,
            match result {
                Ok(_) => {
                    &&& final(self).started
                    &&& final(self).session
                    &&& r@ == final(self).step()
                },
                Err(category) => {
                    &&& *final(self) == *old(self)
                    &&& r@ == CursorStep::Fail(category)
                },
            },
            plain_failure(r),
    {
        match result {
            Ok(_) => {
                self.started = true;
                self.session = true;
                self.advance()
            },
            Err(category) => CursorAction::Fail(ReaderError::with_category(category)),
        }
    }

    /// Takes what came of fetching a batch. No rows mean that the cursor has
    /// ended; a failure gives the session up, since the connection is presumed
    /// unhealthy.
    pub fn fetched(&mut self, result: Result<VecDeque<R>, FailureCategory>) -> (r: CursorAction)
        requires
            old(self).wf(),
            old(self).rows.buffered@.len() == 0,
        ensures
            final(self).wf(),
            final(self).same_source(old(self)),
            final(self).rows.position == old(self).rows.position,
            final(self).started == old(self).started,
            match result {
                Ok(rows) => {
                    &&& final(self).rows.buffered@ == rows@
                    &&& final(self).session == old(self).session
                    &&& final(self).done == (old(self).done || rows@.len() == 0)
                    &&& r@ == CursorStep::Deliver
                },
                Err(category) => {
                    &&& final(self).rows == old(self).rows
                    &&& !final(self).session
                    &&& final(self).done == old(self).done
                    &&& r@ == CursorStep::Fail(category)
                },
            },
            plain_failure(r),
    {
        match result {
            Ok(rows) => {
                if rows.len() == 0 {
                    self.done = true;
                }
                self.rows.buffered = rows;
                CursorAction::Deliver
            },
            Err(category) => {
                self.session = false;
                CursorAction::Fail(ReaderError::with_category(category))
            },
        }
    }

    /// Delivers the front row; see [`KeysetRows::deliver`].
    pub fn deliver<I, K, F>(&mut self, extract: K, map_row: F) -> (r: Result<
        ReadOutcome<I>,
        ReaderError,
    >) where
        K: Fn(&R) -> Result<KeysetPosition, ReaderError>,
        F: Fn(&R) -> Result<I, ReaderError>,

        requires
            forall|row: &R| #[trigger] call_requires(extract, (row,)),
            forall|row: &R| #[trigger] call_requires(map_row, (row,)),
        ensures
            final(self).same_source(old(self)),
            final(self).started == old(self).started,
            final(self).session == old(self).session,
            final(self).done == old(self).done,
            delivers(old(self).rows, final(self).rows, extract, map_row, r),
    {
        self.rows.deliver(extract, map_row)
    }

    /// Opens the position.
    pub fn open(&mut self, inherited: Option<&[u8]>) -> (r: Result<
        StreamOpenOutcome,
        StreamOpenError,
    >)
        ensures
            final(self).same_source(old(self)),
            final(self).started == old(self).started,
            final(self).session == old(self).session,
            final(self).done == old(self).done,
            final(self).rows.buffered == old(self).rows.buffered,
            ({
                let bytes = match inherited {
                    Some(bytes) => Some(bytes@),
                    None => None,
                };
                match keyset_open(bytes) {
                    Some((outcome, keys)) => final(self).rows.position@ == keys && r == Ok::<
                        StreamOpenOutcome,
                        StreamOpenError,
                    >(outcome),
                    None => final(self).rows.position == old(self).rows.position && r == Err::<
                        StreamOpenOutcome,
                        StreamOpenError,
                    >(StreamOpenError { category: FailureCategory::UserComponent }),
                }
            }),
    {
        self.rows.open(inherited)
    }

    /// The durable position.
    pub fn update(&self) -> (r: Result<Vec<u8>, StreamUpdateError>)
        ensures
            r is Ok,
            r->Ok_0@ == json_text(keyset_json(self.rows.position@)),
            keyset_of_bytes(r->Ok_0@) == Some(self.rows.position@),
    {
        self.rows.update()
    }

    /// Closes the reader: whether a held transaction is to be rolled back. It is
    /// held no longer.
    pub fn close(&mut self) -> (r: bool)
        ensures
            r == old(self).session,
            *final(self) == (PostgresCursorReader { session: false, ..*old(self) }),
    {
        let held: bool = self.session;
        self.session = false;
        held
    }
}

/// Builds a reader over a base query, at its start. Nothing is connected until
/// the first read.
pub fn postgres_cursor_reader<R>(
    base_query: &str,
    key_columns: Vec<KeysetColumn>,
    format: PostgresCursorFormat,
) -> (r: Result<PostgresCursorReader<R>, PostgresComponentConfigError>)
    requires
        key_columns@.len() < usize::MAX,
    ensures
        match r {
            Ok(reader) => {
                &&& key_columns_fault(key_columns@) is None
                &&& format.fetch_size > 0
                &&& reader.wf()
                &&& reader.base_query@ == base_query@
                &&& reader.key_columns == key_columns
                &&& reader.fetch_size == format.fetch_size
                &&& reader.rows.position@.len() == 0
                &&& reader.rows.buffered@.len() == 0
                &&& !reader.started
                &&& !reader.session
                &&& !reader.done
            },
            Err(error) => {
                ||| key_columns_fault(key_columns@) == Some(error)
                ||| {
                    &&& key_columns_fault(key_columns@) is None
                    &&& format.fetch_size == 0
                    &&& error == PostgresComponentConfigError::InvalidFetchSize
                }
            },
        },
{
    match validate_key_columns(key_columns.as_slice()) {
        Ok(_) => {},
        Err(error) => return Err(error),
    }
    if format.fetch_size == 0 {
        return Err(PostgresComponentConfigError::InvalidFetchSize);
    }
    Ok(
        PostgresCursorReader {
            base_query: copy_text(base_query),
            key_columns,
            fetch_size: format.fetch_size,
            rows: KeysetRows::new(),
            started: false,
            session: false,
            done: false,
        },
    )
}

/// A restarted reader selects exactly the rows after the committed position: the
/// cursor it declares compares the key columns with the keys that the earlier
/// attempt committed.
pub proof fn restart_selects_the_rows_after_the_committed_key<R>(
    reader: PostgresCursorReader<R>,
    committed: Seq<u8>,
    keys: Seq<KeyView>,
)
    requires
        !reader.started,
        keyset_of_bytes(committed) == Some(keys),
        keyset_open(Some(committed)) == Some((StreamOpenOutcome::Restored, reader.rows.position@)),
        keys.len() > 0,
    ensures
        reader.first_step() == (CursorStep::Start {
            sql: "DECLARE oxide_batch_cursor NO SCROLL CURSOR WITHOUT HOLD FOR SELECT * FROM ("@
                + reader.base_query@ + ") AS ob_cursor_source WHERE "@ + keyset_predicate_text(
                reader.key_columns@,
                1,
            ) + " ORDER BY "@ + order_by_text(reader.key_columns@),
            keys,
        }),
{
}

/// A cursor is declared over the base query as it stands, in key order, and selects
/// what comes after the keys exactly if a position was restored.
pub proof fn the_cursor_is_declared_over_the_query(
    base_query: &str,
    key_columns: &[KeysetColumn],
    initial: String,
    restored: String,
)
    requires
        call_ensures(declare_cursor_sql, (base_query, key_columns, false), initial),
        call_ensures(declare_cursor_sql, (base_query, key_columns, true), restored),
    ensures
        initial@
            == "DECLARE oxide_batch_cursor NO SCROLL CURSOR WITHOUT HOLD FOR SELECT * FROM ("@
            + base_query@ + ") AS ob_cursor_source ORDER BY "@ + order_by_text(key_columns@),
        restored@
            == "DECLARE oxide_batch_cursor NO SCROLL CURSOR WITHOUT HOLD FOR SELECT * FROM ("@
            + base_query@ + ") AS ob_cursor_source WHERE "@ + keyset_predicate_text(key_columns@, 1)
            + " ORDER BY "@ + order_by_text(key_columns@),
{
}

/// A read declares the cursor once, with the restored keys bound, then fetches
/// whenever nothing is buffered and rows may follow, as many rows as configured,
/// and delivers otherwise. Without its session it fails.
pub proof fn a_cursor_read_goes_step_by_step<R>(reader: &PostgresCursorReader<R>, r: CursorAction)
    requires
        call_ensures(PostgresCursorReader::<R>::read, (reader,), r),
    ensures
        r is Start <==> !reader.started,
        r matches CursorAction::Start { sql, keys } ==> keys@ == reader.rows.position@ && sql@
            == declare_cursor_text(
            reader.base_query@,
            reader.key_columns@,
            reader.rows.position@.len() != 0,
        ),
        reader.started ==> (r is Deliver <==> reader.rows.buffered@.len() > 0 || reader.done),
        reader.started && reader.rows.buffered@.len() == 0 && !reader.done ==> (r is Fetch
            <==> reader.session),
        r matches CursorAction::Fetch { sql } ==> sql@ == "FETCH FORWARD "@ + decimal(
            reader.fetch_size as nat,
        ) + " FROM oxide_batch_cursor"@,
        r matches CursorAction::Fail(error) ==> error.category == FailureCategory::Invariant
            && !error.checkpoint_advanced,
{
}

/// A declared cursor holds its session and is not declared again; a failed
/// declaration changes nothing, so that the next read declares it.
pub proof fn a_failed_declaration_is_tried_again<R>(
    reader: &mut PostgresCursorReader<R>,
    result: Result<(), FailureCategory>,
    r: CursorAction,
    after: &PostgresCursorReader<R>,
    next: CursorAction,
)
    requires
        call_ensures(PostgresCursorReader::<R>::cursor_declared, (reader, result), r),
        *after == *final(reader),
        call_ensures(PostgresCursorReader::<R>::read, (after,), next),
        !old(reader).started,
    ensures
        result is Ok ==> after.started && after.session && next@ == r@ && !(r is Fail),
        result matches Err(category) ==> next is Start && (r matches CursorAction::Fail(error)
            && error.category == category && !error.checkpoint_advanced),
        after.rows == old(reader).rows,
{
}

/// Fetched rows are buffered in order and delivered; no rows end the cursor for
/// good. A failed fetch keeps the rows and the position and gives the session up.
pub proof fn an_empty_fetch_ends_the_cursor<R>(
    reader: &mut PostgresCursorReader<R>,
    result: Result<VecDeque<R>, FailureCategory>,
    r: CursorAction,
)
    requires
        call_ensures(PostgresCursorReader::<R>::fetched, (reader, result), r),
        !old(reader).done,
    ensures
        result matches Ok(rows) ==> r is Deliver && final(reader).rows.buffered@ == rows@
            && final(reader).session == old(reader).session && (final(reader).done <==> rows@.len()
            == 0),
        result matches Err(category) ==> !final(reader).session && !final(reader).done
            && final(reader).rows == old(reader).rows && (r matches CursorAction::Fail(error)
                && error.category
            == category && !error.checkpoint_advanced),
        final(reader).rows.position == old(reader).rows.position,
        final(reader).started == old(reader).started,
{
}

/// Closing rolls back exactly a held transaction, and once.
pub proof fn closing_releases_the_session_once<R>(
    reader: &mut PostgresCursorReader<R>,
    first: bool,
    again: &mut PostgresCursorReader<R>,
    second: bool,
)
    requires
        call_ensures(PostgresCursorReader::<R>::close, (reader,), first),
        *old(again) == *final(reader),
        call_ensures(PostgresCursorReader::<R>::close, (again,), second),
    ensures
        first == old(reader).session,
        !second,
        final(again).rows == old(reader).rows,
{
}

/// A reader is built exactly of valid key columns and a fetch size above zero, at
/// the start of the query, and keeps its configuration.
pub proof fn a_cursor_reader_keeps_its_configuration<R>(
    base_query: &str,
    key_columns: Vec<KeysetColumn>,
    format: PostgresCursorFormat,
    r: Result<PostgresCursorReader<R>, PostgresComponentConfigError>,
)
    requires
        call_ensures(postgres_cursor_reader::<R>, (base_query, key_columns, format), r),
    ensures
        r is Ok <==> key_columns_fault(key_columns@) is None && format.fetch_size != 0,
        key_columns_fault(key_columns@) is None && format.fetch_size == 0 ==> r->Err_0
            == PostgresComponentConfigError::InvalidFetchSize,
        key_columns_fault(key_columns@) matches Some(fault) ==> r->Err_0 == fault,
        r matches Ok(reader) ==> reader.base_query@ == base_query@ && reader.key_columns
            == key_columns && reader.fetch_size == format.fetch_size && !reader.started
            && !reader.session && !reader.done && reader.rows.position@.len() == 0
            && reader.rows.buffered@.len() == 0,
{
}

/// Five hundred rows are fetched at a time unless another number is set.
pub proof fn the_default_fetch_size_is_this(
    format: PostgresCursorFormat,
    size: usize,
    r: PostgresCursorFormat,
)
    requires
        call_ensures(PostgresCursorFormat::new, (), format),
        call_ensures(PostgresCursorFormat::with_fetch_size, (format, size), r),
    ensures
        format.fetch_size == 500,
        r.fetch_size == size,
{
}

/// A restarted reader goes on behind the last row that was delivered before what
/// was prepared; without inherited state it starts before the first row.
pub proof fn a_cursor_restart_goes_on<R>(
    before: &PostgresCursorReader<R>,
    prepared: Result<Vec<u8>, StreamUpdateError>,
    reader: &mut PostgresCursorReader<R>,
    inherited: Option<&[u8]>,
    r: Result<StreamOpenOutcome, StreamOpenError>,
)
    requires
        call_ensures(PostgresCursorReader::<R>::update, (before,), prepared),
        call_ensures(PostgresCursorReader::<R>::open, (reader, inherited), r),
    ensures
        prepared is Ok,
        inherited matches Some(bytes) && bytes@ == prepared->Ok_0@ ==> final(reader).rows.position@
            == before.rows.position@ && r == Ok::<StreamOpenOutcome, StreamOpenError>(
            StreamOpenOutcome::Restored,
        ),
        inherited is None ==> final(reader).rows.position@.len() == 0 && r == Ok::<
            StreamOpenOutcome,
            StreamOpenError,
        >(StreamOpenOutcome::Initial),
        r is Err ==> final(reader).rows.position == old(reader).rows.position
            && r->Err_0.category == FailureCategory::UserComponent,
        final(reader).rows.buffered == old(reader).rows.buffered,
{
}

/// A row that was delivered leaves, and the position moves to its key; a failing
/// row stays in front and moves nothing.
pub proof fn a_cursor_row_leaves_once_delivered<R, I, K: Fn(&R) -> Result<
    KeysetPosition,
    ReaderError,
>, F: Fn(&R) -> Result<I, ReaderError>>(
    reader: &mut PostgresCursorReader<R>,
    extract: K,
    map_row: F,
    r: Result<ReadOutcome<I>, ReaderError>,
)
    requires
        call_ensures(PostgresCursorReader::<R>::deliver::<I, K, F>, (reader, extract, map_row), r),
    ensures
        old(reader).rows.buffered@.len() == 0 <==> r == Ok::<ReadOutcome<I>, ReaderError>(
            ReadOutcome::EndOfInput,
        ),
        r matches Ok(ReadOutcome::Item(item)) ==> call_ensures(
            map_row,
            (&old(reader).rows.buffered@[0],),
            Ok(item),
        ) && call_ensures(
            extract,
            (&old(reader).rows.buffered@[0],),
            Ok(final(reader).rows.position),
        ) && final(reader).rows.buffered@ == old(reader).rows.buffered@.skip(1),
        r matches Err(error) ==> final(reader).rows == old(reader).rows && error.category
            == FailureCategory::UserComponent && !error.checkpoint_advanced,
        final(reader).base_query == old(reader).base_query,
        final(reader).key_columns == old(reader).key_columns,
{
}

} // verus!
