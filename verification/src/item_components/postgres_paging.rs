//! A restartable PostgreSQL keyset paging reader.
//!
//! Each page is an independent, bounded
//! `WHERE (cols...) > (last...) ORDER BY cols... LIMIT page_size` query, so that
//! the cost of a page does not grow with its number and nothing is held on the
//! server between pages.

use super::postgres_keyset::{
    delivers, key_columns_fault, keyset_json, keyset_of_bytes, keyset_open,
    keyset_predicate_sql, keyset_predicate_text, order_by_sql, order_by_text,
    validate_key_columns, KeyView, KeysetColumn, KeysetPosition, KeysetRows,
    PostgresComponentConfigError,
};
use crate::item_stream::{
    StreamCloseError, StreamCloseOutcome, StreamOpenError, StreamOpenOutcome, StreamUpdateError,
};
use crate::json::json_text;
use crate::runtime::{FailureCategory, ReadOutcome, ReaderError};
use crate::text::{copy_text, decimal, decimal_text};
use std::collections::VecDeque;
use vstd::prelude::*;

verus! {

/// The default page size.
pub const DEFAULT_PAGE_SIZE: usize = 500;

/// A bounded paging format configuration.
#[derive(Clone, Copy, Debug, PartialEq, Eq, Structural)]
pub struct PostgresPagingFormat {
    /// How many rows one page query retrieves.
    pub page_size: usize,
}

impl PostgresPagingFormat {
    /// The default format: [`DEFAULT_PAGE_SIZE`].
    pub fn new() -> (r: Self)
        ensures
            r.page_size == DEFAULT_PAGE_SIZE,
    {
        PostgresPagingFormat { page_size: DEFAULT_PAGE_SIZE }
    }

    /// Sets how many rows one page query retrieves.
    pub fn with_page_size(self, page_size: usize) -> (r: Self)
        ensures
            r.page_size == page_size,
    {
        PostgresPagingFormat { page_size }
    }
}

impl Default for PostgresPagingFormat {
    fn default() -> (r: Self)
        ensures
            r.page_size == DEFAULT_PAGE_SIZE,
    {
        Self::new()
    }
}

/// The text of a page query.
pub open spec fn page_query_text(
    base_query: Seq<char>,
    key_columns: Seq<KeysetColumn>,
    has_restored: bool,
) -> Seq<char> {
    if has_restored {
        "SELECT * FROM ("@ + base_query + ") AS ob_page_source WHERE "@ + keyset_predicate_text(
            key_columns,
            1,
        ) + " ORDER BY "@ + order_by_text(key_columns) + " LIMIT $"@ + decimal(
            key_columns.len() + 1,
        )
    } else {
        "SELECT * FROM ("@ + base_query + ") AS ob_page_source ORDER BY "@ + order_by_text(
            key_columns,
        ) + " LIMIT $1"@
    }
}

/// Builds the bounded page query. The `LIMIT` value is always the last bind
/// parameter: `$1` on initial execution, and the one after the key values once a
/// keyset predicate is present.
pub fn page_query_sql(base_query: &str, key_columns: &[KeysetColumn], has_restored: bool) -> (r:
    String)
    requires
        key_columns@.len() < usize::MAX,
    ensures
        r@ == page_query_text(base_query@, key_columns@, has_restored),
{
    let mut out: String = copy_text("SELECT * FROM (");
    out.append(base_query);
    if has_restored {
        out.append(") AS ob_page_source WHERE ");
        out.append(keyset_predicate_sql(key_columns, 1).as_str());
        out.append(" ORDER BY ");
        out.append(order_by_sql(key_columns).as_str());
        out.append(" LIMIT $");
        out.append(decimal_text((key_columns.len() + 1) as u64).as_str());
    } else {
        out.append(") AS ob_page_source ORDER BY ");
        out.append(order_by_sql(key_columns).as_str());
        out.append(" LIMIT $1");
    }
    out
}

/// The next step of a read.
pub enum PagingAction {
    /// Run this statement, with the key values and then the limit bound in order,
    /// and hand its rows over.
    FetchPage {
        /// The statement.
        sql: String,
        /// The key values to bind.
        keys: KeysetPosition,
        /// The limit to bind.
        limit: i64,
    },
    /// Deliver the front row.
    Deliver,
    /// The read failed.
    Fail(ReaderError),
}

/// The next step of a read, by its content.
#[verifier::ext_equal]
pub enum PagingStep {
    FetchPage { sql: Seq<char>, keys: Seq<KeyView>, limit: i64 },
    Deliver,
    Fail(FailureCategory),
}

impl View for PagingAction {
    type V = PagingStep;

    open spec fn view(&self) -> PagingStep {
        match self {
            PagingAction::FetchPage { sql, keys, limit } => PagingStep::FetchPage {
                sql: sql@,
                keys: keys@,
                limit: *limit,
            },
            PagingAction::Deliver => PagingStep::Deliver,
            PagingAction::Fail(error) => PagingStep::Fail(error.category),
        }
    }
}

/// A failure that leaves the checkpoint where it was.
pub open spec fn plain_failure(action: PagingAction) -> bool {
    action matches PagingAction::Fail(error) ==> !error.checkpoint_advanced
}

/// A restartable reader over independent, bounded keyset pages, whose rows have
/// the type `R`. `key_columns` must be a strict total order.
pub struct PostgresPagingReader<R> {
    /// A full `SELECT`, without a trailing `ORDER BY` or `LIMIT`, whose projection
    /// has every key column by name.
    pub base_query: String,
    /// The ordering-key columns.
    pub key_columns: Vec<KeysetColumn>,
    /// How many rows one page query retrieves.
    pub page_size: usize,
    /// The buffered rows and the position.
    pub rows: KeysetRows<R>,
    /// A page was short, so no more rows follow.
    pub exhausted: bool,
}

impl<R> PostgresPagingReader<R> {
    /// The configuration is one that the builder accepts.
    pub open spec fn wf(&self) -> bool {
        &&& key_columns_fault(self.key_columns@) is None
        &&& self.key_columns@.len() < usize::MAX
        &&& self.page_size > 0
    }

    /// Only the rows and the end of input differ.
    pub open spec fn same_source(&self, other: &Self) -> bool {
        &&& self.base_query == other.base_query
        &&& self.key_columns == other.key_columns
        &&& self.page_size == other.page_size
    }

    /// The step that a read takes: a page after the position if nothing is
    /// buffered and rows may follow.
    pub open spec fn step(&self) -> PagingStep {
        if self.rows.buffered@.len() == 0 && !self.exhausted {
            if self.page_size > i64::MAX {
                PagingStep::Fail(FailureCategory::Invariant)
            } else {
                PagingStep::FetchPage {
                    sql: page_query_text(
                        self.base_query@,
                        self.key_columns@,
                        self.rows.position@.len() > 0,
                    ),
                    keys: self.rows.position@,
                    limit: self.page_size as i64,
                }
            }
        } else {
            PagingStep::Deliver
        }
    }

    /// Starts a read.
    pub fn read(&self) -> (r: PagingAction)
        requires
            self.wf(),
        ensures
            r@ == self.step(),
            plain_failure(r),
    {
        if self.rows.buffered.len() > 0 || self.exhausted {
            return PagingAction::Deliver;
        }
        if self.page_size as u64 > i64::MAX as u64 {
            return PagingAction::Fail(ReaderError::with_category(FailureCategory::Invariant));
        }
        let sql: String = page_query_sql(
            self.base_query.as_str(),
            self.key_columns.as_slice(),
            !self.rows.position.is_empty(),
        );
        PagingAction::FetchPage {
            sql,
            keys: self.rows.position.clone(),
            limit: self.page_size as i64,
        }
    }

    /// Takes what came of fetching a page. A page with fewer rows than asked for
    /// is the last one.
    pub fn page_fetched(&mut self, result: Result<VecDeque<R>, FailureCategory>) -> (r:
        PagingAction)
        requires
            old(self).wf(),
            old(self).rows.buffered@.len() == 0,
        ensures
            final(self).wf(),
            final(self).same_source(old(self)),
            final(self).rows.position == old(self).rows.position,
            match result {
                Ok(rows) => {
                    &&& final(self).rows.buffered@ == rows@
                    &&& final(self).exhausted == (old(self).exhausted || rows@.len()
                        < old(self).page_size)
                    &&& r@ == PagingStep::Deliver
                },
                Err(category) => {
                    &&& *final(self) == *old(self)
                    &&& r@ == PagingStep::Fail(category)
                },
            },
            plain_failure(r),
    {
        match result {
            Ok(rows) => {
                if rows.len() < self.page_size {
                    self.exhausted = true;
                }
                self.rows.buffered = rows;
                PagingAction::Deliver
            },
            Err(category) => PagingAction::Fail(ReaderError::with_category(category)),
        }
    }

    /// Delivers the front row; see [`KeysetRows::deliver`].
    pub fn deliver<I, K, F>(&mut self, extract: K, map_row: F) -> (r: Result<
        ReadOutcome<I>,
        ReaderError,
    >) where
        K: Fn(&R) -> Result<KeysetPosition, ReaderError>,
        F: Fn(&R) -> Result<I, ReaderError>,

        requires
            forall|row: &R| #[trigger] call_requires(extract, (row,)),
            forall|row: &R| #[trigger] call_requires(map_row, (row,)),
        ensures
            final(self).same_source(old(self)),
            final(self).exhausted == old(self).exhausted,
            delivers(old(self).rows, final(self).rows, extract, map_row, r),
    {
        self.rows.deliver(extract, map_row)
    }

    /// Opens the position.
    pub fn open(&mut self, inherited: Option<&[u8]>) -> (r: Result<
        StreamOpenOutcome,
        StreamOpenError,
    >)
        ensures
            final(self).same_source(old(self)),
            final(self).exhausted == old(self).exhausted,
            final(self).rows.buffered == old(self).rows.buffered,
            ({
                let bytes = match inherited {
                    Some(bytes) => Some(bytes@),
                    None => None,
                };
                match keyset_open(bytes) {
                    Some((outcome, keys)) => final(self).rows.position@ == keys && r == Ok::<
                        StreamOpenOutcome,
                        StreamOpenError,
                    >(outcome),
                    None => final(self).rows.position == old(self).rows.position && r == Err::<
                        StreamOpenOutcome,
                        StreamOpenError,
                    >(StreamOpenError { category: FailureCategory::UserComponent }),
                }
            }),
    {
        self.rows.open(inherited)
    }

    /// The durable position.
    pub fn update(&self) -> (r: Result<Vec<u8>, StreamUpdateError>)
        ensures
            r is Ok,
            r->Ok_0@ == json_text(keyset_json(self.rows.position@)),
            keyset_of_bytes(r->Ok_0@) == Some(self.rows.position@),
    {
        self.rows.update()
    }

    /// Closes the reader, which holds nothing to release between pages.
    pub fn close(&self) -> (r: Result<StreamCloseOutcome, StreamCloseError>)
        ensures
            r == Ok::<StreamCloseOutcome, StreamCloseError>(StreamCloseOutcome::Closed),
    {
        Ok(StreamCloseOutcome::Closed)
    }
}

/// Builds a reader over a base query, at its start.
pub fn postgres_paging_reader<R>(
    base_query: &str,
    key_columns: Vec<KeysetColumn>,
    format: PostgresPagingFormat,
) -> (r: Result<PostgresPagingReader<R>, PostgresComponentConfigError>)
    requires
        key_columns@.len() < usize::MAX,
    ensures
        match r {
            Ok(reader) => {
                &&& key_columns_fault(key_columns@) is None
                &&& format.page_size > 0
                &&& reader.wf()
                &&& reader.base_query@ == base_query@
                &&& reader.key_columns == key_columns
                &&& reader.page_size == format.page_size
                &&& reader.rows.position@.len() == 0
                &&& reader.rows.buffered@.len() == 0
                &&& !reader.exhausted
            },
            Err(error) => {
                ||| key_columns_fault(key_columns@) == Some(error)
                ||| {
                    &&& key_columns_fault(key_columns@) is None
                    &&& format.page_size == 0
                    &&& error == PostgresComponentConfigError::InvalidFetchSize
                }
            },
        },
{
    match validate_key_columns(key_columns.as_slice()) {
        Ok(_) => {},
        Err(error) => return Err(error),
    }
    if format.page_size == 0 {
        return Err(PostgresComponentConfigError::InvalidFetchSize);
    }
    Ok(
        PostgresPagingReader {
            base_query: copy_text(base_query),
            key_columns,
            page_size: format.page_size,
            rows: KeysetRows::new(),
            exhausted: false,
        },
    )
}

/// A strict order on key tuples that sorts a source.
pub open spec fn sorts(
    less: spec_fn(Seq<KeyView>, Seq<KeyView>) -> bool,
    source: Seq<Seq<KeyView>>,
) -> bool {
    &&& forall|a: Seq<KeyView>, b: Seq<KeyView>| #[trigger] less(a, b) ==> !less(b, a)
    &&& forall|i: int, j: int|
        0 <= i < j < source.len() ==> less(#[trigger] source[i], #[trigger] source[j])
}

/// The rows of a source that a keyset query selects: all of them, or those after
/// the position.
pub open spec fn rows_after(
    less: spec_fn(Seq<KeyView>, Seq<KeyView>) -> bool,
    source: Seq<Seq<KeyView>>,
    position: Seq<KeyView>,
) -> Seq<Seq<KeyView>>
    decreases source.len(),
{
    if position.len() == 0 || source.len() == 0 {
        source
    } else {
        let before = rows_after(less, source.drop_last(), position);
        if less(position, source.last()) {
            before.push(source.last())
        } else {
            before
        }
    }
}

/// Pages follow each other without a gap or an overlap: over a source whose key
/// tuples are in strict order, the rows selected after the `n`-th one are exactly
/// those behind it, whether the query runs in the same attempt or after a
/// restart.
pub proof fn no_row_is_skipped_or_repeated(
    less: spec_fn(Seq<KeyView>, Seq<KeyView>) -> bool,
    source: Seq<Seq<KeyView>>,
    n: nat,
)
    requires
        sorts(less, source),
        n <= source.len(),
        n > 0 ==> source[n - 1].len() > 0,
    ensures
        rows_after(
            less,
            source,
            if n > 0 {
                source[n - 1]
            } else {
                Seq::empty()
            },
        ) == source.skip(n as int),
    decreases source.len(),
{
    if n == 0 {
        assert(source.skip(0) =~= source);
    } else {
        let position = source[n - 1];
        let shorter = source.drop_last();
        assert(!less(position, position));
        assert forall|i: int, j: int| 0 <= i < j < shorter.len() implies less(
            #[trigger] shorter[i],
            #[trigger] shorter[j],
        ) by {
            assert(shorter[i] == source[i] && shorter[j] == source[j]);
        }
        if n < source.len() {
            assert(shorter[n - 1] == source[n - 1]);
            no_row_is_skipped_or_repeated(less, shorter, n);
            assert(less(position, source[source.len() - 1]));
            assert(shorter.skip(n as int).push(source.last()) =~= source.skip(n as int));
        } else {
            nothing_after(less, shorter, position);
            assert(source.skip(n as int) =~= Seq::<Seq<KeyView>>::empty());
        }
    }
}

/// Nothing is selected after a key that no row is after.
proof fn nothing_after(
    less: spec_fn(Seq<KeyView>, Seq<KeyView>) -> bool,
    source: Seq<Seq<KeyView>>,
    position: Seq<KeyView>,
)
    requires
        position.len() > 0,
        forall|i: int| 0 <= i < source.len() ==> !less(position, #[trigger] source[i]),
    ensures
        rows_after(less, source, position) == Seq::<Seq<KeyView>>::empty(),
    decreases source.len(),
{
    if source.len() > 0 {
        let shorter = source.drop_last();
        assert forall|i: int| 0 <= i < shorter.len() implies !less(
            position,
            #[trigger] shorter[i],
        ) by {
            assert(shorter[i] == source[i]);
        }
        nothing_after(less, shorter, position);
        assert(!less(position, source[source.len() - 1]));
    } else {
        assert(source =~= Seq::<Seq<KeyView>>::empty());
    }
}

/// A page is queried over the base query as it stands, in key order, after the
/// restored keys if there are any, and its limit is bound behind them.
pub proof fn a_page_is_queried_over_the_query(
    base_query: &str,
    key_columns: &[KeysetColumn],
    initial: String,
    restored: String,
)
    requires
        call_ensures(page_query_sql, (base_query, key_columns, false), initial),
        call_ensures(page_query_sql, (base_query, key_columns, true), restored),
    ensures
        initial@ == "SELECT * FROM ("@ + base_query@ + ") AS ob_page_source ORDER BY "@
            + order_by_text(key_columns@) + " LIMIT $1"@,
        restored@ == "SELECT * FROM ("@ + base_query@ + ") AS ob_page_source WHERE "@
            + keyset_predicate_text(key_columns@, 1) + " ORDER BY "@ + order_by_text(key_columns@)
            + " LIMIT $"@ + decimal(key_columns@.len() + 1),
{
}

/// A read fetches a page after the position exactly if nothing is buffered and rows
/// may follow; it asks for as many rows as configured.
pub proof fn a_page_is_fetched_when_nothing_is_buffered<R>(
    reader: &PostgresPagingReader<R>,
    r: PagingAction,
)
    requires
        call_ensures(PostgresPagingReader::<R>::read, (reader,), r),
    ensures
        r is Deliver <==> reader.rows.buffered@.len() > 0 || reader.exhausted,
        r matches PagingAction::FetchPage { sql, keys, limit } ==> limit == reader.page_size
            && keys@ == reader.rows.position@ && sql@ == page_query_text(
            reader.base_query@,
            reader.key_columns@,
            reader.rows.position@.len() != 0,
        ),
        r matches PagingAction::Fail(error) ==> error.category == FailureCategory::Invariant
            && !error.checkpoint_advanced && reader.page_size > i64::MAX,
        !(r is Deliver) && reader.page_size <= i64::MAX ==> r is FetchPage,
{
}

/// A page with fewer rows than asked for is the last one, and a full one is not.
/// A failed page changes nothing.
pub proof fn a_short_page_is_the_last_one<R>(
    reader: &mut PostgresPagingReader<R>,
    result: Result<VecDeque<R>, FailureCategory>,
    r: PagingAction,
)
    requires
        call_ensures(PostgresPagingReader::<R>::page_fetched, (reader, result), r),
        !old(reader).exhausted,
    ensures
        result matches Ok(rows) ==> r is Deliver && final(reader).rows.buffered@ == rows@ && (
        final(reader).exhausted <==> rows@.len() < old(reader).page_size),
        result matches Err(category) ==> *final(reader) == *old(reader) && (
        r matches PagingAction::Fail(error) && error.category == category
            && !error.checkpoint_advanced),
        final(reader).rows.position == old(reader).rows.position,
        final(reader).page_size == old(reader).page_size,
{
}

/// A reader is built exactly of valid key columns and a page size above zero, at
/// the start of the query, and keeps its configuration.
pub proof fn a_paging_reader_keeps_its_configuration<R>(
    base_query: &str,
    key_columns: Vec<KeysetColumn>,
    format: PostgresPagingFormat,
    r: Result<PostgresPagingReader<R>, PostgresComponentConfigError>,
)
    requires
        call_ensures(postgres_paging_reader::<R>, (base_query, key_columns, format), r),
    ensures
        r is Ok <==> key_columns_fault(key_columns@) is None && format.page_size != 0,
        key_columns_fault(key_columns@) is None && format.page_size == 0 ==> r->Err_0
            == PostgresComponentConfigError::InvalidFetchSize,
        key_columns_fault(key_columns@) matches Some(fault) ==> r->Err_0 == fault,
        r matches Ok(reader) ==> reader.base_query@ == base_query@ && reader.key_columns
            == key_columns && reader.page_size == format.page_size && !reader.exhausted
            && reader.rows.position@.len() == 0 && reader.rows.buffered@.len() == 0,
{
}

/// Five hundred rows make a page unless another number is set.
pub proof fn the_default_page_size_is_this(
    format: PostgresPagingFormat,
    size: usize,
    r: PostgresPagingFormat,
)
    requires
        call_ensures(PostgresPagingFormat::new, (), format),
        call_ensures(PostgresPagingFormat::with_page_size, (format, size), r),
    ensures
        format.page_size == 500,
        r.page_size == size,
{
}

/// A restarted reader goes on behind the last row that was delivered before what
/// was prepared; without inherited state it starts before the first row.
pub proof fn a_paging_restart_goes_on<R>(
    before: &PostgresPagingReader<R>,
    prepared: Result<Vec<u8>, StreamUpdateError>,
    reader: &mut PostgresPagingReader<R>,
    inherited: Option<&[u8]>,
    r: Result<StreamOpenOutcome, StreamOpenError>,
)
    requires
        call_ensures(PostgresPagingReader::<R>::update, (before,), prepared),
        call_ensures(PostgresPagingReader::<R>::open, (reader, inherited), r),
    ensures
        prepared is Ok,
        inherited matches Some(bytes) && bytes@ == prepared->Ok_0@ ==> final(reader).rows.position@
            == before.rows.position@ && r == Ok::<StreamOpenOutcome, StreamOpenError>(
            StreamOpenOutcome::Restored,
        ),
        inherited is None ==> final(reader).rows.position@.len() == 0 && r == Ok::<
            StreamOpenOutcome,
            StreamOpenError,
        >(StreamOpenOutcome::Initial),
        r is Err ==> final(reader).rows.position == old(reader).rows.position
            && r->Err_0.category == FailureCategory::UserComponent,
        final(reader).rows.buffered == old(reader).rows.buffered,
{
}

/// A row that was delivered leaves, and the position moves to its key; a failing
/// row stays in front and moves nothing.
pub proof fn a_paging_row_leaves_once_delivered<R, I, K: Fn(&R) -> Result<
    KeysetPosition,
    ReaderError,
>, F: Fn(&R) -> Result<I, ReaderError>>(
    reader: &mut PostgresPagingReader<R>,
    extract: K,
    map_row: F,
    r: Result<ReadOutcome<I>, ReaderError>,
)
    requires
        call_ensures(PostgresPagingReader::<R>::deliver::<I, K, F>, (reader, extract, map_row), r),
    ensures
        old(reader).rows.buffered@.len() == 0 <==> r == Ok::<ReadOutcome<I>, ReaderError>(
            ReadOutcome::EndOfInput,
        ),
        r matches Ok(ReadOutcome::Item(item)) ==> call_ensures(
            map_row,
            (&old(reader).rows.buffered@[0],),
            Ok(item),
        ) && call_ensures(
            extract,
            (&old(reader).rows.buffered@[0],),
            Ok(final(reader).rows.position),
        ) && final(reader).rows.buffered@ == old(reader).rows.buffered@.skip(1),
        r matches Err(error) ==> final(reader).rows == old(reader).rows && error.category
            == FailureCategory::UserComponent && !error.checkpoint_advanced,
        final(reader).base_query == old(reader).base_query,
        final(reader).key_columns == old(reader).key_columns,
{
}

} // verus!
