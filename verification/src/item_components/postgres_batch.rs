//! A bounded, same-resource enlisted PostgreSQL batch writer.
//!
//! The writer shapes bounded, parameterised SQL for the transaction it is
//! enlisted in. It opens no connection of its own and never commits or rolls
//! back: that is the enclosing chunk transaction's job.

use super::postgres_keyset::{
    placeholder, placeholders, placeholders_sql, PostgresComponentConfigError,
};
use crate::runtime::{FailureCategory, StopToken, WriteOutcome, WriterError};
use crate::text::{copy_text, decimal, joined};
use vstd::prelude::*;

verus! {

/// The default maximum bind-parameter count for one
/// [`PostgresBatchMode::MultiRowValues`] statement: well under the protocol
/// ceiling, which leaves headroom for wide rows and keeps generated SQL
/// reasonable.
pub const DEFAULT_MAX_PARAMETERS_PER_STATEMENT: usize = 2000;

/// PostgreSQL's hard ceiling on the bind parameters of one statement of the
/// extended query protocol.
pub const POSTGRESQL_MAX_BIND_PARAMETERS: usize = 65535;

/// How [`PostgresBatchWriter`] shapes one write call's batch into SQL.
#[derive(Clone, Copy, Debug, PartialEq, Eq, Structural)]
#[non_exhaustive]
pub enum PostgresBatchMode {
    /// One multi-row `INSERT ... VALUES ($1,$2),($3,$4),...` per sub-batch. A
    /// failure of such a statement is not attributable to one row, so it names no
    /// rolled-back output.
    MultiRowValues {
        /// The maximum total bind-parameter count for one statement.
        max_parameters_per_statement: usize,
    },
    /// One parameterised statement per item. Every failure is attributable to
    /// exactly one item's index, which the error names.
    PerRowStatements,
}

impl PostgresBatchMode {
    /// [`Self::MultiRowValues`] at [`DEFAULT_MAX_PARAMETERS_PER_STATEMENT`].
    pub fn multi_row_values() -> (r: Self)
        ensures
            r == (PostgresBatchMode::MultiRowValues {
                max_parameters_per_statement: DEFAULT_MAX_PARAMETERS_PER_STATEMENT,
            }),
    {
        PostgresBatchMode::MultiRowValues {
            max_parameters_per_statement: DEFAULT_MAX_PARAMETERS_PER_STATEMENT,
        }
    }
}

/// Why the enlisted transaction did not execute a statement.
#[derive(Clone, Copy, Debug, PartialEq, Eq, Structural)]
pub enum BusinessTransactionError {
    /// The database could not be reached or failed.
    Infrastructure,
    /// The database rejected the statement or its values.
    Rejected,
    /// The statement was cancelled.
    Cancelled,
}

/// The category of a transaction failure.
pub open spec fn category_of(error: BusinessTransactionError) -> FailureCategory {
    match error {
        BusinessTransactionError::Infrastructure => FailureCategory::TransientInfrastructure,
        BusinessTransactionError::Rejected => FailureCategory::UserComponent,
        BusinessTransactionError::Cancelled => FailureCategory::Cancelled,
    }
}

/// Classifies a transaction failure.
pub fn classify(error: BusinessTransactionError) -> (r: WriterError)
    ensures
        r == (WriterError { category: category_of(error), rolled_back_output: None }),
{
    match error {
        BusinessTransactionError::Infrastructure => WriterError::with_category(
            FailureCategory::TransientInfrastructure,
        ),
        BusinessTransactionError::Rejected => WriterError::with_category(
            FailureCategory::UserComponent,
        ),
        BusinessTransactionError::Cancelled => WriterError::with_category(
            FailureCategory::Cancelled,
        ),
    }
}

/// The placeholder group of one row: consecutive parameters in brackets.
pub open spec fn row_group(row: nat, columns: nat) -> Seq<char> {
    "("@ + placeholders(1 + row * columns, columns) + ")"@
}

/// The placeholder groups of some rows.
pub open spec fn row_groups(rows: nat, columns: nat) -> Seq<char> {
    joined(Seq::new(rows, |row: int| row_group(row as nat, columns)), ", "@)
}

/// Some items bound one by one, in order.
pub open spec fn binds<I, V, B: Fn(&I) -> Vec<V>>(
    bind: B,
    items: Seq<I>,
    rows: Seq<Vec<V>>,
    columns: nat,
) -> bool {
    &&& rows.len() == items.len()
    &&& forall|i: int|
        0 <= i < items.len() ==> call_ensures(bind, (&#[trigger] items[i],), rows[i])
            && rows[i]@.len() == columns
}

/// The values of some rows, one row after the other.
pub open spec fn row_values<V>(rows: Seq<Vec<V>>) -> Seq<V>
    decreases rows.len(),
{
    if rows.len() == 0 {
        Seq::empty()
    } else {
        row_values(rows.drop_last()) + rows.last()@
    }
}

/// Of some rows with a fixed number of values each, the total number of values.
proof fn row_values_len<V>(rows: Seq<Vec<V>>, columns: nat)
    requires
        forall|i: int| 0 <= i < rows.len() ==> (#[trigger] rows[i])@.len() == columns,
    ensures
        row_values(rows).len() == rows.len() * columns,
    decreases rows.len(),
{
    if rows.len() > 0 {
        let shorter = rows.drop_last();
        assert forall|i: int| 0 <= i < shorter.len() implies (#[trigger] shorter[i])@.len()
            == columns by {
            assert(shorter[i] == rows[i]);
        }
        row_values_len(shorter, columns);
        assert(rows[rows.len() - 1]@.len() == columns);
        assert(rows.len() * columns == (rows.len() - 1) * columns + columns) by (nonlinear_arith);
    } else {
        assert(0 * columns == 0) by (nonlinear_arith);
    }
}

/// The items whose statement is being executed.
#[derive(Clone, Copy, Debug, PartialEq, Eq, Structural)]
pub struct PendingStatement {
    /// The index of the statement's first item.
    pub start: usize,
    /// The index after the statement's last item.
    pub end: usize,
}

/// The next step of a write.
pub enum BatchAction<V> {
    /// The write is over.
    Return(Result<WriteOutcome, WriterError>),
    /// Execute this statement in the enlisted transaction and report what came of
    /// it.
    Execute {
        /// The SQL text.
        text: String,
        /// The values to bind, in order.
        values: Vec<V>,
        /// The statement's items.
        pending: PendingStatement,
    },
}

/// A bounded, same-resource enlisted PostgreSQL batch writer.
///
/// `bind` extracts one row's parameter values from an item; the SQL text around
/// them is fixed text supplied by calling Rust code. Values are always bound,
/// never interpolated into SQL text. Items are written in the order supplied.
pub struct PostgresBatchWriter<B> {
    /// The text before the rows, e.g. `INSERT INTO t (a, b) VALUES`.
    pub insert_prefix: String,
    /// The text behind the rows, e.g. `ON CONFLICT (a) DO NOTHING`.
    pub conflict_clause: Option<String>,
    /// How many values a row has.
    pub columns_per_row: usize,
    /// How a batch becomes SQL.
    pub mode: PostgresBatchMode,
    /// Extracts one row's values from an item.
    pub bind: B,
}

/// What a batch writer's configuration is rejected for, if it is.
pub open spec fn batch_fault(columns_per_row: usize, mode: PostgresBatchMode) -> Option<
    PostgresComponentConfigError,
> {
    if columns_per_row == 0 {
        Some(PostgresComponentConfigError::InvalidColumnsPerRow)
    } else {
        match mode {
            PostgresBatchMode::PerRowStatements => None,
            PostgresBatchMode::MultiRowValues { max_parameters_per_statement } => {
                if max_parameters_per_statement < columns_per_row {
                    Some(PostgresComponentConfigError::InvalidMaxParameters)
                } else if max_parameters_per_statement > POSTGRESQL_MAX_BIND_PARAMETERS {
                    Some(PostgresComponentConfigError::MaxParametersExceedsProtocolLimit)
                } else {
                    None
                }
            },
        }
    }
}

/// How many rows one statement holds at most.
pub open spec fn rows_per_statement(columns_per_row: usize, mode: PostgresBatchMode) -> nat {
    match mode {
        PostgresBatchMode::PerRowStatements => 1,
        PostgresBatchMode::MultiRowValues { max_parameters_per_statement } => {
            (max_parameters_per_statement / columns_per_row) as nat
        },
    }
}

impl<B> PostgresBatchWriter<B> {
    /// The configuration is one that the builder accepts.
    pub open spec fn wf(&self) -> bool {
        &&& batch_fault(self.columns_per_row, self.mode) is None
        &&& self.columns_per_row < usize::MAX
    }

    /// The text that inserts some rows.
    pub open spec fn insert_text(&self, rows: nat) -> Seq<char> {
        let text = self.insert_prefix@ + " "@ + row_groups(rows, self.columns_per_row as nat);
        match self.conflict_clause {
            Some(conflict) => text + " "@ + conflict@,
            None => text,
        }
    }

    /// Builds the fixed `INSERT` text for `row_count` rows worth of placeholders,
    /// starting at `$1`.
    pub fn insert_sql(&self, row_count: usize) -> (r: String)
        requires
            row_count * self.columns_per_row < usize::MAX,
        ensures
            r@ == self.insert_text(row_count as nat),
    {
        let columns: usize = self.columns_per_row;
        let ghost parts = Seq::new(
            row_count as nat,
            |row: int| row_group(row as nat, columns as nat),
        );
        let mut rows: String = String::new();
        let mut param: usize = 1;
        let mut i: usize = 0;
        proof {
            assert(rows@ =~= joined(parts.take(0), ", "@));
            assert(0 * columns == 0) by (nonlinear_arith);
        }
        while i < row_count
            invariant
                i <= row_count,
                columns == self.columns_per_row,
                row_count * columns < usize::MAX,
                param == 1 + i * columns,
                parts == Seq::new(
                    row_count as nat,
                    |row: int| row_group(row as nat, columns as nat),
                ),
                rows@ == joined(parts.take(i as int), ", "@),
            decreases row_count - i,
        {
            proof {
                assert(parts.take(i + 1).drop_last() =~= parts.take(i as int));
                assert(parts.take(i + 1).last() == row_group(i as nat, columns as nat));
                assert((i + 1) * columns == i * columns + columns) by (nonlinear_arith);
                assert((i + 1) * columns <= row_count * columns) by (nonlinear_arith)
                    requires
                        i + 1 <= row_count,
                ;
            }
            if i > 0 {
                rows.append(", ");
            }
            let ghost before = rows@;
            rows.append("(");
            rows.append(placeholders_sql(param, columns).as_str());
            rows.append(")");
            proof {
                assert(rows@ =~= before + row_group(i as nat, columns as nat));
                assert(rows@ =~= joined(parts.take(i + 1), ", "@));
            }
            param = param + columns;
            i = i + 1;
        }
        assert(parts.take(i as int) =~= parts);
        let mut text: String = copy_text(self.insert_prefix.as_str());
        text.append(" ");
        text.append(rows.as_str());
        match &self.conflict_clause {
            Some(conflict) => {
                text.append(" ");
                text.append(conflict.as_str());
            },
            None => {},
        }
        text
    }

    /// The end of the statement that starts at an item.
    pub open spec fn statement_end(&self, start: int, items: nat) -> int {
        let end = start + rows_per_statement(self.columns_per_row, self.mode);
        if end < items {
            end
        } else {
            items as int
        }
    }

    /// What a write does from an item on: it ends once all items are written,
    /// fails if a row of the next statement has not the declared number of
    /// values, and else executes the next statement.
    pub open spec fn goes_on<I, V>(&self, items: Seq<I>, start: int, action: BatchAction<V>) -> bool
     where B: Fn(&I) -> Vec<V> {
        let end = self.statement_end(start, items.len());
        if start >= items.len() {
            action == BatchAction::<V>::Return(Ok(WriteOutcome::Written))
        } else {
            match action {
                BatchAction::Return(outcome) => {
                    &&& outcome == Err::<WriteOutcome, WriterError>(
                        WriterError {
                            category: FailureCategory::Invariant,
                            rolled_back_output: None,
                        },
                    )
                    &&& exists|i: int, row: Vec<V>|
                        start <= i < end && #[trigger] call_ensures(self.bind, (&items[i],), row)
                            && row@.len() != self.columns_per_row
                },
                BatchAction::Execute { text, values, pending } => {
                    &&& pending == (PendingStatement { start: start as usize, end: end as usize })
                    &&& text@ == self.insert_text((end - start) as nat)
                    &&& exists|rows: Seq<Vec<V>>|
                        values@ == row_values(rows) && #[trigger] binds(
                            self.bind,
                            items.subrange(start, end),
                            rows,
                            self.columns_per_row as nat,
                        )
                },
            }
        }
    }

    /// Builds the statement of the items from `start` on.
    fn next_statement<I, V>(&self, items: &[I], start: usize) -> (r: BatchAction<V>) where
        B: Fn(&I) -> Vec<V>,

        requires
            self.wf(),
            start <= items@.len(),
            forall|item: &I| #[trigger] call_requires(self.bind, (item,)),
        ensures
            self.goes_on(items@, start as int, r),
    {
        if start >= items.len() {
            return BatchAction::Return(Ok(WriteOutcome::Written));
        }
        let columns: usize = self.columns_per_row;
        let limit: usize = match self.mode {
            PostgresBatchMode::PerRowStatements => 1,
            PostgresBatchMode::MultiRowValues { max_parameters_per_statement } => {
                max_parameters_per_statement / columns
            },
        };
        proof {
            statement_is_bounded(*self);
        }
        let remaining: usize = items.len() - start;
        let count: usize = if limit < remaining {
            limit
        } else {
            remaining
        };
        let end: usize = start + count;
        let ghost wanted = items@.subrange(start as int, end as int);
        let mut values: Vec<V> = Vec::new();
        let ghost mut rows: Seq<Vec<V>> = Seq::empty();
        let mut i: usize = start;
        assert(wanted.take(0) =~= Seq::<I>::empty());
        while i < end
            invariant
                start <= i <= end <= items@.len(),
                end == self.statement_end(start as int, items@.len()),
                start < items@.len(),
                columns == self.columns_per_row,
                forall|item: &I| #[trigger] call_requires(self.bind, (item,)),
                rows.len() == i - start,
                values@ == row_values(rows),
                wanted == items@.subrange(start as int, end as int),
                binds(self.bind, wanted.take(i - start), rows, columns as nat),
            decreases end - i,
        {
            let mut row: Vec<V> = (self.bind)(&items[i]);
            if row.len() != columns {
                assert(call_ensures(self.bind, (&items@[i as int],), row));
                return BatchAction::Return(
                    Err(WriterError::with_category(FailureCategory::Invariant)),
                );
            }
            let ghost longer = rows.push(row);
            proof {
                assert(longer.drop_last() =~= rows);
                assert(wanted[i - start] == items@[i as int]);
                assert(binds(self.bind, wanted.take(i + 1 - start), longer, columns as nat)) by {
                    assert forall|j: int| 0 <= j < i + 1 - start implies call_ensures(
                        self.bind,
                        (&#[trigger] wanted.take(i + 1 - start)[j],),
                        longer[j],
                    ) && longer[j]@.len() == columns by {
                        if j < i - start {
                            assert(wanted.take(i - start)[j] == wanted.take(i + 1 - start)[j]);
                        }
                    }
                }
            }
            values.append(&mut row);
            proof {
                rows = longer;
            }
            i = i + 1;
        }
        assert(wanted.take(end - start) =~= wanted);
        proof {
            let most = rows_per_statement(columns, self.mode) as int;
            assert(count * columns <= most * columns) by (nonlinear_arith)
                requires
                    count <= most,
            ;
        }
        let text: String = self.insert_sql(count);
        BatchAction::Execute { text, values, pending: PendingStatement { start, end } }
    }

    /// Starts a write, unless it is to stop. Without items nothing is written; a
    /// call that is not enlisted in a transaction is refused.
    pub fn write<I, V>(&self, items: &[I], stop: &StopToken, enlisted: bool) -> (r: BatchAction<
        V,
    >) where B: Fn(&I) -> Vec<V>,
        requires
            self.wf(),
            forall|item: &I| #[trigger] call_requires(self.bind, (item,)),
        ensures
            if stop.requested {
                r == BatchAction::<V>::Return(Ok(WriteOutcome::Stopped))
            } else if items@.len() == 0 {
                r == BatchAction::<V>::Return(Ok(WriteOutcome::Written))
            } else if !enlisted {
                r == BatchAction::<V>::Return(
                    Err(
                        (WriterError {
                            category: FailureCategory::UnsupportedCapability,
                            rolled_back_output: None,
                        }),
                    ),
                )
            } else {
                self.goes_on(items@, 0, r)
            },
    {
        if stop.is_stop_requested() {
            return BatchAction::Return(Ok(WriteOutcome::Stopped));
        }
        if items.len() == 0 {
            return BatchAction::Return(Ok(WriteOutcome::Written));
        }
        if !enlisted {
            return BatchAction::Return(
                Err(WriterError::with_category(FailureCategory::UnsupportedCapability)),
            );
        }
        self.next_statement(items, 0)
    }

    /// Takes what came of executing a statement. The write goes on with the item
    /// behind it; a failure ends it, and names the item if the statement had only
    /// that one.
    pub fn executed<I, V>(
        &self,
        items: &[I],
        pending: PendingStatement,
        result: Result<(), BusinessTransactionError>,
    ) -> (r: BatchAction<V>) where B: Fn(&I) -> Vec<V>,
        requires
            self.wf(),
            pending.start < pending.end <= items@.len(),
            forall|item: &I| #[trigger] call_requires(self.bind, (item,)),
        ensures
            match result {
                Ok(_) => self.goes_on(items@, pending.end as int, r),
                Err(error) => r == BatchAction::<V>::Return(
                    Err(
                        (WriterError {
                            category: category_of(error),
                            rolled_back_output: match self.mode {
                                PostgresBatchMode::MultiRowValues { .. } => None,
                                PostgresBatchMode::PerRowStatements => Some(pending.start),
                            },
                        }),
                    ),
                ),
            },
    {
        match result {
            Ok(_) => self.next_statement(items, pending.end),
            Err(error) => {
                let failure: WriterError = classify(error);
                BatchAction::Return(
                    Err(
                        match self.mode {
                            PostgresBatchMode::MultiRowValues { .. } => failure,
                            PostgresBatchMode::PerRowStatements => failure.with_rolled_back_output(
                                pending.start,
                            ),
                        },
                    ),
                )
            },
        }
    }
}

/// A statement holds at least one row, and a multi-row statement binds no more
/// parameters than it is allowed to, nor than the protocol takes.
pub proof fn statement_is_bounded<B>(writer: PostgresBatchWriter<B>)
    requires
        writer.wf(),
    ensures
        rows_per_statement(writer.columns_per_row, writer.mode) >= 1,
        rows_per_statement(writer.columns_per_row, writer.mode) * writer.columns_per_row
            < usize::MAX,
        writer.mode matches PostgresBatchMode::MultiRowValues { max_parameters_per_statement } ==> {
            &&& rows_per_statement(writer.columns_per_row, writer.mode) * writer.columns_per_row
                <= max_parameters_per_statement
            &&& max_parameters_per_statement <= POSTGRESQL_MAX_BIND_PARAMETERS
        },
{
    let columns = writer.columns_per_row as int;
    match writer.mode {
        PostgresBatchMode::MultiRowValues { max_parameters_per_statement } => {
            let max = max_parameters_per_statement as int;
            assert(max / columns >= 1 && (max / columns) * columns <= max) by (nonlinear_arith)
                requires
                    columns > 0,
                    max >= columns,
            ;
            let rows = rows_per_statement(writer.columns_per_row, writer.mode);
            assert(rows == max / columns);
            assert(rows * writer.columns_per_row <= max) by (nonlinear_arith)
                requires
                    rows * columns <= max,
                    columns == writer.columns_per_row,
            ;
        },
        PostgresBatchMode::PerRowStatements => {
            assert(1 * columns == columns) by (nonlinear_arith);
        },
    }
}

/// The statements of a write partition its items: each one starts where the one
/// before it ended, holds at least one item, and the last one ends with the last
/// item.
pub proof fn statements_partition_the_items<B>(
    writer: PostgresBatchWriter<B>,
    start: int,
    items: nat,
)
    requires
        writer.wf(),
        0 <= start < items,
    ensures
        start < writer.statement_end(start, items) <= items,
        writer.statement_end(start, items) - start <= rows_per_statement(
            writer.columns_per_row,
            writer.mode,
        ),
        writer.statement_end(start, items) < items ==> writer.statement_end(start, items) - start
            == rows_per_statement(writer.columns_per_row, writer.mode),
{
    statement_is_bounded(writer);
}

/// A statement binds as many values as its text has placeholders.
pub proof fn every_placeholder_is_bound<I, V, B: Fn(&I) -> Vec<V>>(
    writer: PostgresBatchWriter<B>,
    items: Seq<I>,
    start: int,
    action: BatchAction<V>,
)
    requires
        writer.wf(),
        0 <= start < items.len(),
        writer.goes_on(items, start, action),
        action is Execute,
    ensures
        action->values@.len() == (writer.statement_end(start, items.len()) - start)
            * writer.columns_per_row,
{
    let end = writer.statement_end(start, items.len());
    statement_is_bounded(writer);
    let rows = choose|rows: Seq<Vec<V>>|
        action->values@ == row_values(rows) && #[trigger] binds(
            writer.bind,
            items.subrange(start, end),
            rows,
            writer.columns_per_row as nat,
        );
    assert forall|i: int| 0 <= i < rows.len() implies (#[trigger] rows[i])@.len()
        == writer.columns_per_row by {
        assert(items.subrange(start, end)[i] == items[start + i]);
    }
    row_values_len(rows, writer.columns_per_row as nat);
}

/// Builds a bounded, same-resource enlisted batch writer.
pub fn postgres_batch_writer<B>(
    insert_prefix: &str,
    conflict_clause: Option<&str>,
    columns_per_row: usize,
    mode: PostgresBatchMode,
    bind: B,
) -> (r: Result<PostgresBatchWriter<B>, PostgresComponentConfigError>)
    requires
        columns_per_row < usize::MAX,
    ensures
        match r {
            Ok(writer) => {
                &&& batch_fault(columns_per_row, mode) is None
                &&& writer.wf()
                &&& writer.insert_prefix@ == insert_prefix@
                &&& match (writer.conflict_clause, conflict_clause) {
                    (Some(a), Some(b)) => a@ == b@,
                    (None, None) => true,
                    _ => false,
                }
                &&& writer.columns_per_row == columns_per_row
                &&& writer.mode == mode
                &&& writer.bind == bind
            },
            Err(error) => batch_fault(columns_per_row, mode) == Some(error),
        },
{
    if columns_per_row == 0 {
        return Err(PostgresComponentConfigError::InvalidColumnsPerRow);
    }
    match mode {
        PostgresBatchMode::MultiRowValues { max_parameters_per_statement } => {
            if max_parameters_per_statement < columns_per_row {
                return Err(PostgresComponentConfigError::InvalidMaxParameters);
            }
            if max_parameters_per_statement > POSTGRESQL_MAX_BIND_PARAMETERS {
                return Err(PostgresComponentConfigError::MaxParametersExceedsProtocolLimit);
            }
        },
        PostgresBatchMode::PerRowStatements => {},
    }
    let clause: Option<String> = match conflict_clause {
        Some(clause) => Some(copy_text(clause)),
        None => None,
    };
    Ok(
        PostgresBatchWriter {
            insert_prefix: copy_text(insert_prefix),
            conflict_clause: clause,
            columns_per_row,
            mode,
            bind,
        },
    )
}

/// A statement's text starts with the configured prefix and a space, and ends
/// with a space and the conflict clause if one is configured, for every number of
/// rows. What stands between them does not depend on the clause.
pub proof fn the_conflict_clause_ends_every_statement<B>(
    writer: PostgresBatchWriter<B>,
    plain: PostgresBatchWriter<B>,
    rows: nat,
)
    requires
        plain.insert_prefix == writer.insert_prefix,
        plain.columns_per_row == writer.columns_per_row,
        plain.conflict_clause is None,
    ensures
        writer.conflict_clause matches Some(clause) ==> writer.insert_text(rows)
            == plain.insert_text(rows) + " "@ + clause@,
        writer.conflict_clause is None ==> writer.insert_text(rows) == plain.insert_text(rows),
        (writer.insert_prefix@ + " "@).is_prefix_of(writer.insert_text(rows)),
        (writer.insert_prefix@ + " "@).is_prefix_of(plain.insert_text(rows)),
{
    let head = writer.insert_prefix@ + " "@;
    let groups = row_groups(rows, writer.columns_per_row as nat);
    assert(plain.insert_text(rows) =~= head + groups);
    match writer.conflict_clause {
        Some(clause) => {
            assert(writer.insert_text(rows) =~= head + (groups + " "@ + clause@));
        },
        None => {},
    }
}

/// Behind the prefix a statement lists one group for each row, in brackets and
/// separated by commas. The groups number the parameters from one on, row after
/// row, without a gap.
pub proof fn placeholders_are_numbered_through(rows: nat, columns: nat)
    ensures
        row_groups(0, columns).len() == 0,
        row_groups(1, columns) == row_group(0, columns),
        rows > 0 ==> row_groups(rows + 1, columns) == row_groups(rows, columns) + ", "@ + row_group(
            rows,
            columns,
        ),
        row_group(rows, columns) == "("@ + joined(
            Seq::new(columns, |i: int| "$"@ + decimal((rows * columns + i + 1) as nat)),
            ", "@,
        ) + ")"@,
{
    let groups = Seq::new(rows, |row: int| row_group(row as nat, columns));
    let more = Seq::new(rows + 1, |row: int| row_group(row as nat, columns));
    assert(more.drop_last() =~= groups);
    assert(more.last() == row_group(rows, columns));
    assert(Seq::new(0, |row: int| row_group(row as nat, columns)) =~= Seq::empty());
    assert(Seq::new(1, |row: int| row_group(row as nat, columns)) =~= seq![row_group(0, columns)]);
    let numbered = Seq::new(columns, |i: int| "$"@ + decimal((rows * columns + i + 1) as nat));
    assert(Seq::new(columns, |i: int| placeholder((1 + rows * columns + i) as nat)) =~= numbered);
}

/// The values of a statement are those of its rows, one row after the other.
pub proof fn rows_are_bound_in_order<V>(rows: Seq<Vec<V>>, row: Vec<V>)
    ensures
        row_values(Seq::<Vec<V>>::empty()).len() == 0,
        row_values(rows.push(row)) == row_values(rows) + row@,
{
    assert(rows.push(row).drop_last() =~= rows);
}

/// A configuration is refused exactly if a row has no columns, or a multi-row
/// statement may not hold even one row, or may bind more than 65535 parameters.
/// One statement per row is never refused for its parameters.
pub proof fn only_these_configurations_are_refused(columns: usize, max: usize)
    ensures
        ({
            let multi = PostgresBatchMode::MultiRowValues { max_parameters_per_statement: max };
            let single = PostgresBatchMode::PerRowStatements;
            &&& batch_fault(0, multi) == Some(PostgresComponentConfigError::InvalidColumnsPerRow)
            &&& batch_fault(0, single) == Some(PostgresComponentConfigError::InvalidColumnsPerRow)
            &&& columns > 0 ==> batch_fault(columns, single) is None
            &&& columns > 0 ==> (batch_fault(columns, multi) is None <==> columns <= max <= 65535)
            &&& columns > 0 && max < columns ==> batch_fault(columns, multi) == Some(
                PostgresComponentConfigError::InvalidMaxParameters,
            )
            &&& columns > 0 && columns <= max && max > 65535 ==> batch_fault(columns, multi)
                == Some(PostgresComponentConfigError::MaxParametersExceedsProtocolLimit)
        }),
{
}

/// A multi-row statement holds as many rows as its parameters allow, and no more:
/// one further row would exceed them. A per-row statement holds one.
pub proof fn statements_are_as_full_as_allowed(columns: usize, max: usize)
    requires
        0 < columns <= max,
    ensures
        ({
            let multi = PostgresBatchMode::MultiRowValues { max_parameters_per_statement: max };
            let rows = rows_per_statement(columns, multi);
            &&& rows * columns <= max < (rows + 1) * columns
            &&& rows_per_statement(columns, PostgresBatchMode::PerRowStatements) == 1
        }),
{
    let c = columns as int;
    let m = max as int;
    assert((m / c) * c <= m < (m / c + 1) * c) by (nonlinear_arith)
        requires
            c > 0,
            m >= 0,
    ;
}

/// The category of a failed statement: a failure of the database may pass, a
/// rejected statement is the component's fault, and a cancelled one was
/// cancelled.
pub proof fn transaction_failures_keep_their_meaning(error: BusinessTransactionError)
    ensures
        category_of(error) == FailureCategory::TransientInfrastructure <==> error
            == BusinessTransactionError::Infrastructure,
        category_of(error) == FailureCategory::UserComponent <==> error
            == BusinessTransactionError::Rejected,
        category_of(error) == FailureCategory::Cancelled <==> error
            == BusinessTransactionError::Cancelled,
        DEFAULT_MAX_PARAMETERS_PER_STATEMENT == 2000,
{
}

/// The text that a writer executes is its prefix, its row groups and its conflict
/// clause, whatever the number of rows.
pub proof fn inserted_text_has_three_parts<B>(
    writer: &PostgresBatchWriter<B>,
    rows: usize,
    r: String,
)
    requires
        call_ensures(PostgresBatchWriter::<B>::insert_sql, (writer, rows), r),
    ensures
        writer.conflict_clause is None ==> r@ == writer.insert_prefix@ + " "@ + row_groups(
            rows as nat,
            writer.columns_per_row as nat,
        ),
        writer.conflict_clause matches Some(clause) ==> r@ == writer.insert_prefix@ + " "@
            + row_groups(rows as nat, writer.columns_per_row as nat) + " "@ + clause@,
{
}

/// A write call begins with its first item: a stop comes before everything, an
/// empty batch is written at once, and only a call enlisted in a transaction
/// executes statements.
pub proof fn a_write_begins_with_the_first_item<I, V, B: Fn(&I) -> Vec<V>>(
    writer: &PostgresBatchWriter<B>,
    items: &[I],
    stop: &StopToken,
    enlisted: bool,
    action: BatchAction<V>,
)
    requires
        call_ensures(
            PostgresBatchWriter::<B>::write::<I, V>,
            (writer, items, stop, enlisted),
            action,
        ),
    ensures
        stop.requested ==> action == BatchAction::<V>::Return(Ok(WriteOutcome::Stopped)),
        !stop.requested && items@.len() == 0 ==> action == BatchAction::<V>::Return(
            Ok(WriteOutcome::Written),
        ),
        !stop.requested && items@.len() > 0 && !enlisted ==> action == BatchAction::<V>::Return(
            Err(
                (WriterError {
                    category: FailureCategory::UnsupportedCapability,
                    rolled_back_output: None,
                }),
            ),
        ),
        action is Execute ==> !stop.requested && enlisted && action->pending.start == 0,
        !stop.requested && items@.len() > 0 && action is Return ==> action->Return_0 is Err,
{
}

/// An executed statement is followed by the one behind it; the write is over once
/// the last item's statement was executed. A failure ends the write in its
/// category, and names the item where each statement holds one.
pub proof fn statements_follow_each_other<I, V, B: Fn(&I) -> Vec<V>>(
    writer: &PostgresBatchWriter<B>,
    items: &[I],
    pending: PendingStatement,
    result: Result<(), BusinessTransactionError>,
    action: BatchAction<V>,
)
    requires
        call_ensures(
            PostgresBatchWriter::<B>::executed::<I, V>,
            (writer, items, pending, result),
            action,
        ),
        pending.end <= items@.len(),
    ensures
        result is Ok && pending.end == items@.len() ==> action == BatchAction::<V>::Return(
            Ok(WriteOutcome::Written),
        ),
        result is Ok && action is Execute ==> action->pending.start == pending.end,
        result is Ok && pending.end < items@.len() && action is Return
            ==> action->Return_0 is Err,
        result matches Err(error) ==> {
            &&& action matches BatchAction::Return(Err(failure)) && failure.category
                == category_of(error) && failure.rolled_back_output == (if writer.mode
                == PostgresBatchMode::PerRowStatements {
                Some(pending.start)
            } else {
                None
            })
        },
{
}

/// A builder accepts exactly the configurations without a fault, and keeps them
/// as given.
pub proof fn a_builder_keeps_its_configuration<B>(
    prefix: &str,
    clause: Option<&str>,
    columns: usize,
    mode: PostgresBatchMode,
    bind: B,
    r: Result<PostgresBatchWriter<B>, PostgresComponentConfigError>,
)
    requires
        call_ensures(postgres_batch_writer::<B>, (prefix, clause, columns, mode, bind), r),
        columns < usize::MAX,
    ensures
        r is Err <==> (columns == 0 || (mode matches PostgresBatchMode::MultiRowValues {
            max_parameters_per_statement,
        } && !(columns <= max_parameters_per_statement <= 65535))),
        r matches Ok(writer) ==> {
            &&& writer.insert_prefix@ == prefix@
            &&& writer.conflict_clause is Some <==> clause is Some
            &&& clause matches Some(text) ==> writer.conflict_clause->0@ == text@
            &&& writer.columns_per_row == columns
            &&& writer.mode == mode
            &&& writer.bind == bind
        },
{
}

/// A failed transaction is told apart by its cause and blamed on no single output.
pub proof fn failed_transactions_are_told_apart(error: BusinessTransactionError, r: WriterError)
    requires
        call_ensures(classify, (error,), r),
    ensures
        error is Infrastructure <==> r.category == FailureCategory::TransientInfrastructure,
        error is Rejected <==> r.category == FailureCategory::UserComponent,
        error is Cancelled <==> r.category == FailureCategory::Cancelled,
        r.rolled_back_output is None,
{
}

/// A statement binds exactly the declared number of values for each of its rows. A
/// row with another number of values breaks an invariant, and no statement is
/// executed with it.
pub proof fn every_row_has_its_columns<I, V, B: Fn(&I) -> Vec<V>>(
    writer: &PostgresBatchWriter<B>,
    items: Seq<I>,
    start: int,
    action: BatchAction<V>,
)
    requires
        writer.goes_on(items, start, action),
        0 <= start < items.len() <= usize::MAX,
    ensures
        action matches BatchAction::Return(outcome) ==> (outcome matches Err(error)
            && error.category == FailureCategory::Invariant && error.rolled_back_output is None),
        action is Return ==> exists|i: int, row: Vec<V>|
            start <= i < items.len() && #[trigger] call_ensures(writer.bind, (&items[i],), row)
                && row@.len() != writer.columns_per_row,
        action matches BatchAction::Execute { text, values, pending } ==> {
            let count = pending.end - pending.start;
            &&& pending.start == start
            &&& text@ == writer.insert_text(count as nat)
            &&& values@.len() == count * writer.columns_per_row
        },
{
    match action {
        BatchAction::Execute { text, values, pending } => {
            let end = writer.statement_end(start, items.len());
            let rows = choose|rows: Seq<Vec<V>>|
                values@ == row_values(rows) && #[trigger] binds(
                    writer.bind,
                    items.subrange(start, end),
                    rows,
                    writer.columns_per_row as nat,
                );
            assert forall|i: int| 0 <= i < rows.len() implies (#[trigger] rows[i])@.len()
                == writer.columns_per_row as nat by {
                let item = items.subrange(start, end)[i];
                assert(call_ensures(writer.bind, (&items.subrange(start, end)[i],), rows[i]));
            }
            row_values_len(rows, writer.columns_per_row as nat);
        },
        _ => {},
    }
}

/// A write goes on from item to item: from the first one when it begins, and from
/// the one behind the last statement once that was executed.
pub proof fn a_write_goes_on_behind_its_statements<I, V, B: Fn(&I) -> Vec<V>>(
    writer: &PostgresBatchWriter<B>,
    items: &[I],
    stop: &StopToken,
    first: BatchAction<V>,
    pending: PendingStatement,
    next: BatchAction<V>,
)
    requires
        call_ensures(PostgresBatchWriter::<B>::write::<I, V>, (writer, items, stop, true), first),
        call_ensures(
            PostgresBatchWriter::<B>::executed::<I, V>,
            (writer, items, pending, Ok(())),
            next,
        ),
        !stop.requested,
        pending.end < items@.len(),
    ensures
        first matches BatchAction::Return(outcome) ==> (outcome matches Err(error) && error.category
            == FailureCategory::Invariant),
        next matches BatchAction::Return(outcome) ==> (outcome matches Err(error) && error.category
            == FailureCategory::Invariant),
        first matches BatchAction::Execute { text, pending: begun, .. } ==> begun.start == 0
            && text@ == writer.insert_text((begun.end - begun.start) as nat),
        next matches BatchAction::Execute { text, pending: begun, .. } ==> begun.start
            == pending.end && text@ == writer.insert_text((begun.end - begun.start) as nat),
{
    assert(items@.len() == items.len());
    every_row_has_its_columns(writer, items@, 0, first);
    every_row_has_its_columns(writer, items@, pending.end as int, next);
}

/// Rows are put into one statement up to two thousand parameters unless another
/// number is set.
pub proof fn the_default_batch_mode_is_this(r: PostgresBatchMode)
    requires
        call_ensures(PostgresBatchMode::multi_row_values, (), r),
    ensures
        r == (PostgresBatchMode::MultiRowValues { max_parameters_per_statement: 2000 }),
{
}

} // verus!
