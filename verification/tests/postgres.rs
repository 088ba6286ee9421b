//! The PostgreSQL components: SQL text, keyset positions and the decisions of the
//! readers and the writer.

use oxide_batch::item_components::postgres_batch::{
    classify, postgres_batch_writer, BatchAction, BusinessTransactionError, PendingStatement,
    PostgresBatchMode, PostgresBatchWriter, DEFAULT_MAX_PARAMETERS_PER_STATEMENT,
    POSTGRESQL_MAX_BIND_PARAMETERS,
};
use oxide_batch::item_components::postgres_cursor::{
    declare_cursor_sql, postgres_cursor_reader, CursorAction, PostgresCursorFormat,
    PostgresCursorReader, DEFAULT_FETCH_SIZE,
};
use oxide_batch::item_components::postgres_keyset::{
    classify_code, classify_pg_error, decode_keyset, encode_keyset, extract_keyset,
    keyset_predicate_sql, order_by_sql, validate_identifier, validate_key_columns, KeysetColumn,
    KeysetColumnKind, KeysetPosition, PostgresComponentConfigError, PostgresKeyValue,
};
use oxide_batch::item_components::postgres_paging::{
    page_query_sql, postgres_paging_reader, PagingAction, PostgresPagingFormat,
    PostgresPagingReader, DEFAULT_PAGE_SIZE,
};
use oxide_batch::item_stream::{StreamCloseOutcome, StreamOpenOutcome};
use oxide_batch::runtime::{
    FailureCategory, ReadOutcome, ReaderError, StopToken, WriteOutcome, WriterError,
};
use std::borrow::Cow;
use std::collections::VecDeque;

const GO: StopToken = StopToken { requested: false };
const STOP: StopToken = StopToken { requested: true };

fn writer(mode: PostgresBatchMode) -> PostgresBatchWriter<impl Fn(&i64) -> Vec<i64>> {
    postgres_batch_writer("INSERT INTO t (id) VALUES", None, 1, mode, |item: &i64| vec![*item])
        .unwrap()
}

#[test]
fn insert_sql_places_one_placeholder_group_per_row() {
    let writer = writer(PostgresBatchMode::multi_row_values());
    assert_eq!(writer.insert_sql(1), "INSERT INTO t (id) VALUES ($1)");
    assert_eq!(writer.insert_sql(3), "INSERT INTO t (id) VALUES ($1), ($2), ($3)");
}

#[test]
fn insert_sql_appends_the_conflict_clause() {
    let writer = postgres_batch_writer(
        "INSERT INTO t (id) VALUES",
        Some("ON CONFLICT (id) DO NOTHING"),
        1,
        PostgresBatchMode::multi_row_values(),
        |item: &i64| vec![*item],
    )
    .unwrap();
    assert_eq!(
        writer.insert_sql(1),
        "INSERT INTO t (id) VALUES ($1) ON CONFLICT (id) DO NOTHING"
    );
}

#[test]
fn zero_columns_per_row_is_rejected() {
    let result = postgres_batch_writer(
        "INSERT INTO t (id) VALUES",
        None,
        0,
        PostgresBatchMode::multi_row_values(),
        |item: &i64| vec![*item],
    );
    assert_eq!(result.err(), Some(PostgresComponentConfigError::InvalidColumnsPerRow));
}

#[test]
fn max_parameters_smaller_than_columns_per_row_is_rejected() {
    let result = postgres_batch_writer(
        "INSERT INTO t (a, b) VALUES",
        None,
        2,
        PostgresBatchMode::MultiRowValues { max_parameters_per_statement: 1 },
        |item: &i64| vec![*item, *item],
    );
    assert_eq!(result.err(), Some(PostgresComponentConfigError::InvalidMaxParameters));
}

#[test]
fn max_parameters_past_the_protocol_limit_are_rejected() {
    for (max, expected) in [
        (POSTGRESQL_MAX_BIND_PARAMETERS, None),
        (
            POSTGRESQL_MAX_BIND_PARAMETERS + 1,
            Some(PostgresComponentConfigError::MaxParametersExceedsProtocolLimit),
        ),
        (0, Some(PostgresComponentConfigError::InvalidMaxParameters)),
    ] {
        let result = postgres_batch_writer(
            "INSERT INTO t (id) VALUES",
            None,
            1,
            PostgresBatchMode::MultiRowValues { max_parameters_per_statement: max },
            |item: &i64| vec![*item],
        );
        assert_eq!(result.err(), expected);
    }
    assert_eq!(POSTGRESQL_MAX_BIND_PARAMETERS, 65535);
    assert_eq!(DEFAULT_MAX_PARAMETERS_PER_STATEMENT, 2000);
}

#[test]
fn declare_cursor_sql_omits_the_predicate_on_initial_execution() {
    let columns = [KeysetColumn::i64("id")];
    let sql = declare_cursor_sql("SELECT id FROM t", &columns, false);
    assert!(!sql.contains("WHERE"));
    assert!(sql.contains("ORDER BY id"));
    assert_eq!(
        sql,
        "DECLARE oxide_batch_cursor NO SCROLL CURSOR WITHOUT HOLD FOR \
         SELECT * FROM (SELECT id FROM t) AS ob_cursor_source ORDER BY id"
    );
}

#[test]
fn declare_cursor_sql_includes_the_composite_predicate_on_restart() {
    let columns = [KeysetColumn::text("email"), KeysetColumn::i64("id")];
    let sql = declare_cursor_sql("SELECT email, id FROM t", &columns, true);
    assert!(sql.contains("WHERE (email, id) > ($1, $2)"));
    assert!(sql.contains("ORDER BY email, id"));
}

#[test]
fn keyset_predicate_sql_builds_a_composite_tuple_comparison() {
    let columns = [KeysetColumn::text("email"), KeysetColumn::i64("id")];
    assert_eq!(keyset_predicate_sql(&columns, 1), "(email, id) > ($1, $2)");
    assert_eq!(order_by_sql(&columns), "email, id");
}

#[test]
fn keyset_position_round_trips_through_json() {
    let position = KeysetPosition::from_values(vec![
        PostgresKeyValue::Text("a@example.com".to_owned()),
        PostgresKeyValue::I64(42),
    ]);
    let encoded = encode_keyset(&position).unwrap();
    let decoded = decode_keyset(&encoded).unwrap();
    assert_eq!(decoded, position);
    assert_eq!(
        String::from_utf8(encoded).unwrap(),
        "{\"keys\":[{\"t\":\"text\",\"v\":\"a@example.com\"},{\"t\":\"i64\",\"v\":42}]}"
    );
}

#[test]
fn none_position_is_empty_and_round_trips() {
    let position = KeysetPosition::none();
    assert!(position.is_empty());
    let encoded = encode_keyset(&position).unwrap();
    let decoded = decode_keyset(&encoded).unwrap();
    assert!(decoded.is_empty());
}

#[test]
fn negative_keys_round_trip_and_malformed_positions_are_refused() {
    let position = KeysetPosition::from_values(vec![PostgresKeyValue::I64(i64::MIN)]);
    assert_eq!(decode_keyset(&encode_keyset(&position).unwrap()).unwrap(), position);
    assert_eq!(KeysetPosition::default(), KeysetPosition::none());
    assert_eq!(position.values(), &[PostgresKeyValue::I64(i64::MIN)]);
    for payload in [
        "not json",
        "[]",
        "{}",
        "{\"keys\":{}}",
        "{\"keys\":[{\"v\":1}]}",
        "{\"keys\":[{\"t\":\"bool\",\"v\":true}]}",
        "{\"keys\":[{\"t\":\"i64\",\"v\":\"1\"}]}",
        "{\"keys\":[{\"t\":\"i64\",\"v\":18446744073709551615}]}",
        "{\"keys\":[{\"t\":\"text\",\"v\":1}]}",
        "{\"keys\":[{\"t\":\"text\"}]}",
    ] {
        assert!(decode_keyset(payload.as_bytes()).is_err(), "{payload}");
    }
}

#[test]
fn validate_identifier_rejects_unsafe_names() {
    assert!(validate_identifier("valid_name_1").is_ok());
    assert!(validate_identifier("").is_err());
    assert!(validate_identifier("1leading_digit").is_err());
    assert!(validate_identifier("has space").is_err());
    assert!(validate_identifier("has;semicolon").is_err());
    assert!(validate_identifier("has'quote").is_err());
    assert!(validate_identifier("_private").is_ok());
    assert!(validate_identifier("größe").is_err());
}

#[test]
fn validate_key_columns_requires_at_least_one() {
    assert_eq!(
        validate_key_columns(&[]),
        Err(PostgresComponentConfigError::EmptyKeyColumns)
    );
    assert!(validate_key_columns(&[KeysetColumn::i64("id")]).is_ok());
    assert_eq!(
        validate_key_columns(&[KeysetColumn::i64("id"), KeysetColumn::text("a b")]),
        Err(PostgresComponentConfigError::InvalidColumnName)
    );
}

#[test]
fn classify_pg_error_matches_documented_sqlstate_classes() {
    assert_eq!(classify_code("57014"), FailureCategory::Cancelled);
    assert_eq!(classify_code("23505"), FailureCategory::UserComponent);
    assert_eq!(classify_code("22001"), FailureCategory::UserComponent);
    assert_eq!(classify_code("42601"), FailureCategory::UserComponent);
    assert_eq!(classify_code("08006"), FailureCategory::TransientInfrastructure);
}

#[derive(Debug)]
struct Reported(Option<&'static str>);

impl std::fmt::Display for Reported {
    fn fmt(&self, formatter: &mut std::fmt::Formatter<'_>) -> std::fmt::Result {
        formatter.write_str("reported")
    }
}

impl std::error::Error for Reported {}

impl sqlx::error::DatabaseError for Reported {
    fn message(&self) -> &str {
        "reported"
    }

    fn code(&self) -> Option<Cow<'_, str>> {
        self.0.map(Cow::Borrowed)
    }

    fn as_error(&self) -> &(dyn std::error::Error + Send + Sync + 'static) {
        self
    }

    fn as_error_mut(&mut self) -> &mut (dyn std::error::Error + Send + Sync + 'static) {
        self
    }

    fn into_error(self: Box<Self>) -> Box<dyn std::error::Error + Send + Sync + 'static> {
        self
    }

    fn kind(&self) -> sqlx::error::ErrorKind {
        sqlx::error::ErrorKind::Other
    }
}

#[test]
fn driver_errors_are_classified_by_the_code_they_carry() {
    let database = |code| sqlx::Error::Database(Box::new(Reported(code)));
    assert_eq!(classify_pg_error(&database(Some("57014"))), FailureCategory::Cancelled);
    assert_eq!(classify_pg_error(&database(Some("23505"))), FailureCategory::UserComponent);
    assert_eq!(
        classify_pg_error(&database(Some("08006"))),
        FailureCategory::TransientInfrastructure
    );
    assert_eq!(classify_pg_error(&database(None)), FailureCategory::TransientInfrastructure);
    assert_eq!(
        classify_pg_error(&sqlx::Error::PoolTimedOut),
        FailureCategory::TransientInfrastructure
    );
}

#[test]
fn page_query_sql_omits_the_predicate_on_initial_execution() {
    let columns = [KeysetColumn::i64("id")];
    let sql = page_query_sql("SELECT id FROM t", &columns, false);
    assert!(!sql.contains("WHERE"));
    assert!(sql.contains("LIMIT $1"));
}

#[test]
fn page_query_sql_places_limit_after_the_composite_predicate() {
    let columns = [KeysetColumn::text("email"), KeysetColumn::i64("id")];
    let sql = page_query_sql("SELECT email, id FROM t", &columns, true);
    assert!(sql.contains("WHERE (email, id) > ($1, $2)"));
    assert!(sql.contains("LIMIT $3"));
    assert_eq!(
        sql,
        "SELECT * FROM (SELECT email, id FROM t) AS ob_page_source \
         WHERE (email, id) > ($1, $2) ORDER BY email, id LIMIT $3"
    );
}

#[test]
fn config_errors_have_stable_texts() {
    assert_eq!(
        PostgresComponentConfigError::EmptyKeyColumns.to_text(),
        "at least one ordering-key column is required"
    );
    assert_eq!(
        PostgresComponentConfigError::InvalidColumnName.to_text(),
        "an ordering-key or bound column name is invalid"
    );
    assert_eq!(
        PostgresComponentConfigError::InvalidFetchSize.to_text(),
        "the configured fetch/page size must be nonzero"
    );
    assert_eq!(
        PostgresComponentConfigError::InvalidMaxParameters.to_text(),
        "the configured maximum parameters per statement is too small"
    );
    assert_eq!(
        PostgresComponentConfigError::InvalidColumnsPerRow.to_text(),
        "the configured column count per row must be nonzero"
    );
    assert_eq!(
        PostgresComponentConfigError::MaxParametersExceedsProtocolLimit.to_text(),
        "the configured maximum parameters per statement exceeds PostgreSQL's \
         65,535-parameter protocol limit"
    );
}

#[test]
fn key_columns_keep_their_name_and_kind() {
    assert_eq!(KeysetColumn::text("email").name(), "email");
    assert_eq!(KeysetColumn::text("email").kind(), KeysetColumnKind::Text);
    assert_eq!(KeysetColumn::i64("id").kind(), KeysetColumnKind::I64);
}

/// A row of a table with an `int4` key and a text.
type Row = (i32, &'static str);

fn key_of_row(row: &Row) -> Result<KeysetPosition, ReaderError> {
    extract_keyset(
        &[KeysetColumn::i64("id")],
        |_: &str| None,
        |_: &str| None,
        |name: &str| if name == "id" { Some(row.0) } else { None },
    )
}

fn map_row(row: &Row) -> Result<String, ReaderError> {
    if row.1.is_empty() {
        Err(ReaderError::with_category(FailureCategory::UserComponent))
    } else {
        Ok(row.1.to_owned())
    }
}

#[test]
fn keys_are_read_by_column_kind_with_the_integer_fallback() {
    let columns = [KeysetColumn::text("name"), KeysetColumn::i64("a"), KeysetColumn::i64("b")];
    let position = extract_keyset(
        &columns,
        |name: &str| if name == "name" { Some("n".to_owned()) } else { None },
        |name: &str| if name == "a" { Some(1i64 << 40) } else { None },
        |name: &str| if name == "b" { Some(-7) } else { None },
    )
    .unwrap();
    assert_eq!(
        position.values(),
        &[
            PostgresKeyValue::Text("n".to_owned()),
            PostgresKeyValue::I64(1i64 << 40),
            PostgresKeyValue::I64(-7),
        ]
    );
    let missing = extract_keyset(&columns, |_: &str| None, |_: &str| Some(1), |_: &str| None);
    assert_eq!(missing, Err(ReaderError::with_category(FailureCategory::UserComponent)));
    let mistyped = extract_keyset(
        &columns,
        |_: &str| Some(String::new()),
        |_: &str| None,
        |_: &str| None,
    );
    assert_eq!(mistyped.unwrap_err().category, FailureCategory::UserComponent);
}

fn cursor(fetch_size: usize) -> PostgresCursorReader<Row> {
    postgres_cursor_reader(
        "SELECT id, v FROM t",
        vec![KeysetColumn::i64("id")],
        PostgresCursorFormat::new().with_fetch_size(fetch_size),
    )
    .unwrap()
}

#[test]
fn cursor_reader_declares_fetches_delivers_and_ends() {
    let mut reader = cursor(2);
    let CursorAction::Start { sql, keys } = reader.read() else { panic!("not started") };
    assert!(!sql.contains("WHERE"));
    assert!(keys.is_empty());
    let CursorAction::Fetch { sql } = reader.cursor_declared(Ok(())) else { panic!("no fetch") };
    assert_eq!(sql, "FETCH FORWARD 2 FROM oxide_batch_cursor");
    let rows = VecDeque::from(vec![(1, "a"), (2, "b")]);
    assert!(matches!(reader.fetched(Ok(rows)), CursorAction::Deliver));
    assert_eq!(reader.deliver(key_of_row, map_row), Ok(ReadOutcome::Item("a".to_owned())));
    assert!(matches!(reader.read(), CursorAction::Deliver));
    assert_eq!(reader.deliver(key_of_row, map_row), Ok(ReadOutcome::Item("b".to_owned())));
    assert!(matches!(reader.read(), CursorAction::Fetch { .. }));
    assert!(matches!(reader.fetched(Ok(VecDeque::new())), CursorAction::Deliver));
    assert_eq!(reader.deliver(key_of_row, map_row), Ok(ReadOutcome::EndOfInput));
    assert!(matches!(reader.read(), CursorAction::Deliver));
    assert_eq!(reader.deliver(key_of_row, map_row), Ok(ReadOutcome::EndOfInput));
    assert!(reader.close());
    assert!(!reader.close());
}

#[test]
fn cursor_restart_selects_the_rows_after_the_committed_key() {
    let mut reader = cursor(10);
    assert_eq!(reader.open(None), Ok(StreamOpenOutcome::Initial));
    let _ = reader.read();
    let _ = reader.cursor_declared(Ok(()));
    let _ = reader.fetched(Ok(VecDeque::from(vec![(7, "a"), (8, "b")])));
    assert_eq!(reader.deliver(key_of_row, map_row), Ok(ReadOutcome::Item("a".to_owned())));
    let committed = reader.update().unwrap();

    let mut restarted = cursor(10);
    assert_eq!(restarted.open(Some(&committed)), Ok(StreamOpenOutcome::Restored));
    let CursorAction::Start { sql, keys } = restarted.read() else { panic!("not started") };
    assert!(sql.contains("WHERE (id) > ($1)"));
    assert_eq!(keys.values(), &[PostgresKeyValue::I64(7)]);
    assert_eq!(
        restarted.open(Some(b"{}")).unwrap_err().category,
        FailureCategory::UserComponent
    );
    assert_eq!(restarted.update().unwrap(), committed);
}

#[test]
fn a_failing_row_is_tried_again_and_keeps_the_checkpoint() {
    let mut reader = cursor(10);
    let _ = reader.read();
    let _ = reader.cursor_declared(Ok(()));
    let _ = reader.fetched(Ok(VecDeque::from(vec![(1, "a"), (2, "")])));
    let _ = reader.deliver(key_of_row, map_row);
    let before = reader.update().unwrap();
    for _ in 0..2 {
        let error = reader.deliver(key_of_row, map_row).unwrap_err();
        assert_eq!(error.category, FailureCategory::UserComponent);
        assert!(!error.checkpoint_advanced);
        assert_eq!(reader.update().unwrap(), before);
    }
    let misreports = |_: &Row| -> Result<String, ReaderError> {
        let error = ReaderError::with_category(FailureCategory::TransientInfrastructure);
        Err(error.with_checkpoint_advanced())
    };
    assert_eq!(reader.deliver(key_of_row, misreports), Err(ReaderError::new()));
    assert_eq!(reader.update().unwrap(), before);
}

#[test]
fn cursor_failures_keep_or_give_up_the_session() {
    let mut reader = cursor(10);
    let action = reader.cursor_declared(Err(FailureCategory::Cancelled));
    let CursorAction::Fail(error) = action else { panic!("no failure") };
    assert_eq!(error.category, FailureCategory::Cancelled);
    assert!(matches!(reader.read(), CursorAction::Start { .. }));
    let _ = reader.cursor_declared(Ok(()));
    let action = reader.fetched(Err(FailureCategory::TransientInfrastructure));
    let CursorAction::Fail(error) = action else { panic!("no failure") };
    assert_eq!(error.category, FailureCategory::TransientInfrastructure);
    let CursorAction::Fail(error) = reader.read() else { panic!("no failure") };
    assert_eq!(error.category, FailureCategory::Invariant);
    assert!(!reader.close());
}

#[test]
fn reader_builders_validate_their_configuration() {
    let reader: Result<PostgresCursorReader<Row>, _> = postgres_cursor_reader(
        "SELECT 1",
        vec![KeysetColumn::i64("id")],
        PostgresCursorFormat::default().with_fetch_size(0),
    );
    assert_eq!(reader.err(), Some(PostgresComponentConfigError::InvalidFetchSize));
    let reader: Result<PostgresPagingReader<Row>, _> =
        postgres_paging_reader("SELECT 1", vec![], PostgresPagingFormat::default());
    assert_eq!(reader.err(), Some(PostgresComponentConfigError::EmptyKeyColumns));
    let reader: Result<PostgresPagingReader<Row>, _> = postgres_paging_reader(
        "SELECT 1",
        vec![KeysetColumn::i64("id")],
        PostgresPagingFormat::new().with_page_size(0),
    );
    assert_eq!(reader.err(), Some(PostgresComponentConfigError::InvalidFetchSize));
    assert_eq!(PostgresCursorFormat::new().fetch_size, DEFAULT_FETCH_SIZE);
    assert_eq!(PostgresPagingFormat::new().page_size, DEFAULT_PAGE_SIZE);
    assert_eq!((DEFAULT_FETCH_SIZE, DEFAULT_PAGE_SIZE), (500, 500));
}

/// Answers a page query from a sorted table.
fn page(table: &[Row], keys: &KeysetPosition, limit: i64) -> VecDeque<Row> {
    let after = match keys.values() {
        [] => i64::MIN,
        [PostgresKeyValue::I64(key)] => *key,
        _ => panic!("one integer key"),
    };
    table
        .iter()
        .filter(|row| i64::from(row.0) > after)
        .take(limit as usize)
        .copied()
        .collect()
}

#[test]
fn paging_delivers_every_row_once_across_pages_and_a_restart() {
    let table: [Row; 5] = [(1, "a"), (3, "b"), (4, "c"), (8, "d"), (9, "e")];
    for stop_after in 0..5 {
        let mut delivered = Vec::new();
        let mut committed: Option<Vec<u8>> = None;
        for attempt in 0..2 {
            let mut reader: PostgresPagingReader<Row> = postgres_paging_reader(
                "SELECT id, v FROM t",
                vec![KeysetColumn::i64("id")],
                PostgresPagingFormat::new().with_page_size(2),
            )
            .unwrap();
            reader.open(committed.as_deref()).unwrap();
            loop {
                if attempt == 0 && delivered.len() == stop_after {
                    break;
                }
                let mut action = reader.read();
                if let PagingAction::FetchPage { sql, keys, limit } = action {
                    assert_eq!(sql.contains("WHERE"), !keys.is_empty());
                    assert_eq!(limit, 2);
                    action = reader.page_fetched(Ok(page(&table, &keys, limit)));
                }
                assert!(matches!(action, PagingAction::Deliver));
                match reader.deliver(key_of_row, map_row).unwrap() {
                    ReadOutcome::Item(item) => delivered.push(item),
                    _ => break,
                }
            }
            committed = Some(reader.update().unwrap());
            assert_eq!(reader.close(), Ok(StreamCloseOutcome::Closed));
        }
        assert_eq!(delivered, ["a", "b", "c", "d", "e"]);
    }
}

#[test]
fn a_failed_page_is_fetched_again() {
    let mut reader: PostgresPagingReader<Row> = postgres_paging_reader(
        "SELECT 1",
        vec![KeysetColumn::i64("id")],
        PostgresPagingFormat::new(),
    )
    .unwrap();
    let action = reader.page_fetched(Err(FailureCategory::Cancelled));
    let PagingAction::Fail(error) = action else { panic!("no failure") };
    assert_eq!(error.category, FailureCategory::Cancelled);
    assert!(matches!(reader.read(), PagingAction::FetchPage { .. }));
    assert!(matches!(reader.page_fetched(Ok(VecDeque::new())), PagingAction::Deliver));
    assert!(matches!(reader.read(), PagingAction::Deliver));
}

#[test]
fn a_page_size_past_the_parameter_type_is_an_invariant_failure() {
    let reader: PostgresPagingReader<Row> = postgres_paging_reader(
        "SELECT 1",
        vec![KeysetColumn::i64("id")],
        PostgresPagingFormat::new().with_page_size(usize::MAX),
    )
    .unwrap();
    let PagingAction::Fail(error) = reader.read() else { panic!("no failure") };
    assert_eq!(error.category, FailureCategory::Invariant);
}

#[test]
fn multi_row_writes_partition_the_batch_within_the_parameter_bound() {
    let writer = postgres_batch_writer(
        "INSERT INTO t (a, b) VALUES",
        None,
        2,
        PostgresBatchMode::MultiRowValues { max_parameters_per_statement: 5 },
        |item: &i64| vec![*item, -*item],
    )
    .unwrap();
    let items = [1, 2, 3];
    let first: BatchAction<i64> = writer.write(&items, &GO, true);
    let BatchAction::Execute { text, values, pending } = first else { panic!("no statement") };
    assert_eq!(text, "INSERT INTO t (a, b) VALUES ($1, $2), ($3, $4)");
    assert_eq!(values, [1, -1, 2, -2]);
    assert_eq!(pending, PendingStatement { start: 0, end: 2 });
    let second: BatchAction<i64> = writer.executed(&items, pending, Ok(()));
    let BatchAction::Execute { text, values, pending } = second else { panic!("no statement") };
    assert_eq!(text, "INSERT INTO t (a, b) VALUES ($1, $2)");
    assert_eq!(values, [3, -3]);
    let last: BatchAction<i64> = writer.executed(&items, pending, Ok(()));
    assert!(matches!(last, BatchAction::Return(Ok(WriteOutcome::Written))));
    let failed: BatchAction<i64> =
        writer.executed(&items, pending, Err(BusinessTransactionError::Rejected));
    let BatchAction::Return(Err(error)) = failed else { panic!("no failure") };
    assert_eq!(error, WriterError::with_category(FailureCategory::UserComponent));
}

#[test]
fn per_row_failures_name_the_row() {
    let writer = writer(PostgresBatchMode::PerRowStatements);
    let items = [10, 20];
    let BatchAction::Execute { text, values, pending } = writer.write(&items, &GO, true) else {
        panic!("no statement")
    };
    assert_eq!(text, "INSERT INTO t (id) VALUES ($1)");
    assert_eq!(values, [10]);
    let BatchAction::Execute { values, pending, .. } =
        writer.executed::<i64, i64>(&items, pending, Ok(()))
    else {
        panic!("no statement")
    };
    assert_eq!(values, [20]);
    let BatchAction::Return(Err(error)) = writer.executed::<i64, i64>(
        &items,
        pending,
        Err(BusinessTransactionError::Infrastructure),
    ) else {
        panic!("no failure")
    };
    assert_eq!(error.category, FailureCategory::TransientInfrastructure);
    assert_eq!(error.rolled_back_output, Some(1));
}

#[test]
fn writes_stop_and_are_refused_before_any_statement() {
    let writer = writer(PostgresBatchMode::multi_row_values());
    let stopped: BatchAction<i64> = writer.write(&[1], &STOP, true);
    assert!(matches!(stopped, BatchAction::Return(Ok(WriteOutcome::Stopped))));
    let empty: BatchAction<i64> = writer.write(&[], &GO, false);
    assert!(matches!(empty, BatchAction::Return(Ok(WriteOutcome::Written))));
    let BatchAction::Return(Err(error)) = writer.write(&[1], &GO, false) else {
        panic!("no refusal")
    };
    assert_eq!(error.category, FailureCategory::UnsupportedCapability);
}

#[test]
fn a_row_with_another_number_of_values_is_an_invariant_failure() {
    for mode in [PostgresBatchMode::multi_row_values(), PostgresBatchMode::PerRowStatements] {
        // Two rows whose lengths only balance out in total.
        let writer = postgres_batch_writer("INSERT", None, 1, mode, |item: &usize| vec![0u8; *item])
            .unwrap();
        let BatchAction::Return(Err(error)) = writer.write(&[2, 0], &GO, true) else {
            panic!("no failure")
        };
        assert_eq!(error.category, FailureCategory::Invariant);
        assert_eq!(error.rolled_back_output, None);
    }
}

#[test]
fn transaction_failures_are_classified() {
    assert_eq!(
        classify(BusinessTransactionError::Infrastructure).category,
        FailureCategory::TransientInfrastructure
    );
    assert_eq!(
        classify(BusinessTransactionError::Rejected).category,
        FailureCategory::UserComponent
    );
    assert_eq!(
        classify(BusinessTransactionError::Cancelled).category,
        FailureCategory::Cancelled
    );
}
