//! Keyset positions shared by the PostgreSQL cursor and paging readers.
//!
//! Both readers need a strictly ordered composite keyset checkpoint
//! (`WHERE (cols...) > (last...) ORDER BY cols...`), and both classify the same
//! SQLSTATE families the same way.
//!
//! # Consistency under concurrent source mutation
//!
//! Restart correctness rests on one assumption: the values of a row's key
//! columns do not change after the row first becomes visible to a read. A row
//! inserted at or before the committed position is never delivered, and a row
//! deleted there has no observable effect. Updating key columns of a row within
//! the read window can skip the row or deliver it twice.

use crate::item_stream::{StreamOpenError, StreamOpenOutcome, StreamUpdateError};
use crate::json::{
    json_array, json_as_array, json_as_i64, json_content, json_contents, json_from_slice, json_get,
    json_insert, json_object, json_parse, json_signed, json_string, json_text, json_to_vec, member,
    plain, read_text, readable_depth, signed_json, signed_of, text_member, Json,
};
use crate::runtime::{FailureCategory, ReadOutcome, ReaderError, StateCodecError};
use crate::text::{chars_of, copy_text, decimal, decimal_text, joined, same_text, starts_with};
use std::collections::VecDeque;
use vstd::prelude::*;

verus! {

/// The supported ordering-key column types.
#[derive(Clone, Copy, Debug, PartialEq, Eq, Structural)]
#[non_exhaustive]
pub enum KeysetColumnKind {
    /// A `text`/`varchar` ordering key.
    Text,
    /// A `bigint`/`integer`-family ordering key, read as `i64`. Decoding tries
    /// `int8` first and falls back to `int4`.
    I64,
}

/// A caller-declared ordering-key column: one component of a composite,
/// strictly unique keyset used to restart a reader without `OFFSET`.
#[derive(Clone, Copy, Debug, PartialEq, Eq)]
pub struct KeysetColumn {
    /// The column's SQL identifier.
    pub name: &'static str,
    /// The column's declared kind.
    pub kind: KeysetColumnKind,
}

impl KeysetColumn {
    /// Declares a `text`-typed ordering-key column.
    pub fn text(name: &'static str) -> (r: Self)
        ensures
            r == (KeysetColumn { name, kind: KeysetColumnKind::Text }),
    {
        KeysetColumn { name, kind: KeysetColumnKind::Text }
    }

    /// Declares an `i64`-typed ordering-key column.
    pub fn i64(name: &'static str) -> (r: Self)
        ensures
            r == (KeysetColumn { name, kind: KeysetColumnKind::I64 }),
    {
        KeysetColumn { name, kind: KeysetColumnKind::I64 }
    }

    /// Returns the column's SQL identifier.
    pub fn name(&self) -> (r: &'static str)
        ensures
            r == self.name,
    {
        self.name
    }

    /// Returns the column's declared kind.
    pub fn kind(&self) -> (r: KeysetColumnKind)
        ensures
            r == self.kind,
    {
        self.kind
    }
}

/// A value-redacted failure constructing a PostgreSQL cursor, paging, or
/// batch-writer component.
#[derive(Clone, Copy, Debug, PartialEq, Eq, Structural)]
#[non_exhaustive]
pub enum PostgresComponentConfigError {
    /// No ordering-key columns were declared; a strict total order is required.
    EmptyKeyColumns,
    /// A declared column name is empty, starts with a digit, or contains a byte
    /// outside `[A-Za-z0-9_]`, so it cannot be embedded as a SQL identifier.
    InvalidColumnName,
    /// The configured fetch size (cursor) or page size (paging) is zero.
    InvalidFetchSize,
    /// The configured maximum bind-parameter count per statement is zero, or
    /// smaller than one row's column count.
    InvalidMaxParameters,
    /// The configured column count per row is zero.
    InvalidColumnsPerRow,
    /// The configured maximum bind-parameter count per statement exceeds
    /// PostgreSQL's hard extended-query-protocol ceiling of 65,535.
    MaxParametersExceedsProtocolLimit,
}

impl PostgresComponentConfigError {
    /// The displayed text.
    pub open spec fn text(self) -> Seq<char> {
        match self {
            PostgresComponentConfigError::EmptyKeyColumns => {
                "at least one ordering-key column is required"@
            },
            PostgresComponentConfigError::InvalidColumnName => {
                "an ordering-key or bound column name is invalid"@
            },
            PostgresComponentConfigError::InvalidFetchSize => {
                "the configured fetch/page size must be nonzero"@
            },
            PostgresComponentConfigError::InvalidMaxParameters => {
                "the configured maximum parameters per statement is too small"@
            },
            PostgresComponentConfigError::InvalidColumnsPerRow => {
                "the configured column count per row must be nonzero"@
            },
            PostgresComponentConfigError::MaxParametersExceedsProtocolLimit => {
                "the configured maximum parameters per statement exceeds PostgreSQL's 65,535-parameter protocol limit"@
            },
        }
    }

    /// The displayed text.
    pub fn to_text(&self) -> (r: String)
        ensures
            r@ == self.text(),
    {
        copy_text(
            match self {
                PostgresComponentConfigError::EmptyKeyColumns => {
                    "at least one ordering-key column is required"
                },
                PostgresComponentConfigError::InvalidColumnName => {
                    "an ordering-key or bound column name is invalid"
                },
                PostgresComponentConfigError::InvalidFetchSize => {
                    "the configured fetch/page size must be nonzero"
                },
                PostgresComponentConfigError::InvalidMaxParameters => {
                    "the configured maximum parameters per statement is too small"
                },
                PostgresComponentConfigError::InvalidColumnsPerRow => {
                    "the configured column count per row must be nonzero"
                },
                PostgresComponentConfigError::MaxParametersExceedsProtocolLimit => {
                    "the configured maximum parameters per statement exceeds PostgreSQL's 65,535-parameter protocol limit"
                },
            },
        )
    }
}

/// An ASCII letter or an underscore.
pub open spec fn starts_identifier(c: char) -> bool {
    'a' <= c <= 'z' || 'A' <= c <= 'Z' || c == '_'
}

/// An ASCII letter, an ASCII digit or an underscore.
pub open spec fn continues_identifier(c: char) -> bool {
    starts_identifier(c) || '0' <= c <= '9'
}

/// A name that can be embedded in SQL text as an unquoted identifier.
pub open spec fn valid_identifier(name: Seq<char>) -> bool {
    &&& name.len() > 0
    &&& starts_identifier(name[0])
    &&& forall|i: int| 1 <= i < name.len() ==> continues_identifier(#[trigger] name[i])
}

/// Validates a SQL identifier supplied by calling Rust code: non-empty, ASCII
/// alphanumeric or underscore only, and not digit-leading.
pub fn validate_identifier(name: &str) -> (r: Result<(), PostgresComponentConfigError>)
    ensures
        match r {
            Ok(_) => valid_identifier(name@),
            Err(error) => !valid_identifier(name@) && error
                == PostgresComponentConfigError::InvalidColumnName,
        },
{
    let chars: Vec<char> = chars_of(name);
    if chars.len() == 0 {
        return Err(PostgresComponentConfigError::InvalidColumnName);
    }
    let first: char = chars[0];
    if !(('a' <= first && first <= 'z') || ('A' <= first && first <= 'Z') || first == '_') {
        return Err(PostgresComponentConfigError::InvalidColumnName);
    }
    let mut i: usize = 1;
    while i < chars.len()
        invariant
            1 <= i <= chars@.len(),
            chars@ == name@,
            forall|j: int| 1 <= j < i ==> continues_identifier(#[trigger] name@[j]),
        decreases chars.len() - i,
    {
        let c: char = chars[i];
        let accepted: bool = ('a' <= c && c <= 'z') || ('A' <= c && c <= 'Z') || c == '_' || ('0'
            <= c && c <= '9');
        if !accepted {
            assert(!continues_identifier(name@[i as int]));
            return Err(PostgresComponentConfigError::InvalidColumnName);
        }
        i = i + 1;
    }
    Ok(())
}

/// What key columns are rejected for, if they are.
pub open spec fn key_columns_fault(columns: Seq<KeysetColumn>) -> Option<
    PostgresComponentConfigError,
> {
    if columns.len() == 0 {
        Some(PostgresComponentConfigError::EmptyKeyColumns)
    } else if exists|i: int|
        0 <= i < columns.len() && !valid_identifier((#[trigger] columns[i]).name@) {
        Some(PostgresComponentConfigError::InvalidColumnName)
    } else {
        None
    }
}

/// Validates key columns: at least one, each with a safe SQL identifier.
pub fn validate_key_columns(columns: &[KeysetColumn]) -> (r: Result<
    (),
    PostgresComponentConfigError,
>)
    ensures
        match r {
            Ok(_) => key_columns_fault(columns@) is None,
            Err(error) => key_columns_fault(columns@) == Some(error),
        },
{
    if columns.len() == 0 {
        return Err(PostgresComponentConfigError::EmptyKeyColumns);
    }
    let mut i: usize = 0;
    while i < columns.len()
        invariant
            i <= columns@.len(),
            columns@.len() > 0,
            forall|j: int| 0 <= j < i ==> valid_identifier((#[trigger] columns@[j]).name@),
        decreases columns.len() - i,
    {
        match validate_identifier(columns[i].name()) {
            Ok(_) => {},
            Err(error) => {
                assert(!valid_identifier(columns@[i as int].name@));
                return Err(error);
            },
        }
        i = i + 1;
    }
    Ok(())
}

/// The names of some columns, in order.
pub open spec fn column_names(columns: Seq<KeysetColumn>) -> Seq<Seq<char>> {
    columns.map_values(|column: KeysetColumn| column.name@)
}

/// The `ORDER BY` fragment of some columns.
pub open spec fn order_by_text(columns: Seq<KeysetColumn>) -> Seq<char> {
    joined(column_names(columns), ", "@)
}

/// Builds the `ORDER BY` fragment for `columns`, e.g. `"a, b"`.
pub fn order_by_sql(columns: &[KeysetColumn]) -> (r: String)
    ensures
        r@ == order_by_text(columns@),
{
    let mut out: String = String::new();
    let mut i: usize = 0;
    let ghost names = column_names(columns@);
    assert(out@ =~= joined(names.take(0), ", "@));
    while i < columns.len()
        invariant
            i <= columns@.len(),
            names == column_names(columns@),
            out@ == joined(names.take(i as int), ", "@),
        decreases columns.len() - i,
    {
        proof {
            assert(names.take(i + 1).drop_last() =~= names.take(i as int));
            assert(names.take(i + 1).last() == columns@[i as int].name@);
        }
        if i > 0 {
            out.append(", ");
        }
        out.append(columns[i].name());
        assert(out@ =~= joined(names.take(i + 1), ", "@));
        i = i + 1;
    }
    assert(names.take(i as int) =~= names);
    out
}

/// A bind placeholder.
pub open spec fn placeholder(parameter: nat) -> Seq<char> {
    "$"@ + decimal(parameter)
}

/// Some consecutive bind placeholders, separated by commas.
pub open spec fn placeholders(first: nat, count: nat) -> Seq<char> {
    joined(Seq::new(count, |i: int| placeholder((first + i) as nat)), ", "@)
}

/// Builds consecutive bind placeholders, e.g. `"$3, $4"`.
pub(crate) fn placeholders_sql(first: usize, count: usize) -> (r: String)
    requires
        first + count <= usize::MAX,
    ensures
        r@ == placeholders(first as nat, count as nat),
{
    let mut out: String = String::new();
    let mut i: usize = 0;
    let ghost parts = Seq::new(count as nat, |i: int| placeholder((first + i) as nat));
    assert(out@ =~= joined(parts.take(0), ", "@));
    while i < count
        invariant
            i <= count,
            first + count <= usize::MAX,
            parts == Seq::new(count as nat, |i: int| placeholder((first + i) as nat)),
            out@ == joined(parts.take(i as int), ", "@),
        decreases count - i,
    {
        proof {
            assert(parts.take(i + 1).drop_last() =~= parts.take(i as int));
            assert(parts.take(i + 1).last() == placeholder((first + i) as nat));
        }
        if i > 0 {
            out.append(", ");
        }
        let ghost before = out@;
        out.append("$");
        out.append(decimal_text((first + i) as u64).as_str());
        assert(out@ =~= before + placeholder((first + i) as nat));
        assert(out@ =~= joined(parts.take(i + 1), ", "@));
        i = i + 1;
    }
    assert(parts.take(i as int) =~= parts);
    out
}

/// The composite tuple comparison of some columns.
pub open spec fn keyset_predicate_text(columns: Seq<KeysetColumn>, next_param: nat) -> Seq<char> {
    "("@ + order_by_text(columns) + ") > ("@ + placeholders(next_param, columns.len()) + ")"@
}

/// Builds the composite tuple-comparison predicate `"(a, b) > ($N, $N+1)"` for
/// `columns`, with bind placeholders starting at `next_param`.
pub fn keyset_predicate_sql(columns: &[KeysetColumn], next_param: usize) -> (r: String)
    requires
        next_param + columns@.len() <= usize::MAX,
    ensures
        r@ == keyset_predicate_text(columns@, next_param as nat),
{
    let mut out: String = copy_text("(");
    out.append(order_by_sql(columns).as_str());
    out.append(") > (");
    out.append(placeholders_sql(next_param, columns.len()).as_str());
    out.append(")");
    out
}

/// One composite ordering-key value, typed per [`KeysetColumnKind`].
#[derive(Debug, PartialEq, Eq)]
pub enum PostgresKeyValue {
    /// A text key.
    Text(String),
    /// An integer key.
    I64(i64),
}

/// One ordering-key value, by its content.
#[verifier::ext_equal]
pub enum KeyView {
    Text(Seq<char>),
    I64(i64),
}

impl View for PostgresKeyValue {
    type V = KeyView;

    open spec fn view(&self) -> KeyView {
        match self {
            PostgresKeyValue::Text(text) => KeyView::Text(text@),
            PostgresKeyValue::I64(value) => KeyView::I64(*value),
        }
    }
}

impl Clone for PostgresKeyValue {
    fn clone(&self) -> (r: Self)
        ensures
            r@ == self@,
    {
        match self {
            PostgresKeyValue::Text(text) => PostgresKeyValue::Text(copy_text(text.as_str())),
            PostgresKeyValue::I64(value) => PostgresKeyValue::I64(*value),
        }
    }
}

/// Key values by their content.
pub open spec fn key_views(values: Seq<PostgresKeyValue>) -> Seq<KeyView> {
    values.map_values(|value: PostgresKeyValue| value@)
}

/// The durable restart position of a keyset-ordered reader: the last
/// successfully delivered row's ordering-key tuple, or empty for "no row
/// delivered yet" (unambiguous, since a real position has at least one entry).
#[derive(Debug, PartialEq, Eq)]
pub struct KeysetPosition {
    /// The key values, in column order.
    pub values: Vec<PostgresKeyValue>,
}

impl View for KeysetPosition {
    type V = Seq<KeyView>;

    open spec fn view(&self) -> Seq<KeyView> {
        key_views(self.values@)
    }
}

impl KeysetPosition {
    /// The position before any row.
    pub fn none() -> (r: Self)
        ensures
            r@ == Seq::<KeyView>::empty(),
    {
        let r = KeysetPosition { values: Vec::new() };
        assert(r@ =~= Seq::<KeyView>::empty());
        r
    }

    /// The position of a row.
    pub fn from_values(values: Vec<PostgresKeyValue>) -> (r: Self)
        ensures
            r.values == values,
            r@ == key_views(values@),
    {
        KeysetPosition { values }
    }

    /// Borrows the key values, in column order.
    pub fn values(&self) -> (r: &[PostgresKeyValue])
        ensures
            key_views(r@) == self@,
    {
        self.values.as_slice()
    }

    /// Reports whether no row has been delivered yet.
    pub fn is_empty(&self) -> (r: bool)
        ensures
            r == (self@.len() == 0),
    {
        self.values.len() == 0
    }
}

impl Clone for KeysetPosition {
    fn clone(&self) -> (r: Self)
        ensures
            r@ == self@,
    {
        let mut values: Vec<PostgresKeyValue> = Vec::new();
        let mut i: usize = 0;
        while i < self.values.len()
            invariant
                i <= self.values@.len(),
                key_views(values@) == self@.take(i as int),
            decreases self.values.len() - i,
        {
            let ghost before = values@;
            values.push(self.values[i].clone());
            proof {
                assert(key_views(values@) =~= key_views(before).push(self@[i as int]));
                assert(self@.take(i + 1) =~= self@.take(i as int).push(self@[i as int]));
            }
            i = i + 1;
        }
        assert(self@.take(i as int) =~= self@);
        KeysetPosition { values }
    }
}

impl Default for KeysetPosition {
    fn default() -> (r: Self)
        ensures
            r@ == Seq::<KeyView>::empty(),
    {
        Self::none()
    }
}

/// A column of a row, which the readers answer for by name, has this key value:
/// a text key is the column's text, and an integer key its `int8` value or, if
/// it has none, its `int4` value.
pub open spec fn reads_as<
    T: Fn(&str) -> Option<String>,
    L: Fn(&str) -> Option<i64>,
    N: Fn(&str) -> Option<i32>,
>(text: T, long: L, short: N, column: KeysetColumn, value: PostgresKeyValue) -> bool {
    match (column.kind, value) {
        (KeysetColumnKind::Text, PostgresKeyValue::Text(found)) => {
            call_ensures(text, (column.name,), Some(found))
        },
        (KeysetColumnKind::I64, PostgresKeyValue::I64(found)) => {
            ||| call_ensures(long, (column.name,), Some(found))
            ||| {
                &&& call_ensures(long, (column.name,), None::<i64>)
                &&& i32::MIN <= found <= i32::MAX
                &&& call_ensures(short, (column.name,), Some(found as i32))
            }
        },
        _ => false,
    }
}

/// A column of a row has no key value of its kind.
pub open spec fn unreadable<
    T: Fn(&str) -> Option<String>,
    L: Fn(&str) -> Option<i64>,
    N: Fn(&str) -> Option<i32>,
>(text: T, long: L, short: N, column: KeysetColumn) -> bool {
    match column.kind {
        KeysetColumnKind::Text => call_ensures(text, (column.name,), None::<String>),
        KeysetColumnKind::I64 => {
            &&& call_ensures(long, (column.name,), None::<i64>)
            &&& call_ensures(short, (column.name,), None::<i32>)
        },
    }
}

/// Reads the key columns of a row as a position, or fails if the row does not
/// carry every one of them. The row answers by column name: for its `text`, its
/// `int8` and its `int4` value.
pub fn extract_keyset<
    T: Fn(&str) -> Option<String>,
    L: Fn(&str) -> Option<i64>,
    N: Fn(&str) -> Option<i32>,
>(columns: &[KeysetColumn], text: T, long: L, short: N) -> (r: Result<KeysetPosition, ReaderError>)
    requires
        forall|name: &str| #[trigger] call_requires(text, (name,)),
        forall|name: &str| #[trigger] call_requires(long, (name,)),
        forall|name: &str| #[trigger] call_requires(short, (name,)),
    ensures
        match r {
            Ok(position) => {
                &&& position.values@.len() == columns@.len()
                &&& forall|i: int|
                    0 <= i < columns@.len() ==> reads_as(
                        text,
                        long,
                        short,
                        #[trigger] columns@[i],
                        position.values@[i],
                    )
            },
            Err(error) => {
                &&& error == (ReaderError {
                    category: FailureCategory::UserComponent,
                    checkpoint_advanced: false,
                })
                &&& exists|i: int|
                    0 <= i < columns@.len() && unreadable(text, long, short, #[trigger] columns@[i])
            },
        },
{
    let mut values: Vec<PostgresKeyValue> = Vec::new();
    let mut i: usize = 0;
    while i < columns.len()
        invariant
            i <= columns@.len(),
            values@.len() == i,
            forall|name: &str| #[trigger] call_requires(text, (name,)),
            forall|name: &str| #[trigger] call_requires(long, (name,)),
            forall|name: &str| #[trigger] call_requires(short, (name,)),
            forall|j: int|
                0 <= j < i ==> reads_as(text, long, short, #[trigger] columns@[j], values@[j]),
        decreases columns.len() - i,
    {
        let column: KeysetColumn = columns[i];
        let found: Option<PostgresKeyValue> = match column.kind {
            KeysetColumnKind::Text => match text(column.name) {
                Some(value) => Some(PostgresKeyValue::Text(value)),
                None => None,
            },
            KeysetColumnKind::I64 => match long(column.name) {
                Some(value) => Some(PostgresKeyValue::I64(value)),
                None => match short(column.name) {
                    Some(value) => Some(PostgresKeyValue::I64(value as i64)),
                    None => None,
                },
            },
        };
        match found {
            Some(value) => {
                assert(reads_as(text, long, short, columns@[i as int], value));
                values.push(value);
            },
            None => {
                assert(unreadable(text, long, short, columns@[i as int]));
                return Err(ReaderError::with_category(FailureCategory::UserComponent));
            },
        }
        i = i + 1;
    }
    Ok(KeysetPosition::from_values(values))
}

/// `sqlx::Error`, carried as an opaque value.
#[verifier::external_type_specification]
#[verifier::external_body]
pub struct ExSqlError(sqlx::Error);

/// The SQLSTATE code that a driver error carries, if it is one that the database
/// reported.
pub uninterp spec fn sqlstate(error: sqlx::Error) -> Option<Seq<char>>;

/// Calls `sqlx::Error::as_database_error` and `code` on what it gives: the
/// SQLSTATE code of an error that the database reported. It is part of the
/// error.
#[verifier::external_body]
fn error_code(error: &sqlx::Error) -> (r: Option<String>)
    ensures
        match r {
            Some(code) => sqlstate(*error) == Some(code@),
            None => sqlstate(*error) is None,
        },
{
    match error.as_database_error() {
        Some(database) => database.code().map(|code| code.into_owned()),
        None => None,
    }
}

/// The category of a SQLSTATE code: a cancelled query, the caller's data,
/// integrity or syntax classes, or infrastructure.
pub open spec fn category_of_code(code: Seq<char>) -> FailureCategory {
    if code == "57014"@ {
        FailureCategory::Cancelled
    } else if "22"@.is_prefix_of(code) || "23"@.is_prefix_of(code) || "42"@.is_prefix_of(code) {
        FailureCategory::UserComponent
    } else {
        FailureCategory::TransientInfrastructure
    }
}

/// Classifies a SQLSTATE code.
pub fn classify_code(code: &str) -> (r: FailureCategory)
    ensures
        r == category_of_code(code@),
{
    if same_text(code, "57014") {
        return FailureCategory::Cancelled;
    }
    if starts_with(code, "22") || starts_with(code, "23") || starts_with(code, "42") {
        return FailureCategory::UserComponent;
    }
    FailureCategory::TransientInfrastructure
}

/// Classifies a driver error by its SQLSTATE code. An error without one is
/// transient infrastructure.
pub fn classify_pg_error(error: &sqlx::Error) -> (r: FailureCategory)
    ensures
        r == (match sqlstate(*error) {
            Some(code) => category_of_code(code),
            None => FailureCategory::TransientInfrastructure,
        }),
{
    match error_code(error) {
        Some(code) => classify_code(code.as_str()),
        None => FailureCategory::TransientInfrastructure,
    }
}

/// A key value as JSON.
pub open spec fn key_json(key: KeyView) -> Json {
    match key {
        KeyView::Text(text) => Json::Object(
            map!["t"@ => Json::Text("text"@), "v"@ => Json::Text(text)],
        ),
        KeyView::I64(value) => Json::Object(
            map!["t"@ => Json::Text("i64"@), "v"@ => signed_json(value)],
        ),
    }
}

/// A position as JSON: an object, for the envelope takes no other document.
pub open spec fn keyset_json(keys: Seq<KeyView>) -> Json {
    Json::Object(map!["keys"@ => Json::Array(keys.map_values(|key: KeyView| key_json(key)))])
}

/// The key value that a document spells.
pub open spec fn key_of(json: Json) -> Option<KeyView> {
    match text_member(json, "t"@) {
        None => None,
        Some(tag) => match member(json, "v"@) {
            None => None,
            Some(value) => if tag == "text"@ {
                match value {
                    Json::Text(text) => Some(KeyView::Text(text)),
                    _ => None,
                }
            } else if tag == "i64"@ {
                match signed_of(value) {
                    Some(value) => Some(KeyView::I64(value)),
                    None => None,
                }
            } else {
                None
            },
        },
    }
}

/// The key values that some documents spell, if each spells one.
pub open spec fn keys_of(items: Seq<Json>) -> Option<Seq<KeyView>>
    decreases items.len(),
{
    if items.len() == 0 {
        Some(Seq::empty())
    } else {
        match (keys_of(items.drop_last()), key_of(items.last())) {
            (Some(keys), Some(key)) => Some(keys.push(key)),
            _ => None,
        }
    }
}

/// The position that durable bytes spell.
pub open spec fn keyset_of_bytes(bytes: Seq<u8>) -> Option<Seq<KeyView>> {
    match json_parse(bytes) {
        None => None,
        Some(json) => match member(json, "keys"@) {
            Some(Json::Array(items)) => keys_of(items),
            _ => None,
        },
    }
}

/// A key value is read back from its JSON.
proof fn key_reads_back(key: KeyView)
    ensures
        key_of(key_json(key)) == Some(key),
        plain(key_json(key), 2),
{
    reveal_strlit("t");
    reveal_strlit("v");
    reveal_strlit("text");
    reveal_strlit("i64");
    assert("t"@[0] == 't' && "v"@[0] == 'v');
    assert("text"@.len() == 4 && "i64"@.len() == 3);
    reveal_with_fuel(plain, 3);
    match key {
        KeyView::Text(text) => {
            assert(member(key_json(key), "t"@) == Some(Json::Text("text"@)));
        },
        KeyView::I64(value) => {
            assert(member(key_json(key), "t"@) == Some(Json::Text("i64"@)));
            assert(signed_of(signed_json(value)) == Some(value));
        },
    }
}

/// Key values are read back from their JSON.
proof fn keys_read_back(keys: Seq<KeyView>)
    ensures
        keys_of(keys.map_values(|key: KeyView| key_json(key))) == Some(keys),
    decreases keys.len(),
{
    let items = keys.map_values(|key: KeyView| key_json(key));
    if keys.len() > 0 {
        keys_read_back(keys.drop_last());
        key_reads_back(keys.last());
        assert(items.drop_last() =~= keys.drop_last().map_values(|key: KeyView| key_json(key)));
        assert(keys.drop_last().push(keys.last()) =~= keys);
    } else {
        assert(keys =~= Seq::<KeyView>::empty());
    }
}

/// If an item spells no key value, neither does the whole list.
proof fn one_bad_key(items: Seq<Json>, i: int)
    requires
        0 <= i < items.len(),
        key_of(items[i]) is None,
    ensures
        keys_of(items) is None,
    decreases items.len(),
{
    if i < items.len() - 1 {
        assert(items.drop_last()[i] == items[i]);
        one_bad_key(items.drop_last(), i);
    }
}

/// The JSON value of a key value.
fn encode_key(key: &PostgresKeyValue) -> (r: serde_json::Value)
    ensures
        json_content(r) == key_json(key@),
{
    let mut item: serde_json::Value = json_object();
    match key {
        PostgresKeyValue::Text(text) => {
            json_insert(&mut item, "t", json_string("text"));
            json_insert(&mut item, "v", json_string(text.as_str()));
        },
        PostgresKeyValue::I64(value) => {
            json_insert(&mut item, "t", json_string("i64"));
            json_insert(&mut item, "v", json_signed(*value));
        },
    }
    assert(json_content(item) == key_json(key@));
    item
}

/// Writes a position, which [`decode_keyset`] reads back.
pub fn encode_keyset(value: &KeysetPosition) -> (r: Result<Vec<u8>, StateCodecError>)
    ensures
        r is Ok,
        r->Ok_0@ == json_text(keyset_json(value@)),
        keyset_of_bytes(r->Ok_0@) == Some(value@),
{
    let mut items: Vec<serde_json::Value> = Vec::new();
    let mut i: usize = 0;
    let ghost wanted = value@.map_values(|key: KeyView| key_json(key));
    while i < value.values.len()
        invariant
            i <= value.values@.len(),
            wanted == value@.map_values(|key: KeyView| key_json(key)),
            json_contents(items@) == wanted.take(i as int),
        decreases value.values.len() - i,
    {
        let ghost before = items@;
        items.push(encode_key(&value.values[i]));
        proof {
            assert(value@[i as int] == value.values@[i as int]@);
            assert(json_contents(items@) =~= json_contents(before).push(wanted[i as int]));
            assert(wanted.take(i + 1) =~= wanted.take(i as int).push(wanted[i as int]));
        }
        i = i + 1;
    }
    let mut json: serde_json::Value = json_object();
    json_insert(&mut json, "keys", json_array(items));
    proof {
        assert(wanted.take(i as int) =~= wanted);
        assert(json_content(json) == keyset_json(value@));
        keys_read_back(value@);
        reveal_strlit("keys");
        reveal_with_fuel(plain, 3);
        assert forall|i: int| 0 <= i < wanted.len() implies plain(
            #[trigger] wanted[i],
            (readable_depth() - 2) as nat,
        ) by {
            key_reads_back(value@[i]);
            plain_deeper(wanted[i], 2, (readable_depth() - 2) as nat);
        }
        assert(plain(Json::Array(wanted), (readable_depth() - 1) as nat));
    }
    match json_to_vec(&json) {
        Ok(bytes) => Ok(bytes),
        Err(_) => Err(StateCodecError::InvalidPayload),
    }
}

/// A plain document is plain with more room.
proof fn plain_deeper(json: Json, depth: nat, room: nat)
    requires
        plain(json, depth),
        depth <= room,
    ensures
        plain(json, room),
    decreases depth,
{
    match json {
        Json::Array(items) => {
            assert forall|i: int| 0 <= i < items.len() implies plain(
                #[trigger] items[i],
                (room - 1) as nat,
            ) by {
                plain_deeper(items[i], (depth - 1) as nat, (room - 1) as nat);
            }
        },
        Json::Object(members) => {
            assert forall|k: Seq<char>| #[trigger] members.contains_key(k) implies plain(
                members[k],
                (room - 1) as nat,
            ) by {
                plain_deeper(members[k], (depth - 1) as nat, (room - 1) as nat);
            }
        },
        _ => {},
    }
}

/// Reads a key value.
fn decode_key(item: &serde_json::Value) -> (r: Option<PostgresKeyValue>)
    ensures
        match r {
            Some(key) => key_of(json_content(*item)) == Some(key@),
            None => key_of(json_content(*item)) is None,
        },
{
    let tag: String = match read_text(item, "t") {
        Some(tag) => tag,
        None => return None,
    };
    if same_text(tag.as_str(), "text") {
        return match read_text(item, "v") {
            Some(text) => Some(PostgresKeyValue::Text(text)),
            None => None,
        };
    }
    if same_text(tag.as_str(), "i64") {
        return match json_get(item, "v") {
            Some(value) => match json_as_i64(value) {
                Some(value) => Some(PostgresKeyValue::I64(value)),
                None => None,
            },
            None => None,
        };
    }
    None
}

/// Reads a position.
pub fn decode_keyset(payload: &[u8]) -> (r: Result<KeysetPosition, StateCodecError>)
    ensures
        match r {
            Ok(position) => keyset_of_bytes(payload@) == Some(position@),
            Err(error) => keyset_of_bytes(payload@) is None && error
                == StateCodecError::InvalidPayload,
        },
{
    let value: serde_json::Value = match json_from_slice(payload) {
        Ok(value) => value,
        Err(_) => return Err(StateCodecError::InvalidPayload),
    };
    let keys: &serde_json::Value = match json_get(&value, "keys") {
        Some(keys) => keys,
        None => return Err(StateCodecError::InvalidPayload),
    };
    let items: &Vec<serde_json::Value> = match json_as_array(keys) {
        Some(items) => items,
        None => return Err(StateCodecError::InvalidPayload),
    };
    let ghost contents = json_contents(items@);
    let mut values: Vec<PostgresKeyValue> = Vec::new();
    let mut i: usize = 0;
    assert(key_views(values@) =~= Seq::<KeyView>::empty());
    while i < items.len()
        invariant
            i <= items@.len(),
            contents == json_contents(items@),
            keys_of(contents.take(i as int)) == Some(key_views(values@)),
            keyset_of_bytes(payload@) == keys_of(contents),
        decreases items.len() - i,
    {
        let ghost before = values@;
        proof {
            assert(contents.take(i + 1).drop_last() =~= contents.take(i as int));
            assert(contents.take(i + 1).last() == json_content(items@[i as int]));
        }
        match decode_key(&items[i]) {
            Some(key) => {
                values.push(key);
                assert(key_views(values@) =~= key_views(before).push(key@));
            },
            None => {
                proof {
                    one_bad_key(contents, i as int);
                }
                return Err(StateCodecError::InvalidPayload);
            },
        }
        i = i + 1;
    }
    assert(contents.take(i as int) =~= contents);
    Ok(KeysetPosition::from_values(values))
}

/// The schema of a cursor reader's position.
pub const CURSOR_SCHEMA: &'static str = "oxide-batch.postgres-cursor-reader-position";

/// The codec of a cursor reader's position.
pub const CURSOR_CODEC: &'static str = "oxide-batch.postgres-cursor-reader-position-codec";

/// The schema of a paging reader's position.
pub const PAGING_SCHEMA: &'static str = "oxide-batch.postgres-paging-reader-position";

/// The codec of a paging reader's position.
pub const PAGING_CODEC: &'static str = "oxide-batch.postgres-paging-reader-position-codec";

/// The rows a keyset-ordered reader has fetched and not yet delivered, and the
/// position of the last one it delivered.
pub struct KeysetRows<R> {
    /// The last delivered row's ordering-key tuple.
    pub position: KeysetPosition,
    /// The fetched rows that are still to be delivered, in key order.
    pub buffered: VecDeque<R>,
}

/// How a keyset-ordered reader's position opens: the outcome with the position
/// to go on from, or nothing if the inherited bytes spell none.
pub open spec fn keyset_open(inherited: Option<Seq<u8>>) -> Option<
    (StreamOpenOutcome, Seq<KeyView>),
> {
    match inherited {
        None => Some((StreamOpenOutcome::Initial, Seq::empty())),
        Some(bytes) => match keyset_of_bytes(bytes) {
            Some(keys) => Some((StreamOpenOutcome::Restored, keys)),
            None => None,
        },
    }
}

/// The failure of a row that lacks a key column or cannot be mapped.
pub open spec fn malformed_row() -> ReaderError {
    ReaderError { category: FailureCategory::UserComponent, checkpoint_advanced: false }
}

/// What delivering the front row does: without one the input is over; with one,
/// its key is read and then the row is mapped, and the row leaves, and the
/// position moves to it, exactly if both succeed. Whichever fails, and however,
/// the failure that is reported is the row's: it never claims that the checkpoint
/// has advanced.
pub open spec fn delivers<
    R,
    I,
    K: Fn(&R) -> Result<KeysetPosition, ReaderError>,
    F: Fn(&R) -> Result<I, ReaderError>,
>(
    before: KeysetRows<R>,
    after: KeysetRows<R>,
    extract: K,
    map_row: F,
    r: Result<ReadOutcome<I>, ReaderError>,
) -> bool {
    if before.buffered@.len() == 0 {
        &&& after == before
        &&& r == Ok::<ReadOutcome<I>, ReaderError>(ReadOutcome::EndOfInput)
    } else {
        let row = before.buffered@[0];
        match r {
            Ok(outcome) => {
                &&& outcome is Item
                &&& call_ensures(extract, (&row,), Ok(after.position))
                &&& call_ensures(map_row, (&row,), Ok(outcome->Item_0))
                &&& after.buffered@ == before.buffered@.skip(1)
            },
            Err(error) => {
                &&& after == before
                &&& error == malformed_row()
                &&& {
                    ||| exists|cause: ReaderError|
                        #[trigger] call_ensures(extract, (&row,), Err(cause))
                    ||| {
                        &&& exists|key: KeysetPosition|
                            #[trigger] call_ensures(extract, (&row,), Ok(key))
                        &&& exists|cause: ReaderError|
                            #[trigger] call_ensures(map_row, (&row,), Err(cause))
                    }
                }
            },
        }
    }
}

impl<R> KeysetRows<R> {
    /// No rows, before the first one.
    pub fn new() -> (r: Self)
        ensures
            r.position@ == Seq::<KeyView>::empty(),
            r.buffered@ == Seq::<R>::empty(),
    {
        KeysetRows { position: KeysetPosition::none(), buffered: VecDeque::new() }
    }

    /// Delivers the front row. The row is consumed, and the position moves to
    /// it, only once its key was read and the row mapped; a failing row stays in
    /// front, so that the next call tries it again. What `extract` and `map_row`
    /// say of the failure's kind does not count: a malformed row is a failure of
    /// the user's component, and no checkpoint advances past it.
    pub fn deliver<I, K, F>(&mut self, extract: K, map_row: F) -> (r: Result<
        ReadOutcome<I>,
        ReaderError,
    >) where
        K: Fn(&R) -> Result<KeysetPosition, ReaderError>,
        F: Fn(&R) -> Result<I, ReaderError>,

        requires
            forall|row: &R| #[trigger] call_requires(extract, (row,)),
            forall|row: &R| #[trigger] call_requires(map_row, (row,)),
        ensures
            delivers(*old(self), *final(self), extract, map_row, r),
    {
        if self.buffered.len() == 0 {
            return Ok(ReadOutcome::EndOfInput);
        }
        let row: &R = &self.buffered[0];
        let key: KeysetPosition = match extract(row) {
            Ok(key) => key,
            Err(cause) => {
                assert(call_ensures(extract, (row,), Err(cause)));
                return Err(ReaderError::new());
            },
        };
        let item: I = match map_row(row) {
            Ok(item) => item,
            Err(cause) => {
                assert(call_ensures(extract, (row,), Ok(key)));
                assert(call_ensures(map_row, (row,), Err(cause)));
                return Err(ReaderError::new());
            },
        };
        let _ = self.buffered.pop_front();
        self.position = key;
        Ok(ReadOutcome::Item(item))
    }

    /// Opens the position: before the first row, or where the inherited state
    /// left it. A refused open leaves it alone.
    pub fn open(&mut self, inherited: Option<&[u8]>) -> (r: Result<
        StreamOpenOutcome,
        StreamOpenError,
    >)
        ensures
            final(self).buffered == old(self).buffered,
            ({
                let bytes = match inherited {
                    Some(bytes) => Some(bytes@),
                    None => None,
                };
                match keyset_open(bytes) {
                    Some((outcome, keys)) => final(self).position@ == keys && r == Ok::<
                        StreamOpenOutcome,
                        StreamOpenError,
                    >(outcome),
                    None => final(self).position == old(self).position && r == Err::<
                        StreamOpenOutcome,
                        StreamOpenError,
                    >(StreamOpenError { category: FailureCategory::UserComponent }),
                }
            }),
    {
        match inherited {
            None => {
                self.position = KeysetPosition::none();
                Ok(StreamOpenOutcome::Initial)
            },
            Some(bytes) => match decode_keyset(bytes) {
                Ok(position) => {
                    self.position = position;
                    Ok(StreamOpenOutcome::Restored)
                },
                Err(_) => Err(StreamOpenError::new()),
            },
        }
    }

    /// The durable position.
    pub fn update(&self) -> (r: Result<Vec<u8>, StreamUpdateError>)
        ensures
            r is Ok,
            r->Ok_0@ == json_text(keyset_json(self.position@)),
            keyset_of_bytes(r->Ok_0@) == Some(self.position@),
    {
        match encode_keyset(&self.position) {
            Ok(bytes) => Ok(bytes),
            Err(_) => Err(StreamUpdateError::new()),
        }
    }
}

/// An identifier starts with a letter or an underscore and goes on with letters,
/// digits and underscores; nothing else can be embedded.
pub proof fn identifiers_are_these(
    name: &str,
    r: Result<(), PostgresComponentConfigError>,
    i: int,
)
    requires
        call_ensures(validate_identifier, (name,), r),
    ensures
        name@.len() == 0 ==> r is Err,
        r is Ok && 0 <= i < name@.len() ==> ('a' <= name@[i] <= 'z' || 'A' <= name@[i] <= 'Z'
            || name@[i] == '_' || (i > 0 && '0' <= name@[i] <= '9')),
        name@.len() > 0 && (forall|j: int|
            0 <= j < name@.len() ==> ('a' <= (#[trigger] name@[j]) <= 'z' || 'A' <= name@[j] <= 'Z'
                || name@[j] == '_' || (j > 0 && '0' <= name@[j] <= '9'))) ==> r is Ok,
        r matches Err(error) ==> error == PostgresComponentConfigError::InvalidColumnName,
{
    if r is Ok && 0 < i < name@.len() {
        assert(continues_identifier(name@[i]));
    }
}

/// Key columns are accepted exactly if there is one and each name can be embedded.
pub proof fn key_columns_are_validated_one_by_one(
    columns: &[KeysetColumn],
    r: Result<(), PostgresComponentConfigError>,
    i: int,
)
    requires
        call_ensures(validate_key_columns, (columns,), r),
    ensures
        columns@.len() == 0 <==> r == Err::<(), PostgresComponentConfigError>(
            PostgresComponentConfigError::EmptyKeyColumns,
        ),
        0 <= i < columns@.len() && !valid_identifier(columns@[i].name@) ==> r == Err::<
            (),
            PostgresComponentConfigError,
        >(PostgresComponentConfigError::InvalidColumnName),
        columns@.len() > 0 && (forall|j: int|
            0 <= j < columns@.len() ==> valid_identifier((#[trigger] columns@[j]).name@))
            ==> r is Ok,
{
}

/// Columns are named in order, with a comma and a space between two of them.
pub proof fn columns_are_named_in_order(columns: Seq<KeysetColumn>, column: KeysetColumn)
    ensures
        order_by_text(Seq::<KeysetColumn>::empty()).len() == 0,
        columns.len() == 0 ==> order_by_text(columns.push(column)) == column.name@,
        columns.len() > 0 ==> order_by_text(columns.push(column)) == order_by_text(columns)
            + seq![',', ' '] + column.name@,
{
    reveal_strlit(", ");
    assert(", "@ =~= seq![',', ' ']);
    let names = column_names(columns.push(column));
    assert(names.drop_last() =~= column_names(columns));
    assert(names.last() == column.name@);
    if columns.len() == 0 {
        assert(joined(names, ", "@) =~= column.name@);
    }
}

/// Placeholders are numbered one after the other from the first number on, each
/// behind a dollar sign.
pub proof fn consecutive_placeholders_count_up(first: nat, count: nat)
    ensures
        placeholders(first, 0).len() == 0,
        placeholders(first, 1) == seq!['$'] + decimal(first),
        count > 0 ==> placeholders(first, count + 1) == placeholders(first, count) + seq![
            ',',
            ' ',
            '$',
        ] + decimal(first + count),
{
    reveal_strlit(", ");
    reveal_strlit("$");
    let parts = Seq::new(count + 1, |i: int| placeholder((first + i) as nat));
    let fewer = Seq::new(count, |i: int| placeholder((first + i) as nat));
    assert(parts.drop_last() =~= fewer);
    assert(parts.last() == placeholder(first + count));
    if count > 0 {
        assert(placeholders(first, count + 1) =~= placeholders(first, count) + seq![',', ' ', '$']
            + decimal(first + count));
    }
    let one = Seq::new(1, |i: int| placeholder((first + i) as nat));
    assert(one.drop_last() =~= Seq::<Seq<char>>::empty());
    assert(placeholders(first, 1) =~= seq!['$'] + decimal(first));
}

/// The predicate asks for what comes strictly after the bound keys: the tuple of
/// the columns in key order, the sign for greater, and one placeholder for each.
pub proof fn the_predicate_selects_what_comes_after(
    columns: &[KeysetColumn],
    next_param: usize,
    r: String,
)
    requires
        call_ensures(keyset_predicate_sql, (columns, next_param), r),
    ensures
        r@ == seq!['('] + order_by_text(columns@) + seq![')', ' ', '>', ' ', '('] + placeholders(
            next_param as nat,
            columns@.len(),
        ) + seq![')'],
{
    reveal_strlit("(");
    reveal_strlit(") > (");
    reveal_strlit(")");
    assert("("@ =~= seq!['(']);
    assert(") > ("@ =~= seq![')', ' ', '>', ' ', '(']);
    assert(")"@ =~= seq![')']);
}

/// A cancelled query is a cancellation; data, integrity and access-rule errors,
/// the classes 22, 23 and 42, are the caller's; every other code, and an error
/// without one, may pass.
pub proof fn database_failures_keep_their_meaning(code: &str, r: FailureCategory)
    requires
        call_ensures(classify_code, (code,), r),
    ensures
        code@ == seq!['5', '7', '0', '1', '4'] <==> r == FailureCategory::Cancelled,
        code@.len() >= 2 && ((code@[0] == '2' && (code@[1] == '2' || code@[1] == '3')) || (code@[0]
            == '4' && code@[1] == '2')) <==> r == FailureCategory::UserComponent,
        r == FailureCategory::Cancelled || r == FailureCategory::UserComponent || r
            == FailureCategory::TransientInfrastructure,
{
    reveal_strlit("57014");
    reveal_strlit("22");
    reveal_strlit("23");
    reveal_strlit("42");
    assert("57014"@ =~= seq!['5', '7', '0', '1', '4']);
    assert("22"@ =~= seq!['2', '2']);
    assert("23"@ =~= seq!['2', '3']);
    assert("42"@ =~= seq!['4', '2']);
    if code@.len() >= 2 {
        let head = code@.subrange(0, 2);
        assert(head =~= seq![code@[0], code@[1]]);
        if code@[0] == '2' && code@[1] == '2' {
            assert("22"@.is_prefix_of(code@));
        }
        if code@[0] == '2' && code@[1] == '3' {
            assert("23"@.is_prefix_of(code@));
        }
        if code@[0] == '4' && code@[1] == '2' {
            assert("42"@.is_prefix_of(code@));
        }
    }
    if code@ == seq!['5', '7', '0', '1', '4'] {
        assert(code@[0] == '5');
    }
}

/// An error that the database did not report may pass; one that it reported is
/// judged by its code.
pub proof fn driver_failures_are_judged_by_their_code(
    error: &sqlx::Error,
    r: FailureCategory,
    code: &str,
    judged: FailureCategory,
)
    requires
        call_ensures(classify_pg_error, (error,), r),
        call_ensures(classify_code, (code,), judged),
    ensures
        sqlstate(*error) is None ==> r == FailureCategory::TransientInfrastructure,
        sqlstate(*error) == Some(code@) ==> r == judged,
{
}

/// Keys are told by their JSON, text keys and integer keys apart.
pub proof fn keys_are_told_by_their_json(a: KeyView, b: KeyView)
    ensures
        key_json(a) == key_json(b) ==> a == b,
        key_of(key_json(a)) == Some(a),
{
    key_reads_back(a);
    key_reads_back(b);
}

/// A position holds its keys under one name, in order, and is read back from
/// there; a document in which any of them cannot be read is no position.
pub proof fn positions_hold_their_keys(keys: Seq<KeyView>, items: Seq<Json>, i: int)
    ensures
        member(keyset_json(keys), "keys"@) == Some(
            Json::Array(Seq::new(keys.len(), |k: int| key_json(keys[k]))),
        ),
        keys_of(Seq::new(keys.len(), |k: int| key_json(keys[k]))) == Some(keys),
        0 <= i < items.len() && key_of(items[i]) is None ==> keys_of(items) is None,
        0 <= i < items.len() && keys_of(items) is Some ==> keys_of(items)->0.len() == items.len()
            && Some(keys_of(items)->0[i]) == key_of(items[i]),
{
    keys_read_back(keys);
    let mapped = keys.map_values(|key: KeyView| key_json(key));
    assert(mapped =~= Seq::new(keys.len(), |k: int| key_json(keys[k])));
    if 0 <= i < items.len() {
        if key_of(items[i]) is None {
            one_bad_key(items, i);
        }
        if keys_of(items) is Some {
            keys_stand_in_order(items, i);
        }
    }
}

proof fn keys_stand_in_order(items: Seq<Json>, i: int)
    requires
        0 <= i < items.len(),
        keys_of(items) is Some,
    ensures
        keys_of(items)->0.len() == items.len(),
        Some(keys_of(items)->0[i]) == key_of(items[i]),
    decreases items.len(),
{
    let shorter = items.drop_last();
    if shorter.len() > 0 {
        let j = if i < shorter.len() {
            i
        } else {
            0
        };
        keys_stand_in_order(shorter, j);
        assert(shorter[j] == items[j]);
    } else {
        assert(keys_of(shorter) == Some(Seq::<KeyView>::empty()));
    }
}

/// A row leaves, and the position moves to its key, exactly if it was delivered. A
/// failing row stays in front and moves nothing.
pub proof fn a_delivered_row_leaves<R, I, K: Fn(&R) -> Result<KeysetPosition, ReaderError>, F: Fn(
    &R,
) -> Result<I, ReaderError>>(
    rows: &mut KeysetRows<R>,
    extract: K,
    map_row: F,
    r: Result<ReadOutcome<I>, ReaderError>,
)
    requires
        call_ensures(KeysetRows::<R>::deliver::<I, K, F>, (rows, extract, map_row), r),
    ensures
        old(rows).buffered@.len() == 0 <==> r == Ok::<ReadOutcome<I>, ReaderError>(
            ReadOutcome::EndOfInput,
        ),
        r matches Ok(ReadOutcome::Item(item)) ==> old(rows).buffered@.len()
            == final(rows).buffered@.len() + 1
                && call_ensures(map_row, (&old(rows).buffered@[0],), Ok(item))
            && call_ensures(extract, (&old(rows).buffered@[0],), Ok(final(rows).position)),
        !(r matches Ok(ReadOutcome::Item(_))) ==> *final(rows) == *old(rows),
        r matches Err(error) ==> error.category == FailureCategory::UserComponent
            && !error.checkpoint_advanced,
        !(r matches Ok(ReadOutcome::Stopped)),
{
}

/// A reader that is opened with what another one had prepared goes on behind the
/// last row that was delivered there; without inherited state it starts before the
/// first row.
pub proof fn a_restart_goes_on_behind_the_last_row<R>(
    before: &KeysetRows<R>,
    prepared: Result<Vec<u8>, StreamUpdateError>,
    rows: &mut KeysetRows<R>,
    inherited: Option<&[u8]>,
    r: Result<StreamOpenOutcome, StreamOpenError>,
)
    requires
        call_ensures(KeysetRows::<R>::update, (before,), prepared),
        call_ensures(KeysetRows::<R>::open, (rows, inherited), r),
    ensures
        prepared is Ok,
        inherited matches Some(bytes) && bytes@ == prepared->Ok_0@ ==> final(rows).position@
            == before.position@ && r == Ok::<StreamOpenOutcome, StreamOpenError>(
            StreamOpenOutcome::Restored,
        ),
        inherited is None ==> final(rows).position@.len() == 0 && r == Ok::<
            StreamOpenOutcome,
            StreamOpenError,
        >(StreamOpenOutcome::Initial),
        r is Err ==> *final(rows) == *old(rows),
        final(rows).buffered == old(rows).buffered,
{
}

/// A text column is read as its text, and an integer column as its wide value or,
/// without one, as its narrow one; no column is read as the other kind.
pub proof fn columns_are_read_as_declared<
    T: Fn(&str) -> Option<String>,
    L: Fn(&str) -> Option<i64>,
    N: Fn(&str) -> Option<i32>,
>(
    columns: &[KeysetColumn],
    text: T,
    long: L,
    short: N,
    r: Result<KeysetPosition, ReaderError>,
    i: int,
)
    requires
        call_ensures(extract_keyset::<T, L, N>, (columns, text, long, short), r),
        0 <= i < columns@.len(),
    ensures
        r matches Ok(position) ==> position.values@.len() == columns@.len() && (columns@[i].kind
            is Text <==> position.values@[i] is Text),
        r matches Ok(position) ==> (position.values@[i] matches PostgresKeyValue::Text(found)
            ==> call_ensures(text, (columns@[i].name,), Some(found))),
        r matches Ok(position) ==> (position.values@[i] matches PostgresKeyValue::I64(found)
            ==> call_ensures(long, (columns@[i].name,), Some(found)) || (call_ensures(
            long,
            (columns@[i].name,),
            None::<i64>,
        ) && call_ensures(short, (columns@[i].name,), Some(found as i32)) && found as i32
            == found)),
        r matches Err(error) ==> error.category == FailureCategory::UserComponent
            && !error.checkpoint_advanced,
{
    match r {
        Ok(position) => {
            assert(reads_as(text, long, short, columns@[i], position.values@[i]));
        },
        _ => {},
    }
}

/// What each refused configuration says.
pub proof fn refused_configurations_say_this(error: &PostgresComponentConfigError, r: String)
    requires
        call_ensures(PostgresComponentConfigError::to_text, (error,), r),
    ensures
        error is EmptyKeyColumns ==> r@ == "at least one ordering-key column is required"@,
        error is InvalidColumnName ==> r@ == "an ordering-key or bound column name is invalid"@,
        error is InvalidFetchSize ==> r@ == "the configured fetch/page size must be nonzero"@,
        error is InvalidMaxParameters ==> r@
            == "the configured maximum parameters per statement is too small"@,
        error is InvalidColumnsPerRow ==> r@
            == "the configured column count per row must be nonzero"@,
        error is MaxParametersExceedsProtocolLimit ==> r@
            == "the configured maximum parameters per statement exceeds PostgreSQL's 65,535-parameter protocol limit"@,
{
}

/// A position that was written is read back, key by key.
pub proof fn keyset_positions_are_read_back(
    value: &KeysetPosition,
    written: Result<Vec<u8>, StateCodecError>,
    payload: &[u8],
    read: Result<KeysetPosition, StateCodecError>,
)
    requires
        call_ensures(encode_keyset, (value,), written),
        call_ensures(decode_keyset, (payload,), read),
    ensures
        written is Ok,
        payload@ == written->Ok_0@ ==> read is Ok && read->Ok_0@ == value@,
        json_parse(payload@) is None ==> read is Err,
{
}

/// Columns are declared as text or as integers, under the given name.
pub proof fn columns_are_declared_by_kind(
    name: &'static str,
    text: KeysetColumn,
    number: KeysetColumn,
)
    requires
        call_ensures(KeysetColumn::text, (name,), text),
        call_ensures(KeysetColumn::i64, (name,), number),
    ensures
        text.name == name && text.kind is Text,
        number.name == name && number.kind is I64,
{
}

/// The names under which positions are stored, which a restart finds them by.
pub proof fn keyset_positions_are_stored_under_these_names()
    ensures
        CURSOR_SCHEMA@ == "oxide-batch.postgres-cursor-reader-position"@,
        CURSOR_CODEC@ == "oxide-batch.postgres-cursor-reader-position-codec"@,
        PAGING_SCHEMA@ == "oxide-batch.postgres-paging-reader-position"@,
        PAGING_CODEC@ == "oxide-batch.postgres-paging-reader-position-codec"@,
{
}

/// A row whose key can only be read and that can only be mapped is delivered.
pub proof fn a_good_row_is_delivered<R, I, K: Fn(&R) -> Result<KeysetPosition, ReaderError>, F: Fn(
    &R,
) -> Result<I, ReaderError>>(
    rows: &mut KeysetRows<R>,
    extract: K,
    map_row: F,
    r: Result<ReadOutcome<I>, ReaderError>,
)
    requires
        call_ensures(KeysetRows::<R>::deliver::<I, K, F>, (rows, extract, map_row), r),
        old(rows).buffered@.len() > 0,
        forall|cause: ReaderError| !#[trigger] call_ensures(
            extract,
            (&old(rows).buffered@[0],),
            Err(cause),
        ),
        forall|cause: ReaderError| !#[trigger] call_ensures(
            map_row,
            (&old(rows).buffered@[0],),
            Err(cause),
        ),
    ensures
        r matches Ok(ReadOutcome::Item(_)),
        final(rows).buffered@ == old(rows).buffered@.skip(1),
{
}

/// A row lacks its key exactly if it lacks a column: a text column without a text,
/// or an integer column with neither a wide nor a narrow value.
pub proof fn a_missing_column_is_refused<
    T: Fn(&str) -> Option<String>,
    L: Fn(&str) -> Option<i64>,
    N: Fn(&str) -> Option<i32>,
>(
    columns: &[KeysetColumn],
    text: T,
    long: L,
    short: N,
    r: Result<KeysetPosition, ReaderError>,
)
    requires
        call_ensures(extract_keyset::<T, L, N>, (columns, text, long, short), r),
        r is Err,
    ensures
        exists|i: int|
            #![trigger columns@[i]]
            {
                &&& 0 <= i < columns@.len()
                &&& columns@[i].kind is Text ==> call_ensures(
                    text,
                    (columns@[i].name,),
                    None::<String>,
                )
                &&& columns@[i].kind is I64 ==> call_ensures(long, (columns@[i].name,), None::<i64>)
                    && call_ensures(short, (columns@[i].name,), None::<i32>)
            },
{
    let i = choose|i: int|
        0 <= i < columns@.len() && unreadable(text, long, short, #[trigger] columns@[i]);
    assert(unreadable(text, long, short, columns@[i]));
}

/// A position is empty exactly before the first row, and shows the keys that it was
/// made of in order.
pub proof fn a_position_shows_its_keys(
    none: KeysetPosition,
    before: bool,
    values: Vec<PostgresKeyValue>,
    position: KeysetPosition,
    empty: bool,
    shown: &[PostgresKeyValue],
    i: int,
)
    requires
        call_ensures(KeysetPosition::none, (), none),
        call_ensures(KeysetPosition::is_empty, (&none,), before),
        call_ensures(KeysetPosition::from_values, (values,), position),
        call_ensures(KeysetPosition::is_empty, (&position,), empty),
        call_ensures(KeysetPosition::values, (&position,), shown),
    ensures
        before,
        empty <==> values@.len() == 0,
        shown@.len() == values@.len(),
        0 <= i < values@.len() ==> shown@[i]@ == values@[i]@,
{
    assert(key_views(shown@).len() == shown@.len());
    assert(key_views(values@).len() == values@.len());
    if 0 <= i < values@.len() {
        assert(key_views(shown@)[i] == shown@[i]@);
        assert(key_views(values@)[i] == values@[i]@);
    }
}

} // verus!
