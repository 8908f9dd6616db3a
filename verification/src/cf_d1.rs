//! SQL over Cloudflare D1: the values of columns, the requests, and the results of queries.
use vstd::prelude::*;
use crate::json::{array_text, as_unsigned, json_of, new_members, no_members, object_text, push_member, quote, quoted, read_value, unsigned_value, value_of, write_array, write_object, written, Json, JsonView};
use crate::number::{decimal, i64_text, signed_decimal, u64_text};
use crate::table::{lemma_put, lookup, outside_workload, put_at, resolve_field, resolved, Config, Owned, Table, Tracker};
use crate::text::{cat2, cat3, cat5, opt_view, views};
use crate::world::{bound_config, first_of_package, one, WitInterface, WitWorld};

verus! {

pub const PLUGIN_ID: &'static str = "cf-d1";

/// A value of a column; a real number is held as its JSON text.
#[derive(Debug)]
pub enum ColumnValue {
    Null,
    Integer(i64),
    Real(String),
    Text(String),
    Blob(Vec<u8>),
}

pub enum ColumnView {
    Null,
    Integer(i64),
    Real(Seq<char>),
    Text(Seq<char>),
    Blob(Seq<u8>),
}

impl ColumnValue {
    pub open spec fn view(&self) -> ColumnView {
        match self {
            ColumnValue::Null => ColumnView::Null,
            ColumnValue::Integer(n) => ColumnView::Integer(*n),
            ColumnValue::Real(t) => ColumnView::Real(t@),
            ColumnValue::Text(t) => ColumnView::Text(t@),
            ColumnValue::Blob(b) => ColumnView::Blob(b@),
        }
    }
}

pub open spec fn value_views(v: Seq<ColumnValue>) -> Seq<ColumnView> {
    v.map_values(|c: ColumnValue| c@)
}

#[derive(Debug)]
pub struct ColumnMeta {
    pub name: String,
    pub column_type: Option<String>,
}

#[derive(Debug)]
pub struct ResultRow {
    pub values: Vec<ColumnValue>,
}

#[derive(Debug)]
pub struct QueryResult {
    pub columns: Vec<ColumnMeta>,
    pub rows: Vec<ResultRow>,
    pub rows_affected: u64,
    pub last_insert_rowid: Option<i64>,
}

#[derive(Debug)]
pub enum QueryError {
    ConnectionError(String),
    DatabaseError(String),
    Unexpected(String),
}

pub enum QueryErrorView {
    ConnectionError(Seq<char>),
    DatabaseError(Seq<char>),
    Unexpected(Seq<char>),
}

impl QueryError {
    pub open spec fn view(&self) -> QueryErrorView {
        match self {
            QueryError::ConnectionError(m) => QueryErrorView::ConnectionError(m@),
            QueryError::DatabaseError(m) => QueryErrorView::DatabaseError(m@),
            QueryError::Unexpected(m) => QueryErrorView::Unexpected(m@),
        }
    }
}

// ---- Values ----

/// The bytes of the items that are numbers, each cut to eight bits.
pub open spec fn blob_of(items: Seq<Seq<char>>) -> Seq<u8>
    decreases items.len(),
{
    if items.len() == 0 {
        Seq::<u8>::empty()
    } else {
        match unsigned_value(items.last()) {
            Some(n) => blob_of(items.drop_last()).push((n % 256) as u8),
            None => blob_of(items.drop_last()),
        }
    }
}

/// The column value for a JSON value: a truth value is a number, an array a blob, an object text.
pub open spec fn column_of(j: JsonView) -> ColumnView {
    match j {
        JsonView::Null => ColumnView::Null,
        JsonView::Bool(b) => ColumnView::Integer(
            if b {
                1
            } else {
                0
            },
        ),
        JsonView::Unsigned(n) => if n <= i64::MAX {
            ColumnView::Integer(n as i64)
        } else {
            ColumnView::Real(decimal(n as nat))
        },
        JsonView::Negative(n) => ColumnView::Integer(n),
        JsonView::Real(t) => ColumnView::Real(t),
        JsonView::Text(s) => ColumnView::Text(s),
        JsonView::Array(items) => ColumnView::Blob(blob_of(items)),
        JsonView::Object(m) => ColumnView::Text(object_text(m)),
    }
}

/// The JSON value for a column value: a blob is an array of numbers.
pub open spec fn value_for(c: ColumnView) -> JsonView {
    match c {
        ColumnView::Null => JsonView::Null,
        ColumnView::Integer(n) => if n < 0 {
            JsonView::Negative(n)
        } else {
            JsonView::Unsigned(n as u64)
        },
        ColumnView::Real(t) => JsonView::Real(t),
        ColumnView::Text(s) => JsonView::Text(s),
        ColumnView::Blob(b) => JsonView::Array(byte_texts(b)),
    }
}

fn read_blob(items: &Vec<String>) -> (r: Vec<u8>)
    ensures
        r@ == blob_of(views(items@)),
        forall|b: Seq<u8>| views(items@) == #[trigger] byte_texts(b) ==> r@ == b,
{
    let ghost iv = views(items@);
    let mut out: Vec<u8> = Vec::new();
    let mut i: usize = 0;
    while i < items.len()
        invariant
            i <= items@.len(),
            iv == views(items@),
            out@ == blob_of(iv.take(i as int)),
            forall|b: Seq<u8>| iv == #[trigger] byte_texts(b) ==> out@ == b.take(i as int),
        decreases items@.len() - i,
    {
        assert(iv.take(i + 1).drop_last() == iv.take(i as int));
        assert(iv[i as int] == items@[i as int]@);
        let n = as_unsigned(&items[i]);
        proof {
            assert forall|b: Seq<u8>| iv == #[trigger] byte_texts(b) implies n == Some(
                b[i as int] as u64,
            ) && b.take(i + 1) == b.take(i as int).push(b[i as int]) by {
                assert(byte_texts(b).len() == b.len());
                assert(byte_texts(b)[i as int] == decimal((b[i as int] as u64) as nat));
                assert(b.take(i + 1) =~= b.take(i as int).push(b[i as int]));
            }
        }
        if let Some(n) = n {
            out.push((n % 256) as u8);
        }
        i = i + 1;
    }
    assert(iv.take(iv.len() as int) == iv);
    proof {
        assert forall|b: Seq<u8>| iv == #[trigger] byte_texts(b) implies out@ == b by {
            assert(byte_texts(b).len() == b.len());
            assert(b.take(b.len() as int) =~= b);
        }
    }
    out
}

/// The column value for a JSON value; that for the value of a column is the column.
pub fn json_value_to_column_value(value: &Json) -> (r: ColumnValue)
    ensures
        r@ == column_of(value@),
        forall|c: ColumnView| value@ == #[trigger] value_for(c) ==> r@ == c,
{
    match value {
        Json::Null => ColumnValue::Null,
        Json::Bool(b) => ColumnValue::Integer(
            if *b {
                1
            } else {
                0
            },
        ),
        Json::Unsigned(n) => if *n <= i64::MAX as u64 {
            ColumnValue::Integer(*n as i64)
        } else {
            ColumnValue::Real(u64_text(*n))
        },
        Json::Negative(n) => ColumnValue::Integer(*n),
        Json::Real(t) => ColumnValue::Real(t.clone()),
        Json::Text(s) => ColumnValue::Text(s.clone()),
        Json::Array(items) => ColumnValue::Blob(read_blob(items)),
        Json::Object(m) => ColumnValue::Text(write_object(m)),
    }
}

pub open spec fn byte_texts(b: Seq<u8>) -> Seq<Seq<char>> {
    b.map_values(|x: u8| decimal(x as nat))
}

/// The JSON text for a column value: a blob is an array of numbers.
pub open spec fn column_json(c: ColumnView) -> Seq<char> {
    match c {
        ColumnView::Null => "null"@,
        ColumnView::Integer(n) => signed_decimal(n as int),
        ColumnView::Real(t) => t,
        ColumnView::Text(s) => quoted(s),
        ColumnView::Blob(b) => array_text(byte_texts(b)),
    }
}

/// The JSON text for a column value.
pub fn column_value_to_json(value: &ColumnValue) -> (r: String)
    ensures
        r@ == column_json(value@),
{
    match value {
        ColumnValue::Null => "null".to_owned(),
        ColumnValue::Integer(n) => i64_text(*n),
        ColumnValue::Real(t) => t.clone(),
        ColumnValue::Text(s) => quote(s),
        ColumnValue::Blob(b) => {
            let mut items: Vec<String> = Vec::new();
            let mut i: usize = 0;
            let ghost want = byte_texts(b@);
            while i < b.len()
                invariant
                    i <= b@.len(),
                    want == byte_texts(b@),
                    views(items@) == want.take(i as int),
                decreases b@.len() - i,
            {
                let t = u64_text(b[i] as u64);
                let ghost before = items@;
                items.push(t);
                assert(views(items@) =~= views(before).push(t@));
                assert(want.take(i + 1) =~= want.take(i as int).push(want[i as int]));
                i = i + 1;
            }
            assert(want.take(want.len() as int) == want);
            write_array(&items)
        },
    }
}

/// A column value that JSON can hold: the text of a real number is one that reads as itself.
pub open spec fn storable(c: ColumnView) -> bool {
    match c {
        ColumnView::Real(t) => json_of(t) == Ok::<JsonView, Seq<char>>(JsonView::Real(t)),
        _ => true,
    }
}

/// The column value for a JSON text. What a column value was written as is read back as that value.
pub fn read_column(text: &str) -> (r: ColumnValue)
    ensures
        r@ == column_of(value_of(text@)),
        forall|c: ColumnView| storable(c) && text@ == #[trigger] column_json(c) ==> r@ == c,
{
    let j = read_value(text);
    proof {
        assert forall|c: ColumnView| storable(c) && text@ == #[trigger] column_json(c) implies j@
            == value_for(c) by {
            match c {
                ColumnView::Integer(n) => {
                    if n >= 0 {
                        assert(signed_decimal(n as int) == decimal((n as u64) as nat));
                    }
                },
                ColumnView::Blob(b) => {
                    assert forall|i: int| 0 <= i < b.len() implies written(
                        #[trigger] byte_texts(b)[i],
                        8,
                    ) by {
                        assert(byte_texts(b)[i] == decimal((b[i] as u64) as nat));
                    }
                },
                _ => {},
            }
        }
    }
    json_value_to_column_value(&j)
}

// ---- Requests ----

pub struct D1Config {
    pub account_id: String,
    pub api_token: String,
    pub database_id: String,
}

/// Host-side state of a client resource.
pub struct D1ClientHandle {
    pub account_id: String,
    pub api_token: String,
    pub database_id: String,
}

pub open spec fn database_url(account_id: Seq<char>, database_id: Seq<char>, call: Seq<char>) -> Seq<
    char,
> {
    "https://api.cloudflare.com/client/v4/accounts/"@ + account_id + "/d1/database/"@ + database_id
        + call
}

impl D1ClientHandle {
    /// The value of the header that carries the token.
    pub fn authorization(&self) -> (r: String)
        ensures
            r@ == "Bearer "@ + self.api_token@,
    {
        cat2("Bearer ", &self.api_token)
    }

    /// Where single queries go.
    pub fn query_url(&self) -> (r: String)
        ensures
            r@ == database_url(self.account_id@, self.database_id@, "/query"@),
    {
        cat5(
            "https://api.cloudflare.com/client/v4/accounts/",
            &self.account_id,
            "/d1/database/",
            &self.database_id,
            "/query",
        )
    }

    /// Where batches go.
    pub fn batch_url(&self) -> (r: String)
        ensures
            r@ == database_url(self.account_id@, self.database_id@, "/raw"@),
    {
        cat5(
            "https://api.cloudflare.com/client/v4/accounts/",
            &self.account_id,
            "/d1/database/",
            &self.database_id,
            "/raw",
        )
    }
}

pub open spec fn param_texts(v: Seq<ColumnValue>) -> Seq<Seq<char>> {
    v.map_values(|c: ColumnValue| column_json(c@))
}

/// The body of a query: the parameters only where there are some.
pub open spec fn query_json(sql: Seq<char>, params: Seq<ColumnValue>) -> Seq<char> {
    let head = no_members().push(("sql"@, quoted(sql)));
    object_text(
        if params.len() == 0 {
            head
        } else {
            head.push(("params"@, array_text(param_texts(params))))
        },
    )
}

/// The body of a query.
pub fn query_body(sql: &str, params: &Vec<ColumnValue>) -> (r: String)
    ensures
        r@ == query_json(sql@, params@),
{
    let mut m = new_members();
    push_member(&mut m, "sql", quote(sql));
    if params.len() > 0 {
        let mut items: Vec<String> = Vec::new();
        let mut i: usize = 0;
        let ghost want = param_texts(params@);
        while i < params.len()
            invariant
                i <= params@.len(),
                want == param_texts(params@),
                views(items@) == want.take(i as int),
            decreases params@.len() - i,
        {
            let t = column_value_to_json(&params[i]);
            let ghost before = items@;
            items.push(t);
            assert(views(items@) =~= views(before).push(t@));
            assert(want.take(i + 1) =~= want.take(i as int).push(want[i as int]));
            i = i + 1;
        }
        assert(want.take(want.len() as int) == want);
        push_member(&mut m, "params", write_array(&items));
    }
    write_object(&m)
}

/// The body of a batch.
pub fn batch_body(sql: &str) -> (r: String)
    ensures
        r@ == object_text(no_members().push(("sql"@, quoted(sql@)))),
{
    let mut m = new_members();
    push_member(&mut m, "sql", quote(sql));
    write_object(&m)
}

// ---- Results ----

pub struct D1Meta {
    pub changes: Option<u64>,
    pub last_row_id: Option<i64>,
}

pub struct D1Error {
    pub code: Option<i32>,
    pub message: String,
}

/// The result of a query: rows with their columns in order.
pub struct D1Result {
    pub results: Vec<Vec<(String, Json)>>,
    pub meta: Option<D1Meta>,
}

pub struct D1Response {
    pub result: Vec<D1Result>,
    pub success: bool,
    pub errors: Vec<D1Error>,
}

/// The result of a statement of a batch: columns apart from the rows.
pub struct D1ResultRaw {
    pub columns: Vec<String>,
    pub rows: Vec<Vec<Json>>,
    pub meta: Option<D1Meta>,
}

pub struct D1ResponseRaw {
    pub result: Vec<D1ResultRaw>,
    pub success: bool,
    pub errors: Vec<D1Error>,
}

/// What became of a request.
pub enum Fetched<T> {
    SendFailed(String),
    ReadFailed(String),
    ParseFailed(String),
    Parsed(T),
}

/// The message of the first error.
pub open spec fn first_error(errors: Seq<D1Error>) -> Seq<char> {
    if errors.len() == 0 {
        "Unknown D1 error"@
    } else {
        signed_decimal(
            match errors[0].code {
                Some(c) => c as int,
                None => 0,
            },
        ) + ": "@ + errors[0].message@
    }
}

fn database_error(errors: &Vec<D1Error>) -> (r: QueryError)
    ensures
        r@ == QueryErrorView::DatabaseError(first_error(errors@)),
{
    if errors.len() == 0 {
        QueryError::DatabaseError("Unknown D1 error".to_owned())
    } else {
        let code = i64_text(
            match errors[0].code {
                Some(c) => c as i64,
                None => 0,
            },
        );
        QueryError::DatabaseError(cat3(&code, ": ", &errors[0].message))
    }
}

/// Why a request failed before its answer could be read.
pub open spec fn fetch_error<T>(f: Fetched<T>) -> Option<QueryErrorView> {
    match f {
        Fetched::SendFailed(e) => Some(
            QueryErrorView::ConnectionError("HTTP request failed: "@ + e@),
        ),
        Fetched::ReadFailed(e) => Some(
            QueryErrorView::Unexpected("Read HTTP response failed: "@ + e@),
        ),
        Fetched::ParseFailed(e) => Some(
            QueryErrorView::Unexpected("Failed to parse response: "@ + e@),
        ),
        Fetched::Parsed(_) => None,
    }
}

fn take_parsed<T>(f: Fetched<T>) -> (r: Result<T, QueryError>)
    ensures
        match r {
            Ok(t) => f == Fetched::Parsed(t),
            Err(e) => fetch_error(f) == Some(e@),
        },
{
    match f {
        Fetched::SendFailed(e) => Err(
            QueryError::ConnectionError(cat2("HTTP request failed: ", &e)),
        ),
        Fetched::ReadFailed(e) => Err(
            QueryError::Unexpected(cat2("Read HTTP response failed: ", &e)),
        ),
        Fetched::ParseFailed(e) => Err(
            QueryError::Unexpected(cat2("Failed to parse response: ", &e)),
        ),
        Fetched::Parsed(t) => Ok(t),
    }
}

pub open spec fn changes_of(m: Option<D1Meta>) -> u64 {
    match m {
        Some(x) => match x.changes {
            Some(n) => n,
            None => 0,
        },
        None => 0,
    }
}

pub open spec fn row_id_of(m: Option<D1Meta>) -> Option<i64> {
    match m {
        Some(x) => x.last_row_id,
        None => None,
    }
}

fn meta_numbers(m: &Option<D1Meta>) -> (r: (u64, Option<i64>))
    ensures
        r.0 == changes_of(*m),
        r.1 == row_id_of(*m),
{
    match m {
        Some(x) => (
            match x.changes {
                Some(n) => n,
                None => 0,
            },
            x.last_row_id,
        ),
        None => (0, None),
    }
}

pub open spec fn column_names(c: Seq<ColumnMeta>) -> Seq<Seq<char>> {
    c.map_values(|m: ColumnMeta| m.name@)
}

/// The columns by their names, of no known type.
pub open spec fn columns_are(c: Seq<ColumnMeta>, names: Seq<Seq<char>>) -> bool {
    &&& column_names(c) == names
    &&& forall|i: int| 0 <= i < c.len() ==> (#[trigger] c[i]).column_type is None
}

/// The column values for JSON values.
pub open spec fn columns_of(values: Seq<Json>) -> Seq<ColumnView> {
    values.map_values(|j: Json| column_of(j@))
}

pub open spec fn row_keys(row: Seq<(String, Json)>) -> Seq<Seq<char>> {
    row.map_values(|e: (String, Json)| e.0@)
}

pub open spec fn row_values(row: Seq<(String, Json)>) -> Seq<Json> {
    row.map_values(|e: (String, Json)| e.1)
}

/// `q` is the first result of a response: its columns are those of the first row.
pub open spec fn is_query_result(q: QueryResult, results: Seq<D1Result>) -> bool {
    if results.len() == 0 {
        q.columns@.len() == 0 && q.rows@.len() == 0 && q.rows_affected == 0 && q.last_insert_rowid
            is None
    } else {
        let r = results[0];
        &&& columns_are(
            q.columns@,
            if r.results@.len() == 0 {
                Seq::<Seq<char>>::empty()
            } else {
                row_keys(r.results@[0]@)
            },
        )
        &&& q.rows@.len() == r.results@.len()
        &&& forall|i: int|
            0 <= i < q.rows@.len() ==> value_views((#[trigger] q.rows@[i]).values@) == columns_of(
                row_values(r.results@[i]@),
            )
        &&& q.rows_affected == changes_of(r.meta)
        &&& q.last_insert_rowid == row_id_of(r.meta)
    }
}

fn read_values(row: &Vec<(String, Json)>) -> (r: Vec<ColumnValue>)
    ensures
        value_views(r@) == columns_of(row_values(row@)),
{
    let mut out: Vec<ColumnValue> = Vec::new();
    let mut i: usize = 0;
    let ghost want = columns_of(row_values(row@));
    while i < row.len()
        invariant
            i <= row@.len(),
            want == columns_of(row_values(row@)),
            value_views(out@) == want.take(i as int),
        decreases row@.len() - i,
    {
        let c = json_value_to_column_value(&row[i].1);
        let ghost before = out@;
        out.push(c);
        assert(value_views(out@) =~= value_views(before).push(c@));
        assert(row_values(row@)[i as int] == row@[i as int].1);
        assert(want.take(i + 1) =~= want.take(i as int).push(want[i as int]));
        i = i + 1;
    }
    assert(want.take(want.len() as int) == want);
    out
}

fn key_columns(row: &Vec<(String, Json)>) -> (r: Vec<ColumnMeta>)
    ensures
        columns_are(r@, row_keys(row@)),
{
    let mut out: Vec<ColumnMeta> = Vec::new();
    let mut i: usize = 0;
    let ghost want = row_keys(row@);
    assert(column_names(out@) =~= want.take(0));
    while i < row.len()
        invariant
            i <= row@.len(),
            want == row_keys(row@),
            columns_are(out@, want.take(i as int)),
        decreases row@.len() - i,
    {
        let m = ColumnMeta { name: row[i].0.clone(), column_type: None };
        let ghost before = out@;
        out.push(m);
        assert(column_names(out@) =~= column_names(before).push(m.name@));
        assert(want.take(i + 1) =~= want.take(i as int).push(want[i as int]));
        i = i + 1;
    }
    assert(want.take(want.len() as int) == want);
    out
}

/// The result of a query, given what became of its request.
pub fn query(fetched: Fetched<D1Response>) -> (r: Result<QueryResult, QueryError>)
    ensures
        match fetched {
            Fetched::Parsed(d) => if d.success {
                r is Ok && is_query_result(r->Ok_0, d.result@)
            } else {
                r is Err && r->Err_0@ == QueryErrorView::DatabaseError(first_error(d.errors@))
            },
            _ => r is Err && fetch_error(fetched) == Some(r->Err_0@),
        },
{
    let response = match take_parsed(fetched) {
        Ok(d) => d,
        Err(e) => {
            return Err(e);
        },
    };
    if !response.success {
        return Err(database_error(&response.errors));
    }
    if response.result.len() == 0 {
        return Ok(
            QueryResult {
                columns: Vec::new(),
                rows: Vec::new(),
                rows_affected: 0,
                last_insert_rowid: None,
            },
        );
    }
    let result = &response.result[0];
    let columns = if result.results.len() == 0 {
        let none: Vec<ColumnMeta> = Vec::new();
        assert(column_names(none@) =~= Seq::<Seq<char>>::empty());
        none
    } else {
        key_columns(&result.results[0])
    };
    let mut rows: Vec<ResultRow> = Vec::new();
    let mut i: usize = 0;
    while i < result.results.len()
        invariant
            i <= result.results@.len(),
            rows@.len() == i,
            forall|k: int|
                0 <= k < i ==> value_views((#[trigger] rows@[k]).values@) == columns_of(
                    row_values(result.results@[k]@),
                ),
        decreases result.results@.len() - i,
    {
        let values = read_values(&result.results[i]);
        rows.push(ResultRow { values });
        i = i + 1;
    }
    let (rows_affected, last_insert_rowid) = meta_numbers(&result.meta);
    Ok(QueryResult { columns, rows, rows_affected, last_insert_rowid })
}

/// The first row of a query.
pub fn query_one(fetched: Fetched<D1Response>) -> (r: Result<Option<ResultRow>, QueryError>)
    ensures
        match fetched {
            Fetched::Parsed(d) => if d.success {
                r is Ok && match r->Ok_0 {
                    Some(row) => d.result@.len() > 0 && d.result@[0].results@.len() > 0
                        && value_views(row.values@) == columns_of(
                        row_values(d.result@[0].results@[0]@),
                    ),
                    None => d.result@.len() == 0 || d.result@[0].results@.len() == 0,
                }
            } else {
                r is Err && r->Err_0@ == QueryErrorView::DatabaseError(first_error(d.errors@))
            },
            _ => r is Err && fetch_error(fetched) == Some(r->Err_0@),
        },
{
    match query(fetched) {
        Err(e) => Err(e),
        Ok(q) => {
            let mut rows = q.rows;
            if rows.len() == 0 {
                Ok(None)
            } else {
                Ok(Some(rows.remove(0)))
            }
        },
    }
}

/// `q` is the result of a statement of a batch.
pub open spec fn is_batch_result(q: QueryResult, r: D1ResultRaw) -> bool {
    &&& columns_are(q.columns@, views(r.columns@))
    &&& q.rows@.len() == r.rows@.len()
    &&& forall|i: int|
        0 <= i < q.rows@.len() ==> value_views((#[trigger] q.rows@[i]).values@) == columns_of(
            r.rows@[i]@,
        )
    &&& q.rows_affected == changes_of(r.meta)
    &&& q.last_insert_rowid == row_id_of(r.meta)
}

fn read_row(row: &Vec<Json>) -> (r: Vec<ColumnValue>)
    ensures
        value_views(r@) == columns_of(row@),
{
    let mut out: Vec<ColumnValue> = Vec::new();
    let mut i: usize = 0;
    let ghost want = columns_of(row@);
    while i < row.len()
        invariant
            i <= row@.len(),
            want == columns_of(row@),
            value_views(out@) == want.take(i as int),
        decreases row@.len() - i,
    {
        let c = json_value_to_column_value(&row[i]);
        let ghost before = out@;
        out.push(c);
        assert(value_views(out@) =~= value_views(before).push(c@));
        assert(want.take(i + 1) =~= want.take(i as int).push(want[i as int]));
        i = i + 1;
    }
    assert(want.take(want.len() as int) == want);
    out
}

fn name_columns(names: &Vec<String>) -> (r: Vec<ColumnMeta>)
    ensures
        columns_are(r@, views(names@)),
{
    let mut out: Vec<ColumnMeta> = Vec::new();
    let mut i: usize = 0;
    let ghost want = views(names@);
    assert(column_names(out@) =~= want.take(0));
    while i < names.len()
        invariant
            i <= names@.len(),
            want == views(names@),
            columns_are(out@, want.take(i as int)),
        decreases names@.len() - i,
    {
        let m = ColumnMeta { name: names[i].clone(), column_type: None };
        let ghost before = out@;
        out.push(m);
        assert(column_names(out@) =~= column_names(before).push(m.name@));
        assert(want.take(i + 1) =~= want.take(i as int).push(want[i as int]));
        i = i + 1;
    }
    assert(want.take(want.len() as int) == want);
    out
}

fn batch_result(result: &D1ResultRaw) -> (r: QueryResult)
    ensures
        is_batch_result(r, *result),
{
    let columns = name_columns(&result.columns);
    let mut rows: Vec<ResultRow> = Vec::new();
    let mut i: usize = 0;
    while i < result.rows.len()
        invariant
            i <= result.rows@.len(),
            rows@.len() == i,
            forall|k: int|
                0 <= k < i ==> value_views((#[trigger] rows@[k]).values@) == columns_of(
                    result.rows@[k]@,
                ),
        decreases result.rows@.len() - i,
    {
        let values = read_row(&result.rows[i]);
        rows.push(ResultRow { values });
        i = i + 1;
    }
    let (rows_affected, last_insert_rowid) = meta_numbers(&result.meta);
    QueryResult { columns, rows, rows_affected, last_insert_rowid }
}

/// The results of a batch, one for each statement, given what became of its request.
pub fn query_batch(fetched: Fetched<D1ResponseRaw>) -> (r: Result<Vec<QueryResult>, QueryError>)
    ensures
        match fetched {
            Fetched::Parsed(d) => if d.success {
                &&& r is Ok
                &&& r->Ok_0@.len() == d.result@.len()
                &&& forall|i: int|
                    0 <= i < d.result@.len() ==> is_batch_result(
                        #[trigger] r->Ok_0@[i],
                        d.result@[i],
                    )
            } else {
                r is Err && r->Err_0@ == QueryErrorView::DatabaseError(first_error(d.errors@))
            },
            _ => r is Err && fetch_error(fetched) == Some(r->Err_0@),
        },
{
    let response = match take_parsed(fetched) {
        Ok(d) => d,
        Err(e) => {
            return Err(e);
        },
    };
    if !response.success {
        return Err(database_error(&response.errors));
    }
    let mut out: Vec<QueryResult> = Vec::new();
    let mut i: usize = 0;
    while i < response.result.len()
        invariant
            i <= response.result@.len(),
            out@.len() == i,
            forall|k: int|
                0 <= k < i ==> is_batch_result(#[trigger] out@[k], response.result@[k]),
        decreases response.result@.len() - i,
    {
        out.push(batch_result(&response.result[i]));
        i = i + 1;
    }
    Ok(out)
}

// ---- Plugin ----

pub struct ComponentData {
    pub interface_config: Config,
}

pub struct CloudflareD1 {
    pub tracker: Tracker<ComponentData>,
}

/// What the guest passed for a setting.
pub open spec fn passed(config: Option<D1Config>, which: int) -> Option<Seq<char>> {
    match config {
        None => None,
        Some(c) => Some(
            if which == 0 {
                c.account_id@
            } else if which == 1 {
                c.api_token@
            } else {
                c.database_id@
            },
        ),
    }
}

/// The account, the token and the database of a client, or the message of the failure.
pub open spec fn client_settings(
    o: Option<Owned<ComponentData>>,
    config: Option<D1Config>,
) -> Result<(Seq<char>, Seq<char>, Seq<char>), Seq<char>> {
    match o {
        None => Err("component not tracked"@),
        Some(c) => {
            let m = c.data.interface_config@;
            match resolved(passed(config, 0), m, "account_id"@) {
                None => Err("missing account_id: provide via constructor or interface config"@),
                Some(account) => match resolved(passed(config, 1), m, "api_token"@) {
                    None => Err("missing api_token: provide via constructor or interface config"@),
                    Some(token) => match resolved(passed(config, 2), m, "database_id"@) {
                        None => Err(
                            "missing database_id: provide via constructor or interface config"@,
                        ),
                        Some(database) => Ok((account, token, database)),
                    },
                },
            }
        },
    }
}

impl CloudflareD1 {
    pub fn new() -> (r: CloudflareD1)
        ensures
            r.tracker@ == Map::<Seq<char>, Owned<ComponentData>>::empty(),
    {
        CloudflareD1 { tracker: Table::new() }
    }

    pub fn id(&self) -> (r: &'static str)
        ensures
            r@ == "cf-d1"@,
    {
        PLUGIN_ID
    }

    pub fn world(&self) -> (r: WitWorld)
        ensures
            r.imports@.len() == 0,
            r.exports@.len() == 1,
            r.exports@[0].names("custom"@, "cf-d1"@, seq!["query"@], "0.1.0"@),
    {
        let mut exports: Vec<WitInterface> = Vec::new();
        exports.push(WitInterface::of("custom", "cf-d1", one("query"), "0.1.0"));
        WitWorld { imports: Vec::new(), exports }
    }

    /// Begins to track a component that brings a `custom:cf-d1` interface.
    pub fn on_workload_item_bind(
        &mut self,
        component_id: &str,
        workload_id: &str,
        is_component: bool,
        interfaces: &Vec<WitInterface>,
    ) -> (bound: bool)
        ensures
            bound == (is_component && first_of_package(interfaces@, "custom"@, "cf-d1"@) is Some),
            !bound ==> final(self).tracker@ == old(self).tracker@,
            bound ==> put_at(old(self).tracker@, final(self).tracker@, component_id@) && ({
                let o = final(self).tracker@[component_id@];
                &&& o.workload_id@ == workload_id@
                &&& o.data.interface_config@ == first_of_package(
                    interfaces@,
                    "custom"@,
                    "cf-d1"@,
                )->0.config@
            }),
    {
        if let Some(interface_config) = bound_config(interfaces, "custom", "cf-d1") {
            if is_component {
                let owned = Owned {
                    workload_id: workload_id.to_owned(),
                    data: ComponentData { interface_config },
                };
                proof {
                    lemma_put(self.tracker@, component_id@, owned);
                }
                self.tracker.insert(component_id.to_owned(), owned);
                return true;
            }
        }
        false
    }

    /// Forgets the components of a workload.
    pub fn on_workload_unbind(&mut self, workload_id: &str)
        ensures
            final(self).tracker@ == outside_workload(old(self).tracker@, workload_id@),
    {
        let _ = self.tracker.remove_workload(workload_id);
    }

    /// A client for a component: what the guest passes goes before the static configuration.
    pub fn new_client(&self, component_id: &str, config: Option<D1Config>) -> (r: Result<
        D1ClientHandle,
        String,
    >)
        ensures
            match r {
                Ok(h) => client_settings(lookup(self.tracker@, component_id@), config) == Ok::<
                    (Seq<char>, Seq<char>, Seq<char>),
                    Seq<char>,
                >((h.account_id@, h.api_token@, h.database_id@)),
                Err(e) => client_settings(lookup(self.tracker@, component_id@), config) == Err::<
                    (Seq<char>, Seq<char>, Seq<char>),
                    Seq<char>,
                >(e@),
            },
    {
        let data = match self.tracker.get(component_id) {
            None => {
                return Err("component not tracked".to_owned());
            },
            Some(o) => &o.data,
        };
        let (account, token, database) = match config {
            Some(c) => (Some(c.account_id), Some(c.api_token), Some(c.database_id)),
            None => (None, None, None),
        };
        let account_id = match resolve_field(account, &data.interface_config, "account_id") {
            Some(v) => v,
            None => {
                return Err(
                    "missing account_id: provide via constructor or interface config".to_owned(),
                );
            },
        };
        let api_token = match resolve_field(token, &data.interface_config, "api_token") {
            Some(v) => v,
            None => {
                return Err(
                    "missing api_token: provide via constructor or interface config".to_owned(),
                );
            },
        };
        let database_id = match resolve_field(database, &data.interface_config, "database_id") {
            Some(v) => v,
            None => {
                return Err(
                    "missing database_id: provide via constructor or interface config".to_owned(),
                );
            },
        };
        Ok(D1ClientHandle { account_id, api_token, database_id })
    }
}

impl Default for CloudflareD1 {
    fn default() -> (r: CloudflareD1)
        ensures
            r.tracker@ == Map::<Seq<char>, Owned<ComponentData>>::empty(),
    {
        CloudflareD1::new()
    }
}

// ---- Laws ----

/// What the guest passes to the constructor decides, whatever the static configuration holds.
pub proof fn constructor_config_has_priority(o: Owned<ComponentData>, config: D1Config)
    ensures
        client_settings(Some(o), Some(config)) == Ok::<(Seq<char>, Seq<char>, Seq<char>), Seq<char>>(
            (config.account_id@, config.api_token@, config.database_id@),
        ),
{
}

/// The value of a column, by the value in the answer: numbers that do not fit are kept as text of a
/// real, truth is one or nought, a list is its bytes and an object its own text.
pub proof fn columns_by_their_value(b: bool, n: u64, k: i64, t: Seq<char>, m: Seq<(Seq<char>, Seq<char>)>)
    ensures
        column_of(JsonView::Null) is Null,
        column_of(JsonView::Bool(true)) == ColumnView::Integer(1),
        column_of(JsonView::Bool(false)) == ColumnView::Integer(0),
        n <= 0x7fff_ffff_ffff_ffff ==> column_of(JsonView::Unsigned(n)) == ColumnView::Integer(
            n as i64,
        ),
        n > 0x7fff_ffff_ffff_ffff ==> column_of(JsonView::Unsigned(n)) == ColumnView::Real(
            decimal(n as nat),
        ),
        column_of(JsonView::Negative(k)) == ColumnView::Integer(k),
        column_of(JsonView::Real(t)) == ColumnView::Real(t),
        column_of(JsonView::Text(t)) == ColumnView::Text(t),
        column_of(JsonView::Object(m)) == ColumnView::Text(object_text(m)),
{
}

/// A list is the bytes of its numbers, in order, each by its lowest eight bits; what is no number is
/// passed over.
pub proof fn lists_are_bytes(items: Seq<Seq<char>>, more: Seq<char>)
    ensures
        column_of(JsonView::Array(items)) == ColumnView::Blob(blob_of(items)),
        match json_of(more) {
            Ok(JsonView::Unsigned(n)) => blob_of(items.push(more)).len() == blob_of(items).len() + 1
                && blob_of(items.push(more)).drop_last() == blob_of(items) && blob_of(
                items.push(more),
            ).last() == n % 256,
            _ => blob_of(items.push(more)) == blob_of(items),
        },
        blob_of(Seq::<Seq<char>>::empty()).len() == 0,
{
    assert(items.push(more).drop_last() =~= items);
    match json_of(more) {
        Ok(JsonView::Unsigned(n)) => {
            assert(blob_of(items.push(more)).drop_last() =~= blob_of(items));
        },
        _ => {},
    }
}

/// A value is written as JSON has it, and bytes as the list of their numbers.
pub proof fn values_are_written_as_json(n: i64, t: Seq<char>, b: Seq<u8>)
    ensures
        column_json(ColumnView::Null) == "null"@,
        n >= 0 ==> column_json(ColumnView::Integer(n)) == decimal(n as nat),
        n < 0 ==> column_json(ColumnView::Integer(n)) == seq!['-'] + decimal((-n) as nat),
        column_json(ColumnView::Real(t)) == t,
        column_json(ColumnView::Text(t)) == quoted(t),
        column_json(ColumnView::Blob(b)) == array_text(byte_texts(b)),
        byte_texts(b).len() == b.len(),
        forall|i: int| 0 <= i < b.len() ==> #[trigger] byte_texts(b)[i] == decimal(b[i] as nat),
{
}

/// The JSON of an integer, a text or null stands for that value again.
pub proof fn values_are_their_own(c: ColumnView)
    requires
        c is Null || c is Integer || c is Text || c is Real,
    ensures
        column_of(value_for(c)) == c,
        match c {
            ColumnView::Integer(n) => value_for(c) == if n < 0 {
                JsonView::Negative(n)
            } else {
                JsonView::Unsigned(n as u64)
            },
            ColumnView::Text(s) => value_for(c) == JsonView::Text(s),
            ColumnView::Real(t) => value_for(c) == JsonView::Real(t),
            _ => value_for(c) is Null,
        },
{
}

/// A query is an object with its text, and its parameters where it has any, in order.
pub proof fn queries_hold_their_parameters(sql: Seq<char>, params: Seq<ColumnValue>) -> (m: Seq<
    (Seq<char>, Seq<char>),
>)
    ensures
        query_json(sql, params) == object_text(m),
        m[0] == ("sql"@, quoted(sql)),
        params.len() == 0 ==> m.len() == 1,
        params.len() > 0 ==> m.len() == 2 && m[1] == ("params"@, array_text(param_texts(params))),
        param_texts(params).len() == params.len(),
        forall|i: int|
            0 <= i < params.len() ==> #[trigger] param_texts(params)[i] == column_json(params[i]@),
{
    let head = no_members().push(("sql"@, quoted(sql)));
    if params.len() == 0 {
        head
    } else {
        head.push(("params"@, array_text(param_texts(params))))
    }
}

/// Calls go to the database of the account.
pub proof fn calls_go_to_the_database(account: Seq<char>, database: Seq<char>, call: Seq<char>)
    ensures
        database_url(account, database, call) == "https://api.cloudflare.com/client/v4/accounts/"@
            + account + "/d1/database/"@ + database + call,
{
}

/// An answer that failed is told by its first error, with its code, or nought where it has none.
pub proof fn the_first_error_is_told(errors: Seq<D1Error>)
    ensures
        errors.len() == 0 ==> first_error(errors) == "Unknown D1 error"@,
        errors.len() > 0 && errors[0].code is Some ==> first_error(errors) == signed_decimal(
            errors[0].code->0 as int,
        ) + ": "@ + errors[0].message@,
        errors.len() > 0 && errors[0].code is None ==> first_error(errors) == signed_decimal(0)
            + ": "@ + errors[0].message@,
{
}

/// What went wrong on the way is told by where it did.
pub proof fn failed_fetches_are_told<T>(f: Fetched<T>)
    ensures
        match f {
            Fetched::SendFailed(e) => fetch_error(f) == Some(
                QueryErrorView::ConnectionError("HTTP request failed: "@ + e@),
            ),
            Fetched::ReadFailed(e) => fetch_error(f) == Some(
                QueryErrorView::Unexpected("Read HTTP response failed: "@ + e@),
            ),
            Fetched::ParseFailed(e) => fetch_error(f) == Some(
                QueryErrorView::Unexpected("Failed to parse response: "@ + e@),
            ),
            Fetched::Parsed(_) => fetch_error(f) is None,
        },
{
}

/// The result of a query is that of its first statement: its rows in order, each with its values in
/// order, the columns by the names in the first row, and what it changed.
pub proof fn results_are_those_of_the_first(q: QueryResult, results: Seq<D1Result>, i: int, k: int)
    requires
        is_query_result(q, results),
    ensures
        results.len() == 0 ==> q.rows@.len() == 0 && q.columns@.len() == 0 && q.rows_affected == 0
            && q.last_insert_rowid is None,
        results.len() > 0 ==> {
            let rows = results[0].results@;
            &&& q.rows@.len() == rows.len()
            &&& 0 <= i < rows.len() ==> q.rows@[i].values@.len() == rows[i]@.len()
            &&& 0 <= i < rows.len() && 0 <= k < rows[i]@.len() ==> q.rows@[i].values@[k]@ == column_of(
                rows[i]@[k].1@,
            )
            &&& rows.len() == 0 ==> q.columns@.len() == 0
            &&& rows.len() > 0 ==> q.columns@.len() == rows[0]@.len()
            &&& rows.len() > 0 && 0 <= k < rows[0]@.len() ==> q.columns@[k].name@ == rows[0]@[k].0@
                && q.columns@[k].column_type is None
            &&& match results[0].meta {
                Some(x) => q.last_insert_rowid == x.last_row_id && q.rows_affected == match x.changes {
                    Some(n) => n,
                    None => 0,
                },
                None => q.last_insert_rowid is None && q.rows_affected == 0,
            }
        },
{
    if results.len() > 0 {
        let rows = results[0].results@;
        if 0 <= i < rows.len() {
            let v = value_views(q.rows@[i].values@);
            let w = columns_of(row_values(rows[i]@));
            assert(v == w);
            assert(v.len() == q.rows@[i].values@.len() && w.len() == rows[i]@.len());
            if 0 <= k < rows[i]@.len() {
                assert(v[k] == q.rows@[i].values@[k]@);
                assert(w[k] == column_of(rows[i]@[k].1@));
            }
        }
        let names = column_names(q.columns@);
        assert(names.len() == q.columns@.len());
        if rows.len() > 0 {
            assert(names == row_keys(rows[0]@));
            if 0 <= k < rows[0]@.len() {
                assert(names[k] == q.columns@[k].name@);
                assert(row_keys(rows[0]@)[k] == rows[0]@[k].0@);
            }
        }
    }
}

/// The result of a statement of a batch: its own columns, its rows in order with their values in
/// order, and what it changed.
pub proof fn batch_results_are_their_own(q: QueryResult, r: D1ResultRaw, i: int, k: int)
    requires
        is_batch_result(q, r),
    ensures
        q.columns@.len() == r.columns@.len(),
        0 <= k < r.columns@.len() ==> q.columns@[k].name@ == r.columns@[k]@
            && q.columns@[k].column_type is None,
        q.rows@.len() == r.rows@.len(),
        0 <= i < r.rows@.len() ==> q.rows@[i].values@.len() == r.rows@[i]@.len(),
        0 <= i < r.rows@.len() && 0 <= k < r.rows@[i]@.len() ==> q.rows@[i].values@[k]@ == column_of(
            r.rows@[i]@[k]@,
        ),
        match r.meta {
            Some(x) => q.last_insert_rowid == x.last_row_id && q.rows_affected == match x.changes {
                Some(n) => n,
                None => 0,
            },
            None => q.last_insert_rowid is None && q.rows_affected == 0,
        },
{
    let names = column_names(q.columns@);
    assert(names.len() == q.columns@.len() && views(r.columns@).len() == r.columns@.len());
    if 0 <= k < r.columns@.len() {
        assert(names[k] == q.columns@[k].name@);
        assert(views(r.columns@)[k] == r.columns@[k]@);
    }
    if 0 <= i < r.rows@.len() {
        let v = value_views(q.rows@[i].values@);
        let w = columns_of(r.rows@[i]@);
        assert(v == w);
        assert(v.len() == q.rows@[i].values@.len() && w.len() == r.rows@[i]@.len());
        if 0 <= k < r.rows@[i]@.len() {
            assert(v[k] == q.rows@[i].values@[k]@);
            assert(w[k] == column_of(r.rows@[i]@[k]@));
        }
    }
}

/// Without settings of the guest's, a client takes the configured account, token and database; the
/// first that is missing is named, and so is a component that is not tracked.
pub proof fn static_config_fills_the_gaps(o: Option<Owned<ComponentData>>)
    ensures
        ({
            let m = o->0.data.interface_config@;
            match client_settings(o, None) {
                Ok(c) => o is Some && m.contains_key("account_id"@) && c.0 == m["account_id"@]@
                    && m.contains_key("api_token"@) && c.1 == m["api_token"@]@ && m.contains_key(
                    "database_id"@,
                ) && c.2 == m["database_id"@]@,
                Err(e) => if o is None {
                    e == "component not tracked"@
                } else if !m.contains_key("account_id"@) {
                    e == "missing account_id: provide via constructor or interface config"@
                } else if !m.contains_key("api_token"@) {
                    e == "missing api_token: provide via constructor or interface config"@
                } else {
                    !m.contains_key("database_id"@) && e
                        == "missing database_id: provide via constructor or interface config"@
                },
            }
        }),
{
}

/// The plugin goes by its own name, and takes and gives the interfaces of its own package.
pub proof fn the_plugin_and_its_world(p: CloudflareD1, id: &'static str, w: WitWorld)
    requires
        call_ensures(CloudflareD1::id, (&p,), id),
        call_ensures(CloudflareD1::world, (&p,), w),
    ensures
        id@ == "cf-d1"@,
        w.imports@.len() == 0,
        w.exports@.len() == 1,
        w.exports@[0].names("custom"@, "cf-d1"@, seq!["query"@], "0.1.0"@),
{
}

/// Calls are made to the client's own database, with its own token: queries to one address, batches
/// to the other.
pub proof fn calls_are_the_clients(h: D1ClientHandle, a: String, b: String, c: String)
    requires
        call_ensures(D1ClientHandle::authorization, (&h,), a),
        call_ensures(D1ClientHandle::query_url, (&h,), b),
        call_ensures(D1ClientHandle::batch_url, (&h,), c),
    ensures
        a@ == "Bearer "@ + h.api_token@,
        b@ == "https://api.cloudflare.com/client/v4/accounts/"@ + h.account_id@ + "/d1/database/"@
            + h.database_id@ + "/query"@,
        c@ == "https://api.cloudflare.com/client/v4/accounts/"@ + h.account_id@ + "/d1/database/"@
            + h.database_id@ + "/raw"@,
{
}

/// A query that succeeds has its result, one that the database refuses its first error, and one that
/// did not get there says where it stopped.
pub proof fn queries_are_answered(
    f: Fetched<D1Response>,
    r: Result<QueryResult, QueryError>,
    one: Result<Option<ResultRow>, QueryError>,
)
    requires
        call_ensures(query, (f,), r),
        call_ensures(query_one, (f,), one),
    ensures
        match f {
            Fetched::Parsed(d) => {
                &&& d.success <==> r is Ok
                &&& d.success <==> one is Ok
                &&& !d.success ==> r->Err_0@ == QueryErrorView::DatabaseError(first_error(d.errors@))
                    && one->Err_0@ == r->Err_0@
                &&& d.success ==> (one->Ok_0 is Some <==> d.result@.len() > 0
                    && d.result@[0].results@.len() > 0)
                &&& d.success && d.result@.len() > 0 ==> r->Ok_0.rows@.len()
                    == d.result@[0].results@.len()
            },
            Fetched::SendFailed(e) => r is Err && one is Err && r->Err_0@
                == QueryErrorView::ConnectionError("HTTP request failed: "@ + e@) && one->Err_0@
                == r->Err_0@,
            Fetched::ReadFailed(e) => r is Err && one is Err && r->Err_0@
                == QueryErrorView::Unexpected("Read HTTP response failed: "@ + e@) && one->Err_0@
                == r->Err_0@,
            Fetched::ParseFailed(e) => r is Err && one is Err && r->Err_0@
                == QueryErrorView::Unexpected("Failed to parse response: "@ + e@) && one->Err_0@
                == r->Err_0@,
        },
{
}

/// The one row of a query is the first row of its result.
pub proof fn the_one_row_is_the_first(
    f: Fetched<D1Response>,
    r: Result<QueryResult, QueryError>,
    one: Result<Option<ResultRow>, QueryError>,
)
    requires
        call_ensures(query, (f,), r),
        call_ensures(query_one, (f,), one),
        one is Ok && one->Ok_0 is Some,
    ensures
        r is Ok && r->Ok_0.rows@.len() > 0,
        value_views(one->Ok_0->0.values@) == value_views(r->Ok_0.rows@[0].values@),
{
}

/// A component that has an interface of the package is tracked for its workload, as one that has just
/// been bound; any other is not, and nothing else changes.
pub proof fn components_are_bound_for_their_workload(
    p: &mut CloudflareD1,
    id: &str,
    workload: &str,
    is_component: bool,
    interfaces: &Vec<WitInterface>,
    bound: bool,
    other: Seq<char>,
)
    requires
        call_ensures(
            CloudflareD1::on_workload_item_bind,
            (p, id, workload, is_component, interfaces),
            bound,
        ),
        other != id@,
    ensures
        bound <==> is_component && first_of_package(interfaces@, "custom"@, "cf-d1"@) is Some,
        !bound ==> final(p).tracker@ == old(p).tracker@,
        lookup(final(p).tracker@, other) == lookup(old(p).tracker@, other),
        bound ==> {
            let o = final(p).tracker@[id@];
            &&& final(p).tracker@.contains_key(id@)
            &&& o.workload_id@ == workload@
            &&& o.data.interface_config@ == first_of_package(interfaces@, "custom"@, "cf-d1"@)->0.config@
        },
{
    if bound {
        crate::table::putting_leaves_the_others(old(p).tracker@, final(p).tracker@, id@, other);
    }
}

/// Every value but a real can be stored; a real can where its text is read as that real.
pub proof fn values_can_be_stored(c: ColumnView)
    ensures
        !(c is Real) ==> storable(c),
        c is Real ==> (storable(c) <==> json_of(c->Real_0) is Ok && json_of(c->Real_0)->Ok_0
            == JsonView::Real(c->Real_0)),
{
}

} // verus!
