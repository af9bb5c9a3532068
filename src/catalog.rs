use vstd::prelude::*;
use vstd::string::*;

use crate::conn::{append_signed_decimal, signed_decimal};
use crate::error::TransferError;
use crate::table::TableWithRowsCount;

verus! {

/// A catalog dialect that table discovery can query, in the order tried.
#[derive(PartialEq, Eq, Structural, Clone, Copy, Debug)]
pub enum Dialect {
    /// A Postgres-compatible catalog beside the server's own views, with
    /// accurate row estimates.
    PgCompat,
    /// The server's own partition statistics.
    Native,
    /// The standard `information_schema`, which knows no row counts.
    Ansi,
}

/// Tables with row estimates from a Postgres-compatible catalog; a table
/// never analyzed (`-1`) counts as empty.
pub const PG_COMPAT_QUERY: &'static str = "select
    schema_name(tb.schema_id) as table_schema,
    tb.name as table_name,
    case
        when pc.reltuples is null then cast(-1 as bigint)
        when pc.reltuples = -1 then cast(0 as bigint)
        else cast(pc.reltuples as bigint)
    end as row_count
from sys.tables as tb
left join pg_catalog.pg_class pc
  on pc.relnamespace = tb.schema_id
  and pc.relname = tb.name
where
    pc.relkind in ('r', 'f', 'p')";

/// Tables with row counts from the partition statistics.
pub const NATIVE_QUERY: &'static str = "select
    schema_name(tb.schema_id) as table_schema,
    tb.name as table_name,
    case
        when st.row_count is null then cast(-1 as bigint)
        else st.row_count
    end as row_count
from sys.tables as tb
left join sys.dm_db_partition_stats as st
    on tb.object_id = st.object_id
where
    tb.type_desc = 'USER_TABLE'
    and st.index_id IN (0, 1)";

/// The base tables of a database from `information_schema`; the database
/// name is bound to `@P1`.
pub const ANSI_QUERY: &'static str = "select
    table_schema,
    table_name,
    cast(-1 as bigint) as row_count
from information_schema.tables
where table_type = 'BASE TABLE'
and table_catalog = @P1";

/// The query of a dialect, and whether the database name is bound to it.
pub struct CatalogQuery {
    pub sql: String,
    pub bind_dbname: bool,
}

/// The dialect that discovery tries after `d` has failed.
pub open spec fn next_dialect(d: Dialect) -> Option<Dialect> {
    match d {
        Dialect::PgCompat => Some(Dialect::Native),
        Dialect::Native => Some(Dialect::Ansi),
        Dialect::Ansi => None,
    }
}

/// The query text of a dialect.
pub open spec fn query_text(d: Dialect) -> Seq<char> {
    match d {
        Dialect::PgCompat => PG_COMPAT_QUERY@,
        Dialect::Native => NATIVE_QUERY@,
        Dialect::Ansi => ANSI_QUERY@,
    }
}

/// What discovery does after a query has failed.
pub enum DiscoveryStep {
    /// Query the catalog in this dialect.
    Query(Dialect),
    /// Give up, with this error.
    Failed(TransferError),
}

impl Dialect {
    /// The dialect that discovery tries first.
    pub fn first() -> (r: Dialect)
        ensures
            r == Dialect::PgCompat,
    {
        Dialect::PgCompat
    }

    /// The query to run in this dialect.
    pub fn query(&self) -> (r: CatalogQuery)
        ensures
            r.sql@ == query_text(*self),
            r.bind_dbname == (*self == Dialect::Ansi),
    {
        match self {
            Dialect::PgCompat => CatalogQuery {
                sql: String::from_str(PG_COMPAT_QUERY),
                bind_dbname: false,
            },
            Dialect::Native => CatalogQuery { sql: String::from_str(NATIVE_QUERY), bind_dbname: false },
            Dialect::Ansi => CatalogQuery { sql: String::from_str(ANSI_QUERY), bind_dbname: true },
        }
    }

    /// What to do once the query of this dialect has failed with `e`: try
    /// the next dialect, or, after the last one, fail with `e`.
    pub fn after_failure(&self, e: TransferError) -> (r: DiscoveryStep)
        ensures
            next_dialect(*self) is Some ==> r == DiscoveryStep::Query(next_dialect(*self)->0),
            next_dialect(*self) is None ==> r is Failed && r->Failed_0@ == e@,
    {
        match self {
            Dialect::PgCompat => DiscoveryStep::Query(Dialect::Native),
            Dialect::Native => DiscoveryStep::Query(Dialect::Ansi),
            Dialect::Ansi => DiscoveryStep::Failed(e),
        }
    }
}

/// A row that a discovery query returned; a column that could not be read
/// as the expected type is missing.
pub struct CatalogRow {
    pub schema: Option<String>,
    pub table: Option<String>,
    pub row_count: Option<i64>,
}

/// The row has all three columns.
pub open spec fn row_complete(row: CatalogRow) -> bool {
    row.schema is Some && row.table is Some && row.row_count is Some
}

/// The row count that discovery records for a row: the standard dialect
/// has none, so it is `-1` there.
pub open spec fn recorded_count(d: Dialect, row: CatalogRow) -> i64 {
    if d == Dialect::Ansi {
        -1i64
    } else {
        row.row_count->0
    }
}

/// The table that a complete row describes, as (schema, table, row count).
pub open spec fn row_model(d: Dialect, row: CatalogRow) -> (Seq<char>, Seq<char>, i64) {
    (row.schema->0@, row.table->0@, recorded_count(d, row))
}

/// A discovered table as (schema, table, row count).
pub open spec fn table_model(t: TableWithRowsCount) -> (Seq<char>, Seq<char>, i64) {
    (t.schema@, t.table@, t.row_count)
}

/// The table that one row of a discovery query describes, not selected;
/// a row missing a column fails discovery.
pub fn table_from_row(d: Dialect, row: &CatalogRow) -> (r: Result<TableWithRowsCount, TransferError>)
    ensures
        r is Ok <==> row_complete(*row),
        r is Ok ==> table_model(r->Ok_0) == row_model(d, *row) && !r->Ok_0.export,
        r is Err ==> r->Err_0@ == "Tables select error"@,
{
    match (&row.schema, &row.table, row.row_count) {
        (Some(schema), Some(table), Some(count)) => {
            let recorded: i64 = if d == Dialect::Ansi {
                -1
            } else {
                count
            };
            Ok(TableWithRowsCount::new(schema.as_str(), table.as_str(), recorded))
        },
        _ => Err(TransferError::from_str("Tables select error")),
    }
}

/// The tables that the rows of a discovery query describe, in row order.
pub fn tables_from_rows(d: Dialect, rows: &Vec<CatalogRow>) -> (r: Result<
    Vec<TableWithRowsCount>,
    TransferError,
>)
    ensures
        r is Ok <==> forall|k: int| 0 <= k < rows@.len() ==> row_complete(#[trigger] rows@[k]),
        r is Ok ==> r->Ok_0@.len() == rows@.len() && forall|k: int|
            0 <= k < rows@.len() ==> table_model(#[trigger] r->Ok_0@[k]) == row_model(
                d,
                rows@[k],
            ) && !r->Ok_0@[k].export,
        r is Err ==> r->Err_0@ == "Tables select error"@,
{
    let mut tables: Vec<TableWithRowsCount> = Vec::new();
    let mut i: usize = 0;
    while i < rows.len()
        invariant
            i <= rows@.len(),
            tables@.len() == i,
            forall|k: int| 0 <= k < i ==> row_complete(#[trigger] rows@[k]),
            forall|k: int|
                0 <= k < i ==> table_model(#[trigger] tables@[k]) == row_model(d, rows@[k])
                    && !tables@[k].export,
        decreases rows@.len() - i,
    {
        match table_from_row(d, &rows[i]) {
            Ok(t) => tables.push(t),
            Err(e) => return Err(e),
        }
        i = i + 1;
    }
    Ok(tables)
}

/// The progress line that reports a discovered table:
/// `schema.table N rows`.
pub open spec fn row_progress(t: TableWithRowsCount) -> Seq<char> {
    t.schema@ + "."@ + t.table@ + " "@ + signed_decimal(t.row_count as int) + " rows"@
}

/// The progress line that reports a discovered table.
pub fn row_progress_line(t: &TableWithRowsCount) -> (r: String)
    ensures
        r@ == row_progress(*t),
{
    let mut line = t.schema.clone().concat(".").concat(t.table.as_str()).concat(" ");
    append_signed_decimal(&mut line, t.row_count);
    line.append(" rows");
    line
}

/// When a catalog query fails, discovery goes on to the native dialect, then
/// to the standard one, and gives up only after that; and the standard
/// dialect reports every table with an unknown (`-1`) row count.
pub proof fn lemma_discovery_fallback(row: CatalogRow)
    requires
        row_complete(row),
    ensures
        next_dialect(Dialect::PgCompat) == Some(Dialect::Native),
        next_dialect(Dialect::Native) == Some(Dialect::Ansi),
        next_dialect(Dialect::Ansi) is None,
        row_model(Dialect::Ansi, row).2 == -1,
{
}

} // verus!
