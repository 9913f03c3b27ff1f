//! The advisor: database context assembly and its data types.
//!
//! Metadata arrives as plain query-result rows (column name, value pairs);
//! everything from the rows to the assembled [`DbContext`] is verified. The
//! querying itself is I/O and stays with the caller.
use vstd::prelude::*;
use vstd::string::StringSliceAdditionalSpecFns;
use crate::client::MistralClient;
use crate::errors::AdvisorError;
use crate::json::clone_bytes;
use crate::text::seq_views;

verus! {

/// How many tables are analyzed in depth at most, to bound the metadata
/// queries one context collection may issue.
pub const MAX_TABLES_TO_ANALYZE: usize = 20;

/// One row of a metadata query result: column name and value pairs,
/// in column order.
pub struct QueryRow {
    /// The row's cells, keyed by column name.
    pub cells: Vec<(Vec<u8>, Vec<u8>)>,
}

/// A metadata query result.
pub struct QueryResult {
    /// The rows, in result order.
    pub rows: Vec<QueryRow>,
}

/// A relation between two tables.
pub struct TableRelation {
    /// Referencing table.
    pub from_table: Vec<u8>,
    /// Referencing column.
    pub from_column: Vec<u8>,
    /// Referenced table.
    pub to_table: Vec<u8>,
    /// Referenced column.
    pub to_column: Vec<u8>,
}

/// What is known of one column of a table.
#[derive(Debug, PartialEq, Eq)]
pub struct ColumnInfo {
    /// Column name.
    pub name: Vec<u8>,
    /// Declared data type.
    pub data_type: Vec<u8>,
    /// Whether the column is nullable, where the metadata says.
    pub nullable: Option<bool>,
    /// Whether the column is part of a primary key.
    pub is_primary_key: bool,
    /// Whether the column is part of a foreign key.
    pub is_foreign_key: bool,
}

/// What is known of one index of a table.
#[derive(Debug, PartialEq, Eq)]
pub struct IndexInfo {
    /// Index name.
    pub name: Vec<u8>,
    /// Indexed columns, in index order.
    pub columns: Vec<Vec<u8>>,
    /// Whether the index is unique.
    pub unique: bool,
}

/// Summary statistics over a database.
#[derive(Debug, PartialEq, Eq)]
pub struct DbStats {
    /// Number of tables.
    pub table_count: usize,
    /// Number of indexes over the analyzed tables.
    pub index_count: usize,
    /// Estimated size, where available.
    pub estimated_size: Option<Vec<u8>>,
}

/// The context collected over a database, from which the prompt is built.
pub struct DbContext {
    /// Name of the data source.
    pub dsn: Vec<u8>,
    /// The tables of the database.
    pub tables: Vec<Vec<u8>>,
    /// Schema of each analyzed table: table name and its columns.
    pub schemas: Vec<(Vec<u8>, Vec<ColumnInfo>)>,
    /// Indexes of each analyzed table: table name and its indexes.
    pub indexes: Vec<(Vec<u8>, Vec<IndexInfo>)>,
    /// Relations between tables.
    pub relations: Vec<TableRelation>,
    /// The SQL query under analysis, if one was given.
    pub sql_query: Option<Vec<u8>>,
    /// Summary statistics, where available.
    pub stats: Option<DbStats>,
}

/// A request for advice, as the surrounding service hands it in.
pub struct DbAdvisorRequest {
    /// Name of the data source.
    pub dsn: Vec<u8>,
    /// Optional SQL query to analyze.
    pub sql_query: Option<Vec<u8>>,
    /// Optional API key, overriding the environment's.
    pub mistral_api_key: Option<Vec<u8>>,
    /// Optional table list, sparing the metadata query for it.
    pub tables: Option<Vec<Vec<u8>>>,
}

/// The advisor: wraps the upstream client and carries the recovery pipeline.
pub struct DbAdvisor {
    /// The client used for generation requests.
    pub client: MistralClient,
}

impl DbAdvisor {
    /// Builds an advisor from the environment alone.
    pub fn new(env_key: Option<Vec<u8>>, env_url: Option<Vec<u8>>) -> (r: Result<
        DbAdvisor,
        AdvisorError,
    >)
        ensures
            r is Ok <==> env_key is Some,
            r matches Ok(a) ==> Some(a.client.api_key@) == crate::text::view_opt(env_key),
            r matches Err(e) ==> e == AdvisorError::MissingApiKey,
    {
        Self::with_api_key(None, env_key, env_url)
    }

    /// Builds an advisor from the caller's optional key and the environment.
    pub fn with_api_key(
        provided: Option<Vec<u8>>,
        env_key: Option<Vec<u8>>,
        env_url: Option<Vec<u8>>,
    ) -> (r: Result<DbAdvisor, AdvisorError>)
        ensures
            r is Ok <==> crate::client::chosen_api_key(
                crate::text::view_opt(provided),
                crate::text::view_opt(env_key),
            ) is Some,
            r matches Ok(a) ==> Some(a.client.api_key@) == crate::client::chosen_api_key(
                crate::text::view_opt(provided),
                crate::text::view_opt(env_key),
            ),
            r matches Err(e) ==> e == AdvisorError::MissingApiKey,
    {
        match MistralClient::with_api_key(provided, env_key, env_url) {
            Ok(client) => Ok(DbAdvisor { client }),
            Err(e) => Err(e),
        }
    }

    /// The first `MAX_TABLES_TO_ANALYZE` table names, for which the caller
    /// is to fetch schema and index metadata.
    pub fn tables_to_analyze(tables: &Vec<Vec<u8>>) -> (r: Vec<Vec<u8>>)
        ensures
            seq_views(r@) == seq_views(tables@).take(
                if tables@.len() < MAX_TABLES_TO_ANALYZE {
                    tables@.len() as int
                } else {
                    MAX_TABLES_TO_ANALYZE as int
                },
            ),
    {
        let n = if tables.len() < MAX_TABLES_TO_ANALYZE {
            tables.len()
        } else {
            MAX_TABLES_TO_ANALYZE
        };
        let mut out: Vec<Vec<u8>> = Vec::new();
        let mut i: usize = 0;
        while i < n
            invariant
                0 <= i <= n <= tables@.len(),
                out@.len() == i,
                forall|k: int| 0 <= k < i ==> out@[k]@ == tables@[k]@,
            decreases n - i,
        {
            out.push(clone_bytes(&tables[i]));
            i = i + 1;
        }
        proof {
            assert(seq_views(out@) =~= seq_views(tables@).take(n as int));
        }
        out
    }
}

/// The view of one row: its cells as byte-sequence pairs, in order.
impl View for QueryRow {
    type V = Seq<(Seq<u8>, Seq<u8>)>;

    open spec fn view(&self) -> Seq<(Seq<u8>, Seq<u8>)> {
        Seq::new(self.cells@.len(), |i: int| (self.cells@[i].0@, self.cells@[i].1@))
    }
}

/// The view of a result: its rows' views, in order.
impl View for QueryResult {
    type V = Seq<Seq<(Seq<u8>, Seq<u8>)>>;

    open spec fn view(&self) -> Seq<Seq<(Seq<u8>, Seq<u8>)>> {
        Seq::new(self.rows@.len(), |i: int| self.rows@[i]@)
    }
}

/// The mathematical shape of a column description.
#[verifier::ext_equal]
pub struct ColumnModel {
    /// Column name.
    pub name: Seq<u8>,
    /// Declared data type.
    pub data_type: Seq<u8>,
    /// Whether the column is nullable, where the metadata says.
    pub nullable: Option<bool>,
    /// Whether the column is part of a primary key.
    pub is_primary_key: bool,
    /// Whether the column is part of a foreign key.
    pub is_foreign_key: bool,
}

impl View for ColumnInfo {
    type V = ColumnModel;

    open spec fn view(&self) -> ColumnModel {
        ColumnModel {
            name: self.name@,
            data_type: self.data_type@,
            nullable: self.nullable,
            is_primary_key: self.is_primary_key,
            is_foreign_key: self.is_foreign_key,
        }
    }
}

/// The mathematical shape of an index description.
#[verifier::ext_equal]
pub struct IndexModel {
    /// Index name.
    pub name: Seq<u8>,
    /// Indexed columns, in index order.
    pub columns: Seq<Seq<u8>>,
    /// Whether the index is unique.
    pub unique: bool,
}

impl View for IndexInfo {
    type V = IndexModel;

    open spec fn view(&self) -> IndexModel {
        IndexModel { name: self.name@, columns: seq_views(self.columns@), unique: self.unique }
    }
}

/// The value of the first cell named `k` among `cells`, from position `i`
/// on, if any.
pub open spec fn cell_from(cells: Seq<(Seq<u8>, Seq<u8>)>, k: Seq<u8>, i: int) -> Option<Seq<u8>>
    decreases cells.len() - i,
{
    if i < 0 || i >= cells.len() {
        None
    } else if cells[i].0 == k {
        Some(cells[i].1)
    } else {
        cell_from(cells, k, i + 1)
    }
}

/// The value of the first cell named `k` in a row.
pub open spec fn cell_of(row: Seq<(Seq<u8>, Seq<u8>)>, k: Seq<u8>) -> Option<Seq<u8>> {
    cell_from(row, k, 0)
}

impl QueryRow {
    /// The value under the first cell named `key`, if any.
    pub fn get(&self, key: &[u8]) -> (r: Option<&Vec<u8>>)
        ensures
            match r {
                Some(v) => cell_of(self@, key@) == Some(v@),
                None => cell_of(self@, key@) is None,
            },
    {
        let ghost cv = self@;
        let mut i: usize = 0;
        while i < self.cells.len()
            invariant
                0 <= i <= self.cells@.len(),
                cv == self@,
                cell_from(cv, key@, 0) == cell_from(cv, key@, i as int),
            decreases self.cells@.len() - i,
        {
            if crate::text::bytes_eq(self.cells[i].0.as_slice(), key) {
                return Some(&self.cells[i].1);
            }
            i = i + 1;
        }
        None
    }
}

/// The column described by one metadata row: its name is required, its
/// data type defaults to `UNKNOWN`, nullability is read from
/// `IS_NULLABLE`, and key flags are left unset — they are determined
/// elsewhere. `None` where the name column is missing.
pub open spec fn column_of_row(row: Seq<(Seq<u8>, Seq<u8>)>) -> Option<ColumnModel> {
    match cell_of(row, "COLUMN_NAME".spec_bytes()) {
        None => None,
        Some(name) => Some(
            ColumnModel {
                name,
                data_type: match cell_of(row, "DATA_TYPE".spec_bytes()) {
                    Some(t) => t,
                    None => "UNKNOWN".spec_bytes(),
                },
                nullable: match cell_of(row, "IS_NULLABLE".spec_bytes()) {
                    Some(s) => Some(s == "YES".spec_bytes() || s == "1".spec_bytes()),
                    None => None,
                },
                is_primary_key: false,
                is_foreign_key: false,
            },
        ),
    }
}

/// The columns described by the rows from position `i` on; `None` as soon
/// as a row lacks its column name.
pub open spec fn columns_from(rows: Seq<Seq<(Seq<u8>, Seq<u8>)>>, i: int) -> Option<
    Seq<ColumnModel>,
>
    decreases rows.len() - i,
{
    if i < 0 || i >= rows.len() {
        Some(Seq::empty())
    } else {
        match column_of_row(rows[i]) {
            None => None,
            Some(c) => match columns_from(rows, i + 1) {
                None => None,
                Some(rest) => Some(seq![c] + rest),
            },
        }
    }
}

/// The views of a sequence of column descriptions.
pub open spec fn column_views(s: Seq<ColumnInfo>) -> Seq<ColumnModel> {
    Seq::new(s.len(), |i: int| s[i]@)
}

/// The views of a sequence of index descriptions.
pub open spec fn index_views(s: Seq<IndexInfo>) -> Seq<IndexModel> {
    Seq::new(s.len(), |i: int| s[i]@)
}

/// First position among `acc` bearing index name `name` at or after `i`.
pub open spec fn index_pos_from(acc: Seq<IndexModel>, name: Seq<u8>, i: int) -> Option<int>
    decreases acc.len() - i,
{
    if i < 0 || i >= acc.len() {
        None
    } else if acc[i].name == name {
        Some(i)
    } else {
        index_pos_from(acc, name, i + 1)
    }
}

/// The index groups after folding in the rows from position `i` on: each
/// row's column joins the group of its index name, in row order; a new
/// group's uniqueness is read from the first row seen for it, `NON_UNIQUE`
/// defaulting to true when absent. `None` as soon as a row lacks its index
/// or column name.
pub open spec fn indexes_from(
    rows: Seq<Seq<(Seq<u8>, Seq<u8>)>>,
    i: int,
    acc: Seq<IndexModel>,
) -> Option<Seq<IndexModel>>
    decreases rows.len() - i,
{
    if i < 0 || i >= rows.len() {
        Some(acc)
    } else {
        match cell_of(rows[i], "INDEX_NAME".spec_bytes()) {
            None => None,
            Some(name) => match cell_of(rows[i], "COLUMN_NAME".spec_bytes()) {
                None => None,
                Some(col) => {
                    let non_unique = match cell_of(rows[i], "NON_UNIQUE".spec_bytes()) {
                        Some(s) => s == "1".spec_bytes() || s == "YES".spec_bytes(),
                        None => true,
                    };
                    let acc2 = match index_pos_from(acc, name, 0) {
                        Some(j) => acc.update(
                            j,
                            IndexModel {
                                name: acc[j].name,
                                columns: acc[j].columns.push(col),
                                unique: acc[j].unique,
                            },
                        ),
                        None => acc.push(
                            IndexModel { name, columns: seq![col], unique: !non_unique },
                        ),
                    };
                    indexes_from(rows, i + 1, acc2)
                },
            },
        }
    }
}

/// The metadata fetched for one analyzed table: the table's name and the
/// schema and index query results, each absent where its query failed —
/// such failures are swallowed, never surfaced.
pub struct TableMetadata {
    /// The table's name.
    pub table: Vec<u8>,
    /// Result of the schema metadata query, where it succeeded.
    pub schema_rows: Option<QueryResult>,
    /// Result of the index metadata query, where it succeeded.
    pub index_rows: Option<QueryResult>,
}

/// The schema entries assembled from the tables from position `i` on:
/// one entry per table whose schema rows are present and decode.
pub open spec fn schema_entries_from(pts: Seq<TableMetadata>, i: int) -> Seq<
    (Seq<u8>, Seq<ColumnModel>),
>
    decreases pts.len() - i,
{
    if i < 0 || i >= pts.len() {
        Seq::empty()
    } else {
        (match pts[i].schema_rows {
            Some(qr) => match columns_from(qr@, 0) {
                Some(cols) => seq![(pts[i].table@, cols)],
                None => Seq::empty(),
            },
            None => Seq::empty(),
        }) + schema_entries_from(pts, i + 1)
    }
}

/// The index entries assembled from the tables from position `i` on:
/// one entry per table whose index rows are present and decode.
pub open spec fn index_entries_from(pts: Seq<TableMetadata>, i: int) -> Seq<
    (Seq<u8>, Seq<IndexModel>),
>
    decreases pts.len() - i,
{
    if i < 0 || i >= pts.len() {
        Seq::empty()
    } else {
        (match pts[i].index_rows {
            Some(qr) => match indexes_from(qr@, 0, Seq::empty()) {
                Some(groups) => seq![(pts[i].table@, groups)],
                None => Seq::empty(),
            },
            None => Seq::empty(),
        }) + index_entries_from(pts, i + 1)
    }
}

/// How many index descriptions the tables from position `i` on contribute.
pub open spec fn index_count_from(pts: Seq<TableMetadata>, i: int) -> nat
    decreases pts.len() - i,
{
    if i < 0 || i >= pts.len() {
        0
    } else {
        (match pts[i].index_rows {
            Some(qr) => match indexes_from(qr@, 0, Seq::empty()) {
                Some(groups) => groups.len(),
                None => 0,
            },
            None => 0,
        }) + index_count_from(pts, i + 1)
    }
}

/// The views of schema entries.
pub open spec fn schema_pair_views(s: Seq<(Vec<u8>, Vec<ColumnInfo>)>) -> Seq<
    (Seq<u8>, Seq<ColumnModel>),
> {
    Seq::new(s.len(), |i: int| (s[i].0@, column_views(s[i].1@)))
}

/// The views of index entries.
pub open spec fn index_pair_views(s: Seq<(Vec<u8>, Vec<IndexInfo>)>) -> Seq<
    (Seq<u8>, Seq<IndexModel>),
> {
    Seq::new(s.len(), |i: int| (s[i].0@, index_views(s[i].1@)))
}

/// The metadata query returning a table's columns.
pub open spec fn schema_query_spec(table: Seq<u8>) -> Seq<u8> {
    "SELECT COLUMN_NAME, DATA_TYPE, IS_NULLABLE, CASE WHEN COLUMN_KEY = 'PRI' THEN 1 ELSE 0 END as IS_PRIMARY_KEY FROM INFORMATION_SCHEMA.COLUMNS WHERE TABLE_NAME = '".spec_bytes()
        + table + "' ORDER BY ORDINAL_POSITION".spec_bytes()
}

/// The metadata query returning a table's index rows.
pub open spec fn index_query_spec(table: Seq<u8>) -> Seq<u8> {
    "SELECT INDEX_NAME, COLUMN_NAME, NON_UNIQUE FROM INFORMATION_SCHEMA.STATISTICS WHERE TABLE_NAME = '".spec_bytes()
        + table + "' ORDER BY INDEX_NAME, SEQ_IN_INDEX".spec_bytes()
}

impl DbAdvisor {
    /// The text of the schema metadata query for a table.
    pub fn schema_query(table: &[u8]) -> (r: Vec<u8>)
        ensures
            r@ == schema_query_spec(table@),
    {
        let mut out: Vec<u8> = Vec::new();
        out.extend_from_slice(
            "SELECT COLUMN_NAME, DATA_TYPE, IS_NULLABLE, CASE WHEN COLUMN_KEY = 'PRI' THEN 1 ELSE 0 END as IS_PRIMARY_KEY FROM INFORMATION_SCHEMA.COLUMNS WHERE TABLE_NAME = '".as_bytes(),
        );
        out.extend_from_slice(table);
        out.extend_from_slice("' ORDER BY ORDINAL_POSITION".as_bytes());
        out
    }

    /// The text of the index metadata query for a table.
    pub fn index_query(table: &[u8]) -> (r: Vec<u8>)
        ensures
            r@ == index_query_spec(table@),
    {
        let mut out: Vec<u8> = Vec::new();
        out.extend_from_slice(
            "SELECT INDEX_NAME, COLUMN_NAME, NON_UNIQUE FROM INFORMATION_SCHEMA.STATISTICS WHERE TABLE_NAME = '".as_bytes(),
        );
        out.extend_from_slice(table);
        out.extend_from_slice("' ORDER BY INDEX_NAME, SEQ_IN_INDEX".as_bytes());
        out
    }

    /// Reads a table's columns out of its schema metadata rows, as
    /// [`columns_from`] says; fails exactly where a row lacks its
    /// `COLUMN_NAME` cell.
    pub fn get_table_schema(result: &QueryResult) -> (r: Result<Vec<ColumnInfo>, AdvisorError>)
        ensures
            match r {
                Ok(cols) => columns_from(result@, 0) == Some(column_views(cols@)),
                Err(e) => columns_from(result@, 0) is None && (e matches
                    AdvisorError::MissingColumn { name } && name@ == "COLUMN_NAME".spec_bytes()),
            },
    {
        let ghost rv = result@;
        let mut cols: Vec<ColumnInfo> = Vec::new();
        let mut i: usize = 0;
        while i < result.rows.len()
            invariant
                0 <= i <= result.rows@.len(),
                rv == result@,
                columns_from(rv, 0) is Some <==> columns_from(rv, i as int) is Some,
                columns_from(rv, i as int) matches Some(rest) ==> columns_from(rv, 0) == Some(
                    column_views(cols@) + rest,
                ),
            decreases result.rows@.len() - i,
        {
            let row = &result.rows[i];
            let name = match row.get("COLUMN_NAME".as_bytes()) {
                Some(v) => clone_bytes(v),
                None => {
                    return Err(
                        AdvisorError::MissingColumn {
                            name: crate::text::to_vec_bytes("COLUMN_NAME".as_bytes()),
                        },
                    );
                },
            };
            let data_type = match row.get("DATA_TYPE".as_bytes()) {
                Some(v) => clone_bytes(v),
                None => crate::text::to_vec_bytes("UNKNOWN".as_bytes()),
            };
            let nullable = match row.get("IS_NULLABLE".as_bytes()) {
                Some(v) => Some(
                    crate::text::bytes_eq(v.as_slice(), "YES".as_bytes()) || crate::text::bytes_eq(
                        v.as_slice(),
                        "1".as_bytes(),
                    ),
                ),
                None => None,
            };
            cols.push(
                ColumnInfo {
                    name,
                    data_type,
                    nullable,
                    is_primary_key: false,
                    is_foreign_key: false,
                },
            );
            i = i + 1;
            proof {
                match columns_from(rv, i as int) {
                    Some(rest) => {
                        assert(column_views(cols@) + rest =~~= column_views(cols@.drop_last())
                            + (seq![cols@.last()@] + rest));
                    },
                    None => {},
                }
            }
        }
        proof {
            match columns_from(rv, i as int) {
                Some(rest) => {
                    assert(column_views(cols@) + rest =~~= column_views(cols@));
                },
                None => {},
            }
        }
        Ok(cols)
    }

    /// Groups a table's index metadata rows into index descriptions, as
    /// [`indexes_from`] says: one group per index name in order of first
    /// appearance, columns in row order, uniqueness from the first row of
    /// the group. Fails exactly where a row lacks its `INDEX_NAME` or
    /// `COLUMN_NAME` cell.
    pub fn get_table_indexes(result: &QueryResult) -> (r: Result<Vec<IndexInfo>, AdvisorError>)
        ensures
            match r {
                Ok(idx) => indexes_from(result@, 0, Seq::empty()) == Some(index_views(idx@)),
                Err(e) => indexes_from(result@, 0, Seq::empty()) is None && (e matches
                    AdvisorError::MissingColumn { name } && (name@ == "INDEX_NAME".spec_bytes()
                    || name@ == "COLUMN_NAME".spec_bytes())),
            },
    {
        let ghost rv = result@;
        let mut acc: Vec<IndexInfo> = Vec::new();
        let mut i: usize = 0;
        proof {
            assert(index_views(acc@) =~~= Seq::<IndexModel>::empty());
        }
        while i < result.rows.len()
            invariant
                0 <= i <= result.rows@.len(),
                rv == result@,
                indexes_from(rv, i as int, index_views(acc@)) == indexes_from(
                    rv,
                    0,
                    Seq::empty(),
                ),
            decreases result.rows@.len() - i,
        {
            let ghost acc0 = index_views(acc@);
            let row = &result.rows[i];
            let name = match row.get("INDEX_NAME".as_bytes()) {
                Some(v) => clone_bytes(v),
                None => {
                    return Err(
                        AdvisorError::MissingColumn {
                            name: crate::text::to_vec_bytes("INDEX_NAME".as_bytes()),
                        },
                    );
                },
            };
            let col = match row.get("COLUMN_NAME".as_bytes()) {
                Some(v) => clone_bytes(v),
                None => {
                    return Err(
                        AdvisorError::MissingColumn {
                            name: crate::text::to_vec_bytes("COLUMN_NAME".as_bytes()),
                        },
                    );
                },
            };
            let non_unique = match row.get("NON_UNIQUE".as_bytes()) {
                Some(v) => crate::text::bytes_eq(v.as_slice(), "1".as_bytes())
                    || crate::text::bytes_eq(v.as_slice(), "YES".as_bytes()),
                None => true,
            };
            let mut j: usize = 0;
            let mut found: Option<usize> = None;
            while j < acc.len()
                invariant_except_break
                    0 <= j <= acc@.len(),
                    acc0 == index_views(acc@),
                    found is None,
                    index_pos_from(acc0, name@, 0) == index_pos_from(acc0, name@, j as int),
                ensures
                    match found {
                        Some(f) => index_pos_from(acc0, name@, 0) == Some(f as int) && f
                            < acc@.len(),
                        None => index_pos_from(acc0, name@, 0) is None,
                    },
                    acc0 == index_views(acc@),
                decreases acc@.len() - j,
            {
                if crate::text::bytes_eq(acc[j].name.as_slice(), name.as_slice()) {
                    found = Some(j);
                    break ;
                }
                j = j + 1;
            }
            match found {
                Some(f) => {
                    let mut e = acc.remove(f);
                    e.columns.push(col);
                    acc.insert(f, e);
                    proof {
                        assert(index_views(acc@) =~~= acc0.update(
                            f as int,
                            IndexModel {
                                name: acc0[f as int].name,
                                columns: acc0[f as int].columns.push(col@),
                                unique: acc0[f as int].unique,
                            },
                        ));
                    }
                },
                None => {
                    let mut cv: Vec<Vec<u8>> = Vec::new();
                    cv.push(col);
                    acc.push(IndexInfo { name, columns: cv, unique: !non_unique });
                    proof {
                        assert(index_views(acc@) =~~= acc0.push(
                            IndexModel {
                                name: acc@.last().name@,
                                columns: seq_views(acc@.last().columns@),
                                unique: acc@.last().unique,
                            },
                        ));
                        assert(seq_views(acc@.last().columns@) =~~= seq![acc@.last().columns@[0]@]);
                    }
                },
            }
            i = i + 1;
        }
        proof {
            assert(indexes_from(rv, i as int, index_views(acc@)) == Some(index_views(acc@)));
        }
        Ok(acc)
    }

    /// Assembles the context for a database from plain values: the table
    /// list, the relations, and the per-table metadata already fetched.
    /// Per-table decode failures are swallowed — those tables simply lack
    /// a schema or index entry — and the statistics count the tables and
    /// the index descriptions that survived.
    pub fn collect_context(
        dsn: Vec<u8>,
        sql_query: Option<Vec<u8>>,
        tables: Vec<Vec<u8>>,
        relations: Vec<TableRelation>,
        per_table: Vec<TableMetadata>,
    ) -> (r: DbContext)
        requires
            index_count_from(per_table@, 0) <= usize::MAX,
        ensures
            r.dsn == dsn,
            r.tables == tables,
            r.relations == relations,
            r.sql_query == sql_query,
            schema_pair_views(r.schemas@) == schema_entries_from(per_table@, 0),
            index_pair_views(r.indexes@) == index_entries_from(per_table@, 0),
            r.stats matches Some(st) && st.table_count == tables@.len() && st.index_count
                == index_count_from(per_table@, 0) && st.estimated_size is None,
    {
        let ghost pv = per_table@;
        let mut schemas: Vec<(Vec<u8>, Vec<ColumnInfo>)> = Vec::new();
        let mut indexes: Vec<(Vec<u8>, Vec<IndexInfo>)> = Vec::new();
        let mut count: usize = 0;
        let mut i: usize = 0;
        while i < per_table.len()
            invariant
                0 <= i <= per_table@.len(),
                pv == per_table@,
                schema_pair_views(schemas@) + schema_entries_from(pv, i as int)
                    == schema_entries_from(pv, 0),
                index_pair_views(indexes@) + index_entries_from(pv, i as int)
                    == index_entries_from(pv, 0),
                count + index_count_from(pv, i as int) == index_count_from(pv, 0),
                index_count_from(pv, 0) <= usize::MAX,
            decreases per_table@.len() - i,
        {
            match &per_table[i].schema_rows {
                Some(qr) => {
                    match Self::get_table_schema(qr) {
                        Ok(cols) => {
                            schemas.push((clone_bytes(&per_table[i].table), cols));
                        },
                        Err(_) => {},
                    }
                },
                None => {},
            }
            match &per_table[i].index_rows {
                Some(qr) => {
                    match Self::get_table_indexes(qr) {
                        Ok(idx) => {
                            count = count + idx.len();
                            indexes.push((clone_bytes(&per_table[i].table), idx));
                        },
                        Err(_) => {},
                    }
                },
                None => {},
            }
            i = i + 1;
            proof {
                assert(schema_pair_views(schemas@) + schema_entries_from(pv, i as int)
                    =~~= schema_entries_from(pv, 0));
                assert(index_pair_views(indexes@) + index_entries_from(pv, i as int)
                    =~~= index_entries_from(pv, 0));
            }
        }
        proof {
            assert(schema_pair_views(schemas@) =~~= schema_entries_from(pv, 0));
            assert(index_pair_views(indexes@) =~~= index_entries_from(pv, 0));
        }
        let table_count = tables.len();
        DbContext {
            dsn,
            tables,
            schemas,
            indexes,
            relations,
            sql_query,
            stats: Some(DbStats { table_count, index_count: count, estimated_size: None }),
        }
    }
}

} // verus!
