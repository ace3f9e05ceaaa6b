//! The foreign tables of a server that stand for tables of a namespace.
use crate::fdw::attach_namespace;
use crate::fdw::attach_namespace::{
    read_option, row, AttachNamespaceRow, OPT_NS_TABLE_ID,
};
use crate::fdw::namespace_walk;
use crate::fdw::namespace_walk::TableId;
use crate::order;
use crate::text;
use vstd::prelude::*;

verus! {

/// The detail of the row for a foreign table whose remote table another one stands for too.
pub const DUPLICATE_TABLE_ID: &'static str =
    "duplicate local ns.table_id (multiple foreign tables point to the same table_id)";

/// What the catalog holds of a foreign table.
#[derive(Debug)]
pub struct CatalogRow {
    pub local_schema: Option<String>,
    pub local_table: Option<String>,
    pub relid: Option<i64>,
    pub table_id_json: Option<String>,
    pub batch_size: Option<String>,
}

/// What the catalog holds of a foreign table, with its texts as sequences of characters.
pub ghost struct CatalogRowModel {
    pub local_schema: Option<Seq<char>>,
    pub local_table: Option<Seq<char>>,
    pub relid: Option<i64>,
    pub table_id_json: Option<Seq<char>>,
    pub batch_size: Option<Seq<char>>,
}

impl DeepView for CatalogRow {
    type V = CatalogRowModel;

    open spec fn deep_view(&self) -> CatalogRowModel {
        CatalogRowModel {
            local_schema: self.local_schema.deep_view(),
            local_table: self.local_table.deep_view(),
            relid: self.relid,
            table_id_json: self.table_id_json.deep_view(),
            batch_size: self.batch_size.deep_view(),
        }
    }
}

/// A foreign table that stands for a table of a namespace.
#[derive(Debug)]
pub struct LocalNamespaceTable {
    pub local_schema: String,
    pub local_table: String,
    pub relid: u32,
    pub batch_size: Option<i64>,
}

/// A foreign table with its texts as sequences of characters.
pub ghost struct LocalModel {
    pub local_schema: Seq<char>,
    pub local_table: Seq<char>,
    pub relid: u32,
    pub batch_size: Option<i64>,
}

impl DeepView for LocalNamespaceTable {
    type V = LocalModel;

    open spec fn deep_view(&self) -> LocalModel {
        LocalModel {
            local_schema: self.local_schema@,
            local_table: self.local_table@,
            relid: self.relid,
            batch_size: self.batch_size,
        }
    }
}

/// The foreign tables by remote table, and the rows for those that could not be taken.
#[derive(Debug)]
pub struct LocalTables {
    pub tables: Vec<(TableId, LocalNamespaceTable)>,
    pub errors: Vec<AttachNamespaceRow>,
}

/// The foreign tables by remote table, and the error rows.
pub ghost struct LocalTablesModel {
    pub tables: Seq<(order::Texts, LocalModel)>,
    pub errors: Seq<attach_namespace::Row>,
}

impl DeepView for LocalTables {
    type V = LocalTablesModel;

    open spec fn deep_view(&self) -> LocalTablesModel {
        LocalTablesModel { tables: self.tables.deep_view(), errors: self.errors.deep_view() }
    }
}

// ---------------------------------------------------------------------------
// Reading one row
// ---------------------------------------------------------------------------

/// Whether the path `full` starts with `prefix`.
pub fn has_prefix(full: &[String], prefix: &[String]) -> (b: bool)
    ensures
        b == namespace_walk::under(prefix.deep_view(), full.deep_view()),
{
    let ghost f = full.deep_view();
    let ghost p = prefix.deep_view();
    assert(f.len() == full@.len() && p.len() == prefix@.len());
    if full.len() < prefix.len() {
        return false;
    }
    for i in 0..prefix.len()
        invariant
            f == full.deep_view(),
            p == prefix.deep_view(),
            f.len() == full@.len(),
            p.len() == prefix@.len(),
            p.len() <= f.len(),
            forall|j: int| 0 <= j < i ==> f[j] == p[j],
    {
        assert(f[i as int] == full@[i as int]@ && p[i as int] == prefix@[i as int]@);
        if !full[i].as_str().eq(prefix[i].as_str()) {
            assert(f.take(p.len() as int)[i as int] != p[i as int]);
            return false;
        }
    }
    assert(f.take(p.len() as int) =~= p);
    true
}

/// The text, or the empty text where there is none.
pub open spec fn or_empty(o: Option<Seq<char>>) -> Seq<char> {
    match o {
        Some(s) => s,
        None => seq![],
    }
}

fn text_or_empty(o: &Option<String>) -> (s: String)
    ensures
        s@ == or_empty(o.deep_view()),
{
    match o {
        Some(found) => found.clone(),
        None => {
            let s = String::new();
            assert(s@ =~= seq![]);
            s
        },
    }
}

/// The object id that a number stands for: its low 32 bits, and 0 where there is none.
pub open spec fn relid_of(relid: Option<i64>) -> u32 {
    match relid {
        Some(n) => (n % 0x1_0000_0000) as u32,
        None => 0,
    }
}

fn relid_from(relid: Option<i64>) -> (r: u32)
    ensures
        r == relid_of(relid),
{
    match relid {
        Some(n) => {
            let shifted: u128 = (n as i128 + 0x1_0000_0000_0000_0000) as u128;
            (shifted % 0x1_0000_0000) as u32
        },
        None => 0,
    }
}

/// The batch size that an option stands for; one that is no number does not count.
pub open spec fn batch_size_of(option: Option<Seq<char>>) -> Option<i64> {
    match option {
        Some(s) => text::i64_value(s),
        None => None,
    }
}

/// The foreign table that a catalog row describes.
pub open spec fn local_of(r: CatalogRowModel) -> LocalModel {
    LocalModel {
        local_schema: or_empty(r.local_schema),
        local_table: or_empty(r.local_table),
        relid: relid_of(r.relid),
        batch_size: batch_size_of(r.batch_size),
    }
}

/// The foreign table that a catalog row describes.
pub fn local_table_of(r: &CatalogRow) -> (local: LocalNamespaceTable)
    ensures
        local.deep_view() == local_of(r.deep_view()),
{
    let batch_size: Option<i64> = match &r.batch_size {
        Some(s) => text::parse_i64(s.as_str()),
        None => None,
    };
    LocalNamespaceTable {
        local_schema: text_or_empty(&r.local_schema),
        local_table: text_or_empty(&r.local_table),
        relid: relid_from(r.relid),
        batch_size,
    }
}

// ---------------------------------------------------------------------------
// Collecting the rows
// ---------------------------------------------------------------------------

impl LocalTablesModel {
    /// No table and no error.
    pub open spec fn empty() -> LocalTablesModel {
        LocalTablesModel { tables: seq![], errors: seq![] }
    }

    /// With an error row for a foreign table.
    pub open spec fn with_error(
        self,
        id: order::Texts,
        local: LocalModel,
        detail: Seq<char>,
    ) -> LocalTablesModel {
        LocalTablesModel {
            errors: self.errors.push(
                (id, local.local_schema, local.local_table, "error"@, "failed"@, detail),
            ),
            ..self
        }
    }

    /// With a foreign table whose option `ns.table_id` was read as `read`. A table outside `root`
    /// does not count; a second foreign table for one remote table takes the place of the first,
    /// with an error row.
    pub open spec fn with_table(
        self,
        local: LocalModel,
        read: Option<Result<order::Texts, Seq<char>>>,
        root: order::Texts,
    ) -> LocalTablesModel {
        match read {
            None => self.with_error(
                seq![],
                local,
                "missing required option: "@ + OPT_NS_TABLE_ID@,
            ),
            Some(Err(message)) => self.with_error(
                seq![],
                local,
                "invalid option: "@ + OPT_NS_TABLE_ID@
                    + " must be a JSON array of strings, error="@ + message,
            ),
            Some(Ok(id)) => if id.len() == 0 {
                self.with_error(
                    seq![],
                    local,
                    "invalid option: "@ + OPT_NS_TABLE_ID@ + " must not be empty"@,
                )
            } else if !namespace_walk::under(root, id) {
                self
            } else {
                let added = LocalTablesModel {
                    tables: order::with_value(self.tables, id, local),
                    ..self
                };
                if order::value_of(self.tables, id) is Some {
                    added.with_error(id, local, DUPLICATE_TABLE_ID@)
                } else {
                    added
                }
            },
        }
    }
}

/// The foreign tables that the catalog rows describe.
pub open spec fn local_tables(rows: Seq<CatalogRowModel>, root: order::Texts) -> LocalTablesModel
    decreases rows.len(),
{
    if rows.len() == 0 {
        LocalTablesModel::empty()
    } else {
        let r = rows.last();
        local_tables(rows.drop_last(), root).with_table(
            local_of(r),
            attach_namespace::option_texts(r.table_id_json),
            root,
        )
    }
}

impl LocalTables {
    /// No table and no error.
    pub fn new() -> (t: LocalTables)
        ensures
            t.deep_view() == LocalTablesModel::empty(),
    {
        let t = LocalTables { tables: Vec::new(), errors: Vec::new() };
        assert(t.tables.deep_view() =~= seq![]);
        assert(t.errors.deep_view() =~= seq![]);
        t
    }

    fn push_error(&mut self, table_id: &[String], local_schema: &str, local_table: &str, detail: &str)
        ensures
            final(self).tables == old(self).tables,
            final(self).errors.deep_view() == old(self).errors.deep_view().push(
                (table_id.deep_view(), local_schema@, local_table@, "error"@, "failed"@, detail@),
            ),
    {
        let ghost before = self.errors.deep_view();
        let r = row(table_id, local_schema, local_table, "error", "failed", detail);
        self.errors.push(r);
        assert(self.errors.deep_view() =~= before.push(r.deep_view()));
    }

    /// Takes a foreign table whose option `ns.table_id` was read as `read`.
    pub fn take(
        &mut self,
        local: LocalNamespaceTable,
        read: Option<Result<Vec<String>, String>>,
        root_namespace_id: &[String],
    )
        ensures
            final(self).deep_view() == old(self).deep_view().with_table(
                local.deep_view(),
                attach_namespace::read_texts(read),
                root_namespace_id.deep_view(),
            ),
    {
        let ghost before = self.deep_view();
        let schema = local.local_schema.as_str();
        let table = local.local_table.as_str();
        let nothing: Vec<String> = Vec::new();
        assert(nothing.deep_view() =~= seq![]);
        match read {
            None => {
                let mut detail = "missing required option: ".to_owned();
                detail.append(OPT_NS_TABLE_ID);
                self.push_error(nothing.as_slice(), schema, table, detail.as_str());
            },
            Some(Err(message)) => {
                let mut detail = "invalid option: ".to_owned();
                detail.append(OPT_NS_TABLE_ID);
                detail.append(" must be a JSON array of strings, error=");
                detail.append(message.as_str());
                self.push_error(nothing.as_slice(), schema, table, detail.as_str());
            },
            Some(Ok(table_id)) => {
                let ghost id = table_id.deep_view();
                assert(id.len() == table_id@.len());
                if table_id.len() == 0 {
                    let mut detail = "invalid option: ".to_owned();
                    detail.append(OPT_NS_TABLE_ID);
                    detail.append(" must not be empty");
                    self.push_error(nothing.as_slice(), schema, table, detail.as_str());
                    return ;
                }
                if !has_prefix(table_id.as_slice(), root_namespace_id) {
                    return ;
                }
                let i = order::find_slot(&self.tables, table_id.as_slice());
                assert(before.tables.len() == self.tables@.len());
                let mut known: bool = false;
                if i < self.tables.len() {
                    assert(before.tables[i as int].0 == self.tables@[i as int].0.deep_view());
                    known = order::same_lists(self.tables[i].0.as_slice(), table_id.as_slice());
                }
                if known {
                    self.push_error(table_id.as_slice(), schema, table, DUPLICATE_TABLE_ID);
                    self.tables.set(i, (table_id, local));
                    assert(self.tables.deep_view() =~= before.tables.update(
                        i as int,
                        (id, local.deep_view()),
                    ));
                } else {
                    self.tables.insert(i, (table_id, local));
                    assert(self.tables.deep_view() =~= before.tables.insert(
                        i as int,
                        (id, local.deep_view()),
                    ));
                }
            },
        }
    }
}

/// Collects the foreign tables that stand for tables under `root_namespace_id`, and a row for each
/// one whose option `ns.table_id` is missing, no path, or the path of another one.
pub fn introspect_local_namespace_tables(rows: &[CatalogRow], root_namespace_id: &[String]) -> (t:
    LocalTables)
    ensures
        t.deep_view() == local_tables(rows.deep_view(), root_namespace_id.deep_view()),
{
    let ghost all = rows.deep_view();
    let ghost root = root_namespace_id.deep_view();
    let mut t = LocalTables::new();
    for i in 0..rows.len()
        invariant
            all == rows.deep_view(),
            root == root_namespace_id.deep_view(),
            t.deep_view() == local_tables(all.take(i as int), root),
    {
        let r = &rows[i];
        assert(all[i as int] == r.deep_view());
        assert(all.take(i + 1).drop_last() =~= all.take(i as int));
        t.take(local_table_of(r), read_option(&r.table_id_json), root_namespace_id);
    }
    assert(all.take(all.len() as int) =~= all);
    t
}

/// The query for the foreign tables of a server; all three arguments are SQL literals.
pub open spec fn introspection_query(
    server_literal: Seq<char>,
    ns_table_id_literal: Seq<char>,
    batch_size_literal: Seq<char>,
) -> Seq<char> {
    "SELECT n.nspname::text AS local_schema, c.relname::text AS local_table, c.oid::bigint AS relid, opt.option_value AS table_id_json, opt_bs.option_value AS batch_size FROM pg_class c JOIN pg_namespace n ON n.oid = c.relnamespace JOIN pg_foreign_table ft ON ft.ftrelid = c.oid JOIN pg_foreign_server fs ON fs.oid = ft.ftserver JOIN LATERAL pg_options_to_table(ft.ftoptions) opt ON opt.option_name = "@
        + ns_table_id_literal
        + " LEFT JOIN LATERAL pg_options_to_table(ft.ftoptions) opt_bs ON opt_bs.option_name = "@
        + batch_size_literal + " WHERE fs.srvname = "@ + server_literal
        + " ORDER BY n.nspname, c.relname"@
}

/// The query for the foreign tables of a server.
pub fn introspection_sql(
    server_literal: &str,
    ns_table_id_literal: &str,
    batch_size_literal: &str,
) -> (sql: String)
    ensures
        sql@ == introspection_query(server_literal@, ns_table_id_literal@, batch_size_literal@),
{
    let mut sql =
        "SELECT n.nspname::text AS local_schema, c.relname::text AS local_table, c.oid::bigint AS relid, opt.option_value AS table_id_json, opt_bs.option_value AS batch_size FROM pg_class c JOIN pg_namespace n ON n.oid = c.relnamespace JOIN pg_foreign_table ft ON ft.ftrelid = c.oid JOIN pg_foreign_server fs ON fs.oid = ft.ftserver JOIN LATERAL pg_options_to_table(ft.ftoptions) opt ON opt.option_name = ".to_owned();
    sql.append(ns_table_id_literal);
    sql.append(" LEFT JOIN LATERAL pg_options_to_table(ft.ftoptions) opt_bs ON opt_bs.option_name = ");
    sql.append(batch_size_literal);
    sql.append(" WHERE fs.srvname = ");
    sql.append(server_literal);
    sql.append(" ORDER BY n.nspname, c.relname");
    sql
}

/// The query for the columns of the relation `relid`.
pub open spec fn columns_query(relid: u32) -> Seq<char> {
    "SELECT a.attname::text AS name, format_type(a.atttypid, a.atttypmod)::text AS ty FROM pg_attribute a WHERE a.attrelid = "@
        + text::decimal(relid as nat)
        + " AND a.attnum > 0 AND NOT a.attisdropped ORDER BY a.attnum"@
}

/// The query for the columns of the relation `relid`.
pub fn local_columns_sql(relid: u32) -> (sql: String)
    ensures
        sql@ == columns_query(relid),
{
    let mut sql =
        "SELECT a.attname::text AS name, format_type(a.atttypid, a.atttypmod)::text AS ty FROM pg_attribute a WHERE a.attrelid = ".to_owned();
    sql.append(text::decimal_text(relid as u128).as_str());
    sql.append(" AND a.attnum > 0 AND NOT a.attisdropped ORDER BY a.attnum");
    sql
}

/// The statement that drops a foreign table; both arguments are quoted identifiers.
pub open spec fn drop_statement(schema_ident: Seq<char>, table_ident: Seq<char>) -> Seq<char> {
    "DROP FOREIGN TABLE "@ + schema_ident + "."@ + table_ident + ";"@
}

/// The statement that drops a foreign table; both arguments are quoted identifiers.
pub fn drop_foreign_table_sql(schema_ident: &str, table_ident: &str) -> (sql: String)
    ensures
        sql@ == drop_statement(schema_ident@, table_ident@),
{
    let mut sql = "DROP FOREIGN TABLE ".to_owned();
    sql.append(schema_ident);
    sql.append(".");
    sql.append(table_ident);
    sql.append(";");
    sql
}

// ---------------------------------------------------------------------------
// What holds of the local tables
// ---------------------------------------------------------------------------

/// The foreign tables stand sorted by remote table, each of which is a path under the root.
pub proof fn local_tables_are_sorted(rows: Seq<CatalogRowModel>, root: order::Texts)
    ensures
        order::ascending(local_tables(rows, root).tables),
        forall|i: int|
            0 <= i < local_tables(rows, root).tables.len() ==> namespace_walk::under(
                root,
                #[trigger] local_tables(rows, root).tables[i].0,
            ) && local_tables(rows, root).tables[i].0.len() > 0,
    decreases rows.len(),
{
    if rows.len() > 0 {
        local_tables_are_sorted(rows.drop_last(), root);
        let before = local_tables(rows.drop_last(), root).tables;
        let r = rows.last();
        match attach_namespace::option_texts(r.table_id_json) {
            Some(Ok(id)) => {
                order::slot_splits(before, id);
                order::with_value_keeps_order(before, id, local_of(r));
            },
            _ => {},
        }
    }
}

/// A foreign table for a path under the root is kept, in place of an earlier one for that path.
pub proof fn last_table_wins(rows: Seq<CatalogRowModel>, root: order::Texts, id: order::Texts)
    requires
        rows.len() > 0,
        id.len() > 0,
        namespace_walk::under(root, id),
    ensures
        attach_namespace::option_texts(rows.last().table_id_json) == Some(
            Ok::<order::Texts, Seq<char>>(id),
        ) ==> order::value_of(local_tables(rows, root).tables, id) == Some(local_of(rows.last())),
{
    local_tables_are_sorted(rows.drop_last(), root);
    order::with_value_keeps_order(
        local_tables(rows.drop_last(), root).tables,
        id,
        local_of(rows.last()),
    );
}

/// A table that attaching created is found again under its path: its options name it.
pub proof fn attached_table_is_found(
    rows: Seq<CatalogRowModel>,
    root: order::Texts,
    id: order::Texts,
    options: Seq<(Seq<char>, Seq<char>)>,
)
    requires
        rows.len() > 0,
        id.len() > 0,
        namespace_walk::under(root, id),
    ensures
        attach_namespace::names_table(options, id) && rows.last().table_id_json == Some(
            options[0].1,
        ) ==> order::value_of(local_tables(rows, root).tables, id) == Some(local_of(rows.last())),
{
    last_table_wins(rows, root, id);
}

/// A batch size that attaching writes into the options is read back from them.
pub proof fn batch_size_reads_back(table_id_json: Seq<char>, batch_size: i64)
    ensures
        batch_size_of(
            Some(attach_namespace::table_options(table_id_json, Some(batch_size))[1].1),
        ) == Some(batch_size),
{
    text::signed_decimal_reads_back(batch_size as int);
}

/// The name, the number and the batch size of a foreign table are those that the catalog has.
pub proof fn catalog_values_are_kept(r: CatalogRowModel)
    ensures
        r.local_schema matches Some(s) ==> local_of(r).local_schema == s,
        r.local_schema is None ==> local_of(r).local_schema.len() == 0,
        r.local_table matches Some(s) ==> local_of(r).local_table == s,
        r.local_table is None ==> local_of(r).local_table.len() == 0,
        r.relid matches Some(n) ==> 0 <= n <= u32::MAX ==> local_of(r).relid == n,
        r.relid is None ==> local_of(r).relid == 0,
        r.batch_size matches Some(s) ==> (local_of(r).batch_size matches Some(n)
            ==> text::integer_value(s) == Some(n as int)),
        r.batch_size matches Some(s) ==> (local_of(r).batch_size is None ==> !(
        text::integer_value(s) matches Some(n) && i64::MIN <= n <= i64::MAX)),
        r.batch_size is None ==> local_of(r).batch_size is None,
{
}

/// A foreign table is taken exactly where its option is the path of a table under the root. One
/// whose option is missing, empty or no path gets an error row and is not taken; one for another
/// root is passed over; one for a path that has one already is taken, with an error row.
pub proof fn foreign_tables_are_taken_by_their_option(
    before: LocalTablesModel,
    local: LocalModel,
    read: Option<Result<order::Texts, Seq<char>>>,
    root: order::Texts,
)
    ensures
        ({
            let after = before.with_table(local, read, root);
            let nowhere: order::Texts = seq![];
            let row = |id: order::Texts, detail: Seq<char>|
                (id, local.local_schema, local.local_table, "error"@, "failed"@, detail);
            &&& read is None ==> after.tables == before.tables && after.errors
                == before.errors.push(row(nowhere, "missing required option: "@ + "ns.table_id"@))
            &&& read matches Some(Err(e)) ==> after.tables == before.tables && after.errors
                == before.errors.push(
                row(
                    nowhere,
                    "invalid option: "@ + "ns.table_id"@
                        + " must be a JSON array of strings, error="@ + e,
                ),
            )
            &&& read matches Some(Ok(id)) ==> {
                &&& id.len() == 0 ==> after.tables == before.tables && after.errors
                    == before.errors.push(
                    row(nowhere, "invalid option: "@ + "ns.table_id"@ + " must not be empty"@),
                )
                &&& id.len() > 0 && !(root.len() <= id.len() && id.take(root.len() as int) == root)
                    ==> after == before
                &&& id.len() > 0 && root.len() <= id.len() && id.take(root.len() as int) == root
                    ==> {
                    &&& after.tables == order::with_value(before.tables, id, local)
                    &&& order::value_of(before.tables, id) is None ==> after.errors
                        == before.errors
                    &&& order::value_of(before.tables, id) is Some ==> after.errors
                        == before.errors.push(
                        row(
                            id,
                            "duplicate local ns.table_id (multiple foreign tables point to the same table_id)"@,
                        ),
                    )
                }
            }
        }),
{
}

/// A foreign table is held under a path exactly where it is the last one that the catalog has for
/// that path, and the path lies under the root.
pub proof fn held_table_is_the_last_of_its_path(
    rows: Seq<CatalogRowModel>,
    root: order::Texts,
    id: order::Texts,
)
    ensures
        order::value_of(local_tables(rows, root).tables, id) matches Some(local) ==> id.len() > 0
            && root.len() <= id.len() && id.take(root.len() as int) == root && exists|k: int|
            {
                &&& 0 <= k < rows.len()
                &&& local == local_of(#[trigger] rows[k])
                &&& attach_namespace::option_texts(rows[k].table_id_json) == Some(
                    Ok::<order::Texts, Seq<char>>(id),
                )
                &&& forall|m: int|
                    k < m < rows.len() ==> attach_namespace::option_texts(
                        (#[trigger] rows[m]).table_id_json,
                    ) != Some(Ok::<order::Texts, Seq<char>>(id))
            },
    decreases rows.len(),
{
    if rows.len() > 0 {
        let front = rows.drop_last();
        let n = rows.len() - 1;
        let r = rows[n];
        held_table_is_the_last_of_its_path(front, root, id);
        local_tables_are_sorted(front, root);
        let before = local_tables(front, root).tables;
        let read = attach_namespace::option_texts(r.table_id_json);
        if let Some(Ok(found)) = read {
            if found.len() > 0 && namespace_walk::under(root, found) {
                order::with_value_keeps_order(before, found, local_of(r));
            }
        }
        if let Some(local) = order::value_of(local_tables(rows, root).tables, id) {
            if read == Some(Ok::<order::Texts, Seq<char>>(id)) && id.len() > 0
                && namespace_walk::under(root, id) {
                assert(local == local_of(rows[n]));
            } else {
                assert(order::value_of(before, id) == Some(local));
                let k = choose|k: int|
                    {
                        &&& 0 <= k < front.len()
                        &&& local == local_of(#[trigger] front[k])
                        &&& attach_namespace::option_texts(front[k].table_id_json) == Some(
                            Ok::<order::Texts, Seq<char>>(id),
                        )
                        &&& forall|m: int|
                            k < m < front.len() ==> attach_namespace::option_texts(
                                (#[trigger] front[m]).table_id_json,
                            ) != Some(Ok::<order::Texts, Seq<char>>(id))
                    };
                assert(rows[k] == front[k]);
                assert forall|m: int| k < m < rows.len() implies attach_namespace::option_texts(
                    (#[trigger] rows[m]).table_id_json,
                ) != Some(Ok::<order::Texts, Seq<char>>(id)) by {
                    if m < n {
                        assert(front[m] == rows[m]);
                    }
                }
            }
        }
    } else {
        assert(local_tables(rows, root).tables =~= seq![]);
    }
}

/// The statement that drops a table names it, and the query for columns names the relation.
pub proof fn statements_name_their_table(schema: Seq<char>, table: Seq<char>, relid: u32)
    ensures
        drop_statement(schema, table) == "DROP FOREIGN TABLE "@ + schema + "."@ + table + ";"@,
        columns_query(relid)
            == "SELECT a.attname::text AS name, format_type(a.atttypid, a.atttypmod)::text AS ty FROM pg_attribute a WHERE a.attrelid = "@
            + text::decimal(relid as nat)
            + " AND a.attnum > 0 AND NOT a.attisdropped ORDER BY a.attnum"@,
{
}

/// Different tables are dropped by different statements, and different relations are asked for by
/// different queries.
pub proof fn statements_tell_tables_apart(a: Seq<char>, b: Seq<char>, same: Seq<char>, x: u32, y: u32)
    ensures
        drop_statement(a, same) == drop_statement(b, same) ==> a == b,
        drop_statement(same, a) == drop_statement(same, b) ==> a == b,
        columns_query(x) == columns_query(y) ==> x == y,
        introspection_query(a, same, same) == introspection_query(b, same, same) ==> a == b,
{
    if drop_statement(a, same) == drop_statement(b, same) {
        let tail = "."@ + same + ";"@;
        assert(drop_statement(a, same) =~= "DROP FOREIGN TABLE "@ + a + tail);
        assert(drop_statement(b, same) =~= "DROP FOREIGN TABLE "@ + b + tail);
        text::parts_between_are_alike("DROP FOREIGN TABLE "@, a, b, tail);
    }
    if drop_statement(same, a) == drop_statement(same, b) {
        text::parts_between_are_alike("DROP FOREIGN TABLE "@ + same + "."@, a, b, ";"@);
    }
    if columns_query(x) == columns_query(y) {
        text::parts_between_are_alike(
            "SELECT a.attname::text AS name, format_type(a.atttypid, a.atttypmod)::text AS ty FROM pg_attribute a WHERE a.attrelid = "@,
            text::decimal(x as nat),
            text::decimal(y as nat),
            " AND a.attnum > 0 AND NOT a.attisdropped ORDER BY a.attnum"@,
        );
        text::decimals_differ(x as nat, y as nat);
    }
    if introspection_query(a, same, same) == introspection_query(b, same, same) {
        let longer = "SELECT n.nspname::text AS local_schema, c.relname::text AS local_table, c.oid::bigint AS relid, opt.option_value AS table_id_json, opt_bs.option_value AS batch_size FROM pg_class c JOIN pg_namespace n ON n.oid = c.relnamespace JOIN pg_foreign_table ft ON ft.ftrelid = c.oid JOIN pg_foreign_server fs ON fs.oid = ft.ftserver JOIN LATERAL pg_options_to_table(ft.ftoptions) opt ON opt.option_name = "@
            + same
            + " LEFT JOIN LATERAL pg_options_to_table(ft.ftoptions) opt_bs ON opt_bs.option_name = "@
            + same + " WHERE fs.srvname = "@;
        text::parts_between_are_alike(longer, a, b, " ORDER BY n.nspname, c.relname"@);
    }
}

} // verus!
