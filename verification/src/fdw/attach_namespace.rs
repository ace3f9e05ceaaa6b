//! Attaching the tables of a namespace as foreign tables.
use crate::fdw::namespace_walk::{copy_list, TableId};
use crate::fdw::table_mapping::{LocalMapping, NamedTable};
use crate::fdw::table_mapping;
use crate::json;
use crate::order;
use crate::settings;
use crate::text;
use vstd::prelude::*;

verus! {

/// The option of a foreign table that names its remote table.
pub const OPT_NS_TABLE_ID: &'static str = "ns.table_id";

/// The option of a foreign table that sets the rows per batch.
pub const OPT_BATCH_SIZE: &'static str = "batch_size";

/// The detail of the row for a table that shares its local name with another one.
pub const MAPPING_CONFLICT: &'static str =
    "mapping conflict: multiple table_id map to the same (schema, table)";

/// What was done for one table: its path, local schema and name, the action, its status and a
/// detail.
pub type AttachNamespaceRow = (TableId, String, String, String, String, String);

/// A row with its texts as sequences of characters.
pub type Row = (order::Texts, Seq<char>, Seq<char>, Seq<char>, Seq<char>, Seq<char>);

/// The row for a table.
pub fn row(
    table_id: &[String],
    local_schema: &str,
    local_table: &str,
    action: &str,
    status: &str,
    detail: &str,
) -> (r: AttachNamespaceRow)
    ensures
        r.deep_view() == (
            table_id.deep_view(),
            local_schema@,
            local_table@,
            action@,
            status@,
            detail@,
        ),
{
    (
        copy_list(table_id),
        local_schema.to_owned(),
        local_table.to_owned(),
        action.to_owned(),
        status.to_owned(),
        detail.to_owned(),
    )
}

/// The local name that the naming rule gives the table `id`, which is one of `tables`.
pub open spec fn local_name(tables: Seq<table_mapping::NamedTableModel>, id: order::Texts) -> Result<
    (Seq<char>, Seq<char>),
    Seq<char>,
>
    decreases tables.len(),
{
    if tables.len() == 0 {
        Err(seq![])
    } else if tables[0].table_id == id {
        tables[0].local
    } else {
        local_name(tables.drop_first(), id)
    }
}

/// The row for a table that could not be placed: under the name that the naming rule gives it, or
/// under `_`.`_` where the rule fails.
pub open spec fn error_row(
    tables: Seq<table_mapping::NamedTableModel>,
    id: order::Texts,
    detail: Seq<char>,
) -> Row {
    match local_name(tables, id) {
        Ok(local) => (id, local.0, local.1, "error"@, "failed"@, detail),
        Err(_) => (id, "_"@, "_"@, "error"@, "failed"@, detail),
    }
}

/// The row for a table that could not be placed. `tables` holds the outcomes of the naming rule.
pub fn row_error(tables: &[NamedTable], table_id: &[String], detail: &str) -> (r:
    AttachNamespaceRow)
    ensures
        r.deep_view() == error_row(tables.deep_view(), table_id.deep_view(), detail@),
{
    let ghost all = tables.deep_view();
    let ghost id = table_id.deep_view();
    proof {
        assert(all.skip(0) =~= all);
    }
    for i in 0..tables.len()
        invariant
            all == tables.deep_view(),
            id == table_id.deep_view(),
            local_name(all, id) == local_name(all.skip(i as int), id),
    {
        let table = &tables[i];
        assert(all[i as int] == table.deep_view());
        assert(all.skip(i as int).drop_first() =~= all.skip(i + 1));
        if order::same_lists(table.table_id.as_slice(), table_id) {
            return match &table.local {
                Ok(local) => row(
                    table_id,
                    local.0.as_str(),
                    local.1.as_str(),
                    "error",
                    "failed",
                    detail,
                ),
                Err(_) => row(table_id, "_", "_", "error", "failed", detail),
            };
        }
    }
    row(table_id, "_", "_", "error", "failed", detail)
}

/// The rows for the tables that share a local name.
pub open spec fn conflict_rows(
    tables: Seq<table_mapping::NamedTableModel>,
    conflicts: Seq<order::Texts>,
) -> Seq<Row> {
    conflicts.map_values(|id: order::Texts| error_row(tables, id, MAPPING_CONFLICT@))
}

/// The rows for the tables that share a local name.
pub fn rows_for_conflicts(tables: &[NamedTable], conflicts: &[TableId]) -> (rows: Vec<
    AttachNamespaceRow,
>)
    ensures
        rows.deep_view() == conflict_rows(tables.deep_view(), conflicts.deep_view()),
{
    let mut rows: Vec<AttachNamespaceRow> = Vec::new();
    let ghost named = tables.deep_view();
    let ghost all = conflicts.deep_view();
    for i in 0..conflicts.len()
        invariant
            named == tables.deep_view(),
            all == conflicts.deep_view(),
            rows.deep_view() == conflict_rows(named, all.take(i as int)),
    {
        let ghost before = rows.deep_view();
        let r = row_error(tables, conflicts[i].as_slice(), MAPPING_CONFLICT);
        rows.push(r);
        assert(rows.deep_view() =~= before.push(r.deep_view()));
        assert(all[i as int] == conflicts@[i as int].deep_view());
        assert(conflict_rows(named, all.take(i + 1)) =~= conflict_rows(
            named,
            all.take(i as int),
        ).push(error_row(named, all[i as int], MAPPING_CONFLICT@)));
    }
    assert(all.take(all.len() as int) =~= all);
    rows
}

// ---------------------------------------------------------------------------
// The foreign server
// ---------------------------------------------------------------------------

/// The server that `server_name` names, given what the catalog holds under that name (0 where it
/// holds nothing).
pub open spec fn server_oid(server_name: Seq<char>, found: u32) -> Result<u32, Seq<char>> {
    if server_name.contains('\0') {
        Err("server_name contains NUL"@)
    } else if found == 0 {
        Err("foreign server not found: "@ + server_name)
    } else {
        Ok(found)
    }
}

/// The server that `server_name` names, given what the catalog holds under that name.
pub fn foreign_server_oid_by_name(server_name: &str, found: u32) -> (r: Result<u32, String>)
    ensures
        text::outcome(r) == server_oid(server_name@, found),
{
    if text::has_char(server_name, '\0') {
        return Err("server_name contains NUL".to_owned());
    }
    if found == 0 {
        let mut message = "foreign server not found: ".to_owned();
        message.append(server_name);
        return Err(message);
    }
    Ok(found)
}

// ---------------------------------------------------------------------------
// The relation that may stand in the way
// ---------------------------------------------------------------------------

/// A relation that exists under the local name of a table.
#[derive(Debug)]
pub enum ExistingRelation {
    ForeignTable { server: String, ns_table_id: Option<String> },
    Other { relkind: char },
}

/// A relation that exists under a local name, with its texts as sequences of characters.
pub ghost enum Existing {
    ForeignTable { server: Seq<char>, ns_table_id: Option<Seq<char>> },
    Other { relkind: char },
}

impl DeepView for ExistingRelation {
    type V = Existing;

    open spec fn deep_view(&self) -> Existing {
        match *self {
            ExistingRelation::ForeignTable { server, ns_table_id } => Existing::ForeignTable {
                server: server@,
                ns_table_id: ns_table_id.deep_view(),
            },
            ExistingRelation::Other { relkind } => Existing::Other { relkind },
        }
    }
}

/// What the catalog's kind of a relation says of it.
#[derive(Clone, Copy, PartialEq, Eq, Structural, Debug)]
pub enum RelationProbe {
    Absent,
    ForeignTable,
    Other(char),
}

/// What the catalog's kind of a relation says of it: the kind is its first letter, `f` being a
/// foreign table, and an empty kind is unknown.
pub open spec fn probed(relkind: Option<Seq<char>>) -> RelationProbe {
    match relkind {
        None => RelationProbe::Absent,
        Some(kind) => {
            let letter = if kind.len() == 0 {
                '?'
            } else {
                kind[0]
            };
            if letter == 'f' {
                RelationProbe::ForeignTable
            } else {
                RelationProbe::Other(letter)
            }
        },
    }
}

/// What the catalog's kind of a relation says of it.
pub fn probe_relation(relkind: Option<&str>) -> (probe: RelationProbe)
    ensures
        probe == probed(text::text_option(relkind)),
{
    match relkind {
        None => RelationProbe::Absent,
        Some(kind) => {
            let chars = text::chars_of(kind);
            let letter: char = if chars.len() == 0 {
                '?'
            } else {
                chars[0]
            };
            if letter == 'f' {
                RelationProbe::ForeignTable
            } else {
                RelationProbe::Other(letter)
            }
        },
    }
}

/// The query for the kind of the relation with the given schema and name, both as SQL literals.
pub open spec fn relkind_query(schema_literal: Seq<char>, table_literal: Seq<char>) -> Seq<char> {
    "SELECT ( SELECT c.relkind::text FROM pg_class c JOIN pg_namespace n ON n.oid = c.relnamespace WHERE n.nspname = "@
        + schema_literal + " AND c.relname = "@ + table_literal + " )"@
}

/// The query for the kind of the relation with the given schema and name.
pub fn relkind_sql(schema_literal: &str, table_literal: &str) -> (sql: String)
    ensures
        sql@ == relkind_query(schema_literal@, table_literal@),
{
    let mut sql =
        "SELECT ( SELECT c.relkind::text FROM pg_class c JOIN pg_namespace n ON n.oid = c.relnamespace WHERE n.nspname = ".to_owned();
    sql.append(schema_literal);
    sql.append(" AND c.relname = ");
    sql.append(table_literal);
    sql.append(" )");
    sql
}

/// The query for the server and the remote table of the foreign table with the given schema and
/// name; schema, name and option name are SQL literals.
pub open spec fn foreign_table_query(
    schema_literal: Seq<char>,
    table_literal: Seq<char>,
    option_literal: Seq<char>,
) -> Seq<char> {
    "SELECT ( SELECT fs.srvname FROM pg_class c JOIN pg_namespace n ON n.oid = c.relnamespace JOIN pg_foreign_table ft ON ft.ftrelid = c.oid JOIN pg_foreign_server fs ON fs.oid = ft.ftserver WHERE n.nspname = "@
        + schema_literal + " AND c.relname = "@ + table_literal
        + " LIMIT 1 ), ( SELECT opt.option_value FROM pg_class c JOIN pg_namespace n ON n.oid = c.relnamespace JOIN pg_foreign_table ft ON ft.ftrelid = c.oid LEFT JOIN LATERAL pg_options_to_table(ft.ftoptions) opt ON opt.option_name = "@
        + option_literal + " WHERE n.nspname = "@ + schema_literal + " AND c.relname = "@
        + table_literal + " LIMIT 1 )"@
}

/// The query for the server and the remote table of a foreign table.
pub fn foreign_table_sql(schema_literal: &str, table_literal: &str, option_literal: &str) -> (sql:
    String)
    ensures
        sql@ == foreign_table_query(schema_literal@, table_literal@, option_literal@),
{
    let mut sql =
        "SELECT ( SELECT fs.srvname FROM pg_class c JOIN pg_namespace n ON n.oid = c.relnamespace JOIN pg_foreign_table ft ON ft.ftrelid = c.oid JOIN pg_foreign_server fs ON fs.oid = ft.ftserver WHERE n.nspname = ".to_owned();
    sql.append(schema_literal);
    sql.append(" AND c.relname = ");
    sql.append(table_literal);
    sql.append(
        " LIMIT 1 ), ( SELECT opt.option_value FROM pg_class c JOIN pg_namespace n ON n.oid = c.relnamespace JOIN pg_foreign_table ft ON ft.ftrelid = c.oid LEFT JOIN LATERAL pg_options_to_table(ft.ftoptions) opt ON opt.option_name = ",
    );
    sql.append(option_literal);
    sql.append(" WHERE n.nspname = ");
    sql.append(schema_literal);
    sql.append(" AND c.relname = ");
    sql.append(table_literal);
    sql.append(" LIMIT 1 )");
    sql
}

/// The foreign table that the catalog describes; a server without a name is the empty name.
pub fn existing_foreign_table(server: Option<String>, ns_table_id: Option<String>) -> (relation:
    ExistingRelation)
    ensures
        relation.deep_view() == (Existing::ForeignTable {
            server: match server.deep_view() {
                Some(name) => name,
                None => seq![],
            },
            ns_table_id: ns_table_id.deep_view(),
        }),
{
    let server = match server {
        Some(name) => name,
        None => String::new(),
    };
    ExistingRelation::ForeignTable { server, ns_table_id }
}

/// The list of texts in an option's value, where there is one, or the message of its reader.
pub open spec fn option_texts(option: Option<Seq<char>>) -> Option<Result<order::Texts, Seq<char>>> {
    match option {
        None => None,
        Some(json) => Some(json::json_texts(json)),
    }
}

/// Reads the list of texts in an option's value, where there is one.
pub fn read_option(option: &Option<String>) -> (read: Option<Result<Vec<String>, String>>)
    ensures
        read_texts(read) == option_texts(option.deep_view()),
{
    match option {
        None => None,
        Some(json) => Some(json::read_json_array(json.as_str())),
    }
}

/// A list that was read from an option, with its texts as sequences of characters.
pub open spec fn read_texts(read: Option<Result<Vec<String>, String>>) -> Option<
    Result<order::Texts, Seq<char>>,
> {
    match read {
        None => None,
        Some(r) => Some(text::outcome(r)),
    }
}

/// Whether a foreign table whose option `ns.table_id` was read as `actual` is the table `expected`.
pub open spec fn id_matches(
    expected: order::Texts,
    actual: Option<Result<order::Texts, Seq<char>>>,
) -> Result<bool, Seq<char>> {
    match actual {
        None => Ok(false),
        Some(Ok(id)) => Ok(id == expected),
        Some(Err(message)) => Err(
            "invalid existing option: "@ + OPT_NS_TABLE_ID@
                + " must be a JSON array of strings, error="@ + message,
        ),
    }
}

/// Whether a foreign table whose option `ns.table_id` was read as `actual` is the table
/// `expected`; fails where the option is no JSON array of strings.
pub fn read_id_matches(expected: &[String], actual: &Option<Result<Vec<String>, String>>) -> (r:
    Result<bool, String>)
    ensures
        text::outcome(r) == id_matches(expected.deep_view(), read_texts(*actual)),
{
    match actual {
        None => Ok(false),
        Some(Ok(id)) => Ok(order::same_lists(id.as_slice(), expected)),
        Some(Err(e)) => {
            let mut message = "invalid existing option: ".to_owned();
            message.append(OPT_NS_TABLE_ID);
            message.append(" must be a JSON array of strings, error=");
            message.append(e.as_str());
            Err(message)
        },
    }
}

/// Whether the option `ns.table_id` of a foreign table names the table `expected`; fails where
/// the option is no JSON array of strings.
pub fn table_id_matches(expected: &[String], actual_json: &Option<String>) -> (r: Result<
    bool,
    String,
>)
    ensures
        text::outcome(r) == id_matches(expected.deep_view(), option_texts(actual_json.deep_view())),
{
    read_id_matches(expected, &read_option(actual_json))
}

// ---------------------------------------------------------------------------
// One table
// ---------------------------------------------------------------------------

/// What attaching a table came to.
#[derive(Clone, Copy, PartialEq, Eq, Structural, Debug)]
pub enum AttachOutcome {
    AlreadyAttached,
    Planned,
    Created,
}

/// What attaching a table takes: nothing more, or a foreign table with the given options.
#[derive(Debug)]
pub enum AttachStep {
    Finished(Result<AttachOutcome, String>),
    Create { options: Vec<(String, String)> },
}

/// What attaching a table takes, with its texts as sequences of characters.
pub ghost enum Step {
    Finished(Result<AttachOutcome, Seq<char>>),
    Create { options: Seq<(Seq<char>, Seq<char>)> },
}

/// An outcome or a message as a sequence of characters.
pub open spec fn attach_outcome(r: Result<AttachOutcome, String>) -> Result<
    AttachOutcome,
    Seq<char>,
> {
    match r {
        Ok(done) => Ok(done),
        Err(message) => Err(message@),
    }
}

impl DeepView for AttachStep {
    type V = Step;

    open spec fn deep_view(&self) -> Step {
        match *self {
            AttachStep::Finished(r) => Step::Finished(attach_outcome(r)),
            AttachStep::Create { options } => Step::Create { options: options.deep_view() },
        }
    }
}

/// The text that the debug format gives an optional text.
pub uninterp spec fn debug_text(o: Option<Seq<char>>) -> Seq<char>;

/// Renders an optional text with the debug format of `Option<String>`.
///
/// Formats with `{:?}`. Claimed of it: the text depends on the optional text alone.
#[verifier::external_body]
fn debug_format(o: &Option<String>) -> (s: String)
    ensures
        s@ == debug_text(o.deep_view()),
{
    format!("{:?}", o)
}

/// The options of the foreign table for the remote table with the given JSON text.
pub open spec fn table_options(table_id_json: Seq<char>, batch_size: Option<i64>) -> Seq<
    (Seq<char>, Seq<char>),
> {
    let named = (OPT_NS_TABLE_ID@, table_id_json);
    match batch_size {
        None => seq![named],
        Some(rows) => seq![named, (OPT_BATCH_SIZE@, text::signed_decimal(rows as int))],
    }
}

/// The texts that deciding on a table needs: the list that was read from the option `ns.table_id`
/// of the foreign table in the way, that option in the debug format, and the JSON text of the
/// remote table.
#[derive(Debug)]
pub struct AttachTexts {
    pub existing_id: Option<Result<Vec<String>, String>>,
    pub existing_shown: String,
    pub table_id_json: String,
}

/// The texts that deciding on a table needs, as sequences of characters.
pub ghost struct Texts {
    pub existing_id: Option<Result<order::Texts, Seq<char>>>,
    pub existing_shown: Seq<char>,
    pub table_id_json: Seq<char>,
}

impl DeepView for AttachTexts {
    type V = Texts;

    open spec fn deep_view(&self) -> Texts {
        Texts {
            existing_id: read_texts(self.existing_id),
            existing_shown: self.existing_shown@,
            table_id_json: self.table_id_json@,
        }
    }
}

/// The option `ns.table_id` of the relation that stands under a local name.
pub open spec fn existing_option(existing: Option<Existing>) -> Option<Seq<char>> {
    match existing {
        Some(Existing::ForeignTable { server, ns_table_id }) => ns_table_id,
        _ => None,
    }
}

/// The texts that deciding on the table `id` needs.
pub open spec fn attach_texts(id: order::Texts, existing: Option<Existing>) -> Texts {
    Texts {
        existing_id: option_texts(existing_option(existing)),
        existing_shown: debug_text(existing_option(existing)),
        table_id_json: json::json_array(id),
    }
}

/// What attaching the remote table `id` takes, given the relation that stands under its local
/// name and the texts for the two.
pub open spec fn attach_step(
    id: order::Texts,
    server_name: Seq<char>,
    batch_size: Option<i64>,
    dry_run: bool,
    existing: Option<Existing>,
    texts: Texts,
) -> Step {
    match existing {
        Some(Existing::ForeignTable { server, ns_table_id }) => if server != server_name {
            Step::Finished(
                Err(
                    "foreign table already exists with different server: existing="@ + server
                        + " expected="@ + server_name,
                ),
            )
        } else {
            match id_matches(id, texts.existing_id) {
                Err(message) => Step::Finished(Err(message)),
                Ok(true) => Step::Finished(Ok(AttachOutcome::AlreadyAttached)),
                Ok(false) => Step::Finished(
                    Err(
                        "foreign table already exists with different "@ + OPT_NS_TABLE_ID@
                            + ": existing="@ + texts.existing_shown + " expected="@
                            + texts.table_id_json,
                    ),
                ),
            }
        },
        Some(Existing::Other { relkind }) => Step::Finished(
            Err(
                "relation already exists with relkind='"@ + seq![relkind]
                    + "' (expected foreign table)"@,
            ),
        ),
        None => if dry_run {
            Step::Finished(Ok(AttachOutcome::Planned))
        } else {
            Step::Create { options: table_options(texts.table_id_json, batch_size) }
        },
    }
}

/// Decides what attaching a remote table takes, given the relation that stands under its local
/// name and the texts for the two.
pub fn attach_with_texts(
    table_id: &[String],
    server_name: &str,
    batch_size: Option<i64>,
    dry_run: bool,
    existing: &Option<ExistingRelation>,
    texts: AttachTexts,
) -> (step: AttachStep)
    ensures
        step.deep_view() == attach_step(
            table_id.deep_view(),
            server_name@,
            batch_size,
            dry_run,
            existing.deep_view(),
            texts.deep_view(),
        ),
{
    match existing {
        Some(ExistingRelation::ForeignTable { server, ns_table_id: _ }) => {
            if !server.as_str().eq(server_name) {
                let mut message =
                    "foreign table already exists with different server: existing=".to_owned();
                message.append(server.as_str());
                message.append(" expected=");
                message.append(server_name);
                return AttachStep::Finished(Err(message));
            }
            match read_id_matches(table_id, &texts.existing_id) {
                Err(message) => AttachStep::Finished(Err(message)),
                Ok(matches) => if matches {
                    AttachStep::Finished(Ok(AttachOutcome::AlreadyAttached))
                } else {
                    let mut message = "foreign table already exists with different ".to_owned();
                    message.append(OPT_NS_TABLE_ID);
                    message.append(": existing=");
                    message.append(texts.existing_shown.as_str());
                    message.append(" expected=");
                    message.append(texts.table_id_json.as_str());
                    AttachStep::Finished(Err(message))
                },
            }
        },
        Some(ExistingRelation::Other { relkind }) => {
            let mut message = "relation already exists with relkind='".to_owned();
            let ghost before = message@;
            message.push(*relkind);
            assert(message@ =~= before + seq![*relkind]);
            message.append("' (expected foreign table)");
            AttachStep::Finished(Err(message))
        },
        None => {
            if dry_run {
                return AttachStep::Finished(Ok(AttachOutcome::Planned));
            }
            let ghost json = texts.table_id_json@;
            let mut options: Vec<(String, String)> = Vec::new();
            options.push((OPT_NS_TABLE_ID.to_owned(), texts.table_id_json));
            if let Some(rows) = batch_size {
                options.push((OPT_BATCH_SIZE.to_owned(), text::signed_decimal_text(rows as i128)));
            }
            assert(options.deep_view() =~= table_options(json, batch_size));
            AttachStep::Create { options }
        },
    }
}

/// Whether the first option of a foreign table names the remote table `id`.
pub open spec fn names_table(options: Seq<(Seq<char>, Seq<char>)>, id: order::Texts) -> bool {
    options.len() > 0 && options[0].0 == OPT_NS_TABLE_ID@ && option_texts(Some(options[0].1))
        == Some(Ok::<order::Texts, Seq<char>>(id))
}

/// Decides what attaching a remote table takes, given the relation that stands under its local
/// name: a foreign table of this server for this very table is left alone, any other relation is
/// an error, and with nothing in the way a foreign table is created, or only planned in a dry run.
pub fn attach_one(
    table_id: &[String],
    server_name: &str,
    batch_size: Option<i64>,
    dry_run: bool,
    existing: &Option<ExistingRelation>,
) -> (step: AttachStep)
    ensures
        step.deep_view() == attach_step(
            table_id.deep_view(),
            server_name@,
            batch_size,
            dry_run,
            existing.deep_view(),
            attach_texts(table_id.deep_view(), existing.deep_view()),
        ),
        step matches AttachStep::Create { options } ==> names_table(
            options.deep_view(),
            table_id.deep_view(),
        ),
{
    let option: Option<String> = match existing {
        Some(ExistingRelation::ForeignTable { server: _, ns_table_id }) => match ns_table_id {
            Some(found) => Some(found.clone()),
            None => None,
        },
        _ => None,
    };
    assert(option.deep_view() == existing_option(existing.deep_view()));
    let texts = AttachTexts {
        existing_id: read_option(&option),
        existing_shown: debug_format(&option),
        table_id_json: json::write_json_array(table_id),
    };
    attach_with_texts(table_id, server_name, batch_size, dry_run, existing, texts)
}

/// What creating the foreign table came to.
pub fn attach_created(created: Result<(), String>) -> (r: Result<AttachOutcome, String>)
    ensures
        attach_outcome(r) == (match created {
            Ok(_) => Ok::<AttachOutcome, Seq<char>>(AttachOutcome::Created),
            Err(message) => Err(message@),
        }),
{
    match created {
        Ok(_) => Ok(AttachOutcome::Created),
        Err(message) => Err(message),
    }
}

/// The action, the status and the detail of a table that was attached.
pub open spec fn outcome_texts(done: AttachOutcome) -> (Seq<char>, Seq<char>, Seq<char>) {
    match done {
        AttachOutcome::AlreadyAttached => ("skip_existing"@, "skipped"@, "already attached"@),
        AttachOutcome::Planned => ("create_table"@, "skipped"@, "dry_run"@),
        AttachOutcome::Created => ("create_table"@, "ok"@, "attached"@),
    }
}

/// The row for a table that was attached.
pub open spec fn attached_row(
    id: order::Texts,
    local: (Seq<char>, Seq<char>),
    done: AttachOutcome,
) -> Row {
    let texts = outcome_texts(done);
    (id, local.0, local.1, texts.0, texts.1, texts.2)
}

/// The row for a table that was attached.
pub fn row_attached(table_id: &[String], local: &LocalMapping, done: AttachOutcome) -> (r:
    AttachNamespaceRow)
    ensures
        r.deep_view() == attached_row(table_id.deep_view(), local.deep_view(), done),
{
    let schema = local.0.as_str();
    let table = local.1.as_str();
    match done {
        AttachOutcome::AlreadyAttached => row(
            table_id,
            schema,
            table,
            "skip_existing",
            "skipped",
            "already attached",
        ),
        AttachOutcome::Planned => row(table_id, schema, table, "create_table", "skipped", "dry_run"),
        AttachOutcome::Created => row(table_id, schema, table, "create_table", "ok", "attached"),
    }
}

// ---------------------------------------------------------------------------
// A whole namespace
// ---------------------------------------------------------------------------

/// A table to be attached.
#[derive(Debug)]
pub struct AttachTask {
    pub table_id: TableId,
    pub local: LocalMapping,
    pub batch_size: Option<i64>,
    pub dry_run: bool,
}

/// A table to be attached, if any, with its texts as sequences of characters.
pub open spec fn task_view(task: Option<AttachTask>) -> Option<
    (order::Texts, (Seq<char>, Seq<char>), Option<i64>, bool),
> {
    match task {
        Some(t) => Some((t.table_id.deep_view(), t.local.deep_view(), t.batch_size, t.dry_run)),
        None => None,
    }
}

/// A run that attaches one mapped table after the other.
pub struct AttachRun {
    mapping: Vec<(TableId, LocalMapping)>,
    batch_size: Option<i64>,
    dry_run: bool,
    next: usize,
    rows: Vec<AttachNamespaceRow>,
}

/// The state of a run: the tables to attach, how many were attached, and the rows so far.
pub ghost struct AttachState {
    pub mapping: Seq<(order::Texts, (Seq<char>, Seq<char>))>,
    pub batch_size: Option<i64>,
    pub dry_run: bool,
    pub next: nat,
    pub rows: Seq<Row>,
}

/// The row for what attaching a mapped table came to.
pub open spec fn task_row(
    entry: (order::Texts, (Seq<char>, Seq<char>)),
    done: Result<AttachOutcome, Seq<char>>,
) -> Row {
    match done {
        Ok(outcome) => attached_row(entry.0, entry.1, outcome),
        Err(message) => (entry.0, entry.1.0, entry.1.1, "error"@, "failed"@, message),
    }
}

impl AttachState {
    /// The table to attach next, with the batch size and whether it is only planned.
    pub open spec fn pending(self) -> Option<
        (order::Texts, (Seq<char>, Seq<char>), Option<i64>, bool),
    > {
        if self.next < self.mapping.len() {
            let entry = self.mapping[self.next as int];
            Some((entry.0, entry.1, self.batch_size, self.dry_run))
        } else {
            None
        }
    }

    /// The state behind the outcome of the pending table.
    pub open spec fn after(self, done: Result<AttachOutcome, Seq<char>>) -> AttachState {
        AttachState {
            next: self.next + 1,
            rows: self.rows.push(task_row(self.mapping[self.next as int], done)),
            ..self
        }
    }
}

impl DeepView for AttachRun {
    type V = AttachState;

    closed spec fn deep_view(&self) -> AttachState {
        AttachState {
            mapping: self.mapping.deep_view(),
            batch_size: self.batch_size,
            dry_run: self.dry_run,
            next: self.next as nat,
            rows: self.rows.deep_view(),
        }
    }
}

/// The start of attaching the tables of a namespace.
pub open spec fn attach_start(
    tables: Seq<table_mapping::NamedTableModel>,
    batch_size: Option<i64>,
    dry_run: bool,
) -> Result<AttachState, Seq<char>> {
    match table_mapping::mapping_of(tables) {
        Err(message) => Err(message),
        Ok((conflicts, mapping)) => Ok(
            AttachState {
                mapping,
                batch_size,
                dry_run,
                next: 0,
                rows: conflict_rows(tables, conflicts),
            },
        ),
    }
}

/// Starts attaching the tables of a namespace, which come with the outcome of the naming rule:
/// the tables that share a local name get an error row each, the others are to be attached one by
/// one. Fails with the naming rule's first error.
pub fn attach_namespace(tables: &[NamedTable], batch_size: Option<i64>, dry_run: bool) -> (r:
    Result<AttachRun, String>)
    ensures
        text::outcome(r) == attach_start(tables.deep_view(), batch_size, dry_run),
{
    match table_mapping::build_mapping(tables) {
        Err(message) => Err(message),
        Ok((conflicts, mapping)) => {
            let rows = rows_for_conflicts(tables, conflicts.as_slice());
            Ok(AttachRun { mapping, batch_size, dry_run, next: 0, rows })
        },
    }
}

impl AttachRun {
    /// The table to attach next.
    pub fn task(&self) -> (task: Option<AttachTask>)
        ensures
            task_view(task) == self.deep_view().pending(),
            task is Some <==> self.deep_view().next < self.deep_view().mapping.len(),
            task matches Some(t) ==> {
                &&& (t.table_id.deep_view(), t.local.deep_view())
                    == self.deep_view().mapping[self.deep_view().next as int]
                &&& t.batch_size == self.deep_view().batch_size
                &&& t.dry_run == self.deep_view().dry_run
            },
    {
        assert(self.mapping.deep_view().len() == self.mapping@.len());
        if self.next >= self.mapping.len() {
            return None;
        }
        let entry = &self.mapping[self.next];
        assert(self.mapping.deep_view()[self.next as int] == entry.deep_view());
        Some(
            AttachTask {
                table_id: copy_list(entry.0.as_slice()),
                local: (entry.1.0.clone(), entry.1.1.clone()),
                batch_size: self.batch_size,
                dry_run: self.dry_run,
            },
        )
    }

    /// Takes the outcome of the pending table.
    pub fn finished(&mut self, done: Result<AttachOutcome, String>)
        requires
            old(self).deep_view().next < old(self).deep_view().mapping.len(),
        ensures
            final(self).deep_view() == old(self).deep_view().after(attach_outcome(done)),
    {
        let ghost before = self.deep_view();
        assert(self.mapping.deep_view().len() == self.mapping@.len());
        let entry = &self.mapping[self.next];
        assert(self.mapping.deep_view()[self.next as int] == entry.deep_view());
        let r = match done {
            Ok(outcome) => row_attached(entry.0.as_slice(), &entry.1, outcome),
            Err(message) => row(
                entry.0.as_slice(),
                entry.1.0.as_str(),
                entry.1.1.as_str(),
                "error",
                "failed",
                message.as_str(),
            ),
        };
        self.rows.push(r);
        assert(self.mapping.len() <= usize::MAX);
        self.next = self.next + 1;
        assert(self.rows.deep_view() =~= before.rows.push(r.deep_view()));
    }

    /// The rows of the run.
    pub fn into_rows(self) -> (rows: Vec<AttachNamespaceRow>)
        ensures
            rows.deep_view() == self.deep_view().rows,
    {
        self.rows
    }
}

// ---------------------------------------------------------------------------
// What holds of attaching
// ---------------------------------------------------------------------------

/// The state of a run behind the outcomes `done`.
pub open spec fn attached(
    start: AttachState,
    done: Seq<Result<AttachOutcome, Seq<char>>>,
) -> AttachState
    decreases done.len(),
{
    if done.len() == 0 {
        start
    } else {
        attached(start, done.drop_last()).after(done.last())
    }
}

/// A run gives every mapped table one row, in the order of the mapping, behind the rows of the
/// conflicts.
pub proof fn every_table_gets_one_row(
    start: AttachState,
    done: Seq<Result<AttachOutcome, Seq<char>>>,
)
    requires
        start.next == 0,
        done.len() <= start.mapping.len(),
    ensures
        attached(start, done).next == done.len(),
        attached(start, done).mapping == start.mapping,
        attached(start, done).rows == start.rows + Seq::new(
            done.len(),
            |i: int| task_row(start.mapping[i], done[i]),
        ),
    decreases done.len(),
{
    if done.len() == 0 {
        assert(start.rows + Seq::<Row>::new(0, |i: int| task_row(start.mapping[i], done[i]))
            =~= start.rows);
    } else {
        every_table_gets_one_row(start, done.drop_last());
        assert(attached(start, done).rows =~= start.rows + Seq::new(
            done.len(),
            |i: int| task_row(start.mapping[i], done[i]),
        ));
    }
}

/// A run to its end gives every table of the namespace one row: those that share a local name, and
/// those that were to be attached.
pub proof fn every_listed_table_gets_one_row(
    tables: Seq<table_mapping::NamedTableModel>,
    batch_size: Option<i64>,
    dry_run: bool,
    done: Seq<Result<AttachOutcome, Seq<char>>>,
)
    requires
        attach_start(tables, batch_size, dry_run) is Ok,
        done.len() == attach_start(tables, batch_size, dry_run)->Ok_0.mapping.len(),
    ensures
        attached(attach_start(tables, batch_size, dry_run)->Ok_0, done).rows.len() == tables.len(),
{
    every_table_gets_one_row(attach_start(tables, batch_size, dry_run)->Ok_0, done);
    table_mapping::mapping_covers_all(tables);
}

/// A dry run creates no table: attaching never asks for one.
pub proof fn dry_run_creates_nothing(
    id: order::Texts,
    server_name: Seq<char>,
    batch_size: Option<i64>,
    existing: Option<Existing>,
    texts: Texts,
)
    ensures
        !(attach_step(id, server_name, batch_size, true, existing, texts) is Create),
{
}

/// A table is created only where no relation stands under its local name.
pub proof fn creates_only_where_nothing_stands(
    id: order::Texts,
    server_name: Seq<char>,
    batch_size: Option<i64>,
    dry_run: bool,
    existing: Option<Existing>,
    texts: Texts,
)
    ensures
        attach_step(id, server_name, batch_size, dry_run, existing, texts) is Create <==> existing
            is None && !dry_run,
{
}

/// Attaching a table again changes nothing: a foreign table of this server with options that name
/// the remote table, as those that attaching writes do, counts as attached.
pub proof fn attached_table_is_recognised(
    id: order::Texts,
    server_name: Seq<char>,
    batch_size: Option<i64>,
    dry_run: bool,
    options: Seq<(Seq<char>, Seq<char>)>,
)
    ensures
        names_table(options, id) ==> ({
            let existing = Some(
                Existing::ForeignTable { server: server_name, ns_table_id: Some(options[0].1) },
            );
            attach_step(
                id,
                server_name,
                batch_size,
                dry_run,
                existing,
                attach_texts(id, existing),
            ) == Step::Finished(Ok(AttachOutcome::AlreadyAttached))
        }),
{
}

/// The options that attaching writes are ones that a foreign table may have.
pub proof fn written_options_are_known(table_id_json: Seq<char>, batch_size: Option<i64>, i: int)
    requires
        0 <= i < table_options(table_id_json, batch_size).len(),
    ensures
        settings::known_option(table_options(table_id_json, batch_size)[i].0),
{
    reveal_strlit("ns.table_id");
    reveal_strlit("ns.");
    assert(OPT_NS_TABLE_ID@.take(3) =~= "ns."@);
}

/// A foreign table counts as attached exactly where it is of this server and its option names this
/// very table; of another server, of another table, or of none that can be read, it is in the way,
/// and so is any other relation.
pub proof fn attached_means_same_server_and_table(
    id: order::Texts,
    server_name: Seq<char>,
    batch_size: Option<i64>,
    dry_run: bool,
    server: Seq<char>,
    ns_table_id: Option<Seq<char>>,
    relkind: char,
    texts: Texts,
)
    ensures
        ({
            let step = attach_step(
                id,
                server_name,
                batch_size,
                dry_run,
                Some(Existing::ForeignTable { server, ns_table_id }),
                texts,
            );
            let other = attach_step(
                id,
                server_name,
                batch_size,
                dry_run,
                Some(Existing::Other { relkind }),
                texts,
            );
            &&& step is Finished
            &&& step == Step::Finished(Ok(AttachOutcome::AlreadyAttached)) <==> server
                == server_name && texts.existing_id == Some(Ok::<order::Texts, Seq<char>>(id))
            &&& step != Step::Finished(Ok(AttachOutcome::AlreadyAttached)) ==> step->Finished_0
                is Err
            &&& server != server_name ==> step->Finished_0->Err_0
                == "foreign table already exists with different server: existing="@ + server
                + " expected="@ + server_name
            &&& other is Finished && other->Finished_0 is Err
        }),
{
}

/// With nothing in the way a dry run only plans, and any other run creates the table, by options that
/// name it and, where one is given, the batch size.
pub proof fn table_is_created_by_its_options(
    id: order::Texts,
    server_name: Seq<char>,
    batch_size: Option<i64>,
    texts: Texts,
)
    ensures
        attach_step(id, server_name, batch_size, true, None, texts) == Step::Finished(
            Ok(AttachOutcome::Planned),
        ),
        attach_step(id, server_name, batch_size, false, None, texts) matches Step::Create {
            options,
        } && {
            &&& options.len() == (if batch_size is Some {
                2nat
            } else {
                1
            })
            &&& options[0] == ("ns.table_id"@, texts.table_id_json)
            &&& batch_size matches Some(rows) ==> options[1].0 == "batch_size"@
                && text::integer_value(options[1].1) == Some(rows as int)
        },
{
    if let Some(rows) = batch_size {
        text::signed_decimal_reads_back(rows as int);
    }
}

/// The texts that deciding needs are those of the table and of the option in the way.
pub proof fn texts_are_of_the_table_and_its_option(
    id: order::Texts,
    server: Seq<char>,
    option: Option<Seq<char>>,
)
    ensures
        ({
            let texts = attach_texts(
                id,
                Some(Existing::ForeignTable { server, ns_table_id: option }),
            );
            &&& texts.table_id_json == json::json_array(id)
            &&& texts.existing_shown == debug_text(option)
            &&& option is None ==> texts.existing_id is None
            &&& option matches Some(json) ==> texts.existing_id == Some(json::json_texts(json))
        }),
{
}

/// The row of a table tells its path and its local name, and what came of attaching it: the table is
/// told to be created only where it was.
pub proof fn rows_tell_what_was_done(
    entry: (order::Texts, (Seq<char>, Seq<char>)),
    message: Seq<char>,
)
    ensures
        task_row(entry, Ok(AttachOutcome::Created)) == (
            entry.0,
            entry.1.0,
            entry.1.1,
            "create_table"@,
            "ok"@,
            "attached"@,
        ),
        task_row(entry, Ok(AttachOutcome::Planned)) == (
            entry.0,
            entry.1.0,
            entry.1.1,
            "create_table"@,
            "skipped"@,
            "dry_run"@,
        ),
        task_row(entry, Ok(AttachOutcome::AlreadyAttached)) == (
            entry.0,
            entry.1.0,
            entry.1.1,
            "skip_existing"@,
            "skipped"@,
            "already attached"@,
        ),
        task_row(entry, Err(message)) == (
            entry.0,
            entry.1.0,
            entry.1.1,
            "error"@,
            "failed"@,
            message,
        ),
{
}

/// What was asked for stays: every table of a run is attached with its batch size, and in a dry run
/// only planned.
pub proof fn run_keeps_what_was_asked(
    tables: Seq<table_mapping::NamedTableModel>,
    batch_size: Option<i64>,
    dry_run: bool,
    done: Seq<Result<AttachOutcome, Seq<char>>>,
)
    requires
        attach_start(tables, batch_size, dry_run) is Ok,
    ensures
        ({
            let state = attached(attach_start(tables, batch_size, dry_run)->Ok_0, done);
            &&& state.batch_size == batch_size
            &&& state.dry_run == dry_run
            &&& state.mapping == table_mapping::mapping_of(tables)->Ok_0.1
        }),
    decreases done.len(),
{
    if done.len() > 0 {
        run_keeps_what_was_asked(tables, batch_size, dry_run, done.drop_last());
    }
}

/// A table that shares its local name gets a row under that name, as a failure by the conflict.
pub proof fn conflicts_are_told_under_their_name(
    tables: Seq<table_mapping::NamedTableModel>,
    conflicts: Seq<order::Texts>,
    i: int,
    k: int,
)
    requires
        0 <= i < conflicts.len(),
        0 <= k < tables.len(),
        tables[k].table_id == conflicts[i],
        forall|j: int| 0 <= j < k ==> (#[trigger] tables[j]).table_id != conflicts[i],
    ensures
        conflict_rows(tables, conflicts).len() == conflicts.len(),
        conflict_rows(tables, conflicts)[i] == (
            conflicts[i],
            match tables[k].local {
                Ok(local) => local.0,
                Err(_) => "_"@,
            },
            match tables[k].local {
                Ok(local) => local.1,
                Err(_) => "_"@,
            },
            "error"@,
            "failed"@,
            "mapping conflict: multiple table_id map to the same (schema, table)"@,
        ),
{
    name_is_of_the_table(tables, conflicts[i], k);
}

proof fn name_is_of_the_table(
    tables: Seq<table_mapping::NamedTableModel>,
    id: order::Texts,
    k: int,
)
    requires
        0 <= k < tables.len(),
        tables[k].table_id == id,
        forall|j: int| 0 <= j < k ==> (#[trigger] tables[j]).table_id != id,
    ensures
        local_name(tables, id) == tables[k].local,
    decreases k,
{
    if k > 0 {
        assert(tables[0].table_id != id);
        let rest = tables.drop_first();
        assert forall|j: int| 0 <= j < k - 1 implies (#[trigger] rest[j]).table_id != id by {
            assert(rest[j] == tables[j + 1]);
        }
        name_is_of_the_table(rest, id, k - 1);
    }
}

/// A server is found exactly where its name has no NUL and the catalog has it, and it is the one that
/// the catalog has.
pub proof fn servers_are_those_of_the_catalog(server_name: Seq<char>, found: u32)
    ensures
        server_oid(server_name, found) is Ok <==> !server_name.contains('\0') && found != 0,
        server_oid(server_name, found) matches Ok(oid) ==> oid == found,
{
}

/// A relation is a foreign table exactly where its kind begins with `f`, and there is none exactly
/// where it has no kind; any other is told by the letter of its kind.
pub proof fn relations_are_told_by_their_kind(kind: Seq<char>)
    ensures
        probed(None) == RelationProbe::Absent,
        probed(Some(kind)) != RelationProbe::Absent,
        probed(Some(kind)) == RelationProbe::ForeignTable <==> kind.len() > 0 && kind[0] == 'f',
        kind.len() > 0 && kind[0] != 'f' ==> probed(Some(kind)) == RelationProbe::Other(kind[0]),
        kind.len() == 0 ==> probed(Some(kind)) == RelationProbe::Other('?'),
{
}

/// An option matches a table exactly where it was read as the path of that table.
pub proof fn option_matches_its_table(
    expected: order::Texts,
    actual: Option<Result<order::Texts, Seq<char>>>,
)
    ensures
        id_matches(expected, actual) == Ok::<bool, Seq<char>>(true) <==> actual == Some(
            Ok::<order::Texts, Seq<char>>(expected),
        ),
        id_matches(expected, actual) is Err <==> actual is Some && actual->Some_0 is Err,
{
}

/// Behind `k` tables the next one is that of the mapping, with the batch size that was asked for, and
/// in a dry run only planned; behind all of them there is none.
pub proof fn tables_are_attached_in_turn(
    tables: Seq<table_mapping::NamedTableModel>,
    batch_size: Option<i64>,
    dry_run: bool,
    done: Seq<Result<AttachOutcome, Seq<char>>>,
)
    requires
        attach_start(tables, batch_size, dry_run) is Ok,
        done.len() <= table_mapping::mapping_of(tables)->Ok_0.1.len(),
    ensures
        ({
            let mapping = table_mapping::mapping_of(tables)->Ok_0.1;
            let state = attached(attach_start(tables, batch_size, dry_run)->Ok_0, done);
            &&& done.len() < mapping.len() ==> state.pending() == Some(
                (
                    mapping[done.len() as int].0,
                    mapping[done.len() as int].1,
                    batch_size,
                    dry_run,
                ),
            )
            &&& done.len() == mapping.len() ==> state.pending() is None
        }),
{
    run_keeps_what_was_asked(tables, batch_size, dry_run, done);
    every_table_gets_one_row(attach_start(tables, batch_size, dry_run)->Ok_0, done);
}

/// What is read, and what came of attaching, is taken as it is.
pub proof fn outcomes_are_taken_as_they_are(
    list: Vec<String>,
    e: String,
    done: AttachOutcome,
)
    ensures
        read_texts(None) is None,
        read_texts(Some(Ok(list))) == Some(Ok::<order::Texts, Seq<char>>(list.deep_view())),
        read_texts(Some(Err(e))) == Some(Err::<order::Texts, Seq<char>>(e@)),
        attach_outcome(Ok(done)) == Ok::<AttachOutcome, Seq<char>>(done),
        attach_outcome(Err(e)) == Err::<AttachOutcome, Seq<char>>(e@),
{
}

/// Different relations are asked for by different queries.
pub proof fn queries_tell_relations_apart(a: Seq<char>, b: Seq<char>, same: Seq<char>)
    ensures
        relkind_query(a, same) == relkind_query(b, same) ==> a == b,
        relkind_query(same, a) == relkind_query(same, b) ==> a == b,
        foreign_table_query(same, same, a) == foreign_table_query(same, same, b) ==> a == b,
{
    let front = "SELECT ( SELECT c.relkind::text FROM pg_class c JOIN pg_namespace n ON n.oid = c.relnamespace WHERE n.nspname = "@;
    if relkind_query(a, same) == relkind_query(b, same) {
        let tail = " AND c.relname = "@ + same + " )"@;
        assert(relkind_query(a, same) =~= front + a + tail);
        assert(relkind_query(b, same) =~= front + b + tail);
        text::parts_between_are_alike(front, a, b, tail);
    }
    if relkind_query(same, a) == relkind_query(same, b) {
        let longer = front + same + " AND c.relname = "@;
        text::parts_between_are_alike(longer, a, b, " )"@);
    }
    if foreign_table_query(same, same, a) == foreign_table_query(same, same, b) {
        let longer = "SELECT ( SELECT fs.srvname FROM pg_class c JOIN pg_namespace n ON n.oid = c.relnamespace JOIN pg_foreign_table ft ON ft.ftrelid = c.oid JOIN pg_foreign_server fs ON fs.oid = ft.ftserver WHERE n.nspname = "@
            + same + " AND c.relname = "@ + same
            + " LIMIT 1 ), ( SELECT opt.option_value FROM pg_class c JOIN pg_namespace n ON n.oid = c.relnamespace JOIN pg_foreign_table ft ON ft.ftrelid = c.oid LEFT JOIN LATERAL pg_options_to_table(ft.ftoptions) opt ON opt.option_name = "@;
        let tail = " WHERE n.nspname = "@ + same + " AND c.relname = "@ + same + " LIMIT 1 )"@;
        assert(foreign_table_query(same, same, a) =~= longer + a + tail);
        assert(foreign_table_query(same, same, b) =~= longer + b + tail);
        text::parts_between_are_alike(longer, a, b, tail);
    }
}

/// What is in the way is told of: an option that is no path, another table than the one that was
/// expected, or another kind of relation.
pub proof fn what_is_in_the_way_is_told(
    id: order::Texts,
    server_name: Seq<char>,
    batch_size: Option<i64>,
    dry_run: bool,
    ns_table_id: Option<Seq<char>>,
    relkind: char,
    texts: Texts,
)
    ensures
        ({
            let step = attach_step(
                id,
                server_name,
                batch_size,
                dry_run,
                Some(Existing::ForeignTable { server: server_name, ns_table_id }),
                texts,
            );
            &&& texts.existing_id matches Some(Err(e)) ==> step == Step::Finished(
                Err(
                    "invalid existing option: "@ + "ns.table_id"@
                        + " must be a JSON array of strings, error="@ + e,
                ),
            )
            &&& texts.existing_id is None || (texts.existing_id->Some_0 is Ok
                && texts.existing_id->Some_0->Ok_0 != id) ==> step == Step::Finished(
                Err(
                    "foreign table already exists with different "@ + "ns.table_id"@
                        + ": existing="@ + texts.existing_shown + " expected="@
                        + texts.table_id_json,
                ),
            )
        }),
        attach_step(
            id,
            server_name,
            batch_size,
            dry_run,
            Some(Existing::Other { relkind }),
            texts,
        ) == Step::Finished(
            Err(
                "relation already exists with relkind='"@ + seq![relkind]
                    + "' (expected foreign table)"@,
            ),
        ),
{
}

} // verus!
