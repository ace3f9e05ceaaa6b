//! Bringing the foreign tables of a server in step with a namespace.
use crate::fdw::attach_namespace;
use crate::fdw::attach_namespace::{
    row, row_attached, rows_for_conflicts, AttachNamespaceRow, AttachOutcome,
};
use crate::fdw::column_types;
use crate::fdw::column_types::{detect_schema_drift, Column};
use crate::fdw::local_tables;
use crate::fdw::local_tables::{
    introspect_local_namespace_tables, CatalogRow, LocalNamespaceTable,
};
use crate::fdw::namespace_walk::{copy_list, TableId};
use crate::fdw::table_mapping;
use crate::fdw::table_mapping::{LocalMapping, NamedTable};
use crate::order;
use crate::text;
use vstd::prelude::*;

verus! {

/// How many names a listing of the namespace asks for at once.
pub const DEFAULT_LIMIT_PER_LIST_CALL: i32 = 1000;

/// The detail of the row for a foreign table whose remote table is gone.
pub const NOT_LISTED: &'static str = "local foreign table not found in remote namespace listing";

/// The tables to attach, each with its local name.
pub type Mapping = Seq<(order::Texts, (Seq<char>, Seq<char>))>;

// ---------------------------------------------------------------------------
// The state of a run
// ---------------------------------------------------------------------------

/// Where a run stands: before the catalog was read, at a mapped table, between the two halves of
/// recreating one, at a foreign table whose remote table is gone, or at its failure.
pub ghost enum Stage {
    Catalog,
    Table(int),
    Drop(int, Seq<char>),
    Recreate(int, Seq<char>),
    LocalOnly(int),
    Failed(Seq<char>),
}

/// The state of a run.
pub ghost struct SyncState {
    pub remote: Seq<order::Texts>,
    pub mapping: Mapping,
    pub root: order::Texts,
    pub drop_missing: bool,
    pub recreate_changed: bool,
    pub dry_run: bool,
    pub locals: Seq<(order::Texts, local_tables::LocalModel)>,
    pub local_only: Seq<(order::Texts, (order::Texts, local_tables::LocalModel))>,
    pub rows: Seq<attach_namespace::Row>,
    pub stage: Stage,
}

/// What a run asks for.
pub ghost enum Action {
    ReadCatalog,
    Attach {
        table_id: order::Texts,
        local: (Seq<char>, Seq<char>),
        batch_size: Option<i64>,
        dry_run: bool,
    },
    CompareColumns { table_id: order::Texts, local_table: Seq<char>, relid: u32 },
    DropTable { local: (Seq<char>, Seq<char>) },
    Record,
    Finished,
}

/// What came of an action.
pub ghost enum Event {
    Catalog(Result<Seq<local_tables::CatalogRowModel>, Seq<char>>),
    Attached(Result<AttachOutcome, Seq<char>>),
    Columns(
        Result<(Seq<column_types::ColumnModel>, Seq<column_types::ColumnModel>), Seq<char>>,
    ),
    Dropped(Result<(), Seq<char>>),
    Recorded,
}

/// The foreign tables whose remote tables are not among `remote`, each under its local name.
pub open spec fn unlisted(
    locals: Seq<(order::Texts, local_tables::LocalModel)>,
    remote: Seq<order::Texts>,
) -> Seq<(order::Texts, (order::Texts, local_tables::LocalModel))>
    decreases locals.len(),
{
    if locals.len() == 0 {
        seq![]
    } else if remote.contains(locals.last().0) {
        unlisted(locals.drop_last(), remote)
    } else {
        let local = locals.last().1;
        unlisted(locals.drop_last(), remote).push(
            (seq![local.local_schema, local.local_table], locals.last()),
        )
    }
}

/// The row of a mapped table.
pub open spec fn entry_row(
    entry: (order::Texts, (Seq<char>, Seq<char>)),
    action: Seq<char>,
    status: Seq<char>,
    detail: Seq<char>,
) -> attach_namespace::Row {
    (entry.0, entry.1.0, entry.1.1, action, status, detail)
}

/// The row for a mapped table that was to be created.
pub open spec fn create_row(
    entry: (order::Texts, (Seq<char>, Seq<char>)),
    done: Result<AttachOutcome, Seq<char>>,
) -> attach_namespace::Row {
    match done {
        Ok(outcome) => attach_namespace::attached_row(entry.0, entry.1, outcome),
        Err(message) => entry_row(entry, "create_table"@, "failed"@, message),
    }
}

/// The row for a mapped table that was to be recreated.
pub open spec fn recreate_row(
    entry: (order::Texts, (Seq<char>, Seq<char>)),
    drift: Seq<char>,
    done: Result<AttachOutcome, Seq<char>>,
) -> attach_namespace::Row {
    match done {
        Ok(outcome) => entry_row(
            entry,
            "recreate_table"@,
            attach_namespace::outcome_texts(outcome).1,
            "recreated: "@ + drift,
        ),
        Err(message) => entry_row(
            entry,
            "recreate_table"@,
            "failed"@,
            "failed to recreate foreign table: "@ + message,
        ),
    }
}

/// The row for a mapped table whose foreign table has another local name.
pub open spec fn misplaced_row(
    entry: (order::Texts, (Seq<char>, Seq<char>)),
    local: local_tables::LocalModel,
) -> attach_namespace::Row {
    entry_row(
        entry,
        "drift"@,
        "ok"@,
        "local mapping differs: actual="@ + local.local_schema + "."@ + local.local_table
            + " expected="@ + entry.1.0 + "."@ + entry.1.1,
    )
}

/// The row for a foreign table whose remote table is gone.
pub open spec fn local_row(
    entry: (order::Texts, local_tables::LocalModel),
    action: Seq<char>,
    status: Seq<char>,
    detail: Seq<char>,
) -> attach_namespace::Row {
    (entry.0, entry.1.local_schema, entry.1.local_table, action, status, detail)
}

impl SyncState {
    /// What the run comes to: its rows, or the message at which it stopped.
    pub open spec fn result(self) -> Result<Seq<attach_namespace::Row>, Seq<char>> {
        match self.stage {
            Stage::Failed(message) => Err(message),
            _ => Ok(self.rows),
        }
    }

    /// The stage at the mapped table `i`, or at the first unlisted one where there is no such
    /// table.
    pub open spec fn stage_at(self, i: int) -> Stage {
        if i < self.mapping.len() {
            Stage::Table(i)
        } else {
            Stage::LocalOnly(0)
        }
    }

    /// The state with one row more, at the given stage.
    pub open spec fn recorded(self, r: attach_namespace::Row, stage: Stage) -> SyncState {
        SyncState { rows: self.rows.push(r), stage, ..self }
    }

    /// The foreign table of the mapped table `i`.
    pub open spec fn local_at(self, i: int) -> Option<local_tables::LocalModel> {
        order::value_of(self.locals, self.mapping[i].0)
    }

    /// Whether a foreign table has the local name of the mapped table `i`.
    pub open spec fn in_place(self, i: int, local: local_tables::LocalModel) -> bool {
        local.local_schema == self.mapping[i].1.0 && local.local_table == self.mapping[i].1.1
    }

    /// What the run asks for.
    pub open spec fn action(self) -> Action {
        match self.stage {
            Stage::Catalog => Action::ReadCatalog,
            Stage::Table(i) => match self.local_at(i) {
                None => Action::Attach {
                    table_id: self.mapping[i].0,
                    local: self.mapping[i].1,
                    batch_size: None,
                    dry_run: self.dry_run,
                },
                Some(local) => if self.in_place(i, local) {
                    Action::CompareColumns {
                        table_id: self.mapping[i].0,
                        local_table: self.mapping[i].1.1,
                        relid: local.relid,
                    }
                } else {
                    Action::Record
                },
            },
            Stage::Drop(i, drift) => Action::DropTable { local: self.mapping[i].1 },
            Stage::Recreate(i, drift) => Action::Attach {
                table_id: self.mapping[i].0,
                local: self.mapping[i].1,
                batch_size: match self.local_at(i) {
                    Some(local) => local.batch_size,
                    None => None,
                },
                dry_run: false,
            },
            Stage::LocalOnly(j) => if j >= self.local_only.len() {
                Action::Finished
            } else if !self.drop_missing || self.dry_run {
                Action::Record
            } else {
                let local = self.local_only[j].1.1;
                Action::DropTable { local: (local.local_schema, local.local_table) }
            },
            Stage::Failed(message) => Action::Finished,
        }
    }

    /// The state behind the columns of the mapped table `i`: those that the remote table calls
    /// for, and those of the foreign table.
    pub open spec fn compared(
        self,
        i: int,
        expected: Seq<column_types::ColumnModel>,
        actual: Seq<column_types::ColumnModel>,
    ) -> SyncState {
        let entry = self.mapping[i];
        let next = self.stage_at(i + 1);
        match column_types::schema_drift(entry.1.0, entry.1.1, expected, actual) {
            None => self.recorded(entry_row(entry, "in_sync"@, "ok"@, "up to date"@), next),
            Some(drift) => if !self.recreate_changed {
                self.recorded(entry_row(entry, "drift"@, "ok"@, drift), next)
            } else if self.dry_run {
                self.recorded(
                    entry_row(entry, "recreate_table"@, "skipped"@, "dry_run: "@ + drift),
                    next,
                )
            } else {
                SyncState { stage: Stage::Drop(i, drift), ..self }
            },
        }
    }

    /// The state behind what came of the action.
    pub open spec fn after(self, event: Event) -> SyncState {
        match (self.stage, event) {
            (Stage::Catalog, Event::Catalog(Err(message))) => SyncState {
                stage: Stage::Failed(message),
                ..self
            },
            (Stage::Catalog, Event::Catalog(Ok(catalog))) => {
                let found = local_tables::local_tables(catalog, self.root);
                SyncState {
                    rows: self.rows + found.errors,
                    locals: found.tables,
                    local_only: order::sorted_by_key(unlisted(found.tables, self.remote)),
                    stage: self.stage_at(0),
                    ..self
                }
            },
            (Stage::Table(i), Event::Attached(done)) => self.recorded(
                create_row(self.mapping[i], done),
                self.stage_at(i + 1),
            ),
            (Stage::Table(i), Event::Recorded) => match self.local_at(i) {
                Some(local) => self.recorded(
                    misplaced_row(self.mapping[i], local),
                    self.stage_at(i + 1),
                ),
                None => self,
            },
            (Stage::Table(i), Event::Columns(Err(message))) => SyncState {
                stage: Stage::Failed(message),
                ..self
            },
            (Stage::Table(i), Event::Columns(Ok((expected, actual)))) => self.compared(
                i,
                expected,
                actual,
            ),
            (Stage::Drop(i, drift), Event::Dropped(Ok(_))) => SyncState {
                stage: Stage::Recreate(i, drift),
                ..self
            },
            (Stage::Drop(i, drift), Event::Dropped(Err(message))) => self.recorded(
                entry_row(
                    self.mapping[i],
                    "recreate_table"@,
                    "failed"@,
                    "failed to drop existing foreign table: "@ + message,
                ),
                self.stage_at(i + 1),
            ),
            (Stage::Recreate(i, drift), Event::Attached(done)) => self.recorded(
                recreate_row(self.mapping[i], drift, done),
                self.stage_at(i + 1),
            ),
            (Stage::LocalOnly(j), Event::Recorded) => if !self.drop_missing {
                self.recorded(
                    local_row(self.local_only[j].1, "drift"@, "ok"@, NOT_LISTED@),
                    Stage::LocalOnly(j + 1),
                )
            } else {
                self.recorded(
                    local_row(self.local_only[j].1, "drop_table"@, "skipped"@, "dry_run"@),
                    Stage::LocalOnly(j + 1),
                )
            },
            (Stage::LocalOnly(j), Event::Dropped(Ok(_))) => self.recorded(
                local_row(self.local_only[j].1, "drop_table"@, "ok"@, "dropped"@),
                Stage::LocalOnly(j + 1),
            ),
            (Stage::LocalOnly(j), Event::Dropped(Err(message))) => self.recorded(
                local_row(self.local_only[j].1, "drop_table"@, "failed"@, message),
                Stage::LocalOnly(j + 1),
            ),
            _ => self,
        }
    }

    /// What every run keeps: its stage lies within its tables, and a table is dropped to be
    /// recreated only where that was asked for and the run is no dry run.
    pub open spec fn valid(self) -> bool {
        match self.stage {
            Stage::Table(i) => 0 <= i < self.mapping.len(),
            Stage::Drop(i, _) => 0 <= i < self.mapping.len() && self.recreate_changed
                && !self.dry_run && self.local_at(i) is Some,
            Stage::Recreate(i, _) => 0 <= i < self.mapping.len() && self.recreate_changed
                && !self.dry_run && self.local_at(i) is Some,
            Stage::LocalOnly(j) => 0 <= j <= self.local_only.len(),
            _ => true,
        }
    }
}

/// Whether an event is one that can come of an action.
pub open spec fn answers(action: Action, event: Event) -> bool {
    match action {
        Action::ReadCatalog => event is Catalog,
        Action::Attach { .. } => event is Attached,
        Action::CompareColumns { .. } => event is Columns,
        Action::DropTable { .. } => event is Dropped,
        Action::Record => event is Recorded,
        Action::Finished => false,
    }
}

/// The start of a run on the given tables.
pub open spec fn sync_start(
    tables: Seq<table_mapping::NamedTableModel>,
    root: order::Texts,
    drop_missing: bool,
    recreate_changed: bool,
    dry_run: bool,
) -> Result<SyncState, Seq<char>> {
    match table_mapping::mapping_of(tables) {
        Err(message) => Err(message),
        Ok((conflicts, mapping)) => Ok(
            SyncState {
                remote: table_mapping::ids_of(tables),
                mapping,
                root,
                drop_missing,
                recreate_changed,
                dry_run,
                locals: seq![],
                local_only: seq![],
                rows: attach_namespace::conflict_rows(tables, conflicts),
                stage: Stage::Catalog,
            },
        ),
    }
}

// ---------------------------------------------------------------------------
// The run
// ---------------------------------------------------------------------------

enum RunStage {
    Catalog,
    Table(usize),
    Drop(usize, String),
    Recreate(usize, String),
    LocalOnly(usize),
    Failed(String),
}

impl RunStage {
    spec fn model(self) -> Stage {
        match self {
            RunStage::Catalog => Stage::Catalog,
            RunStage::Table(i) => Stage::Table(i as int),
            RunStage::Drop(i, drift) => Stage::Drop(i as int, drift@),
            RunStage::Recreate(i, drift) => Stage::Recreate(i as int, drift@),
            RunStage::LocalOnly(j) => Stage::LocalOnly(j as int),
            RunStage::Failed(message) => Stage::Failed(message@),
        }
    }
}

/// A run that brings the foreign tables of a server in step with a namespace.
pub struct SyncRun {
    remote: Vec<TableId>,
    mapping: Vec<(TableId, LocalMapping)>,
    root: TableId,
    drop_missing: bool,
    recreate_changed: bool,
    dry_run: bool,
    locals: Vec<(TableId, LocalNamespaceTable)>,
    local_only: Vec<(Vec<String>, (TableId, LocalNamespaceTable))>,
    rows: Vec<AttachNamespaceRow>,
    stage: RunStage,
}

impl DeepView for SyncRun {
    type V = SyncState;

    closed spec fn deep_view(&self) -> SyncState {
        SyncState {
            remote: self.remote.deep_view(),
            mapping: self.mapping.deep_view(),
            root: self.root.deep_view(),
            drop_missing: self.drop_missing,
            recreate_changed: self.recreate_changed,
            dry_run: self.dry_run,
            locals: self.locals.deep_view(),
            local_only: self.local_only.deep_view(),
            rows: self.rows.deep_view(),
            stage: self.stage.model(),
        }
    }
}

/// What a run asks for.
#[derive(Debug)]
pub enum SyncAction {
    ReadCatalog,
    Attach { table_id: TableId, local: LocalMapping, batch_size: Option<i64>, dry_run: bool },
    CompareColumns { table_id: TableId, local_table: String, relid: u32 },
    DropTable { local: LocalMapping },
    Record,
    Finished,
}

impl DeepView for SyncAction {
    type V = Action;

    open spec fn deep_view(&self) -> Action {
        match *self {
            SyncAction::ReadCatalog => Action::ReadCatalog,
            SyncAction::Attach { table_id, local, batch_size, dry_run } => Action::Attach {
                table_id: table_id.deep_view(),
                local: local.deep_view(),
                batch_size,
                dry_run,
            },
            SyncAction::CompareColumns { table_id, local_table, relid } => Action::CompareColumns {
                table_id: table_id.deep_view(),
                local_table: local_table@,
                relid,
            },
            SyncAction::DropTable { local } => Action::DropTable { local: local.deep_view() },
            SyncAction::Record => Action::Record,
            SyncAction::Finished => Action::Finished,
        }
    }
}

/// What came of an action: the catalog rows, the outcome of attaching, the columns that a remote
/// table calls for and those of its foreign table, the outcome of dropping.
#[derive(Debug)]
pub enum SyncEvent {
    Catalog(Result<Vec<CatalogRow>, String>),
    Attached(Result<AttachOutcome, String>),
    Columns(Result<(Vec<Column>, Vec<Column>), String>),
    Dropped(Result<(), String>),
    Recorded,
}

impl DeepView for SyncEvent {
    type V = Event;

    open spec fn deep_view(&self) -> Event {
        match *self {
            SyncEvent::Catalog(r) => Event::Catalog(text::outcome(r)),
            SyncEvent::Attached(r) => Event::Attached(attach_namespace::attach_outcome(r)),
            SyncEvent::Columns(r) => Event::Columns(text::outcome(r)),
            SyncEvent::Dropped(r) => Event::Dropped(
                match r {
                    Ok(_) => Ok(()),
                    Err(message) => Err(message@),
                },
            ),
            SyncEvent::Recorded => Event::Recorded,
        }
    }
}

fn copy_local(local: &LocalNamespaceTable) -> (copy: LocalNamespaceTable)
    ensures
        copy.deep_view() == local.deep_view(),
{
    LocalNamespaceTable {
        local_schema: local.local_schema.clone(),
        local_table: local.local_table.clone(),
        relid: local.relid,
        batch_size: local.batch_size,
    }
}

fn listed(remote: &Vec<TableId>, id: &[String]) -> (b: bool)
    ensures
        b == remote.deep_view().contains(id.deep_view()),
{
    let ghost all = remote.deep_view();
    let ghost k = id.deep_view();
    assert(all.len() == remote@.len());
    for i in 0..remote.len()
        invariant
            all == remote.deep_view(),
            all.len() == remote@.len(),
            k == id.deep_view(),
            forall|j: int| 0 <= j < i ==> all[j] != k,
    {
        assert(all[i as int] == remote@[i as int].deep_view());
        if order::same_lists(remote[i].as_slice(), id) {
            return true;
        }
    }
    false
}

fn find_unlisted(locals: &Vec<(TableId, LocalNamespaceTable)>, remote: &Vec<TableId>) -> (r: Vec<
    (Vec<String>, (TableId, LocalNamespaceTable)),
>)
    ensures
        r.deep_view() == unlisted(locals.deep_view(), remote.deep_view()),
{
    let ghost all = locals.deep_view();
    let ghost known = remote.deep_view();
    let mut r: Vec<(Vec<String>, (TableId, LocalNamespaceTable))> = Vec::new();
    assert(r.deep_view() =~= seq![]);
    for i in 0..locals.len()
        invariant
            all == locals.deep_view(),
            known == remote.deep_view(),
            r.deep_view() == unlisted(all.take(i as int), known),
    {
        let ghost before = r.deep_view();
        let entry = &locals[i];
        assert(all[i as int] == entry.deep_view());
        assert(all.take(i + 1).drop_last() =~= all.take(i as int));
        if !listed(remote, entry.0.as_slice()) {
            let mut key: Vec<String> = Vec::new();
            key.push(entry.1.local_schema.clone());
            key.push(entry.1.local_table.clone());
            assert(key.deep_view() =~= seq![entry.1.local_schema@, entry.1.local_table@]);
            let one = (key, (copy_list(entry.0.as_slice()), copy_local(&entry.1)));
            r.push(one);
            assert(r.deep_view() =~= before.push(one.deep_view()));
        }
    }
    assert(all.take(all.len() as int) =~= all);
    r
}

fn copy_ids(tables: &[NamedTable]) -> (ids: Vec<TableId>)
    ensures
        ids.deep_view() == table_mapping::ids_of(tables.deep_view()),
{
    let ghost all = tables.deep_view();
    let mut ids: Vec<TableId> = Vec::new();
    for i in 0..tables.len()
        invariant
            all == tables.deep_view(),
            ids.deep_view() == table_mapping::ids_of(all.take(i as int)),
    {
        let ghost before = ids.deep_view();
        let id = copy_list(tables[i].table_id.as_slice());
        assert(all[i as int] == tables@[i as int].deep_view());
        ids.push(id);
        assert(ids.deep_view() =~= before.push(id.deep_view()));
        assert(table_mapping::ids_of(all.take(i + 1)) =~= table_mapping::ids_of(all.take(i as int)).push(
            all[i as int].table_id,
        ));
    }
    assert(all.take(all.len() as int) =~= all);
    ids
}

/// Starts bringing the foreign tables of a server in step with a namespace, whose tables come with
/// the outcome of the naming rule: the tables that share a local name get an error row each.
/// Fails with the naming rule's first error.
pub fn sync_namespace(
    tables: &[NamedTable],
    root_namespace_id: TableId,
    drop_missing: bool,
    recreate_changed: bool,
    dry_run: bool,
) -> (r: Result<SyncRun, String>)
    ensures
        text::outcome(r) == sync_start(
            tables.deep_view(),
            root_namespace_id.deep_view(),
            drop_missing,
            recreate_changed,
            dry_run,
        ),
        r matches Ok(run) ==> run.deep_view().valid(),
{
    match table_mapping::build_mapping(tables) {
        Err(message) => Err(message),
        Ok((conflicts, mapping)) => {
            let run = SyncRun {
                remote: copy_ids(tables),
                mapping,
                root: root_namespace_id,
                drop_missing,
                recreate_changed,
                dry_run,
                locals: Vec::new(),
                local_only: Vec::new(),
                rows: rows_for_conflicts(tables, conflicts.as_slice()),
                stage: RunStage::Catalog,
            };
            assert(run.locals.deep_view() =~= seq![]);
            assert(run.local_only.deep_view() =~= seq![]);
            Ok(run)
        },
    }
}

fn entry_text_row(
    entry: &(TableId, LocalMapping),
    action: &str,
    status: &str,
    detail: &str,
) -> (r: AttachNamespaceRow)
    ensures
        r.deep_view() == entry_row(entry.deep_view(), action@, status@, detail@),
{
    row(entry.0.as_slice(), entry.1.0.as_str(), entry.1.1.as_str(), action, status, detail)
}

fn local_text_row(
    entry: &(TableId, LocalNamespaceTable),
    action: &str,
    status: &str,
    detail: &str,
) -> (r: AttachNamespaceRow)
    ensures
        r.deep_view() == local_row(entry.deep_view(), action@, status@, detail@),
{
    row(
        entry.0.as_slice(),
        entry.1.local_schema.as_str(),
        entry.1.local_table.as_str(),
        action,
        status,
        detail,
    )
}

fn prefixed(prefix: &str, detail: &str) -> (s: String)
    ensures
        s@ == prefix@ + detail@,
{
    let mut s = prefix.to_owned();
    s.append(detail);
    s
}

fn outcome_status(done: AttachOutcome) -> (status: String)
    ensures
        status@ == attach_namespace::outcome_texts(done).1,
{
    match done {
        AttachOutcome::AlreadyAttached => "skipped".to_owned(),
        AttachOutcome::Planned => "skipped".to_owned(),
        AttachOutcome::Created => "ok".to_owned(),
    }
}

impl SyncRun {
    fn local_of(&self, i: usize) -> (local: Option<&LocalNamespaceTable>)
        requires
            i < self.mapping@.len(),
        ensures
            local.deep_view() == self.deep_view().local_at(i as int),
    {
        let ghost mapping = self.mapping.deep_view();
        let ghost locals = self.locals.deep_view();
        assert(mapping[i as int] == self.mapping@[i as int].deep_view());
        assert(locals.len() == self.locals@.len());
        let id = self.mapping[i].0.as_slice();
        let k = order::find_slot(&self.locals, id);
        if k < self.locals.len() {
            assert(locals[k as int] == self.locals@[k as int].deep_view());
            if order::same_lists(self.locals[k].0.as_slice(), id) {
                return Some(&self.locals[k].1);
            }
        }
        None
    }

    fn in_place(&self, i: usize, local: &LocalNamespaceTable) -> (b: bool)
        requires
            i < self.mapping@.len(),
        ensures
            b == self.deep_view().in_place(i as int, local.deep_view()),
    {
        assert(self.mapping.deep_view()[i as int] == self.mapping@[i as int].deep_view());
        let entry = &self.mapping[i];
        local.local_schema.as_str().eq(entry.1.0.as_str()) && local.local_table.as_str().eq(
            entry.1.1.as_str(),
        )
    }

    fn copy_local_name(&self, i: usize) -> (local: LocalMapping)
        requires
            i < self.mapping@.len(),
        ensures
            local.deep_view() == self.deep_view().mapping[i as int].1,
    {
        assert(self.mapping.deep_view()[i as int] == self.mapping@[i as int].deep_view());
        (self.mapping[i].1.0.clone(), self.mapping[i].1.1.clone())
    }

    fn copy_id(&self, i: usize) -> (id: TableId)
        requires
            i < self.mapping@.len(),
        ensures
            id.deep_view() == self.deep_view().mapping[i as int].0,
    {
        assert(self.mapping.deep_view()[i as int] == self.mapping@[i as int].deep_view());
        copy_list(self.mapping[i].0.as_slice())
    }

    /// What the run asks for.
    pub fn action(&self) -> (action: SyncAction)
        requires
            self.deep_view().valid(),
        ensures
            action.deep_view() == self.deep_view().action(),
    {
        assert(self.mapping.deep_view().len() == self.mapping@.len());
        assert(self.local_only.deep_view().len() == self.local_only@.len());
        match &self.stage {
            RunStage::Catalog => SyncAction::ReadCatalog,
            RunStage::Table(i) => match self.local_of(*i) {
                None => SyncAction::Attach {
                    table_id: self.copy_id(*i),
                    local: self.copy_local_name(*i),
                    batch_size: None,
                    dry_run: self.dry_run,
                },
                Some(local) => if self.in_place(*i, local) {
                    SyncAction::CompareColumns {
                        table_id: self.copy_id(*i),
                        local_table: self.copy_local_name(*i).1,
                        relid: local.relid,
                    }
                } else {
                    SyncAction::Record
                },
            },
            RunStage::Drop(i, _) => SyncAction::DropTable { local: self.copy_local_name(*i) },
            RunStage::Recreate(i, _) => {
                let batch_size: Option<i64> = match self.local_of(*i) {
                    Some(local) => local.batch_size,
                    None => None,
                };
                SyncAction::Attach {
                    table_id: self.copy_id(*i),
                    local: self.copy_local_name(*i),
                    batch_size,
                    dry_run: false,
                }
            },
            RunStage::LocalOnly(j) => if *j >= self.local_only.len() {
                SyncAction::Finished
            } else if !self.drop_missing || self.dry_run {
                SyncAction::Record
            } else {
                let entry = &self.local_only[*j];
                assert(self.local_only.deep_view()[*j as int] == entry.deep_view());
                SyncAction::DropTable {
                    local: (entry.1.1.local_schema.clone(), entry.1.1.local_table.clone()),
                }
            },
            RunStage::Failed(_) => SyncAction::Finished,
        }
    }

    fn record(&mut self, r: AttachNamespaceRow, stage: RunStage)
        ensures
            final(self).deep_view() == old(self).deep_view().recorded(
                r.deep_view(),
                stage.model(),
            ),
    {
        let ghost before = self.rows.deep_view();
        self.rows.push(r);
        assert(self.rows.deep_view() =~= before.push(r.deep_view()));
        self.stage = stage;
    }

    fn stage_behind(&self, i: usize) -> (stage: RunStage)
        requires
            i < self.mapping@.len(),
        ensures
            stage.model() == self.deep_view().stage_at(i + 1),
    {
        assert(self.mapping.deep_view().len() == self.mapping@.len());
        if i < self.mapping.len() - 1 {
            RunStage::Table(i + 1)
        } else {
            RunStage::LocalOnly(0)
        }
    }

    fn take_catalog(&mut self, rows: Vec<CatalogRow>)
        requires
            old(self).deep_view().stage is Catalog,
        ensures
            final(self).deep_view() == old(self).deep_view().after(
                Event::Catalog(Ok(rows.deep_view())),
            ),
    {
        let ghost before = self.deep_view();
        let mut found = introspect_local_namespace_tables(rows.as_slice(), self.root.as_slice());
        let ghost model = found.deep_view();
        let missing = find_unlisted(&found.tables, &self.remote);
        self.local_only = order::sort_by_key(missing);
        let ghost own = self.rows@;
        let ghost new = found.errors@;
        self.rows.append(&mut found.errors);
        assert(self.rows@ == own + new);
        assert(self.rows.deep_view() =~= before.rows + model.errors);
        self.locals = found.tables;
        assert(self.mapping.deep_view().len() == self.mapping@.len());
        self.stage =
        if self.mapping.len() > 0 {
            RunStage::Table(0)
        } else {
            RunStage::LocalOnly(0)
        };
    }

    fn take_columns(&mut self, i: usize, expected: Vec<Column>, actual: Vec<Column>)
        requires
            old(self).deep_view().stage == Stage::Table(i as int),
            i < old(self).mapping@.len(),
        ensures
            final(self).deep_view() == old(self).deep_view().compared(
                i as int,
                expected.deep_view(),
                actual.deep_view(),
            ),
    {
        assert(self.mapping.deep_view()[i as int] == self.mapping@[i as int].deep_view());
        let entry = &self.mapping[i];
        let drift = detect_schema_drift(
            entry.1.0.as_str(),
            entry.1.1.as_str(),
            expected.as_slice(),
            actual.as_slice(),
        );
        match drift {
            None => {
                let r = entry_text_row(entry, "in_sync", "ok", "up to date");
                let next = self.stage_behind(i);
                self.record(r, next);
            },
            Some(drift) => {
                if !self.recreate_changed {
                    let r = entry_text_row(entry, "drift", "ok", drift.as_str());
                    let next = self.stage_behind(i);
                    self.record(r, next);
                } else if self.dry_run {
                    let detail = prefixed("dry_run: ", drift.as_str());
                    let r = entry_text_row(entry, "recreate_table", "skipped", detail.as_str());
                    let next = self.stage_behind(i);
                    self.record(r, next);
                } else {
                    self.stage = RunStage::Drop(i, drift);
                }
            },
        }
    }

    fn take_attached(&mut self, i: usize, done: Result<AttachOutcome, String>)
        requires
            old(self).deep_view().stage == Stage::Table(i as int),
            i < old(self).mapping@.len(),
        ensures
            final(self).deep_view() == old(self).deep_view().after(
                Event::Attached(attach_namespace::attach_outcome(done)),
            ),
    {
        assert(self.mapping.deep_view()[i as int] == self.mapping@[i as int].deep_view());
        let entry = &self.mapping[i];
        let r = match done {
            Ok(outcome) => row_attached(entry.0.as_slice(), &entry.1, outcome),
            Err(message) => entry_text_row(entry, "create_table", "failed", message.as_str()),
        };
        let next = self.stage_behind(i);
        self.record(r, next);
    }

    fn take_recreated(&mut self, i: usize, drift: String, done: Result<AttachOutcome, String>)
        requires
            old(self).deep_view().stage == Stage::Recreate(i as int, drift@),
            i < old(self).mapping@.len(),
        ensures
            final(self).deep_view() == old(self).deep_view().after(
                Event::Attached(attach_namespace::attach_outcome(done)),
            ),
    {
        assert(self.mapping.deep_view()[i as int] == self.mapping@[i as int].deep_view());
        let entry = &self.mapping[i];
        let r = match done {
            Ok(outcome) => {
                let detail = prefixed("recreated: ", drift.as_str());
                let status = outcome_status(outcome);
                entry_text_row(entry, "recreate_table", status.as_str(), detail.as_str())
            },
            Err(message) => {
                let detail = prefixed("failed to recreate foreign table: ", message.as_str());
                entry_text_row(entry, "recreate_table", "failed", detail.as_str())
            },
        };
        let next = self.stage_behind(i);
        self.record(r, next);
    }

    fn take_misplaced(&mut self, i: usize)
        requires
            old(self).deep_view().stage == Stage::Table(i as int),
            i < old(self).mapping@.len(),
            old(self).deep_view().local_at(i as int) is Some,
        ensures
            final(self).deep_view() == old(self).deep_view().after(Event::Recorded),
    {
        assert(self.mapping.deep_view()[i as int] == self.mapping@[i as int].deep_view());
        let entry = &self.mapping[i];
        if let Some(local) = self.local_of(i) {
            let mut detail = "local mapping differs: actual=".to_owned();
            detail.append(local.local_schema.as_str());
            detail.append(".");
            detail.append(local.local_table.as_str());
            detail.append(" expected=");
            detail.append(entry.1.0.as_str());
            detail.append(".");
            detail.append(entry.1.1.as_str());
            let r = entry_text_row(entry, "drift", "ok", detail.as_str());
            let next = self.stage_behind(i);
            self.record(r, next);
        }
    }

    fn take_dropped(&mut self, i: usize, drift: String, done: Result<(), String>)
        requires
            old(self).deep_view().stage == Stage::Drop(i as int, drift@),
            i < old(self).mapping@.len(),
        ensures
            final(self).deep_view() == old(self).deep_view().after(
                SyncEvent::Dropped(done).deep_view(),
            ),
    {
        assert(self.mapping.deep_view()[i as int] == self.mapping@[i as int].deep_view());
        match done {
            Ok(_) => {
                self.stage = RunStage::Recreate(i, drift);
            },
            Err(message) => {
                let detail = prefixed("failed to drop existing foreign table: ", message.as_str());
                let entry = &self.mapping[i];
                let r = entry_text_row(entry, "recreate_table", "failed", detail.as_str());
                let next = self.stage_behind(i);
                self.record(r, next);
            },
        }
    }

    fn take_local_only(&mut self, j: usize, dropped: Option<Result<(), String>>)
        requires
            old(self).deep_view().stage == Stage::LocalOnly(j as int),
            j < old(self).local_only@.len(),
        ensures
            final(self).deep_view() == old(self).deep_view().after(
                match dropped {
                    Some(done) => SyncEvent::Dropped(done).deep_view(),
                    None => Event::Recorded,
                },
            ),
    {
        assert(self.local_only.deep_view()[j as int] == self.local_only@[j as int].deep_view());
        assert(self.local_only.len() <= usize::MAX);
        let entry = &self.local_only[j].1;
        let r = match dropped {
            Some(Ok(_)) => local_text_row(entry, "drop_table", "ok", "dropped"),
            Some(Err(message)) => local_text_row(entry, "drop_table", "failed", message.as_str()),
            None => if !self.drop_missing {
                local_text_row(entry, "drift", "ok", NOT_LISTED)
            } else {
                local_text_row(entry, "drop_table", "skipped", "dry_run")
            },
        };
        self.record(r, RunStage::LocalOnly(j + 1));
    }

    /// Takes what came of the action.
    pub fn resume(&mut self, event: SyncEvent)
        requires
            old(self).deep_view().valid(),
            answers(old(self).deep_view().action(), event.deep_view()),
        ensures
            final(self).deep_view() == old(self).deep_view().after(event.deep_view()),
            final(self).deep_view().valid(),
    {
        assert(self.mapping.deep_view().len() == self.mapping@.len());
        assert(self.local_only.deep_view().len() == self.local_only@.len());
        let ghost before = self.deep_view();
        proof {
            valid_stays(before, event.deep_view());
        }
        match event {
            SyncEvent::Catalog(Ok(rows)) => {
                self.take_catalog(rows);
            },
            SyncEvent::Catalog(Err(message)) => {
                self.stage = RunStage::Failed(message);
            },
            SyncEvent::Columns(Ok((expected, actual))) => {
                if let RunStage::Table(i) = self.stage {
                    self.take_columns(i, expected, actual);
                }
            },
            SyncEvent::Columns(Err(message)) => {
                self.stage = RunStage::Failed(message);
            },
            SyncEvent::Attached(done) => match &self.stage {
                RunStage::Table(i) => {
                    let i: usize = *i;
                    self.take_attached(i, done);
                },
                RunStage::Recreate(i, drift) => {
                    let i: usize = *i;
                    let drift = drift.clone();
                    self.take_recreated(i, drift, done);
                },
                _ => {},
            },
            SyncEvent::Dropped(done) => match &self.stage {
                RunStage::Drop(i, drift) => {
                    let i: usize = *i;
                    let drift = drift.clone();
                    self.take_dropped(i, drift, done);
                },
                RunStage::LocalOnly(j) => {
                    let j: usize = *j;
                    self.take_local_only(j, Some(done));
                },
                _ => {},
            },
            SyncEvent::Recorded => match &self.stage {
                RunStage::Table(i) => {
                    let i: usize = *i;
                    self.take_misplaced(i);
                },
                RunStage::LocalOnly(j) => {
                    let j: usize = *j;
                    self.take_local_only(j, None);
                },
                _ => {},
            },
        }
    }

    /// The rows of the run, or the error at which it stopped.
    pub fn into_rows(self) -> (r: Result<Vec<AttachNamespaceRow>, String>)
        ensures
            text::outcome(r) == self.deep_view().result(),
            text::outcome(r) == (match self.deep_view().stage {
                Stage::Failed(message) => Err(message),
                _ => Ok(self.deep_view().rows),
            }),
    {
        match self.stage {
            RunStage::Failed(message) => Err(message),
            _ => Ok(self.rows),
        }
    }
}

// ---------------------------------------------------------------------------
// What holds of a run
// ---------------------------------------------------------------------------

/// A run stays valid.
pub proof fn valid_stays(state: SyncState, event: Event)
    requires
        state.valid(),
        answers(state.action(), event),
    ensures
        state.after(event).valid(),
{
}

/// A dry run drops no table and attaches none.
pub proof fn dry_run_changes_nothing(state: SyncState)
    requires
        state.valid(),
        state.dry_run,
    ensures
        !(state.action() is DropTable),
        state.action() is Attach ==> state.action()->Attach_dry_run,
{
}

/// A table is dropped only where its remote table is gone and that is asked for, or where its
/// columns differ and it is to be recreated.
pub proof fn drops_only_on_demand(state: SyncState)
    requires
        state.valid(),
        state.action() is DropTable,
    ensures
        !state.dry_run,
        state.stage is LocalOnly ==> state.drop_missing,
        !(state.stage is LocalOnly) ==> state.stage is Drop && state.recreate_changed,
{
}

/// A foreign table that has its local name and the columns of its remote table, however their types
/// are spelled, is left alone.
pub proof fn table_in_step_is_left_alone(
    state: SyncState,
    i: int,
    local: local_tables::LocalModel,
    columns: Seq<column_types::ColumnModel>,
)
    requires
        state.valid(),
        state.stage == Stage::Table(i),
        state.local_at(i) == Some(local),
        state.in_place(i, local),
    ensures
        state.action() is CompareColumns,
        state.after(Event::Columns(Ok((columns, column_types::normalized(columns)))))
            == state.recorded(
            entry_row(state.mapping[i], "in_sync"@, "ok"@, "up to date"@),
            state.stage_at(i + 1),
        ),
{
    let entry = state.mapping[i];
    column_types::respelling_is_no_drift(entry.1.0, entry.1.1, columns);
}

/// The state behind the events `events`.
pub open spec fn ran(start: SyncState, events: Seq<Event>) -> SyncState
    decreases events.len(),
{
    if events.len() == 0 {
        start
    } else {
        ran(start, events.drop_last()).after(events.last())
    }
}

/// Whether each event answers what the run asks for.
pub open spec fn answered(start: SyncState, events: Seq<Event>) -> bool
    decreases events.len(),
{
    events.len() > 0 ==> answered(start, events.drop_last()) && answers(
        ran(start, events.drop_last()).action(),
        events.last(),
    )
}

/// The paths in the rows.
pub open spec fn row_ids(rows: Seq<attach_namespace::Row>) -> Seq<order::Texts> {
    rows.map_values(|r: attach_namespace::Row| r.0)
}

/// The paths of the mapped tables.
pub open spec fn mapped_ids(state: SyncState) -> Seq<order::Texts> {
    state.mapping.map_values(|entry: (order::Texts, (Seq<char>, Seq<char>))| entry.0)
}

/// The paths of the foreign tables whose remote tables are gone.
pub open spec fn local_only_ids(state: SyncState) -> Seq<order::Texts> {
    state.local_only.map_values(
        |entry: (order::Texts, (order::Texts, local_tables::LocalModel))| entry.1.0,
    )
}

/// The paths of the tables that a run has dealt with.
pub open spec fn settled_ids(state: SyncState) -> Seq<order::Texts> {
    match state.stage {
        Stage::Catalog => seq![],
        Stage::Table(i) => mapped_ids(state).take(i),
        Stage::Drop(i, _) => mapped_ids(state).take(i),
        Stage::Recreate(i, _) => mapped_ids(state).take(i),
        Stage::LocalOnly(j) => mapped_ids(state) + local_only_ids(state).take(j),
        Stage::Failed(_) => seq![],
    }
}

/// Behind the catalog, a run gives each mapped table one row, in order, and then each foreign
/// table whose remote table is gone.
pub proof fn every_table_gets_one_row(
    state: SyncState,
    catalog: Seq<local_tables::CatalogRowModel>,
    events: Seq<Event>,
)
    requires
        state.stage is Catalog,
        answered(state.after(Event::Catalog(Ok(catalog))), events),
        !(ran(state.after(Event::Catalog(Ok(catalog))), events).stage is Failed),
    ensures
        ({
            let start = state.after(Event::Catalog(Ok(catalog)));
            let end = ran(start, events);
            &&& end.valid()
            &&& !(end.stage is Catalog)
            &&& end.mapping == start.mapping
            &&& end.local_only == start.local_only
            &&& row_ids(end.rows) == row_ids(start.rows) + settled_ids(end)
        }),
    decreases events.len(),
{
    let start = state.after(Event::Catalog(Ok(catalog)));
    let end = ran(start, events);
    if events.len() == 0 {
        assert(settled_ids(end) =~= seq![]);
        assert(row_ids(end.rows) =~= row_ids(start.rows) + settled_ids(end));
    } else {
        let front = events.drop_last();
        let before = ran(start, front);
        every_table_gets_one_row(state, catalog, front);
        valid_stays(before, events.last());
        assert(settled_ids(before).len() <= mapped_ids(before).len() + local_only_ids(before).len());
        if end.rows.len() > before.rows.len() {
            let r = end.rows.last();
            assert(end.rows =~= before.rows.push(r));
            assert(row_ids(end.rows) =~= row_ids(before.rows).push(r.0));
            assert(settled_ids(end) =~= settled_ids(before).push(r.0));
        } else {
            assert(end.rows =~= before.rows);
        }
        assert(row_ids(end.rows) =~= row_ids(start.rows) + settled_ids(end));
    }
}

/// How many events a run can take at most, once the catalog was read.
pub open spec fn steps_left(state: SyncState) -> int {
    match state.stage {
        Stage::Catalog => 0,
        Stage::Table(i) => 3 * (state.mapping.len() - i) + state.local_only.len(),
        Stage::Drop(i, _) => 3 * (state.mapping.len() - i) - 1 + state.local_only.len(),
        Stage::Recreate(i, _) => 3 * (state.mapping.len() - i) - 2 + state.local_only.len(),
        Stage::LocalOnly(j) => state.local_only.len() - j,
        Stage::Failed(_) => 0,
    }
}

/// Every run comes to an end: behind the catalog each event leaves fewer steps.
pub proof fn runs_end(state: SyncState, event: Event)
    requires
        state.valid(),
        !(state.stage is Catalog),
        answers(state.action(), event),
    ensures
        0 <= steps_left(state.after(event)) < steps_left(state),
{
}

/// The foreign tables whose remote tables are gone are those that are not listed, sorted by local
/// name.
pub proof fn local_only_are_unlisted(
    state: SyncState,
    catalog: Seq<local_tables::CatalogRowModel>,
    entry: (order::Texts, local_tables::LocalModel),
)
    requires
        state.stage is Catalog,
    ensures
        ({
            let start = state.after(Event::Catalog(Ok(catalog)));
            let key = seq![entry.1.local_schema, entry.1.local_table];
            &&& order::not_descending(start.local_only)
            &&& start.local_only.contains((key, entry)) <==> start.locals.contains(entry)
                && !state.remote.contains(entry.0)
        }),
{
    broadcast use vstd::seq_lib::group_to_multiset_ensures;

    let start = state.after(Event::Catalog(Ok(catalog)));
    let key = seq![entry.1.local_schema, entry.1.local_table];
    let found = unlisted(start.locals, state.remote);
    order::sorting_orders(found);
    order::sorting_is_stable(found, key);
    unlisted_holds(start.locals, state.remote, entry);
    assert(start.local_only.to_multiset().count((key, entry)) == found.to_multiset().count(
        (key, entry),
    ));
}

proof fn unlisted_holds(
    locals: Seq<(order::Texts, local_tables::LocalModel)>,
    remote: Seq<order::Texts>,
    entry: (order::Texts, local_tables::LocalModel),
)
    ensures
        unlisted(locals, remote).contains(
            (seq![entry.1.local_schema, entry.1.local_table], entry),
        ) <==> locals.contains(entry) && !remote.contains(entry.0),
    decreases locals.len(),
{
    let keyed = (seq![entry.1.local_schema, entry.1.local_table], entry);
    if locals.len() > 0 {
        let front = locals.drop_last();
        unlisted_holds(front, remote, entry);
        assert(locals =~= front.push(locals.last()));
        let before = unlisted(front, remote);
        let all = unlisted(locals, remote);
        if locals.contains(entry) {
            let i = choose|i: int| 0 <= i < locals.len() && locals[i] == entry;
            if i < front.len() {
                assert(front[i] == entry);
            }
        }
        if front.contains(entry) {
            let i = choose|i: int| 0 <= i < front.len() && front[i] == entry;
            assert(locals[i] == entry);
        }
        if !remote.contains(locals.last().0) {
            if before.contains(keyed) {
                let i = choose|i: int| 0 <= i < before.len() && before[i] == keyed;
                assert(all[i] == keyed);
            }
            if all.contains(keyed) {
                let i = choose|i: int| 0 <= i < all.len() && all[i] == keyed;
                if i < before.len() {
                    assert(before[i] == keyed);
                }
            }
            if locals.last() == entry {
                assert(all[before.len() as int] == keyed);
            }
        }
    }
}

/// What was asked for, and what there is, never changes on the way, and rows are only ever added
/// behind those that are there.
pub proof fn requests_and_rows_stay(state: SyncState, event: Event)
    ensures
        ({
            let after = state.after(event);
            &&& after.remote == state.remote
            &&& after.mapping == state.mapping
            &&& after.root == state.root
            &&& after.drop_missing == state.drop_missing
            &&& after.recreate_changed == state.recreate_changed
            &&& after.dry_run == state.dry_run
            &&& !(state.stage is Catalog) ==> after.locals == state.locals && after.local_only
                == state.local_only
            &&& state.rows.len() <= after.rows.len()
            &&& after.rows.take(state.rows.len() as int) == state.rows
        }),
{
    assert(state.after(event).rows.take(state.rows.len() as int) =~= state.rows);
}

/// A run starts with what was asked for, at the catalog, without a foreign table; it does not start
/// where the tables cannot be mapped.
pub proof fn run_starts_with_what_was_asked(
    tables: Seq<table_mapping::NamedTableModel>,
    root: order::Texts,
    drop_missing: bool,
    recreate_changed: bool,
    dry_run: bool,
)
    ensures
        ({
            let r = sync_start(tables, root, drop_missing, recreate_changed, dry_run);
            &&& r is Ok <==> table_mapping::mapping_of(tables) is Ok
            &&& r is Err ==> r->Err_0 == table_mapping::mapping_of(tables)->Err_0
            &&& r matches Ok(state) ==> {
                &&& state.remote.len() == tables.len()
                &&& forall|i: int|
                    0 <= i < tables.len() ==> #[trigger] state.remote[i] == tables[i].table_id
                &&& state.mapping == table_mapping::mapping_of(tables)->Ok_0.1
                &&& state.root == root
                &&& state.drop_missing == drop_missing
                &&& state.recreate_changed == recreate_changed
                &&& state.dry_run == dry_run
                &&& state.stage is Catalog
                &&& state.rows.len() == table_mapping::mapping_of(tables)->Ok_0.0.len()
                &&& forall|i: int|
                    0 <= i < state.rows.len() ==> (#[trigger] state.rows[i]).0
                        == table_mapping::mapping_of(tables)->Ok_0.0[i] && state.rows[i].4
                        == "failed"@
            }
        }),
{
}

/// The foreign tables are those that the catalog tells of, under the root; their error rows follow
/// those that are there, and the first mapped table is next. A catalog that cannot be read ends the
/// run with its message.
pub proof fn catalog_gives_the_foreign_tables(
    state: SyncState,
    catalog: Seq<local_tables::CatalogRowModel>,
    message: Seq<char>,
)
    requires
        state.stage is Catalog,
    ensures
        state.action() is ReadCatalog,
        state.after(Event::Catalog(Ok(catalog))).locals == local_tables::local_tables(
            catalog,
            state.root,
        ).tables,
        state.after(Event::Catalog(Ok(catalog))).rows == state.rows + local_tables::local_tables(
            catalog,
            state.root,
        ).errors,
        state.after(Event::Catalog(Ok(catalog))).stage == (if state.mapping.len() > 0 {
            Stage::Table(0)
        } else {
            Stage::LocalOnly(0)
        }),
        state.after(Event::Catalog(Err(message))).stage == Stage::Failed(message),
        state.after(Event::Catalog(Err(message))).action() is Finished,
{
}

/// A mapped table without a foreign table is attached under its local name, in a dry run only
/// planned; what came of it is told in its row.
pub proof fn unattached_table_is_attached(
    state: SyncState,
    i: int,
    message: Seq<char>,
)
    requires
        0 <= i < state.mapping.len(),
        state.stage == Stage::Table(i),
        order::value_of(state.locals, state.mapping[i].0) is None,
    ensures
        ({
            let (id, (schema, table)) = state.mapping[i];
            let next = if i + 1 < state.mapping.len() {
                Stage::Table(i + 1)
            } else {
                Stage::LocalOnly(0)
            };
            let created = state.after(Event::Attached(Ok(AttachOutcome::Created)));
            let planned = state.after(Event::Attached(Ok(AttachOutcome::Planned)));
            let known = state.after(Event::Attached(Ok(AttachOutcome::AlreadyAttached)));
            let failed = state.after(Event::Attached(Err(message)));
            &&& state.action() == (Action::Attach {
                table_id: id,
                local: (schema, table),
                batch_size: None,
                dry_run: state.dry_run,
            })
            &&& created.rows == state.rows.push(
                (id, schema, table, "create_table"@, "ok"@, "attached"@),
            )
            &&& planned.rows == state.rows.push(
                (id, schema, table, "create_table"@, "skipped"@, "dry_run"@),
            )
            &&& known.rows == state.rows.push(
                (id, schema, table, "skip_existing"@, "skipped"@, "already attached"@),
            )
            &&& failed.rows == state.rows.push(
                (id, schema, table, "create_table"@, "failed"@, message),
            )
            &&& created.stage == next && planned.stage == next && known.stage == next
                && failed.stage == next
        }),
{
}

/// A foreign table under another local name than its remote table calls for is left where it is, and
/// told of as drift.
pub proof fn misplaced_table_is_told(
    state: SyncState,
    i: int,
    local: local_tables::LocalModel,
)
    requires
        0 <= i < state.mapping.len(),
        state.stage == Stage::Table(i),
        order::value_of(state.locals, state.mapping[i].0) == Some(local),
        local.local_schema != state.mapping[i].1.0 || local.local_table != state.mapping[i].1.1,
    ensures
        ({
            let (id, (schema, table)) = state.mapping[i];
            let after = state.after(Event::Recorded);
            &&& state.action() is Record
            &&& after.rows == state.rows.push(
                (
                    id,
                    schema,
                    table,
                    "drift"@,
                    "ok"@,
                    "local mapping differs: actual="@ + local.local_schema + "."@
                        + local.local_table + " expected="@ + schema + "."@ + table,
                ),
            )
            &&& after.stage == (if i + 1 < state.mapping.len() {
                Stage::Table(i + 1)
            } else {
                Stage::LocalOnly(0)
            })
        }),
{
}

/// A foreign table in its place has its columns compared. Without drift it is in step; with drift it
/// is told of, or, where changed tables are to be recreated, dropped first, in a dry run only in
/// words. Columns that cannot be read end the run.
pub proof fn table_in_place_is_compared(
    state: SyncState,
    i: int,
    local: local_tables::LocalModel,
    expected: Seq<column_types::ColumnModel>,
    actual: Seq<column_types::ColumnModel>,
    message: Seq<char>,
)
    requires
        0 <= i < state.mapping.len(),
        state.stage == Stage::Table(i),
        order::value_of(state.locals, state.mapping[i].0) == Some(local),
        local.local_schema == state.mapping[i].1.0,
        local.local_table == state.mapping[i].1.1,
    ensures
        ({
            let (id, (schema, table)) = state.mapping[i];
            let next = if i + 1 < state.mapping.len() {
                Stage::Table(i + 1)
            } else {
                Stage::LocalOnly(0)
            };
            let after = state.after(Event::Columns(Ok((expected, actual))));
            let found = column_types::schema_drift(schema, table, expected, actual);
            &&& state.action() == (Action::CompareColumns {
                table_id: id,
                local_table: table,
                relid: local.relid,
            })
            &&& found is None ==> after.rows == state.rows.push(
                (id, schema, table, "in_sync"@, "ok"@, "up to date"@),
            ) && after.stage == next
            &&& found matches Some(drift) ==> {
                &&& !state.recreate_changed ==> after.rows == state.rows.push(
                    (id, schema, table, "drift"@, "ok"@, drift),
                ) && after.stage == next
                &&& state.recreate_changed && state.dry_run ==> after.rows == state.rows.push(
                    (
                        id,
                        schema,
                        table,
                        "recreate_table"@,
                        "skipped"@,
                        "dry_run: "@ + drift,
                    ),
                ) && after.stage == next
                &&& state.recreate_changed && !state.dry_run ==> after.rows == state.rows
                    && after.stage == Stage::Drop(i, drift)
            }
            &&& state.after(Event::Columns(Err(message))).stage == Stage::Failed(message)
        }),
{
}

/// A changed table is dropped under its local name, and only then attached again, with the batch
/// size that it had; what came of either is told in its row, with the drift.
pub proof fn changed_table_is_recreated(
    state: SyncState,
    i: int,
    local: local_tables::LocalModel,
    drift: Seq<char>,
    message: Seq<char>,
)
    requires
        0 <= i < state.mapping.len(),
        order::value_of(state.locals, state.mapping[i].0) == Some(local),
        state.stage == Stage::Drop(i, drift),
    ensures
        ({
            let (id, (schema, table)) = state.mapping[i];
            let next = if i + 1 < state.mapping.len() {
                Stage::Table(i + 1)
            } else {
                Stage::LocalOnly(0)
            };
            let dropped = state.after(Event::Dropped(Ok(())));
            let kept = state.after(Event::Dropped(Err(message)));
            let created = dropped.after(Event::Attached(Ok(AttachOutcome::Created)));
            let failed = dropped.after(Event::Attached(Err(message)));
            &&& state.action() == (Action::DropTable { local: (schema, table) })
            &&& kept.stage == next
            &&& kept.rows == state.rows.push(
                (
                    id,
                    schema,
                    table,
                    "recreate_table"@,
                    "failed"@,
                    "failed to drop existing foreign table: "@ + message,
                ),
            )
            &&& dropped.rows == state.rows
            &&& dropped.action() == (Action::Attach {
                table_id: id,
                local: (schema, table),
                batch_size: local.batch_size,
                dry_run: false,
            })
            &&& created.stage == next && failed.stage == next
            &&& created.rows == state.rows.push(
                (id, schema, table, "recreate_table"@, "ok"@, "recreated: "@ + drift),
            )
            &&& failed.rows == state.rows.push(
                (
                    id,
                    schema,
                    table,
                    "recreate_table"@,
                    "failed"@,
                    "failed to recreate foreign table: "@ + message,
                ),
            )
        }),
{
}

/// A foreign table whose remote table is gone is told of as drift; where such tables are to be
/// dropped it is dropped under its own name, in a dry run only in words; what came of it is told in
/// its row, and the next one follows.
pub proof fn gone_table_is_dropped_on_demand(state: SyncState, j: int, message: Seq<char>)
    requires
        0 <= j < state.local_only.len(),
        state.stage == Stage::LocalOnly(j),
    ensures
        ({
            let (id, local) = state.local_only[j].1;
            let schema = local.local_schema;
            let table = local.local_table;
            let recorded = state.after(Event::Recorded);
            let dropped = state.after(Event::Dropped(Ok(())));
            let failed = state.after(Event::Dropped(Err(message)));
            &&& !state.drop_missing ==> state.action() is Record && recorded.rows
                == state.rows.push(
                (
                    id,
                    schema,
                    table,
                    "drift"@,
                    "ok"@,
                    "local foreign table not found in remote namespace listing"@,
                ),
            )
            &&& state.drop_missing && state.dry_run ==> state.action() is Record && recorded.rows
                == state.rows.push((id, schema, table, "drop_table"@, "skipped"@, "dry_run"@))
            &&& state.drop_missing && !state.dry_run ==> {
                &&& state.action() == (Action::DropTable { local: (schema, table) })
                &&& dropped.rows == state.rows.push(
                    (id, schema, table, "drop_table"@, "ok"@, "dropped"@),
                )
                &&& failed.rows == state.rows.push(
                    (id, schema, table, "drop_table"@, "failed"@, message),
                )
            }
            &&& recorded.stage == Stage::LocalOnly(j + 1)
            &&& dropped.stage == Stage::LocalOnly(j + 1)
            &&& failed.stage == Stage::LocalOnly(j + 1)
        }),
{
}

/// A run is over exactly where it failed, or where no foreign table is left whose remote table is
/// gone.
pub proof fn runs_are_over_at_the_end(state: SyncState)
    requires
        state.valid(),
    ensures
        state.action() is Finished <==> state.stage is Failed || state.stage == Stage::LocalOnly(
            state.local_only.len() as int,
        ),
{
}

/// A run gives its rows unless the catalog or the columns of a table could not be read; then it gives
/// that message.
pub proof fn failed_reads_are_the_result(state: SyncState, i: int, message: Seq<char>)
    ensures
        !(state.stage is Failed) ==> state.result() == Ok::<
            Seq<attach_namespace::Row>,
            Seq<char>,
        >(state.rows),
        state.stage is Catalog ==> state.after(Event::Catalog(Err(message))).result() == Err::<
            Seq<attach_namespace::Row>,
            Seq<char>,
        >(message),
        state.stage == Stage::Table(i) ==> state.after(Event::Columns(Err(message))).result()
            == Err::<Seq<attach_namespace::Row>, Seq<char>>(message),
{
}

/// The row of a recreated table has the status of attaching it: only one that was created is done,
/// any other was passed over.
pub proof fn recreated_row_has_the_status_of_attaching(
    state: SyncState,
    i: int,
    drift: Seq<char>,
    outcome: AttachOutcome,
)
    requires
        0 <= i < state.mapping.len(),
        state.stage == Stage::Recreate(i, drift),
    ensures
        state.after(Event::Attached(Ok(outcome))).rows == state.rows.push(
            (
                state.mapping[i].0,
                state.mapping[i].1.0,
                state.mapping[i].1.1,
                "recreate_table"@,
                if outcome is Created {
                    "ok"@
                } else {
                    "skipped"@
                },
                "recreated: "@ + drift,
            ),
        ),
{
}

} // verus!
