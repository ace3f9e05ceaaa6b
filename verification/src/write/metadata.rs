//! What a dataset tells of itself.
use crate::calendar;
use crate::calendar::{write_moment, Moment};
use crate::numbers;
use crate::order;
use crate::text;
use vstd::prelude::*;

verus! {

// ---------------------------------------------------------------------------
// Fields
// ---------------------------------------------------------------------------

/// A field of a dataset with the fields within it: its name, its id and that of its parent, the
/// text by which its type is shown, whether it may be null, and its metadata as JSON.
#[derive(Debug)]
pub struct SchemaNode {
    pub name: String,
    pub id: i32,
    pub parent_id: i32,
    pub type_text: String,
    pub nullable: bool,
    pub metadata_json: String,
    pub children: Vec<SchemaNode>,
}

/// The row of a field: its path, its id and that of its parent, its name, the text of its type,
/// whether it may be null, and its metadata as JSON.
pub type TableFieldRow = (String, i32, i32, String, String, bool, String);

/// The row of a field with its texts as sequences of characters.
pub type FieldRow = (Seq<char>, i32, i32, Seq<char>, Seq<char>, bool, Seq<char>);

/// A row with its texts as sequences of characters.
pub open spec fn field_row_view(r: TableFieldRow) -> FieldRow {
    (r.0@, r.1, r.2, r.3@, r.4@, r.5, r.6@)
}

/// Rows with their texts as sequences of characters.
pub open spec fn field_rows_view(rows: Seq<TableFieldRow>) -> Seq<FieldRow> {
    rows.map_values(|r: TableFieldRow| field_row_view(r))
}

/// The path of a field: its name behind the path of its parent.
pub open spec fn field_path(parent: Option<Seq<char>>, name: Seq<char>) -> Seq<char> {
    match parent {
        Some(path) => path + "."@ + name,
        None => name,
    }
}

/// The rows of a field and of the fields within it: first its own, then those of each field within
/// it.
pub open spec fn field_rows(field: SchemaNode, parent: Option<Seq<char>>) -> Seq<FieldRow>
    decreases field, field.children@.len() + 2,
{
    let path = field_path(parent, field.name@);
    seq![
        (
            path,
            field.id,
            field.parent_id,
            field.name@,
            field.type_text@,
            field.nullable,
            field.metadata_json@,
        ),
    ] + child_rows(field, path, field.children@.len())
}

/// The rows of the first `n` fields within a field.
pub open spec fn child_rows(field: SchemaNode, path: Seq<char>, n: nat) -> Seq<FieldRow>
    decreases field, n + 1,
{
    if n == 0 || n > field.children@.len() {
        seq![]
    } else {
        child_rows(field, path, (n - 1) as nat) + field_rows(field.children@[n - 1], Some(path))
    }
}

/// The rows of fields and of the fields within them.
pub open spec fn schema_rows(fields: Seq<SchemaNode>) -> Seq<FieldRow>
    decreases fields.len(),
{
    if fields.len() == 0 {
        seq![]
    } else {
        schema_rows(fields.drop_last()) + field_rows(fields.last(), None)
    }
}

/// Appends the rows of a field and of the fields within it.
pub fn collect_field_rows(
    field: &SchemaNode,
    parent_path: Option<&str>,
    rows: &mut Vec<TableFieldRow>,
)
    ensures
        field_rows_view(final(rows)@) == field_rows_view(old(rows)@) + field_rows(
            *field,
            text::text_option(parent_path),
        ),
    decreases field,
{
    let ghost before = field_rows_view(rows@);
    let path = match parent_path {
        Some(parent) => {
            let mut path = parent.to_owned();
            path.append(".");
            path.append(field.name.as_str());
            path
        },
        None => field.name.clone(),
    };
    let ghost p = field_path(text::text_option(parent_path), field.name@);
    assert(path@ == p);
    let own: TableFieldRow = (
        path.clone(),
        field.id,
        field.parent_id,
        field.name.clone(),
        field.type_text.clone(),
        field.nullable,
        field.metadata_json.clone(),
    );
    rows.push(own);
    assert(field_rows_view(rows@) =~= before + seq![field_row_view(own)]);
    let ghost start = field_rows_view(rows@);
    assert(start + child_rows(*field, p, 0) =~= start);
    for i in 0..field.children.len()
        invariant
            path@ == p,
            field_rows_view(rows@) == start + child_rows(*field, p, i as nat),
    {
        let ghost earlier = field_rows_view(rows@);
        collect_field_rows(&field.children[i], Some(path.as_str()), rows);
        assert(field_rows_view(rows@) =~= start + child_rows(*field, p, (i + 1) as nat));
    }
    assert(field_rows_view(rows@) =~= before + field_rows(*field, text::text_option(parent_path)));
}

/// The rows of the fields of a dataset and of the fields within them.
pub fn lance_table_fields_impl(fields: &[SchemaNode]) -> (rows: Vec<TableFieldRow>)
    ensures
        field_rows_view(rows@) == schema_rows(fields@),
{
    let mut rows: Vec<TableFieldRow> = Vec::new();
    assert(field_rows_view(rows@) =~= seq![]);
    for i in 0..fields.len()
        invariant
            field_rows_view(rows@) == schema_rows(fields@.take(i as int)),
    {
        assert(fields@.take(i + 1).drop_last() =~= fields@.take(i as int));
        collect_field_rows(&fields[i], None, &mut rows);
    }
    assert(fields@.take(fields@.len() as int) =~= fields@);
    rows
}

// ---------------------------------------------------------------------------
// The dataset as a whole
// ---------------------------------------------------------------------------

/// What a dataset tells of itself as a whole: the version at hand and the latest one, how many rows
/// and fragments it has, and its schema and its metadata as JSON.
#[derive(Debug)]
pub struct TableSummary {
    pub version: u64,
    pub latest_version: u64,
    pub rows: usize,
    pub fragments: usize,
    pub schema_json: String,
    pub metadata_json: String,
}

/// The row of a dataset.
pub type TableInfoRow = (String, i64, i64, i64, i64, String, String, i64);

/// The row of a dataset.
pub fn lance_table_info_impl(uri: &str, summary: TableSummary, duration_ms: i64) -> (r: TableInfoRow)
    ensures
        r.0@ == uri@,
        r.1 == numbers::wrapped_i64(summary.version),
        r.2 == numbers::wrapped_i64(summary.latest_version),
        r.3 == numbers::wrapped_i64(summary.rows as u64),
        r.4 == numbers::wrapped_i64(summary.fragments as u64),
        r.5@ == summary.schema_json@,
        r.6@ == summary.metadata_json@,
        r.7 == duration_ms,
{
    (
        uri.to_owned(),
        numbers::wrap_i64(summary.version),
        numbers::wrap_i64(summary.latest_version),
        numbers::wrap_i64(summary.rows as u64),
        numbers::wrap_i64(summary.fragments as u64),
        summary.schema_json,
        summary.metadata_json,
        duration_ms,
    )
}

// ---------------------------------------------------------------------------
// Fragments
// ---------------------------------------------------------------------------

/// A fragment of a dataset: its id, its rows with and without those that were deleted, where they
/// are known, how many files it has, whether one tells of deleted rows, and all of it as JSON.
#[derive(Debug)]
pub struct FragmentInfo {
    pub id: u64,
    pub physical_rows: Option<usize>,
    pub logical_rows: Option<usize>,
    pub files: usize,
    pub has_deletion_file: bool,
    pub json: String,
}

/// The row of a fragment.
pub type FragmentRow = (i64, Option<i64>, Option<i64>, i64, bool, String);

/// A count that is known or not.
pub open spec fn known_rows(n: Option<usize>) -> Option<i64> {
    match n {
        Some(rows) => Some(numbers::wrapped_i64(rows as u64)),
        None => None,
    }
}

/// The row of a fragment, but for its JSON.
pub open spec fn fragment_numbers(fragment: FragmentInfo) -> (
    i64,
    Option<i64>,
    Option<i64>,
    i64,
    bool,
) {
    (
        numbers::wrapped_i64(fragment.id),
        known_rows(fragment.physical_rows),
        known_rows(fragment.logical_rows),
        numbers::wrapped_i64(fragment.files as u64),
        fragment.has_deletion_file,
    )
}

fn rows_known(n: Option<usize>) -> (rows: Option<i64>)
    ensures
        rows == known_rows(n),
{
    match n {
        Some(rows) => Some(numbers::wrap_i64(rows as u64)),
        None => None,
    }
}

/// The row of a fragment.
pub fn fragment_row(fragment: &FragmentInfo) -> (r: FragmentRow)
    ensures
        (r.0, r.1, r.2, r.3, r.4) == fragment_numbers(*fragment),
        r.5@ == fragment.json@,
{
    (
        numbers::wrap_i64(fragment.id),
        rows_known(fragment.physical_rows),
        rows_known(fragment.logical_rows),
        numbers::wrap_i64(fragment.files as u64),
        fragment.has_deletion_file,
        fragment.json.clone(),
    )
}

/// Whether a row is that of a fragment.
pub open spec fn is_fragment_row(r: FragmentRow, fragment: FragmentInfo) -> bool {
    (r.0, r.1, r.2, r.3, r.4) == fragment_numbers(fragment) && r.5@ == fragment.json@
}

/// The rows of fragments, in order.
pub fn lance_list_fragments_impl(fragments: &[FragmentInfo]) -> (rows: Vec<FragmentRow>)
    ensures
        rows@.len() == fragments@.len(),
        forall|i: int|
            0 <= i < fragments@.len() ==> is_fragment_row(#[trigger] rows@[i], fragments@[i]),
{
    let mut rows: Vec<FragmentRow> = Vec::new();
    for i in 0..fragments.len()
        invariant
            rows@.len() == i,
            forall|j: int| 0 <= j < i ==> is_fragment_row(#[trigger] rows@[j], fragments@[j]),
    {
        rows.push(fragment_row(&fragments[i]));
    }
    rows
}

/// What the fragments of a dataset come to: how many there are, their rows with and without those
/// that were deleted, how many were deleted, and how many fragments have a file that tells of
/// deleted rows.
#[derive(Clone, Copy, PartialEq, Eq, Structural, Debug)]
pub struct FragmentStats {
    pub fragment_count: i64,
    pub physical_rows: i64,
    pub logical_rows: i64,
    pub deleted_rows: i64,
    pub deletion_files: i64,
}

/// A count that is known or not, where one that is not counts for nothing.
pub open spec fn rows_or_none(n: Option<usize>) -> int {
    match known_rows(n) {
        Some(rows) => rows as int,
        None => 0,
    }
}

/// The rows of fragments, with those that were deleted.
pub open spec fn physical_sum(fragments: Seq<FragmentInfo>) -> int
    decreases fragments.len(),
{
    if fragments.len() == 0 {
        0
    } else {
        physical_sum(fragments.drop_last()) + rows_or_none(fragments.last().physical_rows)
    }
}

/// The rows of fragments, without those that were deleted.
pub open spec fn logical_sum(fragments: Seq<FragmentInfo>) -> int
    decreases fragments.len(),
{
    if fragments.len() == 0 {
        0
    } else {
        logical_sum(fragments.drop_last()) + rows_or_none(fragments.last().logical_rows)
    }
}

/// How many fragments have a file that tells of deleted rows.
pub open spec fn deletion_files(fragments: Seq<FragmentInfo>) -> int
    decreases fragments.len(),
{
    if fragments.len() == 0 {
        0
    } else {
        deletion_files(fragments.drop_last()) + (if fragments.last().has_deletion_file {
            1int
        } else {
            0
        })
    }
}

/// The nearest `i64` to a number.
pub open spec fn nearest(n: int) -> int {
    if n > i64::MAX {
        i64::MAX as int
    } else if n < i64::MIN {
        i64::MIN as int
    } else {
        n
    }
}

/// Whether the sums over fragments fit their type, at every fragment on the way.
pub open spec fn sums_fit(fragments: Seq<FragmentInfo>) -> bool {
    &&& fragments.len() <= i64::MAX
    &&& forall|n: int|
        0 <= n <= fragments.len() ==> i64::MIN <= #[trigger] physical_sum(fragments.take(n))
            <= i64::MAX && i64::MIN <= logical_sum(fragments.take(n)) <= i64::MAX
}

/// What the fragments of a dataset come to.
pub fn lance_fragment_stats_impl(fragments: &[FragmentInfo]) -> (stats: FragmentStats)
    requires
        sums_fit(fragments@),
    ensures
        stats.fragment_count == fragments@.len(),
        stats.physical_rows == physical_sum(fragments@),
        stats.logical_rows == logical_sum(fragments@),
        stats.deleted_rows == nearest(physical_sum(fragments@) - logical_sum(fragments@)),
        stats.deletion_files == deletion_files(fragments@),
{
    let mut fragment_count: i64 = 0;
    let mut physical: i64 = 0;
    let mut logical: i64 = 0;
    let mut deletions: i64 = 0;
    for i in 0..fragments.len()
        invariant
            sums_fit(fragments@),
            fragment_count == i,
            physical == physical_sum(fragments@.take(i as int)),
            logical == logical_sum(fragments@.take(i as int)),
            deletions == deletion_files(fragments@.take(i as int)),
            0 <= deletions <= i,
    {
        let fragment = &fragments[i];
        let ghost before = fragments@.take(i as int);
        assert(fragments@.take(i + 1).drop_last() =~= before);
        assert(physical_sum(fragments@.take(i + 1)) == physical_sum(before) + rows_or_none(
            fragment.physical_rows,
        ));
        assert(logical_sum(fragments@.take(i + 1)) == logical_sum(before) + rows_or_none(
            fragment.logical_rows,
        ));
        fragment_count = fragment_count + 1;
        if let Some(rows) = rows_known(fragment.physical_rows) {
            physical = physical + rows;
        }
        if let Some(rows) = rows_known(fragment.logical_rows) {
            logical = logical + rows;
        }
        if fragment.has_deletion_file {
            deletions = deletions + 1;
        }
    }
    assert(fragments@.take(fragments@.len() as int) =~= fragments@);
    let difference: i128 = physical as i128 - logical as i128;
    let deleted_rows: i64 = if difference > i64::MAX as i128 {
        i64::MAX
    } else if difference < i64::MIN as i128 {
        i64::MIN
    } else {
        difference as i64
    };
    FragmentStats {
        fragment_count,
        physical_rows: physical,
        logical_rows: logical,
        deleted_rows,
        deletion_files: deletions,
    }
}

// ---------------------------------------------------------------------------
// Versions, tags and branches
// ---------------------------------------------------------------------------

/// A version of a dataset: its number, when it was made, and its metadata as JSON.
#[derive(Debug)]
pub struct VersionInfo {
    pub version: u64,
    pub timestamp: Moment,
    pub metadata_json: String,
}

/// The row of a version.
pub type VersionRow = (i64, String, String);

/// The text of a moment.
pub open spec fn moment_text(moment: Moment) -> Option<Seq<char>> {
    calendar::moment_in_rfc3339(moment.secs, moment.nanos)
}

/// The row of a version, given the text of its moment.
pub fn version_row_with_text(version: &VersionInfo, timestamp: String) -> (r: VersionRow)
    ensures
        r.0 == numbers::wrapped_i64(version.version),
        r.1@ == timestamp@,
        r.2@ == version.metadata_json@,
{
    (numbers::wrap_i64(version.version), timestamp, version.metadata_json.clone())
}

/// The row of a version; `None` where the calendar does not have its moment.
pub fn version_row(version: &VersionInfo) -> (r: Option<VersionRow>)
    ensures
        r is Some <==> calendar::is_moment(version.timestamp),
        r matches Some(found) ==> is_version_row(found, *version),
{
    match write_moment(version.timestamp) {
        None => None,
        Some(timestamp) => Some(version_row_with_text(version, timestamp)),
    }
}

/// Whether a row is that of a version.
pub open spec fn is_version_row(r: VersionRow, version: VersionInfo) -> bool {
    r.0 == numbers::wrapped_i64(version.version) && Some(r.1@) == moment_text(version.timestamp)
        && r.2@ == version.metadata_json@
}

/// The rows of versions, in order; `None` where the calendar does not have the moment of one.
pub fn lance_list_versions_impl(versions: &[VersionInfo]) -> (rows: Option<Vec<VersionRow>>)
    ensures
        rows is Some <==> forall|i: int|
            0 <= i < versions@.len() ==> calendar::is_moment((#[trigger] versions@[i]).timestamp),
        rows matches Some(found) ==> found@.len() == versions@.len() && forall|i: int|
            0 <= i < versions@.len() ==> is_version_row(#[trigger] found@[i], versions@[i]),
{
    let mut rows: Vec<VersionRow> = Vec::new();
    for i in 0..versions.len()
        invariant
            rows@.len() == i,
            forall|j: int|
                0 <= j < i ==> calendar::is_moment((#[trigger] versions@[j]).timestamp),
            forall|j: int| 0 <= j < i ==> is_version_row(#[trigger] rows@[j], versions@[j]),
    {
        match version_row(&versions[i]) {
            None => {
                assert(!calendar::is_moment(versions@[i as int].timestamp));
                return None;
            },
            Some(r) => {
                rows.push(r);
            },
        }
    }
    Some(rows)
}

/// A tag of a dataset: its name, the branch and the version it stands for, when it was made and
/// changed, where that is known, the size of the version's manifest, and its metadata as JSON.
#[derive(Debug)]
pub struct TagInfo {
    pub name: String,
    pub branch: Option<String>,
    pub version: u64,
    pub created_at: Option<Moment>,
    pub updated_at: Option<Moment>,
    pub manifest_size: usize,
    pub metadata_json: String,
}

/// The row of a tag.
pub type TagRow = (
    String,
    Option<String>,
    i64,
    Option<String>,
    Option<String>,
    i64,
    String,
);

/// The text of a moment that is known or not.
pub open spec fn moment_option_text(moment: Option<Moment>) -> Option<Seq<char>> {
    match moment {
        Some(found) => moment_text(found),
        None => None,
    }
}

/// Whether the calendar has a moment, where there is one.
pub open spec fn is_moment_option(moment: Option<Moment>) -> bool {
    moment matches Some(found) ==> calendar::is_moment(found)
}

fn copy_option(o: &Option<String>) -> (copy: Option<String>)
    ensures
        copy.deep_view() == o.deep_view(),
{
    match o {
        Some(found) => Some(found.clone()),
        None => None,
    }
}

/// The row of a tag, given the texts of its moments.
pub fn tag_row_with_texts(tag: &TagInfo, created_at: Option<String>, updated_at: Option<String>) -> (r:
    TagRow)
    ensures
        r.0@ == tag.name@,
        r.1.deep_view() == tag.branch.deep_view(),
        r.2 == numbers::wrapped_i64(tag.version),
        r.3.deep_view() == created_at.deep_view(),
        r.4.deep_view() == updated_at.deep_view(),
        r.5 == numbers::wrapped_i64(tag.manifest_size as u64),
        r.6@ == tag.metadata_json@,
{
    (
        tag.name.clone(),
        copy_option(&tag.branch),
        numbers::wrap_i64(tag.version),
        created_at,
        updated_at,
        numbers::wrap_i64(tag.manifest_size as u64),
        tag.metadata_json.clone(),
    )
}

/// Whether a row is that of a tag.
pub open spec fn is_tag_row(r: TagRow, tag: TagInfo) -> bool {
    &&& r.0@ == tag.name@
    &&& r.1.deep_view() == tag.branch.deep_view()
    &&& r.2 == numbers::wrapped_i64(tag.version)
    &&& r.3.deep_view() == moment_option_text(tag.created_at)
    &&& r.3 is Some <==> tag.created_at is Some
    &&& r.4.deep_view() == moment_option_text(tag.updated_at)
    &&& r.4 is Some <==> tag.updated_at is Some
    &&& r.5 == numbers::wrapped_i64(tag.manifest_size as u64)
    &&& r.6@ == tag.metadata_json@
}

/// Whether the calendar has the moments of a tag.
pub open spec fn has_moments(tag: TagInfo) -> bool {
    is_moment_option(tag.created_at) && is_moment_option(tag.updated_at)
}

/// The row of a tag; `None` where the calendar does not have one of its moments.
pub fn tag_row(tag: &TagInfo) -> (r: Option<TagRow>)
    ensures
        r is Some <==> has_moments(*tag),
        r matches Some(found) ==> is_tag_row(found, *tag),
{
    let created_at: Option<String> = match tag.created_at {
        Some(moment) => match write_moment(moment) {
            None => {
                return None;
            },
            Some(found) => Some(found),
        },
        None => None,
    };
    let updated_at: Option<String> = match tag.updated_at {
        Some(moment) => match write_moment(moment) {
            None => {
                return None;
            },
            Some(found) => Some(found),
        },
        None => None,
    };
    Some(tag_row_with_texts(tag, created_at, updated_at))
}

/// The rows of tags, in order; `None` where the calendar does not have a moment of one.
pub fn lance_list_tags_impl(tags: &[TagInfo]) -> (rows: Option<Vec<TagRow>>)
    ensures
        rows is Some <==> forall|i: int| 0 <= i < tags@.len() ==> has_moments(#[trigger] tags@[i]),
        rows matches Some(found) ==> found@.len() == tags@.len() && forall|i: int|
            0 <= i < tags@.len() ==> is_tag_row(#[trigger] found@[i], tags@[i]),
{
    let mut rows: Vec<TagRow> = Vec::new();
    for i in 0..tags.len()
        invariant
            rows@.len() == i,
            forall|j: int| 0 <= j < i ==> has_moments(#[trigger] tags@[j]),
            forall|j: int| 0 <= j < i ==> is_tag_row(#[trigger] rows@[j], tags@[j]),
    {
        match tag_row(&tags[i]) {
            None => {
                assert(!has_moments(tags@[i as int]));
                return None;
            },
            Some(r) => {
                rows.push(r);
            },
        }
    }
    Some(rows)
}

/// A branch of a dataset: the branch and the version it came from, when it was made, the size of
/// its manifest, and its identifier and its metadata as JSON.
#[derive(Debug)]
pub struct BranchInfo {
    pub parent_branch: Option<String>,
    pub parent_version: u64,
    pub create_at: u64,
    pub manifest_size: usize,
    pub identifier_json: String,
    pub metadata_json: String,
}

/// A branch with its texts as sequences of characters and its numbers as rows have them.
pub ghost struct Branch {
    pub parent_branch: Option<Seq<char>>,
    pub parent_version: i64,
    pub create_at: i64,
    pub manifest_size: i64,
    pub identifier_json: Seq<char>,
    pub metadata_json: Seq<char>,
}

impl DeepView for BranchInfo {
    type V = Branch;

    open spec fn deep_view(&self) -> Branch {
        Branch {
            parent_branch: self.parent_branch.deep_view(),
            parent_version: numbers::wrapped_i64(self.parent_version),
            create_at: numbers::wrapped_i64(self.create_at),
            manifest_size: numbers::wrapped_i64(self.manifest_size as u64),
            identifier_json: self.identifier_json@,
            metadata_json: self.metadata_json@,
        }
    }
}

/// The row of a branch: its name, the branch and the version it came from, when it was made, the
/// size of its manifest, and its identifier and its metadata as JSON.
pub type BranchRow = (String, Option<String>, i64, i64, i64, String, String);

/// The name and the branch that a row tells of.
pub open spec fn branch_row_view(r: BranchRow) -> (Seq<char>, Branch) {
    (
        r.0@,
        Branch {
            parent_branch: r.1.deep_view(),
            parent_version: r.2,
            create_at: r.3,
            manifest_size: r.4,
            identifier_json: r.5@,
            metadata_json: r.6@,
        },
    )
}

/// The names and the branches that rows tell of.
pub open spec fn branch_rows_view(rows: Seq<BranchRow>) -> Seq<(Seq<char>, Branch)> {
    rows.map_values(|r: BranchRow| branch_row_view(r))
}

/// The row of a branch.
pub fn branch_row(name: &str, branch: &BranchInfo) -> (r: BranchRow)
    ensures
        branch_row_view(r) == (name@, branch.deep_view()),
{
    (
        name.to_owned(),
        copy_option(&branch.parent_branch),
        numbers::wrap_i64(branch.parent_version),
        numbers::wrap_i64(branch.create_at),
        numbers::wrap_i64(branch.manifest_size as u64),
        branch.identifier_json.clone(),
        branch.metadata_json.clone(),
    )
}

/// Branches, each under its name.
pub open spec fn keyed(branches: Seq<(Seq<char>, Branch)>) -> Seq<(order::Texts, Branch)> {
    branches.map_values(|branch: (Seq<char>, Branch)| (seq![branch.0], branch.1))
}

/// The branches sorted by name.
pub open spec fn sorted_branches(branches: Seq<(Seq<char>, Branch)>) -> Seq<(Seq<char>, Branch)> {
    order::sorted_by_key(keyed(branches)).map_values(
        |entry: (order::Texts, Branch)| (entry.0[0], entry.1),
    )
}

proof fn sorted_keys_are_single(branches: Seq<(Seq<char>, Branch)>)
    ensures
        forall|i: int|
            0 <= i < order::sorted_by_key(keyed(branches)).len() ==> (
            #[trigger] order::sorted_by_key(keyed(branches))[i]).0.len() == 1,
{
    broadcast use vstd::seq_lib::group_to_multiset_ensures;

    let items = keyed(branches);
    let sorted = order::sorted_by_key(items);
    order::sorting_is_stable(items, seq![]);
    assert forall|i: int| 0 <= i < sorted.len() implies (#[trigger] sorted[i]).0.len() == 1 by {
        assert(sorted.contains(sorted[i]));
        assert(sorted.to_multiset().count(sorted[i]) > 0);
        assert(items.to_multiset().count(sorted[i]) > 0);
        assert(items.contains(sorted[i]));
        let j = choose|j: int| 0 <= j < items.len() && items[j] == sorted[i];
        assert(items[j].0 == seq![branches[j].0]);
    }
}

/// The rows of branches, sorted by name.
pub fn lance_list_branches_impl(branches: Vec<(String, BranchInfo)>) -> (rows: Vec<BranchRow>)
    ensures
        branch_rows_view(rows@) == sorted_branches(branches.deep_view()),
{
    let ghost all = branches.deep_view();
    let mut rest = branches;
    let mut items: Vec<(Vec<String>, BranchInfo)> = Vec::new();
    assert(items.deep_view() =~= keyed(all).skip(all.len() as int));
    assert(all.len() == rest@.len());
    assert(rest.deep_view() =~= all.take(rest@.len() as int));
    while rest.len() > 0
        invariant
            rest@.len() <= all.len(),
            rest.deep_view() == all.take(rest@.len() as int),
            items.deep_view() == keyed(all).skip(rest@.len() as int),
        decreases rest.len(),
    {
        let ghost n = rest@.len() - 1;
        let ghost before = items.deep_view();
        let ghost left = rest@;
        assert(rest.deep_view()[n] == left[n].deep_view());
        if let Some((name, branch)) = rest.pop() {
            assert(rest.deep_view() =~= all.take(n));
            let ghost shown = (name@, branch.deep_view());
            assert(all[n] == shown);
            let mut key: Vec<String> = Vec::new();
            key.push(name);
            assert(key.deep_view() =~= seq![shown.0]);
            items.insert(0, (key, branch));
            assert(items.deep_view() =~= before.insert(0, (seq![shown.0], shown.1)));
            assert(items.deep_view() =~= keyed(all).skip(n));
        }
    }
    assert(items.deep_view() =~= keyed(all));
    let sorted = order::sort_by_key(items);
    let ghost entries = sorted.deep_view();
    proof {
        sorted_keys_are_single(all);
    }
    let mut rows: Vec<BranchRow> = Vec::new();
    for i in 0..sorted.len()
        invariant
            entries == sorted.deep_view(),
            entries == order::sorted_by_key(keyed(all)),
            forall|j: int| 0 <= j < entries.len() ==> (#[trigger] entries[j]).0.len() == 1,
            branch_rows_view(rows@) =~= sorted_branches(all).take(i as int),
    {
        let ghost before = rows@;
        assert(entries.len() == sorted@.len());
        assert(entries[i as int] == sorted@[i as int].deep_view());
        assert(sorted@[i as int].0.deep_view().len() == sorted@[i as int].0@.len());
        assert(sorted@[i as int].0.deep_view()[0] == sorted@[i as int].0@[0]@);
        let r = branch_row(sorted[i].0[0].as_str(), &sorted[i].1);
        rows.push(r);
        assert(branch_rows_view(rows@) =~= branch_rows_view(before).push(branch_row_view(r)));
    }
    assert(branch_rows_view(rows@) =~= sorted_branches(all));
    rows
}

// ---------------------------------------------------------------------------
// What holds of a dataset's rows
// ---------------------------------------------------------------------------

/// The branches come out sorted by name.
pub proof fn branches_come_out_sorted(branches: Seq<(Seq<char>, Branch)>, i: int, j: int)
    requires
        0 <= i < j < sorted_branches(branches).len(),
    ensures
        order::text_order(sorted_branches(branches)[i].0, sorted_branches(branches)[j].0)
            != order::Order::Greater,
{
    let items = order::sorted_by_key(keyed(branches));
    order::sorting_orders(keyed(branches));
    sorted_keys_are_single(branches);
    assert(order::list_order(items[i].0, items[j].0) != order::Order::Greater);
    assert(items[i].0 =~= seq![items[i].0[0]]);
    assert(items[j].0 =~= seq![items[j].0[0]]);
    reveal_with_fuel(order::list_order, 2);
}

/// How many fields there are in a field, itself among them.
pub open spec fn field_count(field: SchemaNode) -> nat
    decreases field, field.children@.len() + 2,
{
    1 + child_count(field, field.children@.len())
}

/// How many fields there are in the first `n` fields within a field.
pub open spec fn child_count(field: SchemaNode, n: nat) -> nat
    decreases field, n + 1,
{
    if n == 0 || n > field.children@.len() {
        0
    } else {
        child_count(field, (n - 1) as nat) + field_count(field.children@[n - 1])
    }
}

/// Every field has one row, and its own stands before those of the fields within it.
pub proof fn every_field_has_one_row(field: SchemaNode, parent: Option<Seq<char>>)
    ensures
        field_rows(field, parent).len() == field_count(field),
        field_rows(field, parent)[0].0 == field_path(parent, field.name@),
    decreases field, field.children@.len() + 2,
{
    children_have_rows(
        field,
        field_path(parent, field.name@),
        field.children@.len(),
    );
}

proof fn children_have_rows(field: SchemaNode, path: Seq<char>, n: nat)
    requires
        n <= field.children@.len(),
    ensures
        child_rows(field, path, n).len() == child_count(field, n),
    decreases field, n + 1,
{
    if n > 0 {
        children_have_rows(field, path, (n - 1) as nat);
        every_field_has_one_row(field.children@[n - 1], Some(path));
    }
}

/// The rows of a field within another stand under its path: the name of the field behind the path of
/// its parent and a dot.
pub proof fn paths_lead_to_the_field(field: SchemaNode, parent: Option<Seq<char>>, c: int)
    requires
        0 <= c < field.children@.len(),
    ensures
        parent is None ==> field_path(parent, field.name@) == field.name@,
        parent matches Some(path) ==> field_path(parent, field.name@) == path + "."@ + field.name@,
        ({
            let own = field_path(parent, field.name@);
            let within = field_rows(field.children@[c], Some(own));
            let start = 1 + child_count(field, c as nat);
            &&& field_rows(field, parent).len() >= start + within.len()
            &&& field_rows(field, parent).subrange(start as int, (start + within.len()) as int)
                == within
        }),
{
    let own = field_path(parent, field.name@);
    let n = field.children@.len();
    children_have_rows(field, own, c as nat);
    every_field_has_one_row(field.children@[c], Some(own));
    child_rows_grow(field, own, (c + 1) as nat, n);
    let within = field_rows(field.children@[c], Some(own));
    let upto = child_rows(field, own, (c + 1) as nat);
    assert(upto == child_rows(field, own, c as nat) + within);
    let all = field_rows(field, parent);
    let start = 1 + child_count(field, c as nat);
    assert forall|i: int| 0 <= i < within.len() implies all[start + i] == within[i] by {
        let children = child_rows(field, own, n);
        assert(all[start + i] == children[start - 1 + i]);
        assert(children.take(upto.len() as int)[start - 1 + i] == children[start - 1 + i]);
    }
    assert(all.subrange(start as int, (start + within.len()) as int) =~= within);
}

proof fn child_rows_grow(field: SchemaNode, path: Seq<char>, m: nat, n: nat)
    requires
        m <= n <= field.children@.len(),
    ensures
        child_rows(field, path, m).len() <= child_rows(field, path, n).len(),
        child_rows(field, path, n).take(child_rows(field, path, m).len() as int) == child_rows(
            field,
            path,
            m,
        ),
    decreases n,
{
    let short = child_rows(field, path, m);
    if m < n {
        child_rows_grow(field, path, m, (n - 1) as nat);
        let middle = child_rows(field, path, (n - 1) as nat);
        assert(child_rows(field, path, n).take(short.len() as int) =~= middle.take(
            short.len() as int,
        ));
    } else {
        assert(short.take(short.len() as int) =~= short);
    }
}

/// The first row of a field tells of the field itself.
pub proof fn first_row_tells_the_field(field: SchemaNode, parent: Option<Seq<char>>)
    ensures
        field_rows(field, parent).len() > 0,
        ({
            let r = field_rows(field, parent)[0];
            r.1 == field.id && r.2 == field.parent_id && r.3 == field.name@ && r.4
                == field.type_text@ && r.5 == field.nullable && r.6 == field.metadata_json@
        }),
{
}

/// The fields of a dataset are listed one behind the other, without a parent.
pub proof fn fields_are_listed_in_order(fields: Seq<SchemaNode>, next: SchemaNode)
    ensures
        schema_rows(seq![]) == Seq::<FieldRow>::empty(),
        schema_rows(fields.push(next)) == schema_rows(fields) + field_rows(next, None),
{
    assert(fields.push(next).drop_last() =~= fields);
}

/// Sums over fragments grow by what each fragment has, and by nothing where that is not known; a
/// fragment counts once for a file that tells of deleted rows.
pub proof fn sums_grow_by_each_fragment(fragments: Seq<FragmentInfo>, next: FragmentInfo)
    ensures
        physical_sum(seq![]) == 0 && logical_sum(seq![]) == 0 && deletion_files(seq![]) == 0,
        next.physical_rows matches Some(n) ==> n <= i64::MAX ==> physical_sum(fragments.push(next))
            == physical_sum(fragments) + n,
        next.physical_rows is None ==> physical_sum(fragments.push(next)) == physical_sum(
            fragments,
        ),
        next.logical_rows matches Some(n) ==> n <= i64::MAX ==> logical_sum(fragments.push(next))
            == logical_sum(fragments) + n,
        next.logical_rows is None ==> logical_sum(fragments.push(next)) == logical_sum(fragments),
        deletion_files(fragments.push(next)) == deletion_files(fragments) + (
        if next.has_deletion_file {
            1int
        } else {
            0
        }),
{
    assert(fragments.push(next).drop_last() =~= fragments);
}

/// The row of a fragment tells its numbers, each in its own place.
pub proof fn fragment_row_tells_its_numbers(fragment: FragmentInfo)
    requires
        fragment.id <= i64::MAX,
        fragment.files <= i64::MAX,
    ensures
        ({
            let r = fragment_numbers(fragment);
            &&& r.0 == fragment.id
            &&& r.1 is Some <==> fragment.physical_rows is Some
            &&& fragment.physical_rows matches Some(n) ==> n <= i64::MAX ==> r.1 == Some(n as i64)
            &&& r.2 is Some <==> fragment.logical_rows is Some
            &&& fragment.logical_rows matches Some(n) ==> n <= i64::MAX ==> r.2 == Some(n as i64)
            &&& r.3 == fragment.files
            &&& r.4 == fragment.has_deletion_file
        }),
{
}

/// The difference of sums is as it is, as far as the type reaches.
pub proof fn nearest_is_itself_in_range(n: int)
    ensures
        i64::MIN <= n <= i64::MAX ==> nearest(n) == n,
        n > i64::MAX ==> nearest(n) == i64::MAX,
        n < i64::MIN ==> nearest(n) == i64::MIN,
{
}

/// Every branch comes out once, with what is told of it.
pub proof fn every_branch_comes_out(branches: Seq<(Seq<char>, Branch)>)
    ensures
        sorted_branches(branches).to_multiset() == branches.to_multiset(),
{
    broadcast use vstd::seq_lib::group_to_multiset_ensures;

    let items = keyed(branches);
    let sorted = order::sorted_by_key(items);
    order::sorting_is_stable(items, seq![]);
    vstd::seq_lib::to_multiset_len(items);
    vstd::seq_lib::to_multiset_len(sorted);
    unkeyed_as_often(sorted, items);
    assert(unkeyed(items) =~= branches);
}

spec fn unkeyed(items: Seq<(order::Texts, Branch)>) -> Seq<(Seq<char>, Branch)> {
    items.map_values(|entry: (order::Texts, Branch)| (entry.0[0], entry.1))
}

proof fn unkeyed_as_often(a: Seq<(order::Texts, Branch)>, b: Seq<(order::Texts, Branch)>)
    requires
        a.to_multiset() == b.to_multiset(),
    ensures
        unkeyed(a).to_multiset() == unkeyed(b).to_multiset(),
    decreases a.len(),
{
    broadcast use vstd::seq_lib::group_to_multiset_ensures;

    vstd::seq_lib::to_multiset_len(a);
    vstd::seq_lib::to_multiset_len(b);
    if a.len() > 0 {
        let last = a.last();
        let front = a.drop_last();
        assert(a =~= front.push(last));
        assert(b.to_multiset().count(last) > 0);
        assert(b.contains(last));
        let j = choose|j: int| 0 <= j < b.len() && b[j] == last;
        let rest = b.remove(j);
        assert(b =~= rest.insert(j, last));
        assert(rest.to_multiset() =~= front.to_multiset());
        unkeyed_as_often(front, rest);
        let one = (last.0[0], last.1);
        assert(unkeyed(a) =~= unkeyed(front).push(one));
        assert(unkeyed(b) =~= unkeyed(rest).insert(j, one));
        assert(unkeyed(a).to_multiset() =~= unkeyed(b).to_multiset());
    } else {
        assert(unkeyed(a) =~= unkeyed(b));
    }
}

/// A row is that of a version, or of a tag, only where it tells all of it.
pub proof fn rows_tell_versions_and_tags(
    r: VersionRow,
    version: VersionInfo,
    t: TagRow,
    tag: TagInfo,
)
    ensures
        is_version_row(r, version) ==> {
            &&& version.version <= i64::MAX ==> r.0 == version.version
            &&& Some(r.1@) == calendar::moment_in_rfc3339(
                version.timestamp.secs,
                version.timestamp.nanos,
            )
            &&& r.2@ == version.metadata_json@
        },
        is_tag_row(t, tag) ==> {
            &&& t.0@ == tag.name@
            &&& t.1.deep_view() == tag.branch.deep_view()
            &&& tag.version <= i64::MAX ==> t.2 == tag.version
            &&& tag.created_at matches Some(m) ==> t.3.deep_view() == calendar::moment_in_rfc3339(
                m.secs,
                m.nanos,
            )
            &&& tag.created_at is None ==> t.3 is None
            &&& tag.updated_at matches Some(m) ==> t.4.deep_view() == calendar::moment_in_rfc3339(
                m.secs,
                m.nanos,
            )
            &&& tag.updated_at is None ==> t.4 is None
            &&& tag.manifest_size <= i64::MAX ==> t.5 == tag.manifest_size
            &&& t.6@ == tag.metadata_json@
        },
{
}

/// A branch is told of by its own numbers and texts, each in its own place.
pub proof fn branch_rows_tell_the_branch(branch: BranchInfo, r: BranchRow)
    requires
        branch.parent_version <= i64::MAX,
        branch.create_at <= i64::MAX,
        branch.manifest_size <= i64::MAX,
        branch_row_view(r).1 == branch.deep_view(),
    ensures
        branch_row_view(r).0 == r.0@,
        r.1.deep_view() == branch.parent_branch.deep_view(),
        r.2 == branch.parent_version,
        r.3 == branch.create_at,
        r.4 == branch.manifest_size,
        r.5@ == branch.identifier_json@,
        r.6@ == branch.metadata_json@,
{
}

} // verus!
