//! Merging rows into a dataset.
use crate::numbers;
use crate::order;
use crate::text;
use vstd::prelude::*;

verus! {

/// What becomes of rows of the dataset that a source row matches.
#[derive(Clone, Copy, PartialEq, Eq, Structural, Debug)]
pub enum WhenMatched {
    UpdateAll,
    DoNothing,
}

/// What becomes of source rows that match no row of the dataset.
#[derive(Clone, Copy, PartialEq, Eq, Structural, Debug)]
pub enum WhenNotMatched {
    InsertAll,
    DoNothing,
}

/// The source columns whose types are given: the name of the column, and that of the type.
pub type ArrowTypeOverrides = Vec<(String, String)>;

/// A run that merges one chunk after the other.
pub struct MergeRun {
    on_columns: Vec<String>,
    when_matched: String,
    when_not_matched: String,
    type_overrides: Option<ArrowTypeOverrides>,
    opened: bool,
    chunk_txns: i64,
}

/// A run: the columns by which rows match, what becomes of those that do and do not, the types
/// that are given, whether the dataset was opened, and how many chunks were merged.
pub ghost struct Merge {
    pub on_columns: order::Texts,
    pub when_matched: Seq<char>,
    pub when_not_matched: Seq<char>,
    pub type_overrides: Option<Seq<(Seq<char>, Seq<char>)>>,
    pub opened: bool,
    pub chunk_txns: int,
}

impl DeepView for MergeRun {
    type V = Merge;

    closed spec fn deep_view(&self) -> Merge {
        Merge {
            on_columns: self.on_columns.deep_view(),
            when_matched: self.when_matched@,
            when_not_matched: self.when_not_matched@,
            type_overrides: self.type_overrides.deep_view(),
            opened: self.opened,
            chunk_txns: self.chunk_txns as int,
        }
    }
}

/// What a chunk calls for: nothing, since it has no batches; the dataset, since it is not open yet;
/// or the merge.
#[derive(Clone, Copy, PartialEq, Eq, Structural, Debug)]
pub enum MergeStep {
    Skip,
    Open,
    Merge,
}

/// The start of merging.
pub open spec fn merge_start(
    on_columns: order::Texts,
    when_matched: Seq<char>,
    when_not_matched: Seq<char>,
    type_overrides: Option<Seq<(Seq<char>, Seq<char>)>>,
) -> Result<Merge, Seq<char>> {
    if on_columns.len() == 0 {
        Err("on_columns must not be empty"@)
    } else {
        Ok(
            Merge {
                on_columns,
                when_matched,
                when_not_matched,
                type_overrides,
                opened: false,
                chunk_txns: 0,
            },
        )
    }
}

fn lance_merge_insert_impl_inner(
    on_columns: Vec<String>,
    when_matched: &str,
    when_not_matched: &str,
    type_overrides: Option<ArrowTypeOverrides>,
) -> (r: Result<MergeRun, String>)
    ensures
        text::outcome(r) == merge_start(
            on_columns.deep_view(),
            when_matched@,
            when_not_matched@,
            type_overrides.deep_view(),
        ),
{
    assert(on_columns.deep_view().len() == on_columns@.len());
    if on_columns.len() == 0 {
        return Err("on_columns must not be empty".to_owned());
    }
    Ok(
        MergeRun {
            on_columns,
            when_matched: when_matched.to_owned(),
            when_not_matched: when_not_matched.to_owned(),
            type_overrides,
            opened: false,
            chunk_txns: 0,
        },
    )
}

/// Starts merging rows that match on the given columns; fails where there is no such column.
pub fn lance_merge_insert_impl(
    on_columns: Vec<String>,
    when_matched: &str,
    when_not_matched: &str,
) -> (r: Result<MergeRun, String>)
    ensures
        text::outcome(r) == merge_start(
            on_columns.deep_view(),
            when_matched@,
            when_not_matched@,
            None,
        ),
{
    let none: Option<ArrowTypeOverrides> = None;
    lance_merge_insert_impl_inner(on_columns, when_matched, when_not_matched, none)
}

/// Starts merging rows that match on the given columns, with the types of some source columns
/// given; fails where there is no column to match on.
pub fn lance_merge_insert_with_schema_impl(
    on_columns: Vec<String>,
    when_matched: &str,
    when_not_matched: &str,
    type_overrides: ArrowTypeOverrides,
) -> (r: Result<MergeRun, String>)
    ensures
        text::outcome(r) == merge_start(
            on_columns.deep_view(),
            when_matched@,
            when_not_matched@,
            Some(type_overrides.deep_view()),
        ),
{
    lance_merge_insert_impl_inner(
        on_columns,
        when_matched,
        when_not_matched,
        Some(type_overrides),
    )
}

// ---------------------------------------------------------------------------
// The columns to match on
// ---------------------------------------------------------------------------

/// The first of the columns that is not among the known ones, if any.
pub open spec fn first_missing(columns: order::Texts, known: order::Texts) -> Option<Seq<char>>
    decreases columns.len(),
{
    if columns.len() == 0 {
        None
    } else if !known.contains(columns[0]) {
        Some(columns[0])
    } else {
        first_missing(columns.drop_first(), known)
    }
}

/// The message for a column to match on that is missing.
pub open spec fn missing_column(column: Seq<char>, place: Seq<char>, known: order::Texts) -> Seq<
    char,
> {
    "on_column '"@ + column + "' not found in "@ + place + " (columns: "@ + text::joined(
        known,
        ", "@,
    ) + ")"@
}

/// The message where a column to match on is missing from the source, or else from the dataset.
pub open spec fn column_fault(
    on_columns: order::Texts,
    source: order::Texts,
    dataset: order::Texts,
) -> Option<Seq<char>> {
    match first_missing(on_columns, source) {
        Some(column) => Some(missing_column(column, "source query result"@, source)),
        None => match first_missing(on_columns, dataset) {
            Some(column) => Some(missing_column(column, "Lance schema"@, dataset)),
            None => None,
        },
    }
}

fn has_text(known: &[String], name: &str) -> (b: bool)
    ensures
        b == known.deep_view().contains(name@),
{
    let ghost all = known.deep_view();
    assert(all.len() == known@.len());
    for i in 0..known.len()
        invariant
            all == known.deep_view(),
            all.len() == known@.len(),
            forall|j: int| 0 <= j < i ==> all[j] != name@,
    {
        assert(all[i as int] == known@[i as int]@);
        if known[i].as_str().eq(name) {
            return true;
        }
    }
    false
}

fn check_columns(columns: &[String], known: &[String], place: &str) -> (r: Result<(), String>)
    ensures
        match first_missing(columns.deep_view(), known.deep_view()) {
            Some(column) => r is Err && r->Err_0@ == missing_column(
                column,
                place@,
                known.deep_view(),
            ),
            None => r is Ok,
        },
{
    let ghost all = columns.deep_view();
    let ghost names = known.deep_view();
    assert(all.skip(0) =~= all);
    for i in 0..columns.len()
        invariant
            all == columns.deep_view(),
            names == known.deep_view(),
            first_missing(all, names) == first_missing(all.skip(i as int), names),
    {
        let column = columns[i].as_str();
        assert(all[i as int] == column@);
        assert(all.skip(i as int).drop_first() =~= all.skip(i + 1));
        if !has_text(known, column) {
            let mut message = "on_column '".to_owned();
            message.append(column);
            message.append("' not found in ");
            message.append(place);
            message.append(" (columns: ");
            message.append(text::join_texts(known, ", ").as_str());
            message.append(")");
            return Err(message);
        }
    }
    Ok(())
}

// ---------------------------------------------------------------------------
// The chunks
// ---------------------------------------------------------------------------

/// What becomes of rows of the dataset that match, by its name.
pub open spec fn matched_action(when_matched: Seq<char>) -> Option<WhenMatched> {
    if when_matched == "update"@ {
        Some(WhenMatched::UpdateAll)
    } else if when_matched == "nothing"@ {
        Some(WhenMatched::DoNothing)
    } else {
        None
    }
}

/// What becomes of source rows that do not match, by its name.
pub open spec fn not_matched_action(when_not_matched: Seq<char>) -> Option<WhenNotMatched> {
    if when_not_matched == "insert"@ {
        Some(WhenNotMatched::InsertAll)
    } else if when_not_matched == "nothing"@ {
        Some(WhenNotMatched::DoNothing)
    } else {
        None
    }
}

/// What becomes of rows, or the message for the first name that is none.
pub open spec fn merge_actions(when_matched: Seq<char>, when_not_matched: Seq<char>) -> Result<
    (WhenMatched, WhenNotMatched),
    Seq<char>,
> {
    match matched_action(when_matched) {
        None => Err(
            "invalid when_matched value '"@ + when_matched + "': must be 'update' or 'nothing'"@,
        ),
        Some(matched) => match not_matched_action(when_not_matched) {
            None => Err(
                "invalid when_not_matched value '"@ + when_not_matched
                    + "': must be 'insert' or 'nothing'"@,
            ),
            Some(not_matched) => Ok((matched, not_matched)),
        },
    }
}

/// What becomes of rows, or a message as a sequence of characters.
pub open spec fn actions_outcome(r: Result<(WhenMatched, WhenNotMatched), String>) -> Result<
    (WhenMatched, WhenNotMatched),
    Seq<char>,
> {
    match r {
        Ok(actions) => Ok(actions),
        Err(message) => Err(message@),
    }
}

/// The row that a run ends in: the rows that came, how many of them were inserted and updated, how
/// long it took, how many chunks were merged, and how many rows a chunk has.
pub type MergeRow = (i64, i64, i64, i64, i64, i64);

impl Merge {
    /// What a chunk of `batches` batches calls for.
    pub open spec fn step(self, batches: nat) -> MergeStep {
        if batches == 0 {
            MergeStep::Skip
        } else if self.opened {
            MergeStep::Merge
        } else {
            MergeStep::Open
        }
    }

    /// The run behind a chunk of `batches` batches: the dataset is open and one chunk more was
    /// merged, unless the chunk had no batches.
    pub open spec fn after_chunk(self, batches: nat) -> Merge {
        if batches == 0 {
            self
        } else {
            Merge { opened: true, chunk_txns: self.chunk_txns + 1, ..self }
        }
    }

    /// The row that the run ends in. How many rows were inserted and updated is not known (-1)
    /// unless there were none.
    pub open spec fn row(self, total_rows: u64, chunk_rows: usize, duration_ms: i64) -> MergeRow {
        let count: i64 = if total_rows == 0 {
            0
        } else {
            (-1) as i64
        };
        (
            numbers::wrapped_i64(total_rows),
            count,
            count,
            duration_ms,
            self.chunk_txns as i64,
            numbers::wrapped_i64(chunk_rows as u64),
        )
    }
}

impl MergeRun {
    /// The source columns whose types are given.
    pub fn type_overrides(&self) -> (types: Option<&ArrowTypeOverrides>)
        ensures
            types.deep_view() == self.deep_view().type_overrides,
    {
        match &self.type_overrides {
            Some(types) => Some(types),
            None => None,
        }
    }

    /// The columns by which rows match.
    pub fn on_columns(&self) -> (columns: &Vec<String>)
        ensures
            columns.deep_view() == self.deep_view().on_columns,
    {
        &self.on_columns
    }

    /// What a chunk of `batches` batches calls for.
    pub fn chunk(&self, batches: usize) -> (step: MergeStep)
        ensures
            step == self.deep_view().step(batches as nat),
    {
        if batches == 0 {
            MergeStep::Skip
        } else if self.opened {
            MergeStep::Merge
        } else {
            MergeStep::Open
        }
    }

    /// Takes that the dataset was opened; fails where a column to match on is missing from the
    /// source, or else from the dataset.
    pub fn opened(&mut self, source: &[String], dataset: &[String]) -> (r: Result<(), String>)
        ensures
            match column_fault(
                old(self).deep_view().on_columns,
                source.deep_view(),
                dataset.deep_view(),
            ) {
                Some(message) => r is Err && r->Err_0@ == message && final(self).deep_view()
                    == old(self).deep_view(),
                None => r is Ok && final(self).deep_view() == (Merge {
                    opened: true,
                    ..old(self).deep_view()
                }),
            },
    {
        match check_columns(self.on_columns.as_slice(), source, "source query result") {
            Err(message) => {
                return Err(message);
            },
            Ok(_) => {},
        }
        match check_columns(self.on_columns.as_slice(), dataset, "Lance schema") {
            Err(message) => {
                return Err(message);
            },
            Ok(_) => {},
        }
        self.opened = true;
        Ok(())
    }

    /// What becomes of rows that match and of those that do not; fails where it is not known.
    pub fn actions(&self) -> (r: Result<(WhenMatched, WhenNotMatched), String>)
        ensures
            actions_outcome(r) == merge_actions(
                self.deep_view().when_matched,
                self.deep_view().when_not_matched,
            ),
    {
        let when_matched = self.when_matched.as_str();
        let when_not_matched = self.when_not_matched.as_str();
        let matched: WhenMatched = if when_matched.eq("update") {
            WhenMatched::UpdateAll
        } else if when_matched.eq("nothing") {
            WhenMatched::DoNothing
        } else {
            let mut message = "invalid when_matched value '".to_owned();
            message.append(when_matched);
            message.append("': must be 'update' or 'nothing'");
            return Err(message);
        };
        let not_matched: WhenNotMatched = if when_not_matched.eq("insert") {
            WhenNotMatched::InsertAll
        } else if when_not_matched.eq("nothing") {
            WhenNotMatched::DoNothing
        } else {
            let mut message = "invalid when_not_matched value '".to_owned();
            message.append(when_not_matched);
            message.append("': must be 'insert' or 'nothing'");
            return Err(message);
        };
        Ok((matched, not_matched))
    }

    /// Takes that a chunk was merged.
    pub fn merged(&mut self)
        requires
            old(self).deep_view().chunk_txns < i64::MAX,
        ensures
            final(self).deep_view() == (Merge {
                chunk_txns: old(self).deep_view().chunk_txns + 1,
                ..old(self).deep_view()
            }),
    {
        self.chunk_txns = self.chunk_txns + 1;
    }

    /// The row that the run ends in.
    pub fn finish(&self, total_rows: u64, chunk_rows: usize, duration_ms: i64) -> (r: MergeRow)
        ensures
            r == self.deep_view().row(total_rows, chunk_rows, duration_ms),
    {
        let count: i64 = if total_rows == 0 {
            0
        } else {
            -1
        };
        (
            numbers::wrap_i64(total_rows),
            count,
            count,
            duration_ms,
            self.chunk_txns,
            numbers::wrap_i64(chunk_rows as u64),
        )
    }
}

/// A count, where it is known.
pub open spec fn known_count(n: i64) -> Option<i64> {
    if n < 0 {
        None
    } else {
        Some(n)
    }
}

/// The row of `lance_merge_insert`: counts that are not known are null.
pub fn merge_insert_row(r: MergeRow) -> (shown: (i64, Option<i64>, Option<i64>, i64, i64, i64))
    ensures
        shown == (r.0, known_count(r.1), known_count(r.2), r.3, r.4, r.5),
{
    let inserted: Option<i64> = if r.1 < 0 {
        None
    } else {
        Some(r.1)
    };
    let updated: Option<i64> = if r.2 < 0 {
        None
    } else {
        Some(r.2)
    };
    (r.0, inserted, updated, r.3, r.4, r.5)
}

// ---------------------------------------------------------------------------
// What holds of merging
// ---------------------------------------------------------------------------

/// A dataset is opened only where it and the source have every column to match on.
pub proof fn opened_means_every_column(
    on_columns: order::Texts,
    source: order::Texts,
    dataset: order::Texts,
)
    ensures
        column_fault(on_columns, source, dataset) is None <==> forall|i: int|
            0 <= i < on_columns.len() ==> source.contains(#[trigger] on_columns[i])
                && dataset.contains(on_columns[i]),
{
    none_missing(on_columns, source);
    none_missing(on_columns, dataset);
    if forall|i: int|
        0 <= i < on_columns.len() ==> source.contains(#[trigger] on_columns[i])
            && dataset.contains(on_columns[i]) {
        assert(forall|i: int| 0 <= i < on_columns.len() ==> source.contains(#[trigger] on_columns[i]));
        assert(forall|i: int| 0 <= i < on_columns.len() ==> dataset.contains(#[trigger] on_columns[i]));
    }
}

proof fn none_missing(columns: order::Texts, known: order::Texts)
    ensures
        first_missing(columns, known) is None <==> forall|i: int|
            0 <= i < columns.len() ==> known.contains(#[trigger] columns[i]),
    decreases columns.len(),
{
    if columns.len() > 0 {
        let rest = columns.drop_first();
        none_missing(rest, known);
        if first_missing(columns, known) is None {
            assert forall|i: int| 0 <= i < columns.len() implies known.contains(
                #[trigger] columns[i],
            ) by {
                if i > 0 {
                    assert(rest[i - 1] == columns[i]);
                }
            }
        }
        if forall|i: int| 0 <= i < columns.len() ==> known.contains(#[trigger] columns[i]) {
            assert(known.contains(columns[0]));
            assert forall|i: int| 0 <= i < rest.len() implies known.contains(
                #[trigger] rest[i],
            ) by {
                assert(columns[i + 1] == rest[i]);
            }
        }
    }
}

/// The row of a merge without rows tells no rows inserted and none updated; any other does not
/// tell.
pub proof fn counts_are_known_only_of_nothing(
    merge: Merge,
    total_rows: u64,
    chunk_rows: usize,
    duration_ms: i64,
)
    ensures
        ({
            let r = merge.row(total_rows, chunk_rows, duration_ms);
            &&& total_rows == 0 ==> known_count(r.1) == Some(0i64) && known_count(r.2) == Some(0i64)
            &&& total_rows > 0 ==> known_count(r.1) is None && known_count(r.2) is None
        }),
{
}

/// The run behind chunks with the given numbers of batches.
pub open spec fn merged_chunks(start: Merge, chunks: Seq<nat>) -> Merge
    decreases chunks.len(),
{
    if chunks.len() == 0 {
        start
    } else {
        merged_chunks(start, chunks.drop_last()).after_chunk(chunks.last())
    }
}

/// How many of the chunks have batches.
pub open spec fn chunks_with_batches(chunks: Seq<nat>) -> nat
    decreases chunks.len(),
{
    if chunks.len() == 0 {
        0
    } else {
        chunks_with_batches(chunks.drop_last()) + (if chunks.last() > 0 {
            1nat
        } else {
            0
        })
    }
}

/// A run merges once for every chunk that has batches, and opens the dataset for the first of them.
pub proof fn one_merge_per_chunk(start: Merge, chunks: Seq<nat>, batches: nat)
    requires
        !start.opened,
        batches > 0,
    ensures
        merged_chunks(start, chunks).chunk_txns == start.chunk_txns + chunks_with_batches(chunks),
        merged_chunks(start, chunks).step(batches) == (if chunks_with_batches(chunks) == 0 {
            MergeStep::Open
        } else {
            MergeStep::Merge
        }),
    decreases chunks.len(),
{
    if chunks.len() > 0 {
        one_merge_per_chunk(start, chunks.drop_last(), batches);
    }
}

/// The two choices of a merge are independent: each action is the one that its own name stands for,
/// and a merge is refused exactly where one of the names stands for none.
pub proof fn actions_are_independent(when_matched: Seq<char>, when_not_matched: Seq<char>)
    ensures
        merge_actions(when_matched, when_not_matched) is Ok <==> (when_matched == "update"@
            || when_matched == "nothing"@) && (when_not_matched == "insert"@ || when_not_matched
            == "nothing"@),
        merge_actions(when_matched, when_not_matched) matches Ok((a, b)) ==> {
            &&& a == WhenMatched::UpdateAll <==> when_matched == "update"@
            &&& a == WhenMatched::DoNothing <==> when_matched == "nothing"@
            &&& b == WhenNotMatched::InsertAll <==> when_not_matched == "insert"@
            &&& b == WhenNotMatched::DoNothing <==> when_not_matched == "nothing"@
        },
        when_matched != "update"@ && when_matched != "nothing"@ ==> merge_actions(
            when_matched,
            when_not_matched,
        )->Err_0 == "invalid when_matched value '"@ + when_matched
            + "': must be 'update' or 'nothing'"@,
{
    reveal_strlit("update");
    reveal_strlit("nothing");
    reveal_strlit("insert");
    assert("update"@.len() == 6 && "nothing"@.len() == 7 && "insert"@.len() == 6);
}

/// A merge starts with what was given, on a dataset that is not open, and only without a column to
/// match on it does not start.
pub proof fn merge_starts_with_what_was_given(
    on_columns: order::Texts,
    when_matched: Seq<char>,
    when_not_matched: Seq<char>,
    type_overrides: Option<Seq<(Seq<char>, Seq<char>)>>,
)
    ensures
        ({
            let r = merge_start(on_columns, when_matched, when_not_matched, type_overrides);
            &&& r is Ok <==> on_columns.len() > 0
            &&& r matches Ok(merge) ==> merge.on_columns == on_columns && merge.when_matched
                == when_matched && merge.when_not_matched == when_not_matched
                && merge.type_overrides == type_overrides && !merge.opened && merge.chunk_txns == 0
        }),
{
}

/// The row of a merge tells the rows that came, the chunks that were merged, the rows of a chunk
/// and how long it took, each as it is.
pub proof fn merge_row_tells_the_counts(
    merge: Merge,
    total_rows: u64,
    chunk_rows: usize,
    duration_ms: i64,
)
    requires
        total_rows <= i64::MAX,
        chunk_rows <= i64::MAX,
        i64::MIN <= merge.chunk_txns <= i64::MAX,
    ensures
        ({
            let r = merge.row(total_rows, chunk_rows, duration_ms);
            &&& r.0 == total_rows
            &&& r.3 == duration_ms
            &&& r.4 == merge.chunk_txns
            &&& r.5 == chunk_rows
        }),
{
}

/// The column that is told of is one to match on, it is missing where it is said to be, and every
/// column before it is there; the source is looked at before the dataset.
pub proof fn missing_column_is_told(
    on_columns: order::Texts,
    source: order::Texts,
    dataset: order::Texts,
    i: int,
)
    requires
        0 <= i < on_columns.len(),
    ensures
        !source.contains(on_columns[i]) && (forall|j: int|
            0 <= j < i ==> source.contains(#[trigger] on_columns[j])) ==> column_fault(
            on_columns,
            source,
            dataset,
        ) == Some(
            "on_column '"@ + on_columns[i] + "' not found in "@ + "source query result"@
                + " (columns: "@ + text::joined(source, ", "@) + ")"@,
        ),
        (forall|j: int|
            0 <= j < on_columns.len() ==> source.contains(#[trigger] on_columns[j]))
            && !dataset.contains(on_columns[i]) && (forall|j: int|
            0 <= j < i ==> dataset.contains(#[trigger] on_columns[j])) ==> column_fault(
            on_columns,
            source,
            dataset,
        ) == Some(
            "on_column '"@ + on_columns[i] + "' not found in "@ + "Lance schema"@ + " (columns: "@
                + text::joined(dataset, ", "@) + ")"@,
        ),
{
    none_missing(on_columns, source);
    if !source.contains(on_columns[i]) && forall|j: int|
        0 <= j < i ==> source.contains(#[trigger] on_columns[j]) {
        first_missing_is(on_columns, source, i);
    }
    if !dataset.contains(on_columns[i]) && forall|j: int|
        0 <= j < i ==> dataset.contains(#[trigger] on_columns[j]) {
        first_missing_is(on_columns, dataset, i);
    }
}

proof fn first_missing_is(columns: order::Texts, known: order::Texts, i: int)
    requires
        0 <= i < columns.len(),
        !known.contains(columns[i]),
        forall|j: int| 0 <= j < i ==> known.contains(#[trigger] columns[j]),
    ensures
        first_missing(columns, known) == Some(columns[i]),
    decreases i,
{
    if i > 0 {
        let rest = columns.drop_first();
        assert(known.contains(columns[0]));
        assert forall|j: int| 0 <= j < i - 1 implies known.contains(#[trigger] rest[j]) by {
            assert(columns[j + 1] == rest[j]);
        }
        assert(rest[i - 1] == columns[i]);
        first_missing_is(rest, known, i - 1);
    }
}

/// A name that stands for no action on unmatched rows is told of where the one for matched rows is
/// known.
pub proof fn unknown_action_is_told(when_matched: Seq<char>, when_not_matched: Seq<char>)
    requires
        when_matched == "update"@ || when_matched == "nothing"@,
        when_not_matched != "insert"@,
        when_not_matched != "nothing"@,
    ensures
        merge_actions(when_matched, when_not_matched) == Err::<
            (WhenMatched, WhenNotMatched),
            Seq<char>,
        >(
            "invalid when_not_matched value '"@ + when_not_matched
                + "': must be 'insert' or 'nothing'"@,
        ),
{
}

/// A count that is not negative is known, as it is, and a negative one is not.
pub proof fn counts_are_known_unless_negative(n: i64)
    ensures
        n >= 0 ==> known_count(n) == Some(n),
        n < 0 ==> known_count(n) is None,
{
}

} // verus!
