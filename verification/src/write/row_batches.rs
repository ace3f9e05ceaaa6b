//! Rows of a query collected into batches of columns.
use crate::text;
use crate::write::columns::ColumnType;
use crate::write::pg_to_arrow;
use crate::write::pg_to_arrow::{append_datum, DatumValue, SpiColumnInfo, TypedBuilder};
use vstd::prelude::*;

verus! {

/// The bytes of a megabyte.
pub const MEGABYTE: usize = 1_048_576;

// ---------------------------------------------------------------------------
// Empty columns
// ---------------------------------------------------------------------------

/// Empty columns of the given types, or the message of the first type that cannot be written.
pub open spec fn fresh_builders(types: Seq<ColumnType>, shown: Seq<Seq<char>>, capacity: nat) -> Result<
    Seq<pg_to_arrow::Builder>,
    Seq<char>,
>
    decreases types.len(),
{
    if types.len() == 0 {
        Ok(seq![])
    } else {
        let n = types.len() - 1;
        match fresh_builders(types.drop_last(), shown, capacity) {
            Err(message) => Err(message),
            Ok(front) => match pg_to_arrow::fresh_builder(types[n], shown[n], capacity) {
                Err(message) => Err(message),
                Ok(builder) => Ok(front.push(builder)),
            },
        }
    }
}

/// Empty columns of the given types.
pub open spec fn empty_builders(types: Seq<ColumnType>, capacity: nat) -> Seq<
    pg_to_arrow::Builder,
> {
    types.map_values(
        |data_type: ColumnType| pg_to_arrow::Builder { data_type, capacity, cells: seq![] },
    )
}

/// Whether values of every one of the types can be written.
pub open spec fn all_buildable(types: Seq<ColumnType>) -> bool {
    forall|i: int| 0 <= i < types.len() ==> pg_to_arrow::buildable(#[trigger] types[i])
}

proof fn fresh_are_empty(types: Seq<ColumnType>, shown: Seq<Seq<char>>, capacity: nat)
    ensures
        fresh_builders(types, shown, capacity) is Ok <==> all_buildable(types),
        all_buildable(types) ==> fresh_builders(types, shown, capacity) == Ok::<
            Seq<pg_to_arrow::Builder>,
            Seq<char>,
        >(empty_builders(types, capacity)),
    decreases types.len(),
{
    if types.len() > 0 {
        let n = types.len() - 1;
        fresh_are_empty(types.drop_last(), shown, capacity);
        assert(all_buildable(types) ==> all_buildable(types.drop_last()));
        assert(all_buildable(types) ==> pg_to_arrow::buildable(types[n]));
        if all_buildable(types.drop_last()) && pg_to_arrow::buildable(types[n]) {
            assert forall|i: int| 0 <= i < types.len() implies pg_to_arrow::buildable(
                #[trigger] types[i],
            ) by {
                if i < n {
                    assert(types.drop_last()[i] == types[i]);
                }
            }
            assert(empty_builders(types, capacity) =~= empty_builders(types.drop_last(), capacity).push(
                pg_to_arrow::Builder { data_type: types[n], capacity, cells: seq![] },
            ));
        }
    } else {
        assert(empty_builders(types, capacity) =~= seq![]);
    }
}

proof fn first_failure_stays(types: Seq<ColumnType>, shown: Seq<Seq<char>>, capacity: nat, n: int)
    requires
        0 <= n <= types.len(),
        fresh_builders(types.take(n), shown, capacity) is Err,
    ensures
        fresh_builders(types, shown, capacity) == fresh_builders(types.take(n), shown, capacity),
    decreases types.len() - n,
{
    if n < types.len() {
        assert(types.take(n + 1).drop_last() =~= types.take(n));
        first_failure_stays(types, shown, capacity, n + 1);
    } else {
        assert(types.take(n) =~= types);
    }
}

fn new_builders(types: &Vec<ColumnType>, shown: &[String], capacity: usize) -> (r: Result<
    Vec<TypedBuilder>,
    String,
>)
    requires
        shown@.len() == types@.len(),
    ensures
        text::outcome(r) == fresh_builders(types@, shown.deep_view(), capacity as nat),
{
    let ghost texts = shown.deep_view();
    let mut builders: Vec<TypedBuilder> = Vec::new();
    assert(builders.deep_view() =~= seq![]);
    for i in 0..types.len()
        invariant
            shown@.len() == types@.len(),
            texts == shown.deep_view(),
            fresh_builders(types@.take(i as int), texts, capacity as nat) == Ok::<
                Seq<pg_to_arrow::Builder>,
                Seq<char>,
            >(builders.deep_view()),
    {
        let ghost before = builders.deep_view();
        assert(texts[i as int] == shown@[i as int]@);
        assert(types@.take(i + 1).drop_last() =~= types@.take(i as int));
        match TypedBuilder::new(types[i], shown[i].as_str(), capacity) {
            Err(message) => {
                proof {
                    first_failure_stays(types@, texts, capacity as nat, i + 1);
                }
                return Err(message);
            },
            Ok(builder) => {
                builders.push(builder);
                assert(builders.deep_view() =~= before.push(builder.deep_view()));
            },
        }
    }
    assert(types@.take(types@.len() as int) =~= types@);
    Ok(builders)
}

// ---------------------------------------------------------------------------
// Collecting rows
// ---------------------------------------------------------------------------

/// Rows collected into batches: the columns of the batch at hand, how many rows it has, how many
/// rows were taken in all, and how many bytes the batches so far have.
pub struct RowBatcher {
    types: Vec<ColumnType>,
    shown: Vec<String>,
    batch_size: usize,
    max_buffer_bytes: usize,
    builders: Vec<TypedBuilder>,
    rows_in_batch: usize,
    total_rows: u64,
    buffered_bytes: usize,
}

/// Rows collected into batches.
pub ghost struct Batcher {
    pub types: Seq<ColumnType>,
    pub shown: Seq<Seq<char>>,
    pub batch_size: nat,
    pub max_bytes: nat,
    pub builders: Seq<pg_to_arrow::Builder>,
    pub rows_in_batch: nat,
    pub total_rows: nat,
    pub buffered: nat,
}

/// The columns with one row more.
pub open spec fn with_row(builders: Seq<pg_to_arrow::Builder>, values: Seq<DatumValue>) -> Seq<
    pg_to_arrow::Builder,
> {
    builders.map(|i: int, builder: pg_to_arrow::Builder| builder.with(values[i]))
}

impl Batcher {
    /// Whether one row more completes the batch at hand.
    pub open spec fn completes(self) -> bool {
        self.rows_in_batch + 1 >= self.batch_size
    }

    /// With one row more. Where it completes the batch at hand, the next one is begun.
    pub open spec fn after_row(self, values: Seq<DatumValue>) -> Batcher {
        if self.completes() {
            Batcher {
                builders: empty_builders(self.types, self.batch_size),
                rows_in_batch: 0,
                total_rows: self.total_rows + 1,
                ..self
            }
        } else {
            Batcher {
                builders: with_row(self.builders, values),
                rows_in_batch: self.rows_in_batch + 1,
                total_rows: self.total_rows + 1,
                ..self
            }
        }
    }

    /// The batch that one row more completes.
    pub open spec fn batch_with_row(self, values: Seq<DatumValue>) -> Option<
        Seq<pg_to_arrow::Builder>,
    > {
        if self.completes() {
            Some(with_row(self.builders, values))
        } else {
            None
        }
    }

    /// The batch that is left when no more rows come.
    pub open spec fn rest(self) -> Option<Seq<pg_to_arrow::Builder>> {
        if self.rows_in_batch > 0 {
            Some(self.builders)
        } else {
            None
        }
    }

    /// Whether batches of `bytes` bytes in all are more than may be buffered; a limit of 0 is none.
    pub open spec fn over_limit(self, bytes: nat) -> bool {
        self.max_bytes > 0 && bytes > self.max_bytes
    }

    /// What always holds: there are a text and a column for each type, each column with the rows of
    /// the batch at hand, which is not complete.
    pub open spec fn valid(self) -> bool {
        &&& all_buildable(self.types)
        &&& self.shown.len() == self.types.len()
        &&& self.builders.len() == self.types.len()
        &&& forall|i: int|
            0 <= i < self.types.len() ==> (#[trigger] self.builders[i]).data_type == self.types[i]
                && self.builders[i].cells.len() == self.rows_in_batch
        &&& self.rows_in_batch == 0 || self.rows_in_batch < self.batch_size
        &&& self.rows_in_batch <= self.total_rows
    }
}

impl DeepView for RowBatcher {
    type V = Batcher;

    closed spec fn deep_view(&self) -> Batcher {
        Batcher {
            types: self.types@,
            shown: self.shown.deep_view(),
            batch_size: self.batch_size as nat,
            max_bytes: self.max_buffer_bytes as nat,
            builders: self.builders.deep_view(),
            rows_in_batch: self.rows_in_batch as nat,
            total_rows: self.total_rows as nat,
            buffered: self.buffered_bytes as nat,
        }
    }
}

/// The number of rows that the columns of the first batch reserve room for.
pub open spec fn first_capacity(batch_size: nat, table_rows: nat) -> nat {
    let rows = if batch_size <= table_rows {
        batch_size
    } else {
        table_rows
    };
    if rows == 0 {
        1
    } else {
        rows
    }
}

/// The types of the columns.
pub open spec fn types_of(columns: Seq<pg_to_arrow::ColumnInfo>) -> Seq<ColumnType> {
    columns.map_values(|column: pg_to_arrow::ColumnInfo| column.arrow_type)
}

/// The start of collecting rows.
pub open spec fn batcher_start(
    types: Seq<ColumnType>,
    shown: Seq<Seq<char>>,
    batch_size: nat,
    table_rows: nat,
    max_bytes: nat,
) -> Result<Batcher, Seq<char>> {
    match fresh_builders(types, shown, first_capacity(batch_size, table_rows)) {
        Err(message) => Err(message),
        Ok(builders) => Ok(
            Batcher {
                types,
                shown,
                batch_size,
                max_bytes,
                builders,
                rows_in_batch: 0,
                total_rows: 0,
                buffered: 0,
            },
        ),
    }
}

/// The message that a chunk is larger than may be buffered.
pub open spec fn limit_message(max_bytes: nat, bytes: nat) -> Seq<char> {
    "source chunk exceeds lance.max_write_buffer_mb limit ("@ + text::decimal(
        max_bytes / (MEGABYTE as nat),
    ) + " MB): buffered ~"@ + text::decimal(bytes / (MEGABYTE as nat))
        + " MB before completing. Aborting to avoid an out-of-memory crash. Lower lance.write_chunk_rows, or raise lance.max_write_buffer_mb (e.g. SET lance.max_write_buffer_mb = ...)."@
}

fn copy_types(columns: &[SpiColumnInfo]) -> (types: Vec<ColumnType>)
    ensures
        types@ == types_of(columns.deep_view()),
{
    let ghost all = columns.deep_view();
    let mut types: Vec<ColumnType> = Vec::new();
    for i in 0..columns.len()
        invariant
            all == columns.deep_view(),
            types@ == types_of(all.take(i as int)),
    {
        assert(all[i as int] == columns@[i as int].deep_view());
        types.push(columns[i].arrow_type);
        assert(types_of(all.take(i + 1)) =~= types_of(all.take(i as int)).push(
            all[i as int].arrow_type,
        ));
    }
    assert(all.take(all.len() as int) =~= all);
    types
}

impl RowBatcher {
    /// Starts collecting the rows of a table of `table_rows` rows into batches of `batch_size`
    /// rows. `shown` holds the text by which the type of each column is shown. Fails at the first
    /// column of a type that cannot be written.
    pub fn new(
        columns: &[SpiColumnInfo],
        shown: Vec<String>,
        batch_size: usize,
        table_rows: usize,
        max_buffer_bytes: usize,
    ) -> (r: Result<RowBatcher, String>)
        requires
            shown@.len() == columns@.len(),
        ensures
            text::outcome(r) == batcher_start(
                types_of(columns.deep_view()),
                shown.deep_view(),
                batch_size as nat,
                table_rows as nat,
                max_buffer_bytes as nat,
            ),
            r matches Ok(batcher) ==> batcher.deep_view().valid(),
    {
        let types = copy_types(columns);
        let rows: usize = if batch_size <= table_rows {
            batch_size
        } else {
            table_rows
        };
        let capacity: usize = if rows == 0 {
            1
        } else {
            rows
        };
        assert(types@.len() == columns@.len());
        match new_builders(&types, shown.as_slice(), capacity) {
            Err(message) => Err(message),
            Ok(builders) => {
                proof {
                    fresh_are_empty(types@, shown.deep_view(), capacity as nat);
                }
                Ok(
                    RowBatcher {
                        types,
                        shown,
                        batch_size,
                        max_buffer_bytes,
                        builders,
                        rows_in_batch: 0,
                        total_rows: 0,
                        buffered_bytes: 0,
                    },
                )
            },
        }
    }

    fn append_row(&mut self, values: Vec<DatumValue>)
        requires
            old(self).builders@.len() == values@.len(),
            forall|i: int| 0 <= i < values@.len() ==> pg_to_arrow::fits(#[trigger] values@[i]),
        ensures
            final(self).deep_view() == (Batcher {
                builders: with_row(old(self).deep_view().builders, values@),
                ..old(self).deep_view()
            }),
    {
        let ghost all = values@;
        let ghost start = *self;
        let ghost before = self.builders.deep_view();
        assert(before.len() == self.builders@.len());
        let mut values = values;
        while values.len() > 0
            invariant
                self.types == start.types,
                self.shown == start.shown,
                self.batch_size == start.batch_size,
                self.max_buffer_bytes == start.max_buffer_bytes,
                self.rows_in_batch == start.rows_in_batch,
                self.total_rows == start.total_rows,
                self.buffered_bytes == start.buffered_bytes,
                self.builders@.len() == all.len(),
                before == start.builders.deep_view(),
                before.len() == all.len(),
                values@.len() <= all.len(),
                values@ == all.take(values@.len() as int),
                forall|i: int|
                    0 <= i < values@.len() ==> (#[trigger] self.builders@[i]).deep_view()
                        == before[i],
                forall|i: int|
                    values@.len() <= i < all.len() ==> (#[trigger] self.builders@[i]).deep_view()
                        == before[i].with(all[i]),
                forall|i: int| 0 <= i < all.len() ==> pg_to_arrow::fits(#[trigger] all[i]),
            decreases values.len(),
        {
            let k: usize = values.len() - 1;
            if let Some(value) = values.pop() {
                assert(value == all[k as int]);
                append_datum(&mut self.builders[k], value);
                assert(values@ =~= all.take(k as int));
            }
        }
        assert(self.builders.deep_view() =~= with_row(before, all));
    }

    /// Takes a row, and hands out the batch that it completes, if any.
    pub fn push_row(&mut self, values: Vec<DatumValue>) -> (batch: Option<Vec<TypedBuilder>>)
        requires
            old(self).deep_view().valid(),
            values@.len() == old(self).deep_view().types.len(),
            forall|i: int| 0 <= i < values@.len() ==> pg_to_arrow::fits(#[trigger] values@[i]),
            old(self).deep_view().total_rows < u64::MAX,
        ensures
            final(self).deep_view() == old(self).deep_view().after_row(values@),
            batch.deep_view() == old(self).deep_view().batch_with_row(values@),
            final(self).deep_view().valid(),
    {
        let ghost before = self.deep_view();
        assert(self.builders.deep_view().len() == self.builders@.len());
        assert(self.shown.deep_view().len() == self.shown@.len());
        self.append_row(values);
        assert(self.shown.deep_view().len() == self.shown@.len());
        self.total_rows = self.total_rows + 1;
        if self.rows_in_batch + 1 >= self.batch_size {
            let fresh = new_builders(&self.types, self.shown.as_slice(), self.batch_size);
            proof {
                fresh_are_empty(self.types@, self.shown.deep_view(), self.batch_size as nat);
            }
            if let Ok(mut builders) = fresh {
                std::mem::swap(&mut builders, &mut self.builders);
                self.rows_in_batch = 0;
                return Some(builders);
            }
            None
        } else {
            self.rows_in_batch = self.rows_in_batch + 1;
            None
        }
    }

    /// Hands out the batch that is left when no more rows come, if any.
    pub fn finish(&mut self) -> (batch: Option<Vec<TypedBuilder>>)
        requires
            old(self).deep_view().valid(),
        ensures
            batch.deep_view() == old(self).deep_view().rest(),
            final(self).deep_view() == (Batcher {
                builders: if old(self).deep_view().rows_in_batch > 0 {
                    seq![]
                } else {
                    old(self).deep_view().builders
                },
                ..old(self).deep_view()
            }),
    {
        if self.rows_in_batch > 0 {
            let mut builders: Vec<TypedBuilder> = Vec::new();
            assert(builders.deep_view() =~= seq![]);
            std::mem::swap(&mut builders, &mut self.builders);
            Some(builders)
        } else {
            None
        }
    }

    /// Takes the size of a batch that was handed out; fails where the batches of the chunk are
    /// larger than may be buffered.
    pub fn batch_built(&mut self, bytes: usize) -> (r: Result<(), String>)
        requires
            old(self).deep_view().buffered + bytes <= usize::MAX,
        ensures
            final(self).deep_view() == (Batcher {
                buffered: old(self).deep_view().buffered + bytes as nat,
                ..old(self).deep_view()
            }),
            r is Err <==> old(self).deep_view().over_limit(
                old(self).deep_view().buffered + bytes as nat,
            ),
            r matches Err(message) ==> message@ == limit_message(
                old(self).deep_view().max_bytes,
                old(self).deep_view().buffered + bytes as nat,
            ),
    {
        self.buffered_bytes = self.buffered_bytes + bytes;
        if self.max_buffer_bytes > 0 && self.buffered_bytes > self.max_buffer_bytes {
            let mut message = "source chunk exceeds lance.max_write_buffer_mb limit (".to_owned();
            let limit: usize = self.max_buffer_bytes / MEGABYTE;
            let buffered: usize = self.buffered_bytes / MEGABYTE;
            message.append(text::decimal_text(limit as u128).as_str());
            message.append(" MB): buffered ~");
            message.append(text::decimal_text(buffered as u128).as_str());
            message.append(
                " MB before completing. Aborting to avoid an out-of-memory crash. Lower lance.write_chunk_rows, or raise lance.max_write_buffer_mb (e.g. SET lance.max_write_buffer_mb = ...).",
            );
            return Err(message);
        }
        Ok(())
    }

    /// How many rows were taken.
    pub fn row_count(&self) -> (n: u64)
        ensures
            n == self.deep_view().total_rows,
    {
        self.total_rows
    }
}

// ---------------------------------------------------------------------------
// What holds of collecting rows
// ---------------------------------------------------------------------------

/// The state behind the rows `rows`.
pub open spec fn collected(start: Batcher, rows: Seq<Seq<DatumValue>>) -> Batcher
    decreases rows.len(),
{
    if rows.len() == 0 {
        start
    } else {
        collected(start, rows.drop_last()).after_row(rows.last())
    }
}

/// The batches that the rows `rows` complete.
pub open spec fn completed(start: Batcher, rows: Seq<Seq<DatumValue>>) -> Seq<
    Seq<pg_to_arrow::Builder>,
>
    decreases rows.len(),
{
    if rows.len() == 0 {
        seq![]
    } else {
        let front = completed(start, rows.drop_last());
        match collected(start, rows.drop_last()).batch_with_row(rows.last()) {
            Some(batch) => front.push(batch),
            None => front,
        }
    }
}

/// The values of column `c` of the batches, one batch behind the other.
pub open spec fn column_of(batches: Seq<Seq<pg_to_arrow::Builder>>, c: int) -> Seq<
    Option<pg_to_arrow::Cell>,
>
    decreases batches.len(),
{
    if batches.len() == 0 {
        seq![]
    } else {
        column_of(batches.drop_last(), c) + batches.last()[c].cells
    }
}

/// Collecting rows stays valid.
pub proof fn valid_stays(state: Batcher, values: Seq<DatumValue>)
    requires
        state.valid(),
        values.len() == state.types.len(),
    ensures
        state.after_row(values).valid(),
{
}

/// Every value of every row stands in its column, in the order of the rows: first in the batches
/// that were completed, then in the one at hand.
pub proof fn rows_are_kept(start: Batcher, rows: Seq<Seq<DatumValue>>, c: int)
    requires
        start.valid(),
        start.rows_in_batch == 0,
        forall|k: int| 0 <= k < rows.len() ==> (#[trigger] rows[k]).len() == start.types.len(),
        0 <= c < start.types.len(),
    ensures
        collected(start, rows).valid(),
        collected(start, rows).types == start.types,
        collected(start, rows).batch_size == start.batch_size,
        collected(start, rows).total_rows == start.total_rows + rows.len(),
        column_of(completed(start, rows), c) + collected(start, rows).builders[c].cells
            == Seq::new(
            rows.len(),
            |k: int| pg_to_arrow::cell_for(start.types[c], rows[k][c]),
        ),
    decreases rows.len(),
{
    let wanted = Seq::new(
        rows.len(),
        |k: int| pg_to_arrow::cell_for(start.types[c], rows[k][c]),
    );
    if rows.len() == 0 {
        assert(column_of(completed(start, rows), c) + start.builders[c].cells =~= wanted);
    } else {
        let front = rows.drop_last();
        let last = rows[rows.len() - 1];
        assert forall|k: int| 0 <= k < front.len() implies (#[trigger] front[k]).len()
            == start.types.len() by {
            assert(front[k] == rows[k]);
        }
        rows_are_kept(start, front, c);
        let before = collected(start, front);
        valid_stays(before, last);
        let earlier = Seq::new(
            front.len(),
            |k: int| pg_to_arrow::cell_for(start.types[c], front[k][c]),
        );
        let cell = pg_to_arrow::cell_for(start.types[c], last[c]);
        assert(wanted =~= earlier.push(cell));
        assert(before.builders[c].data_type == start.types[c]);
        let grown = with_row(before.builders, last);
        assert(grown[c].cells == before.builders[c].cells.push(cell));
        let old_batches = completed(start, front);
        if before.completes() {
            let batches = completed(start, rows);
            assert(batches == old_batches.push(grown));
            assert(batches.drop_last() =~= old_batches);
            assert(collected(start, rows).builders[c].cells =~= seq![]);
            assert(column_of(batches, c) =~= wanted);
            assert(column_of(batches, c) + collected(start, rows).builders[c].cells =~= wanted);
        } else {
            assert(collected(start, rows).builders[c].cells == grown[c].cells);
            assert(column_of(old_batches, c) + grown[c].cells =~= wanted);
        }
    }
}

/// Every batch that was completed has as many rows as were asked for, and at least one.
pub proof fn completed_batches_are_full(
    start: Batcher,
    rows: Seq<Seq<DatumValue>>,
    b: int,
    c: int,
)
    requires
        start.valid(),
        start.rows_in_batch == 0,
        forall|k: int| 0 <= k < rows.len() ==> (#[trigger] rows[k]).len() == start.types.len(),
        0 <= c < start.types.len(),
        0 <= b < completed(start, rows).len(),
    ensures
        completed(start, rows)[b][c].cells.len() == (if start.batch_size == 0 {
            1
        } else {
            start.batch_size
        }),
        completed(start, rows)[b][c].data_type == start.types[c],
    decreases rows.len(),
{
    let front = rows.drop_last();
    let last = rows[rows.len() - 1];
    assert forall|k: int| 0 <= k < front.len() implies (#[trigger] front[k]).len()
        == start.types.len() by {
        assert(front[k] == rows[k]);
    }
    rows_are_kept(start, front, c);
    let before = collected(start, front);
    if b < completed(start, front).len() {
        completed_batches_are_full(start, front, b, c);
    } else {
        assert(before.completes());
        assert(completed(start, rows)[b] == with_row(before.builders, last));
        assert(before.builders[c].cells.len() == before.rows_in_batch);
    }
}

/// No rows are left behind: with the batch that is left when no more rows come, the batches hold
/// every value of every row, in order.
pub proof fn no_row_is_left_behind(start: Batcher, rows: Seq<Seq<DatumValue>>, c: int)
    requires
        start.valid(),
        start.rows_in_batch == 0,
        forall|k: int| 0 <= k < rows.len() ==> (#[trigger] rows[k]).len() == start.types.len(),
        0 <= c < start.types.len(),
    ensures
        column_of(
            match collected(start, rows).rest() {
                Some(batch) => completed(start, rows).push(batch),
                None => completed(start, rows),
            },
            c,
        ) == Seq::new(
            rows.len(),
            |k: int| pg_to_arrow::cell_for(start.types[c], rows[k][c]),
        ),
{
    rows_are_kept(start, rows, c);
    let end = collected(start, rows);
    let batches = completed(start, rows);
    assert(end.builders[c].cells.len() == end.rows_in_batch);
    match end.rest() {
        Some(batch) => {
            assert(batches.push(batch).drop_last() =~= batches);
        },
        None => {
            assert(end.builders[c].cells =~= seq![]);
            assert(column_of(batches, c) + end.builders[c].cells =~= column_of(batches, c));
        },
    }
}

/// The batch that is left has fewer rows than a full one, and at least one.
pub proof fn last_batch_is_not_full(state: Batcher, c: int)
    requires
        state.valid(),
        0 <= c < state.types.len(),
    ensures
        state.rest() is Some <==> state.rows_in_batch > 0,
        state.rest() matches Some(batch) ==> 0 < batch[c].cells.len() < state.batch_size,
{
}

/// The limit holds only where it is set, and a chunk is over it exactly where it has more bytes.
pub proof fn limit_is_on_bytes(state: Batcher, bytes: nat)
    ensures
        state.max_bytes == 0 ==> !state.over_limit(bytes),
        state.max_bytes > 0 ==> (state.over_limit(bytes) <==> bytes > state.max_bytes),
{
}

/// The first batch reserves room for no more rows than a batch has and than there are, but for one
/// at least.
pub proof fn first_batch_reserves_what_it_needs(batch_size: nat, table_rows: nat)
    ensures
        first_capacity(batch_size, table_rows) >= 1,
        batch_size >= 1 && table_rows >= 1 ==> first_capacity(batch_size, table_rows) <= batch_size
            && first_capacity(batch_size, table_rows) <= table_rows && (first_capacity(
            batch_size,
            table_rows,
        ) == batch_size || first_capacity(batch_size, table_rows) == table_rows),
{
}

/// Collecting starts empty with a column for each type, in order, and only where every type can be
/// written.
pub proof fn collecting_starts_empty(
    types: Seq<ColumnType>,
    shown: Seq<Seq<char>>,
    batch_size: nat,
    table_rows: nat,
    max_bytes: nat,
)
    ensures
        batcher_start(types, shown, batch_size, table_rows, max_bytes) is Ok <==> forall|i: int|
            0 <= i < types.len() ==> pg_to_arrow::buildable(#[trigger] types[i]),
        batcher_start(types, shown, batch_size, table_rows, max_bytes) matches Ok(state) ==> {
            &&& state.types == types
            &&& state.batch_size == batch_size
            &&& state.max_bytes == max_bytes
            &&& state.rows_in_batch == 0 && state.total_rows == 0 && state.buffered == 0
            &&& state.builders.len() == types.len()
            &&& forall|i: int|
                0 <= i < types.len() ==> (#[trigger] state.builders[i]).data_type == types[i]
                    && state.builders[i].cells.len() == 0
        },
{
    fresh_are_empty(types, shown, first_capacity(batch_size, table_rows));
}

/// A row adds one to the rows that were taken, and leaves the size and the limit as they are.
pub proof fn rows_are_counted(state: Batcher, values: Seq<DatumValue>)
    ensures
        state.after_row(values).total_rows == state.total_rows + 1,
        state.after_row(values).batch_size == state.batch_size,
        state.after_row(values).max_bytes == state.max_bytes,
        state.after_row(values).buffered == state.buffered,
        state.after_row(values).types == state.types,
{
}

/// The message on a chunk that is too large tells the limit and the size in whole megabytes.
pub proof fn limit_is_told_in_megabytes(limit_mb: nat, mb: nat, rest: nat)
    requires
        rest < 1_048_576,
    ensures
        limit_message(limit_mb * 1_048_576, mb * 1_048_576 + rest)
            == "source chunk exceeds lance.max_write_buffer_mb limit ("@ + text::decimal(limit_mb)
            + " MB): buffered ~"@ + text::decimal(mb)
            + " MB before completing. Aborting to avoid an out-of-memory crash. Lower lance.write_chunk_rows, or raise lance.max_write_buffer_mb (e.g. SET lance.max_write_buffer_mb = ...)."@,
{
    assert((limit_mb * 1_048_576) / 1_048_576 == limit_mb);
    assert((mb * 1_048_576 + rest) / 1_048_576 == mb);
}

/// The columns are of the types of the result, in order.
pub proof fn types_are_those_of_the_columns(columns: Seq<pg_to_arrow::ColumnInfo>, i: int)
    requires
        0 <= i < columns.len(),
    ensures
        types_of(columns).len() == columns.len(),
        types_of(columns)[i] == columns[i].arrow_type,
{
}

/// A batch is handed out exactly at the row that makes it full, and holds that row.
pub proof fn batches_are_handed_out_when_full(state: Batcher, values: Seq<DatumValue>, c: int)
    requires
        state.valid(),
        0 <= c < state.types.len(),
    ensures
        state.batch_with_row(values) is Some <==> state.rows_in_batch + 1 >= state.batch_size,
        state.batch_with_row(values) matches Some(batch) ==> batch[c].cells
            == state.builders[c].cells.push(pg_to_arrow::cell_for(state.types[c], values[c])),
        state.batch_with_row(values) is None ==> state.after_row(values).builders[c].cells
            == state.builders[c].cells.push(pg_to_arrow::cell_for(state.types[c], values[c])),
        state.batch_with_row(values) is Some ==> state.after_row(values).rows_in_batch == 0
            && state.after_row(values).builders[c].cells.len() == 0,
{
}

} // verus!
