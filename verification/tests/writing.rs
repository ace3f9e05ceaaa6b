use pglance::write::append::{lance_append_impl, rows_written, ChunkWrite, WriteMode};
use pglance::write::columns::{ColumnType, Float32Bits, Float64Bits, TimeUnit};
use pglance::write::merge_insert::{
    lance_merge_insert_impl, lance_merge_insert_with_schema_impl, merge_insert_row, MergeStep,
    WhenMatched, WhenNotMatched,
};
use pglance::write::pg_to_arrow::{
    append_datum, build_arrow_schema, datum_kind, extract_spi_columns, pg_oid_to_arrow_type,
    varlen_capacity, ColumnBuffer, DatumKind, DatumValue, DescribedColumn, SpiColumnInfo,
    TypedBuilder, BOOLOID, BYTEAOID, DATEOID, FLOAT4OID, FLOAT8OID, INT2OID, INT4OID, INT8OID,
    JSONBOID, JSONOID, NUMERICOID, TEXTOID, TIMESTAMPOID, TIMESTAMPTZOID, UUIDOID, VARCHAROID,
};
use pglance::write::row_batches::RowBatcher;
use pglance::write::spi_chunks::{for_each_spi_chunk, spi_failure, ChunkStep};
use pglance::write::storage::{open_failure, resolve_storage_options, storage_options_vec};

fn texts(parts: &[&str]) -> Vec<String> {
    parts.iter().map(|part| part.to_string()).collect()
}

fn pairs(list: &[(&str, &str)]) -> Vec<(String, String)> {
    list.iter().map(|(n, t)| (n.to_string(), t.to_string())).collect()
}

const TIMESTAMP: ColumnType = ColumnType::Timestamp(TimeUnit::Microsecond, false);
const TIMESTAMPTZ: ColumnType = ColumnType::Timestamp(TimeUnit::Microsecond, true);

// ---------------------------------------------------------------------------
// Types and values
// ---------------------------------------------------------------------------

#[test]
fn types_are_mapped_as_documented() {
    let pairs = [
        (BOOLOID, 16, ColumnType::Boolean),
        (INT2OID, 21, ColumnType::Int16),
        (INT4OID, 23, ColumnType::Int32),
        (INT8OID, 20, ColumnType::Int64),
        (FLOAT4OID, 700, ColumnType::Float32),
        (FLOAT8OID, 701, ColumnType::Float64),
        (NUMERICOID, 1700, ColumnType::Utf8),
        (TEXTOID, 25, ColumnType::Utf8),
        (VARCHAROID, 1043, ColumnType::Utf8),
        (UUIDOID, 2950, ColumnType::Utf8),
        (BYTEAOID, 17, ColumnType::Binary),
        (DATEOID, 1082, ColumnType::Date32),
        (TIMESTAMPOID, 1114, TIMESTAMP),
        (TIMESTAMPTZOID, 1184, TIMESTAMPTZ),
        (JSONBOID, 3802, ColumnType::Utf8),
        (JSONOID, 114, ColumnType::Utf8),
    ];
    for (oid, number, data_type) in pairs {
        assert_eq!(oid, number);
        assert_eq!(pg_oid_to_arrow_type(oid, None), Ok(data_type));
    }
}

#[test]
fn other_types_cannot_be_written() {
    assert_eq!(
        pg_oid_to_arrow_type(600, Some("point".to_string())),
        Err("unsupported PostgreSQL type for write: point".to_string())
    );
    assert_eq!(
        pg_oid_to_arrow_type(600, None),
        Err("unsupported PostgreSQL type for write: oid 600".to_string())
    );
}

fn described(name: &str, oid: u32) -> DescribedColumn {
    DescribedColumn { name: Ok(name.to_string()), type_oid: Ok(oid), formatted: None }
}

#[test]
fn columns_are_extracted_in_order() {
    let columns =
        extract_spi_columns(&Ok(vec![described("id", INT4OID), described("body", TEXTOID)])).unwrap();
    assert_eq!(columns.len(), 2);
    assert_eq!(columns[0].name, "id");
    assert_eq!(columns[0].pg_oid, INT4OID);
    assert_eq!(columns[0].arrow_type, ColumnType::Int32);
    assert_eq!(
        build_arrow_schema(&columns),
        vec![
            ("id".to_string(), ColumnType::Int32, true),
            ("body".to_string(), ColumnType::Utf8, true),
        ]
    );
}

#[test]
fn columns_that_cannot_be_read_are_errors() {
    let error = |described| extract_spi_columns(&described).err().unwrap();
    assert_eq!(error(Err("gone".to_string())), "failed to get column count: gone");
    assert_eq!(error(Ok(vec![])), "source_query returned zero columns");
    assert_eq!(
        error(Ok(vec![
            described("a", INT4OID),
            DescribedColumn { name: Err("n".to_string()), type_oid: Err("t".to_string()), formatted: None },
        ])),
        "failed to get column name 2: n"
    );
    assert_eq!(
        error(Ok(vec![DescribedColumn {
            name: Ok("a".to_string()),
            type_oid: Err("t".to_string()),
            formatted: None
        }])),
        "failed to get column type 1: t"
    );
    assert_eq!(
        error(Ok(vec![described("a", 600), described("b", 601)])),
        "unsupported PostgreSQL type for write: oid 600"
    );
}

#[test]
fn values_are_read_by_type() {
    let kinds = [
        (ColumnType::Boolean, BOOLOID, DatumKind::Bool),
        (ColumnType::Int16, INT2OID, DatumKind::Int2),
        (ColumnType::Int32, INT4OID, DatumKind::Int4),
        (ColumnType::Int64, INT8OID, DatumKind::Int8),
        (ColumnType::Float32, FLOAT4OID, DatumKind::Float4),
        (ColumnType::Float64, FLOAT8OID, DatumKind::Float8),
        (ColumnType::Utf8, NUMERICOID, DatumKind::Numeric),
        (ColumnType::Utf8, JSONBOID, DatumKind::JsonB),
        (ColumnType::Utf8, JSONOID, DatumKind::Json),
        (ColumnType::Utf8, UUIDOID, DatumKind::Uuid),
        (ColumnType::Utf8, TEXTOID, DatumKind::Text),
        (ColumnType::Binary, BYTEAOID, DatumKind::Bytes),
        (ColumnType::Date32, DATEOID, DatumKind::Date),
        (TIMESTAMP, TIMESTAMPOID, DatumKind::Timestamp),
        (TIMESTAMPTZ, TIMESTAMPTZOID, DatumKind::TimestampTz),
    ];
    for (data_type, oid, kind) in kinds {
        assert_eq!(datum_kind(data_type, oid), Some(kind));
    }
    assert_eq!(datum_kind(ColumnType::Other, TEXTOID), None);
}

fn appended(data_type: ColumnType, values: Vec<DatumValue>) -> ColumnBuffer {
    let mut builder = TypedBuilder::new(data_type, "T", 4).unwrap();
    assert_eq!(builder.capacity, 4);
    for value in values {
        append_datum(&mut builder, value);
    }
    builder.values
}

#[test]
fn values_are_appended() {
    match appended(ColumnType::Boolean, vec![DatumValue::Bool(true), DatumValue::Null]) {
        ColumnBuffer::Boolean(v) => assert_eq!(v, vec![Some(true), None]),
        other => panic!("{:?}", other),
    }
    match appended(ColumnType::Int16, vec![DatumValue::Int2(-3)]) {
        ColumnBuffer::Int16(v) => assert_eq!(v, vec![Some(-3)]),
        other => panic!("{:?}", other),
    }
    match appended(ColumnType::Int32, vec![DatumValue::Int4(4), DatumValue::Int8(4)]) {
        ColumnBuffer::Int32(v) => assert_eq!(v, vec![Some(4), None]),
        other => panic!("{:?}", other),
    }
    match appended(ColumnType::Int64, vec![DatumValue::Int8(i64::MIN)]) {
        ColumnBuffer::Int64(v) => assert_eq!(v, vec![Some(i64::MIN)]),
        other => panic!("{:?}", other),
    }
    match appended(ColumnType::Float32, vec![DatumValue::Float4(Float32Bits(1.5f32.to_bits()))]) {
        ColumnBuffer::Float32(v) => assert_eq!(v, vec![Some(Float32Bits(1.5f32.to_bits()))]),
        other => panic!("{:?}", other),
    }
    match appended(ColumnType::Float64, vec![DatumValue::Float8(Float64Bits(7))]) {
        ColumnBuffer::Float64(v) => assert_eq!(v, vec![Some(Float64Bits(7))]),
        other => panic!("{:?}", other),
    }
    match appended(ColumnType::Utf8, vec![DatumValue::Text("x".to_string()), DatumValue::Null]) {
        ColumnBuffer::Utf8(v) => assert_eq!(v, vec![Some("x".to_string()), None]),
        other => panic!("{:?}", other),
    }
    match appended(ColumnType::Binary, vec![DatumValue::Bytes(vec![0, 255])]) {
        ColumnBuffer::Binary(v) => assert_eq!(v, vec![Some(vec![0, 255])]),
        other => panic!("{:?}", other),
    }
    match appended(ColumnType::Date32, vec![DatumValue::Date(19_800)]) {
        ColumnBuffer::Date32(v) => assert_eq!(v, vec![Some(19_800)]),
        other => panic!("{:?}", other),
    }
}

#[test]
fn timestamps_are_counted_from_the_unix_epoch() {
    match appended(TIMESTAMP, vec![DatumValue::Timestamp(0), DatumValue::TimestampTz(0)]) {
        ColumnBuffer::TimestampMicro(v) => assert_eq!(v, vec![Some(946_684_800_000_000), None]),
        other => panic!("{:?}", other),
    }
    match appended(TIMESTAMPTZ, vec![DatumValue::TimestampTz(-946_684_800_000_000)]) {
        ColumnBuffer::TimestampMicroUtc(v) => assert_eq!(v, vec![Some(0)]),
        other => panic!("{:?}", other),
    }
}

#[test]
fn types_that_cannot_be_built_are_errors() {
    assert_eq!(
        TypedBuilder::new(ColumnType::Other, "Struct([])", 1).err(),
        Some("unsupported Arrow type for builder: Struct([])".to_string())
    );
}

#[test]
fn room_for_texts_is_limited() {
    assert_eq!(varlen_capacity(0), 0);
    assert_eq!(varlen_capacity(1024), 65_536);
    assert_eq!(varlen_capacity(131_072), 8_388_608);
    assert_eq!(varlen_capacity(131_073), 8_388_608);
    assert_eq!(varlen_capacity(usize::MAX), 8_388_608);
}

// ---------------------------------------------------------------------------
// Batches and chunks
// ---------------------------------------------------------------------------

fn ints(columns: Vec<TypedBuilder>) -> Vec<Option<i32>> {
    match &columns[0].values {
        ColumnBuffer::Int32(v) => v.clone(),
        other => panic!("{:?}", other),
    }
}

fn batcher(batch_size: usize, rows: usize, max_bytes: usize) -> RowBatcher {
    let columns = vec![SpiColumnInfo {
        name: "id".to_string(),
        pg_oid: INT4OID,
        arrow_type: ColumnType::Int32,
    }];
    RowBatcher::new(&columns, texts(&["Int32"]), batch_size, rows, max_bytes).ok().unwrap()
}

#[test]
fn rows_are_cut_into_batches() {
    let mut rows = batcher(2, 5, 0);
    let mut batches = Vec::new();
    for n in 0..5 {
        if let Some(batch) = rows.push_row(vec![DatumValue::Int4(n)]) {
            batches.push(ints(batch));
        }
    }
    if let Some(batch) = rows.finish() {
        batches.push(ints(batch));
    }
    assert_eq!(
        batches,
        vec![vec![Some(0), Some(1)], vec![Some(2), Some(3)], vec![Some(4)]]
    );
    assert_eq!(rows.row_count(), 5);
    let mut even = batcher(1, 1, 0);
    assert!(even.push_row(vec![DatumValue::Null]).is_some());
    assert!(even.finish().is_none());
}

#[test]
fn batches_reserve_room_for_their_rows() {
    let mut rows = batcher(1000, 3, 0);
    assert!(rows.push_row(vec![DatumValue::Int4(1)]).is_none());
    assert_eq!(rows.finish().unwrap()[0].capacity, 3);
    let mut rows = batcher(2, 10, 0);
    assert!(rows.push_row(vec![DatumValue::Int4(1)]).is_none());
    assert_eq!(rows.push_row(vec![DatumValue::Int4(1)]).unwrap()[0].capacity, 2);
    let mut rows = batcher(0, 0, 0);
    assert_eq!(rows.push_row(vec![DatumValue::Int4(1)]).unwrap()[0].capacity, 1);
}

#[test]
fn chunks_over_the_limit_are_refused() {
    let mb = 1_048_576;
    let mut rows = batcher(1, 3, 2 * mb);
    assert_eq!(rows.batch_built(mb), Ok(()));
    assert_eq!(rows.batch_built(mb), Ok(()));
    assert_eq!(
        rows.batch_built(mb + 5),
        Err(
            "source chunk exceeds lance.max_write_buffer_mb limit (2 MB): buffered ~3 MB before \
             completing. Aborting to avoid an out-of-memory crash. Lower lance.write_chunk_rows, \
             or raise lance.max_write_buffer_mb (e.g. SET lance.max_write_buffer_mb = ...)."
                .to_string()
        )
    );
    let mut free = batcher(1, 3, 0);
    assert_eq!(free.batch_built(usize::MAX), Ok(()));
}

#[test]
fn batcher_needs_types_that_can_be_built() {
    let columns = vec![SpiColumnInfo { name: "x".to_string(), pg_oid: 1, arrow_type: ColumnType::Int8 }];
    assert_eq!(
        RowBatcher::new(&columns, texts(&["Int8"]), 1, 1, 0).err(),
        Some("unsupported Arrow type for builder: Int8".to_string())
    );
}

#[test]
fn chunks_are_fetched_by_count() {
    assert_eq!(for_each_spi_chunk(1024, 100_000).fetch_count(), 100_000);
    assert_eq!(for_each_spi_chunk(1024, 0).fetch_count(), i64::MAX);
    assert_eq!(for_each_spi_chunk(1024, usize::MAX).fetch_count(), i64::MAX);
}

#[test]
fn chunks_are_taken_step_by_step() {
    let mut chunks = for_each_spi_chunk(0, 10);
    assert_eq!(chunks.fetched(&Ok(3)), Ok(ChunkStep::Describe));
    assert_eq!(chunks.described(&Ok(vec![described("id", INT4OID)])), Ok(()));
    assert_eq!(chunks.columns().unwrap().len(), 1);
    assert_eq!(chunks.fetched(&Ok(3)), Ok(ChunkStep::Convert));
    let mut rows = chunks.convert(texts(&["Int32"]), 3, 0).ok().unwrap();
    assert!(rows.push_row(vec![DatumValue::Int4(1)]).is_some());
    assert_eq!(chunks.handled(3, Ok(())), Ok(()));
    assert_eq!(chunks.handled(2, Ok(())), Ok(()));
    assert_eq!(chunks.fetched(&Ok(0)), Ok(ChunkStep::Done));
    assert_eq!(chunks.total_rows(), 5);
}

#[test]
fn everything_that_fails_in_a_chunk_is_told_alike() {
    let mut chunks = for_each_spi_chunk(1, 1);
    assert_eq!(
        chunks.fetched(&Err("x".to_string())),
        Err("SPI connect failed: SPI cursor fetch failed: x".to_string())
    );
    assert_eq!(
        chunks.described(&Ok(vec![])),
        Err("SPI connect failed: source_query returned zero columns".to_string())
    );
    assert_eq!(
        chunks.handled(1, Err("y".to_string())),
        Err("SPI connect failed: y".to_string())
    );
    assert_eq!(spi_failure("z"), "SPI connect failed: z");
}

// ---------------------------------------------------------------------------
// Appending and merging
// ---------------------------------------------------------------------------

#[test]
fn modes_have_names() {
    assert_eq!(lance_append_impl("create").unwrap().mode, WriteMode::Create);
    assert_eq!(lance_append_impl("append").unwrap().mode, WriteMode::Append);
    assert_eq!(lance_append_impl("overwrite").unwrap().mode, WriteMode::Overwrite);
    assert_eq!(
        lance_append_impl("Create"),
        Err("invalid mode 'Create': must be 'create', 'append', or 'overwrite'".to_string())
    );
}

#[test]
fn only_the_first_chunk_is_in_the_mode() {
    for (name, mode) in [
        ("create", WriteMode::Create),
        ("append", WriteMode::Append),
        ("overwrite", WriteMode::Overwrite),
    ] {
        let mut run = lance_append_impl(name).unwrap();
        assert_eq!(run.chunk(0), None);
        run.written(0);
        let first = ChunkWrite { mode, check_exists: name == "append" };
        assert_eq!(run.chunk(3), Some(first));
        run.written(3);
        let later = ChunkWrite { mode: WriteMode::Append, check_exists: false };
        assert_eq!(run.chunk(1), Some(later));
        assert_eq!(run.chunk(0), None);
    }
    assert_eq!(rows_written(5), 5);
}

#[test]
fn source_without_rows_keeps_the_mode() {
    for (name, mode) in [
        ("create", WriteMode::Create),
        ("append", WriteMode::Append),
        ("overwrite", WriteMode::Overwrite),
    ] {
        let mut run = lance_append_impl(name).unwrap();
        let whole = ChunkWrite { mode, check_exists: name == "append" };
        assert_eq!(run.finish(), Some(whole));
        run.written(0);
        assert_eq!(run.finish(), Some(whole));
        run.written(1);
        assert_eq!(run.finish(), None);
    }
}

#[test]
fn merging_needs_columns_to_match_on() {
    assert_eq!(
        lance_merge_insert_impl(vec![], "update", "insert").err(),
        Some("on_columns must not be empty".to_string())
    );
    assert_eq!(
        lance_merge_insert_with_schema_impl(vec![], "update", "insert", vec![]).err(),
        Some("on_columns must not be empty".to_string())
    );
}

#[test]
fn chunks_are_merged_into_an_open_dataset() {
    let mut run = lance_merge_insert_impl(texts(&["id"]), "update", "insert").ok().unwrap();
    assert_eq!(run.chunk(0), MergeStep::Skip);
    assert_eq!(run.chunk(1), MergeStep::Open);
    assert_eq!(run.opened(&texts(&["id", "x"]), &texts(&["x", "id"])), Ok(()));
    assert_eq!(run.chunk(1), MergeStep::Merge);
    assert_eq!(run.actions(), Ok((WhenMatched::UpdateAll, WhenNotMatched::InsertAll)));
    run.merged();
    run.merged();
    assert_eq!(run.on_columns(), &texts(&["id"]));
    assert!(run.type_overrides().is_none());
    assert_eq!(run.finish(7, 100, 12), (7, -1, -1, 12, 2, 100));
    assert_eq!(run.finish(0, 0, 12), (0, 0, 0, 12, 2, 0));
}

#[test]
fn given_types_are_carried_along() {
    let run = lance_merge_insert_with_schema_impl(
        texts(&["id"]),
        "nothing",
        "nothing",
        pairs(&[("created_at", "timestamp_us_utc")]),
    )
    .ok()
    .unwrap();
    assert_eq!(run.type_overrides(), Some(&pairs(&[("created_at", "timestamp_us_utc")])));
    assert_eq!(run.actions(), Ok((WhenMatched::DoNothing, WhenNotMatched::DoNothing)));
}

#[test]
fn columns_to_match_on_must_exist() {
    let mut run = lance_merge_insert_impl(texts(&["a", "b"]), "update", "insert").ok().unwrap();
    assert_eq!(
        run.opened(&texts(&["a", "c"]), &texts(&["d"])),
        Err("on_column 'b' not found in source query result (columns: a, c)".to_string())
    );
    assert_eq!(
        run.opened(&texts(&["a", "b"]), &texts(&["b", "d"])),
        Err("on_column 'a' not found in Lance schema (columns: b, d)".to_string())
    );
    assert_eq!(run.chunk(1), MergeStep::Open);
}

#[test]
fn unknown_actions_are_errors() {
    let run = lance_merge_insert_impl(texts(&["a"]), "upsert", "skip").ok().unwrap();
    assert_eq!(
        run.actions(),
        Err("invalid when_matched value 'upsert': must be 'update' or 'nothing'".to_string())
    );
    let run = lance_merge_insert_impl(texts(&["a"]), "update", "skip").ok().unwrap();
    assert_eq!(
        run.actions(),
        Err("invalid when_not_matched value 'skip': must be 'insert' or 'nothing'".to_string())
    );
}

#[test]
fn unknown_counts_are_null() {
    assert_eq!(merge_insert_row((7, -1, -1, 12, 2, 100)), (7, None, None, 12, 2, 100));
    assert_eq!(merge_insert_row((0, 0, 3, 1, 0, 0)), (0, Some(0), Some(3), 1, 0, 0));
}

// ---------------------------------------------------------------------------
// Storage
// ---------------------------------------------------------------------------

#[test]
fn storage_options_are_those_for_the_storage() {
    let options = Some(pairs(&[
        ("s3_endpoint", "e"),
        ("aws_region", "old"),
        ("ns.impl", "dir"),
        ("aws_key", "k"),
        ("aws_region", "new"),
        ("AWS_X", "y"),
    ]));
    assert_eq!(
        storage_options_vec(Some("srv"), &options),
        Ok(pairs(&[("aws_key", "k"), ("aws_region", "new"), ("s3_endpoint", "e")]))
    );
    assert_eq!(storage_options_vec(None, &options), Ok(vec![]));
}

#[test]
fn servers_must_exist() {
    assert_eq!(
        resolve_storage_options("srv", &None),
        Err("foreign server 'srv' not found".to_string())
    );
    assert_eq!(
        resolve_storage_options("a\0", &Some(vec![])),
        Err("invalid server name".to_string())
    );
    assert_eq!(open_failure("/d", "gone"), "failed to open dataset '/d': gone");
}
