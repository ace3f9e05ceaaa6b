use pglance::fdw::attach_namespace::AttachOutcome;
use pglance::fdw::column_types::{
    canonical_type_string, detect_schema_drift, same_columns, summarize_column_diff,
};
use pglance::fdw::local_tables::{
    drop_foreign_table_sql, has_prefix, introspect_local_namespace_tables, introspection_sql,
    local_columns_sql, CatalogRow, LocalNamespaceTable, LocalTables,
};
use pglance::fdw::sync_namespace::{
    sync_namespace, SyncAction, SyncEvent, SyncRun, DEFAULT_LIMIT_PER_LIST_CALL,
};
use pglance::fdw::table_mapping::NamedTable;

fn id(parts: &[&str]) -> Vec<String> {
    parts.iter().map(|part| part.to_string()).collect()
}

fn columns(list: &[(&str, &str)]) -> Vec<(String, String)> {
    list.iter().map(|(n, t)| (n.to_string(), t.to_string())).collect()
}

fn named(table_id: &[&str], schema: &str, table: &str) -> NamedTable {
    NamedTable {
        table_id: id(table_id),
        local: Ok((schema.to_string(), table.to_string())),
    }
}

fn catalog(schema: &str, table: &str, relid: i64, option: Option<&str>) -> CatalogRow {
    CatalogRow {
        local_schema: Some(schema.to_string()),
        local_table: Some(table.to_string()),
        relid: Some(relid),
        table_id_json: option.map(|o| o.to_string()),
        batch_size: Some("64".to_string()),
    }
}

// ---------------------------------------------------------------------------
// Column types
// ---------------------------------------------------------------------------

#[test]
fn types_have_one_name() {
    let pairs = [
        ("boolean", "boolean"),
        ("int2", "int2"),
        ("smallint", "int2"),
        ("integer", "int4"),
        ("INT4", "int4"),
        ("bigint", "int8"),
        ("int8", "int8"),
        ("real", "float4"),
        ("double precision", "float8"),
        ("float8", "float8"),
        ("text", "text"),
        ("bytea", "bytea"),
        ("date", "date"),
        ("timestamp", "timestamp"),
        ("timestamp without time zone", "timestamp"),
        ("timestamp with time zone", "timestamptz"),
        ("timestamptz", "timestamptz"),
        ("numeric", "numeric"),
        ("jsonb", "jsonb"),
        ("varchar(10)", "varchar(10)"),
    ];
    for (input, expected) in pairs {
        assert_eq!(canonical_type_string(input), expected);
    }
}

#[test]
fn spelling_does_not_matter() {
    assert_eq!(canonical_type_string("  Double \t Precision "), "float8");
    assert_eq!(canonical_type_string("\"public\".\"My_Type\""), "my_type");
    assert_eq!(canonical_type_string("pg_catalog.int4[]"), "int4[]");
    assert_eq!(canonical_type_string("integer [] []"), "int4[][]");
    assert_eq!(canonical_type_string("timestamp with time zone[]"), "timestamptz[]");
    assert_eq!(canonical_type_string("a. b"), "b");
    assert_eq!(canonical_type_string("[]"), "[]");
    assert_eq!(canonical_type_string(""), "");
}

#[test]
fn canonical_types_are_canonical() {
    for input in ["  \"S\".Integer [ ] []", "x.[]", "a\"b\" . c[] []", "BIGINT", "[][]", " . "] {
        let once = canonical_type_string(input);
        assert_eq!(canonical_type_string(&once), once);
        let array = format!("{}[]", once);
        assert_eq!(canonical_type_string(&array), array);
    }
}

#[test]
fn arrays_are_spelled_behind_their_type() {
    for input in ["", " ", "Integer", "\"S\".Integer ", "x. y []", "\"\"", "a. "] {
        let array = format!("{}[]", input);
        let expected = format!("{}[]", canonical_type_string(input));
        assert_eq!(canonical_type_string(&array), expected);
        assert_eq!(canonical_type_string(&input.to_ascii_uppercase()), canonical_type_string(input));
        assert!(!expected.contains(['"', '.']) && !expected.contains("  "));
        assert_eq!(expected, expected.to_ascii_lowercase());
    }
}

#[test]
fn differences_are_told() {
    let a = columns(&[("id", "int4"), ("name", "text")]);
    assert_eq!(
        summarize_column_diff("s", "t", &a, &columns(&[("id", "int4")])),
        "s.t column count mismatch: expected=2 actual=1"
    );
    assert_eq!(
        summarize_column_diff("s", "t", &a, &columns(&[("id", "int4"), ("nom", "text")])),
        "s.t column name mismatch at position 2: expected=name actual=nom"
    );
    assert_eq!(
        summarize_column_diff("s", "t", &a, &columns(&[("id", "int8"), ("nom", "text")])),
        "s.t column type mismatch for id: expected=int4 actual=int8"
    );
    assert_eq!(summarize_column_diff("s", "t", &a, &a), "s.t column definitions differ");
    assert!(same_columns(&a, &a));
}

#[test]
fn drift_is_more_than_spelling() {
    let expected = columns(&[("id", "int8"), ("tags", "text[]")]);
    let actual = columns(&[("id", "bigint"), ("tags", "TEXT []")]);
    assert_eq!(detect_schema_drift("s", "t", &expected, &actual), None);
    let changed = columns(&[("id", "integer"), ("tags", "text[]")]);
    assert_eq!(
        detect_schema_drift("s", "t", &expected, &changed),
        Some("schema drift: s.t column type mismatch for id: expected=int8 actual=int4".to_string())
    );
}

// ---------------------------------------------------------------------------
// Local tables
// ---------------------------------------------------------------------------

#[test]
fn prefixes_are_of_whole_names() {
    assert!(has_prefix(&id(&["a", "b"]), &id(&["a"])));
    assert!(has_prefix(&id(&["a"]), &[]));
    assert!(!has_prefix(&id(&["ab"]), &id(&["a"])));
    assert!(!has_prefix(&id(&["a"]), &id(&["a", "b"])));
}

#[test]
fn local_tables_are_collected_by_path() {
    let rows = vec![
        catalog("s", "z", 1, Some("[\"ns\",\"z\"]")),
        catalog("s", "a", 0x1_0000_0005, Some("[\"ns\",\"a\"]")),
        catalog("s", "other", 3, Some("[\"elsewhere\"]")),
    ];
    let found = introspect_local_namespace_tables(&rows, &id(&["ns"]));
    assert!(found.errors.is_empty());
    assert_eq!(found.tables.len(), 2);
    assert_eq!(found.tables[0].0, id(&["ns", "a"]));
    assert_eq!(found.tables[0].1.relid, 5);
    assert_eq!(found.tables[0].1.batch_size, Some(64));
    assert_eq!(found.tables[1].0, id(&["ns", "z"]));
    assert_eq!(found.tables[1].1.local_table, "z");
}

#[test]
fn bad_options_are_errors() {
    let rows = vec![
        catalog("s", "t1", 1, None),
        catalog("s", "t2", 1, Some("[]")),
        catalog("s", "t3", 1, Some("7")),
        CatalogRow {
            local_schema: None,
            local_table: None,
            relid: None,
            table_id_json: Some("[\"x\"]".to_string()),
            batch_size: Some("many".to_string()),
        },
    ];
    let found = introspect_local_namespace_tables(&rows, &[]);
    assert_eq!(found.errors.len(), 3);
    assert_eq!(found.errors[0].5, "missing required option: ns.table_id");
    assert_eq!(found.errors[1].5, "invalid option: ns.table_id must not be empty");
    assert!(found.errors[2]
        .5
        .starts_with("invalid option: ns.table_id must be a JSON array of strings, error="));
    assert!(found.errors[2].5.contains("invalid type"));
    for (error, table) in found.errors.iter().zip(["t1", "t2", "t3"]) {
        assert!(error.0.is_empty());
        assert_eq!(error.2, table);
        assert_eq!((error.3.as_str(), error.4.as_str()), ("error", "failed"));
    }
    assert_eq!(found.tables.len(), 1);
    assert_eq!(found.tables[0].1.local_schema, "");
    assert_eq!(found.tables[0].1.local_table, "");
    assert_eq!(found.tables[0].1.relid, 0);
    assert_eq!(found.tables[0].1.batch_size, None);
}

#[test]
fn later_table_takes_the_place_of_an_earlier_one() {
    let rows = vec![
        catalog("s", "first", 1, Some("[\"x\"]")),
        catalog("s", "second", 2, Some("[ \"x\" ]")),
    ];
    let found = introspect_local_namespace_tables(&rows, &[]);
    assert_eq!(found.tables.len(), 1);
    assert_eq!(found.tables[0].1.local_table, "second");
    assert_eq!(found.errors.len(), 1);
    assert_eq!(found.errors[0].0, id(&["x"]));
    assert_eq!(found.errors[0].2, "second");
    assert_eq!(
        found.errors[0].5,
        "duplicate local ns.table_id (multiple foreign tables point to the same table_id)"
    );
}

#[test]
fn read_options_are_taken_as_they_are() {
    let local = |table: &str| LocalNamespaceTable {
        local_schema: "s".to_string(),
        local_table: table.to_string(),
        relid: 1,
        batch_size: None,
    };
    let mut tables = LocalTables::new();
    tables.take(local("t"), Some(Ok(id(&["a", "t"]))), &id(&["a"]));
    tables.take(local("u"), Some(Err("broken".to_string())), &id(&["a"]));
    assert_eq!(tables.tables.len(), 1);
    assert_eq!(
        tables.errors[0].5,
        "invalid option: ns.table_id must be a JSON array of strings, error=broken"
    );
}

#[test]
fn catalog_queries_are_spelled_out() {
    assert_eq!(
        introspection_sql("'srv'", "'ns.table_id'", "'batch_size'"),
        "SELECT n.nspname::text AS local_schema, c.relname::text AS local_table, \
         c.oid::bigint AS relid, opt.option_value AS table_id_json, \
         opt_bs.option_value AS batch_size FROM pg_class c \
         JOIN pg_namespace n ON n.oid = c.relnamespace \
         JOIN pg_foreign_table ft ON ft.ftrelid = c.oid \
         JOIN pg_foreign_server fs ON fs.oid = ft.ftserver \
         JOIN LATERAL pg_options_to_table(ft.ftoptions) opt ON opt.option_name = 'ns.table_id' \
         LEFT JOIN LATERAL pg_options_to_table(ft.ftoptions) opt_bs \
         ON opt_bs.option_name = 'batch_size' \
         WHERE fs.srvname = 'srv' ORDER BY n.nspname, c.relname"
    );
    assert_eq!(
        local_columns_sql(42),
        "SELECT a.attname::text AS name, format_type(a.atttypid, a.atttypmod)::text AS ty \
         FROM pg_attribute a WHERE a.attrelid = 42 AND a.attnum > 0 \
         AND NOT a.attisdropped ORDER BY a.attnum"
    );
    assert_eq!(drop_foreign_table_sql("\"s\"", "\"t\""), "DROP FOREIGN TABLE \"s\".\"t\";");
}

// ---------------------------------------------------------------------------
// Runs
// ---------------------------------------------------------------------------

fn start(drop_missing: bool, recreate_changed: bool, dry_run: bool) -> SyncRun {
    let tables = vec![
        named(&["new"], "s", "a_new"),
        named(&["moved"], "s", "b_moved"),
        named(&["same"], "s", "c_same"),
        named(&["changed"], "s", "d_changed"),
        named(&["x1"], "s", "x"),
        named(&["x2"], "s", "x"),
    ];
    let mut run = sync_namespace(&tables, vec![], drop_missing, recreate_changed, dry_run).unwrap();
    assert!(matches!(run.action(), SyncAction::ReadCatalog));
    run.resume(SyncEvent::Catalog(Ok(vec![
        catalog("s", "elsewhere", 1, Some("[\"moved\"]")),
        catalog("s", "c_same", 2, Some("[\"same\"]")),
        catalog("s", "d_changed", 3, Some("[\"changed\"]")),
        catalog("s", "z_gone", 4, Some("[\"gone2\"]")),
        catalog("r", "gone", 5, Some("[\"gone1\"]")),
        catalog("s", "bad", 6, Some("[]")),
    ])));
    run
}

fn lines(run: SyncRun) -> Vec<String> {
    run.into_rows()
        .unwrap()
        .into_iter()
        .map(|row| format!("{} {}.{} {} {} {}", row.0.join("/"), row.1, row.2, row.3, row.4, row.5))
        .collect()
}

const HEAD: [&str; 3] = [
    "x1 s.x error failed mapping conflict: multiple table_id map to the same (schema, table)",
    "x2 s.x error failed mapping conflict: multiple table_id map to the same (schema, table)",
    " s.bad error failed invalid option: ns.table_id must not be empty",
];

fn same(run: &mut SyncRun) {
    match run.action() {
        SyncAction::CompareColumns { table_id, local_table, relid } => {
            assert_eq!(table_id, id(&["same"]));
            assert_eq!(local_table, "c_same");
            assert_eq!(relid, 2);
        }
        other => panic!("{:?}", other),
    }
    run.resume(SyncEvent::Columns(Ok((
        columns(&[("id", "int4")]),
        columns(&[("id", "integer")]),
    ))));
}

fn changed(run: &mut SyncRun) {
    assert!(matches!(run.action(), SyncAction::CompareColumns { .. }));
    run.resume(SyncEvent::Columns(Ok((
        columns(&[("id", "int8")]),
        columns(&[("id", "integer")]),
    ))));
}

const DRIFT: &str =
    "schema drift: s.d_changed column type mismatch for id: expected=int8 actual=int4";

#[test]
fn plain_run_only_adds() {
    let mut run = start(false, false, false);
    match run.action() {
        SyncAction::Attach { table_id, local, batch_size, dry_run } => {
            assert_eq!(table_id, id(&["new"]));
            assert_eq!(local, ("s".to_string(), "a_new".to_string()));
            assert_eq!(batch_size, None);
            assert!(!dry_run);
        }
        other => panic!("{:?}", other),
    }
    run.resume(SyncEvent::Attached(Ok(AttachOutcome::Created)));
    assert!(matches!(run.action(), SyncAction::Record));
    run.resume(SyncEvent::Recorded);
    same(&mut run);
    changed(&mut run);
    assert!(matches!(run.action(), SyncAction::Record));
    run.resume(SyncEvent::Recorded);
    run.resume(SyncEvent::Recorded);
    assert!(matches!(run.action(), SyncAction::Finished));
    let mut expected: Vec<String> = HEAD.iter().map(|s| s.to_string()).collect();
    expected.push("new s.a_new create_table ok attached".to_string());
    expected.push(
        "moved s.b_moved drift ok local mapping differs: actual=s.elsewhere expected=s.b_moved"
            .to_string(),
    );
    expected.push("same s.c_same in_sync ok up to date".to_string());
    expected.push(format!("changed s.d_changed drift ok {}", DRIFT));
    for gone in ["gone1 r.gone", "gone2 s.z_gone"] {
        expected.push(format!(
            "{} drift ok local foreign table not found in remote namespace listing",
            gone
        ));
    }
    assert_eq!(lines(run), expected);
}

#[test]
fn dry_run_drops_nothing() {
    let mut run = start(true, true, true);
    match run.action() {
        SyncAction::Attach { dry_run, .. } => assert!(dry_run),
        other => panic!("{:?}", other),
    }
    run.resume(SyncEvent::Attached(Ok(AttachOutcome::Planned)));
    run.resume(SyncEvent::Recorded);
    same(&mut run);
    changed(&mut run);
    assert!(matches!(run.action(), SyncAction::Record));
    run.resume(SyncEvent::Recorded);
    run.resume(SyncEvent::Recorded);
    assert!(matches!(run.action(), SyncAction::Finished));
    let rows = lines(run);
    assert_eq!(rows[3], "new s.a_new create_table skipped dry_run");
    assert_eq!(
        rows[6],
        format!("changed s.d_changed recreate_table skipped dry_run: {}", DRIFT)
    );
    assert_eq!(rows[7], "gone1 r.gone drop_table skipped dry_run");
    assert_eq!(rows[8], "gone2 s.z_gone drop_table skipped dry_run");
}

#[test]
fn changed_tables_are_recreated_and_gone_ones_dropped() {
    let mut run = start(true, true, false);
    run.resume(SyncEvent::Attached(Err("no room".to_string())));
    run.resume(SyncEvent::Recorded);
    same(&mut run);
    changed(&mut run);
    match run.action() {
        SyncAction::DropTable { local } => {
            assert_eq!(local, ("s".to_string(), "d_changed".to_string()))
        }
        other => panic!("{:?}", other),
    }
    run.resume(SyncEvent::Dropped(Ok(())));
    match run.action() {
        SyncAction::Attach { table_id, batch_size, dry_run, .. } => {
            assert_eq!(table_id, id(&["changed"]));
            assert_eq!(batch_size, Some(64));
            assert!(!dry_run);
        }
        other => panic!("{:?}", other),
    }
    run.resume(SyncEvent::Attached(Ok(AttachOutcome::Created)));
    match run.action() {
        SyncAction::DropTable { local } => {
            assert_eq!(local, ("r".to_string(), "gone".to_string()))
        }
        other => panic!("{:?}", other),
    }
    run.resume(SyncEvent::Dropped(Ok(())));
    run.resume(SyncEvent::Dropped(Err("in use".to_string())));
    let rows = lines(run);
    assert_eq!(rows[3], "new s.a_new create_table failed no room");
    assert_eq!(
        rows[6],
        format!("changed s.d_changed recreate_table ok recreated: {}", DRIFT)
    );
    assert_eq!(rows[7], "gone1 r.gone drop_table ok dropped");
    assert_eq!(rows[8], "gone2 s.z_gone drop_table failed in use");
}

#[test]
fn failures_while_recreating_are_told() {
    let mut run = start(false, true, false);
    run.resume(SyncEvent::Attached(Ok(AttachOutcome::Created)));
    run.resume(SyncEvent::Recorded);
    same(&mut run);
    changed(&mut run);
    run.resume(SyncEvent::Dropped(Err("in use".to_string())));
    run.resume(SyncEvent::Recorded);
    run.resume(SyncEvent::Recorded);
    assert_eq!(
        lines(run)[6],
        "changed s.d_changed recreate_table failed failed to drop existing foreign table: in use"
    );

    let mut run = start(false, true, false);
    run.resume(SyncEvent::Attached(Ok(AttachOutcome::Created)));
    run.resume(SyncEvent::Recorded);
    same(&mut run);
    changed(&mut run);
    run.resume(SyncEvent::Dropped(Ok(())));
    run.resume(SyncEvent::Attached(Err("gone".to_string())));
    run.resume(SyncEvent::Recorded);
    run.resume(SyncEvent::Recorded);
    assert_eq!(
        lines(run)[6],
        "changed s.d_changed recreate_table failed failed to recreate foreign table: gone"
    );
}

#[test]
fn recreated_table_keeps_the_status_of_attaching() {
    let mut run = start(false, true, false);
    run.resume(SyncEvent::Attached(Ok(AttachOutcome::Created)));
    run.resume(SyncEvent::Recorded);
    same(&mut run);
    changed(&mut run);
    run.resume(SyncEvent::Dropped(Ok(())));
    run.resume(SyncEvent::Attached(Ok(AttachOutcome::AlreadyAttached)));
    run.resume(SyncEvent::Recorded);
    run.resume(SyncEvent::Recorded);
    assert_eq!(
        lines(run)[6],
        format!("changed s.d_changed recreate_table skipped recreated: {}", DRIFT)
    );
}

#[test]
fn failed_reads_end_the_run() {
    let mut run = sync_namespace(&[], vec![], false, false, false).unwrap();
    run.resume(SyncEvent::Catalog(Err("no catalog".to_string())));
    assert!(matches!(run.action(), SyncAction::Finished));
    assert_eq!(run.into_rows(), Err("no catalog".to_string()));

    let mut run = start(false, false, false);
    run.resume(SyncEvent::Attached(Ok(AttachOutcome::Created)));
    run.resume(SyncEvent::Recorded);
    run.resume(SyncEvent::Columns(Err("no columns".to_string())));
    assert!(matches!(run.action(), SyncAction::Finished));
    assert_eq!(run.into_rows(), Err("no columns".to_string()));
}

#[test]
fn naming_errors_stop_a_run_before_it_starts() {
    let tables = vec![NamedTable { table_id: id(&["a"]), local: Err("bad".to_string()) }];
    assert_eq!(
        sync_namespace(&tables, vec![], false, false, false).err(),
        Some("bad".to_string())
    );
}

#[test]
fn run_without_tables_is_over_at_once() {
    let mut run = sync_namespace(&[], vec![], true, true, false).unwrap();
    run.resume(SyncEvent::Catalog(Ok(vec![])));
    assert!(matches!(run.action(), SyncAction::Finished));
    assert!(run.into_rows().unwrap().is_empty());
    assert_eq!(DEFAULT_LIMIT_PER_LIST_CALL, 1000);
}
