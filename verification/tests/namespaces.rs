use pglance::fdw::attach_namespace::{
    attach_created, attach_namespace, attach_one, attach_with_texts, existing_foreign_table,
    foreign_server_oid_by_name, foreign_table_sql, probe_relation, read_id_matches, relkind_sql,
    row_error, table_id_matches, AttachOutcome, AttachStep, AttachTexts, ExistingRelation,
    RelationProbe, OPT_NS_TABLE_ID,
};
use pglance::fdw::namespace_walk::{Listing, NamespaceWalk};
use pglance::fdw::table_mapping::{build_mapping, NamedTable};

fn id(parts: &[&str]) -> Vec<String> {
    parts.iter().map(|part| part.to_string()).collect()
}

fn named(table_id: &[&str], schema: &str, table: &str) -> NamedTable {
    NamedTable {
        table_id: id(table_id),
        local: Ok((schema.to_string(), table.to_string())),
    }
}

fn foreign(server: &str, option: Option<&str>) -> Option<ExistingRelation> {
    Some(ExistingRelation::ForeignTable {
        server: server.to_string(),
        ns_table_id: option.map(|o| o.to_string()),
    })
}

fn finished(step: AttachStep) -> Result<AttachOutcome, String> {
    match step {
        AttachStep::Finished(done) => done,
        AttachStep::Create { .. } => panic!("a table was to be created"),
    }
}

#[test]
fn walk_lists_tables_then_children() {
    let mut walk = NamespaceWalk::new(id(&["root"]), 2);
    let request = walk.request().unwrap();
    assert_eq!(request.listing, Listing::Tables);
    assert_eq!(request.id, id(&["root"]));
    assert_eq!(request.page_token, None);
    assert_eq!(request.limit, 2);
    walk.answer(id(&["t1", "t2"]), Some("p2".to_string()));

    let request = walk.request().unwrap();
    assert_eq!(request.listing, Listing::Tables);
    assert_eq!(request.page_token, Some("p2".to_string()));
    walk.answer(id(&["t3"]), Some(String::new()));

    let request = walk.request().unwrap();
    assert_eq!(request.listing, Listing::Namespaces);
    assert_eq!(request.page_token, None);
    walk.answer(id(&["a", "b", "a"]), None);

    let request = walk.request().unwrap();
    assert_eq!(request.listing, Listing::Tables);
    assert_eq!(request.id, id(&["root", "a"]));
    walk.answer(id(&["t4"]), None);
    walk.answer(vec![], None);

    assert_eq!(walk.request().unwrap().id, id(&["root", "b"]));
    walk.answer(vec![], None);
    walk.answer(vec![], None);

    assert!(walk.request().is_none());
    assert_eq!(
        walk.into_tables(),
        vec![
            id(&["root", "t1"]),
            id(&["root", "t2"]),
            id(&["root", "t3"]),
            id(&["root", "a", "t4"]),
        ]
    );
}

#[test]
fn walk_of_the_empty_root_is_over_at_once() {
    let mut walk = NamespaceWalk::new(vec![], 1000);
    walk.answer(vec![], None);
    walk.answer(vec![], None);
    assert!(walk.request().is_none());
    assert!(walk.into_tables().is_empty());
}

#[test]
fn mapping_is_sorted_and_conflicts_are_apart() {
    let tables = vec![
        named(&["z"], "s", "b"),
        named(&["y"], "s", "a"),
        named(&["x"], "s", "b"),
        named(&["w"], "r", "c"),
    ];
    let (conflicts, mapping) = build_mapping(&tables).unwrap();
    assert_eq!(conflicts, vec![id(&["z"]), id(&["x"])]);
    assert_eq!(
        mapping,
        vec![
            (id(&["w"]), ("r".to_string(), "c".to_string())),
            (id(&["y"]), ("s".to_string(), "a".to_string())),
        ]
    );
}

#[test]
fn order_of_tables_does_not_matter_to_the_mapping() {
    let list = [("z", "b"), ("y", "a"), ("x", "b"), ("w", "c"), ("y", "d")];
    let forward: Vec<NamedTable> = list.iter().map(|(id, name)| named(&[id], "s", name)).collect();
    let backward: Vec<NamedTable> =
        list.iter().rev().map(|(id, name)| named(&[id], "s", name)).collect();
    let (mut one, first) = build_mapping(&forward).unwrap();
    let (mut two, second) = build_mapping(&backward).unwrap();
    assert_eq!(first, second);
    one.sort();
    two.sort();
    assert_eq!(one, two);
    one.extend(first.into_iter().map(|entry| entry.0));
    one.sort();
    let mut all: Vec<Vec<String>> = list.iter().map(|(name, _)| id(&[name])).collect();
    all.sort();
    assert_eq!(one, all);
}

#[test]
fn mapping_fails_with_the_first_error() {
    let tables = vec![
        named(&["a"], "s", "a"),
        NamedTable { table_id: id(&["b"]), local: Err("first".to_string()) },
        NamedTable { table_id: id(&["c"]), local: Err("second".to_string()) },
    ];
    assert_eq!(build_mapping(&tables), Err("first".to_string()));
}

#[test]
fn error_row_has_the_name_or_none() {
    let tables = vec![
        named(&["a"], "s", "t"),
        NamedTable { table_id: id(&["b"]), local: Err("bad".to_string()) },
    ];
    let row = row_error(&tables, &id(&["a"]), "why");
    assert_eq!(
        row,
        (
            id(&["a"]),
            "s".to_string(),
            "t".to_string(),
            "error".to_string(),
            "failed".to_string(),
            "why".to_string(),
        )
    );
    let row = row_error(&tables, &id(&["b"]), "why");
    assert_eq!((row.1.as_str(), row.2.as_str()), ("_", "_"));
}

#[test]
fn server_is_found_or_not() {
    assert_eq!(foreign_server_oid_by_name("srv", 7), Ok(7));
    assert_eq!(
        foreign_server_oid_by_name("srv", 0),
        Err("foreign server not found: srv".to_string())
    );
    assert_eq!(
        foreign_server_oid_by_name("a\0b", 7),
        Err("server_name contains NUL".to_string())
    );
}

#[test]
fn relations_are_told_by_their_kind() {
    assert_eq!(probe_relation(None), RelationProbe::Absent);
    assert_eq!(probe_relation(Some("f")), RelationProbe::ForeignTable);
    assert_eq!(probe_relation(Some("r")), RelationProbe::Other('r'));
    assert_eq!(probe_relation(Some("")), RelationProbe::Other('?'));
}

#[test]
fn relation_queries_hold_their_literals() {
    assert_eq!(
        relkind_sql("'s'", "'t'"),
        "SELECT ( SELECT c.relkind::text FROM pg_class c JOIN pg_namespace n ON n.oid = c.relnamespace \
         WHERE n.nspname = 's' AND c.relname = 't' )"
    );
    assert_eq!(
        foreign_table_sql("'s'", "'t'", "'o'"),
        "SELECT ( SELECT fs.srvname FROM pg_class c JOIN pg_namespace n ON n.oid = c.relnamespace \
         JOIN pg_foreign_table ft ON ft.ftrelid = c.oid \
         JOIN pg_foreign_server fs ON fs.oid = ft.ftserver \
         WHERE n.nspname = 's' AND c.relname = 't' LIMIT 1 ), \
         ( SELECT opt.option_value FROM pg_class c JOIN pg_namespace n ON n.oid = c.relnamespace \
         JOIN pg_foreign_table ft ON ft.ftrelid = c.oid \
         LEFT JOIN LATERAL pg_options_to_table(ft.ftoptions) opt ON opt.option_name = 'o' \
         WHERE n.nspname = 's' AND c.relname = 't' LIMIT 1 )"
    );
}

#[test]
fn server_without_a_name_is_empty() {
    match existing_foreign_table(None, Some("[]".to_string())) {
        ExistingRelation::ForeignTable { server, ns_table_id } => {
            assert_eq!(server, "");
            assert_eq!(ns_table_id, Some("[]".to_string()));
        }
        other => panic!("{:?}", other),
    }
}

#[test]
fn table_ids_match_as_lists() {
    let expected = id(&["a", "b\"c"]);
    assert_eq!(table_id_matches(&expected, &None), Ok(false));
    assert_eq!(
        table_id_matches(&expected, &Some(" [\"a\" , \"b\\\"c\"] ".to_string())),
        Ok(true)
    );
    assert_eq!(table_id_matches(&expected, &Some("[\"a\"]".to_string())), Ok(false));
    let error = table_id_matches(&expected, &Some("{}".to_string())).unwrap_err();
    assert!(error.starts_with(
        "invalid existing option: ns.table_id must be a JSON array of strings, error=invalid type: map"
    ));
    assert_eq!(
        read_id_matches(&expected, &Some(Err("broken".to_string()))),
        Err(
            "invalid existing option: ns.table_id must be a JSON array of strings, error=broken"
                .to_string()
        )
    );
}

#[test]
fn nothing_in_the_way_is_created() {
    match attach_one(&id(&["ns", "a\"b"]), "srv", Some(512), false, &None) {
        AttachStep::Create { options } => assert_eq!(
            options,
            vec![
                ("ns.table_id".to_string(), "[\"ns\",\"a\\\"b\"]".to_string()),
                ("batch_size".to_string(), "512".to_string()),
            ]
        ),
        other => panic!("{:?}", other),
    }
    match attach_one(&id(&["t"]), "srv", None, false, &None) {
        AttachStep::Create { options } => {
            assert_eq!(options, vec![(OPT_NS_TABLE_ID.to_string(), "[\"t\"]".to_string())])
        }
        other => panic!("{:?}", other),
    }
    assert_eq!(attach_created(Ok(())), Ok(AttachOutcome::Created));
    assert_eq!(attach_created(Err("no".to_string())), Err("no".to_string()));
}

#[test]
fn dry_run_only_plans() {
    assert_eq!(
        finished(attach_one(&id(&["t"]), "srv", None, true, &None)),
        Ok(AttachOutcome::Planned)
    );
}

#[test]
fn attached_tables_are_left_alone() {
    let table_id = id(&["ns", "ü\n\"x\""]);
    let option = match attach_one(&table_id, "srv", None, false, &None) {
        AttachStep::Create { options } => options[0].1.clone(),
        other => panic!("{:?}", other),
    };
    for dry_run in [false, true] {
        assert_eq!(
            finished(attach_one(&table_id, "srv", None, dry_run, &foreign("srv", Some(&option)))),
            Ok(AttachOutcome::AlreadyAttached)
        );
    }
}

#[test]
fn other_relations_are_in_the_way() {
    let table_id = id(&["t"]);
    assert_eq!(
        finished(attach_one(&table_id, "srv", None, false, &foreign("other", Some("[\"t\"]")))),
        Err(
            "foreign table already exists with different server: existing=other expected=srv"
                .to_string()
        )
    );
    assert_eq!(
        finished(attach_one(&table_id, "srv", None, false, &foreign("srv", Some("[\"u\"]")))),
        Err(
            "foreign table already exists with different ns.table_id: \
             existing=Some(\"[\\\"u\\\"]\") expected=[\"t\"]"
                .to_string()
        )
    );
    assert_eq!(
        finished(attach_one(&table_id, "srv", None, false, &foreign("srv", None))),
        Err(
            "foreign table already exists with different ns.table_id: existing=None expected=[\"t\"]"
                .to_string()
        )
    );
    assert_eq!(
        finished(attach_one(
            &table_id,
            "srv",
            None,
            true,
            &Some(ExistingRelation::Other { relkind: 'v' })
        )),
        Err("relation already exists with relkind='v' (expected foreign table)".to_string())
    );
}

#[test]
fn texts_for_the_decision_are_taken_as_they_are() {
    let texts = AttachTexts {
        existing_id: Some(Ok(id(&["u"]))),
        existing_shown: "SHOWN".to_string(),
        table_id_json: "JSON".to_string(),
    };
    assert_eq!(
        finished(attach_with_texts(
            &id(&["t"]),
            "srv",
            None,
            false,
            &foreign("srv", Some("whatever")),
            texts
        )),
        Err(
            "foreign table already exists with different ns.table_id: existing=SHOWN expected=JSON"
                .to_string()
        )
    );
}

#[test]
fn run_gives_each_table_a_row() {
    let tables = vec![
        named(&["c1"], "s", "x"),
        named(&["c2"], "s", "x"),
        named(&["a"], "s", "a"),
        named(&["b"], "s", "b"),
        named(&["d"], "s", "d"),
        named(&["e"], "s", "e"),
    ];
    let mut run = attach_namespace(&tables, Some(8), false).unwrap();
    let task = run.task().unwrap();
    assert_eq!(task.table_id, id(&["a"]));
    assert_eq!(task.local, ("s".to_string(), "a".to_string()));
    assert_eq!(task.batch_size, Some(8));
    assert!(!task.dry_run);
    run.finished(Ok(AttachOutcome::Created));
    run.finished(Ok(AttachOutcome::AlreadyAttached));
    run.finished(Ok(AttachOutcome::Planned));
    run.finished(Err("broken".to_string()));
    assert!(run.task().is_none());
    let rows: Vec<(String, String, String, String)> = run
        .into_rows()
        .into_iter()
        .map(|row| (row.0.join("."), row.3, row.4, row.5))
        .collect();
    let expected = [
        ("c1", "error", "failed", "mapping conflict: multiple table_id map to the same (schema, table)"),
        ("c2", "error", "failed", "mapping conflict: multiple table_id map to the same (schema, table)"),
        ("a", "create_table", "ok", "attached"),
        ("b", "skip_existing", "skipped", "already attached"),
        ("d", "create_table", "skipped", "dry_run"),
        ("e", "error", "failed", "broken"),
    ];
    assert_eq!(rows.len(), expected.len());
    for (row, want) in rows.iter().zip(expected) {
        assert_eq!((row.0.as_str(), row.1.as_str(), row.2.as_str(), row.3.as_str()), want);
    }
}

#[test]
fn run_fails_with_the_naming_rule() {
    let tables = vec![NamedTable { table_id: id(&["a"]), local: Err("bad name".to_string()) }];
    assert_eq!(attach_namespace(&tables, None, false).err(), Some("bad name".to_string()));
}
