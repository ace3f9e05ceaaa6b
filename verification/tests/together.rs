use pglance::fdw::attach_namespace::{attach_one, AttachStep};
use pglance::fdw::local_tables::{introspect_local_namespace_tables, CatalogRow};
use pglance::settings::lance_fdw_validator;
use pglance::write::storage::resolve_storage_options;

fn written(options: &[(String, String)]) -> Vec<String> {
    options.iter().map(|(name, value)| format!("{}={}", name, value)).collect()
}

fn created(table_id: &[String], batch_size: Option<i64>) -> Vec<(String, String)> {
    match attach_one(table_id, "srv", batch_size, false, &None) {
        AttachStep::Create { options } => options,
        other => panic!("{:?}", other),
    }
}

#[test]
fn attached_tables_have_accepted_options() {
    let options = created(&["a=b".to_string()], Some(i64::MIN));
    assert_eq!(options.len(), 2);
    assert_eq!(lance_fdw_validator(&written(&options)), Ok(()));
}

#[test]
fn attached_tables_are_found_again() {
    let table_id = vec!["ns".to_string(), "täble \"1\"\\".to_string()];
    for batch_size in [1, 512, i64::MAX, i64::MIN] {
        let options = created(&table_id, Some(batch_size));
        let row = CatalogRow {
            local_schema: Some("s".to_string()),
            local_table: Some("t".to_string()),
            relid: Some(7),
            table_id_json: Some(options[0].1.clone()),
            batch_size: Some(options[1].1.clone()),
        };
        let found = introspect_local_namespace_tables(&[row], &table_id[..1]);
        assert!(found.errors.is_empty());
        assert_eq!(found.tables.len(), 1);
        assert_eq!(found.tables[0].0, table_id);
        assert_eq!(found.tables[0].1.batch_size, Some(batch_size));
    }
}

#[test]
fn storage_options_are_accepted_ones() {
    let options = Some(vec![
        ("aws_region".to_string(), "eu".to_string()),
        ("s3_endpoint".to_string(), "e=f".to_string()),
        ("other".to_string(), "x".to_string()),
    ]);
    let found = resolve_storage_options("srv", &options).unwrap();
    assert_eq!(found.len(), 2);
    assert_eq!(lance_fdw_validator(&written(&found)), Ok(()));
}
