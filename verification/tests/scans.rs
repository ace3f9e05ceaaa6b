use pglance::fdw::scan::{
    begin_foreign_scan, explain_foreign_scan, explain_only, explain_with_json, find_field,
    format_projection_list, locate_columns, pg_type_name, report, Attribute, ConvertErrorKind,
    ConvertFailure, ErrorCode, ExplainProperty, LanceDatasetSource, LanceScanState, ScanFailure,
    ScanStep, ValueSource,
};

fn texts(parts: &[&str]) -> Vec<String> {
    parts.iter().map(|part| part.to_string()).collect()
}

fn attribute(name: Option<&str>) -> Attribute {
    Attribute { type_oid: 23, name: name.map(|n| n.to_string()) }
}

fn failure(kind: ConvertErrorKind) -> ConvertFailure {
    ConvertFailure {
        kind,
        arrow_type: "Utf8".to_string(),
        pg_type: "integer".to_string(),
        error: "cannot".to_string(),
    }
}

fn scan() -> LanceScanState {
    begin_foreign_scan(
        "uri=/d",
        vec![attribute(Some("b")), attribute(None), attribute(Some("a"))],
        &texts(&["a", "b"]),
        &[None, None, None],
    )
    .unwrap()
}

fn message(e: ConvertErrorKind) -> (ErrorCode, String, String) {
    let error = begin_foreign_scan(
        "uri=/d",
        vec![attribute(Some("a"))],
        &texts(&["a"]),
        &[Some(failure(e))],
    )
    .err()
    .unwrap();
    (error.code, error.message, error.detail)
}

#[test]
fn plan_only_scans_are_told_by_a_flag() {
    assert!(explain_only(1));
    assert!(explain_only(0x11));
    assert!(explain_only(-1));
    assert!(!explain_only(0));
    assert!(!explain_only(2));
    assert!(!explain_only(i32::MIN));
}

#[test]
fn last_field_of_a_name_counts() {
    let fields = texts(&["a", "b", "a"]);
    assert_eq!(find_field(&fields, "a"), Some(2));
    assert_eq!(find_field(&fields, "b"), Some(1));
    assert_eq!(find_field(&fields, "c"), None);
    assert_eq!(
        locate_columns(&[attribute(Some("a")), attribute(None), attribute(Some("x"))], &fields),
        vec![Some(2), None, None]
    );
}

#[test]
fn missing_columns_are_errors() {
    let error = begin_foreign_scan(
        "uri=/d",
        vec![attribute(Some("a")), attribute(Some("x"))],
        &texts(&["a", "b"]),
        &[None, Some(failure(ConvertErrorKind::Internal))],
    )
    .err()
    .unwrap();
    assert_eq!(error.code, ErrorCode::ColumnNameNotFound);
    assert_eq!(error.message, "column not found in lance dataset schema");
    assert_eq!(error.detail, "uri=/d column=x dataset_columns=a,b");
}

#[test]
fn first_error_counts() {
    let error = begin_foreign_scan(
        "uri=/d",
        vec![attribute(None), attribute(Some("a")), attribute(Some("x"))],
        &texts(&["a"]),
        &[
            Some(failure(ConvertErrorKind::Internal)),
            Some(failure(ConvertErrorKind::TypeMismatch)),
            None,
        ],
    )
    .err()
    .unwrap();
    assert_eq!(error.code, ErrorCode::InvalidDataTypeDescriptors);
}

#[test]
fn types_that_do_not_fit_are_errors() {
    let detail = "uri=/d column=a arrow_type=Utf8 pg_type=integer error=cannot".to_string();
    assert_eq!(
        message(ConvertErrorKind::TypeMismatch),
        (
            ErrorCode::InvalidDataTypeDescriptors,
            "column type mismatch between foreign table and dataset schema".to_string(),
            detail.clone()
        )
    );
    for kind in [ConvertErrorKind::UnsupportedType, ConvertErrorKind::ValueOutOfRange] {
        assert_eq!(
            message(kind),
            (
                ErrorCode::InvalidDataType,
                "unsupported column type for lance_fdw".to_string(),
                detail.clone()
            )
        );
    }
    assert_eq!(
        message(ConvertErrorKind::Internal),
        (
            ErrorCode::FdwError,
            "internal lance_fdw schema validation error".to_string(),
            detail
        )
    );
}

#[test]
fn every_row_is_handed_out_once() {
    let mut state = scan();
    let batches = [2, 0, 0, 3];
    let mut next = batches.iter();
    let mut rows = Vec::new();
    let mut read = 0;
    loop {
        match state.iterate_foreign_scan() {
            ScanStep::FetchBatch => match next.next() {
                Some(n) => {
                    read += 1;
                    state.take_batch(*n);
                }
                None => break,
            },
            ScanStep::Emit(row) => rows.push((read, row)),
        }
    }
    assert_eq!(rows, vec![(1, 0), (1, 1), (4, 0), (4, 1), (4, 2)]);
    assert_eq!(state.iterate_foreign_scan(), ScanStep::FetchBatch);
}

#[test]
fn rescan_starts_over() {
    let mut state = scan();
    state.take_batch(5);
    assert_eq!(state.iterate_foreign_scan(), ScanStep::Emit(0));
    state.rescan_foreign_scan();
    assert_eq!(state.iterate_foreign_scan(), ScanStep::FetchBatch);
    state.take_batch(1);
    assert_eq!(state.iterate_foreign_scan(), ScanStep::Emit(0));
}

#[test]
fn values_come_from_their_columns() {
    let state = scan();
    assert!(matches!(state.attribute_source(false, 0), Ok(ValueSource::Column(1))));
    assert!(matches!(state.attribute_source(true, 1), Ok(ValueSource::Null)));
    assert!(matches!(state.attribute_source(false, 2), Ok(ValueSource::Column(0))));
    for i in [1, 3] {
        let error = state.attribute_source(false, i).err().unwrap();
        assert_eq!(error.code, ErrorCode::InconsistentDescriptorInformation);
        assert_eq!(error.message, "missing batch column mapping for attribute");
        assert_eq!(error.detail, format!("attribute_number={}", i + 1));
    }
}

#[test]
fn values_that_cannot_be_converted_are_errors() {
    let state = scan();
    let error = state.value_error(2, &failure(ConvertErrorKind::Internal));
    assert_eq!(error.code, ErrorCode::FdwError);
    assert_eq!(error.message, "internal lance_fdw conversion error");
    assert_eq!(error.detail, "uri=/d column=a arrow_type=Utf8 pg_type=integer error=cannot");
    for i in [1, 9] {
        let error = state.value_error(i, &failure(ConvertErrorKind::TypeMismatch));
        assert!(error.detail.starts_with("uri=/d column=<unknown> "));
    }
}

#[test]
fn rows_are_filled() {
    let state = scan();
    let dropped = [false, true, false];
    assert_eq!(state.columns_of_row(&dropped), vec![Some(1), None, Some(0)]);
    assert_eq!(state.columns_of_row(&[false, false]), vec![Some(1), None]);
    let row = state.fill_row(&dropped, vec![Some(Ok((7, false))), None, Some(Ok((0, true)))]);
    assert_eq!(row.ok().unwrap(), vec![(7, false), (0, true), (0, true)]);
    let error = state
        .fill_row(
            &dropped,
            vec![
                Some(Ok((7, false))),
                None,
                Some(Err(failure(ConvertErrorKind::ValueOutOfRange))),
            ],
        )
        .err()
        .unwrap();
    assert_eq!(error.code, ErrorCode::InvalidDataType);
    assert!(error.detail.starts_with("uri=/d column=a "));
    let error = state
        .fill_row(&[false, false], vec![Some(Ok((7, false))), None])
        .err()
        .unwrap();
    assert_eq!(error.detail, "attribute_number=2");
}

#[test]
fn failures_are_reported() {
    let e = || "boom".to_string();
    let label = || "label".to_string();
    let cases = [
        (
            ScanFailure::Options { relation_oid: 5, error: e() },
            ErrorCode::InvalidOptionName,
            "invalid foreign table options",
            "relation_oid=5 error=boom",
        ),
        (
            ScanFailure::Runtime { error: e() },
            ErrorCode::UnableToCreateExecution,
            "failed to create tokio runtime",
            "error=boom",
        ),
        (
            ScanFailure::OpenUri { uri: "/d".to_string(), error: e() },
            ErrorCode::TableNotFound,
            "failed to open lance dataset",
            "uri=/d error=boom",
        ),
        (
            ScanFailure::NamespaceOptions { server_oid: 6, error: e() },
            ErrorCode::InvalidOptionName,
            "invalid namespace server options",
            "server_oid=6 error=boom",
        ),
        (
            ScanFailure::OpenNamespace { label: label(), error: e() },
            ErrorCode::TableNotFound,
            "failed to open lance dataset via namespace",
            "label error=boom",
        ),
        (
            ScanFailure::Stream { label: label(), error: e() },
            ErrorCode::UnableToCreateExecution,
            "failed to create scanner stream",
            "label error=boom",
        ),
        (
            ScanFailure::NextBatch { label: label(), error: e() },
            ErrorCode::FdwError,
            "failed to read next record batch",
            "label error=boom",
        ),
    ];
    for (failure, code, message, detail) in cases {
        let error = report(&failure);
        assert_eq!(error.code, code);
        assert_eq!(error.message, message);
        assert_eq!(error.detail, detail);
    }
}

#[test]
fn types_without_a_name_have_their_oid() {
    assert_eq!(pg_type_name(Some("integer".to_string()), 23), "integer");
    assert_eq!(pg_type_name(None, 23), "oid 23");
}

#[test]
fn projections_are_listed() {
    assert_eq!(format_projection_list(&[]), "[]");
    assert_eq!(format_projection_list(&[attribute(None)]), "[]");
    assert_eq!(
        format_projection_list(&[attribute(Some("a")), attribute(None), attribute(Some("b"))]),
        "a, b"
    );
}

fn shown(properties: Vec<ExplainProperty>) -> Vec<String> {
    properties
        .into_iter()
        .map(|property| match property {
            ExplainProperty::Text(label, value) => format!("{}: {}", label, value),
            ExplainProperty::Integer(label, value) => format!("{}= {}", label, value),
        })
        .collect()
}

#[test]
fn scans_of_a_uri_are_explained() {
    let source = LanceDatasetSource::Uri { uri: "/a\0b".to_string() };
    assert_eq!(
        shown(explain_foreign_scan(&source, 512, &[attribute(Some("a"))])),
        vec!["Lance URI: /ab", "Batch Size= 512", "Projection: a"]
    );
    assert_eq!(
        shown(explain_foreign_scan(&source, usize::MAX, &[attribute(Some("a\0"))])),
        vec!["Lance URI: /ab", "Batch Size= -1"]
    );
}

#[test]
fn scans_of_a_namespace_are_explained() {
    let source = LanceDatasetSource::Namespace {
        server_oid: u32::MAX,
        table_id: texts(&["a", "b\"c"]),
    };
    assert_eq!(
        shown(explain_foreign_scan(&source, 1, &[])),
        vec![
            "Lance Table ID: [\"a\",\"b\\\"c\"]",
            "Lance Namespace Server OID= 4294967295",
            "Batch Size= 1",
            "Projection: []",
        ]
    );
    assert_eq!(
        shown(explain_with_json(&source, "[\0]", 1, &[]))[0],
        "Lance Table ID: []"
    );
}
