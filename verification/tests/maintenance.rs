use pglance::calendar::{earlier, Moment};
use pglance::write::columns::Float32Bits;
use pglance::write::delete::lance_delete_impl;
use pglance::write::index::{
    build_fts_params, index_columns, index_list_row, index_row_with_json,
    lance_list_indices_impl, lance_optimize_indices_impl, optional_u32, optional_u64, optional_usize, parse_optimize_mode,
    parse_scalar_index_type, FtsRequest, IndexDescription, OptimizeMode, ScalarIndexType,
};
use pglance::write::limits;
use pglance::write::metadata::{
    fragment_row, lance_fragment_stats_impl, lance_list_branches_impl, lance_list_fragments_impl,
    lance_list_tags_impl, lance_list_versions_impl, lance_table_fields_impl, lance_table_info_impl,
    tag_row, tag_row_with_texts, version_row, version_row_with_text, BranchInfo, FragmentInfo,
    SchemaNode, TableSummary, TagInfo, VersionInfo,
};
use pglance::write::optimize::{
    lance_optimize_impl, optimize_row, parse_compaction_mode, rewrite_all_tasks, CompactionCounts,
    CompactionMode, CompactionRequest,
};
use pglance::write::vacuum::{
    cleanup_plan_numbers, cleanup_policy, cleanup_policy_at, lance_cleanup_plan_impl,
    lance_vacuum_impl, plan_with_policy, vacuum_row, CleanupPlan, CleanupPolicy, CleanupRequest, RemovalStats,
};

fn texts(parts: &[&str]) -> Vec<String> {
    parts.iter().map(|part| part.to_string()).collect()
}

// ---------------------------------------------------------------------------
// Compacting
// ---------------------------------------------------------------------------

fn compaction() -> CompactionRequest {
    CompactionRequest {
        target_rows_per_fragment: Some(1_000_000),
        max_rows_per_group: None,
        max_bytes_per_file: Some(0),
        materialize_deletions: true,
        materialize_deletions_threshold: Float32Bits(0.1f32.to_bits()),
        num_threads: Some(4),
        batch_size: None,
        defer_index_remap: false,
        compaction_mode: Some("reencode".to_string()),
        max_source_fragments: None,
        io_buffer_size: Some(9),
        rewrite_all: true,
    }
}

fn compaction_error(change: fn(&mut CompactionRequest)) -> String {
    let mut request = compaction();
    change(&mut request);
    lance_optimize_impl(&request).unwrap_err()
}

#[test]
fn compaction_is_read() {
    let settings = lance_optimize_impl(&compaction()).unwrap();
    assert_eq!(settings.target_rows_per_fragment, Some(1_000_000));
    assert_eq!(settings.max_rows_per_group, None);
    assert_eq!(settings.max_bytes_per_file, Some(0));
    assert!(settings.materialize_deletions);
    assert_eq!(settings.materialize_deletions_threshold, Float32Bits(0.1f32.to_bits()));
    assert_eq!(settings.num_threads, Some(4));
    assert_eq!(settings.batch_size, None);
    assert!(!settings.defer_index_remap);
    assert_eq!(settings.compaction_mode, Some(CompactionMode::Reencode));
    assert_eq!(settings.max_source_fragments, None);
    assert_eq!(settings.io_buffer_size, Some(9));
    assert!(settings.rewrite_all);
}

#[test]
fn faults_in_compaction_are_told() {
    for number in [f32::NAN, f32::INFINITY, f32::NEG_INFINITY] {
        let mut request = compaction();
        request.materialize_deletions_threshold = Float32Bits(number.to_bits());
        assert_eq!(
            lance_optimize_impl(&request),
            Err("materialize_deletions_threshold must be finite".to_string())
        );
    }
    let negative = [
        (
            compaction_error(|r| r.target_rows_per_fragment = Some(-1)),
            "target_rows_per_fragment",
        ),
        (compaction_error(|r| r.max_rows_per_group = Some(-1)), "max_rows_per_group"),
        (compaction_error(|r| r.max_bytes_per_file = Some(-1)), "max_bytes_per_file"),
        (compaction_error(|r| r.num_threads = Some(-1)), "num_threads"),
        (compaction_error(|r| r.batch_size = Some(i64::MIN)), "batch_size"),
        (compaction_error(|r| r.max_source_fragments = Some(-1)), "max_source_fragments"),
        (compaction_error(|r| r.io_buffer_size = Some(-1)), "io_buffer_size"),
    ];
    for (error, name) in negative {
        assert_eq!(error, format!("{} must be non-negative", name));
    }
    assert_eq!(
        compaction_error(|r| r.compaction_mode = Some("fast".to_string())),
        "invalid compaction_mode 'fast': must be 'reencode', 'try_binary_copy', or \
         'force_binary_copy'"
    );
    assert_eq!(
        compaction_error(|r| r.max_source_fragments = Some(2)),
        "rewrite_all cannot be combined with max_source_fragments"
    );
}

#[test]
fn first_fault_in_compaction_counts() {
    assert_eq!(
        compaction_error(|r| {
            r.batch_size = Some(-1);
            r.compaction_mode = Some("fast".to_string());
        }),
        "batch_size must be non-negative"
    );
}

#[test]
fn compaction_modes_have_names() {
    assert_eq!(parse_compaction_mode(None), Ok(None));
    assert_eq!(parse_compaction_mode(Some("reencode")), Ok(Some(CompactionMode::Reencode)));
    assert_eq!(
        parse_compaction_mode(Some("try_binary_copy")),
        Ok(Some(CompactionMode::TryBinaryCopy))
    );
    assert_eq!(
        parse_compaction_mode(Some("force_binary_copy")),
        Ok(Some(CompactionMode::ForceBinaryCopy))
    );
    assert!(parse_compaction_mode(Some("")).is_err());
}

#[test]
fn all_fragments_are_rewritten_at_once() {
    assert_eq!(rewrite_all_tasks(vec![1, 2, 3]), vec![vec![1, 2, 3]]);
    assert!(rewrite_all_tasks(Vec::<u8>::new()).is_empty());
}

#[test]
fn compaction_counts_are_a_row() {
    let counts = CompactionCounts {
        fragments_removed: 6,
        fragments_added: 1,
        files_removed: 8,
        files_added: 2,
    };
    assert_eq!(optimize_row(&counts, 1850), (6, 1, 8, 2, 1850));
}

#[test]
fn numbers_are_limited() {
    assert_eq!(limits::optional_u64(Some(7), "n"), Ok(Some(7)));
    assert_eq!(limits::optional_u64(None, "n"), Ok(None));
    assert_eq!(limits::optional_u64(Some(-1), "n"), Err("n must be non-negative".to_string()));
    assert_eq!(limits::optional_usize(Some(7), "n"), Ok(Some(7)));
    assert_eq!(limits::optional_usize(Some(-1), "n"), Err("n must be non-negative".to_string()));
}

// ---------------------------------------------------------------------------
// Indexes
// ---------------------------------------------------------------------------

#[test]
fn index_numbers_are_limited() {
    assert_eq!(optional_usize(Some(3), "n"), Ok(Some(3)));
    assert_eq!(optional_usize(Some(-3), "n"), Err("n must be a non-negative integer".to_string()));
    assert_eq!(optional_u64(Some(-3), "n"), Err("n must be a non-negative integer".to_string()));
    assert_eq!(optional_u64(None, "n"), Ok(None));
    assert_eq!(optional_u32(Some(4_294_967_295), "n"), Ok(Some(u32::MAX)));
    assert_eq!(optional_u32(Some(4_294_967_296), "n"), Err("n must fit in u32".to_string()));
    assert_eq!(optional_u32(Some(-1), "n"), Err("n must fit in u32".to_string()));
}

#[test]
fn scalar_indexes_have_names_in_any_case() {
    for name in ["btree", "B-Tree", "BTREE"] {
        assert_eq!(parse_scalar_index_type(name), Ok(ScalarIndexType::BTree));
    }
    assert_eq!(parse_scalar_index_type("Bitmap"), Ok(ScalarIndexType::Bitmap));
    for name in ["label_list", "LabelList", "label-list"] {
        assert_eq!(parse_scalar_index_type(name), Ok(ScalarIndexType::LabelList));
    }
    assert_eq!(
        parse_scalar_index_type("HNSW"),
        Err(
            "unsupported scalar index type 'hnsw'; expected btree, bitmap, or label_list"
                .to_string()
        )
    );
}

#[test]
fn ways_to_optimize_have_names_in_any_case() {
    assert_eq!(parse_optimize_mode("Append", Some(-1)), Ok(OptimizeMode::Append));
    assert_eq!(parse_optimize_mode("retrain", Some(-1)), Ok(OptimizeMode::Retrain));
    assert_eq!(parse_optimize_mode("merge", None), Ok(OptimizeMode::Merge(1)));
    assert_eq!(parse_optimize_mode("merge", Some(4)), Ok(OptimizeMode::Merge(4)));
    assert_eq!(parse_optimize_mode("auto", None), Ok(OptimizeMode::Auto(None)));
    assert_eq!(parse_optimize_mode("DEFAULT", Some(2)), Ok(OptimizeMode::Auto(Some(2))));
    for mode in ["merge", "auto"] {
        assert_eq!(
            parse_optimize_mode(mode, Some(-1)),
            Err("num_indices_to_merge must be a non-negative integer".to_string())
        );
    }
    assert_eq!(
        parse_optimize_mode("Fast", None),
        Err("unsupported optimize mode 'fast'; expected append, merge, retrain, or auto".to_string())
    );
}

#[test]
fn without_names_all_indexes_are_optimized() {
    let request = lance_optimize_indices_impl(vec![], "append", None).unwrap();
    assert_eq!(request.mode, OptimizeMode::Append);
    assert_eq!(request.index_names, None);
    assert_eq!(request.index_count, 0);
    let request = lance_optimize_indices_impl(texts(&["a", "b"]), "merge", Some(4)).unwrap();
    assert_eq!(request.index_names, Some(texts(&["a", "b"])));
    assert_eq!(request.index_count, 2);
    assert!(lance_optimize_indices_impl(vec![], "x", None).is_err());
}

fn fts() -> FtsRequest {
    FtsRequest {
        tokenizer: "simple".to_string(),
        language: "English".to_string(),
        with_position: true,
        lower_case: true,
        stem: false,
        remove_stop_words: false,
        ascii_folding: true,
        max_token_length: Some(40),
        ngram_min_length: Some(2),
        ngram_max_length: None,
        ngram_prefix_only: false,
        memory_limit_mb: Some(512),
        num_workers: Some(3),
    }
}

#[test]
fn full_text_parameters_are_read() {
    let params = build_fts_params(&fts(), None).unwrap();
    assert_eq!(params.tokenizer, "simple");
    assert_eq!(params.language, "English");
    assert!(params.with_position && params.lower_case && params.ascii_folding);
    assert!(!params.stem && !params.remove_stop_words && !params.ngram_prefix_only);
    assert_eq!(params.max_token_length, Some(40));
    assert_eq!(params.ngram_min_length, Some(2));
    assert_eq!(params.ngram_max_length, None);
    assert_eq!(params.memory_limit_mb, Some(512));
    assert_eq!(params.num_workers, Some(3));
}

#[test]
fn faults_in_full_text_parameters_are_told() {
    let error = |change: fn(&mut FtsRequest)| {
        let mut request = fts();
        change(&mut request);
        build_fts_params(&request, None).unwrap_err()
    };
    assert_eq!(
        error(|r| r.max_token_length = Some(-1)),
        "max_token_length must be a non-negative integer"
    );
    assert_eq!(error(|r| r.ngram_min_length = Some(-1)), "ngram_min_length must fit in u32");
    assert_eq!(
        error(|r| r.ngram_max_length = Some(1 << 32)),
        "ngram_max_length must fit in u32"
    );
    assert_eq!(
        error(|r| r.memory_limit_mb = Some(-1)),
        "memory_limit_mb must be a non-negative integer"
    );
    assert_eq!(error(|r| r.num_workers = Some(-1)), "num_workers must be a non-negative integer");
    let mut request = fts();
    request.max_token_length = Some(-1);
    assert_eq!(
        build_fts_params(&request, Some("unknown".to_string())).unwrap_err(),
        "invalid FTS language 'English': unknown"
    );
}

#[test]
fn indexes_are_listed() {
    let description = IndexDescription {
        name: "idx".to_string(),
        index_type: "BTree".to_string(),
        fields: vec![(1, Some("a.\"b\"".to_string())), (7, None)],
        type_url: "/x".to_string(),
        rows_indexed: 10,
        total_size_bytes: Some(99),
        details: "{}".to_string(),
    };
    assert_eq!(index_columns(&description.fields), texts(&["a.\"b\"", "<field:7>"]));
    let expected = |columns: &str| {
        (
            "idx".to_string(),
            "BTree".to_string(),
            columns.to_string(),
            "/x".to_string(),
            10,
            Some(99),
            "{}".to_string(),
        )
    };
    assert_eq!(index_list_row(&description), expected("[\"a.\\\"b\\\"\",\"<field:7>\"]"));
    assert_eq!(index_row_with_json(&description, "JSON".to_string()), expected("JSON"));
    assert_eq!(
        lance_list_indices_impl(&[description]),
        vec![expected("[\"a.\\\"b\\\"\",\"<field:7>\"]")]
    );
}

// ---------------------------------------------------------------------------
// Removing old files
// ---------------------------------------------------------------------------

fn cleanup() -> CleanupRequest {
    CleanupRequest {
        older_than_seconds: Some(604_800),
        before_version: Some(3),
        delete_unverified: true,
        error_if_tagged_old_versions: false,
        clean_referenced_branches: true,
        delete_rate_limit: None,
    }
}

const NOW: Moment = Moment { secs: 1_700_000_000, nanos: 5 };

#[test]
fn moments_lie_back() {
    assert_eq!(earlier(NOW, 0), Some(NOW));
    assert_eq!(earlier(NOW, 1_700_000_001), Some(Moment { secs: -1, nanos: 5 }));
    let first = -96_465_292i64 * 86_400;
    assert_eq!(
        earlier(Moment { secs: 0, nanos: 0 }, -first),
        Some(Moment { secs: first, nanos: 0 })
    );
    assert_eq!(earlier(Moment { secs: 0, nanos: 0 }, -first + 1), None);
    assert_eq!(earlier(Moment { secs: 0, nanos: 0 }, i64::MIN), None);
    assert_eq!(earlier(NOW, i64::MAX), None);
}

#[test]
fn old_files_are_those_before_a_moment() {
    assert_eq!(
        cleanup_policy_at(NOW, &cleanup()),
        Ok(CleanupPolicy {
            before_timestamp: Some(Moment { secs: 1_700_000_000 - 604_800, nanos: 5 }),
            before_version: Some(3),
            delete_unverified: true,
            error_if_tagged_old_versions: false,
            clean_referenced_branches: true,
            delete_rate_limit: None,
        })
    );
    let mut request = cleanup();
    request.older_than_seconds = None;
    assert_eq!(cleanup_policy_at(NOW, &request).unwrap().before_timestamp, None);
}

#[test]
fn faults_in_removing_are_told() {
    let mut request = cleanup();
    request.delete_rate_limit = Some(-1);
    assert_eq!(
        cleanup_policy_at(NOW, &request),
        Err("delete_rate_limit must be non-negative".to_string())
    );
    request.before_version = Some(-1);
    assert_eq!(
        cleanup_policy_at(NOW, &request),
        Err("before_version must be non-negative".to_string())
    );
    request.older_than_seconds = Some(-1);
    assert_eq!(
        cleanup_policy_at(NOW, &request),
        Err("older_than_seconds must be non-negative".to_string())
    );
}

#[test]
fn policy_is_of_the_present() {
    let clock = || {
        std::time::SystemTime::now()
            .duration_since(std::time::UNIX_EPOCH)
            .unwrap()
            .as_secs() as i64
    };
    let before = clock();
    let policy = cleanup_policy(&cleanup()).unwrap().unwrap();
    let after = clock();
    let then = policy.before_timestamp.unwrap().secs + 604_800;
    assert!(before <= then && then <= after);
    let mut request = cleanup();
    request.older_than_seconds = Some(i64::MAX);
    assert!(cleanup_policy(&request).is_none());
    request.older_than_seconds = Some(-1);
    assert!(cleanup_policy(&request).unwrap().is_err());
    assert_eq!(
        lance_vacuum_impl(&request),
        Some(Err("older_than_seconds must be non-negative".to_string()))
    );
}

#[test]
fn dataset_is_told_as_a_whole() {
    let summary = TableSummary {
        version: 3,
        latest_version: 4,
        rows: 10,
        fragments: 2,
        schema_json: "{}".to_string(),
        metadata_json: "[]".to_string(),
    };
    assert_eq!(
        lance_table_info_impl("/d", summary, 7),
        ("/d".to_string(), 3, 4, 10, 2, "{}".to_string(), "[]".to_string(), 7)
    );
}

#[test]
fn plans_are_limited() {
    let plan = lance_cleanup_plan_impl(&cleanup(), Some(10)).unwrap().unwrap();
    assert_eq!(plan.max_candidate_files, Some(10));
    assert_eq!(plan.policy.before_version, Some(3));
    assert_eq!(
        plan_with_policy(cleanup_policy_at(NOW, &cleanup()), Some(-1)),
        Err("max_candidate_files must be non-negative".to_string())
    );
    assert_eq!(
        plan_with_policy(Err("first".to_string()), Some(-1)),
        Err("first".to_string())
    );
    let mut request = cleanup();
    request.older_than_seconds = Some(i64::MAX);
    assert!(lance_cleanup_plan_impl(&request, None).is_none());
}

#[test]
fn removals_are_rows() {
    let stats = RemovalStats {
        bytes_removed: 10_485_760,
        old_versions: 4,
        data_files_removed: 12,
        transaction_files_removed: 3,
        index_files_removed: 0,
        deletion_files_removed: 2,
    };
    assert_eq!(vacuum_row(&stats, 420), (10_485_760, 4, 12, 3, 0, 2, 420));
    let plan = CleanupPlan {
        read_version: 9,
        stats,
        candidate_files_truncated: true,
        candidate_file_limit: 100,
    };
    assert_eq!(
        cleanup_plan_numbers(&plan),
        (9, 10_485_760, 4, 12, 3, 0, 2, true, 100)
    );
}

#[test]
fn removed_fragments_are_not_negative() {
    assert_eq!(lance_delete_impl(5, 2), 3);
    assert_eq!(lance_delete_impl(2, 5), 0);
    assert_eq!(lance_delete_impl(2, 2), 0);
}

// ---------------------------------------------------------------------------
// Metadata
// ---------------------------------------------------------------------------

fn node(name: &str, id: i32, parent_id: i32, children: Vec<SchemaNode>) -> SchemaNode {
    SchemaNode {
        name: name.to_string(),
        id,
        parent_id,
        type_text: "T".to_string(),
        nullable: id % 2 == 0,
        metadata_json: "{}".to_string(),
        children,
    }
}

#[test]
fn fields_are_listed_with_their_paths() {
    let fields = vec![
        node("a", 0, -1, vec![
            node("b", 1, 0, vec![node("c", 2, 1, vec![])]),
            node("d", 3, 0, vec![]),
        ]),
        node("e", 4, -1, vec![]),
    ];
    let rows = lance_table_fields_impl(&fields);
    let paths: Vec<(&str, i32, i32, &str)> =
        rows.iter().map(|r| (r.0.as_str(), r.1, r.2, r.3.as_str())).collect();
    assert_eq!(
        paths,
        vec![
            ("a", 0, -1, "a"),
            ("a.b", 1, 0, "b"),
            ("a.b.c", 2, 1, "c"),
            ("a.d", 3, 0, "d"),
            ("e", 4, -1, "e"),
        ]
    );
    assert_eq!(rows[0].4, "T");
    assert!(rows[0].5 && !rows[1].5);
    assert_eq!(rows[0].6, "{}");
}

fn fragment(physical: Option<usize>, logical: Option<usize>, deletions: bool) -> FragmentInfo {
    FragmentInfo {
        id: 1,
        physical_rows: physical,
        logical_rows: logical,
        files: 2,
        has_deletion_file: deletions,
        json: "{}".to_string(),
    }
}

#[test]
fn fragments_are_summed_up() {
    let fragments = vec![
        fragment(Some(10), Some(8), true),
        fragment(None, None, false),
        fragment(Some(5), Some(5), false),
    ];
    let stats = lance_fragment_stats_impl(&fragments);
    assert_eq!(stats.fragment_count, 3);
    assert_eq!(stats.physical_rows, 15);
    assert_eq!(stats.logical_rows, 13);
    assert_eq!(stats.deleted_rows, 2);
    assert_eq!(stats.deletion_files, 1);
    assert_eq!(lance_fragment_stats_impl(&[]).fragment_count, 0);
    assert_eq!(
        fragment_row(&fragments[0]),
        (1, Some(10), Some(8), 2, true, "{}".to_string())
    );
    assert_eq!(fragment_row(&fragments[1]).1, None);
    let rows = lance_list_fragments_impl(&fragments);
    assert_eq!(rows.len(), 3);
    assert_eq!(rows[2], fragment_row(&fragments[2]));
}

#[test]
fn versions_have_moments() {
    let version = VersionInfo {
        version: 3,
        timestamp: Moment { secs: 1_700_000_000, nanos: 120_000_000 },
        metadata_json: "{}".to_string(),
    };
    assert_eq!(
        version_row(&version),
        Some((3, "2023-11-14T22:13:20.120+00:00".to_string(), "{}".to_string()))
    );
    assert_eq!(version_row_with_text(&version, "T".to_string()).1, "T");
    let never = VersionInfo {
        version: 3,
        timestamp: Moment { secs: i64::MAX, nanos: 0 },
        metadata_json: "{}".to_string(),
    };
    assert_eq!(version_row(&never), None);
    let again = VersionInfo {
        version: 4,
        timestamp: Moment { secs: 0, nanos: 0 },
        metadata_json: "[]".to_string(),
    };
    let rows = lance_list_versions_impl(&[version, again]).unwrap();
    assert_eq!(rows[0].0, 3);
    assert_eq!(rows[1], (4, "1970-01-01T00:00:00+00:00".to_string(), "[]".to_string()));
    assert_eq!(lance_list_versions_impl(&[never]), None);
    let leap = |secs| VersionInfo {
        version: 3,
        timestamp: Moment { secs, nanos: 1_500_000_000 },
        metadata_json: "{}".to_string(),
    };
    assert!(version_row(&leap(59)).is_some());
    assert!(version_row(&leap(-1)).is_some());
    assert!(version_row(&leap(60)).is_none());
}

#[test]
fn tags_have_moments_or_none() {
    let tag = |created_at| TagInfo {
        name: "v1".to_string(),
        branch: Some("main".to_string()),
        version: 8,
        created_at,
        updated_at: None,
        manifest_size: 77,
        metadata_json: "{}".to_string(),
    };
    let row = tag_row(&tag(Some(Moment { secs: 0, nanos: 0 }))).unwrap();
    assert_eq!(row.0, "v1");
    assert_eq!(row.1, Some("main".to_string()));
    assert_eq!(row.2, 8);
    assert_eq!(row.3, Some("1970-01-01T00:00:00+00:00".to_string()));
    assert_eq!(row.4, None);
    assert_eq!(row.5, 77);
    assert_eq!(row.6, "{}");
    assert_eq!(tag_row(&tag(Some(Moment { secs: i64::MIN, nanos: 0 }))), None);
    let rows = lance_list_tags_impl(&[tag(None), tag(Some(Moment { secs: 1, nanos: 0 }))]).unwrap();
    assert_eq!(rows[0].3, None);
    assert_eq!(rows[1].3, Some("1970-01-01T00:00:01+00:00".to_string()));
    assert_eq!(lance_list_tags_impl(&[tag(Some(Moment { secs: i64::MAX, nanos: 0 }))]), None);
    let given = tag_row_with_texts(&tag(None), Some("A".to_string()), Some("B".to_string()));
    assert_eq!((given.3, given.4), (Some("A".to_string()), Some("B".to_string())));
}

#[test]
fn branches_are_sorted_by_name() {
    let branch = |version| BranchInfo {
        parent_branch: None,
        parent_version: version,
        create_at: 1,
        manifest_size: 2,
        identifier_json: "\"i\"".to_string(),
        metadata_json: "{}".to_string(),
    };
    let rows = lance_list_branches_impl(vec![
        ("b".to_string(), branch(1)),
        ("a".to_string(), branch(2)),
        ("b".to_string(), branch(3)),
        ("B".to_string(), branch(4)),
    ]);
    let listed: Vec<(&str, i64)> = rows.iter().map(|r| (r.0.as_str(), r.2)).collect();
    assert_eq!(listed, vec![("B", 4), ("a", 2), ("b", 1), ("b", 3)]);
    assert_eq!(rows[0].1, None);
    assert_eq!((rows[0].3, rows[0].4), (1, 2));
    assert_eq!((rows[0].5.as_str(), rows[0].6.as_str()), ("\"i\"", "{}"));
}
