use pglance::build_info::{
    contains_text, find_package, parse_value, read_lock_packages, source_revision,
};
use pglance::settings::{
    batch_rows, lance_fdw_validator, max_write_buffer_bytes, optional_build_value,
    write_chunk_rows, DEFAULT_MAX_WRITE_BUFFER_MB, DEFAULT_MERGE_USE_INDEX,
    DEFAULT_WRITE_CHUNK_ROWS,
};

fn texts(parts: &[&str]) -> Vec<String> {
    parts.iter().map(|part| part.to_string()).collect()
}

#[test]
fn defaults_are_the_documented_ones() {
    assert_eq!(DEFAULT_MAX_WRITE_BUFFER_MB, 2048);
    assert_eq!(DEFAULT_WRITE_CHUNK_ROWS, 100_000);
    assert!(DEFAULT_MERGE_USE_INDEX);
}

#[test]
fn buffer_limit_is_in_bytes() {
    assert_eq!(max_write_buffer_bytes(2048), 2048 * 1024 * 1024);
    assert_eq!(max_write_buffer_bytes(1), 1_048_576);
    assert_eq!(max_write_buffer_bytes(0), 0);
    assert_eq!(max_write_buffer_bytes(-5), 0);
    assert_eq!(max_write_buffer_bytes(i32::MAX), 2_251_799_812_636_672);
}

#[test]
fn chunk_rows_are_not_negative() {
    assert_eq!(write_chunk_rows(100_000), 100_000);
    assert_eq!(write_chunk_rows(0), 0);
    assert_eq!(write_chunk_rows(-1), 0);
}

#[test]
fn batch_size_is_taken_by_its_bits() {
    assert_eq!(batch_rows(1024), 1024);
    assert_eq!(batch_rows(0), 0);
    assert_eq!(batch_rows(-1), -1i32 as usize);
    assert_eq!(batch_rows(i32::MIN), i32::MIN as usize);
}

#[test]
fn empty_build_values_are_none() {
    assert_eq!(optional_build_value(""), None);
    assert_eq!(optional_build_value("abc"), Some("abc".to_string()));
}

#[test]
fn known_options_are_accepted() {
    let options = texts(&[
        "uri=/data/a=b",
        "batch_size=10",
        "aws_region=eu",
        "s3_endpoint=",
        "ns.table_id=[\"a\"]",
    ]);
    assert_eq!(lance_fdw_validator(&options), Ok(()));
    assert_eq!(lance_fdw_validator(&[]), Ok(()));
}

#[test]
fn unknown_options_are_refused() {
    assert_eq!(
        lance_fdw_validator(&texts(&["uri=a", "color=red", "shape"])),
        Err("unsupported option: color".to_string())
    );
    assert_eq!(
        lance_fdw_validator(&texts(&["=x"])),
        Err("unsupported option: ".to_string())
    );
    assert_eq!(
        lance_fdw_validator(&texts(&["aws=x"])),
        Err("unsupported option: aws".to_string())
    );
}

#[test]
fn options_without_equals_are_refused() {
    assert_eq!(
        lance_fdw_validator(&texts(&["uri"])),
        Err("invalid option format: uri".to_string())
    );
}

const LOCK: &str = "version = 3\n\n[[package]]\nname = \"lance\"\nversion = \"0.1.0\"\n\
source = \"registry+https://example.org\"\n\n[[package]]\r\n  name = \"lance\"  \r\n\
version = \"2.0.0\"\nsource = \"git+https://github.com/lance-format/lance?rev=a#b#cafe\"\n\
dependencies = [\n \"x\",\n]\n[[package]]\nname = \"half\nversion = \"1\"";

#[test]
fn lock_file_is_read() {
    let packages = read_lock_packages(LOCK);
    assert_eq!(packages.len(), 3);
    assert_eq!(packages[0].name, "lance");
    assert_eq!(packages[0].version, "0.1.0");
    assert_eq!(packages[1].name, "lance");
    assert_eq!(packages[1].version, "2.0.0");
    assert_eq!(packages[2].name, "");
    assert_eq!(packages[2].version, "1");
    assert_eq!(packages[2].source, "");
    assert!(read_lock_packages("").is_empty());
    assert!(read_lock_packages("name = \"lance\"").is_empty());
}

#[test]
fn package_from_the_own_place_comes_first() {
    let packages = read_lock_packages(LOCK);
    assert_eq!(find_package(&packages, "lance").map(|p| p.version.as_str()), Some("2.0.0"));
    assert!(find_package(&packages, "lance-index").is_none());
    let other = read_lock_packages("[[package]]\nname = \"a\"\nversion = \"1\"");
    assert_eq!(find_package(&other, "a").map(|p| p.version.as_str()), Some("1"));
}

#[test]
fn values_are_in_double_quotes() {
    assert_eq!(parse_value("name = \"a\"", "name"), Some("a".to_string()));
    assert_eq!(parse_value("name = \"\"", "name"), Some(String::new()));
    assert_eq!(parse_value("name = \"", "name"), None);
    assert_eq!(parse_value("name = \"a", "name"), None);
    assert_eq!(parse_value("names = \"a\"", "name"), None);
}

#[test]
fn revision_stands_behind_the_last_hash() {
    assert_eq!(source_revision("git+https://x?rev=a#b#cafe"), "cafe");
    assert_eq!(source_revision("a#"), "");
    assert_eq!(source_revision("registry"), "");
}

#[test]
fn texts_within_texts_are_found() {
    assert!(contains_text("abcabd", "abd"));
    assert!(contains_text("ab", ""));
    assert!(!contains_text("ab", "abc"));
    assert!(!contains_text("abcab", "abd"));
}
