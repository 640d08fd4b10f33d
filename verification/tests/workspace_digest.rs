use workspace_hash::FileData;
use workspace_hash::cache::DigestCache;
use workspace_hash::digest::hash;
use workspace_hash::workspace::{get_workspace_files, hash_workspace_files};

fn catalog() -> Vec<FileData> {
    vec![
        FileData { file: ".gitignore".to_string(), hash: "123".to_string() },
        FileData { file: ".nxignore".to_string(), hash: "456".to_string() },
        FileData { file: "package.json".to_string(), hash: "789".to_string() },
        FileData { file: "packages/project/project.json".to_string(), hash: "abc".to_string() },
    ]
}

#[test]
fn invalid_workspace_input_is_just_empty_hash() {
    let mut cache = DigestCache::new();
    let result =
        hash_workspace_files(&["packages/{package}".to_string()], &[], &mut cache).unwrap();
    assert_eq!(result, hash(b""));
}

#[test]
fn test_hash_workspace_files() {
    let gitignore_file = FileData { file: ".gitignore".to_string(), hash: "123".to_string() };
    let nxignore_file = FileData { file: ".nxignore".to_string(), hash: "456".to_string() };
    let package_json_file = FileData { file: "package.json".to_string(), hash: "789".to_string() };
    let project_file =
        FileData { file: "packages/project/project.json".to_string(), hash: "abc".to_string() };
    let mut cache = DigestCache::new();
    let result = hash_workspace_files(
        &["{workspaceRoot}/.gitignore".to_string()],
        &[
            gitignore_file.clone(),
            nxignore_file.clone(),
            package_json_file.clone(),
            project_file.clone(),
        ],
        &mut cache,
    )
    .unwrap();
    assert_eq!(result, hash(gitignore_file.hash.as_bytes()));
}

#[test]
fn sentinel_is_never_stored() {
    let mut cache = DigestCache::new();
    let result = hash_workspace_files(&["no-marker".to_string()], &catalog(), &mut cache).unwrap();
    assert_eq!(result, hash(b""));
    assert!(cache.is_empty());
}

#[test]
fn repeated_calls_with_fresh_caches_agree() {
    let patterns = ["{workspaceRoot}/*.json".to_string()];
    let mut cache_a = DigestCache::new();
    let mut cache_b = DigestCache::new();
    let first = hash_workspace_files(&patterns, &catalog(), &mut cache_a).unwrap();
    let second = hash_workspace_files(&patterns, &catalog(), &mut cache_b).unwrap();
    assert_eq!(first, second);
}

#[test]
fn warm_hit_equals_cold_value() {
    let patterns = ["{workspaceRoot}/*.json".to_string()];
    let mut cache = DigestCache::new();
    let cold = hash_workspace_files(&patterns, &catalog(), &mut cache).unwrap();
    let warm = hash_workspace_files(&patterns, &catalog(), &mut cache).unwrap();
    assert_eq!(cold, warm);
}

#[test]
fn cache_hit_is_returned_verbatim() {
    let mut cache = DigestCache::new();
    cache.insert("a,b".to_string(), "stored-before".to_string());
    let result = hash_workspace_files(
        &["{workspaceRoot}/a".to_string(), "{workspaceRoot}/b".to_string()],
        &catalog(),
        &mut cache,
    )
    .unwrap();
    assert_eq!(result, "stored-before");
}

#[test]
fn pattern_order_gives_distinct_keys() {
    let mut cache = DigestCache::new();
    cache.insert("a,b".to_string(), "stored-before".to_string());
    let result = hash_workspace_files(
        &["{workspaceRoot}/b".to_string(), "{workspaceRoot}/a".to_string()],
        &catalog(),
        &mut cache,
    )
    .unwrap();
    assert_ne!(result, "stored-before");
    assert_eq!(result, hash(b""));
}

#[test]
fn negative_pattern_excludes_matched_file() {
    let package_json_file = FileData { file: "package.json".to_string(), hash: "H1".to_string() };
    let project_file = FileData { file: "project.json".to_string(), hash: "H2".to_string() };
    let mut cache = DigestCache::new();
    let result = hash_workspace_files(
        &[
            "{workspaceRoot}/*.json".to_string(),
            "!{workspaceRoot}/project.json".to_string(),
        ],
        &[package_json_file, project_file],
        &mut cache,
    )
    .unwrap();
    assert_eq!(result, hash(b"H1"));
}

#[test]
fn matched_hashes_are_joined_with_commas() {
    let mut cache = DigestCache::new();
    let result = hash_workspace_files(
        &["{workspaceRoot}/.gitignore".to_string(), "{workspaceRoot}/.nxignore".to_string()],
        &catalog(),
        &mut cache,
    )
    .unwrap();
    assert_eq!(result, hash(b"123,456"));
}

#[test]
fn digest_matches_streaming_hasher() {
    let mut cache = DigestCache::new();
    let result = hash_workspace_files(
        &["{workspaceRoot}/.gitignore".to_string(), "{workspaceRoot}/package.json".to_string()],
        &catalog(),
        &mut cache,
    )
    .unwrap();
    let mut hasher = xxhash_rust::xxh3::Xxh3::new();
    hasher.update("123,789".as_bytes());
    assert_eq!(result, hasher.digest().to_string());
}

#[test]
fn hash_renders_the_xxh3_digest_in_decimal() {
    assert_eq!(hash(b"123"), xxhash_rust::xxh3::xxh3_64(b"123").to_string());
    assert_eq!(hash(b""), xxhash_rust::xxh3::xxh3_64(b"").to_string());
    assert_eq!(
        hash("packages".as_bytes()),
        xxhash_rust::xxh3::xxh3_64(b"packages").to_string()
    );
}

#[test]
fn invalid_glob_syntax_is_an_error() {
    let mut cache = DigestCache::new();
    let result = hash_workspace_files(
        &["{workspaceRoot}/[".to_string()],
        &catalog(),
        &mut cache,
    );
    let err = result.err().expect("unclosed character class must be rejected");
    assert_eq!(err.pattern, "[");
    assert!(cache.is_empty());
}

#[test]
fn get_workspace_files_returns_matches_in_catalog_order() {
    let files = get_workspace_files(&["{workspaceRoot}/*.json".to_string()], &catalog()).unwrap();
    let names: Vec<String> = files.iter().map(|f| f.file.clone()).collect();
    assert_eq!(
        names,
        vec!["package.json".to_string(), "packages/project/project.json".to_string()]
    );
}

#[test]
fn get_workspace_files_reports_bad_patterns() {
    let result = get_workspace_files(&["!{workspaceRoot}/[".to_string()], &catalog());
    let err = result.err().expect("unclosed character class must be rejected");
    assert_eq!(err.pattern, "[");
}

#[test]
fn uncompilable_pattern_is_an_error_not_a_panic() {
    let deep = format!(
        "{{workspaceRoot}}/{}x{}",
        "{".repeat(300),
        "}".repeat(300)
    );
    let mut cache = DigestCache::new();
    let result = hash_workspace_files(&[deep], &catalog(), &mut cache);
    assert!(result.is_err());
    assert!(cache.is_empty());
}
