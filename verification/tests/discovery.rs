use gitlab_s3_releaser::artifact::Artifact;
use gitlab_s3_releaser::error::ReleaserError;
use gitlab_s3_releaser::s3indexer::{Extraction, Listing, S3Indexer, LISTING_PAGE_SIZE};

const TEMPLATE: &str = r"builds/app-(?P<version>[0-9.]+)\.zip";

fn indexer(template: &str) -> S3Indexer {
    S3Indexer::new("bucket".to_string(), template.to_string()).unwrap()
}

fn keys(keys: &[&str]) -> Vec<String> {
    keys.iter().map(|key| key.to_string()).collect()
}

fn artifact(path: &str, version: &str) -> Artifact {
    Artifact { s3_path: path.to_string(), version: version.to_string() }
}

#[test]
fn new_keeps_the_bucket() {
    let indexer = S3Indexer::new("my-bucket".to_string(), TEMPLATE.to_string()).unwrap();
    assert_eq!(indexer.bucket(), "my-bucket");
}

#[test]
fn new_rejects_a_template_that_does_not_compile() {
    let unclosed = S3Indexer::new("bucket".to_string(), "builds/(app".to_string());
    assert!(matches!(unclosed, Err(ReleaserError::InvalidPattern(_))));
    let bad_repeat = S3Indexer::new("bucket".to_string(), "*".to_string());
    assert!(matches!(bad_repeat, Err(ReleaserError::InvalidPattern(_))));
}

#[test]
fn invalid_template_carries_the_diagnostic() {
    match S3Indexer::new("bucket".to_string(), "a(b".to_string()) {
        Err(ReleaserError::InvalidPattern(text)) => {
            assert!(!text.is_empty());
            assert!(text.contains("a(b"));
        }
        _ => panic!("the template must not compile"),
    }
}

#[test]
fn new_rejects_a_template_that_grows_too_big() {
    let huge = S3Indexer::new("bucket".to_string(), r"\w{1000}".to_string());
    assert!(matches!(huge, Err(ReleaserError::InvalidPattern(_))));
}

#[test]
fn from_compiled_takes_over_the_expression() {
    let compiled = regex::Regex::new(r"v(?P<version>\d+)");
    let indexer = S3Indexer::from_compiled("b".to_string(), compiled).unwrap();
    assert_eq!(indexer.bucket(), "b");
    assert_eq!(indexer.matcher("v42"), Some("42".to_string()));
    assert_eq!(indexer.matcher("w42"), None);
}

#[test]
fn from_compiled_turns_a_failure_into_an_invalid_pattern() {
    let compiled = regex::Regex::new(r"v(?P<version>\d+");
    let failed = S3Indexer::from_compiled("b".to_string(), compiled);
    assert!(matches!(failed, Err(ReleaserError::InvalidPattern(_))));
}

#[test]
fn matcher_returns_the_captured_version() {
    let indexer = indexer(TEMPLATE);
    assert_eq!(indexer.matcher("builds/app-1.2.3.zip"), Some("1.2.3".to_string()));
    assert_eq!(indexer.matcher("builds/app-10.zip"), Some("10".to_string()));
}

#[test]
fn matcher_returns_the_version_unmodified() {
    let indexer = indexer(r"rel/(?P<version>.*)/file");
    assert_eq!(indexer.matcher("rel/ V1.0-RC_1 /file"), Some(" V1.0-RC_1 ".to_string()));
    assert_eq!(indexer.matcher("rel//file"), Some("".to_string()));
    assert_eq!(indexer.matcher("rel/ü✓/file"), Some("ü✓".to_string()));
}

#[test]
fn matcher_finds_the_template_anywhere_in_the_key() {
    let indexer = indexer(TEMPLATE);
    assert_eq!(indexer.matcher("old/builds/app-2.0.zip.sig"), Some("2.0".to_string()));
}

#[test]
fn matcher_respects_anchors() {
    let indexer = indexer(r"^builds/app-(?P<version>[0-9.]+)\.zip$");
    assert_eq!(indexer.matcher("builds/app-2.0.zip"), Some("2.0".to_string()));
    assert_eq!(indexer.matcher("old/builds/app-2.0.zip"), None);
    assert_eq!(indexer.matcher("builds/app-2.0.zip.sig"), None);
}

#[test]
fn matcher_returns_none_for_a_key_that_does_not_match() {
    let indexer = indexer(TEMPLATE);
    assert_eq!(indexer.matcher("builds/readme.txt"), None);
    assert_eq!(indexer.matcher(""), None);
    assert_eq!(indexer.matcher("builds/app-.zip"), None);
}

#[test]
fn matcher_returns_none_without_a_version_group() {
    let indexer = indexer(r"builds/app-([0-9.]+)\.zip");
    assert_eq!(indexer.matcher("builds/app-1.2.3.zip"), None);
}

#[test]
fn extract_tells_the_three_outcomes_apart() {
    let indexer = indexer(TEMPLATE);
    assert_eq!(
        indexer.extract("builds/app-1.2.3.zip"),
        Extraction::Versioned("1.2.3".to_string())
    );
    assert_eq!(indexer.extract("builds/readme.txt"), Extraction::Unmatched);
    let unnamed = S3Indexer::new("b".to_string(), r"builds/app-(?P<ver>[0-9.]+)\.zip".to_string())
        .unwrap();
    assert_eq!(unnamed.extract("builds/app-1.2.3.zip"), Extraction::Unversioned);
    assert_eq!(unnamed.extract("builds/readme.txt"), Extraction::Unmatched);
}

#[test]
fn extract_is_unversioned_where_the_group_took_no_part() {
    let indexer = indexer(r"app(?:-(?P<version>\d+)|-latest)");
    assert_eq!(indexer.extract("app-7"), Extraction::Versioned("7".to_string()));
    assert_eq!(indexer.extract("app-latest"), Extraction::Unversioned);
    assert_eq!(indexer.extract("app"), Extraction::Unmatched);
}

#[test]
fn extract_reads_only_the_group_named_version() {
    let indexer = indexer(r"(?P<name>[a-z]+)-(?P<version>\d+)-(?P<build>\d+)");
    assert_eq!(indexer.extract("tool-12-900"), Extraction::Versioned("12".to_string()));
}

#[test]
fn list_keeps_matching_keys_in_their_order() {
    let indexer = indexer(TEMPLATE);
    let listing = indexer.list(&keys(&[
        "builds/app-2.0.zip",
        "builds/readme.txt",
        "builds/app-1.0.zip",
        "other/app-3.0.zip",
        "builds/app-1.5.zip",
    ]));
    assert_eq!(
        listing.artifacts,
        vec![
            artifact("builds/app-2.0.zip", "2.0"),
            artifact("builds/app-1.0.zip", "1.0"),
            artifact("builds/app-1.5.zip", "1.5"),
        ]
    );
    assert!(listing.unversioned.is_empty());
}

#[test]
fn list_of_no_keys_is_empty() {
    let listing = indexer(TEMPLATE).list(&Vec::new());
    assert_eq!(listing, Listing { artifacts: Vec::new(), unversioned: Vec::new() });
}

#[test]
fn list_drops_unmatched_keys_without_warning() {
    let indexer = indexer(TEMPLATE);
    let listing = indexer.list(&keys(&["builds/readme.txt", "notes.md", ""]));
    assert!(listing.artifacts.is_empty());
    assert!(listing.unversioned.is_empty());
}

#[test]
fn list_warns_once_for_each_match_without_version() {
    let indexer = indexer(r"builds/app-([0-9.]+)\.zip");
    let listing = indexer.list(&keys(&[
        "builds/app-1.0.zip",
        "builds/readme.txt",
        "builds/app-2.0.zip",
        "builds/app-1.0.zip",
    ]));
    assert!(listing.artifacts.is_empty());
    assert_eq!(
        listing.unversioned,
        keys(&["builds/app-1.0.zip", "builds/app-2.0.zip", "builds/app-1.0.zip"])
    );
}

#[test]
fn list_does_not_merge_equal_versions() {
    let indexer = indexer(r"(?P<version>\d+\.\d+)\.zip$");
    let listing = indexer.list(&keys(&["linux/1.0.zip", "mac/1.0.zip", "linux/1.0.zip"]));
    assert_eq!(
        listing.artifacts,
        vec![
            artifact("linux/1.0.zip", "1.0"),
            artifact("mac/1.0.zip", "1.0"),
            artifact("linux/1.0.zip", "1.0"),
        ]
    );
}

#[test]
fn list_sorts_keys_into_artifacts_warnings_and_dropped() {
    let indexer = indexer(r"app(?:-(?P<version>\d+)|-latest)");
    let listing = indexer.list(&keys(&["app-latest", "app-1", "readme", "app-2", "app-latest"]));
    assert_eq!(listing.artifacts, vec![artifact("app-1", "1"), artifact("app-2", "2")]);
    assert_eq!(listing.unversioned, keys(&["app-latest", "app-latest"]));
}

#[test]
fn append_page_adds_the_keys_in_order() {
    let mut paths = keys(&["a"]);
    let page = vec![Some("b".to_string()), Some("c".to_string())];
    let keyless = S3Indexer::append_page(&mut paths, &page);
    assert_eq!(keyless, 0);
    assert_eq!(paths, keys(&["a", "b", "c"]));
}

#[test]
fn append_page_counts_entries_without_key() {
    let mut paths = Vec::new();
    let page = vec![None, Some("x".to_string()), None, None, Some("y".to_string())];
    let keyless = S3Indexer::append_page(&mut paths, &page);
    assert_eq!(keyless, 3);
    assert_eq!(paths, keys(&["x", "y"]));
}

#[test]
fn append_page_of_an_empty_page_changes_nothing() {
    let mut paths = keys(&["a", "b"]);
    let keyless = S3Indexer::append_page(&mut paths, &Vec::new());
    assert_eq!(keyless, 0);
    assert_eq!(paths, keys(&["a", "b"]));
}

#[test]
fn append_page_collects_page_after_page() {
    let mut paths = Vec::new();
    let mut keyless = 0;
    let pages = vec![
        vec![Some("1".to_string()), None],
        vec![],
        vec![Some("2".to_string()), Some("1".to_string())],
    ];
    for page in &pages {
        keyless += S3Indexer::append_page(&mut paths, page);
    }
    assert_eq!(keyless, 1);
    assert_eq!(paths, keys(&["1", "2", "1"]));
}

#[test]
fn listing_page_size_is_ten() {
    assert_eq!(LISTING_PAGE_SIZE, 10);
}

#[test]
fn new_succeeds_exactly_where_the_template_compiles() {
    let templates = [
        "",
        "plain",
        r"builds/app-(?P<version>[0-9.]+)\.zip",
        r"(?<version>\d+)",
        "(",
        ")",
        "[a-",
        "a{2,1}",
        r"\w{1000}",
        r"(?-u:\w){1000}",
        r"(?P<version>a)(?P<version>b)",
        r"\p{Greek}+",
        r"\p{NoSuchClass}",
    ];
    for template in templates {
        let indexer = S3Indexer::new("bucket".to_string(), template.to_string());
        assert_eq!(indexer.is_ok(), regex::Regex::new(template).is_ok(), "template {template:?}");
    }
    assert!(S3Indexer::new("bucket".to_string(), "plain".to_string()).is_ok());
    assert!(S3Indexer::new("bucket".to_string(), "(".to_string()).is_err());
}
