use depot_downloader::manifest::fetcher::{parse_vdf_depot_keys, FetchError, ManifestHubFetcher};
use std::collections::HashMap;

const KEY_FILE: &str = r#""depots"
{
    "731"
    {
        "DecryptionKey"    "0123456789ABCDEF0123456789abcdef"
    }
    "732" { "DecryptionKey" "fedcba9876543210fedcba9876543210" }
}
"#;

#[test]
fn vdf_entries_are_read() {
    let keys = parse_vdf_depot_keys(KEY_FILE);
    let mut expected = HashMap::new();
    expected.insert(731u32, "0123456789ABCDEF0123456789abcdef".to_string());
    expected.insert(732u32, "fedcba9876543210fedcba9876543210".to_string());
    assert_eq!(keys, expected);
}

#[test]
fn vdf_later_entry_for_a_depot_wins() {
    let text = r#""5"{"DecryptionKey""aa"} "5" { "DecryptionKey" "bb" }"#;
    let keys = parse_vdf_depot_keys(text);
    assert_eq!(keys.len(), 1);
    assert_eq!(keys.get(&5), Some(&"bb".to_string()));
}

#[test]
fn vdf_entries_that_do_not_match_are_passed_over() {
    let text = r#"
        "1" { "DecryptionKey" "" }
        "2" { "DecryptionKey" "xyz" }
        "3" { "Other" "aa" }
        "4294967296" { "DecryptionKey" "aa" }
        "" { "DecryptionKey" "aa" }
        "6" { "DecryptionKey" "aa" "extra" }
        "7" { "DecryptionKey" "0f" }
    "#;
    let keys = parse_vdf_depot_keys(text);
    let mut expected = HashMap::new();
    expected.insert(7u32, "0f".to_string());
    assert_eq!(keys, expected);
}

#[test]
fn vdf_empty_text_has_no_keys() {
    assert!(parse_vdf_depot_keys("").is_empty());
}

#[test]
fn urls_are_built_from_the_base() {
    let f = ManifestHubFetcher::new("https://example.org/hub".to_string());
    assert_eq!(f.key_url(730), "https://example.org/hub/730/key.vdf");
    assert_eq!(f.manifest_url(731, 99), "https://example.org/hub/731_99.manifest");
}

#[test]
fn default_fetcher_reads_the_main_branch() {
    let f = ManifestHubFetcher::default();
    assert_eq!(
        f.key_url(1),
        "https://raw.githubusercontent.com/SteamAutoCracks/ManifestHub/refs/heads/main/1/key.vdf"
    );
}

#[test]
fn depot_keys_from_response_by_status() {
    let none = ManifestHubFetcher::depot_keys_from_response(404, KEY_FILE).unwrap();
    assert!(none.is_empty());
    assert_eq!(
        ManifestHubFetcher::depot_keys_from_response(500, KEY_FILE),
        Err(FetchError::HttpStatus(500))
    );
    assert_eq!(
        ManifestHubFetcher::depot_keys_from_response(301, KEY_FILE),
        Err(FetchError::HttpStatus(301))
    );
    let keys = ManifestHubFetcher::depot_keys_from_response(200, KEY_FILE).unwrap();
    assert_eq!(keys.len(), 2);
}

#[test]
fn manifest_from_response_by_status() {
    assert_eq!(
        ManifestHubFetcher::manifest_from_response(200, vec![1, 2, 3]),
        Ok(vec![1, 2, 3])
    );
    assert_eq!(
        ManifestHubFetcher::manifest_from_response(404, vec![1]),
        Err(FetchError::HttpStatus(404))
    );
    assert!(ManifestHubFetcher::manifest_exists_from_status(204));
    assert!(!ManifestHubFetcher::manifest_exists_from_status(404));
    assert!(!ManifestHubFetcher::manifest_exists_from_status(199));
}
