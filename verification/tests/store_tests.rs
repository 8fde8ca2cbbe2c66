use depot_downloader::manifest::parser::Manifest;
use depot_downloader::manifest::store::{
    depot_keys_file_text, key_file_name, manifest_file_name, parse_depot_keys_file,
    parse_manifest_file_name, ManifestStore,
};
use std::collections::HashMap;

#[test]
fn manifest_file_name_joins_ids() {
    assert_eq!(manifest_file_name(731, 7617088375292372759), "731_7617088375292372759.manifest");
    assert_eq!(manifest_file_name(0, 0), "0_0.manifest");
}

#[test]
fn key_file_name_is_app_dot_key() {
    assert_eq!(key_file_name(730), "730.key");
}

#[test]
fn manifest_file_name_reads_back() {
    for (d, m) in [(0u32, 0u64), (1, 2), (u32::MAX, u64::MAX), (228988, 6790200458474442048)] {
        assert_eq!(parse_manifest_file_name(&manifest_file_name(d, m)), Some((d, m)));
    }
}

#[test]
fn parse_manifest_file_name_refuses_other_names() {
    assert_eq!(parse_manifest_file_name("731.key"), None);
    assert_eq!(parse_manifest_file_name("731.manifest"), None);
    assert_eq!(parse_manifest_file_name("1_2_3.manifest"), None);
    assert_eq!(parse_manifest_file_name("a_2.manifest"), None);
    assert_eq!(parse_manifest_file_name("4294967296_2.manifest"), None);
    assert_eq!(parse_manifest_file_name("1_.manifest"), None);
}

#[test]
fn parse_manifest_file_name_as_str_parse_does() {
    // A plus sign is read, as `str::parse` reads it, and the suffix is
    // taken off as often as it repeats.
    assert_eq!(parse_manifest_file_name("+1_+2.manifest"), Some((1, 2)));
    assert_eq!(parse_manifest_file_name("1_2.manifest.manifest"), Some((1, 2)));
}

#[test]
fn depot_keys_file_text_writes_one_line_each() {
    let entries = vec![(1u32, "aa".to_string()), (22u32, "bb".to_string())];
    assert_eq!(depot_keys_file_text(&entries), "1;aa\n22;bb");
    assert_eq!(depot_keys_file_text(&[]), "");
}

#[test]
fn key_file_roundtrip() {
    let entries = vec![
        (731u32, "0123456789abcdef0123456789abcdef".to_string()),
        (732u32, "fedcba9876543210fedcba9876543210".to_string()),
        (731u32, "later;key".to_string()),
    ];
    let text = depot_keys_file_text(&entries);
    let keys = parse_depot_keys_file(&text);
    let mut expected = HashMap::new();
    expected.insert(731u32, "later;key".to_string());
    expected.insert(732u32, "fedcba9876543210fedcba9876543210".to_string());
    assert_eq!(keys, expected);
}

#[test]
fn parse_depot_keys_file_passes_over_bad_lines() {
    let keys = parse_depot_keys_file("x;1\n\nno separator\n5; spaced \r\n6;");
    let mut expected = HashMap::new();
    expected.insert(5u32, " spaced ".to_string());
    expected.insert(6u32, "".to_string());
    assert_eq!(keys, expected);
}

#[test]
fn store_paths_are_under_the_base() {
    let store = ManifestStore::new("/data/manifests".to_string());
    assert_eq!(store.get_manifest_path(731, 42), "/data/manifests/731_42.manifest");
    assert_eq!(store.get_depot_key_path(730), "/data/manifests/730.key");
}

#[test]
fn store_default_path_ends_in_the_manifest_directory() {
    let p = ManifestStore::default_path();
    assert!(p.ends_with("depot_downloader/manifests"));
    let store = ManifestStore::default();
    assert!(store.get_depot_key_path(1).ends_with("depot_downloader/manifests/1.key"));
}

#[test]
fn default_path_in_uses_the_directory_given_or_the_current_one() {
    assert_eq!(
        ManifestStore::default_path_in(Some("/home/u/.config".to_string())),
        "/home/u/.config/depot_downloader/manifests"
    );
    assert_eq!(ManifestStore::default_path_in(None), "./depot_downloader/manifests");
}

#[test]
fn cache_keeps_the_latest_manifest_per_ids_until_cleared() {
    let mut store = ManifestStore::new(".".to_string());
    assert!(store.cached_manifest(1, 2).is_none());
    store.cache_manifest(1, 2, Manifest::new(1, 2));
    store.cache_manifest(1, 3, Manifest::new(1, 3));
    let mut replaced = Manifest::new(1, 2);
    replaced.total_size = 99;
    store.cache_manifest(1, 2, replaced);
    assert_eq!(store.cached_manifest(1, 2).unwrap().total_size, 99);
    assert_eq!(store.cached_manifest(1, 3).unwrap().manifest_id, 3);
    store.clear_cache();
    assert!(store.cached_manifest(1, 2).is_none());
    assert!(store.cached_manifest(1, 3).is_none());
}
