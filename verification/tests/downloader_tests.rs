use depot_downloader::downloader::depot::{after_chunk_failure, DepotDownload, MAX_RETRIES};
use depot_downloader::downloader::manager::{
    fetching_manifest_report, DownloadError, DownloadManager,
};
use depot_downloader::downloader::progress::DownloadProgress;
use depot_downloader::manifest::decryption::DecryptionError;
use depot_downloader::manifest::parser::{FileEntry, Manifest, ManifestFormatError};
use std::collections::HashMap;

#[test]
fn progress_reports() {
    let m = DownloadProgress::message("Fetching manifest".to_string());
    assert_eq!(m.message, "Fetching manifest");
    assert!(m.current_file.is_none() && !m.complete);
    assert_eq!(m.bytes_total, 0);

    let f = DownloadProgress::file_progress("data/a.pak", 3, 10, 300, 1000);
    assert_eq!(f.message, "Downloading data/a.pak...");
    assert_eq!(f.current_file.as_deref(), Some("data/a.pak"));
    assert_eq!((f.files_downloaded, f.files_total), (3, 10));
    assert_eq!((f.bytes_downloaded, f.bytes_total), (300, 1000));
    assert!(!f.complete);

    let c = DownloadProgress::complete();
    assert_eq!(c.message, "Download complete!");
    assert!(c.complete);
}

#[test]
fn progress_display_text() {
    assert_eq!(
        DownloadProgress::file_progress("a", 3, 10, 0, 0).to_display_string(),
        "Downloading a... (File 3 of 10)"
    );
    assert_eq!(DownloadProgress::message("hello".to_string()).to_display_string(), "hello");
    assert_eq!(DownloadProgress::complete().to_display_string(), "Download complete!");
    let mut done_with_file = DownloadProgress::file_progress("a", 1, 1, 0, 0);
    done_with_file.complete = true;
    assert_eq!(done_with_file.to_display_string(), "Downloading a...");
}

#[test]
fn manager_starts_with_no_keys() {
    let m = DownloadManager::new();
    assert!(m.depot_keys.is_empty());
    assert_eq!(m.check_depot_keys(), Err(DownloadError::NoDepotKeys));
    assert!(m.decryptor.get_depot_key(1).is_none());
}

#[test]
fn set_depot_keys_decodes_the_hex_keys() {
    let mut m = DownloadManager::new();
    let mut keys = HashMap::new();
    keys.insert(731u32, "000102030405060708090A0B0C0D0E0F".to_string());
    keys.insert(732u32, "not hex".to_string());
    keys.insert(733u32, "abc".to_string());
    m.set_depot_keys(keys.clone());
    assert_eq!(m.depot_keys, keys);
    assert_eq!(m.check_depot_keys(), Ok(()));
    assert_eq!(m.decryptor.get_depot_key(731), Some(&(0u8..16).collect::<Vec<u8>>()));
    assert!(m.decryptor.get_depot_key(732).is_none());
    assert!(m.decryptor.get_depot_key(733).is_none());
}

#[test]
fn set_depot_keys_keeps_earlier_decryptor_keys() {
    let mut m = DownloadManager::new();
    m.decryptor.add_depot_key(5, vec![1]);
    let mut keys = HashMap::new();
    keys.insert(5u32, "zz".to_string());
    keys.insert(6u32, "ff".to_string());
    m.set_depot_keys(keys);
    assert_eq!(m.decryptor.get_depot_key(5), Some(&vec![1]));
    assert_eq!(m.decryptor.get_depot_key(6), Some(&vec![0xff]));
}

#[test]
fn manifest_id_is_the_one_given() {
    let m = DownloadManager::new();
    assert_eq!(m.resolve_manifest_id(731, Some(42)), Ok(42));
    assert_eq!(m.resolve_manifest_id(731, None), Err(DownloadError::ManifestIdUnknown(731)));
    assert_eq!(m.fetch_latest_manifest_id(9), Err(DownloadError::ManifestIdUnknown(9)));
}

#[test]
fn prepare_needs_keys_and_a_manifest_id() {
    let mut m = DownloadManager::new();
    let (notice, r) = m.prepare(731, Some(5));
    assert!(notice.is_none());
    assert_eq!(r, Err(DownloadError::NoDepotKeys));

    let mut keys = HashMap::new();
    keys.insert(731u32, "00".repeat(16));
    m.set_depot_keys(keys);
    let (notice, r) = m.prepare(731, Some(5));
    assert!(notice.is_none());
    assert_eq!(r, Ok(5));
    let (notice, r) = m.prepare(731, None);
    assert_eq!(notice.unwrap().message, "Fetching latest manifest ID from Steam...");
    assert_eq!(r, Err(DownloadError::ManifestIdUnknown(731)));
}

#[test]
fn fetching_report_names_the_manifest() {
    let p = fetching_manifest_report(731, 99);
    assert_eq!(p.message, "Fetching manifest 99 for depot 731...");
    assert!(!p.complete && p.current_file.is_none());
}

#[test]
fn open_manifest_decrypts_then_parses() {
    let mut m = DownloadManager::new();
    assert_eq!(
        m.open_manifest(3, &[1, 2, 3]).unwrap_err(),
        DownloadError::Decryption(DecryptionError::MissingDepotKey(3))
    );
    m.decryptor.add_depot_key(3, vec![7; 16]);
    assert_eq!(
        m.open_manifest(3, &[1, 2, 3]).unwrap_err(),
        DownloadError::Format(ManifestFormatError::ParsingUnsupported)
    );
}

#[test]
fn chunks_are_decrypted_with_a_zero_counter_block() {
    let mut m = DownloadManager::new();
    let data = vec![5u8; 33];
    assert_eq!(
        m.decrypt_chunk_data(4, &data),
        Err(DownloadError::Decryption(DecryptionError::MissingDepotKey(4)))
    );
    m.decryptor.add_depot_key(4, (0u8..16).collect());
    let plain = m.decrypt_chunk_data(4, &data).unwrap();
    assert_eq!(plain, m.decryptor.decrypt_chunk(4, &data, &[0u8; 16]).unwrap());
    assert_ne!(plain, data);
}

#[test]
fn depot_download_walks_the_files_in_order() {
    let mut manifest = Manifest::new(1, 2);
    manifest.files = vec![
        FileEntry::new("a.bin".to_string(), 10),
        FileEntry::new("dir/b.bin".to_string(), 30),
    ];
    let mut d = DepotDownload::new(manifest);
    assert!(!d.is_finished());

    let (f, p) = d.next_file().unwrap();
    assert_eq!(f.filename, "a.bin");
    assert_eq!(p.message, "Downloading a.bin...");
    assert_eq!((p.files_downloaded, p.files_total), (1, 2));
    assert_eq!((p.bytes_downloaded, p.bytes_total), (0, 40));
    d.chunk_written(5);
    d.chunk_written(7);
    assert_eq!(d.file_bytes_written(), 12);
    assert_eq!(d.file_downloaded(), 12);
    assert_eq!(d.file_bytes_written(), 0);
    assert_eq!(d.bytes_downloaded(), 12);

    let (f, p) = d.next_file().unwrap();
    assert_eq!(f.filename, "dir/b.bin");
    assert_eq!((p.files_downloaded, p.bytes_downloaded), (2, 12));
    d.chunk_written(30);
    assert_eq!(d.file_downloaded(), 30);
    assert_eq!(d.bytes_downloaded(), 42);

    assert!(d.is_finished());
    assert!(d.next_file().is_none());
}

#[test]
fn empty_manifest_is_finished_at_once() {
    let d = DepotDownload::new(Manifest::new(1, 2));
    assert!(d.is_finished());
    assert!(d.next_file().is_none());
}

#[test]
fn chunk_retries_wait_longer_each_time_and_stop_after_three() {
    assert_eq!(MAX_RETRIES, 3);
    assert_eq!(after_chunk_failure(0), (500, true));
    assert_eq!(after_chunk_failure(1), (1000, true));
    assert_eq!(after_chunk_failure(2), (1500, false));
}
