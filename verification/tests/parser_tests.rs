use depot_downloader::manifest::parser::{ChunkEntry, FileEntry, Manifest, ManifestDiff};

fn file(name: &str, size: u64, hash: &[u8]) -> FileEntry {
    FileEntry::new(name.to_string(), size).with_hash(hash.to_vec())
}

fn manifest(files: Vec<FileEntry>) -> Manifest {
    let mut m = Manifest::new(1, 2);
    m.files = files;
    m
}

fn names(fs: &[FileEntry]) -> Vec<String> {
    fs.iter().map(|f| f.filename.clone()).collect()
}

#[test]
fn new_manifest_is_empty() {
    let m = Manifest::new(731, 42);
    assert_eq!(m.depot_id, 731);
    assert_eq!(m.manifest_id, 42);
    assert!(m.files.is_empty());
    assert_eq!(m.total_size, 0);
    assert_eq!(m.file_count, 0);
    assert_eq!(m.calculate_total_download_size(), 0);
}

#[test]
fn manifest_bytes_are_not_read_or_written_yet() {
    assert!(Manifest::from_bytes(&[1, 2, 3]).is_err());
    assert!(Manifest::new(1, 2).to_bytes().is_err());
}

#[test]
fn file_entry_builders_set_their_field() {
    let chunk = ChunkEntry::new("abcd".to_string(), 7, 0, 100, 200);
    let f = FileEntry::new("bin/game.exe".to_string(), 300)
        .with_hash(vec![9, 9])
        .with_chunks(vec![chunk.clone(), ChunkEntry::new("ef".to_string(), 8, 100, 50, 60)])
        .executable(true);
    assert_eq!(f.filename, "bin/game.exe");
    assert_eq!(f.size, 300);
    assert_eq!(f.flags, 0);
    assert_eq!(f.hash, vec![9, 9]);
    assert_eq!(f.chunks.len(), 2);
    assert!(f.executable);
    assert_eq!(f.get_total_chunk_size(), 150);
    assert_eq!(chunk.chunk_id, "abcd");
    assert_eq!(chunk.checksum, 7);
    assert_eq!(chunk.uncompressed_length, 200);
}

#[test]
fn new_file_entry_has_defaults() {
    let f = FileEntry::new("a".to_string(), 1);
    assert!(f.hash.is_empty());
    assert!(f.chunks.is_empty());
    assert!(!f.executable);
    assert_eq!(f.get_total_chunk_size(), 0);
}

#[test]
fn total_download_size_sums_file_sizes() {
    let m = manifest(vec![file("a", 10, &[]), file("b", 32, &[]), file("c", 0, &[])]);
    assert_eq!(m.calculate_total_download_size(), 42);
}

#[test]
fn get_file_finds_the_first_with_the_name() {
    let m = manifest(vec![file("a", 1, &[]), file("b", 2, &[]), file("b", 3, &[])]);
    assert_eq!(m.get_file("b").unwrap().size, 2);
    assert!(m.get_file("c").is_none());
}

#[test]
fn files_to_download_are_all_files_in_order() {
    let m = manifest(vec![file("a", 1, &[]), file("b", 2, &[])]);
    let fs = m.get_files_to_download("/tmp/install");
    assert_eq!(fs.len(), 2);
    assert_eq!(fs[0].filename, "a");
    assert_eq!(fs[1].filename, "b");
}

#[test]
fn diff_new_is_empty() {
    let d = ManifestDiff::new();
    assert!(d.added.is_empty() && d.modified.is_empty());
    assert!(d.removed.is_empty() && d.unchanged.is_empty());
}

#[test]
fn diff_sorts_files_into_added_modified_unchanged_removed() {
    let old = manifest(vec![file("keep", 1, &[1]), file("change", 1, &[1]), file("gone", 1, &[1])]);
    let new = manifest(vec![file("change", 1, &[2]), file("new", 1, &[3]), file("keep", 1, &[1])]);
    let d = ManifestDiff::compare(&old, &new);
    assert_eq!(names(&d.added), vec!["new"]);
    assert_eq!(names(&d.modified), vec!["change"]);
    assert_eq!(names(&d.unchanged), vec!["keep"]);
    assert_eq!(d.removed, vec!["gone".to_string()]);
}

#[test]
fn diff_holds_a_file_against_the_last_old_file_with_its_name() {
    let old = manifest(vec![file("x", 1, &[1]), file("x", 1, &[2])]);
    let new = manifest(vec![file("x", 1, &[2])]);
    let d = ManifestDiff::compare(&old, &new);
    assert_eq!(names(&d.unchanged), vec!["x"]);
    assert!(d.modified.is_empty());
    assert!(d.removed.is_empty());
}

#[test]
fn diff_with_itself_changes_nothing() {
    let m = manifest(vec![file("a", 1, &[1]), file("b", 2, &[2])]);
    let d = ManifestDiff::compare(&m, &m);
    assert_eq!(names(&d.unchanged), vec!["a", "b"]);
    assert!(d.added.is_empty() && d.modified.is_empty() && d.removed.is_empty());
}

#[test]
fn diff_against_empty_adds_or_removes_everything() {
    let empty = manifest(vec![]);
    let m = manifest(vec![file("a", 1, &[1]), file("b", 2, &[2])]);
    let up = ManifestDiff::compare(&empty, &m);
    assert_eq!(names(&up.added), vec!["a", "b"]);
    let down = ManifestDiff::compare(&m, &empty);
    assert_eq!(down.removed, vec!["a".to_string(), "b".to_string()]);
    assert!(down.added.is_empty() && down.unchanged.is_empty());
}
