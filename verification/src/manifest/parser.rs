//! Depot manifests: the files of a depot and their chunks, and the
//! difference between two manifests.
use vstd::prelude::*;

use crate::text::str_equal;

verus! {

// ---------------------------------------------------------------------------
// Types and their views
// ---------------------------------------------------------------------------

/// A manifest: the files that make up one version of a depot.
#[derive(Debug, Clone)]
pub struct Manifest {
    pub depot_id: u32,
    pub manifest_id: u64,
    pub files: Vec<FileEntry>,
    pub total_size: u64,
    pub file_count: u32,
}

/// One file of a manifest.
#[derive(Debug, Clone)]
pub struct FileEntry {
    pub filename: String,
    pub size: u64,
    pub flags: u32,
    pub hash: Vec<u8>,
    pub chunks: Vec<ChunkEntry>,
    pub executable: bool,
}

/// One chunk of a file.
#[derive(Debug, Clone)]
pub struct ChunkEntry {
    pub chunk_id: String,
    pub checksum: u32,
    pub offset: u64,
    pub compressed_length: u32,
    pub uncompressed_length: u32,
}

pub struct ChunkEntryView {
    pub chunk_id: Seq<char>,
    pub checksum: u32,
    pub offset: u64,
    pub compressed_length: u32,
    pub uncompressed_length: u32,
}

pub struct FileEntryView {
    pub filename: Seq<char>,
    pub size: u64,
    pub flags: u32,
    pub hash: Seq<u8>,
    pub chunks: Seq<ChunkEntryView>,
    pub executable: bool,
}

pub struct ManifestView {
    pub depot_id: u32,
    pub manifest_id: u64,
    pub files: Seq<FileEntryView>,
    pub total_size: u64,
    pub file_count: u32,
}

impl View for ChunkEntry {
    type V = ChunkEntryView;

    open spec fn view(&self) -> ChunkEntryView {
        ChunkEntryView {
            chunk_id: self.chunk_id@,
            checksum: self.checksum,
            offset: self.offset,
            compressed_length: self.compressed_length,
            uncompressed_length: self.uncompressed_length,
        }
    }
}

pub open spec fn chunk_views(cs: Seq<ChunkEntry>) -> Seq<ChunkEntryView> {
    cs.map_values(|c: ChunkEntry| c@)
}

impl View for FileEntry {
    type V = FileEntryView;

    open spec fn view(&self) -> FileEntryView {
        FileEntryView {
            filename: self.filename@,
            size: self.size,
            flags: self.flags,
            hash: self.hash@,
            chunks: chunk_views(self.chunks@),
            executable: self.executable,
        }
    }
}

pub open spec fn file_views(fs: Seq<FileEntry>) -> Seq<FileEntryView> {
    fs.map_values(|f: FileEntry| f@)
}

impl View for Manifest {
    type V = ManifestView;

    open spec fn view(&self) -> ManifestView {
        ManifestView {
            depot_id: self.depot_id,
            manifest_id: self.manifest_id,
            files: file_views(self.files@),
            total_size: self.total_size,
            file_count: self.file_count,
        }
    }
}

/// Why a manifest could not be read or written.
#[derive(Debug, Clone, PartialEq, Eq)]
pub enum ManifestFormatError {
    /// Reading the binary manifest format is not supported.
    ParsingUnsupported,
    /// Writing the binary manifest format is not supported.
    SerializationUnsupported,
}

// ---------------------------------------------------------------------------
// Sums
// ---------------------------------------------------------------------------

/// The sum of the sizes of `files`.
pub open spec fn sum_sizes(files: Seq<FileEntryView>) -> nat
    decreases files.len(),
{
    if files.len() == 0 {
        0
    } else {
        sum_sizes(files.drop_last()) + files.last().size as nat
    }
}

/// The sum of the compressed lengths of `chunks`.
pub open spec fn sum_compressed(chunks: Seq<ChunkEntryView>) -> nat
    decreases chunks.len(),
{
    if chunks.len() == 0 {
        0
    } else {
        sum_compressed(chunks.drop_last()) + chunks.last().compressed_length as nat
    }
}

proof fn lemma_sum_sizes_prefix(files: Seq<FileEntryView>, i: int)
    requires
        0 <= i <= files.len(),
    ensures
        sum_sizes(files.take(i)) <= sum_sizes(files),
    decreases files.len() - i,
{
    if i < files.len() {
        lemma_sum_sizes_prefix(files, i + 1);
        assert(files.take(i + 1).drop_last() =~= files.take(i));
    } else {
        assert(files.take(i) =~= files);
    }
}

proof fn lemma_sum_compressed_prefix(chunks: Seq<ChunkEntryView>, i: int)
    requires
        0 <= i <= chunks.len(),
    ensures
        sum_compressed(chunks.take(i)) <= sum_compressed(chunks),
    decreases chunks.len() - i,
{
    if i < chunks.len() {
        lemma_sum_compressed_prefix(chunks, i + 1);
        assert(chunks.take(i + 1).drop_last() =~= chunks.take(i));
    } else {
        assert(chunks.take(i) =~= chunks);
    }
}

// ---------------------------------------------------------------------------
// Looking files up by name
// ---------------------------------------------------------------------------

/// The last file of `files` named `name`.
pub open spec fn last_named(files: Seq<FileEntryView>, name: Seq<char>) -> Option<FileEntryView>
    decreases files.len(),
{
    if files.len() == 0 {
        None
    } else if files.last().filename == name {
        Some(files.last())
    } else {
        last_named(files.drop_last(), name)
    }
}

/// Some file of `files` is named `name`.
pub open spec fn has_name(files: Seq<FileEntryView>, name: Seq<char>) -> bool {
    last_named(files, name) is Some
}

/// The position of the first file of `files` named `name`.
pub open spec fn first_named(files: Seq<FileEntryView>, name: Seq<char>) -> Option<int>
    decreases files.len(),
{
    if files.len() == 0 {
        None
    } else if files[0].filename == name {
        Some(0)
    } else {
        match first_named(files.drop_first(), name) {
            Some(i) => Some(i + 1),
            None => None,
        }
    }
}

proof fn lemma_first_named_found(files: Seq<FileEntryView>, name: Seq<char>, i: int)
    requires
        0 <= i < files.len(),
        files[i].filename == name,
        forall|j: int| 0 <= j < i ==> files[j].filename != name,
    ensures
        first_named(files, name) == Some(i),
    decreases i,
{
    if i > 0 {
        lemma_first_named_found(files.drop_first(), name, i - 1);
    }
}

proof fn lemma_first_named_absent(files: Seq<FileEntryView>, name: Seq<char>)
    requires
        forall|j: int| 0 <= j < files.len() ==> files[j].filename != name,
    ensures
        first_named(files, name) is None,
    decreases files.len(),
{
    if files.len() > 0 {
        lemma_first_named_absent(files.drop_first(), name);
    }
}

proof fn lemma_last_named_step(files: Seq<FileEntryView>, name: Seq<char>, k: int)
    requires
        0 < k <= files.len(),
    ensures
        last_named(files.take(k), name) == if files[k - 1].filename == name {
            Some(files[k - 1])
        } else {
            last_named(files.take(k - 1), name)
        },
{
    assert(files.take(k).drop_last() =~= files.take(k - 1));
}

// ---------------------------------------------------------------------------
// Manifest differences
// ---------------------------------------------------------------------------

/// How a file of a new manifest stands to an old manifest: the old file it
/// is held against is the last one with its name.
pub enum FileChange {
    Added,
    Modified,
    Unchanged,
}

pub open spec fn classify(old: Seq<FileEntryView>, f: FileEntryView) -> FileChange {
    match last_named(old, f.filename) {
        None => FileChange::Added,
        Some(o) => if o.hash == f.hash {
            FileChange::Unchanged
        } else {
            FileChange::Modified
        },
    }
}

/// The files of `new` that stand to `old` as `change`, in order.
pub open spec fn files_with_change(
    old: Seq<FileEntryView>,
    new: Seq<FileEntryView>,
    change: FileChange,
) -> Seq<FileEntryView>
    decreases new.len(),
{
    if new.len() == 0 {
        Seq::empty()
    } else {
        let rest = files_with_change(old, new.drop_last(), change);
        if classify(old, new.last()) == change {
            rest.push(new.last())
        } else {
            rest
        }
    }
}

/// The names of the files of `old` that no file of `new` is named, in order.
pub open spec fn removed_names(old: Seq<FileEntryView>, new: Seq<FileEntryView>) -> Seq<
    Seq<char>,
>
    decreases old.len(),
{
    if old.len() == 0 {
        Seq::empty()
    } else {
        let rest = removed_names(old.drop_last(), new);
        if has_name(new, old.last().filename) {
            rest
        } else {
            rest.push(old.last().filename)
        }
    }
}

/// What changed from one manifest to another.
pub struct ManifestDiff {
    pub added: Vec<FileEntry>,
    pub modified: Vec<FileEntry>,
    pub removed: Vec<String>,
    pub unchanged: Vec<FileEntry>,
}

pub open spec fn string_views(ss: Seq<String>) -> Seq<Seq<char>> {
    ss.map_values(|s: String| s@)
}

// ---------------------------------------------------------------------------
// Copies
// ---------------------------------------------------------------------------

fn copy_bytes(bs: &[u8]) -> (out: Vec<u8>)
    ensures
        out@ == bs@,
{
    let mut out: Vec<u8> = Vec::new();
    let mut i: usize = 0;
    while i < bs.len()
        invariant
            i <= bs.len(),
            out@ == bs@.take(i as int),
        decreases bs.len() - i,
    {
        out.push(bs[i]);
        i = i + 1;
        assert(out@ =~= bs@.take(i as int));
    }
    assert(bs@.take(bs.len() as int) =~= bs@);
    out
}

impl ChunkEntry {
    /// A chunk with the given id, checksum, offset and lengths.
    pub fn new(
        chunk_id: String,
        checksum: u32,
        offset: u64,
        compressed_length: u32,
        uncompressed_length: u32,
    ) -> (c: Self)
        ensures
            c.chunk_id == chunk_id,
            c.checksum == checksum,
            c.offset == offset,
            c.compressed_length == compressed_length,
            c.uncompressed_length == uncompressed_length,
    {
        ChunkEntry { chunk_id, checksum, offset, compressed_length, uncompressed_length }
    }

    fn copy(&self) -> (c: ChunkEntry)
        ensures
            c@ == self@,
    {
        ChunkEntry {
            chunk_id: self.chunk_id.clone(),
            checksum: self.checksum,
            offset: self.offset,
            compressed_length: self.compressed_length,
            uncompressed_length: self.uncompressed_length,
        }
    }
}

fn copy_chunks(cs: &Vec<ChunkEntry>) -> (out: Vec<ChunkEntry>)
    ensures
        chunk_views(out@) == chunk_views(cs@),
{
    let mut out: Vec<ChunkEntry> = Vec::new();
    let mut i: usize = 0;
    while i < cs.len()
        invariant
            i <= cs.len(),
            chunk_views(out@) == chunk_views(cs@.take(i as int)),
        decreases cs.len() - i,
    {
        let c = cs[i].copy();
        let ghost before = out@;
        out.push(c);
        proof {
            assert(cs@.take(i + 1) =~= cs@.take(i as int).push(cs@[i as int]));
            assert(chunk_views(cs@.take(i + 1)) =~= chunk_views(cs@.take(i as int)).push(
                cs@[i as int]@,
            ));
            assert(chunk_views(out@) =~= chunk_views(before).push(c@));
        }
        i = i + 1;
    }
    assert(cs@.take(cs.len() as int) =~= cs@);
    out
}

impl FileEntry {
    /// A file with the given name and size, no hash, no chunks, no flags,
    /// not executable.
    pub fn new(filename: String, size: u64) -> (f: Self)
        ensures
            f.filename == filename,
            f.size == size,
            f.flags == 0,
            f.hash@ == Seq::<u8>::empty(),
            f.chunks@ == Seq::<ChunkEntry>::empty(),
            !f.executable,
    {
        FileEntry {
            filename,
            size,
            flags: 0,
            hash: Vec::new(),
            chunks: Vec::new(),
            executable: false,
        }
    }

    /// The same file with its hash set.
    pub fn with_hash(self, hash: Vec<u8>) -> (f: Self)
        ensures
            f == (FileEntry { hash, ..self }),
    {
        let mut f = self;
        f.hash = hash;
        f
    }

    /// The same file with its chunks set.
    pub fn with_chunks(self, chunks: Vec<ChunkEntry>) -> (f: Self)
        ensures
            f == (FileEntry { chunks, ..self }),
    {
        let mut f = self;
        f.chunks = chunks;
        f
    }

    /// The same file, marked executable or not.
    pub fn executable(self, exec: bool) -> (f: Self)
        ensures
            f == (FileEntry { executable: exec, ..self }),
    {
        let mut f = self;
        f.executable = exec;
        f
    }

    /// The sum of the compressed lengths of the file's chunks.
    pub fn get_total_chunk_size(&self) -> (total: u64)
        requires
            sum_compressed(self@.chunks) <= u64::MAX,
        ensures
            total == sum_compressed(self@.chunks),
    {
        let ghost cs = self@.chunks;
        let mut total: u64 = 0;
        let mut i: usize = 0;
        while i < self.chunks.len()
            invariant
                i <= self.chunks.len(),
                cs == chunk_views(self.chunks@),
                cs.len() == self.chunks.len(),
                sum_compressed(cs) <= u64::MAX,
                total == sum_compressed(cs.take(i as int)),
            decreases self.chunks.len() - i,
        {
            proof {
                lemma_sum_compressed_prefix(cs, i + 1);
                assert(cs.take(i + 1).drop_last() =~= cs.take(i as int));
            }
            total = total + self.chunks[i].compressed_length as u64;
            i = i + 1;
        }
        assert(cs.take(i as int) =~= cs);
        total
    }

    fn copy(&self) -> (f: FileEntry)
        ensures
            f@ == self@,
    {
        FileEntry {
            filename: self.filename.clone(),
            size: self.size,
            flags: self.flags,
            hash: copy_bytes(self.hash.as_slice()),
            chunks: copy_chunks(&self.chunks),
            executable: self.executable,
        }
    }
}

fn bytes_equal(a: &[u8], b: &[u8]) -> (r: bool)
    ensures
        r == (a@ == b@),
{
    if a.len() != b.len() {
        return false;
    }
    let mut i: usize = 0;
    while i < a.len()
        invariant
            i <= a.len(),
            a.len() == b.len(),
            forall|j: int| 0 <= j < i ==> a@[j] == b@[j],
        decreases a.len() - i,
    {
        if a[i] != b[i] {
            return false;
        }
        i = i + 1;
    }
    assert(a@ =~= b@);
    true
}

/// The position of the last file of `files` named `name`.
fn last_index_named(files: &Vec<FileEntry>, name: &String) -> (r: Option<usize>)
    ensures
        match last_named(file_views(files@), name@) {
            None => r is None,
            Some(f) => r matches Some(k) && k < files.len() && files@[k as int]@ == f,
        },
{
    let ghost fs = file_views(files@);
    let mut k: usize = files.len();
    assert(fs.take(k as int) =~= fs);
    while k > 0
        invariant
            k <= files.len(),
            fs == file_views(files@),
            fs.len() == files.len(),
            last_named(fs, name@) == last_named(fs.take(k as int), name@),
        decreases k,
    {
        proof {
            lemma_last_named_step(fs, name@, k as int);
        }
        if files[k - 1].filename == *name {
            return Some(k - 1);
        }
        k = k - 1;
    }
    assert(fs.take(0) =~= Seq::<FileEntryView>::empty());
    None
}

impl Manifest {
    pub(crate) fn copy(&self) -> (m: Manifest)
        ensures
            m@ == self@,
    {
        let mut files: Vec<FileEntry> = Vec::new();
        let mut i: usize = 0;
        while i < self.files.len()
            invariant
                i <= self.files.len(),
                file_views(files@) == file_views(self.files@.take(i as int)),
            decreases self.files.len() - i,
        {
            let f = self.files[i].copy();
            let ghost before = files@;
            files.push(f);
            proof {
                assert(self.files@.take(i + 1) =~= self.files@.take(i as int).push(
                    self.files@[i as int],
                ));
                assert(file_views(self.files@.take(i + 1)) =~= file_views(
                    self.files@.take(i as int),
                ).push(self.files@[i as int]@));
                assert(file_views(files@) =~= file_views(before).push(f@));
            }
            i = i + 1;
        }
        assert(self.files@.take(self.files.len() as int) =~= self.files@);
        Manifest {
            depot_id: self.depot_id,
            manifest_id: self.manifest_id,
            files,
            total_size: self.total_size,
            file_count: self.file_count,
        }
    }

    /// An empty manifest of a depot.
    pub fn new(depot_id: u32, manifest_id: u64) -> (m: Self)
        ensures
            m.depot_id == depot_id,
            m.manifest_id == manifest_id,
            m.files@ == Seq::<FileEntry>::empty(),
            m.total_size == 0,
            m.file_count == 0,
    {
        Manifest { depot_id, manifest_id, files: Vec::new(), total_size: 0, file_count: 0 }
    }

    /// Reading the binary manifest format, which is not supported: every
    /// input is refused.
    pub fn from_bytes(_data: &[u8]) -> (r: Result<Self, ManifestFormatError>)
        ensures
            r matches Err(ManifestFormatError::ParsingUnsupported),
    {
        Err(ManifestFormatError::ParsingUnsupported)
    }

    /// Writing the binary manifest format, which is not supported: it always
    /// fails.
    pub fn to_bytes(&self) -> (r: Result<Vec<u8>, ManifestFormatError>)
        ensures
            r matches Err(ManifestFormatError::SerializationUnsupported),
    {
        Err(ManifestFormatError::SerializationUnsupported)
    }

    /// The first file with the given name.
    pub fn get_file(&self, filename: &str) -> (r: Option<&FileEntry>)
        ensures
            match first_named(file_views(self.files@), filename@) {
                None => r is None,
                Some(i) => r matches Some(f) && *f == self.files@[i],
            },
    {
        let ghost fs = file_views(self.files@);
        let mut i: usize = 0;
        while i < self.files.len()
            invariant
                i <= self.files.len(),
                fs == file_views(self.files@),
                fs.len() == self.files.len(),
                forall|j: int| 0 <= j < i ==> fs[j].filename != filename@,
            decreases self.files.len() - i,
        {
            let f = &self.files[i];
            if str_equal(f.filename.as_str(), filename) {
                proof {
                    lemma_first_named_found(fs, filename@, i as int);
                }
                return Some(f);
            }
            i = i + 1;
        }
        proof {
            lemma_first_named_absent(fs, filename@);
        }
        None
    }

    /// The files to download into `install_dir`: every file of the manifest,
    /// in order.
    pub fn get_files_to_download(&self, _install_dir: &str) -> (r: Vec<&FileEntry>)
        ensures
            r@.len() == self.files@.len(),
            forall|i: int| 0 <= i < r@.len() ==> *r@[i] == self.files@[i],
    {
        let mut r: Vec<&FileEntry> = Vec::new();
        let mut i: usize = 0;
        while i < self.files.len()
            invariant
                i <= self.files.len(),
                r@.len() == i,
                forall|j: int| 0 <= j < i ==> *r@[j] == self.files@[j],
            decreases self.files.len() - i,
        {
            r.push(&self.files[i]);
            i = i + 1;
        }
        r
    }

    /// The sum of the sizes of all files.
    pub fn calculate_total_download_size(&self) -> (total: u64)
        requires
            sum_sizes(self@.files) <= u64::MAX,
        ensures
            total == sum_sizes(self@.files),
    {
        let ghost fs = self@.files;
        let mut total: u64 = 0;
        let mut i: usize = 0;
        while i < self.files.len()
            invariant
                i <= self.files.len(),
                fs == file_views(self.files@),
                fs.len() == self.files.len(),
                sum_sizes(fs) <= u64::MAX,
                total == sum_sizes(fs.take(i as int)),
            decreases self.files.len() - i,
        {
            proof {
                lemma_sum_sizes_prefix(fs, i + 1);
                assert(fs.take(i + 1).drop_last() =~= fs.take(i as int));
            }
            total = total + self.files[i].size;
            i = i + 1;
        }
        assert(fs.take(i as int) =~= fs);
        total
    }
}

impl ManifestDiff {
    /// A difference with nothing in it.
    pub fn new() -> (d: Self)
        ensures
            d.added@ == Seq::<FileEntry>::empty(),
            d.modified@ == Seq::<FileEntry>::empty(),
            d.removed@ == Seq::<String>::empty(),
            d.unchanged@ == Seq::<FileEntry>::empty(),
    {
        ManifestDiff {
            added: Vec::new(),
            modified: Vec::new(),
            removed: Vec::new(),
            unchanged: Vec::new(),
        }
    }

    /// What changed from `old` to `new`. A file of `new` is added when no
    /// file of `old` has its name; otherwise it is held against the last
    /// file of `old` with that name, unchanged when the hashes are equal and
    /// modified when they differ. Removed are the names of the files of
    /// `old` that no file of `new` has. Every list keeps manifest order.
    pub fn compare(old: &Manifest, new: &Manifest) -> (d: Self)
        ensures
            file_views(d.added@) == files_with_change(old@.files, new@.files, FileChange::Added),
            file_views(d.modified@) == files_with_change(
                old@.files,
                new@.files,
                FileChange::Modified,
            ),
            file_views(d.unchanged@) == files_with_change(
                old@.files,
                new@.files,
                FileChange::Unchanged,
            ),
            string_views(d.removed@) == removed_names(old@.files, new@.files),
    {
        let mut diff = ManifestDiff::new();
        let ghost ofs = old@.files;
        let ghost nfs = new@.files;
        let mut i: usize = 0;
        while i < new.files.len()
            invariant
                i <= new.files.len(),
                ofs == file_views(old.files@),
                nfs == file_views(new.files@),
                nfs.len() == new.files.len(),
                file_views(diff.added@) == files_with_change(
                    ofs,
                    nfs.take(i as int),
                    FileChange::Added,
                ),
                file_views(diff.modified@) == files_with_change(
                    ofs,
                    nfs.take(i as int),
                    FileChange::Modified,
                ),
                file_views(diff.unchanged@) == files_with_change(
                    ofs,
                    nfs.take(i as int),
                    FileChange::Unchanged,
                ),
                diff.removed@ == Seq::<String>::empty(),
            decreases new.files.len() - i,
        {
            let new_file = &new.files[i];
            let ghost nf = nfs[i as int];
            assert(nfs.take(i + 1).drop_last() =~= nfs.take(i as int));
            assert(nfs.take(i + 1).last() == nf);
            let ghost a0 = diff.added@;
            let ghost m0 = diff.modified@;
            let ghost u0 = diff.unchanged@;
            match last_index_named(&old.files, &new_file.filename) {
                Some(k) => {
                    if bytes_equal(old.files[k].hash.as_slice(), new_file.hash.as_slice()) {
                        diff.unchanged.push(new_file.copy());
                        assert(file_views(diff.unchanged@) =~= file_views(u0).push(nf));
                    } else {
                        diff.modified.push(new_file.copy());
                        assert(file_views(diff.modified@) =~= file_views(m0).push(nf));
                    }
                },
                None => {
                    diff.added.push(new_file.copy());
                    assert(file_views(diff.added@) =~= file_views(a0).push(nf));
                },
            }
            i = i + 1;
        }
        assert(nfs.take(i as int) =~= nfs);
        let mut j: usize = 0;
        while j < old.files.len()
            invariant
                j <= old.files.len(),
                ofs == file_views(old.files@),
                ofs.len() == old.files.len(),
                nfs == file_views(new.files@),
                file_views(diff.added@) == files_with_change(ofs, nfs, FileChange::Added),
                file_views(diff.modified@) == files_with_change(ofs, nfs, FileChange::Modified),
                file_views(diff.unchanged@) == files_with_change(
                    ofs,
                    nfs,
                    FileChange::Unchanged,
                ),
                string_views(diff.removed@) == removed_names(ofs.take(j as int), nfs),
            decreases old.files.len() - j,
        {
            let old_file = &old.files[j];
            let ghost of = ofs[j as int];
            assert(ofs.take(j + 1).drop_last() =~= ofs.take(j as int));
            assert(ofs.take(j + 1).last() == of);
            let ghost r0 = diff.removed@;
            match last_index_named(&new.files, &old_file.filename) {
                Some(_) => {},
                None => {
                    diff.removed.push(old_file.filename.clone());
                    assert(string_views(diff.removed@) =~= string_views(r0).push(of.filename));
                },
            }
            j = j + 1;
        }
        assert(ofs.take(j as int) =~= ofs);
        diff
    }
}

// ---------------------------------------------------------------------------
// Laws of manifest differences
// ---------------------------------------------------------------------------

/// Every file of the new manifest is added, modified or unchanged, and only
/// one of them.
pub proof fn law_diff_partitions_new_files(old: Seq<FileEntryView>, new: Seq<FileEntryView>)
    ensures
        files_with_change(old, new, FileChange::Added).len() + files_with_change(
            old,
            new,
            FileChange::Modified,
        ).len() + files_with_change(old, new, FileChange::Unchanged).len() == new.len(),
    decreases new.len(),
{
    if new.len() > 0 {
        law_diff_partitions_new_files(old, new.drop_last());
    }
}

proof fn lemma_last_named_unique(fs: Seq<FileEntryView>, i: int)
    requires
        0 <= i < fs.len(),
        forall|a: int, b: int| 0 <= a < b < fs.len() ==> fs[a].filename != fs[b].filename,
    ensures
        last_named(fs, fs[i].filename) == Some(fs[i]),
    decreases fs.len(),
{
    if i < fs.len() - 1 {
        let front = fs.drop_last();
        assert(front[i] == fs[i]);
        lemma_last_named_unique(front, i);
    }
}

proof fn lemma_same_unchanged(fs: Seq<FileEntryView>, k: int)
    requires
        0 <= k <= fs.len(),
        forall|a: int, b: int| 0 <= a < b < fs.len() ==> fs[a].filename != fs[b].filename,
    ensures
        files_with_change(fs, fs.take(k), FileChange::Unchanged) == fs.take(k),
        files_with_change(fs, fs.take(k), FileChange::Added) == Seq::<FileEntryView>::empty(),
        files_with_change(fs, fs.take(k), FileChange::Modified) == Seq::<FileEntryView>::empty(),
        removed_names(fs.take(k), fs) == Seq::<Seq<char>>::empty(),
    decreases k,
{
    if k > 0 {
        lemma_same_unchanged(fs, k - 1);
        assert(fs.take(k).drop_last() =~= fs.take(k - 1));
        assert(fs.take(k).last() == fs[k - 1]);
        lemma_last_named_unique(fs, k - 1);
        assert(fs.take(k - 1).push(fs[k - 1]) =~= fs.take(k));
    } else {
        assert(fs.take(0) =~= Seq::<FileEntryView>::empty());
    }
}

/// Comparing a manifest whose file names are distinct with itself finds
/// every file unchanged, and nothing added, modified or removed.
pub proof fn law_diff_with_itself(fs: Seq<FileEntryView>)
    requires
        forall|a: int, b: int| 0 <= a < b < fs.len() ==> fs[a].filename != fs[b].filename,
    ensures
        files_with_change(fs, fs, FileChange::Unchanged) == fs,
        files_with_change(fs, fs, FileChange::Added) == Seq::<FileEntryView>::empty(),
        files_with_change(fs, fs, FileChange::Modified) == Seq::<FileEntryView>::empty(),
        removed_names(fs, fs) == Seq::<Seq<char>>::empty(),
{
    lemma_same_unchanged(fs, fs.len() as int);
    assert(fs.take(fs.len() as int) =~= fs);
}

/// Every file listed as added, modified or unchanged is a file of the new
/// manifest, as the new manifest has it: added when no old file has its
/// name; modified when the last old file with its name has another hash;
/// unchanged when that file has the same hash. Every removed name is the
/// name of an old file that no new file has.
pub proof fn law_diff_lists_come_from_the_manifests(
    old: Seq<FileEntryView>,
    new: Seq<FileEntryView>,
    change: FileChange,
)
    ensures
        forall|i: int|
            0 <= i < files_with_change(old, new, change).len() ==> new.contains(
                #[trigger] files_with_change(old, new, change)[i],
            ),
        forall|i: int|
            0 <= i < files_with_change(old, new, change).len() ==> {
                let f = #[trigger] files_with_change(old, new, change)[i];
                match last_named(old, f.filename) {
                    None => change == FileChange::Added,
                    Some(o) => if o.hash == f.hash {
                        change == FileChange::Unchanged
                    } else {
                        change == FileChange::Modified
                    },
                }
            },
        forall|i: int|
            0 <= i < removed_names(old, new).len() ==> (exists|j: int|
                0 <= j < old.len() && old[j].filename == #[trigger] removed_names(old, new)[i])
                && !has_name(new, removed_names(old, new)[i]),
    decreases new.len() + old.len(),
{
    if new.len() > 0 {
        law_diff_lists_come_from_the_manifests(old, new.drop_last(), change);
        let fw = files_with_change(old, new, change);
        let rest = files_with_change(old, new.drop_last(), change);
        assert forall|i: int| 0 <= i < fw.len() implies new.contains(#[trigger] fw[i]) by {
            if i < rest.len() {
                assert(fw[i] == rest[i]);
                let j = choose|j: int| 0 <= j < new.drop_last().len() && new.drop_last()[j] == rest[i];
                assert(new[j] == rest[i]);
            } else {
                assert(fw[i] == new.last());
                assert(new[new.len() - 1] == new.last());
            }
        }
        assert forall|i: int| 0 <= i < fw.len() implies {
            let f = #[trigger] fw[i];
            match last_named(old, f.filename) {
                None => change == FileChange::Added,
                Some(o) => if o.hash == f.hash {
                    change == FileChange::Unchanged
                } else {
                    change == FileChange::Modified
                },
            }
        } by {
            if i < rest.len() {
                assert(fw[i] == rest[i]);
            }
        }
    }
    if old.len() > 0 {
        law_diff_lists_come_from_the_manifests(old.drop_last(), new, change);
        let rn = removed_names(old, new);
        let rrest = removed_names(old.drop_last(), new);
        assert forall|i: int| 0 <= i < rn.len() implies (exists|j: int|
            0 <= j < old.len() && old[j].filename == #[trigger] rn[i]) && !has_name(new, rn[i]) by {
            if i < rrest.len() {
                assert(rn[i] == rrest[i]);
                let j = choose|j: int|
                    0 <= j < old.drop_last().len() && old.drop_last()[j].filename == rrest[i];
                assert(old[j] == old.drop_last()[j]);
            } else {
                assert(rn[i] == old.last().filename);
                assert(old[old.len() - 1] == old.last());
            }
        }
    }
}

} // verus!
