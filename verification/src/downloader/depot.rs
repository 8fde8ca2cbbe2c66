//! The course of a depot download once its manifest is known: which file
//! comes next, the progress reported for it, and how a failed chunk is
//! retried.
use vstd::prelude::*;

use crate::downloader::progress::{downloading_message, DownloadProgress};
use crate::manifest::parser::{file_views, sum_sizes, FileEntry, FileEntryView, Manifest};

verus! {

/// The most times a chunk is tried.
pub const MAX_RETRIES: u32 = 3;

/// The files of a manifest being downloaded one after the other.
pub struct DepotDownload {
    files: Vec<FileEntry>,
    next: usize,
    bytes_done: u64,
    file_bytes: u64,
    total_size: u64,
}

/// `p` is the report sent when the file at `position` of `files` starts,
/// with `bytes` downloaded so far out of `total`.
pub open spec fn file_start_report(
    p: DownloadProgress,
    files: Seq<FileEntryView>,
    position: nat,
    bytes: u64,
    total: u64,
) -> bool {
    &&& p.message@ == downloading_message(files[position as int].filename)
    &&& p.current_file matches Some(f) && f@ == files[position as int].filename
    &&& p.files_downloaded == position + 1
    &&& p.files_total == files.len()
    &&& p.bytes_downloaded == bytes
    &&& p.bytes_total == total
    &&& !p.complete
}

impl DepotDownload {
    #[verifier::type_invariant]
    closed spec fn well_formed(self) -> bool {
        &&& self.next <= self.files@.len()
        &&& self.total_size == sum_sizes(file_views(self.files@))
    }

    /// The files to download, in order.
    pub closed spec fn files(&self) -> Seq<FileEntryView> {
        file_views(self.files@)
    }

    /// How many files are done.
    pub closed spec fn position(&self) -> nat {
        self.next as nat
    }

    /// The bytes downloaded so far.
    pub closed spec fn bytes(&self) -> u64 {
        self.bytes_done
    }

    /// The sum of the sizes of all files.
    pub closed spec fn total(&self) -> u64 {
        self.total_size
    }

    /// The bytes written so far for the file being downloaded.
    pub closed spec fn file_written(&self) -> u64 {
        self.file_bytes
    }

    /// Downloading the files of `manifest`, none done yet.
    pub fn new(manifest: Manifest) -> (d: Self)
        requires
            sum_sizes(manifest@.files) <= u64::MAX,
        ensures
            d.files() == manifest@.files,
            d.position() == 0,
            d.bytes() == 0,
            d.file_written() == 0,
            d.total() == sum_sizes(manifest@.files),
    {
        let total_size = manifest.calculate_total_download_size();
        DepotDownload { files: manifest.files, next: 0, bytes_done: 0, file_bytes: 0, total_size }
    }

    /// The next file to download and the report sent as it starts, or
    /// nothing when every file is done.
    pub fn next_file(&self) -> (r: Option<(&FileEntry, DownloadProgress)>)
        ensures
            self.position() == self.files().len() ==> r is None,
            self.position() < self.files().len() ==> (r matches Some((f, p)) && f@
                == self.files()[self.position() as int] && file_start_report(
                p,
                self.files(),
                self.position(),
                self.bytes(),
                self.total(),
            )),
    {
        proof {
            use_type_invariant(self);
        }
        if self.next >= self.files.len() {
            return None;
        }
        let f = &self.files[self.next];
        let p = DownloadProgress::file_progress(
            f.filename.as_str(),
            (self.next + 1) as u64,
            self.files.len() as u64,
            self.bytes_done,
            self.total_size,
        );
        Some((f, p))
    }

    /// Notes that a chunk of `len` bytes has been written for the file
    /// being downloaded.
    pub fn chunk_written(&mut self, len: u64)
        requires
            old(self).file_written() + len <= u64::MAX,
        ensures
            final(self).file_written() == old(self).file_written() + len,
            final(self).position() == old(self).position(),
            final(self).bytes() == old(self).bytes(),
            final(self).files() == old(self).files(),
            final(self).total() == old(self).total(),
    {
        proof {
            use_type_invariant(&*self);
        }
        self.file_bytes = self.file_bytes + len;
    }

    /// Notes that the file being downloaded is done: its bytes count to the
    /// download's, and the next file comes. Gives the file's bytes.
    pub fn file_downloaded(&mut self) -> (written: u64)
        requires
            old(self).position() < old(self).files().len(),
            old(self).bytes() + old(self).file_written() <= u64::MAX,
        ensures
            written == old(self).file_written(),
            final(self).position() == old(self).position() + 1,
            final(self).bytes() == old(self).bytes() + written,
            final(self).file_written() == 0,
            final(self).files() == old(self).files(),
            final(self).total() == old(self).total(),
    {
        proof {
            use_type_invariant(&*self);
        }
        let n = self.files.len();
        assert(self.files().len() == n);
        let written = self.file_bytes;
        self.next = self.next + 1;
        self.bytes_done = self.bytes_done + written;
        self.file_bytes = 0;
        written
    }

    /// The bytes written so far for the file being downloaded.
    pub fn file_bytes_written(&self) -> (b: u64)
        ensures
            b == self.file_written(),
    {
        self.file_bytes
    }

    /// The bytes downloaded so far.
    pub fn bytes_downloaded(&self) -> (b: u64)
        ensures
            b == self.bytes(),
    {
        self.bytes_done
    }

    /// Whether every file is done.
    pub fn is_finished(&self) -> (b: bool)
        ensures
            b == (self.position() == self.files().len()),
    {
        proof {
            use_type_invariant(self);
        }
        self.next == self.files.len()
    }
}

/// The reports of consecutive files count the files up by one and never
/// count bytes down, and every report counts the same files and bytes in
/// all.
pub proof fn law_reports_count_up(
    p1: DownloadProgress,
    p2: DownloadProgress,
    files: Seq<FileEntryView>,
    position: nat,
    bytes: u64,
    more: u64,
    total: u64,
)
    requires
        position + 1 < files.len(),
        bytes + more <= u64::MAX,
        file_start_report(p1, files, position, bytes, total),
        file_start_report(p2, files, position + 1, (bytes + more) as u64, total),
    ensures
        p2.files_downloaded == p1.files_downloaded + 1,
        p2.bytes_downloaded >= p1.bytes_downloaded,
        p2.files_total == p1.files_total,
        p2.bytes_total == p1.bytes_total,
        p1.files_downloaded <= p1.files_total,
{
}

/// What follows a failed try of a chunk, the tries counted from 0: the
/// milliseconds to wait, `500 * (attempt + 1)`, and whether to try again.
pub fn after_chunk_failure(attempt: u32) -> (r: (u64, bool))
    requires
        attempt < MAX_RETRIES,
    ensures
        r.0 == 500 * (attempt + 1),
        r.1 == (attempt + 1 < MAX_RETRIES),
{
    (500 * (attempt as u64 + 1), attempt + 1 < MAX_RETRIES)
}

} // verus!
