//! Progress reports of a depot download.
use vstd::prelude::*;

use crate::text::{decimal, push_decimal, push_str};

verus! {

broadcast use vstd::string::group_string_axioms;

/// A progress report of a depot download.
#[derive(Debug, Clone)]
pub struct DownloadProgress {
    pub message: String,
    pub current_file: Option<String>,
    pub files_downloaded: u64,
    pub files_total: u64,
    pub bytes_downloaded: u64,
    pub bytes_total: u64,
    pub complete: bool,
}

/// `Downloading {filename}...`.
pub open spec fn downloading_message(filename: Seq<char>) -> Seq<char> {
    "Downloading "@ + filename + "..."@
}

/// How a report reads: the message, followed by ` (File {done} of {total})`
/// while a file is being downloaded.
pub open spec fn progress_text(p: DownloadProgress) -> Seq<char> {
    if p.complete {
        p.message@
    } else {
        match p.current_file {
            Some(_) => p.message@ + " (File "@ + decimal(p.files_downloaded as nat) + " of "@
                + decimal(p.files_total as nat) + ")"@,
            None => p.message@,
        }
    }
}

impl DownloadProgress {
    /// A report that only carries a message.
    pub fn message(msg: String) -> (p: Self)
        ensures
            p.message == msg,
            p.current_file is None,
            p.files_downloaded == 0,
            p.files_total == 0,
            p.bytes_downloaded == 0,
            p.bytes_total == 0,
            !p.complete,
    {
        DownloadProgress {
            message: msg,
            current_file: None,
            files_downloaded: 0,
            files_total: 0,
            bytes_downloaded: 0,
            bytes_total: 0,
            complete: false,
        }
    }

    /// A report that a file is being downloaded, with the files and bytes
    /// done so far and in all.
    pub fn file_progress(
        filename: &str,
        files_done: u64,
        files_total: u64,
        bytes_done: u64,
        bytes_total: u64,
    ) -> (p: Self)
        ensures
            p.message@ == downloading_message(filename@),
            p.current_file matches Some(f) && f@ == filename@,
            p.files_downloaded == files_done,
            p.files_total == files_total,
            p.bytes_downloaded == bytes_done,
            p.bytes_total == bytes_total,
            !p.complete,
    {
        let mut message = String::new();
        push_str(&mut message, "Downloading ");
        push_str(&mut message, filename);
        push_str(&mut message, "...");
        DownloadProgress {
            message,
            current_file: Some(String::from_str(filename)),
            files_downloaded: files_done,
            files_total,
            bytes_downloaded: bytes_done,
            bytes_total,
            complete: false,
        }
    }

    /// The report that the download is complete.
    pub fn complete() -> (p: Self)
        ensures
            p.message@ == "Download complete!"@,
            p.current_file is None,
            p.files_downloaded == 0,
            p.files_total == 0,
            p.bytes_downloaded == 0,
            p.bytes_total == 0,
            p.complete,
    {
        DownloadProgress {
            message: String::from_str("Download complete!"),
            current_file: None,
            files_downloaded: 0,
            files_total: 0,
            bytes_downloaded: 0,
            bytes_total: 0,
            complete: true,
        }
    }

    /// How the report reads.
    pub fn to_display_string(&self) -> (s: String)
        ensures
            s@ == progress_text(*self),
    {
        if self.complete {
            return self.message.clone();
        }
        match &self.current_file {
            Some(_) => {
                let mut s = self.message.clone();
                push_str(&mut s, " (File ");
                push_decimal(&mut s, self.files_downloaded);
                push_str(&mut s, " of ");
                push_decimal(&mut s, self.files_total);
                push_str(&mut s, ")");
                s
            },
            None => self.message.clone(),
        }
    }
}

} // verus!
