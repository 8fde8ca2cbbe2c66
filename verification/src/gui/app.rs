//! The state of the main window that is not drawing: what searching,
//! fetching keys, downloading and the answers that come back do to it.
use std::collections::HashMap;
use vstd::prelude::*;

use crate::downloader::progress::DownloadProgress;
use crate::gui::components::{log_after_add, LogBox, LogEntry, LogLevel, MAX_LOG_LINES};
use crate::gui::dialogs::{downloads_dir_text, DownloadConfig, DownloadDialog};
use crate::steam::web_api::GameInfo;
use crate::text::{chars_of, decimal, parse_u32, parse_u32_spec, push_decimal, push_str};

verus! {

broadcast use {vstd::std_specs::hash::group_hash_axioms, vstd::string::group_string_axioms};

/// The settings the window edits.
#[derive(Debug, Clone)]
pub struct AppSettings {
    pub manifest_repo_url: String,
    pub local_manifest_path: String,
    pub steam_username: String,
    pub steam_password: String,
    pub output_directory: String,
}

impl Default for AppSettings {
    fn default() -> (s: Self)
        ensures
            s.manifest_repo_url@ == "https://github.com/SteamAutoCracks/ManifestHub"@,
            s.local_manifest_path@ == "./manifests"@,
            s.steam_username@ == Seq::<char>::empty(),
            s.steam_password@ == Seq::<char>::empty(),
            s.output_directory@ == "./downloads"@,
    {
        AppSettings {
            manifest_repo_url: String::from_str("https://github.com/SteamAutoCracks/ManifestHub"),
            local_manifest_path: String::from_str("./manifests"),
            steam_username: String::new(),
            steam_password: String::new(),
            output_directory: String::from_str("./downloads"),
        }
    }
}

/// What the window is doing.
#[derive(Debug, Clone)]
pub enum AppState {
    Idle,
    Searching,
    Downloading,
    Error(String),
}

/// An answer that comes back to the window from work done elsewhere.
#[derive(Debug, Clone)]
pub enum AppMessage {
    GameFound(GameInfo),
    GameNotFound,
    SearchError(String),
    DownloadProgress(DownloadProgress),
    DepotKeysFetched(HashMap<u32, String>),
    DepotKeysError(String),
}

/// How the progress bar moves on an answer.
#[derive(Debug, Clone, Copy, PartialEq, Eq)]
pub enum ProgressUpdate {
    /// The download is complete: the bar is full.
    Complete,
    /// The bar shows the bytes done out of all.
    Report { bytes_downloaded: u64, bytes_total: u64 },
}

/// The state of the main window.
pub struct AppModel {
    pub state: AppState,
    pub app_id_input: String,
    pub current_game: Option<GameInfo>,
    pub log_box: LogBox,
    pub depot_keys: HashMap<u32, String>,
    pub settings: AppSettings,
}

/// The log after adding an entry of `level` with `message` to `before`.
pub open spec fn logged(before: LogBox, after: LogBox, level: LogLevel, message: Seq<char>) -> bool {
    &&& after.lines().len() > 0
    &&& after.lines().last().level == level
    &&& after.lines().last().message@ == message
    &&& after.lines() == log_after_add(before.lines(), after.lines().last(), MAX_LOG_LINES as nat)
}

/// The state is an error with the given text.
pub open spec fn is_error_with(s: AppState, text: Seq<char>) -> bool {
    s matches AppState::Error(e) && e@ == text
}

fn text_then(prefix: &str, rest: &str) -> (s: String)
    ensures
        s@ == prefix@ + rest@,
{
    let mut s = String::new();
    push_str(&mut s, prefix);
    push_str(&mut s, rest);
    s
}

/// After an entry is added to a log that ends in `prev`, the entry before
/// the new last one is `prev`.
proof fn lemma_log_keeps_previous(before: Seq<LogEntry>, after: Seq<LogEntry>)
    requires
        before.len() > 0,
        after.len() > 0,
        after == log_after_add(before, after.last(), MAX_LOG_LINES as nat),
    ensures
        after.len() >= 2,
        after[after.len() - 2] == before.last(),
{
    if before.len() >= MAX_LOG_LINES {
        assert(after == before.drop_first().push(after.last()));
    } else {
        assert(after == before.push(after.last()));
    }
}

impl AppModel {
    /// A window that is idle, with nothing searched, no keys and the default
    /// settings.
    pub fn new() -> (m: Self)
        ensures
            m.state is Idle,
            m.app_id_input@ == Seq::<char>::empty(),
            m.current_game is None,
            m.log_box.lines() == Seq::<LogEntry>::empty(),
            m.log_box.scroll_pending(),
            m.log_box.follows(),
            m.depot_keys@ == Map::<u32, String>::empty(),
            m.settings.manifest_repo_url@ == "https://github.com/SteamAutoCracks/ManifestHub"@,
            m.settings.local_manifest_path@ == "./manifests"@,
            m.settings.steam_username@ == Seq::<char>::empty(),
            m.settings.steam_password@ == Seq::<char>::empty(),
            m.settings.output_directory@ == "./downloads"@,
    {
        AppModel {
            state: AppState::Idle,
            app_id_input: String::new(),
            current_game: None,
            log_box: LogBox::new(),
            depot_keys: HashMap::new(),
            settings: AppSettings::default(),
        }
    }

    /// Starts a search for the app id typed: when it is a `u32`, the window
    /// searches, forgets the game shown and gives the id to look up;
    /// otherwise it shows an error.
    pub fn handle_search(&mut self) -> (r: Option<u32>)
        ensures
            r == parse_u32_spec(old(self).app_id_input@),
            final(self).app_id_input == old(self).app_id_input,
            final(self).depot_keys@ == old(self).depot_keys@,
            r matches Some(id) ==> {
                &&& final(self).state is Searching
                &&& final(self).current_game is None
                &&& logged(
                    old(self).log_box,
                    final(self).log_box,
                    LogLevel::Info,
                    "Searching for App ID: "@ + decimal(id as nat),
                )
            },
            r is None ==> {
                &&& is_error_with(final(self).state, "Invalid App ID"@)
                &&& final(self).current_game == old(self).current_game
                &&& logged(
                    old(self).log_box,
                    final(self).log_box,
                    LogLevel::Error,
                    "Please enter a valid numeric App ID"@,
                )
            },
    {
        match parse_u32(self.app_id_input.as_str()) {
            Some(app_id) => {
                self.state = AppState::Searching;
                self.current_game = None;
                let mut msg = String::new();
                push_str(&mut msg, "Searching for App ID: ");
                push_decimal(&mut msg, app_id as u64);
                self.log_box.info(msg);
                Some(app_id)
            },
            None => {
                self.state = AppState::Error(String::from_str("Invalid App ID"));
                self.log_box.error(String::from_str("Please enter a valid numeric App ID"));
                None
            },
        }
    }

    /// Takes in an answer. A found game is shown; a game not found or a
    /// failure is an error; a progress report is logged and moves the bar,
    /// and the last one makes the window idle again; fetched keys replace
    /// the keys held.
    pub fn handle_message(&mut self, message: AppMessage) -> (r: Option<ProgressUpdate>)
        ensures
            final(self).app_id_input == old(self).app_id_input,
            match message {
                AppMessage::GameFound(game) => {
                    &&& r is None
                    &&& final(self).current_game == Some(game)
                    &&& final(self).state is Idle
                    &&& final(self).depot_keys@ == old(self).depot_keys@
                    &&& logged(
                        old(self).log_box,
                        final(self).log_box,
                        LogLevel::Success,
                        "Found game: "@ + game.name@,
                    )
                },
                AppMessage::GameNotFound => {
                    &&& r is None
                    &&& is_error_with(final(self).state, "Game not found"@)
                    &&& final(self).current_game == old(self).current_game
                    &&& final(self).depot_keys@ == old(self).depot_keys@
                    &&& logged(
                        old(self).log_box,
                        final(self).log_box,
                        LogLevel::Error,
                        "Game not found for the provided App ID"@,
                    )
                },
                AppMessage::SearchError(error) => {
                    &&& r is None
                    &&& is_error_with(final(self).state, error@)
                    &&& final(self).current_game == old(self).current_game
                    &&& final(self).depot_keys@ == old(self).depot_keys@
                    &&& logged(
                        old(self).log_box,
                        final(self).log_box,
                        LogLevel::Error,
                        "Search error: "@ + error@,
                    )
                },
                AppMessage::DownloadProgress(p) => {
                    &&& final(self).current_game == old(self).current_game
                    &&& final(self).depot_keys@ == old(self).depot_keys@
                    &&& if p.complete {
                        &&& r == Some(ProgressUpdate::Complete)
                        &&& final(self).state is Idle
                        &&& logged(
                            old(self).log_box,
                            final(self).log_box,
                            LogLevel::Success,
                            "Download completed!"@,
                        )
                    } else {
                        &&& r == Some(
                            ProgressUpdate::Report {
                                bytes_downloaded: p.bytes_downloaded,
                                bytes_total: p.bytes_total,
                            },
                        )
                        &&& final(self).state == old(self).state
                        &&& logged(
                            old(self).log_box,
                            final(self).log_box,
                            LogLevel::Info,
                            p.message@,
                        )
                    }
                },
                AppMessage::DepotKeysFetched(keys) => {
                    &&& r is None
                    &&& final(self).state is Idle
                    &&& final(self).depot_keys@ == keys@
                    &&& final(self).current_game == old(self).current_game
                    &&& logged(
                        old(self).log_box,
                        final(self).log_box,
                        LogLevel::Success,
                        "Fetched "@ + decimal(keys@.len()) + " depot keys"@,
                    )
                },
                AppMessage::DepotKeysError(error) => {
                    &&& r is None
                    &&& is_error_with(final(self).state, error@)
                    &&& final(self).current_game == old(self).current_game
                    &&& final(self).depot_keys@ == old(self).depot_keys@
                    &&& logged(
                        old(self).log_box,
                        final(self).log_box,
                        LogLevel::Error,
                        "Failed to fetch depot keys: "@ + error@,
                    )
                },
            },
    {
        match message {
            AppMessage::GameFound(game) => {
                let msg = text_then("Found game: ", game.name.as_str());
                self.current_game = Some(game);
                self.state = AppState::Idle;
                self.log_box.success(msg);
                None
            },
            AppMessage::GameNotFound => {
                self.state = AppState::Error(String::from_str("Game not found"));
                self.log_box.error(String::from_str("Game not found for the provided App ID"));
                None
            },
            AppMessage::SearchError(error) => {
                let msg = text_then("Search error: ", error.as_str());
                self.state = AppState::Error(error);
                self.log_box.error(msg);
                None
            },
            AppMessage::DownloadProgress(progress) => {
                if progress.complete {
                    self.state = AppState::Idle;
                    self.log_box.success(String::from_str("Download completed!"));
                    Some(ProgressUpdate::Complete)
                } else {
                    let update = ProgressUpdate::Report {
                        bytes_downloaded: progress.bytes_downloaded,
                        bytes_total: progress.bytes_total,
                    };
                    self.log_box.info(progress.message);
                    Some(update)
                }
            },
            AppMessage::DepotKeysFetched(keys) => {
                let n = keys.len();
                let mut msg = String::new();
                push_str(&mut msg, "Fetched ");
                push_decimal(&mut msg, n as u64);
                push_str(&mut msg, " depot keys");
                self.state = AppState::Idle;
                self.depot_keys = keys;
                self.log_box.success(msg);
                None
            },
            AppMessage::DepotKeysError(error) => {
                let msg = text_then("Failed to fetch depot keys: ", error.as_str());
                self.state = AppState::Error(error);
                self.log_box.error(msg);
                None
            },
        }
    }

    /// Starts fetching the depot keys of the game shown, if any: the window
    /// searches and gives the app id to fetch for.
    pub fn request_depot_keys(&mut self) -> (r: Option<u32>)
        ensures
            old(self).current_game is None ==> r is None && final(self).state == old(self).state
                && final(self).log_box == old(self).log_box,
            old(self).current_game matches Some(g) ==> {
                &&& r == Some(g.app_id)
                &&& final(self).state is Searching
                &&& logged(
                    old(self).log_box,
                    final(self).log_box,
                    LogLevel::Info,
                    "Fetching depot keys for App ID: "@ + decimal(g.app_id as nat),
                )
            },
            final(self).current_game == old(self).current_game,
            final(self).depot_keys@ == old(self).depot_keys@,
    {
        match &self.current_game {
            Some(game) => {
                let app_id = game.app_id;
                let mut msg = String::new();
                push_str(&mut msg, "Fetching depot keys for App ID: ");
                push_decimal(&mut msg, app_id as u64);
                self.log_box.info(msg);
                self.state = AppState::Searching;
                Some(app_id)
            },
            None => None,
        }
    }

    /// The download dialog for the game shown, if any.
    pub fn download_dialog(&self) -> (d: Option<DownloadDialog>)
        requires
            self.current_game matches Some(g) ==> g.app_id < u32::MAX,
        ensures
            self.current_game is None ==> d is None,
            self.current_game matches Some(g) ==> (d matches Some(dlg) && dlg.app() == g.app_id
                && dlg.depot_text() == decimal(g.app_id as nat + 1) && dlg.dir_text()
                == downloads_dir_text(g.app_id) && dlg.verify_checked()),
    {
        match &self.current_game {
            Some(game) => Some(DownloadDialog::new(game.app_id)),
            None => None,
        }
    }

    /// Starts a download when there are depot keys: the window downloads and
    /// logs what it downloads; with no keys it shows an error instead.
    pub fn start_download(&mut self, config: &DownloadConfig) -> (started: bool)
        ensures
            started == (old(self).depot_keys@.len() > 0),
            final(self).depot_keys@ == old(self).depot_keys@,
            final(self).current_game == old(self).current_game,
            !started ==> {
                &&& is_error_with(
                    final(self).state,
                    "No depot keys found. Please click 'Get Depot Keys' first."@,
                )
                &&& logged(
                    old(self).log_box,
                    final(self).log_box,
                    LogLevel::Error,
                    "No depot keys found. Please click 'Get Depot Keys' first."@,
                )
            },
            started ==> {
                let ls = final(self).log_box.lines();
                &&& final(self).state is Downloading
                &&& ls.len() >= 3
                &&& ls[ls.len() - 3].level == LogLevel::Info
                &&& ls[ls.len() - 3].message@ == "Starting download for App ID: "@ + decimal(
                    config.app_id as nat,
                ) + ", Depot ID: "@ + decimal(config.depot_id as nat)
                &&& ls[ls.len() - 2].level == LogLevel::Info
                &&& ls[ls.len() - 2].message@ == "Install directory: "@ + config.install_dir@
                &&& ls.last().level == LogLevel::Info
                &&& ls.last().message@ == "Using "@ + decimal(old(self).depot_keys@.len())
                    + " depot keys"@
            },
    {
        if self.depot_keys.len() == 0 {
            self.state = AppState::Error(
                String::from_str("No depot keys found. Please click 'Get Depot Keys' first."),
            );
            self.log_box.error(
                String::from_str("No depot keys found. Please click 'Get Depot Keys' first."),
            );
            return false;
        }
        self.state = AppState::Downloading;
        let mut first = String::new();
        push_str(&mut first, "Starting download for App ID: ");
        push_decimal(&mut first, config.app_id as u64);
        push_str(&mut first, ", Depot ID: ");
        push_decimal(&mut first, config.depot_id as u64);
        self.log_box.info(first);
        let ghost l1 = self.log_box.lines();
        let second = text_then("Install directory: ", config.install_dir.as_str());
        self.log_box.info(second);
        let ghost l2 = self.log_box.lines();
        proof {
            lemma_log_keeps_previous(l1, l2);
        }
        let mut third = String::new();
        push_str(&mut third, "Using ");
        push_decimal(&mut third, self.depot_keys.len() as u64);
        push_str(&mut third, " depot keys");
        self.log_box.info(third);
        proof {
            let l3 = self.log_box.lines();
            lemma_log_keeps_previous(l2, l3);
            lemma_log_keeps_previous(l1, l2);
            if l2.len() >= MAX_LOG_LINES {
                assert(l3 == l2.drop_first().push(l3.last()));
            } else {
                assert(l3 == l2.push(l3.last()));
            }
        }
        true
    }

    /// Whether the search button does anything: when the window is idle
    /// and an app id has been typed.
    pub fn search_enabled(&self) -> (b: bool)
        ensures
            b == (self.state is Idle && self.app_id_input@.len() > 0),
    {
        let idle = match self.state {
            AppState::Idle => true,
            _ => false,
        };
        idle && self.app_id_input.as_str().unicode_len() > 0
    }

    /// Whether the download button opens the download dialog: when there
    /// are depot keys.
    pub fn download_enabled(&self) -> (b: bool)
        ensures
            b == (self.depot_keys@.len() > 0),
    {
        self.depot_keys.len() > 0
    }

    /// Closes the error shown: the window is idle again.
    pub fn dismiss_error(&mut self)
        ensures
            old(self).state is Error ==> final(self).state is Idle,
            !(old(self).state is Error) ==> final(self).state == old(self).state,
            final(self).current_game == old(self).current_game,
            final(self).depot_keys@ == old(self).depot_keys@,
            final(self).log_box == old(self).log_box,
    {
        match self.state {
            AppState::Error(_) => {
                self.state = AppState::Idle;
            },
            _ => {},
        }
    }
}

} // verus!
