use depot_downloader::downloader::progress::DownloadProgress;
use depot_downloader::gui::app::{AppMessage, AppModel, AppSettings, AppState, ProgressUpdate};
use depot_downloader::gui::components::{GameInfoPanel, LogBox, LogLevel, MAX_LOG_LINES};
use depot_downloader::gui::dialogs::{
    DepotKeyDialog, DownloadConfig, DownloadDialog, LoginDialog, LoginResult, SettingsDialog,
};
use depot_downloader::steam::web_api::GameInfo;
use std::collections::HashMap;

fn game(app_id: u32, name: &str) -> GameInfo {
    GameInfo {
        app_id,
        name: name.to_string(),
        description: String::new(),
        header_image: None,
        developers: vec![],
        publishers: vec![],
        release_date: None,
    }
}

fn last_message(m: &AppModel) -> String {
    m.log_box.entries().back().unwrap().message.clone()
}

#[test]
fn log_keeps_entries_in_order_with_their_level() {
    let mut log = LogBox::new();
    assert!(log.entries().is_empty());
    log.info("a".to_string());
    log.warning("b".to_string());
    log.error("c".to_string());
    log.success("d".to_string());
    log.add(LogLevel::Info, "e".to_string());
    let levels: Vec<LogLevel> = log.entries().iter().map(|e| e.level).collect();
    assert_eq!(
        levels,
        vec![LogLevel::Info, LogLevel::Warning, LogLevel::Error, LogLevel::Success, LogLevel::Info]
    );
    let messages: Vec<&str> = log.entries().iter().map(|e| e.message.as_str()).collect();
    assert_eq!(messages, vec!["a", "b", "c", "d", "e"]);
}

#[test]
fn log_timestamps_read_as_time_of_day() {
    let mut log = LogBox::default();
    log.info("x".to_string());
    let t = &log.entries()[0].timestamp;
    assert_eq!(t.len(), 8);
    let bytes = t.as_bytes();
    assert_eq!(bytes[2], b':');
    assert_eq!(bytes[5], b':');
}

#[test]
fn log_drops_the_oldest_entry_when_full() {
    let mut log = LogBox::new();
    for i in 0..(MAX_LOG_LINES + 5) {
        log.info(i.to_string());
    }
    assert_eq!(log.entries().len(), MAX_LOG_LINES);
    assert_eq!(log.entries()[0].message, "5");
    assert_eq!(log.entries()[MAX_LOG_LINES - 1].message, (MAX_LOG_LINES + 4).to_string());
}

#[test]
fn log_scrolling() {
    let mut log = LogBox::new();
    assert!(log.should_scroll());
    assert!(log.auto_scroll());
    log.scrolled();
    assert!(!log.should_scroll());
    log.info("x".to_string());
    assert!(log.should_scroll());
    log.scrolled();
    log.set_auto_scroll(false);
    log.info("y".to_string());
    assert!(!log.should_scroll());
    log.clear();
    assert!(log.entries().is_empty());
    assert!(!log.auto_scroll());
}

#[test]
fn panels_can_be_made() {
    let _ = GameInfoPanel::new();
    let _ = GameInfoPanel::default();
}

#[test]
fn download_dialog_proposes_the_next_depot() {
    let d = DownloadDialog::new(730);
    assert_eq!(d.app_id(), 730);
    assert_eq!(d.depot_id(), "731");
    assert_eq!(d.install_dir(), "./downloads/730");
    assert!(d.verify_download());
    assert!(d.depot_id_is_valid());
    let c = d.submit(true, false).unwrap();
    assert_eq!((c.app_id, c.depot_id), (730, 731));
    assert_eq!(c.install_dir, "./downloads/730");
    assert!(c.verify);
    assert!(d.submit(true, true).is_none());
    assert!(d.submit(false, false).is_none());
}

#[test]
fn download_dialog_refuses_a_bad_depot_id() {
    let mut d = DownloadDialog::new(1);
    d.set_depot_id("12a".to_string());
    assert!(!d.depot_id_is_valid());
    assert!(d.submit(true, false).is_none());
    d.set_depot_id("99".to_string());
    d.set_install_dir("/games".to_string());
    d.set_verify_download(false);
    let c = d.submit(true, false).unwrap();
    assert_eq!(c.depot_id, 99);
    assert_eq!(c.install_dir, "/games");
    assert!(!c.verify);
}

#[test]
fn settings_dialog_shows_until_closed() {
    let mut d = SettingsDialog::new(&AppSettings::default());
    assert!(d.should_show());
    d.close();
    assert!(!d.should_show());
}

#[test]
fn login_dialog_decisions() {
    let mut d = LoginDialog::new();
    assert_eq!(d.username(), "");
    assert!(!d.use_qr_code() && !d.remember_password());
    assert!(d.decide(true, false, false).is_none());
    assert!(matches!(d.decide(false, true, false), Some(LoginResult::Anonymous)));
    assert!(matches!(d.decide(true, true, true), Some(LoginResult::Cancelled)));

    d.edit("user".to_string(), "pw".to_string(), false, true);
    assert_eq!(d.password(), "pw");
    match d.decide(true, false, false) {
        Some(LoginResult::Credentials { username, password, remember }) => {
            assert_eq!(username, "user");
            assert_eq!(password, "pw");
            assert!(remember);
        }
        other => panic!("expected credentials, got {:?}", other),
    }

    d.edit("user".to_string(), "".to_string(), false, false);
    assert!(d.decide(true, false, false).is_none());

    d.edit(String::new(), String::new(), true, false);
    assert!(matches!(d.decide(true, false, false), Some(LoginResult::QrCode)));
}

#[test]
fn depot_key_dialog_decisions() {
    let mut d = DepotKeyDialog::new(vec![(731, "k1".to_string()), (732, "k2".to_string())]);
    assert_eq!(d.depot_keys().len(), 2);
    assert!(d.selected_depot().is_none());
    assert!(d.decide(true, false).is_none());
    assert_eq!(d.decide(false, true), Some((0, String::new())));
    d.select(1);
    assert_eq!(d.selected_depot(), Some(1));
    assert_eq!(d.decide(true, false), Some((732, "k2".to_string())));
    assert!(d.decide(false, false).is_none());
}

#[test]
fn app_settings_defaults() {
    let s = AppSettings::default();
    assert_eq!(s.manifest_repo_url, "https://github.com/SteamAutoCracks/ManifestHub");
    assert_eq!(s.local_manifest_path, "./manifests");
    assert_eq!(s.output_directory, "./downloads");
    assert!(s.steam_username.is_empty() && s.steam_password.is_empty());
}

#[test]
fn search_with_a_valid_or_invalid_app_id() {
    let mut m = AppModel::new();
    assert!(matches!(m.state, AppState::Idle));
    m.app_id_input = "730".to_string();
    assert_eq!(m.handle_search(), Some(730));
    assert!(matches!(m.state, AppState::Searching));
    assert_eq!(last_message(&m), "Searching for App ID: 730");

    m.app_id_input = "abc".to_string();
    assert_eq!(m.handle_search(), None);
    assert!(matches!(&m.state, AppState::Error(e) if e == "Invalid App ID"));
    assert_eq!(last_message(&m), "Please enter a valid numeric App ID");
    m.dismiss_error();
    assert!(matches!(m.state, AppState::Idle));
}

#[test]
fn messages_move_the_window() {
    let mut m = AppModel::new();
    assert_eq!(m.handle_message(AppMessage::GameFound(game(70, "Half-Life"))), None);
    assert_eq!(m.current_game.as_ref().unwrap().app_id, 70);
    assert_eq!(last_message(&m), "Found game: Half-Life");

    m.handle_message(AppMessage::GameNotFound);
    assert!(matches!(&m.state, AppState::Error(e) if e == "Game not found"));
    assert_eq!(last_message(&m), "Game not found for the provided App ID");

    m.handle_message(AppMessage::SearchError("timeout".to_string()));
    assert!(matches!(&m.state, AppState::Error(e) if e == "timeout"));
    assert_eq!(last_message(&m), "Search error: timeout");

    let mut keys = HashMap::new();
    keys.insert(71u32, "aa".to_string());
    keys.insert(72u32, "bb".to_string());
    m.handle_message(AppMessage::DepotKeysFetched(keys));
    assert!(matches!(m.state, AppState::Idle));
    assert_eq!(m.depot_keys.len(), 2);
    assert_eq!(last_message(&m), "Fetched 2 depot keys");

    m.handle_message(AppMessage::DepotKeysError("404".to_string()));
    assert_eq!(last_message(&m), "Failed to fetch depot keys: 404");
    assert_eq!(m.depot_keys.len(), 2);
}

#[test]
fn progress_messages_report_and_complete() {
    let mut m = AppModel::new();
    m.state = AppState::Downloading;
    let p = DownloadProgress::file_progress("a.bin", 1, 4, 100, 400);
    assert_eq!(
        m.handle_message(AppMessage::DownloadProgress(p)),
        Some(ProgressUpdate::Report { bytes_downloaded: 100, bytes_total: 400 })
    );
    assert!(matches!(m.state, AppState::Downloading));
    assert_eq!(last_message(&m), "Downloading a.bin...");
    assert_eq!(
        m.handle_message(AppMessage::DownloadProgress(DownloadProgress::complete())),
        Some(ProgressUpdate::Complete)
    );
    assert!(matches!(m.state, AppState::Idle));
    assert_eq!(last_message(&m), "Download completed!");
}

#[test]
fn depot_keys_are_requested_for_the_game_shown() {
    let mut m = AppModel::new();
    assert_eq!(m.request_depot_keys(), None);
    assert!(m.download_dialog().is_none());
    m.handle_message(AppMessage::GameFound(game(440, "TF2")));
    assert_eq!(m.request_depot_keys(), Some(440));
    assert!(matches!(m.state, AppState::Searching));
    assert_eq!(last_message(&m), "Fetching depot keys for App ID: 440");
    let dialog = m.download_dialog().unwrap();
    assert_eq!(dialog.app_id(), 440);
    assert_eq!(dialog.depot_id(), "441");
    assert_eq!(dialog.install_dir(), "./downloads/440");
    assert!(dialog.verify_download());
}

#[test]
fn download_needs_depot_keys() {
    let mut m = AppModel::new();
    let config = DownloadConfig {
        app_id: 10,
        depot_id: 11,
        install_dir: "/games/cs".to_string(),
        verify: true,
    };
    assert!(!m.start_download(&config));
    assert!(matches!(&m.state, AppState::Error(e)
        if e == "No depot keys found. Please click 'Get Depot Keys' first."));

    m.depot_keys.insert(11, "aa".to_string());
    assert!(m.start_download(&config));
    assert!(matches!(m.state, AppState::Downloading));
    let n = m.log_box.entries().len();
    let tail: Vec<&str> =
        m.log_box.entries().iter().skip(n - 3).map(|e| e.message.as_str()).collect();
    assert_eq!(
        tail,
        vec![
            "Starting download for App ID: 10, Depot ID: 11",
            "Install directory: /games/cs",
            "Using 1 depot keys",
        ]
    );
}

#[test]
fn search_and_download_buttons_are_enabled_when_they_can_act() {
    let mut m = AppModel::new();
    assert!(!m.search_enabled());
    m.app_id_input = "1".to_string();
    assert!(m.search_enabled());
    m.state = AppState::Searching;
    assert!(!m.search_enabled());
    assert!(!m.download_enabled());
    m.depot_keys.insert(1, "k".to_string());
    assert!(m.download_enabled());
}
