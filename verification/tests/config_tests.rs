use depot_downloader::config::credentials::Credentials;
use depot_downloader::config::settings::Settings;

#[test]
fn new_credentials_are_empty() {
    let c = Credentials::new();
    assert!(c.username.is_none());
    assert!(c.encrypted_password.is_none());
    assert!(c.refresh_token.is_none());
    assert!(c.last_login.is_none());
    assert!(!c.has_saved_credentials());
    assert!(c.get_password().is_none());
    assert!(Credentials::default().username.is_none());
}

#[test]
fn password_is_kept_as_its_bytes_and_read_back() {
    let mut c = Credentials::new();
    c.set_credentials("alice".to_string(), "pässwörd".to_string());
    assert_eq!(c.username.as_deref(), Some("alice"));
    assert_eq!(c.encrypted_password.as_deref(), Some("pässwörd".as_bytes()));
    assert_eq!(c.get_password().as_deref(), Some("pässwörd"));
    assert!(c.has_saved_credentials());
}

#[test]
fn invalid_password_bytes_are_replaced() {
    let mut c = Credentials::new();
    c.encrypted_password = Some(vec![b'a', 0xff, b'b']);
    assert_eq!(c.get_password().as_deref(), Some("a\u{fffd}b"));
}

#[test]
fn saved_credentials_need_a_user_and_a_secret() {
    let mut c = Credentials::new();
    c.username = Some("u".to_string());
    assert!(!c.has_saved_credentials());
    c.refresh_token = Some("t".to_string());
    assert!(c.has_saved_credentials());
    c.username = None;
    assert!(!c.has_saved_credentials());
}

#[test]
fn clear_forgets_everything() {
    let mut c = Credentials::new();
    c.set_credentials("u".to_string(), "p".to_string());
    c.refresh_token = Some("t".to_string());
    c.last_login = Some("2024-01-01T00:00:00Z".to_string());
    c.clear();
    assert!(c.username.is_none());
    assert!(c.encrypted_password.is_none());
    assert!(c.refresh_token.is_none());
    assert!(c.last_login.is_none());
}

#[test]
fn default_settings_in_given_directories() {
    let s = Settings::default_in(Some("/cfg".to_string()), Some("/dl".to_string()));
    assert_eq!(s.manifest_repo_url, "https://github.com/SteamAutoCracks/ManifestHub");
    assert_eq!(s.local_manifest_path, "/cfg/depot_downloader/manifests");
    assert_eq!(s.output_directory, "/dl/depot_downloader");
    assert_eq!(s.max_concurrent_downloads, 8);
    assert!(s.verify_downloads);
    assert!(!s.save_credentials);
}

#[test]
fn default_settings_without_directories_use_the_current_one() {
    let s = Settings::default_in(None, None);
    assert_eq!(s.local_manifest_path, "./depot_downloader/manifests");
    assert_eq!(s.output_directory, "./depot_downloader");
}

#[test]
fn new_settings_are_the_defaults() {
    let s = Settings::new();
    assert!(s.local_manifest_path.ends_with("depot_downloader/manifests"));
    assert!(s.output_directory.ends_with("depot_downloader"));
    assert_eq!(Settings::default().max_concurrent_downloads, 8);
}
