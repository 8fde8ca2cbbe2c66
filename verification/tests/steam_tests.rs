use depot_downloader::steam::auth::{AuthMethod, AuthSession, SteamAuth, SteamCredentials};
use depot_downloader::steam::session::{SessionError, SteamSession};
use depot_downloader::steam::web_api::{
    answer_status, game_info_from_answer, game_info_from_entry, GameData, ReleaseDate,
    SteamApiResponse, WebApiError,
};

fn creds(u: Option<&str>, p: Option<&str>, t: Option<&str>) -> SteamCredentials {
    SteamCredentials {
        username: u.map(String::from),
        password: p.map(String::from),
        token: t.map(String::from),
    }
}

#[test]
fn auth_method_prefers_token_then_password() {
    let mut auth = SteamAuth::new();
    assert!(matches!(auth.get_auth_method(), AuthMethod::Anonymous));

    auth.set_stored_credentials(creds(Some("u"), Some("p"), Some("t")));
    match auth.get_auth_method() {
        AuthMethod::Token { username, token } => {
            assert_eq!(username, "u");
            assert_eq!(token, "t");
        }
        other => panic!("expected a token, got {:?}", other),
    }

    auth.set_stored_credentials(creds(Some("u"), Some("p"), None));
    assert!(matches!(auth.get_auth_method(), AuthMethod::Credentials { .. }));

    auth.set_stored_credentials(creds(None, Some("p"), Some("t")));
    assert!(matches!(auth.get_auth_method(), AuthMethod::Anonymous));
}

#[test]
fn with_credentials_signs_in_by_password() {
    let auth = SteamAuth::with_credentials("alice".to_string(), "secret".to_string());
    assert_eq!(auth.credentials().username.as_deref(), Some("alice"));
    assert!(auth.credentials().token.is_none());
    match auth.get_auth_method() {
        AuthMethod::Credentials { username, password } => {
            assert_eq!(username, "alice");
            assert_eq!(password, "secret");
        }
        other => panic!("expected credentials, got {:?}", other),
    }
    assert!(auth.config_path().ends_with("depot_downloader/account.config"));
}

#[test]
fn config_path_in_joins_the_account_file() {
    assert_eq!(
        SteamAuth::config_path_in(Some("/cfg".to_string())),
        "/cfg/depot_downloader/account.config"
    );
    assert_eq!(SteamAuth::config_path_in(None), "./depot_downloader/account.config");
}

#[test]
fn authenticate_gives_the_session_of_each_method() {
    let auth = SteamAuth::new();
    assert!(matches!(auth.authenticate(AuthMethod::Anonymous), AuthSession::Anonymous));
    assert!(matches!(auth.authenticate(AuthMethod::QrCode), AuthSession::QrPending));
    let s = auth.authenticate(AuthMethod::Credentials {
        username: "bob".to_string(),
        password: "pw".to_string(),
    });
    assert!(s.is_authenticated());
    assert_eq!(s.get_username(), Some("bob"));
    match auth.authenticate(AuthMethod::Token { username: "c".to_string(), token: "tk".to_string() }) {
        AuthSession::Authenticated { username, token } => {
            assert_eq!(username, "c");
            assert_eq!(token.as_deref(), Some("tk"));
        }
        other => panic!("expected a signed-in session, got {:?}", other),
    }
}

#[test]
fn only_signed_in_sessions_have_a_user() {
    assert!(!AuthSession::Anonymous.is_authenticated());
    assert!(AuthSession::Anonymous.get_username().is_none());
    assert!(!AuthSession::QrPending.is_authenticated());
    assert!(!AuthSession::Failed("x".to_string()).is_authenticated());
    assert!(AuthSession::Failed("x".to_string()).get_username().is_none());
}

#[test]
fn session_connect_and_disconnect() {
    let mut s = SteamSession::new();
    assert!(!s.is_connected());
    assert!(!s.is_authenticated());
    assert!(s.get_session().is_none());

    s.connect_anonymous();
    assert!(s.is_connected());
    assert!(!s.is_authenticated());
    assert!(matches!(s.get_session(), Some(AuthSession::Anonymous)));

    s.connect(AuthMethod::Credentials { username: "u".to_string(), password: "p".to_string() });
    assert!(s.is_authenticated());

    s.add_depot_key(5, vec![1, 2]);
    s.disconnect();
    assert!(!s.is_connected());
    assert!(s.get_session().is_none());
    assert!(!s.has_depot_key(5));
}

#[test]
fn session_keys_are_given_back() {
    let mut s = SteamSession::default();
    assert_eq!(s.request_depot_key(7), Err(SessionError::DepotKeyNotAvailable(7)));
    s.add_depot_key(7, vec![9, 8, 7]);
    s.add_depot_key(8, vec![1]);
    assert!(s.has_depot_key(7));
    assert_eq!(s.request_depot_key(7), Ok(vec![9, 8, 7]));
    s.add_depot_key(7, vec![0]);
    assert_eq!(s.request_depot_key(7), Ok(vec![0]));
    assert_eq!(s.request_depot_key(8), Ok(vec![1]));
    s.tick();
    assert_eq!(s.request_depot_key(8), Ok(vec![1]));
}

#[test]
fn session_with_auth_signs_in_with_its_credentials() {
    let auth = SteamAuth::with_credentials("x".to_string(), "y".to_string());
    let mut s = SteamSession::new_with_auth(auth);
    assert!(!s.is_connected());
    s.connect(AuthMethod::Token { username: "x".to_string(), token: "t".to_string() });
    assert_eq!(s.get_session().unwrap().get_username(), Some("x"));
}

fn data(name: &str) -> GameData {
    GameData {
        name: name.to_string(),
        short_description: Some("A game".to_string()),
        header_image: Some("http://img".to_string()),
        developers: Some(vec!["Dev".to_string()]),
        publishers: None,
        release_date: Some(ReleaseDate { date: Some("1 Jan, 2000".to_string()) }),
    }
}

#[test]
fn game_info_from_a_successful_entry() {
    let entry = SteamApiResponse { success: true, data: Some(data("Half-Life")) };
    let info = game_info_from_entry(70, Some(entry)).unwrap().unwrap();
    assert_eq!(info.app_id, 70);
    assert_eq!(info.name, "Half-Life");
    assert_eq!(info.description, "A game");
    assert_eq!(info.header_image.as_deref(), Some("http://img"));
    assert_eq!(info.developers, vec!["Dev".to_string()]);
    assert!(info.publishers.is_empty());
    assert_eq!(info.release_date.as_deref(), Some("1 Jan, 2000"));
}

#[test]
fn game_info_missing_parts_are_empty() {
    let bare = GameData {
        name: "N".to_string(),
        short_description: None,
        header_image: None,
        developers: None,
        publishers: None,
        release_date: Some(ReleaseDate { date: None }),
    };
    let info = game_info_from_entry(1, Some(SteamApiResponse { success: true, data: Some(bare) }))
        .unwrap()
        .unwrap();
    assert_eq!(info.description, "");
    assert!(info.developers.is_empty());
    assert!(info.release_date.is_none());
}

#[test]
fn game_info_from_a_failed_or_missing_entry() {
    assert!(game_info_from_entry(1, Some(SteamApiResponse { success: false, data: Some(data("x")) }))
        .unwrap()
        .is_none());
    assert!(game_info_from_entry(1, Some(SteamApiResponse { success: true, data: None }))
        .unwrap()
        .is_none());
    assert_eq!(game_info_from_entry(42, None).unwrap_err(), WebApiError::NoDataForApp(42));
}

#[test]
fn game_info_from_an_answer_by_app_id() {
    let entries = vec![
        ("10".to_string(), SteamApiResponse { success: true, data: Some(data("Other")) }),
        ("70".to_string(), SteamApiResponse { success: true, data: Some(data("Half-Life")) }),
    ];
    let info = game_info_from_answer(70, entries.clone()).unwrap().unwrap();
    assert_eq!(info.name, "Half-Life");
    assert_eq!(info.app_id, 70);
    assert_eq!(game_info_from_answer(20, entries).unwrap_err(), WebApiError::NoDataForApp(20));
    assert_eq!(game_info_from_answer(5, vec![]).unwrap_err(), WebApiError::NoDataForApp(5));
    let failed = vec![("5".to_string(), SteamApiResponse { success: false, data: None })];
    assert!(game_info_from_answer(5, failed).unwrap().is_none());
}

#[test]
fn store_answer_status() {
    assert_eq!(answer_status(200), Ok(()));
    assert_eq!(answer_status(403), Err(WebApiError::HttpStatus(403)));
}
