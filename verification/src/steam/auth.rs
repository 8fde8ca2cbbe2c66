//! Steam sign-in: the stored credentials, the way to sign in that they
//! allow, and the session that signing in gives.
use vstd::prelude::*;

use crate::manifest::store::base_or_current;
use crate::paths::{config_dir, join_path, join_twice_result, kept_component, lemma_join_twice};

verus! {

broadcast use vstd::string::group_string_axioms;

/// A way to sign in to Steam.
#[derive(Debug, Clone)]
pub enum AuthMethod {
    Anonymous,
    Credentials { username: String, password: String },
    QrCode,
    Token { username: String, token: String },
}

/// The credentials kept for signing in.
#[derive(Debug, Clone)]
pub struct SteamCredentials {
    pub username: Option<String>,
    pub password: Option<String>,
    pub token: Option<String>,
}

/// Signing in to Steam with stored credentials.
pub struct SteamAuth {
    credentials: SteamCredentials,
    config_path: String,
}

/// The session that signing in gives.
#[derive(Debug, Clone)]
pub enum AuthSession {
    Anonymous,
    Authenticated { username: String, token: Option<String> },
    QrPending,
    Failed(String),
}

pub open spec fn app_dir_name() -> Seq<char> {
    seq!['d', 'e', 'p', 'o', 't', '_', 'd', 'o', 'w', 'n', 'l', 'o', 'a', 'd', 'e', 'r']
}

pub open spec fn account_file_name() -> Seq<char> {
    seq!['a', 'c', 'c', 'o', 'u', 'n', 't', '.', 'c', 'o', 'n', 'f', 'i', 'g']
}

/// `path` is `depot_downloader/account.config` under the base directory.
pub open spec fn account_config_path_under(base: Seq<char>, path: Seq<char>) -> bool {
    join_twice_result(base, app_dir_name(), account_file_name(), path)
}

/// The way of signing in that credentials allow: a token when there are a
/// user name and a token, else a password when there are a user name and a
/// password, else anonymous.
pub open spec fn auth_method_for(c: SteamCredentials) -> AuthMethod {
    match (c.username, c.token) {
        (Some(u), Some(t)) => AuthMethod::Token { username: u, token: t },
        _ => match (c.username, c.password) {
            (Some(u), Some(p)) => AuthMethod::Credentials { username: u, password: p },
            _ => AuthMethod::Anonymous,
        },
    }
}

/// The session that signing in by `method` gives.
pub open spec fn session_for(method: AuthMethod) -> AuthSession {
    match method {
        AuthMethod::Anonymous => AuthSession::Anonymous,
        AuthMethod::Credentials { username, password } => AuthSession::Authenticated {
            username,
            token: None,
        },
        AuthMethod::QrCode => AuthSession::QrPending,
        AuthMethod::Token { username, token } => AuthSession::Authenticated {
            username,
            token: Some(token),
        },
    }
}

/// The way of signing in follows what is stored: a stored user name and
/// token sign in by token whatever password is stored; without a token, a
/// stored user name and password sign in by password; without a user name,
/// or with neither a token nor a password, sign-in is anonymous.
pub proof fn law_auth_method_from_credentials(c: SteamCredentials)
    ensures
        (c.username is Some && c.token is Some) ==> auth_method_for(c) == (AuthMethod::Token {
            username: c.username.unwrap(),
            token: c.token.unwrap(),
        }),
        (c.username is Some && c.token is None && c.password is Some) ==> auth_method_for(c)
            == (AuthMethod::Credentials {
            username: c.username.unwrap(),
            password: c.password.unwrap(),
        }),
        c.username is None ==> auth_method_for(c) == AuthMethod::Anonymous,
        (c.token is None && c.password is None) ==> auth_method_for(c) == AuthMethod::Anonymous,
{
}

impl SteamAuth {
    /// The stored credentials.
    pub closed spec fn stored(&self) -> SteamCredentials {
        self.credentials
    }

    /// Where the credentials are kept.
    pub closed spec fn path(&self) -> Seq<char> {
        self.config_path@
    }

    /// `depot_downloader/account.config` under a configuration directory, or
    /// under the current directory when there is none.
    pub fn config_path_in(config: Option<String>) -> (path: String)
        ensures
            account_config_path_under(base_or_current(config), path@),
    {
        proof {
            reveal_strlit(".");
            reveal_strlit("depot_downloader");
            reveal_strlit("account.config");
            assert(kept_component(app_dir_name()));
            assert(kept_component(account_file_name()));
        }
        let base = match config {
            Some(c) => c,
            None => String::from_str("."),
        };
        assert(base@ == base_or_current(config));
        assert("depot_downloader"@ =~= app_dir_name());
        assert("account.config"@ =~= account_file_name());
        let mid = join_path(base.as_str(), "depot_downloader");
        let path = join_path(mid.as_str(), "account.config");
        proof {
            lemma_join_twice(base@, app_dir_name(), account_file_name(), mid@, path@);
        }
        path
    }

    /// No stored credentials, kept under the user's configuration directory.
    pub fn new() -> (a: Self)
        ensures
            a.stored() == (SteamCredentials { username: None, password: None, token: None }),
            exists|base: Seq<char>| account_config_path_under(base, a.path()),
    {
        let config = config_dir();
        let ghost base = base_or_current(config);
        let config_path = Self::config_path_in(config);
        let a = SteamAuth {
            credentials: SteamCredentials { username: None, password: None, token: None },
            config_path,
        };
        assert(account_config_path_under(base, a.path()));
        a
    }

    /// A user name and password, kept under the user's configuration
    /// directory.
    pub fn with_credentials(username: String, password: String) -> (a: Self)
        ensures
            a.stored() == (SteamCredentials {
                username: Some(username),
                password: Some(password),
                token: None,
            }),
            exists|base: Seq<char>| account_config_path_under(base, a.path()),
    {
        let config = config_dir();
        let ghost base = base_or_current(config);
        let config_path = Self::config_path_in(config);
        let a = SteamAuth {
            credentials: SteamCredentials {
                username: Some(username),
                password: Some(password),
                token: None,
            },
            config_path,
        };
        assert(account_config_path_under(base, a.path()));
        a
    }

    /// The stored credentials.
    pub fn credentials(&self) -> (c: &SteamCredentials)
        ensures
            *c == self.stored(),
    {
        &self.credentials
    }

    /// Replaces the stored credentials.
    pub fn set_stored_credentials(&mut self, credentials: SteamCredentials)
        ensures
            final(self).stored() == credentials,
            final(self).path() == old(self).path(),
    {
        self.credentials = credentials;
    }

    /// Where the credentials are kept.
    pub fn config_path(&self) -> (p: &String)
        ensures
            p@ == self.path(),
    {
        &self.config_path
    }

    /// The way of signing in that the stored credentials allow.
    pub fn get_auth_method(&self) -> (m: AuthMethod)
        ensures
            m == auth_method_for(self.stored()),
    {
        match (&self.credentials.username, &self.credentials.token) {
            (Some(username), Some(token)) => {
                return AuthMethod::Token { username: username.clone(), token: token.clone() };
            },
            _ => {},
        }
        match (&self.credentials.username, &self.credentials.password) {
            (Some(username), Some(password)) => AuthMethod::Credentials {
                username: username.clone(),
                password: password.clone(),
            },
            _ => AuthMethod::Anonymous,
        }
    }

    /// Signs in by `method`: anonymously, as the user of a password or a
    /// token, or by a QR code that is then pending.
    pub fn authenticate(&self, method: AuthMethod) -> (s: AuthSession)
        ensures
            s == session_for(method),
    {
        match method {
            AuthMethod::Anonymous => AuthSession::Anonymous,
            AuthMethod::Credentials { username, password } => AuthSession::Authenticated {
                username,
                token: None,
            },
            AuthMethod::QrCode => AuthSession::QrPending,
            AuthMethod::Token { username, token } => AuthSession::Authenticated {
                username,
                token: Some(token),
            },
        }
    }
}

impl AuthSession {
    /// The session belongs to a signed-in user.
    pub fn is_authenticated(&self) -> (b: bool)
        ensures
            b == (*self is Authenticated),
    {
        match self {
            AuthSession::Authenticated { .. } => true,
            _ => false,
        }
    }

    /// The user of a signed-in session.
    pub fn get_username(&self) -> (u: Option<&str>)
        ensures
            match *self {
                AuthSession::Authenticated { username, .. } => u matches Some(s) && s@
                    == username@,
                _ => u is None,
            },
    {
        match self {
            AuthSession::Authenticated { username, .. } => Some(username.as_str()),
            _ => None,
        }
    }
}

} // verus!
