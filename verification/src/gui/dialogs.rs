//! The dialogs of the window: what their buttons decide.
use vstd::prelude::*;

use crate::gui::app::AppSettings;
use crate::text::{decimal, decimal_string, parse_u32, parse_u32_spec, push_decimal, push_str};

verus! {

broadcast use vstd::string::group_string_axioms;

/// The dialog that sets up a download.
pub struct DownloadDialog {
    app_id: u32,
    depot_id: String,
    install_dir: String,
    verify_download: bool,
}

/// What a download is set up to do.
#[derive(Debug, Clone)]
pub struct DownloadConfig {
    pub app_id: u32,
    pub depot_id: u32,
    pub install_dir: String,
    pub verify: bool,
}

pub open spec fn downloads_dir_text(app_id: u32) -> Seq<char> {
    "./downloads/"@ + decimal(app_id as nat)
}

impl DownloadDialog {
    pub closed spec fn app(&self) -> u32 {
        self.app_id
    }

    pub closed spec fn depot_text(&self) -> Seq<char> {
        self.depot_id@
    }

    pub closed spec fn dir_text(&self) -> Seq<char> {
        self.install_dir@
    }

    pub closed spec fn verify_checked(&self) -> bool {
        self.verify_download
    }

    /// The dialog for an app: the depot proposed is the app id plus one
    /// (the Windows depot), installed under `./downloads/{app}`, verified.
    pub fn new(app_id: u32) -> (d: Self)
        requires
            app_id < u32::MAX,
        ensures
            d.app() == app_id,
            d.depot_text() == decimal(app_id as nat + 1),
            d.dir_text() == downloads_dir_text(app_id),
            d.verify_checked(),
    {
        let mut install_dir = String::new();
        push_str(&mut install_dir, "./downloads/");
        push_decimal(&mut install_dir, app_id as u64);
        DownloadDialog {
            app_id,
            depot_id: decimal_string((app_id + 1) as u64),
            install_dir,
            verify_download: true,
        }
    }

    /// The app the download is for.
    pub fn app_id(&self) -> (a: u32)
        ensures
            a == self.app(),
    {
        self.app_id
    }

    /// The depot id as typed.
    pub fn depot_id(&self) -> (s: &String)
        ensures
            s@ == self.depot_text(),
    {
        &self.depot_id
    }

    /// Replaces the depot id text.
    pub fn set_depot_id(&mut self, text: String)
        ensures
            final(self).depot_text() == text@,
            final(self).app() == old(self).app(),
            final(self).dir_text() == old(self).dir_text(),
            final(self).verify_checked() == old(self).verify_checked(),
    {
        self.depot_id = text;
    }

    /// The install directory as typed.
    pub fn install_dir(&self) -> (s: &String)
        ensures
            s@ == self.dir_text(),
    {
        &self.install_dir
    }

    /// Replaces the install directory text.
    pub fn set_install_dir(&mut self, text: String)
        ensures
            final(self).dir_text() == text@,
            final(self).app() == old(self).app(),
            final(self).depot_text() == old(self).depot_text(),
            final(self).verify_checked() == old(self).verify_checked(),
    {
        self.install_dir = text;
    }

    /// Whether the download is to be verified.
    pub fn verify_download(&self) -> (b: bool)
        ensures
            b == self.verify_checked(),
    {
        self.verify_download
    }

    /// Sets whether the download is to be verified.
    pub fn set_verify_download(&mut self, on: bool)
        ensures
            final(self).verify_checked() == on,
            final(self).app() == old(self).app(),
            final(self).depot_text() == old(self).depot_text(),
            final(self).dir_text() == old(self).dir_text(),
    {
        self.verify_download = on;
    }

    /// Whether the depot id as typed is a `u32`.
    pub fn depot_id_is_valid(&self) -> (b: bool)
        ensures
            b == (parse_u32_spec(self.depot_text()) is Some),
    {
        parse_u32(self.depot_id.as_str()).is_some()
    }

    /// What the buttons decide: cancelling closes the dialog with nothing;
    /// `Download` with a valid depot id gives the download to start; anything
    /// else leaves the dialog open.
    pub fn submit(&self, download_clicked: bool, cancel_clicked: bool) -> (r: Option<
        DownloadConfig,
    >)
        ensures
            (cancel_clicked || !download_clicked || parse_u32_spec(self.depot_text()) is None)
                ==> r is None,
            (!cancel_clicked && download_clicked && parse_u32_spec(self.depot_text()) is Some)
                ==> (r matches Some(c) && c.app_id == self.app() && Some(c.depot_id)
                == parse_u32_spec(self.depot_text()) && c.install_dir@ == self.dir_text()
                && c.verify == self.verify_checked()),
    {
        if cancel_clicked || !download_clicked {
            return None;
        }
        match parse_u32(self.depot_id.as_str()) {
            Some(depot_id) => Some(
                DownloadConfig {
                    app_id: self.app_id,
                    depot_id,
                    install_dir: self.install_dir.clone(),
                    verify: self.verify_download,
                },
            ),
            None => None,
        }
    }
}

/// The settings dialog.
pub struct SettingsDialog {
    show: bool,
}

impl SettingsDialog {
    pub closed spec fn open(&self) -> bool {
        self.show
    }

    /// A dialog that is shown.
    pub fn new(_settings: &AppSettings) -> (d: Self)
        ensures
            d.open(),
    {
        SettingsDialog { show: true }
    }

    /// Whether the dialog is shown.
    pub fn should_show(&self) -> (b: bool)
        ensures
            b == self.open(),
    {
        self.show
    }

    /// Hides the dialog, as `Save` and `Cancel` do.
    pub fn close(&mut self)
        ensures
            !final(self).open(),
    {
        self.show = false;
    }
}

/// The sign-in dialog.
pub struct LoginDialog {
    username: String,
    password: String,
    use_qr_code: bool,
    remember_password: bool,
}

/// What the sign-in dialog decides.
#[derive(Debug, Clone)]
pub enum LoginResult {
    Anonymous,
    Credentials { username: String, password: String, remember: bool },
    QrCode,
    Cancelled,
}

impl LoginDialog {
    pub closed spec fn user_text(&self) -> Seq<char> {
        self.username@
    }

    pub closed spec fn password_text(&self) -> Seq<char> {
        self.password@
    }

    pub closed spec fn qr(&self) -> bool {
        self.use_qr_code
    }

    pub closed spec fn remember(&self) -> bool {
        self.remember_password
    }

    /// An empty dialog for a user name and password.
    pub fn new() -> (d: Self)
        ensures
            d.user_text() == Seq::<char>::empty(),
            d.password_text() == Seq::<char>::empty(),
            !d.qr(),
            !d.remember(),
    {
        LoginDialog {
            username: String::new(),
            password: String::new(),
            use_qr_code: false,
            remember_password: false,
        }
    }

    /// The user name as typed.
    pub fn username(&self) -> (s: &String)
        ensures
            s@ == self.user_text(),
    {
        &self.username
    }

    /// The password as typed.
    pub fn password(&self) -> (s: &String)
        ensures
            s@ == self.password_text(),
    {
        &self.password
    }

    /// Whether signing in is by QR code.
    pub fn use_qr_code(&self) -> (b: bool)
        ensures
            b == self.qr(),
    {
        self.use_qr_code
    }

    /// Whether the password is to be remembered.
    pub fn remember_password(&self) -> (b: bool)
        ensures
            b == self.remember(),
    {
        self.remember_password
    }

    /// Replaces what the dialog holds, as the user edits it.
    pub fn edit(&mut self, username: String, password: String, use_qr_code: bool, remember: bool)
        ensures
            final(self).user_text() == username@,
            final(self).password_text() == password@,
            final(self).qr() == use_qr_code,
            final(self).remember() == remember,
    {
        self.username = username;
        self.password = password;
        self.use_qr_code = use_qr_code;
        self.remember_password = remember;
    }

    /// What the buttons decide, the last clicked of `Login`, `Anonymous` and
    /// `Cancel` winning: `Login` signs in by QR code when chosen, else with the
    /// user name and password when neither is empty.
    pub fn decide(&self, login_clicked: bool, anonymous_clicked: bool, cancel_clicked: bool) -> (r:
        Option<LoginResult>)
        ensures
            cancel_clicked ==> r matches Some(LoginResult::Cancelled),
            !cancel_clicked && anonymous_clicked ==> r matches Some(LoginResult::Anonymous),
            !cancel_clicked && !anonymous_clicked ==> {
                if login_clicked && self.qr() {
                    r matches Some(LoginResult::QrCode)
                } else if login_clicked && self.user_text().len() > 0
                    && self.password_text().len() > 0 {
                    r matches Some(LoginResult::Credentials { username, password, remember })
                        && username@ == self.user_text() && password@ == self.password_text()
                        && remember == self.remember()
                } else {
                    r is None
                }
            },
    {
        let mut result: Option<LoginResult> = None;
        if login_clicked {
            if self.use_qr_code {
                result = Some(LoginResult::QrCode);
            } else if self.username.as_str().unicode_len() > 0 && self.password.as_str().unicode_len() > 0 {
                result = Some(
                    LoginResult::Credentials {
                        username: self.username.clone(),
                        password: self.password.clone(),
                        remember: self.remember_password,
                    },
                );
            }
        }
        if anonymous_clicked {
            result = Some(LoginResult::Anonymous);
        }
        if cancel_clicked {
            result = Some(LoginResult::Cancelled);
        }
        result
    }
}

/// The dialog that picks one of the depots with a key.
pub struct DepotKeyDialog {
    depot_keys: Vec<(u32, String)>,
    selected_depot: Option<usize>,
}

impl DepotKeyDialog {
    #[verifier::type_invariant]
    closed spec fn selection_in_range(self) -> bool {
        self.selected_depot matches Some(i) ==> i < self.depot_keys@.len()
    }

    pub closed spec fn keys(&self) -> Seq<(u32, String)> {
        self.depot_keys@
    }

    pub closed spec fn selected(&self) -> Option<usize> {
        self.selected_depot
    }

    /// A dialog over the given depots, none selected.
    pub fn new(depot_keys: Vec<(u32, String)>) -> (d: Self)
        ensures
            d.keys() == depot_keys@,
            d.selected() is None,
    {
        DepotKeyDialog { depot_keys, selected_depot: None }
    }

    /// The depots offered.
    pub fn depot_keys(&self) -> (ks: &Vec<(u32, String)>)
        ensures
            ks@ == self.keys(),
    {
        &self.depot_keys
    }

    /// The position of the selected depot.
    pub fn selected_depot(&self) -> (s: Option<usize>)
        ensures
            s == self.selected(),
    {
        self.selected_depot
    }

    /// Selects the depot at `index`, as clicking its label does.
    pub fn select(&mut self, index: usize)
        requires
            index < old(self).keys().len(),
        ensures
            final(self).selected() == Some(index),
            final(self).keys() == old(self).keys(),
    {
        self.selected_depot = Some(index);
    }

    /// What the buttons decide: `Cancel` gives depot 0 with no key; `Select`
    /// with a depot selected gives that depot and its key; otherwise the
    /// dialog stays open.
    pub fn decide(&self, select_clicked: bool, cancel_clicked: bool) -> (r: Option<(u32, String)>)
        ensures
            cancel_clicked ==> (r matches Some(p) && p.0 == 0 && p.1@ == Seq::<char>::empty()),
            !cancel_clicked ==> match (select_clicked, self.selected()) {
                (true, Some(i)) => r matches Some(p) && p.0 == self.keys()[i as int].0 && p.1
                    == self.keys()[i as int].1,
                _ => r is None,
            },
    {
        proof {
            use_type_invariant(self);
        }
        let mut result: Option<(u32, String)> = None;
        if select_clicked {
            match self.selected_depot {
                Some(idx) => {
                    let id = self.depot_keys[idx].0;
                    let key = self.depot_keys[idx].1.clone();
                    result = Some((id, key));
                },
                None => {},
            }
        }
        if cancel_clicked {
            result = Some((0, String::new()));
        }
        result
    }
}

} // verus!
