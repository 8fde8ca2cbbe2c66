//! The Steam credentials kept between runs.
use vstd::prelude::*;
use vstd::utf8::{decode_utf8, encode_utf8, valid_utf8};

verus! {

broadcast use {vstd::string::group_string_axioms, vstd::utf8::group_utf8_lib};

/// The text that `String::from_utf8_lossy` makes of a byte sequence.
pub uninterp spec fn utf8_lossy(bytes: Seq<u8>) -> Seq<char>;

/// `String::from_utf8_lossy(bytes).to_string()`. std documents that bytes
/// that are valid UTF-8 give the text they encode, and that invalid
/// sequences are replaced by U+FFFD; that replacement is left to the name
/// `utf8_lossy`.
#[verifier::external_body]
fn string_from_utf8_lossy(bytes: &[u8]) -> (s: String)
    ensures
        s@ == utf8_lossy(bytes@),
        valid_utf8(bytes@) ==> s@ == decode_utf8(bytes@),
{
    String::from_utf8_lossy(bytes).to_string()
}

/// The credentials kept between runs.
#[derive(Debug, Clone)]
pub struct Credentials {
    pub username: Option<String>,
    pub encrypted_password: Option<Vec<u8>>,
    pub refresh_token: Option<String>,
    /// The time of the last sign-in, as RFC 3339 text in UTC.
    pub last_login: Option<String>,
}

impl Default for Credentials {
    fn default() -> (c: Self)
        ensures
            c.username is None,
            c.encrypted_password is None,
            c.refresh_token is None,
            c.last_login is None,
    {
        Credentials {
            username: None,
            encrypted_password: None,
            refresh_token: None,
            last_login: None,
        }
    }
}

impl Credentials {
    /// No credentials.
    pub fn new() -> (c: Self)
        ensures
            c.username is None,
            c.encrypted_password is None,
            c.refresh_token is None,
            c.last_login is None,
    {
        Credentials {
            username: None,
            encrypted_password: None,
            refresh_token: None,
            last_login: None,
        }
    }

    /// Forgets every credential.
    pub fn clear(&mut self)
        ensures
            final(self).username is None,
            final(self).encrypted_password is None,
            final(self).refresh_token is None,
            final(self).last_login is None,
    {
        self.username = None;
        self.encrypted_password = None;
        self.refresh_token = None;
        self.last_login = None;
    }

    /// There is a user name, and a password or a refresh token.
    pub fn has_saved_credentials(&self) -> (b: bool)
        ensures
            b == (self.username is Some && (self.encrypted_password is Some
                || self.refresh_token is Some)),
    {
        self.username.is_some() && (self.encrypted_password.is_some()
            || self.refresh_token.is_some())
    }

    /// Keeps a user name and the UTF-8 bytes of a password.
    pub fn set_credentials(&mut self, username: String, password: String)
        ensures
            final(self).username == Some(username),
            final(self).encrypted_password matches Some(b) && b@ == encode_utf8(password@),
            final(self).refresh_token == old(self).refresh_token,
            final(self).last_login == old(self).last_login,
    {
        let bytes = password.as_str().as_bytes();
        let mut kept: Vec<u8> = Vec::new();
        let mut i: usize = 0;
        while i < bytes.len()
            invariant
                i <= bytes.len(),
                kept@ == bytes@.take(i as int),
            decreases bytes.len() - i,
        {
            kept.push(bytes[i]);
            i = i + 1;
            assert(kept@ =~= bytes@.take(i as int));
        }
        assert(bytes@.take(bytes.len() as int) =~= bytes@);
        self.username = Some(username);
        self.encrypted_password = Some(kept);
    }

    /// The kept password, read as UTF-8 with invalid bytes replaced.
    pub fn get_password(&self) -> (p: Option<String>)
        ensures
            match self.encrypted_password {
                Some(b) => p matches Some(s) && s@ == utf8_lossy(b@) && (valid_utf8(b@) ==> s@
                    == decode_utf8(b@)),
                None => p is None,
            },
    {
        match &self.encrypted_password {
            Some(bytes) => Some(string_from_utf8_lossy(bytes.as_slice())),
            None => None,
        }
    }
}

/// The password kept by `set_credentials` is the one `get_password` gives
/// back.
pub proof fn law_password_roundtrip(password: Seq<char>)
    ensures
        valid_utf8(encode_utf8(password)),
        decode_utf8(encode_utf8(password)) == password,
{
}

} // verus!
