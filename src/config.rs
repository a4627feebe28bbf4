use vstd::prelude::*;
use vstd::string::*;
use crate::text::{ends_with_char, ends_with_char_spec};

verus! {

/// Name of the remote collection when the configuration sets none.
pub const DEFAULT_REMOTE_ROOT: &'static str = "EndSwitcherBackup";

/// Connection settings of the remote WebDAV store.
#[derive(Debug, Clone)]
pub struct WebDavConfig {
    /// Base URL of the WebDAV endpoint.
    pub url: String,
    /// User name; empty when the endpoint takes no credentials.
    pub username: String,
    /// Password, if any.
    pub password: Option<String>,
    /// Path of the remote collection under the endpoint.
    pub path: Option<String>,
}

/// HTTP Basic credentials: a user name and an optional password.
pub struct BasicAuth {
    pub username: String,
    pub password: Option<String>,
}

pub open spec fn remote_root_spec(c: WebDavConfig) -> Seq<char> {
    match c.path {
        Some(p) => p@,
        None => DEFAULT_REMOTE_ROOT@,
    }
}

/// URL of the remote collection: the endpoint, one `/`, the remote root and a closing `/`.
pub open spec fn collection_url_spec(c: WebDavConfig) -> Seq<char> {
    let sep = if ends_with_char_spec(c.url@, '/') {
        Seq::<char>::empty()
    } else {
        seq!['/']
    };
    c.url@ + sep + remote_root_spec(c) + seq!['/']
}

impl WebDavConfig {
    /// The remote collection's URL.
    pub fn collection_url(&self) -> (r: String)
        ensures
            r@ == collection_url_spec(*self),
    {
        let mut s = self.url.clone();
        if !ends_with_char(self.url.as_str(), '/') {
            s.append("/");
        }
        match &self.path {
            Some(p) => s.append(p.as_str()),
            None => s.append(DEFAULT_REMOTE_ROOT),
        }
        s.append("/");
        proof {
            reveal_strlit("/");
        }
        assert(s@ =~= collection_url_spec(*self));
        s
    }

    /// The credentials to send: the user name and password when a password is set,
    /// the user name alone when it is non-empty, and none otherwise.
    pub fn basic_auth(&self) -> (r: Option<BasicAuth>)
        ensures
            match r {
                Some(a) => a.username@ == self.username@ && a.password == self.password && (
                self.password is Some || self.username@.len() > 0),
                None => self.password is None && self.username@.len() == 0,
            },
    {
        if self.password.is_some() || self.username.unicode_len() > 0 {
            Some(BasicAuth { username: self.username.clone(), password: self.password.clone() })
        } else {
            None
        }
    }
}

} // verus!
