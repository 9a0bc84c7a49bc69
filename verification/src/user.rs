//! Campus-network user credentials.
//!
//! Credentials arrive from several sources (command line, config file,
//! interactive prompts) with a fixed priority. The merging rules live here;
//! reading files and prompting are the caller's business.

use vstd::prelude::*;

verus! {

/// Finalized credentials: every field resolved.
#[derive(Debug)]
pub struct BitUser {
    pub username: String,
    pub password: String,
    pub dm: bool,
}

/// Partial credentials: any field may still be missing.
#[derive(Debug)]
pub struct BitUserPartial {
    pub username: Option<String>,
    pub password: Option<String>,
    pub dm: Option<bool>,
}

impl Default for BitUserPartial {
    /// All fields absent.
    fn default() -> (user: Self)
        ensures
            user.username is None,
            user.password is None,
            user.dm is None,
    {
        BitUserPartial { username: None, password: None, dm: None }
    }
}

impl BitUserPartial {
    /// Wrap the given sources unchanged.
    pub fn new(username: &Option<String>, password: &Option<String>, dm: Option<bool>) -> (user:
        Self)
        ensures
            user.username.deep_view() == username.deep_view(),
            user.password.deep_view() == password.deep_view(),
            user.dm == dm,
    {
        let u = match username {
            Some(name) => Some(name.clone()),
            None => None,
        };
        let p = match password {
            Some(word) => Some(word.clone()),
            None => None,
        };
        BitUserPartial { username: u, password: p, dm }
    }

    /// Whether another credential source must be consulted: the username is
    /// missing, or a password is required but missing.
    pub fn needs_supplement(&self, require_password: bool) -> (needed: bool)
        ensures
            needed == (self.username is None || (require_password && self.password is None)),
    {
        self.username.is_none() || (require_password && self.password.is_none())
    }

    /// Fill the missing fields from a lower-priority source; fields already
    /// present win.
    pub fn supplement(self, fallback: BitUserPartial) -> (merged: BitUserPartial)
        ensures
            merged.username.deep_view() == if self.username is Some {
                self.username.deep_view()
            } else {
                fallback.username.deep_view()
            },
            merged.password.deep_view() == if self.password is Some {
                self.password.deep_view()
            } else {
                fallback.password.deep_view()
            },
            merged.dm == if self.dm is Some {
                self.dm
            } else {
                fallback.dm
            },
    {
        let username = match self.username {
            Some(name) => Some(name),
            None => fallback.username,
        };
        let password = match self.password {
            Some(word) => Some(word),
            None => fallback.password,
        };
        let dm = match self.dm {
            Some(flag) => Some(flag),
            None => fallback.dm,
        };
        BitUserPartial { username, password, dm }
    }

    /// Resolve every field, defaulting the missing ones (empty strings,
    /// `dm` off).
    pub fn finalize(self) -> (user: BitUser)
        ensures
            user.username@ == match self.username {
                Some(name) => name@,
                None => Seq::<char>::empty(),
            },
            user.password@ == match self.password {
                Some(word) => word@,
                None => Seq::<char>::empty(),
            },
            user.dm == match self.dm {
                Some(flag) => flag,
                None => false,
            },
    {
        let username = match self.username {
            Some(name) => name,
            None => String::new(),
        };
        let password = match self.password {
            Some(word) => word,
            None => String::new(),
        };
        let dm = match self.dm {
            Some(flag) => flag,
            None => false,
        };
        BitUser { username, password, dm }
    }
}

/// Whether the logout-endpoint warning is due: no endpoint choice came from
/// the config file and none was given on the command line.
pub fn logout_endpoint_unspecified(file_dm: &Option<bool>, dm: bool) -> (warn: bool)
    ensures
        warn == (file_dm is None && !dm),
{
    file_dm.is_none() && !dm
}

} // verus!
