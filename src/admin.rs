//! Records of the administration screens: users, roles, permissions, and
//! the server's answer to a picture upload.

use vstd::prelude::*;
use std::collections::HashSet;
use crate::auth::EmailDetail;
use crate::search::{lower_of, matches_search_fields, text_contains};

verus! {

#[derive(Clone, Debug, Eq, PartialEq, Default)]
pub struct User {
    pub id: i64,
    pub email: String,
    pub username: String,
}

impl User {
    /// Whether the user's row matches the search: always without a needle;
    /// else when the user name or the address contains it, case ignored.
    pub fn matches_search(&self, needle: Option<String>) -> (r: bool)
        ensures
            r == match needle {
                None => true,
                Some(n) => text_contains(lower_of(self.username@), lower_of(n@))
                    || text_contains(lower_of(self.email@), lower_of(n@)),
            },
    {
        matches_search_fields(self.username.as_str(), self.email.as_str(), &needle)
    }
}

#[derive(Clone, Debug, Eq, PartialEq, Default)]
pub struct UserDetail {
    pub id: i64,
    pub emails: Vec<EmailDetail>,
    pub username: String,
    pub roles: Vec<String>,
}

#[derive(Clone, Debug, Eq, PartialEq, Default)]
pub struct Role {
    pub id: i32,
    pub name: String,
    pub description: String,
    pub permissions: Option<Vec<Permission>>,
}

impl Role {
    /// Whether the role's row matches the search: always without a needle;
    /// else when the name or the description contains it, case ignored.
    pub fn matches_search(&self, needle: Option<String>) -> (r: bool)
        ensures
            r == match needle {
                None => true,
                Some(n) => text_contains(lower_of(self.name@), lower_of(n@))
                    || text_contains(lower_of(self.description@), lower_of(n@)),
            },
    {
        matches_search_fields(self.name.as_str(), self.description.as_str(), &needle)
    }
}

#[derive(Debug, Default, PartialEq, Eq)]
pub struct RoleInfo {
    pub id: Option<i32>,
    pub name: String,
    pub description: String,
    pub permissions: HashSet<String>,
}

#[derive(Clone, Debug, Default, PartialEq, Eq)]
pub struct RoleId {
    pub id: i32,
}

#[derive(Clone, Debug, Eq, PartialEq, Default)]
pub struct Permission {
    pub id: i32,
    pub name: String,
    pub description: String,
}

/// The server's answer to a picture upload.
#[derive(Clone, Debug, Eq, PartialEq, Default)]
pub struct PictureUpload {
    pub error: Option<String>,
    pub path: Option<String>,
}

/// Reason given for an upload answer that holds neither a path nor an error.
pub const NO_PATH_REASON: &'static str = "the server returned no path";

impl PictureUpload {
    /// The outcome of the upload: the stored path when the answer has one;
    /// otherwise the server's error, or a fixed reason when it gave none.
    pub fn outcome(&self) -> (r: Result<String, String>)
        ensures
            match self.path {
                Some(p) => r matches Ok(q) && q@ == p@,
                None => match self.error {
                    Some(e) => r matches Err(q) && q@ == e@,
                    None => r matches Err(q) && q@ == NO_PATH_REASON@,
                },
            },
    {
        match &self.path {
            Some(p) => Ok(p.clone()),
            None => match &self.error {
                Some(e) => Err(e.clone()),
                None => Err(String::from_str(NO_PATH_REASON)),
            },
        }
    }
}

} // verus!
