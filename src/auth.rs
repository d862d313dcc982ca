//! Account records exchanged with the server, and what the UI derives
//! from the signed-in user.

use vstd::prelude::*;
use crate::search::same_text;

verus! {

#[derive(Clone, Debug, Default)]
pub struct LoginInfo {
    pub username: String,
    pub password: String,
}

#[derive(Clone, Debug)]
pub struct LoginInfoWrapper {
    pub user: LoginInfo,
}

#[derive(Clone, Debug, Default)]
pub struct RegisterInfo {
    pub username: String,
    pub password: String,
    pub email: String,
}

#[derive(Clone, Debug, Default)]
pub struct EmailResendInfo {
    pub user_id: i64,
    pub email: String,
}

#[derive(Clone, Debug, Default, Eq, PartialEq)]
pub struct ApiResult {
    pub result: String,
}

#[derive(Clone, Debug, Default, Eq, PartialEq)]
pub struct EmailConfirmationResult {
    pub result: String,
    pub email: Option<String>,
}

#[derive(Clone, Debug, Eq, PartialEq, Default)]
pub struct RegisterResponse {
    pub result: String,
    pub data: Option<UserInfo>,
}

#[derive(Clone, Debug)]
pub struct RegisterInfoWrapper {
    pub user: RegisterInfo,
}

/// One e-mail address of a user.
#[derive(Clone, Debug, Eq, PartialEq, Default)]
pub struct EmailDetail {
    pub email: String,
    pub verified: bool,
    pub primary: bool,
}

pub ghost struct EmailView {
    pub email: Seq<char>,
    pub verified: bool,
    pub primary: bool,
}

impl View for EmailDetail {
    type V = EmailView;

    open spec fn view(&self) -> EmailView {
        EmailView { email: self.email@, verified: self.verified, primary: self.primary }
    }
}

pub open spec fn email_views(v: Seq<EmailDetail>) -> Seq<EmailView> {
    v.map_values(|e: EmailDetail| e@)
}

/// The signed-in user.
#[derive(Clone, Debug, Eq, PartialEq, Default)]
pub struct UserInfo {
    pub id: i64,
    pub token: String,
    pub username: String,
    pub emails: Vec<EmailDetail>,
    pub permissions: Vec<String>,
}

/// The unverified addresses of `s` whose primary flag is `primary`, in order.
pub open spec fn unverified_with(s: Seq<EmailView>, primary: bool) -> Seq<Seq<char>>
    decreases s.len(),
{
    if s.len() == 0 {
        Seq::empty()
    } else {
        let rest = unverified_with(s.drop_last(), primary);
        if !s.last().verified && s.last().primary == primary {
            rest.push(s.last().email)
        } else {
            rest
        }
    }
}

/// The permission that grants every other.
pub const ALL_PERMISSIONS: &'static str = "*";

/// Whether `perms` grants `permission`: it lists it, or lists the wildcard.
pub open spec fn grants(perms: Seq<String>, permission: Seq<char>) -> bool {
    exists|i: int| 0 <= i < perms.len() && (#[trigger] perms[i]@ == ALL_PERMISSIONS@ || perms[i]@ == permission)
}

/// The section of the administration area a user lands on.
#[derive(Clone, Copy, Debug, PartialEq, Eq)]
pub enum AdminSection {
    Users,
    Roles,
    Investments,
    /// None is open to the user, who is sent home.
    Unauthorized,
}

impl UserInfo {
    /// Whether the user holds `permission`, directly or through the
    /// wildcard.
    pub fn check_permission(&self, permission: &str) -> (r: bool)
        ensures
            r == grants(self.permissions@, permission@),
    {
        let mut i: usize = 0;
        while i < self.permissions.len()
            invariant
                i <= self.permissions@.len(),
                forall|k: int| 0 <= k < i ==> !(#[trigger] self.permissions@[k]@ == ALL_PERMISSIONS@
                    || self.permissions@[k]@ == permission@),
            decreases self.permissions@.len() - i,
        {
            let p = self.permissions[i].as_str();
            if same_text(p, ALL_PERMISSIONS) || same_text(p, permission) {
                return true;
            }
            i = i + 1;
        }
        false
    }

    /// The first section the user may list: users, then roles, then
    /// investments.
    pub fn default_admin_section(&self) -> (r: AdminSection)
        ensures
            r == if grants(self.permissions@, "list_users"@) {
                AdminSection::Users
            } else if grants(self.permissions@, "list_roles"@) {
                AdminSection::Roles
            } else if grants(self.permissions@, "list_investments"@) {
                AdminSection::Investments
            } else {
                AdminSection::Unauthorized
            },
    {
        if self.check_permission("list_users") {
            AdminSection::Users
        } else if self.check_permission("list_roles") {
            AdminSection::Roles
        } else if self.check_permission("list_investments") {
            AdminSection::Investments
        } else {
            AdminSection::Unauthorized
        }
    }

    /// A user is signed in while a session token is held.
    pub fn is_authenticated(&self) -> (r: bool)
        ensures
            r == (self.token@.len() > 0),
    {
        !self.token.as_str().is_empty()
    }

    /// The first address marked primary, if any.
    pub fn primary_email(&self) -> (r: Option<String>)
        ensures
            match r {
                Some(e) => exists|i: int|
                    0 <= i < self.emails@.len() && self.emails@[i].primary && e@ == self.emails@[i].email@
                        && forall|k: int| 0 <= k < i ==> !(#[trigger] self.emails@[k]).primary,
                None => forall|k: int| 0 <= k < self.emails@.len() ==> !(#[trigger] self.emails@[k]).primary,
            },
    {
        let mut i: usize = 0;
        while i < self.emails.len()
            invariant
                i <= self.emails@.len(),
                forall|k: int| 0 <= k < i ==> !(#[trigger] self.emails@[k]).primary,
            decreases self.emails@.len() - i,
        {
            if self.emails[i].primary {
                return Some(self.emails[i].email.clone());
            }
            i = i + 1;
        }
        None
    }

    /// The unverified addresses, the non-primary ones first, each group in
    /// the order the user has them.
    pub fn non_validated_emails(&self) -> (r: Vec<String>)
        ensures
            r@.map_values(|s: String| s@) == unverified_with(email_views(self.emails@), false)
                + unverified_with(email_views(self.emails@), true),
    {
        let ghost es = email_views(self.emails@);
        let mut r: Vec<String> = Vec::new();
        let mut pass: usize = 0;
        while pass < 2
            invariant
                pass <= 2,
                es == email_views(self.emails@),
                r@.map_values(|s: String| s@) == if pass == 0 {
                    Seq::empty()
                } else if pass == 1 {
                    unverified_with(es, false)
                } else {
                    unverified_with(es, false) + unverified_with(es, true)
                },
            decreases 2 - pass,
        {
            let primary = pass == 1;
            let ghost start = r@.map_values(|s: String| s@);
            let mut i: usize = 0;
            while i < self.emails.len()
                invariant
                    i <= self.emails@.len(),
                    es == email_views(self.emails@),
                    r@.map_values(|s: String| s@) == start + unverified_with(es.subrange(0, i as int), primary),
                decreases self.emails@.len() - i,
            {
                let ghost before = r@.map_values(|s: String| s@);
                assert(es.subrange(0, i + 1).drop_last() =~= es.subrange(0, i as int));
                assert(es.subrange(0, i + 1).last() == self.emails@[i as int]@);
                let e = &self.emails[i];
                if !e.verified && e.primary == primary {
                    r.push(e.email.clone());
                    assert(r@.map_values(|s: String| s@) =~= before.push(e.email@));
                }
                i = i + 1;
            }
            assert(es.subrange(0, es.len() as int) =~= es);
            assert(start + unverified_with(es, primary) =~= r@.map_values(|s: String| s@));
            pass = pass + 1;
        }
        r
    }
}

#[derive(Clone, Debug, Eq, PartialEq)]
pub struct UserInfoWrapper {
    pub user: UserInfo,
}

#[derive(Clone, Debug, Default)]
pub struct UserUpdateInfo {
    pub email: String,
    pub username: String,
    pub password: Option<String>,
    pub image: String,
    pub bio: String,
}

#[derive(Clone, Debug, Default)]
pub struct SaltResponse {
    pub salt: String,
    pub challenge: String,
    pub token: String,
}

#[derive(Clone, Debug)]
pub struct UserUpdateInfoWrapper {
    pub user: UserUpdateInfo,
}

} // verus!
