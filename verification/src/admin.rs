//! The rules the server's administration API applies to users, groups and
//! TURN servers before it touches the database.

use crate::common::{
    CreateGroupRequest, CreateTurnServerRequest, CreateUserRequest, GroupBrief, UpdateGroupRequest,
    UpdateUserRequest, UserInfo,
};
use crate::text::{blank, chars_of, is_blank, str_eq};
use vstd::prelude::*;

verus! {

broadcast use vstd::string::group_string_axioms;

/// Why the administration API refuses a request.
#[derive(Debug, Clone, Copy, PartialEq, Eq, Structural)]
pub enum AdminError {
    EmptyUsername,
    ShortPassword,
    InvalidRole,
    UsernameTaken,
    UserNotFound,
    LastAdmin,
    EmptyGroupName,
    GroupNotFound,
    EmptyTurnUrl,
    TurnServerNotFound,
    /// The password could not be hashed.
    HashingFailed,
}

impl AdminError {
    /// The HTTP status of the refusal.
    pub fn status(&self) -> (code: u16)
        ensures
            code == match *self {
                AdminError::UsernameTaken => 409u16,
                AdminError::HashingFailed => 500u16,
                AdminError::UserNotFound | AdminError::GroupNotFound
                | AdminError::TurnServerNotFound => 404u16,
                _ => 400u16,
            },
    {
        match self {
            AdminError::UsernameTaken => 409,
            AdminError::HashingFailed => 500,
            AdminError::UserNotFound | AdminError::GroupNotFound
            | AdminError::TurnServerNotFound => 404,
            _ => 400,
        }
    }

    /// The message of the refusal.
    pub fn message(&self) -> (m: &'static str)
        ensures
            m@ == admin_message(*self),
    {
        match self {
            AdminError::EmptyUsername => "Username cannot be empty",
            AdminError::ShortPassword => "Password must be at least 6 characters",
            AdminError::InvalidRole => "Role must be 'admin' or 'user'",
            AdminError::UsernameTaken => "Username already taken",
            AdminError::UserNotFound => "User not found",
            AdminError::LastAdmin => "Cannot delete the last admin user",
            AdminError::EmptyGroupName => "Group name cannot be empty",
            AdminError::GroupNotFound => "Group not found",
            AdminError::EmptyTurnUrl => "URL cannot be empty",
            AdminError::TurnServerNotFound => "TURN server not found",
            AdminError::HashingFailed => "Internal Hashing Error",
        }
    }
}

/// The message of each refusal.
pub open spec fn admin_message(e: AdminError) -> Seq<char> {
    match e {
        AdminError::EmptyUsername => "Username cannot be empty"@,
        AdminError::ShortPassword => "Password must be at least 6 characters"@,
        AdminError::InvalidRole => "Role must be 'admin' or 'user'"@,
        AdminError::UsernameTaken => "Username already taken"@,
        AdminError::UserNotFound => "User not found"@,
        AdminError::LastAdmin => "Cannot delete the last admin user"@,
        AdminError::EmptyGroupName => "Group name cannot be empty"@,
        AdminError::GroupNotFound => "Group not found"@,
        AdminError::EmptyTurnUrl => "URL cannot be empty"@,
        AdminError::TurnServerNotFound => "TURN server not found"@,
        AdminError::HashingFailed => "Internal Hashing Error"@,
    }
}

/// The two roles a user can have.
pub open spec fn valid_role(r: Seq<char>) -> bool {
    r == "admin"@ || r == "user"@
}

/// A password shorter than six bytes of UTF-8.
pub open spec fn short_password(p: Seq<char>) -> bool {
    vstd::utf8::encode_utf8(p).len() < 6
}

proof fn lemma_utf8_len_bounds(s: Seq<char>)
    ensures
        s.len() <= vstd::utf8::encode_utf8(s).len() <= 4 * s.len(),
    decreases s.len(),
{
    if s.len() > 0 {
        lemma_utf8_len_bounds(s.drop_first());
    }
}

/// Whether a password is shorter than six bytes of UTF-8.
pub fn is_short_password(p: &str) -> (res: bool)
    ensures
        res == short_password(p@),
{
    proof {
        lemma_utf8_len_bounds(p@);
    }
    let n = chars_of(p).len();
    if n >= 6 {
        false
    } else {
        p.len() < 6
    }
}

/// Whether `r` names one of the two roles.
pub fn is_valid_role(r: &str) -> (res: bool)
    ensures
        res == valid_role(r@),
{
    str_eq(r, "admin") || str_eq(r, "user")
}

/// What creating a user asks of the request: a username that is not blank,
/// a password of six bytes or more, and a role among `admin` and `user`
/// (`user` when none is given). Gives the role to store.
pub fn check_new_user(req: &CreateUserRequest) -> (res: Result<String, AdminError>)
    ensures
        blank(req.username@) ==> res == Err::<String, AdminError>(AdminError::EmptyUsername),
        !blank(req.username@) && short_password(req.password@) ==> res == Err::<
            String,
            AdminError,
        >(AdminError::ShortPassword),
        !blank(req.username@) && !short_password(req.password@) ==> match req.role {
            None => res matches Ok(r) && r@ == "user"@,
            Some(role) => if valid_role(role@) {
                res matches Ok(r) && r@ == role@
            } else {
                res == Err::<String, AdminError>(AdminError::InvalidRole)
            },
        },
{
    if is_blank(req.username.as_str()) {
        return Err(AdminError::EmptyUsername);
    }
    if is_short_password(req.password.as_str()) {
        return Err(AdminError::ShortPassword);
    }
    let role = match &req.role {
        Some(r) => r.clone(),
        None => "user".to_owned(),
    };
    if !is_valid_role(role.as_str()) {
        return Err(AdminError::InvalidRole);
    }
    Ok(role)
}

/// The role to store for a new user once the database has said whether its
/// name is taken: the refusals of `check_new_user` first, then a taken name
/// refused as `UsernameTaken` (409).
pub fn check_user_creation(req: &CreateUserRequest, name_taken: bool) -> (res: Result<
    String,
    AdminError,
>)
    ensures
        blank(req.username@) ==> res == Err::<String, AdminError>(AdminError::EmptyUsername),
        !blank(req.username@) && short_password(req.password@) ==> res == Err::<
            String,
            AdminError,
        >(AdminError::ShortPassword),
        !blank(req.username@) && !short_password(req.password@) ==> match req.role {
            None => if name_taken {
                res == Err::<String, AdminError>(AdminError::UsernameTaken)
            } else {
                res matches Ok(r) && r@ == "user"@
            },
            Some(role) => if !valid_role(role@) {
                res == Err::<String, AdminError>(AdminError::InvalidRole)
            } else if name_taken {
                res == Err::<String, AdminError>(AdminError::UsernameTaken)
            } else {
                res matches Ok(r) && r@ == role@
            },
        },
{
    let role = check_new_user(req)?;
    if name_taken {
        return Err(AdminError::UsernameTaken);
    }
    Ok(role)
}

/// The changes to a user, applied in this order; when `error` is set, the
/// request is refused after the changes before it were applied.
#[derive(Debug, Clone, PartialEq)]
pub struct UserUpdatePlan {
    pub set_role: Option<String>,
    pub set_active: Option<bool>,
    pub set_password: Option<String>,
    pub replace_groups: Option<Vec<String>>,
    pub error: Option<AdminError>,
}

/// What updating an existing user does: a role outside `admin` and `user`
/// refuses the request before any change; otherwise the role and the active
/// flag are changed, and then a password shorter than six bytes refuses the
/// request, before the password and the groups are changed.
pub fn plan_user_update(req: UpdateUserRequest) -> (p: UserUpdatePlan)
    ensures
        (req.role matches Some(r) && !valid_role(r@)) ==> p.error == Some(AdminError::InvalidRole)
            && p.set_role is None && p.set_active is None && p.set_password is None
            && p.replace_groups is None,
        !(req.role matches Some(r) && !valid_role(r@)) ==> p.set_role == req.role && p.set_active
            == req.is_active,
        !(req.role matches Some(r) && !valid_role(r@)) && (req.password matches Some(pw)
            && short_password(pw@)) ==> p.error == Some(AdminError::ShortPassword)
            && p.set_password is None && p.replace_groups is None,
        !(req.role matches Some(r) && !valid_role(r@)) && !(req.password matches Some(pw)
            && short_password(pw@)) ==> p.error is None && p.set_password == req.password
            && p.replace_groups == req.group_ids,
{
    let UpdateUserRequest { role, is_active, password, group_ids } = req;
    let role_ok = match &role {
        Some(r) => is_valid_role(r.as_str()),
        None => true,
    };
    if !role_ok {
        return UserUpdatePlan {
            set_role: None,
            set_active: None,
            set_password: None,
            replace_groups: None,
            error: Some(AdminError::InvalidRole),
        };
    }
    let short = match &password {
        Some(pw) => is_short_password(pw.as_str()),
        None => false,
    };
    if short {
        UserUpdatePlan {
            set_role: role,
            set_active: is_active,
            set_password: None,
            replace_groups: None,
            error: Some(AdminError::ShortPassword),
        }
    } else {
        UserUpdatePlan {
            set_role: role,
            set_active: is_active,
            set_password: password,
            replace_groups: group_ids,
            error: None,
        }
    }
}

/// Whether a user may be deleted, given its role (`None` when there is no
/// such user) and how many admins there are: the last admin stays.
pub fn check_user_deletion(role: Option<&str>, admin_count: i64) -> (res: Result<(), AdminError>)
    ensures
        role is None ==> res == Err::<(), AdminError>(AdminError::UserNotFound),
        (role matches Some(r) && r@ == "admin"@ && admin_count <= 1) ==> res == Err::<
            (),
            AdminError,
        >(AdminError::LastAdmin),
        (role matches Some(r) && !(r@ == "admin"@ && admin_count <= 1)) ==> res is Ok,
{
    match role {
        None => Err(AdminError::UserNotFound),
        Some(r) => {
            if str_eq(r, "admin") && admin_count <= 1 {
                Err(AdminError::LastAdmin)
            } else {
                Ok(())
            }
        },
    }
}

/// What creating a group asks of the request: a name that is not blank.
/// Gives the note to store (empty when none is given).
pub fn check_new_group(req: &CreateGroupRequest) -> (res: Result<String, AdminError>)
    ensures
        blank(req.name@) ==> res == Err::<String, AdminError>(AdminError::EmptyGroupName),
        !blank(req.name@) ==> (res matches Ok(n) && n@ == match req.note {
            Some(x) => x@,
            None => Seq::<char>::empty(),
        }),
{
    if is_blank(req.name.as_str()) {
        return Err(AdminError::EmptyGroupName);
    }
    match &req.note {
        Some(n) => Ok(n.clone()),
        None => Ok(String::new()),
    }
}

/// What updating an existing group asks of the request: a new name, when
/// given, that is not blank.
pub fn check_group_update(req: &UpdateGroupRequest) -> (res: Result<(), AdminError>)
    ensures
        (req.name matches Some(n) && blank(n@)) ==> res == Err::<(), AdminError>(
            AdminError::EmptyGroupName,
        ),
        !(req.name matches Some(n) && blank(n@)) ==> res is Ok,
{
    match &req.name {
        Some(n) => {
            if is_blank(n.as_str()) {
                Err(AdminError::EmptyGroupName)
            } else {
                Ok(())
            }
        },
        None => Ok(()),
    }
}

/// What adding a TURN server asks of the request: URLs that are not blank.
pub fn check_new_turn_server(req: &CreateTurnServerRequest) -> (res: Result<(), AdminError>)
    ensures
        blank(req.urls@) ==> res == Err::<(), AdminError>(AdminError::EmptyTurnUrl),
        !blank(req.urls@) ==> res is Ok,
{
    if is_blank(req.urls.as_str()) {
        Err(AdminError::EmptyTurnUrl)
    } else {
        Ok(())
    }
}

/// A user as the admin API shows it, from the row read for it and the
/// groups it belongs to: a user is active when its flag is non-zero.
pub fn user_info_from_row(
    id: String,
    username: String,
    role: String,
    is_active: i64,
    created_at: Option<String>,
    groups: Vec<(String, String)>,
) -> (u: UserInfo)
    ensures
        u.id@ == id@,
        u.username@ == username@,
        u.role@ == role@,
        u.is_active == (is_active != 0),
        u.created_at == created_at,
        u.groups@.len() == groups@.len(),
        forall|i: int|
            0 <= i < groups@.len() ==> (#[trigger] u.groups@[i]).id@ == groups@[i].0@
                && u.groups@[i].name@ == groups@[i].1@,
{
    let mut briefs: Vec<GroupBrief> = Vec::new();
    let mut i: usize = 0;
    while i < groups.len()
        invariant
            i <= groups@.len(),
            briefs@.len() == i,
            forall|j: int|
                0 <= j < i ==> (#[trigger] briefs@[j]).id@ == groups@[j].0@ && briefs@[j].name@
                    == groups@[j].1@,
        decreases groups@.len() - i,
    {
        let g = GroupBrief { id: groups[i].0.clone(), name: groups[i].1.clone() };
        briefs.push(g);
        i = i + 1;
    }
    UserInfo { id, username, role, is_active: is_active != 0, groups: briefs, created_at }
}

} // verus!
