//! Role-based access control and the text forms of roles and statuses.
use vstd::prelude::*;
use crate::model::{is_err, AppError, AppResult, AuthUser, ErrorKind, ExpenseStatus, Role};
use crate::text::{eq_ascii_fold, eq_ignore_ascii_case, str_eq, trim, trimmed};

verus! {

/// Succeeds exactly when the caller's role is one of `roles`; otherwise the
/// error is `forbidden` with message `insufficient role`.
pub fn require_roles(auth: &AuthUser, roles: &[Role]) -> (r: AppResult<()>)
    ensures
        r is Ok <==> roles@.contains(auth.role),
        r is Err ==> is_err(r, ErrorKind::Forbidden, "insufficient role"@),
{
    let mut i: usize = 0;
    while i < roles.len()
        invariant
            i <= roles@.len(),
            forall|k: int| 0 <= k < i ==> roles@[k] != auth.role,
        decreases roles@.len() - i,
    {
        if roles[i] == auth.role {
            return Ok(());
        }
        i = i + 1;
    }
    Err(AppError::forbidden("insufficient role"))
}

/// Admins only.
pub fn require_admin(auth: &AuthUser) -> (r: AppResult<()>)
    ensures
        r is Ok <==> auth.role == Role::Admin,
        r is Err ==> is_err(r, ErrorKind::Forbidden, "insufficient role"@),
{
    let roles = [Role::Admin];
    require_roles(auth, &roles)
}

/// Users and admins.
pub fn require_user_or_admin(auth: &AuthUser) -> (r: AppResult<()>)
    ensures
        r is Ok <==> (auth.role == Role::User || auth.role == Role::Admin),
        r is Err ==> is_err(r, ErrorKind::Forbidden, "insufficient role"@),
{
    let roles = [Role::User, Role::Admin];
    let r = require_roles(auth, &roles);
    proof {
        if auth.role == Role::User {
            assert(roles@[0] == auth.role);
        }
        if auth.role == Role::Admin {
            assert(roles@[1] == auth.role);
        }
    }
    r
}

/// Users, admins and auditors: every role.
pub fn require_user_admin_or_auditor(auth: &AuthUser) -> (r: AppResult<()>)
    ensures
        r is Ok,
{
    let roles = [Role::User, Role::Admin, Role::Auditor];
    let r = require_roles(auth, &roles);
    proof {
        match auth.role {
            Role::User => assert(roles@[0] == auth.role),
            Role::Admin => assert(roles@[1] == auth.role),
            Role::Auditor => assert(roles@[2] == auth.role),
        }
    }
    r
}

/// Admins and auditors.
pub fn require_admin_or_auditor(auth: &AuthUser) -> (r: AppResult<()>)
    ensures
        r is Ok <==> (auth.role == Role::Admin || auth.role == Role::Auditor),
        r is Err ==> is_err(r, ErrorKind::Forbidden, "insufficient role"@),
{
    let roles = [Role::Admin, Role::Auditor];
    let r = require_roles(auth, &roles);
    proof {
        if auth.role == Role::Admin {
            assert(roles@[0] == auth.role);
        }
        if auth.role == Role::Auditor {
            assert(roles@[1] == auth.role);
        }
    }
    r
}

/// The text form of a role.
pub open spec fn role_text(role: Role) -> Seq<char> {
    match role {
        Role::User => "user"@,
        Role::Admin => "admin"@,
        Role::Auditor => "auditor"@,
    }
}

/// The role with the given text form, if any.
pub open spec fn role_of_text(s: Seq<char>) -> Option<Role> {
    if s == "admin"@ {
        Some(Role::Admin)
    } else if s == "auditor"@ {
        Some(Role::Auditor)
    } else if s == "user"@ {
        Some(Role::User)
    } else {
        None
    }
}

/// The text form of a role: `user`, `admin` or `auditor`.
pub fn role_to_str(role: &Role) -> (r: &'static str)
    ensures
        r@ == role_text(*role),
{
    match role {
        Role::User => "user",
        Role::Admin => "admin",
        Role::Auditor => "auditor",
    }
}

/// The role a stored text names; any other text is an internal error
/// `invalid role in database`.
pub fn role_from_db(role: &str) -> (r: AppResult<Role>)
    ensures
        match role_of_text(role@) {
            Some(x) => r == Ok::<Role, AppError>(x),
            None => is_err(r, ErrorKind::Internal, "invalid role in database"@),
        },
{
    if str_eq(role, "admin") {
        Ok(Role::Admin)
    } else if str_eq(role, "auditor") {
        Ok(Role::Auditor)
    } else if str_eq(role, "user") {
        Ok(Role::User)
    } else {
        Err(AppError::internal("invalid role in database"))
    }
}

/// The text form of a status: `pending`, `approved` or `rejected`.
pub open spec fn status_text(s: ExpenseStatus) -> Seq<char> {
    match s {
        ExpenseStatus::Pending => "pending"@,
        ExpenseStatus::Approved => "approved"@,
        ExpenseStatus::Rejected => "rejected"@,
    }
}

/// The status with the given text form, if any.
pub open spec fn status_of_text(s: Seq<char>) -> Option<ExpenseStatus> {
    if s == "pending"@ {
        Some(ExpenseStatus::Pending)
    } else if s == "approved"@ {
        Some(ExpenseStatus::Approved)
    } else if s == "rejected"@ {
        Some(ExpenseStatus::Rejected)
    } else {
        None
    }
}

/// The text form of a status.
pub fn status_to_db(status: &ExpenseStatus) -> (r: &'static str)
    ensures
        r@ == status_text(*status),
{
    match status {
        ExpenseStatus::Pending => "pending",
        ExpenseStatus::Approved => "approved",
        ExpenseStatus::Rejected => "rejected",
    }
}

/// The status a stored text names; any other text is an internal error
/// `invalid expense status in database`.
pub fn status_from_db(value: &str) -> (r: AppResult<ExpenseStatus>)
    ensures
        match status_of_text(value@) {
            Some(x) => r == Ok::<ExpenseStatus, AppError>(x),
            None => is_err(r, ErrorKind::Internal, "invalid expense status in database"@),
        },
{
    if str_eq(value, "pending") {
        Ok(ExpenseStatus::Pending)
    } else if str_eq(value, "approved") {
        Ok(ExpenseStatus::Approved)
    } else if str_eq(value, "rejected") {
        Ok(ExpenseStatus::Rejected)
    } else {
        Err(AppError::internal("invalid expense status in database"))
    }
}

/// The status a request names, ignoring surrounding white space and ASCII
/// case; any other text is a bad request.
pub fn parse_status_text(v: &str) -> (r: AppResult<ExpenseStatus>)
    ensures
        eq_ascii_fold(trimmed(v@), "pending"@) ==> r == Ok::<ExpenseStatus, AppError>(ExpenseStatus::Pending),
        !eq_ascii_fold(trimmed(v@), "pending"@) && eq_ascii_fold(trimmed(v@), "approved"@)
            ==> r == Ok::<ExpenseStatus, AppError>(ExpenseStatus::Approved),
        !eq_ascii_fold(trimmed(v@), "pending"@) && !eq_ascii_fold(trimmed(v@), "approved"@)
            && eq_ascii_fold(trimmed(v@), "rejected"@) ==> r == Ok::<ExpenseStatus, AppError>(ExpenseStatus::Rejected),
        !eq_ascii_fold(trimmed(v@), "pending"@) && !eq_ascii_fold(trimmed(v@), "approved"@)
            && !eq_ascii_fold(trimmed(v@), "rejected"@) ==> is_err(
            r,
            ErrorKind::BadRequest,
            "to_status must be one of: pending, approved, rejected"@,
        ),
{
    let t = trim(v);
    if eq_ignore_ascii_case(t.as_str(), "pending") {
        Ok(ExpenseStatus::Pending)
    } else if eq_ignore_ascii_case(t.as_str(), "approved") {
        Ok(ExpenseStatus::Approved)
    } else if eq_ignore_ascii_case(t.as_str(), "rejected") {
        Ok(ExpenseStatus::Rejected)
    } else {
        Err(AppError::bad_request("to_status must be one of: pending, approved, rejected"))
    }
}

/// The audit action recorded for a status decision.
pub open spec fn status_action_text(s: ExpenseStatus) -> Seq<char> {
    match s {
        ExpenseStatus::Approved => "expense.approve"@,
        ExpenseStatus::Rejected => "expense.reject"@,
        ExpenseStatus::Pending => "expense.status"@,
    }
}

/// The audit action recorded for a status decision: `expense.approve`,
/// `expense.reject`, or `expense.status` for `Pending`.
pub fn status_action(s: &ExpenseStatus) -> (r: &'static str)
    ensures
        r@ == status_action_text(*s),
{
    match s {
        ExpenseStatus::Approved => "expense.approve",
        ExpenseStatus::Rejected => "expense.reject",
        ExpenseStatus::Pending => "expense.status",
    }
}

/// The audit action of a decision names the decided status: it is
/// `expense.` followed by the verb the status text begins with, so an
/// approval is recorded as `expense.approve` and a rejection as
/// `expense.reject`; and different decisions are recorded as different
/// actions.
pub proof fn law_decision_action_names_status(a: ExpenseStatus, b: ExpenseStatus)
    requires
        a != ExpenseStatus::Pending,
        b != ExpenseStatus::Pending,
    ensures
        "expense."@.is_prefix_of(status_action_text(a)),
        status_action_text(a).len() > 8,
        status_action_text(a).skip(8).is_prefix_of(status_text(a)),
        status_text(a).len() - status_action_text(a).skip(8).len() <= 2,
        a != b ==> status_action_text(a) != status_action_text(b),
{
    reveal_strlit("expense.");
    reveal_strlit("expense.approve");
    reveal_strlit("expense.reject");
    reveal_strlit("approved");
    reveal_strlit("rejected");
    assert(status_action_text(ExpenseStatus::Approved) != status_action_text(ExpenseStatus::Rejected)) by {
        assert(status_action_text(ExpenseStatus::Approved)[8] != status_action_text(ExpenseStatus::Rejected)[8]);
    }
    assert("expense."@.is_prefix_of(status_action_text(a)));
    assert(status_action_text(a).skip(8).is_prefix_of(status_text(a)));
}

/// What is stored reads back as what was stored: the text form of each
/// status and of each role is read back as that status or role, and
/// different statuses (roles) have different text forms.
pub proof fn law_stored_texts_read_back(s: ExpenseStatus, t: ExpenseStatus, a: Role, b: Role)
    ensures
        status_of_text(status_text(s)) == Some(s),
        role_of_text(role_text(a)) == Some(a),
        s != t ==> status_text(s) != status_text(t),
        a != b ==> role_text(a) != role_text(b),
{
    reveal_strlit("pending");
    reveal_strlit("approved");
    reveal_strlit("rejected");
    reveal_strlit("user");
    reveal_strlit("admin");
    reveal_strlit("auditor");
    assert("pending"@ != "approved"@ && "pending"@ != "rejected"@ && "approved"@ != "rejected"@) by {
        assert("pending"@[0] != "approved"@[0] && "pending"@[0] != "rejected"@[0] && "approved"@[0] != "rejected"@[0]);
    }
    assert("user"@ != "admin"@ && "user"@ != "auditor"@ && "admin"@ != "auditor"@) by {
        assert("user"@[0] != "admin"@[0] && "user"@[0] != "auditor"@[0] && "admin"@.len() != "auditor"@.len());
    }
}

} // verus!
