//! The decisions of the paths that keep their records in Postgres. The rows
//! a request needs are read by the caller; given them, each decision says
//! what the request answers and what is to be written.
use vstd::prelude::*;
use crate::authz::{status_text, status_to_db};
use crate::ledger::{
    category_missing_error, expense_response, int_field, missing_key_error, opt_text_field, respond, text_field,
    text_meta, CreateExpenseRequest,
};
use crate::model::{fails_with, AppError, AppResult, AuthUser, ErrorKind, ErrorView, ExpenseResponse, ExpenseStatus, Role};
use crate::primitives::{chrono_instant, uuid_text, uuid_to_string};
use crate::state::{opt_text, Expense, MetaField, MetaValue};

verus! {

// ---------------------------------------------------------------------------
// Recording an expense
// ---------------------------------------------------------------------------

/// What recording an expense comes to once its rows are read.
#[derive(Debug, PartialEq, Eq)]
pub enum CreateAction {
    /// The idempotency key already holds a response: answer it again.
    Replay(ExpenseResponse),
    /// Insert the expense answered by the response, and audit it with the
    /// metadata.
    Insert(ExpenseResponse, Vec<MetaField>),
}

/// The error for a category that another account owns.
pub open spec fn foreign_category_error() -> ErrorView {
    (ErrorKind::Forbidden, "cannot use category of another user"@)
}

/// The pending expense that a request of `auth` records with id `id` in
/// `category`, occurring at `occurred_at` and created at `now`.
pub open spec fn recorded_expense(
    auth: AuthUser,
    p: CreateExpenseRequest,
    category: u128,
    id: u128,
    occurred_at: i64,
    now: i64,
) -> Expense {
    Expense {
        id,
        owner_user_id: auth.user_id,
        category_id: category,
        amount_minor: p.amount_minor,
        currency: p.currency,
        status: ExpenseStatus::Pending,
        tx_hash: None,
        occurred_at,
        created_at: now,
    }
}

/// Decides a request of `auth` to record an expense in `category_id`, given
/// the idempotency key (`None` when the header is absent), the owner of the
/// stored category (`None` when there is none) and the response already kept
/// under the key, if any. In order: the key is required; the category must
/// exist and be the caller's; a kept response is answered again; otherwise
/// the pending expense with id `expense_id` is inserted, and audited with its
/// category id and amount.
pub fn pg_create_decision(
    auth: &AuthUser,
    key: Option<String>,
    category_owner: Option<u128>,
    cached: Option<ExpenseResponse>,
    payload: &CreateExpenseRequest,
    category_id: u128,
    expense_id: u128,
    occurred_at: i64,
    now: i64,
) -> (r: AppResult<CreateAction>)
    requires
        chrono_instant(occurred_at as int),
        chrono_instant(now as int),
    ensures
        key is None ==> fails_with(r, missing_key_error()),
        key is Some && category_owner is None ==> fails_with(r, category_missing_error()),
        key is Some && category_owner is Some && category_owner != Some(auth.user_id) ==> fails_with(
            r,
            foreign_category_error(),
        ),
        key is Some && category_owner == Some(auth.user_id) ==> match cached {
            Some(c) => r == Ok::<CreateAction, AppError>(CreateAction::Replay(c)),
            None => r matches Ok(CreateAction::Insert(resp, md)) && {
                &&& expense_response(
                    recorded_expense(*auth, *payload, category_id, expense_id, occurred_at, now),
                    resp,
                )
                &&& md@.len() == 2
                &&& text_field(md@[0], "category_id"@, uuid_text(category_id))
                &&& int_field(md@[1], "amount_minor"@, payload.amount_minor)
            },
        },
{
    if key.is_none() {
        return Err(AppError::bad_request("x-idempotency-key header is required"));
    }
    let owner = match category_owner {
        None => {
            return Err(AppError::not_found("category not found"));
        },
        Some(o) => o,
    };
    if owner != auth.user_id {
        return Err(AppError::forbidden("cannot use category of another user"));
    }
    if let Some(c) = cached {
        return Ok(CreateAction::Replay(c));
    }
    let expense = Expense {
        id: expense_id,
        owner_user_id: auth.user_id,
        category_id,
        amount_minor: payload.amount_minor,
        currency: payload.currency.clone(),
        status: ExpenseStatus::Pending,
        tx_hash: None,
        occurred_at,
        created_at: now,
    };
    let response = respond(&expense);
    let metadata = vec![
        text_meta("category_id", response.category_id.clone()),
        MetaField { key: "amount_minor".to_owned(), value: MetaValue::Int(response.amount_minor) },
    ];
    Ok(CreateAction::Insert(response, metadata))
}

// ---------------------------------------------------------------------------
// Deciding an expense's status
// ---------------------------------------------------------------------------

/// What a status decision comes to once its rows are read.
#[derive(Debug, PartialEq, Eq)]
pub enum StatusAction {
    /// The idempotency key already holds a response: answer it again.
    Replay(ExpenseResponse),
    /// Store the expense as the response shows it, and audit the decision
    /// with the metadata.
    Update(ExpenseResponse, Vec<MetaField>),
}

/// The error for an expense that is not stored.
pub open spec fn expense_missing_error() -> ErrorView {
    (ErrorKind::NotFound, "expense not found"@)
}

/// The error for a decision on an expense that is already decided.
pub open spec fn final_status_error() -> ErrorView {
    (ErrorKind::BadRequest, "expense status is final"@)
}

/// Decides a status decision `to` with `reason`, given the idempotency key
/// (`None` when the header is absent), the response already kept for it,
/// and the stored expense (`None` when there is none). In order: the key is
/// required; a kept response is answered again; the expense must exist and
/// still be pending; otherwise it takes status `to`, and the decision is
/// audited with the two statuses, the reason and the key.
pub fn pg_status_decision(
    key: Option<String>,
    cached: Option<ExpenseResponse>,
    row: Option<ExpenseResponse>,
    to: ExpenseStatus,
    reason: &Option<String>,
) -> (r: AppResult<StatusAction>)
    ensures
        match key {
            None => fails_with(r, missing_key_error()),
            Some(k) => match cached {
                Some(c) => r == Ok::<StatusAction, AppError>(StatusAction::Replay(c)),
                None => match row {
                    None => fails_with(r, expense_missing_error()),
                    Some(x) => if x.status != ExpenseStatus::Pending {
                        fails_with(r, final_status_error())
                    } else {
                        r matches Ok(StatusAction::Update(resp, md)) && {
                            &&& resp == (ExpenseResponse { status: to, ..x })
                            &&& md@.len() == 4
                            &&& text_field(md@[0], "from_status"@, "pending"@)
                            &&& text_field(md@[1], "to_status"@, status_text(to))
                            &&& opt_text_field(md@[2], "reason"@, opt_text(*reason))
                            &&& text_field(md@[3], "idempotency_key"@, k@)
                        }
                    },
                },
            },
        },
{
    let k = match key {
        None => {
            return Err(AppError::bad_request("x-idempotency-key header is required"));
        },
        Some(k) => k,
    };
    if let Some(c) = cached {
        return Ok(StatusAction::Replay(c));
    }
    let mut response = match row {
        None => {
            return Err(AppError::not_found("expense not found"));
        },
        Some(x) => x,
    };
    if response.status != ExpenseStatus::Pending {
        return Err(AppError::bad_request("expense status is final"));
    }
    let from_status = response.status;
    response.status = to;
    let reason_value = match reason {
        Some(x) => MetaValue::Text(x.clone()),
        None => MetaValue::Null,
    };
    let metadata = vec![
        text_meta("from_status", status_to_db(&from_status).to_owned()),
        text_meta("to_status", status_to_db(&to).to_owned()),
        MetaField { key: "reason".to_owned(), value: reason_value },
        text_meta("idempotency_key", k),
    ];
    Ok(StatusAction::Update(response, metadata))
}

// ---------------------------------------------------------------------------
// Smaller checks over stored rows
// ---------------------------------------------------------------------------

/// Whether a caller may read the history of an expense owned by `owner`
/// (`None` when no expense is stored): only a user's own expenses are
/// checked; admins and auditors read any.
pub fn history_access(auth: &AuthUser, owner: Option<u128>) -> (r: AppResult<()>)
    ensures
        auth.role != Role::User ==> r is Ok,
        auth.role == Role::User && owner is None ==> fails_with(r, expense_missing_error()),
        auth.role == Role::User && owner is Some && owner != Some(auth.user_id) ==> fails_with(
            r,
            (ErrorKind::Forbidden, "cannot access history of another user's expense"@),
        ),
        auth.role == Role::User && owner == Some(auth.user_id) ==> r is Ok,
{
    if auth.role != Role::User {
        return Ok(());
    }
    match owner {
        None => Err(AppError::not_found("expense not found")),
        Some(o) => if o != auth.user_id {
            Err(AppError::forbidden("cannot access history of another user's expense"))
        } else {
            Ok(())
        },
    }
}

/// The category an expense commit records into, given the stored category
/// with the committed category address as `(id, owner)` (`None` when no
/// category was committed there): it must exist and be the caller's.
pub fn commit_category_of(auth: &AuthUser, category: Option<(u128, u128)>) -> (r: AppResult<u128>)
    ensures
        match category {
            None => fails_with(r, (ErrorKind::BadRequest, "category commit not found for category_pda"@)),
            Some(c) => if c.1 != auth.user_id {
                fails_with(r, foreign_category_error())
            } else {
                r == Ok::<u128, AppError>(c.0)
            },
        },
{
    match category {
        None => Err(AppError::bad_request("category commit not found for category_pda")),
        Some((id, owner)) => if owner != auth.user_id {
            Err(AppError::forbidden("cannot use category of another user"))
        } else {
            Ok(id)
        },
    }
}

// ---------------------------------------------------------------------------
// Commits already recorded
// ---------------------------------------------------------------------------

/// A commit whose transaction is already recorded: it is answered again
/// with the recorded target, the slot and this metadata, and nothing is
/// written.
#[derive(Debug, PartialEq, Eq)]
pub struct CommitReplay {
    pub target_id: u128,
    pub slot: u64,
    pub metadata: Vec<MetaField>,
}

/// `f` is the field `key` with the value `true`.
pub open spec fn replayed_field(f: MetaField) -> bool {
    f.key@ == "replayed"@ && f.value == MetaValue::Bool(true)
}

fn opt_meta(key: &str, value: &Option<String>) -> (r: MetaField)
    ensures
        opt_text_field(r, key@, opt_text(*value)),
{
    let v = match value {
        Some(x) => MetaValue::Text(x.clone()),
        None => MetaValue::Null,
    };
    MetaField { key: key.to_owned(), value: v }
}

/// The answer to a category commit whose transaction is already recorded,
/// given the stored category as `(id, owner, name, slot)` (`None` when the
/// transaction is new): its id, its slot (the verified one when none was
/// stored), and metadata marking the replay with the owner, the name, the
/// category address, the signer and the client reference.
pub fn category_commit_replay(
    stored: Option<(u128, u128, String, Option<u64>)>,
    category_pda: &str,
    signer_wallet: &str,
    client_ref_id: &Option<String>,
    verified_slot: u64,
) -> (r: Option<CommitReplay>)
    ensures
        match stored {
            None => r is None,
            Some(c) => r matches Some(x) && {
                &&& x.target_id == c.0
                &&& x.slot == (match c.3 {
                    Some(s) => s,
                    None => verified_slot,
                })
                &&& x.metadata@.len() == 6
                &&& replayed_field(x.metadata@[0])
                &&& text_field(x.metadata@[1], "owner_user_id"@, uuid_text(c.1))
                &&& text_field(x.metadata@[2], "category_name"@, c.2@)
                &&& text_field(x.metadata@[3], "onchain_category_pda"@, category_pda@)
                &&& text_field(x.metadata@[4], "signer_wallet"@, signer_wallet@)
                &&& opt_text_field(x.metadata@[5], "client_ref_id"@, opt_text(*client_ref_id))
            },
        },
{
    match stored {
        None => None,
        Some((id, owner, name, slot)) => {
            let slot = match slot {
                Some(s) => s,
                None => verified_slot,
            };
            let metadata = vec![
                MetaField { key: "replayed".to_owned(), value: MetaValue::Bool(true) },
                text_meta("owner_user_id", uuid_to_string(owner)),
                text_meta("category_name", name),
                text_meta("onchain_category_pda", category_pda.to_owned()),
                text_meta("signer_wallet", signer_wallet.to_owned()),
                opt_meta("client_ref_id", client_ref_id),
            ];
            Some(CommitReplay { target_id: id, slot, metadata })
        },
    }
}

/// The answer to an expense creation commit whose transaction is already
/// recorded, given the id of the stored expense (`None` when the
/// transaction is new): that id, the verified slot, and metadata marking the
/// replay with the expense and category addresses, the signer and the client
/// reference.
pub fn expense_commit_replay(
    stored: Option<u128>,
    expense_pda: &str,
    category_pda: &str,
    signer_wallet: &str,
    client_ref_id: &Option<String>,
    verified_slot: u64,
) -> (r: Option<CommitReplay>)
    ensures
        match stored {
            None => r is None,
            Some(id) => r matches Some(x) && {
                &&& x.target_id == id
                &&& x.slot == verified_slot
                &&& x.metadata@.len() == 5
                &&& replayed_field(x.metadata@[0])
                &&& text_field(x.metadata@[1], "onchain_expense_pda"@, expense_pda@)
                &&& text_field(x.metadata@[2], "category_pda"@, category_pda@)
                &&& text_field(x.metadata@[3], "signer_wallet"@, signer_wallet@)
                &&& opt_text_field(x.metadata@[4], "client_ref_id"@, opt_text(*client_ref_id))
            },
        },
{
    match stored {
        None => None,
        Some(id) => {
            let metadata = vec![
                MetaField { key: "replayed".to_owned(), value: MetaValue::Bool(true) },
                text_meta("onchain_expense_pda", expense_pda.to_owned()),
                text_meta("category_pda", category_pda.to_owned()),
                text_meta("signer_wallet", signer_wallet.to_owned()),
                opt_meta("client_ref_id", client_ref_id),
            ];
            Some(CommitReplay { target_id: id, slot: verified_slot, metadata })
        },
    }
}

/// The answer to a status commit whose transaction is already recorded,
/// given the id of the expense it decided (`None` when the transaction is
/// new): that id, the verified slot, and metadata marking the replay with
/// the new status, the reason, the signer and the client reference.
pub fn status_commit_replay(
    stored: Option<u128>,
    to_status: ExpenseStatus,
    reason: &Option<String>,
    signer_wallet: &str,
    client_ref_id: &Option<String>,
    verified_slot: u64,
) -> (r: Option<CommitReplay>)
    ensures
        match stored {
            None => r is None,
            Some(id) => r matches Some(x) && {
                &&& x.target_id == id
                &&& x.slot == verified_slot
                &&& x.metadata@.len() == 5
                &&& replayed_field(x.metadata@[0])
                &&& text_field(x.metadata@[1], "to_status"@, status_text(to_status))
                &&& opt_text_field(x.metadata@[2], "reason"@, opt_text(*reason))
                &&& text_field(x.metadata@[3], "signer_wallet"@, signer_wallet@)
                &&& opt_text_field(x.metadata@[4], "client_ref_id"@, opt_text(*client_ref_id))
            },
        },
{
    match stored {
        None => None,
        Some(id) => {
            let metadata = vec![
                MetaField { key: "replayed".to_owned(), value: MetaValue::Bool(true) },
                text_meta("to_status", status_to_db(&to_status).to_owned()),
                opt_meta("reason", reason),
                text_meta("signer_wallet", signer_wallet.to_owned()),
                opt_meta("client_ref_id", client_ref_id),
            ];
            Some(CommitReplay { target_id: id, slot: verified_slot, metadata })
        },
    }
}

// ---------------------------------------------------------------------------
// Audit metadata of recorded commits
// ---------------------------------------------------------------------------

/// The audit metadata of a newly recorded category commit: the owner, the
/// name, the category address, the signer and the client reference.
pub fn category_commit_metadata(
    owner: u128,
    category_name: &str,
    category_pda: &str,
    signer_wallet: &str,
    client_ref_id: &Option<String>,
) -> (r: Vec<MetaField>)
    ensures
        r@.len() == 5,
        text_field(r@[0], "owner_user_id"@, uuid_text(owner)),
        text_field(r@[1], "category_name"@, category_name@),
        text_field(r@[2], "onchain_category_pda"@, category_pda@),
        text_field(r@[3], "signer_wallet"@, signer_wallet@),
        opt_text_field(r@[4], "client_ref_id"@, opt_text(*client_ref_id)),
{
    vec![
        text_meta("owner_user_id", uuid_to_string(owner)),
        text_meta("category_name", category_name.to_owned()),
        text_meta("onchain_category_pda", category_pda.to_owned()),
        text_meta("signer_wallet", signer_wallet.to_owned()),
        opt_meta("client_ref_id", client_ref_id),
    ]
}

/// The audit metadata of a newly recorded expense creation commit: the
/// owner, the category id and address, the expense address, the on-chain
/// expense id, the amount, the currency, the signer and the client
/// reference.
pub fn expense_commit_metadata(
    owner: u128,
    category_id: u128,
    category_pda: &str,
    expense_pda: &str,
    expense_id_onchain: u64,
    amount_minor: i64,
    currency: &str,
    signer_wallet: &str,
    client_ref_id: &Option<String>,
) -> (r: Vec<MetaField>)
    ensures
        r@.len() == 9,
        text_field(r@[0], "owner_user_id"@, uuid_text(owner)),
        text_field(r@[1], "category_id"@, uuid_text(category_id)),
        text_field(r@[2], "category_pda"@, category_pda@),
        text_field(r@[3], "onchain_expense_pda"@, expense_pda@),
        r@[4].key@ == "expense_id_onchain"@ && r@[4].value == MetaValue::UInt(expense_id_onchain),
        int_field(r@[5], "amount_minor"@, amount_minor),
        text_field(r@[6], "currency"@, currency@),
        text_field(r@[7], "signer_wallet"@, signer_wallet@),
        opt_text_field(r@[8], "client_ref_id"@, opt_text(*client_ref_id)),
{
    vec![
        text_meta("owner_user_id", uuid_to_string(owner)),
        text_meta("category_id", uuid_to_string(category_id)),
        text_meta("category_pda", category_pda.to_owned()),
        text_meta("onchain_expense_pda", expense_pda.to_owned()),
        MetaField { key: "expense_id_onchain".to_owned(), value: MetaValue::UInt(expense_id_onchain) },
        MetaField { key: "amount_minor".to_owned(), value: MetaValue::Int(amount_minor) },
        text_meta("currency", currency.to_owned()),
        text_meta("signer_wallet", signer_wallet.to_owned()),
        opt_meta("client_ref_id", client_ref_id),
    ]
}

/// The audit metadata of a newly recorded status commit: the two statuses,
/// the reason, the signer and the client reference.
pub fn status_commit_metadata(
    from_status: ExpenseStatus,
    to_status: ExpenseStatus,
    reason: &Option<String>,
    signer_wallet: &str,
    client_ref_id: &Option<String>,
) -> (r: Vec<MetaField>)
    ensures
        r@.len() == 5,
        text_field(r@[0], "from_status"@, status_text(from_status)),
        text_field(r@[1], "to_status"@, status_text(to_status)),
        opt_text_field(r@[2], "reason"@, opt_text(*reason)),
        text_field(r@[3], "signer_wallet"@, signer_wallet@),
        opt_text_field(r@[4], "client_ref_id"@, opt_text(*client_ref_id)),
{
    vec![
        text_meta("from_status", status_to_db(&from_status).to_owned()),
        text_meta("to_status", status_to_db(&to_status).to_owned()),
        opt_meta("reason", reason),
        text_meta("signer_wallet", signer_wallet.to_owned()),
        opt_meta("client_ref_id", client_ref_id),
    ]
}

} // verus!
