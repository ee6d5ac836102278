//! The in-memory expense ledger: categories, expenses with idempotent
//! creation and one-way status decisions, listings, search, history and the
//! audit log.
use vstd::prelude::*;
use crate::authz::{
    require_admin, require_admin_or_auditor, require_user_admin_or_auditor, require_user_or_admin, status_action,
    status_action_text, status_text, status_to_db,
};
use crate::model::{
    fails_with, AppError, AppResult, AuthUser, ErrorKind, ErrorView, ExpenseResponse, ExpenseStatus, Role,
};
use crate::primitives::{
    chrono_instant, format_rfc3339, new_uuid, parse_rfc3339, parse_uuid, rfc3339_instant, rfc3339_text, uuid_parsed,
    uuid_text, uuid_to_string,
};
use crate::ranking::{is_ranking, lemma_ranking_sorted, rank_sort, ranked_order, Ranked};
use crate::state::{
    audit_appended, clone_meta, clone_opt, only_changed, opt_text, AuditLog, Category, Expense, MemoryState,
    MetaField, MetaValue, Table,
};
use crate::table::{find_index, has_key_in, lemma_table_map_at, table_map, upsert, Keyed};
use crate::text::{
    contains_text, decimal, decimal_text, has_infix, lemma_text_lt_irreflexive, lemma_text_lt_transitive,
    lemma_text_not_lt_transitive, lowercased, str_lt, text_lt, to_lowercase, trim, trimmed,
};

verus! {

/// A response kept under an idempotency key.
#[derive(Debug, PartialEq, Eq)]
pub struct IdempotencyEntry {
    pub key: String,
    pub response: ExpenseResponse,
}

impl Keyed for IdempotencyEntry {
    type Key = String;

    open spec fn key(&self) -> Seq<char> {
        self.key@
    }

    fn has_key(&self, k: &String) -> (r: bool) {
        self.key == *k
    }
}

/// Request to create a category.
#[derive(Debug, PartialEq, Eq)]
pub struct CreateCategoryRequest {
    pub name: String,
}

/// A category as the API returns it.
#[derive(Debug, PartialEq, Eq)]
pub struct CategoryResponse {
    pub id: String,
    pub owner_user_id: String,
    pub name: String,
    pub created_at: String,
}

/// Request to record an expense.
#[derive(Debug, PartialEq, Eq)]
pub struct CreateExpenseRequest {
    pub category_id: String,
    pub amount_minor: i64,
    pub currency: String,
    pub occurred_at: Option<String>,
}

/// Request to decide an expense.
#[derive(Debug, PartialEq, Eq)]
pub struct UpdateExpenseStatusRequest {
    pub status: ExpenseStatus,
    pub reason: Option<String>,
}

// ---------------------------------------------------------------------------
// Audit metadata
// ---------------------------------------------------------------------------

/// `f` is the text field `key` with value `val`.
pub open spec fn text_field(f: MetaField, key: Seq<char>, val: Seq<char>) -> bool {
    f.key@ == key && match f.value {
        MetaValue::Text(v) => v@ == val,
        _ => false,
    }
}

/// `f` is the integer field `key` with value `val`.
pub open spec fn int_field(f: MetaField, key: Seq<char>, val: i64) -> bool {
    f.key@ == key && f.value == MetaValue::Int(val)
}

/// `f` is the field `key` holding the optional text `val` (null when absent).
pub open spec fn opt_text_field(f: MetaField, key: Seq<char>, val: Option<Seq<char>>) -> bool {
    match val {
        Some(v) => text_field(f, key, v),
        None => f.key@ == key && f.value == MetaValue::Null,
    }
}

pub(crate) fn text_meta(key: &str, value: String) -> (r: MetaField)
    ensures
        text_field(r, key@, value@),
{
    MetaField { key: key.to_owned(), value: MetaValue::Text(value) }
}

// ---------------------------------------------------------------------------
// Responses
// ---------------------------------------------------------------------------

/// `r` is the expense `e` as the API returns it (its id and owner texts
/// read back as the ids).
pub open spec fn expense_response(e: Expense, r: ExpenseResponse) -> bool {
    &&& r.id@ == uuid_text(e.id)
    &&& uuid_parsed(r.id@) == Some(e.id)
    &&& r.owner_user_id@ == uuid_text(e.owner_user_id)
    &&& uuid_parsed(r.owner_user_id@) == Some(e.owner_user_id)
    &&& r.category_id@ == uuid_text(e.category_id)
    &&& r.amount_minor == e.amount_minor
    &&& r.currency@ == e.currency@
    &&& r.status == e.status
    &&& opt_text(r.tx_hash) == opt_text(e.tx_hash)
    &&& r.occurred_at@ == rfc3339_text(e.occurred_at)
    &&& r.created_at@ == rfc3339_text(e.created_at)
}

pub(crate) fn respond(e: &Expense) -> (r: ExpenseResponse)
    requires
        chrono_instant(e.occurred_at as int),
        chrono_instant(e.created_at as int),
    ensures
        expense_response(*e, r),
{
    ExpenseResponse {
        id: uuid_to_string(e.id),
        owner_user_id: uuid_to_string(e.owner_user_id),
        category_id: uuid_to_string(e.category_id),
        amount_minor: e.amount_minor,
        currency: e.currency.clone(),
        status: e.status,
        tx_hash: clone_opt(&e.tx_hash),
        occurred_at: format_rfc3339(e.occurred_at),
        created_at: format_rfc3339(e.created_at),
    }
}

/// `r` is the category `c` as the API returns it.
pub open spec fn category_response(c: Category, r: CategoryResponse) -> bool {
    &&& r.id@ == uuid_text(c.id)
    &&& r.owner_user_id@ == uuid_text(c.owner_user_id)
    &&& r.name@ == c.name@
    &&& r.created_at@ == rfc3339_text(c.created_at)
}

fn respond_category(c: &Category) -> (r: CategoryResponse)
    requires
        chrono_instant(c.created_at as int),
    ensures
        category_response(*c, r),
        uuid_parsed(r.id@) == Some(c.id),
{
    CategoryResponse {
        id: uuid_to_string(c.id),
        owner_user_id: uuid_to_string(c.owner_user_id),
        name: c.name.clone(),
        created_at: format_rfc3339(c.created_at),
    }
}

// ---------------------------------------------------------------------------
// Categories
// ---------------------------------------------------------------------------

/// Whether `auth` may record and read categories and expenses: users and
/// admins.
pub open spec fn may_record(auth: AuthUser) -> bool {
    auth.role == Role::User || auth.role == Role::Admin
}

/// The error for a caller whose role does not allow the operation.
pub open spec fn role_error() -> ErrorView {
    (ErrorKind::Forbidden, "insufficient role"@)
}

/// What creating a category of `auth` named by `p` answers at `now`, and
/// how `s` becomes `t`.
pub open spec fn category_step(
    s: MemoryState,
    auth: AuthUser,
    p: CreateCategoryRequest,
    now: int,
    t: MemoryState,
    r: AppResult<CategoryResponse>,
) -> bool {
    if !may_record(auth) {
        fails_with(r, role_error()) && only_changed(s, t, Set::empty())
    } else if trimmed(p.name@).len() == 0 {
        fails_with(r, (ErrorKind::BadRequest, "name is required"@)) && only_changed(s, t, Set::empty())
    } else {
        r matches Ok(resp) && {
            let id = uuid_parsed(resp.id@)->0;
            let c = table_map(t.categories@)[id];
            &&& table_map(t.categories@) == table_map(s.categories@).insert(id, c)
            &&& c.id == id
            &&& c.owner_user_id == auth.user_id
            &&& c.name@ == trimmed(p.name@)
            &&& c.created_at == now
            &&& category_response(c, resp)
            &&& only_changed(s, t, set![Table::Categories])
        }
    }
}

/// What listing the categories of `auth` answers on `s`: the caller's
/// categories, in table order.
pub open spec fn categories_listing(s: MemoryState, auth: AuthUser, r: AppResult<Vec<CategoryResponse>>) -> bool {
    if !may_record(auth) {
        fails_with(r, role_error())
    } else {
        r matches Ok(rows) && {
            let mine = s.categories@.filter(|c: Category| c.owner_user_id == auth.user_id);
            &&& rows@.len() == mine.len()
            &&& forall|i: int| 0 <= i < mine.len() ==> category_response(mine[i], #[trigger] rows@[i])
        }
    }
}

impl MemoryState {
    /// Creates a category owned by the caller, named by the request's name
    /// without surrounding white space; an empty name is a bad request.
    pub fn create_category(&mut self, auth: &AuthUser, payload: &CreateCategoryRequest, now: i64) -> (r: AppResult<CategoryResponse>)
        requires
            old(self).wf(),
            chrono_instant(now as int),
        ensures
            final(self).wf(),
            category_step(*old(self), *auth, *payload, now as int, *final(self), r),
    {
        if let Err(e) = require_user_or_admin(auth) {
            return Err(e);
        }
        let name = trim(payload.name.as_str());
        if name.as_str().unicode_len() == 0 {
            return Err(AppError::bad_request("name is required"));
        }
        let id = new_uuid();
        let category = Category { id, owner_user_id: auth.user_id, name, created_at: now };
        let resp = respond_category(&category);
        let ghost c = category;
        upsert(&mut self.categories, category, &id);
        proof {
            assert forall|i: int| 0 <= i < self.categories@.len() implies chrono_instant(
                #[trigger] self.categories@[i].created_at as int,
            ) by {
                if self.categories@[i] != c {
                    let j = choose|j: int| 0 <= j < old(self).categories@.len() && old(self).categories@[j] == self.categories@[i];
                    assert(chrono_instant(old(self).categories@[j].created_at as int));
                }
            }
        }
        Ok(resp)
    }

    /// The caller's categories, in table order.
    pub fn list_categories(&self, auth: &AuthUser) -> (r: AppResult<Vec<CategoryResponse>>)
        requires
            self.wf(),
        ensures
            categories_listing(*self, *auth, r),
    {
        if let Err(e) = require_user_or_admin(auth) {
            return Err(e);
        }
        let ghost pred = |c: Category| c.owner_user_id == auth.user_id;
        let mut rows: Vec<CategoryResponse> = Vec::new();
        let mut i: usize = 0;
        while i < self.categories.len()
            invariant
                self.wf(),
                i <= self.categories@.len(),
                pred == (|c: Category| c.owner_user_id == auth.user_id),
                rows@.len() == self.categories@.take(i as int).filter(pred).len(),
                forall|k: int| 0 <= k < rows@.len() ==> category_response(
                    self.categories@.take(i as int).filter(pred)[k],
                    #[trigger] rows@[k],
                ),
            decreases self.categories@.len() - i,
        {
            let c = &self.categories[i];
            proof {
                reveal(Seq::filter);
                assert(self.categories@.take(i + 1).drop_last() =~= self.categories@.take(i as int));
                assert(chrono_instant(self.categories@[i as int].created_at as int));
            }
            if c.owner_user_id == auth.user_id {
                rows.push(respond_category(c));
            }
            i = i + 1;
        }
        proof {
            assert(self.categories@.take(self.categories@.len() as int) =~= self.categories@);
        }
        Ok(rows)
    }
}

// ---------------------------------------------------------------------------
// Creating expenses
// ---------------------------------------------------------------------------

/// Why a request to record an expense is refused before anything else is
/// looked at, if it is: the caller must be a user or an admin, the amount
/// positive, and the category id (without surrounding white space) a UUID.
pub open spec fn new_expense_rejection(auth: AuthUser, p: CreateExpenseRequest) -> Option<ErrorView> {
    if !may_record(auth) {
        Some(role_error())
    } else if p.amount_minor <= 0 {
        Some((ErrorKind::BadRequest, "amount_minor must be > 0"@))
    } else if uuid_parsed(trimmed(p.category_id@)) is None {
        Some((ErrorKind::BadRequest, "invalid category_id"@))
    } else {
        None
    }
}

/// Checks a request to record an expense; on success, the category id it
/// names.
pub fn validate_new_expense(auth: &AuthUser, payload: &CreateExpenseRequest) -> (r: AppResult<u128>)
    ensures
        match new_expense_rejection(*auth, *payload) {
            Some(e) => fails_with(r, e),
            None => r == Ok::<u128, AppError>(uuid_parsed(trimmed(payload.category_id@))->0),
        },
{
    if let Err(e) = require_user_or_admin(auth) {
        return Err(e);
    }
    if payload.amount_minor <= 0 {
        return Err(AppError::bad_request("amount_minor must be > 0"));
    }
    match parse_uuid(trim(payload.category_id.as_str()).as_str()) {
        None => Err(AppError::bad_request("invalid category_id")),
        Some(id) => Ok(id),
    }
}

/// The instant an expense occurred: the request's time if it is RFC 3339
/// text, else `now`.
pub open spec fn occurred_instant(occurred_at: Option<String>, now: int) -> int {
    match occurred_at {
        Some(v) => match rfc3339_instant(v@) {
            Some(t) => t as int,
            None => now,
        },
        None => now,
    }
}

/// The instant an expense occurred: the given RFC 3339 time, or `now` when
/// there is none or it does not parse.
pub fn occurred_instant_of(occurred_at: &Option<String>, now: i64) -> (r: i64)
    requires
        chrono_instant(now as int),
    ensures
        r == occurred_instant(*occurred_at, now as int),
        chrono_instant(r as int),
{
    match occurred_at {
        Some(v) => match parse_rfc3339(v.as_str()) {
            Some(t) => t,
            None => now,
        },
        None => now,
    }
}

/// The error for a request without an idempotency key.
pub open spec fn missing_key_error() -> ErrorView {
    (ErrorKind::BadRequest, "x-idempotency-key header is required"@)
}

/// The error for a category id that names no stored category.
pub open spec fn category_missing_error() -> ErrorView {
    (ErrorKind::NotFound, "category not found"@)
}

/// `t` is `s` with the expense answered by `resp` recorded: a new pending
/// expense of the caller in `category`, its response kept under `key`, and
/// the creation audited.
pub open spec fn expense_recorded(
    s: MemoryState,
    t: MemoryState,
    auth: AuthUser,
    p: CreateExpenseRequest,
    category: u128,
    key: Seq<char>,
    now: int,
    resp: ExpenseResponse,
) -> bool {
    let id = uuid_parsed(resp.id@)->0;
    let e = table_map(t.expenses@)[id];
    let log = t.audit_logs@.last();
    &&& table_map(t.expenses@) == table_map(s.expenses@).insert(id, e)
    &&& e.id == id
    &&& e.owner_user_id == auth.user_id
    &&& e.category_id == category
    &&& e.amount_minor == p.amount_minor
    &&& e.currency@ == p.currency@
    &&& e.status == ExpenseStatus::Pending
    &&& e.tx_hash is None
    &&& e.occurred_at == occurred_instant(p.occurred_at, now)
    &&& e.created_at == now
    &&& expense_response(e, resp)
    &&& table_map(t.idempotency@) == table_map(s.idempotency@).insert(key, table_map(t.idempotency@)[key])
    &&& table_map(t.idempotency@)[key].response == resp
    &&& audit_appended(s.audit_logs@, t.audit_logs@, auth.wallet@, "expense.create"@, Some(resp.id@), None, now)
    &&& log.metadata@.len() == 2
    &&& text_field(log.metadata@[0], "category_id"@, uuid_text(category))
    &&& int_field(log.metadata@[1], "amount_minor"@, p.amount_minor)
    &&& only_changed(s, t, set![Table::Expenses, Table::Idempotency, Table::AuditLogs])
}

/// What recording an expense with idempotency key `key` (the header's
/// text, `None` when absent) answers, and how `s` becomes `t`. The category
/// must be stored; then a key seen before answers the response kept under
/// it and changes nothing.
pub open spec fn create_expense_step(
    s: MemoryState,
    auth: AuthUser,
    p: CreateExpenseRequest,
    key: Option<String>,
    now: int,
    t: MemoryState,
    r: AppResult<ExpenseResponse>,
) -> bool {
    match new_expense_rejection(auth, p) {
        Some(e) => fails_with(r, e) && only_changed(s, t, Set::empty()),
        None => match key {
            None => fails_with(r, missing_key_error()) && only_changed(s, t, Set::empty()),
            Some(k) => if !table_map(s.categories@).contains_key(uuid_parsed(trimmed(p.category_id@))->0) {
                fails_with(r, category_missing_error()) && only_changed(s, t, Set::empty())
            } else if table_map(s.idempotency@).contains_key(k@) {
                &&& r == Ok::<ExpenseResponse, AppError>(table_map(s.idempotency@)[k@].response)
                &&& only_changed(s, t, Set::empty())
            } else {
                r matches Ok(resp) && expense_recorded(
                    s,
                    t,
                    auth,
                    p,
                    uuid_parsed(trimmed(p.category_id@))->0,
                    k@,
                    now,
                    resp,
                )
            },
        },
    }
}

impl MemoryState {
    fn store_expense(&mut self, expense: Expense)
        requires
            old(self).wf(),
            expense.amount_minor > 0,
            chrono_instant(expense.occurred_at as int),
            chrono_instant(expense.created_at as int),
        ensures
            final(self).wf(),
            table_map(final(self).expenses@) == table_map(old(self).expenses@).insert(expense.id, expense),
            only_changed(*old(self), *final(self), set![Table::Expenses]),
    {
        let id = expense.id;
        let ghost e = expense;
        upsert(&mut self.expenses, expense, &id);
        proof {
            assert forall|i: int| 0 <= i < self.expenses@.len() implies #[trigger] self.expenses@[i].amount_minor > 0 by {
                if self.expenses@[i] != e {
                    let j = choose|j: int| 0 <= j < old(self).expenses@.len() && old(self).expenses@[j] == self.expenses@[i];
                    assert(old(self).expenses@[j].amount_minor > 0);
                }
            }
            assert forall|i: int| 0 <= i < self.expenses@.len() implies chrono_instant(#[trigger] self.expenses@[i].occurred_at as int)
                && chrono_instant(self.expenses@[i].created_at as int) by {
                if self.expenses@[i] != e {
                    let j = choose|j: int| 0 <= j < old(self).expenses@.len() && old(self).expenses@[j] == self.expenses@[i];
                    assert(chrono_instant(old(self).expenses@[j].occurred_at as int));
                }
            }
        }
    }

    fn keep_response(&mut self, key: String, resp: ExpenseResponse)
        requires
            old(self).wf(),
        ensures
            final(self).wf(),
            table_map(final(self).idempotency@) == table_map(old(self).idempotency@).insert(
                key@,
                table_map(final(self).idempotency@)[key@],
            ),
            table_map(final(self).idempotency@)[key@].response == resp,
            only_changed(*old(self), *final(self), set![Table::Idempotency]),
    {
        let k = key.clone();
        upsert(&mut self.idempotency, IdempotencyEntry { key, response: resp }, &k);
    }

    fn cached_response(&self, key: &String) -> (r: Option<ExpenseResponse>)
        requires
            self.wf(),
        ensures
            match r {
                Some(x) => table_map(self.idempotency@).contains_key(key@) && x == table_map(self.idempotency@)[key@].response,
                None => !table_map(self.idempotency@).contains_key(key@),
            },
    {
        match find_index(&self.idempotency, key) {
            None => None,
            Some(i) => {
                proof {
                    lemma_table_map_at(self.idempotency@, i as int);
                }
                Some(self.idempotency[i].response.clone())
            },
        }
    }

    /// Records an expense of the caller in a stored category, once per
    /// idempotency key: a key seen before answers the response kept under
    /// it. The expense starts
    /// pending; it occurred at the request's time when that is RFC 3339
    /// text, else now.
    pub fn create_expense(
        &mut self,
        auth: &AuthUser,
        payload: &CreateExpenseRequest,
        idempotency_key: Option<String>,
        now: i64,
    ) -> (r: AppResult<ExpenseResponse>)
        requires
            old(self).wf(),
            chrono_instant(now as int),
        ensures
            final(self).wf(),
            create_expense_step(*old(self), *auth, *payload, idempotency_key, now as int, *final(self), r),
    {
        let category_id = match validate_new_expense(auth, payload) {
            Err(e) => {
                return Err(e);
            },
            Ok(c) => c,
        };
        let key = match idempotency_key {
            None => {
                return Err(AppError::bad_request("x-idempotency-key header is required"));
            },
            Some(k) => k,
        };
        if find_index(&self.categories, &category_id).is_none() {
            return Err(AppError::not_found("category not found"));
        }
        if let Some(cached) = self.cached_response(&key) {
            return Ok(cached);
        }
        let occurred_at = occurred_instant_of(&payload.occurred_at, now);
        let expense = Expense {
            id: new_uuid(),
            owner_user_id: auth.user_id,
            category_id,
            amount_minor: payload.amount_minor,
            currency: payload.currency.clone(),
            status: ExpenseStatus::Pending,
            tx_hash: None,
            occurred_at,
            created_at: now,
        };
        let id = expense.id;
        let response = respond(&expense);
        self.store_expense(expense);
        self.keep_response(key, response.clone());
        let metadata = vec![
            text_meta("category_id", response.category_id.clone()),
            MetaField { key: "amount_minor".to_owned(), value: MetaValue::Int(response.amount_minor) },
        ];
        self.append_audit(auth.wallet.clone(), "expense.create", Some(response.id.clone()), None, metadata, now);
        Ok(response)
    }
}

// ---------------------------------------------------------------------------
// Status decisions
// ---------------------------------------------------------------------------

/// Why a status decision is refused before anything else is looked at, if
/// it is: only admins decide, the expense id must be a UUID, and the new
/// status must be `Approved` or `Rejected`.
pub open spec fn status_change_rejection(auth: AuthUser, expense_id: Seq<char>, p: UpdateExpenseStatusRequest) -> Option<
    ErrorView,
> {
    if auth.role != Role::Admin {
        Some(role_error())
    } else if uuid_parsed(expense_id) is None {
        Some((ErrorKind::BadRequest, "invalid expense_id"@))
    } else if p.status == ExpenseStatus::Pending {
        Some((ErrorKind::BadRequest, "status must be approved or rejected"@))
    } else {
        None
    }
}

/// Checks a status decision; on success, the id of the expense.
pub fn validate_status_change(auth: &AuthUser, expense_id: &str, payload: &UpdateExpenseStatusRequest) -> (r: AppResult<u128>)
    ensures
        match status_change_rejection(*auth, expense_id@, *payload) {
            Some(e) => fails_with(r, e),
            None => r == Ok::<u128, AppError>(uuid_parsed(expense_id@)->0),
        },
{
    if let Err(e) = require_admin(auth) {
        return Err(e);
    }
    let id = match parse_uuid(expense_id) {
        None => {
            return Err(AppError::bad_request("invalid expense_id"));
        },
        Some(id) => id,
    };
    if payload.status == ExpenseStatus::Pending {
        return Err(AppError::bad_request("status must be approved or rejected"));
    }
    Ok(id)
}

/// The key under which the response of a decision on expense `id` with
/// idempotency key `key` is kept.
pub open spec fn status_cache_key(id: u128, key: Seq<char>) -> Seq<char> {
    "expense.status:"@ + uuid_text(id) + ":"@ + key
}

/// The key under which the response of a decision is kept.
pub fn status_cache_key_text(id: u128, key: &str) -> (r: String)
    ensures
        r@ == status_cache_key(id, key@),
{
    let mut k = "expense.status:".to_owned();
    k.append(uuid_to_string(id).as_str());
    k.append(":");
    k.append(key);
    k
}

/// `t` is `s` with expense `id` (pending in `s`) decided as `p` says by
/// `auth`, the response `resp` kept under `cache_key`, and the decision
/// audited.
pub open spec fn status_decided(
    s: MemoryState,
    t: MemoryState,
    auth: AuthUser,
    id: u128,
    p: UpdateExpenseStatusRequest,
    key: Seq<char>,
    now: int,
    resp: ExpenseResponse,
) -> bool {
    let e = table_map(s.expenses@)[id];
    let log = t.audit_logs@.last();
    let ck = status_cache_key(id, key);
    &&& table_map(t.expenses@) == table_map(s.expenses@).insert(id, Expense { status: p.status, ..e })
    &&& expense_response(Expense { status: p.status, ..e }, resp)
    &&& table_map(t.idempotency@) == table_map(s.idempotency@).insert(ck, table_map(t.idempotency@)[ck])
    &&& table_map(t.idempotency@)[ck].response == resp
    &&& audit_appended(
        s.audit_logs@,
        t.audit_logs@,
        auth.wallet@,
        status_action_text(p.status),
        Some(uuid_text(id)),
        opt_text(e.tx_hash),
        now,
    )
    &&& log.metadata@.len() == 4
    &&& text_field(log.metadata@[0], "from_status"@, "pending"@)
    &&& text_field(log.metadata@[1], "to_status"@, status_text(p.status))
    &&& opt_text_field(log.metadata@[2], "reason"@, opt_text(p.reason))
    &&& text_field(log.metadata@[3], "idempotency_key"@, key)
    &&& only_changed(s, t, set![Table::Expenses, Table::Idempotency, Table::AuditLogs])
}

/// What a status decision on the expense with id text `expense_id` answers,
/// and how `s` becomes `t`. A decision whose key was seen before for this
/// expense answers the response kept for it; otherwise only a pending
/// expense can be decided.
pub open spec fn status_step(
    s: MemoryState,
    auth: AuthUser,
    expense_id: Seq<char>,
    p: UpdateExpenseStatusRequest,
    key: Option<String>,
    now: int,
    t: MemoryState,
    r: AppResult<ExpenseResponse>,
) -> bool {
    match status_change_rejection(auth, expense_id, p) {
        Some(e) => fails_with(r, e) && only_changed(s, t, Set::empty()),
        None => {
            let id = uuid_parsed(expense_id)->0;
            match key {
                None => fails_with(r, missing_key_error()) && only_changed(s, t, Set::empty()),
                Some(k) => if table_map(s.idempotency@).contains_key(status_cache_key(id, k@)) {
                    &&& r == Ok::<ExpenseResponse, AppError>(table_map(s.idempotency@)[status_cache_key(id, k@)].response)
                    &&& only_changed(s, t, Set::empty())
                } else if !table_map(s.expenses@).contains_key(id) {
                    fails_with(r, (ErrorKind::NotFound, "expense not found"@)) && only_changed(s, t, Set::empty())
                } else if table_map(s.expenses@)[id].status != ExpenseStatus::Pending {
                    fails_with(r, (ErrorKind::BadRequest, "expense status is final"@)) && only_changed(s, t, Set::empty())
                } else {
                    r matches Ok(resp) && status_decided(s, t, auth, id, p, k@, now, resp)
                },
            }
        },
    }
}

impl MemoryState {
    /// Approves or rejects a pending expense (admins only), once per
    /// idempotency key: a key seen before for the expense answers the
    /// response kept for it. A decided expense stays decided.
    pub fn update_expense_status(
        &mut self,
        auth: &AuthUser,
        expense_id: &str,
        payload: &UpdateExpenseStatusRequest,
        idempotency_key: Option<String>,
        now: i64,
    ) -> (r: AppResult<ExpenseResponse>)
        requires
            old(self).wf(),
            chrono_instant(now as int),
        ensures
            final(self).wf(),
            status_step(*old(self), *auth, expense_id@, *payload, idempotency_key, now as int, *final(self), r),
    {
        let id = match validate_status_change(auth, expense_id, payload) {
            Err(e) => {
                return Err(e);
            },
            Ok(id) => id,
        };
        let key = match idempotency_key {
            None => {
                return Err(AppError::bad_request("x-idempotency-key header is required"));
            },
            Some(k) => k,
        };
        let cache_key = status_cache_key_text(id, key.as_str());
        if let Some(cached) = self.cached_response(&cache_key) {
            return Ok(cached);
        }
        let idx = match find_index(&self.expenses, &id) {
            None => {
                return Err(AppError::not_found("expense not found"));
            },
            Some(i) => i,
        };
        proof {
            lemma_table_map_at(self.expenses@, idx as int);
        }
        let mut expense = self.expenses[idx].clone();
        let from_status = expense.status;
        if from_status != ExpenseStatus::Pending {
            return Err(AppError::bad_request("expense status is final"));
        }
        expense.status = payload.status;
        let response = respond(&expense);
        let tx_hash = clone_opt(&expense.tx_hash);
        self.store_expense(expense);
        self.keep_response(cache_key, response.clone());
        let reason = match &payload.reason {
            Some(x) => MetaValue::Text(x.clone()),
            None => MetaValue::Null,
        };
        let metadata = vec![
            text_meta("from_status", status_to_db(&from_status).to_owned()),
            text_meta("to_status", status_to_db(&payload.status).to_owned()),
            MetaField { key: "reason".to_owned(), value: reason },
            text_meta("idempotency_key", key),
        ];
        self.append_audit(auth.wallet.clone(), status_action(&payload.status), Some(uuid_to_string(id)), tx_hash, metadata, now);
        Ok(response)
    }
}

// ---------------------------------------------------------------------------
// Laws of the ledger
// ---------------------------------------------------------------------------

/// Recording an expense is idempotent: once a request with key `k` has been
/// answered, any later valid request with the same key that names a stored
/// category (whatever else it carries) answers the same response and
/// records nothing, as long as the state between still keeps that key's
/// response.
pub proof fn law_create_expense_idempotent(
    s0: MemoryState,
    auth: AuthUser,
    p: CreateExpenseRequest,
    k: String,
    t0: int,
    s1: MemoryState,
    r1: AppResult<ExpenseResponse>,
    s2: MemoryState,
    auth2: AuthUser,
    p2: CreateExpenseRequest,
    k2: String,
    t2: int,
    s3: MemoryState,
    r2: AppResult<ExpenseResponse>,
)
    requires
        create_expense_step(s0, auth, p, Some(k), t0, s1, r1),
        r1 is Ok,
        table_map(s2.idempotency@) == table_map(s1.idempotency@),
        k2@ == k@,
        new_expense_rejection(auth2, p2) is None,
        table_map(s2.categories@).contains_key(uuid_parsed(trimmed(p2.category_id@))->0),
        create_expense_step(s2, auth2, p2, Some(k2), t2, s3, r2),
    ensures
        r2 == r1,
        only_changed(s2, s3, Set::empty()),
{
    assert(table_map(s1.idempotency@).contains_key(k@));
}

/// Two category responses carry the same texts.
pub open spec fn same_category(a: CategoryResponse, b: CategoryResponse) -> bool {
    a.id@ == b.id@ && a.owner_user_id@ == b.owner_user_id@ && a.name@ == b.name@ && a.created_at@ == b.created_at@
}

/// Two expense responses carry the same texts and values.
pub open spec fn same_expense(a: ExpenseResponse, b: ExpenseResponse) -> bool {
    &&& a.id@ == b.id@
    &&& a.owner_user_id@ == b.owner_user_id@
    &&& a.category_id@ == b.category_id@
    &&& a.amount_minor == b.amount_minor
    &&& a.currency@ == b.currency@
    &&& a.status == b.status
    &&& opt_text(a.tx_hash) == opt_text(b.tx_hash)
    &&& a.occurred_at@ == b.occurred_at@
    &&& a.created_at@ == b.created_at@
}

/// A category just created shows in its owner's listing, and that listing
/// holds the owner's categories only.
pub proof fn law_created_category_is_listed(
    s0: MemoryState,
    auth: AuthUser,
    p: CreateCategoryRequest,
    now: int,
    s1: MemoryState,
    r1: AppResult<CategoryResponse>,
    r2: AppResult<Vec<CategoryResponse>>,
)
    requires
        s1.wf(),
        category_step(s0, auth, p, now, s1, r1),
        r1 is Ok,
        categories_listing(s1, auth, r2),
    ensures
        r2 matches Ok(rows) && (exists|i: int| 0 <= i < rows@.len() && same_category(#[trigger] rows@[i], r1->Ok_0))
            && forall|i: int| 0 <= i < rows@.len() ==> (#[trigger] rows@[i]).owner_user_id@ == uuid_text(auth.user_id),
{
    let resp = r1->Ok_0;
    let id = uuid_parsed(resp.id@)->0;
    let c = table_map(s1.categories@)[id];
    assert(table_map(s1.categories@).contains_key(id));
    assert(has_key_in(s1.categories@, id));
    let j = choose|j: int| 0 <= j < s1.categories@.len() && #[trigger] s1.categories@[j].key() == id;
    lemma_table_map_at(s1.categories@, j);
    let pred = |x: Category| x.owner_user_id == auth.user_id;
    let mine = s1.categories@.filter(pred);
    s1.categories@.filter_lemma(pred);
    assert(pred(s1.categories@[j]));
    assert(mine.contains(c));
    let k = choose|k: int| 0 <= k < mine.len() && mine[k] == c;
    let rows = r2->Ok_0;
    assert(category_response(mine[k], rows@[k]));
    assert(same_category(rows@[k], resp));
    assert forall|i: int| 0 <= i < rows@.len() implies (#[trigger] rows@[i]).owner_user_id@ == uuid_text(auth.user_id) by {
        assert(category_response(mine[i], rows@[i]));
        assert(pred(mine[i]));
    }
}

/// An expense just recorded under a new idempotency key shows in the
/// listing of its owner (a user sees only their own expenses) and in an
/// admin's listing.
pub proof fn law_created_expense_is_listed(
    s0: MemoryState,
    auth: AuthUser,
    p: CreateExpenseRequest,
    k: String,
    now: int,
    s1: MemoryState,
    r1: AppResult<ExpenseResponse>,
    viewer: AuthUser,
    r2: AppResult<Vec<ExpenseResponse>>,
)
    requires
        s1.wf(),
        create_expense_step(s0, auth, p, Some(k), now, s1, r1),
        !table_map(s0.idempotency@).contains_key(k@),
        r1 is Ok,
        viewer.user_id == auth.user_id || viewer.role == Role::Admin,
        may_record(viewer),
        expenses_listing(s1, viewer, r2),
    ensures
        r2 matches Ok(rows) && (exists|i: int| 0 <= i < rows@.len() && same_expense(#[trigger] rows@[i], r1->Ok_0))
            && (viewer.role != Role::Admin ==> forall|i: int|
            0 <= i < rows@.len() ==> (#[trigger] rows@[i]).owner_user_id@ == uuid_text(viewer.user_id)),
{
    let resp = r1->Ok_0;
    let id = uuid_parsed(resp.id@)->0;
    let e = table_map(s1.expenses@)[id];
    assert(table_map(s1.expenses@).contains_key(id));
    assert(has_key_in(s1.expenses@, id));
    let j = choose|j: int| 0 <= j < s1.expenses@.len() && #[trigger] s1.expenses@[j].key() == id;
    lemma_table_map_at(s1.expenses@, j);
    let pred = sees(viewer);
    let seen = s1.expenses@.filter(pred);
    s1.expenses@.filter_lemma(pred);
    assert(pred(s1.expenses@[j]));
    assert(seen.contains(e));
    let m = choose|m: int| 0 <= m < seen.len() && seen[m] == e;
    let rows = r2->Ok_0;
    assert(expense_response(seen[m], rows@[m]));
    assert(same_expense(rows@[m], resp));
    if viewer.role != Role::Admin {
        assert forall|i: int| 0 <= i < rows@.len() implies (#[trigger] rows@[i]).owner_user_id@ == uuid_text(
            viewer.user_id,
        ) by {
            assert(expense_response(seen[i], rows@[i]));
            assert(pred(seen[i]));
        }
    }
}

/// The expense that the kept response `resp` answers is stored in `exps`
/// under the id the response names, and the response says what it holds
/// in all but its status, which decisions may have changed since.
pub open spec fn kept_expense_stored(exps: Seq<Expense>, resp: ExpenseResponse) -> bool {
    let id = uuid_parsed(resp.id@)->0;
    &&& uuid_parsed(resp.id@) is Some
    &&& table_map(exps).contains_key(id)
    &&& expense_response(Expense { status: resp.status, ..table_map(exps)[id] }, resp)
}

/// Every response kept under an idempotency key answers a stored expense.
pub open spec fn replays_stored(s: MemoryState) -> bool {
    forall|k: Seq<char>|
        #[trigger] table_map(s.idempotency@).contains_key(k) ==> kept_expense_stored(
            s.expenses@,
            table_map(s.idempotency@)[k].response,
        )
}

/// A state with no kept responses, such as a new one, has every kept
/// response answering a stored expense.
pub proof fn law_empty_state_replays_stored(s: MemoryState)
    requires
        s.idempotency@.len() == 0,
    ensures
        replays_stored(s),
{
    assert forall|k: Seq<char>| !#[trigger] table_map(s.idempotency@).contains_key(k) by {
        if table_map(s.idempotency@).contains_key(k) {
            assert(has_key_in(s.idempotency@, k));
        }
    }
}

/// Recording an expense keeps every kept response answering a stored
/// expense, as long as the id drawn for a new expense is not already the id
/// of a stored one (a repeated random UUID would replace that expense).
pub proof fn law_create_keeps_replays_stored(
    s0: MemoryState,
    auth: AuthUser,
    p: CreateExpenseRequest,
    key: Option<String>,
    now: int,
    s1: MemoryState,
    r: AppResult<ExpenseResponse>,
)
    requires
        replays_stored(s0),
        create_expense_step(s0, auth, p, key, now, s1, r),
        (r is Ok && key is Some && !table_map(s0.idempotency@).contains_key(key->Some_0@)) ==> !table_map(
            s0.expenses@,
        ).contains_key(uuid_parsed(r->Ok_0.id@)->0),
    ensures
        replays_stored(s1),
{
    if key is Some && r is Ok && !table_map(s0.idempotency@).contains_key(key->Some_0@) {
        let k = key->Some_0;
        let resp = r->Ok_0;
        let id = uuid_parsed(resp.id@)->0;
        assert forall|q: Seq<char>| #[trigger] table_map(s1.idempotency@).contains_key(q) implies kept_expense_stored(
            s1.expenses@,
            table_map(s1.idempotency@)[q].response,
        ) by {
            if q != k@ {
                assert(table_map(s0.idempotency@).contains_key(q));
                let old_resp = table_map(s0.idempotency@)[q].response;
                assert(kept_expense_stored(s0.expenses@, old_resp));
                assert(uuid_parsed(old_resp.id@)->0 != id);
            }
        }
    }
}

/// A status decision keeps every kept response answering a stored expense:
/// a decision changes only the status of the expense it decides.
pub proof fn law_decision_keeps_replays_stored(
    s0: MemoryState,
    auth: AuthUser,
    expense_id: Seq<char>,
    p: UpdateExpenseStatusRequest,
    key: Option<String>,
    now: int,
    s1: MemoryState,
    r: AppResult<ExpenseResponse>,
)
    requires
        replays_stored(s0),
        status_step(s0, auth, expense_id, p, key, now, s1, r),
    ensures
        replays_stored(s1),
{
    if status_change_rejection(auth, expense_id, p) is None && key is Some {
        let id = uuid_parsed(expense_id)->0;
        let k = key->Some_0;
        let ck = status_cache_key(id, k@);
        if !table_map(s0.idempotency@).contains_key(ck) && table_map(s0.expenses@).contains_key(id)
            && table_map(s0.expenses@)[id].status == ExpenseStatus::Pending {
            assert forall|q: Seq<char>| #[trigger] table_map(s1.idempotency@).contains_key(q) implies kept_expense_stored(
                s1.expenses@,
                table_map(s1.idempotency@)[q].response,
            ) by {
                if q != ck {
                    assert(table_map(s0.idempotency@).contains_key(q));
                    let old_resp = table_map(s0.idempotency@)[q].response;
                    assert(kept_expense_stored(s0.expenses@, old_resp));
                    let oid = uuid_parsed(old_resp.id@)->0;
                    if oid == id {
                        assert(Expense { status: old_resp.status, ..table_map(s1.expenses@)[oid] } == Expense {
                            status: old_resp.status,
                            ..table_map(s0.expenses@)[oid]
                        });
                    }
                }
            }
        }
    }
}

/// An operation that changes neither the expenses nor the kept responses
/// keeps every kept response answering a stored expense.
pub proof fn law_other_operations_keep_replays_stored(s0: MemoryState, s1: MemoryState, changed: Set<Table>)
    requires
        replays_stored(s0),
        only_changed(s0, s1, changed),
        !changed.contains(Table::Expenses),
        !changed.contains(Table::Idempotency),
    ensures
        replays_stored(s1),
{
}

/// Two expense responses carry the same texts and values, the status
/// aside.
pub open spec fn same_expense_but_status(a: ExpenseResponse, b: ExpenseResponse) -> bool {
    same_expense(a, ExpenseResponse { status: a.status, ..b })
}

/// An expense request answered again from a kept response (its key was
/// used before) names an expense that shows in the listing of that
/// expense's owner and in an admin's: the listed expense is the one the
/// response answers, with its status as it stands now.
pub proof fn law_replayed_expense_is_listed(
    s0: MemoryState,
    auth: AuthUser,
    p: CreateExpenseRequest,
    k: String,
    now: int,
    s1: MemoryState,
    r1: AppResult<ExpenseResponse>,
    viewer: AuthUser,
    r2: AppResult<Vec<ExpenseResponse>>,
)
    requires
        s0.wf(),
        replays_stored(s0),
        create_expense_step(s0, auth, p, Some(k), now, s1, r1),
        table_map(s0.idempotency@).contains_key(k@),
        r1 is Ok,
        uuid_parsed(r1->Ok_0.owner_user_id@) == Some(viewer.user_id) || viewer.role == Role::Admin,
        may_record(viewer),
        expenses_listing(s1, viewer, r2),
    ensures
        r2 matches Ok(rows) && exists|i: int|
            0 <= i < rows@.len() && same_expense_but_status(#[trigger] rows@[i], r1->Ok_0),
{
    let resp = r1->Ok_0;
    assert(resp == table_map(s0.idempotency@)[k@].response);
    assert(s1.expenses@ == s0.expenses@);
    assert(kept_expense_stored(s0.expenses@, resp));
    let id = uuid_parsed(resp.id@)->0;
    let e = table_map(s1.expenses@)[id];
    assert(has_key_in(s1.expenses@, id));
    let j = choose|j: int| 0 <= j < s1.expenses@.len() && #[trigger] s1.expenses@[j].key() == id;
    lemma_table_map_at(s1.expenses@, j);
    let pred = sees(viewer);
    let seen = s1.expenses@.filter(pred);
    s1.expenses@.filter_lemma(pred);
    assert(pred(s1.expenses@[j]));
    assert(seen.contains(e));
    let m = choose|m: int| 0 <= m < seen.len() && seen[m] == e;
    let rows = r2->Ok_0;
    assert(expense_response(seen[m], rows@[m]));
    assert(same_expense_but_status(rows@[m], resp));
}

/// Every expense an accepted search answers meets each criterion the query
/// names: its category is the requested category, its status text the requested
/// status, its currency the requested currency, and, for a caller who is not
/// an admin, it is the caller's own.
pub proof fn law_search_results_meet_criteria(
    s: MemoryState,
    auth: AuthUser,
    q: SearchExpensesQuery,
    f: SearchFilter,
    resp: SearchExpensesResponse,
)
    requires
        search_rejection(auth, q) is None,
        filter_of(q, f),
        search_answer(s.expenses@.filter(|e: Expense| search_hit(auth, f, e)), f, resp),
    ensures
        forall|i: int|
            0 <= i < resp.items@.len() ==> {
                let x = #[trigger] resp.items@[i];
                &&& (q.category_id is Some ==> x.category_id@ == uuid_text(uuid_parsed(q.category_id->Some_0@)->0))
                &&& (q.status is Some ==> status_text(x.status) == q.status->Some_0@)
                &&& (q.currency is Some ==> x.currency@ == q.currency->Some_0@)
                &&& (auth.role != Role::Admin ==> x.owner_user_id@ == uuid_text(auth.user_id))
                &&& exists|t: i64|
                    #![trigger rfc3339_text(t)]
                    x.occurred_at@ == rfc3339_text(t) && (q.from is Some ==> t >= time_bound(q.from)->Some_0->Some_0)
                        && (q.to is Some ==> t <= time_bound(q.to)->Some_0->Some_0)
            },
{
    let pred = |e: Expense| search_hit(auth, f, e);
    let hits = s.expenses@.filter(pred);
    s.expenses@.filter_lemma(pred);
    let (rows, sorted) = choose|rows: Seq<ExpenseResponse>, sorted: Seq<ExpenseResponse>|
        #![trigger listed(hits, rows), is_ranking(rows, sorted)]
        {
            &&& listed(hits, rows)
            &&& is_ranking(rows, sorted)
            &&& resp.total == sorted.len() as i64
            &&& resp.items@ == page(sorted, f.offset as int, f.limit as int)
            &&& resp.limit == f.limit
            &&& resp.offset == f.offset
            &&& resp.has_more == (f.offset + resp.items@.len() < sorted.len())
        };
    let idx = choose|idx: Seq<int>| ranked_order(rows, idx) && sorted == idx.map_values(|i: int| rows[i]);
    assert forall|i: int| 0 <= i < resp.items@.len() implies {
        let x = #[trigger] resp.items@[i];
        &&& (q.category_id is Some ==> x.category_id@ == uuid_text(uuid_parsed(q.category_id->Some_0@)->0))
        &&& (q.status is Some ==> status_text(x.status) == q.status->Some_0@)
        &&& (q.currency is Some ==> x.currency@ == q.currency->Some_0@)
        &&& (auth.role != Role::Admin ==> x.owner_user_id@ == uuid_text(auth.user_id))
        &&& exists|t: i64|
            #![trigger rfc3339_text(t)]
            x.occurred_at@ == rfc3339_text(t) && (q.from is Some ==> t >= time_bound(q.from)->Some_0->Some_0) && (q.to is Some
                ==> t <= time_bound(q.to)->Some_0->Some_0)
    } by {
        let a = f.offset as int + i;
        assert(resp.items@[i] == sorted[a]);
        let j = idx[a];
        assert(0 <= j < rows.len());
        assert(sorted[a] == rows[j]);
        assert(expense_response(hits[j], rows[j]));
        assert(pred(hits[j]));
        let t = hits[j].occurred_at;
        assert(resp.items@[i].occurred_at@ == rfc3339_text(t));
    }
}

/// A search answer counts every result, returns newest first the page of
/// them that starts at the offset and holds at most the limit, and says
/// whether results remain past the page.
pub proof fn law_search_answers_newest_first_paged(hits: Seq<Expense>, f: SearchFilter, resp: SearchExpensesResponse)
    requires
        search_answer(hits, f, resp),
    ensures
        resp.total == hits.len() as i64,
        resp.items@.len() == (if f.offset >= hits.len() {
            0
        } else if f.offset + f.limit >= hits.len() {
            hits.len() - f.offset
        } else {
            f.limit as int
        }),
        resp.has_more == (f.offset + resp.items@.len() < hits.len()),
        forall|a: int, b: int|
            #![trigger resp.items@[a], resp.items@[b]]
            0 <= a < b < resp.items@.len() ==> !text_lt(resp.items@[a].created_at@, resp.items@[b].created_at@),
{
    let (rows, sorted) = choose|rows: Seq<ExpenseResponse>, sorted: Seq<ExpenseResponse>|
        #![trigger listed(hits, rows), is_ranking(rows, sorted)]
        {
            &&& listed(hits, rows)
            &&& is_ranking(rows, sorted)
            &&& resp.total == sorted.len() as i64
            &&& resp.items@ == page(sorted, f.offset as int, f.limit as int)
            &&& resp.limit == f.limit
            &&& resp.offset == f.offset
            &&& resp.has_more == (f.offset + resp.items@.len() < sorted.len())
        };
    lemma_ranking_sorted(rows, sorted);
    assert forall|a: int, b: int|
        #![trigger resp.items@[a], resp.items@[b]]
        0 <= a < b < resp.items@.len() implies !text_lt(resp.items@[a].created_at@, resp.items@[b].created_at@) by {
        let o = f.offset as int;
        assert(resp.items@[a] == sorted[o + a] && resp.items@[b] == sorted[o + b]);
        assert(!sorted[o + b].ranks_before(&sorted[o + a]));
    }
}

/// An audit log listing holds at most the limit (50 unless given, never
/// more than 200) of its matching entries, all of them when there are
/// fewer, newest first.
pub proof fn law_audit_listing_newest_first(hits: Seq<AuditLog>, limit: Option<usize>, rows: Seq<AuditLogItem>)
    requires
        logs_answer(hits, listing_limit(limit) as int, rows),
    ensures
        listing_limit(limit) <= 200,
        limit is None ==> listing_limit(limit) == 50,
        limit is Some && limit->Some_0 <= 200 ==> listing_limit(limit) == limit->Some_0,
        rows.len() == (if listing_limit(limit) < hits.len() {
            listing_limit(limit) as int
        } else {
            hits.len() as int
        }),
        forall|a: int, b: int|
            #![trigger rows[a], rows[b]]
            0 <= a < b < rows.len() ==> !text_lt(rows[a].created_at@, rows[b].created_at@),
{
    let (items, sorted) = choose|items: Seq<AuditLogItem>, sorted: Seq<AuditLogItem>|
        #![trigger is_ranking(items, sorted)]
        {
            &&& items.len() == hits.len()
            &&& (forall|i: int| 0 <= i < hits.len() ==> log_item(hits[i], #[trigger] items[i]))
            &&& is_ranking(items, sorted)
            &&& rows == first_n(sorted, listing_limit(limit) as int)
        };
    lemma_ranking_sorted(items, sorted);
    assert forall|a: int, b: int| #![trigger rows[a], rows[b]] 0 <= a < b < rows.len() implies !text_lt(
        rows[a].created_at@,
        rows[b].created_at@,
    ) by {
        assert(rows[a] == sorted[a] && rows[b] == sorted[b]);
        assert(!sorted[b].ranks_before(&sorted[a]));
    }
}

/// An expense's history holds at most the limit of its matching entries,
/// all of them when there are fewer, newest first.
pub proof fn law_history_newest_first(hits: Seq<AuditLog>, limit: Option<usize>, rows: Seq<ExpenseHistoryItem>)
    requires
        history_answer(hits, listing_limit(limit) as int, rows),
    ensures
        rows.len() == (if listing_limit(limit) < hits.len() {
            listing_limit(limit) as int
        } else {
            hits.len() as int
        }),
        forall|a: int, b: int|
            #![trigger rows[a], rows[b]]
            0 <= a < b < rows.len() ==> !text_lt(rows[a].created_at@, rows[b].created_at@),
{
    let (items, sorted) = choose|items: Seq<ExpenseHistoryItem>, sorted: Seq<ExpenseHistoryItem>|
        #![trigger is_ranking(items, sorted)]
        {
            &&& items.len() == hits.len()
            &&& (forall|i: int| 0 <= i < hits.len() ==> history_item(hits[i], #[trigger] items[i]))
            &&& is_ranking(items, sorted)
            &&& rows == first_n(sorted, listing_limit(limit) as int)
        };
    lemma_ranking_sorted(items, sorted);
    assert forall|a: int, b: int| #![trigger rows[a], rows[b]] 0 <= a < b < rows.len() implies !text_lt(
        rows[a].created_at@,
        rows[b].created_at@,
    ) by {
        assert(rows[a] == sorted[a] && rows[b] == sorted[b]);
        assert(!sorted[b].ranks_before(&sorted[a]));
    }
}

/// Every entry of an audit log listing meets the query's filters: the
/// requested action, actor and target.
pub proof fn law_audit_listing_meets_filters(
    logs: Seq<AuditLog>,
    q: AuditLogsQuery,
    from: Option<i64>,
    to: Option<i64>,
    n: int,
    rows: Seq<AuditLogItem>,
)
    requires
        0 <= n,
        logs_answer(logs.filter(|x: AuditLog| log_hit(q, from, to, x)), n, rows),
    ensures
        forall|i: int|
            0 <= i < rows.len() ==> {
                let row = #[trigger] rows[i];
                &&& (q.action is Some ==> row.action@ == q.action->Some_0@)
                &&& (q.actor_wallet is Some ==> row.actor_wallet@ == q.actor_wallet->Some_0@)
                &&& (q.target_id is Some ==> opt_text(row.target_id) == Some(q.target_id->Some_0@))
            },
{
    let pred = |x: AuditLog| log_hit(q, from, to, x);
    let hits = logs.filter(pred);
    logs.filter_lemma(pred);
    let (items, sorted) = choose|items: Seq<AuditLogItem>, sorted: Seq<AuditLogItem>|
        #![trigger is_ranking(items, sorted)]
        {
            &&& items.len() == hits.len()
            &&& (forall|i: int| 0 <= i < hits.len() ==> log_item(hits[i], #[trigger] items[i]))
            &&& is_ranking(items, sorted)
            &&& rows == first_n(sorted, n)
        };
    lemma_ranking_sorted(items, sorted);
    assert forall|i: int| 0 <= i < rows.len() implies {
        let row = #[trigger] rows[i];
        &&& (q.action is Some ==> row.action@ == q.action->Some_0@)
        &&& (q.actor_wallet is Some ==> row.actor_wallet@ == q.actor_wallet->Some_0@)
        &&& (q.target_id is Some ==> opt_text(row.target_id) == Some(q.target_id->Some_0@))
    } by {
        assert(rows[i] == sorted[i]);
        assert(items.contains(sorted[i]));
        let j = choose|j: int| 0 <= j < items.len() && items[j] == sorted[i];
        assert(log_item(hits[j], items[j]));
        assert(pred(hits[j]));
    }
}

/// Every entry of an expense's history is about that expense.
pub proof fn law_history_is_about_the_expense(
    logs: Seq<AuditLog>,
    id: u128,
    from: Option<i64>,
    to: Option<i64>,
    n: int,
    rows: Seq<ExpenseHistoryItem>,
)
    requires
        0 <= n,
        history_answer(logs.filter(|x: AuditLog| history_hit(id, from, to, x)), n, rows),
    ensures
        forall|i: int| 0 <= i < rows.len() ==> opt_text(#[trigger] rows[i].target_id) == Some(uuid_text(id)),
{
    let pred = |x: AuditLog| history_hit(id, from, to, x);
    let hits = logs.filter(pred);
    logs.filter_lemma(pred);
    let (items, sorted) = choose|items: Seq<ExpenseHistoryItem>, sorted: Seq<ExpenseHistoryItem>|
        #![trigger is_ranking(items, sorted)]
        {
            &&& items.len() == hits.len()
            &&& (forall|i: int| 0 <= i < hits.len() ==> history_item(hits[i], #[trigger] items[i]))
            &&& is_ranking(items, sorted)
            &&& rows == first_n(sorted, n)
        };
    lemma_ranking_sorted(items, sorted);
    assert forall|i: int| 0 <= i < rows.len() implies opt_text(#[trigger] rows[i].target_id) == Some(uuid_text(id)) by {
        assert(rows[i] == sorted[i]);
        assert(items.contains(sorted[i]));
        let j = choose|j: int| 0 <= j < items.len() && items[j] == sorted[i];
        assert(history_item(hits[j], items[j]));
        assert(pred(hits[j]));
    }
}

/// A decision is final: once a pending expense has been approved or
/// rejected under a new key, any later decision on it under a new key is
/// refused with `expense status is final`, and changes nothing.
pub proof fn law_status_is_final(
    s0: MemoryState,
    auth: AuthUser,
    expense_id: Seq<char>,
    p: UpdateExpenseStatusRequest,
    k: String,
    t0: int,
    s1: MemoryState,
    r1: AppResult<ExpenseResponse>,
    p2: UpdateExpenseStatusRequest,
    k2: String,
    t2: int,
    s2: MemoryState,
    r2: AppResult<ExpenseResponse>,
)
    requires
        status_step(s0, auth, expense_id, p, Some(k), t0, s1, r1),
        r1 is Ok,
        table_map(s0.expenses@).contains_key(uuid_parsed(expense_id)->0),
        table_map(s0.expenses@)[uuid_parsed(expense_id)->0].status == ExpenseStatus::Pending,
        !table_map(s0.idempotency@).contains_key(status_cache_key(uuid_parsed(expense_id)->0, k@)),
        status_change_rejection(auth, expense_id, p2) is None,
        !table_map(s1.idempotency@).contains_key(status_cache_key(uuid_parsed(expense_id)->0, k2@)),
        status_step(s1, auth, expense_id, p2, Some(k2), t2, s2, r2),
    ensures
        fails_with(r2, (ErrorKind::BadRequest, "expense status is final"@)),
        only_changed(s1, s2, Set::empty()),
{
    let id = uuid_parsed(expense_id)->0;
    assert(table_map(s1.expenses@).contains_key(id));
}

/// A decision only ever moves an expense out of `Pending`: whatever a
/// decision answers, every expense that was already decided keeps its
/// status.
pub proof fn law_decided_expenses_keep_status(
    s0: MemoryState,
    auth: AuthUser,
    expense_id: Seq<char>,
    p: UpdateExpenseStatusRequest,
    k: Option<String>,
    now: int,
    s1: MemoryState,
    r: AppResult<ExpenseResponse>,
    other: u128,
)
    requires
        status_step(s0, auth, expense_id, p, k, now, s1, r),
        table_map(s0.expenses@).contains_key(other),
        table_map(s0.expenses@)[other].status != ExpenseStatus::Pending,
    ensures
        table_map(s1.expenses@).contains_key(other),
        table_map(s1.expenses@)[other].status == table_map(s0.expenses@)[other].status,
{
}

// ---------------------------------------------------------------------------
// Listings
// ---------------------------------------------------------------------------

/// Query of an expense's history.
#[derive(Debug, PartialEq, Eq)]
pub struct ExpenseHistoryQuery {
    pub from: Option<String>,
    pub to: Option<String>,
    pub limit: Option<usize>,
}

/// Query of the expense search.
#[derive(Debug, PartialEq, Eq)]
pub struct SearchExpensesQuery {
    pub status: Option<String>,
    pub category_id: Option<String>,
    pub currency: Option<String>,
    pub from: Option<String>,
    pub to: Option<String>,
    pub q: Option<String>,
    pub limit: Option<usize>,
    pub offset: Option<usize>,
}

/// Query of the audit log.
#[derive(Debug, PartialEq, Eq)]
pub struct AuditLogsQuery {
    pub action: Option<String>,
    pub actor_wallet: Option<String>,
    pub target_id: Option<String>,
    pub from: Option<String>,
    pub to: Option<String>,
    pub limit: Option<usize>,
}

/// An entry of an expense's history.
#[derive(Debug, PartialEq, Eq)]
pub struct ExpenseHistoryItem {
    pub id: String,
    pub actor_wallet: String,
    pub action: String,
    pub target_id: Option<String>,
    pub tx_hash: Option<String>,
    pub metadata: Vec<MetaField>,
    pub created_at: String,
}

/// An entry of the audit log as the API returns it.
#[derive(Debug, PartialEq, Eq)]
pub struct AuditLogItem {
    pub id: String,
    pub actor_wallet: String,
    pub action: String,
    pub target_id: Option<String>,
    pub tx_hash: Option<String>,
    pub metadata: Vec<MetaField>,
    pub created_at: String,
}

/// A page of search results.
#[derive(Debug, PartialEq, Eq)]
pub struct SearchExpensesResponse {
    pub items: Vec<ExpenseResponse>,
    pub total: i64,
    pub limit: usize,
    pub offset: usize,
    pub has_more: bool,
}

/// The checked criteria of a search.
#[derive(Debug, PartialEq, Eq)]
pub struct SearchFilter {
    pub status: Option<String>,
    pub category_id: Option<u128>,
    pub currency: Option<String>,
    /// Earliest occurrence, microseconds since the epoch.
    pub from: Option<i64>,
    /// Latest occurrence, microseconds since the epoch.
    pub to: Option<i64>,
    pub q: Option<String>,
    pub limit: usize,
    pub offset: usize,
}

impl Ranked for ExpenseResponse {
    /// Newer creation time (by its text) first.
    open spec fn ranks_before(&self, other: &Self) -> bool {
        text_lt(other.created_at@, self.created_at@)
    }

    proof fn lemma_irreflexive(a: &Self) {
        lemma_text_lt_irreflexive(a.created_at@);
    }

    proof fn lemma_transitive(a: &Self, b: &Self, c: &Self) {
        lemma_text_lt_transitive(c.created_at@, b.created_at@, a.created_at@);
    }

    proof fn lemma_not_before_transitive(a: &Self, b: &Self, c: &Self) {
        lemma_text_not_lt_transitive(c.created_at@, b.created_at@, a.created_at@);
    }

    fn before(&self, other: &Self) -> (r: bool) {
        str_lt(other.created_at.as_str(), self.created_at.as_str())
    }
}

impl Ranked for ExpenseHistoryItem {
    /// Newer entry (by the text of its time) first.
    open spec fn ranks_before(&self, other: &Self) -> bool {
        text_lt(other.created_at@, self.created_at@)
    }

    proof fn lemma_irreflexive(a: &Self) {
        lemma_text_lt_irreflexive(a.created_at@);
    }

    proof fn lemma_transitive(a: &Self, b: &Self, c: &Self) {
        lemma_text_lt_transitive(c.created_at@, b.created_at@, a.created_at@);
    }

    proof fn lemma_not_before_transitive(a: &Self, b: &Self, c: &Self) {
        lemma_text_not_lt_transitive(c.created_at@, b.created_at@, a.created_at@);
    }

    fn before(&self, other: &Self) -> (r: bool) {
        str_lt(other.created_at.as_str(), self.created_at.as_str())
    }
}

impl Ranked for AuditLogItem {
    /// Newer entry (by the text of its time) first.
    open spec fn ranks_before(&self, other: &Self) -> bool {
        text_lt(other.created_at@, self.created_at@)
    }

    proof fn lemma_irreflexive(a: &Self) {
        lemma_text_lt_irreflexive(a.created_at@);
    }

    proof fn lemma_transitive(a: &Self, b: &Self, c: &Self) {
        lemma_text_lt_transitive(c.created_at@, b.created_at@, a.created_at@);
    }

    proof fn lemma_not_before_transitive(a: &Self, b: &Self, c: &Self) {
        lemma_text_not_lt_transitive(c.created_at@, b.created_at@, a.created_at@);
    }

    fn before(&self, other: &Self) -> (r: bool) {
        str_lt(other.created_at.as_str(), self.created_at.as_str())
    }
}

/// `rows` are the expenses `es` as the API returns them, in the same order.
pub open spec fn listed(es: Seq<Expense>, rows: Seq<ExpenseResponse>) -> bool {
    rows.len() == es.len() && forall|i: int| 0 <= i < es.len() ==> expense_response(es[i], #[trigger] rows[i])
}

/// The expenses `auth` may see: an admin's are all of them, anyone else's
/// their own.
pub open spec fn sees(auth: AuthUser) -> spec_fn(Expense) -> bool {
    |e: Expense| auth.role == Role::Admin || e.owner_user_id == auth.user_id
}

/// What listing the expenses for `auth` answers on `s`: the expenses the
/// caller sees, in table order.
pub open spec fn expenses_listing(s: MemoryState, auth: AuthUser, r: AppResult<Vec<ExpenseResponse>>) -> bool {
    if !may_record(auth) {
        fails_with(r, role_error())
    } else {
        r matches Ok(rows) && listed(s.expenses@.filter(sees(auth)), rows@)
    }
}

/// The time bound a query gives: `None` when absent, `Some(None)` when it
/// is not RFC 3339 text.
pub open spec fn time_bound(v: Option<String>) -> Option<Option<i64>> {
    match v {
        None => Some(None),
        Some(t) => match rfc3339_instant(t@) {
            Some(x) => Some(Some(x)),
            None => None,
        },
    }
}

/// Reads an optional RFC 3339 time bound; text that does not parse is the
/// bad request `message`.
pub fn parse_time_bound(v: &Option<String>, message: &str) -> (r: AppResult<Option<i64>>)
    ensures
        match time_bound(*v) {
            Some(b) => r == Ok::<Option<i64>, AppError>(b),
            None => fails_with(r, (ErrorKind::BadRequest, message@)),
        },
        r matches Ok(Some(t)) ==> chrono_instant(t as int),
{
    match v {
        None => Ok(None),
        Some(t) => match parse_rfc3339(t.as_str()) {
            Some(x) => Ok(Some(x)),
            None => Err(AppError::bad_request(message)),
        },
    }
}

/// Whether the instant `t` lies within the bounds (both inclusive).
pub open spec fn within(t: i64, from: Option<i64>, to: Option<i64>) -> bool {
    &&& (from matches Some(f) ==> t >= f)
    &&& (to matches Some(u) ==> t <= u)
}

/// Why a search is refused, if it is.
pub open spec fn search_rejection(auth: AuthUser, q: SearchExpensesQuery) -> Option<ErrorView> {
    if !may_record(auth) {
        Some(role_error())
    } else if q.category_id matches Some(c) && uuid_parsed(c@) is None {
        Some((ErrorKind::BadRequest, "invalid category_id"@))
    } else if time_bound(q.from) is None {
        Some((ErrorKind::BadRequest, "invalid from datetime"@))
    } else if time_bound(q.to) is None {
        Some((ErrorKind::BadRequest, "invalid to datetime"@))
    } else {
        None
    }
}

/// The page size of a search: 20 unless given, kept within 1 to 100.
pub open spec fn search_limit(limit: Option<usize>) -> usize {
    match limit {
        None => 20,
        Some(l) => if l < 1 {
            1
        } else if l > 100 {
            100
        } else {
            l
        },
    }
}

/// The checked criteria of an accepted search query.
pub open spec fn filter_of(q: SearchExpensesQuery, f: SearchFilter) -> bool {
    &&& f.status == q.status
    &&& f.category_id == (match q.category_id {
        Some(c) => uuid_parsed(c@),
        None => None,
    })
    &&& f.currency == q.currency
    &&& Some(f.from) == time_bound(q.from)
    &&& Some(f.to) == time_bound(q.to)
    &&& f.q == q.q
    &&& f.limit == search_limit(q.limit)
    &&& f.offset == (match q.offset {
        Some(o) => o,
        None => 0,
    })
}

/// Checks a search query; on success, its criteria.
pub fn search_filter(auth: &AuthUser, query: &SearchExpensesQuery) -> (r: AppResult<SearchFilter>)
    ensures
        match search_rejection(*auth, *query) {
            Some(e) => fails_with(r, e),
            None => r matches Ok(f) && filter_of(*query, f),
        },
        r matches Ok(f) ==> (f.from matches Some(t) ==> chrono_instant(t as int)) && (f.to matches Some(t)
            ==> chrono_instant(t as int)),
{
    if let Err(e) = require_user_or_admin(auth) {
        return Err(e);
    }
    let category_id = match &query.category_id {
        Some(v) => match parse_uuid(v.as_str()) {
            Some(c) => Some(c),
            None => {
                return Err(AppError::bad_request("invalid category_id"));
            },
        },
        None => None,
    };
    let from = match parse_time_bound(&query.from, "invalid from datetime") {
        Err(e) => {
            return Err(e);
        },
        Ok(b) => b,
    };
    let to = match parse_time_bound(&query.to, "invalid to datetime") {
        Err(e) => {
            return Err(e);
        },
        Ok(b) => b,
    };
    let limit = match query.limit {
        None => 20,
        Some(l) => if l < 1 {
            1
        } else if l > 100 {
            100
        } else {
            l
        },
    };
    let offset = match query.offset {
        Some(o) => o,
        None => 0,
    };
    Ok(SearchFilter {
        status: clone_opt(&query.status),
        category_id,
        currency: clone_opt(&query.currency),
        from,
        to,
        q: clone_opt(&query.q),
        limit,
        offset,
    })
}

/// The text the keyword of a search is looked for in: the amount and the
/// currency, in lower case.
pub open spec fn search_haystack(e: Expense) -> Seq<char> {
    lowercased(decimal(e.amount_minor as int) + " "@ + e.currency@)
}

/// Whether the expense `e` is a result of the search by `auth` with
/// criteria `f`: visible to the caller (an admin sees all), and matching
/// every criterion given.
pub open spec fn search_hit(auth: AuthUser, f: SearchFilter, e: Expense) -> bool {
    &&& (auth.role == Role::Admin || e.owner_user_id == auth.user_id)
    &&& (f.status matches Some(st) ==> status_text(e.status) == st@)
    &&& (f.category_id matches Some(c) ==> e.category_id == c)
    &&& (f.currency matches Some(c) ==> e.currency@ == c@)
    &&& within(e.occurred_at, f.from, f.to)
    &&& (f.q matches Some(k) ==> has_infix(search_haystack(e), lowercased(k@)))
}

fn is_search_hit(auth: &AuthUser, f: &SearchFilter, e: &Expense) -> (r: bool)
    ensures
        r == search_hit(*auth, *f, *e),
{
    if !(auth.role == Role::Admin || e.owner_user_id == auth.user_id) {
        return false;
    }
    if let Some(st) = &f.status {
        if !crate::text::str_eq(status_to_db(&e.status), st.as_str()) {
            return false;
        }
    }
    if let Some(c) = f.category_id {
        if e.category_id != c {
            return false;
        }
    }
    if let Some(c) = &f.currency {
        if e.currency != *c {
            return false;
        }
    }
    if let Some(t) = f.from {
        if e.occurred_at < t {
            return false;
        }
    }
    if let Some(t) = f.to {
        if e.occurred_at > t {
            return false;
        }
    }
    if let Some(k) = &f.q {
        let mut hay = decimal_text(e.amount_minor);
        hay.append(" ");
        hay.append(e.currency.as_str());
        proof {
            reveal_strlit(" ");
        }
        let hay = to_lowercase(hay.as_str());
        let needle = to_lowercase(k.as_str());
        if !contains_text(hay.as_str(), needle.as_str()) {
            return false;
        }
    }
    true
}

/// The page of `sorted` that starts at `offset` and holds at most `limit`
/// items.
pub open spec fn page<T>(sorted: Seq<T>, offset: int, limit: int) -> Seq<T> {
    if offset >= sorted.len() {
        Seq::empty()
    } else if offset + limit >= sorted.len() {
        sorted.subrange(offset, sorted.len() as int)
    } else {
        sorted.subrange(offset, offset + limit)
    }
}

/// `resp` answers a search with criteria `f` whose results, before sorting,
/// are the expenses `hits`: they are sorted newest first (ties in table
/// order), counted, and the requested page returned.
pub open spec fn search_answer(hits: Seq<Expense>, f: SearchFilter, resp: SearchExpensesResponse) -> bool {
    exists|rows: Seq<ExpenseResponse>, sorted: Seq<ExpenseResponse>|
        #![trigger listed(hits, rows), is_ranking(rows, sorted)]
        {
            &&& listed(hits, rows)
            &&& is_ranking(rows, sorted)
            &&& resp.total == sorted.len() as i64
            &&& resp.items@ == page(sorted, f.offset as int, f.limit as int)
            &&& resp.limit == f.limit
            &&& resp.offset == f.offset
            &&& resp.has_more == (f.offset + resp.items@.len() < sorted.len())
        }
}

fn page_of<T: Clone>(sorted: &Vec<T>, offset: usize, limit: usize) -> (r: Vec<T>)
    requires
        forall|a: &T, b: T| #[trigger] call_ensures(T::clone, (a,), b) ==> b == *a,
    ensures
        r@ == page(sorted@, offset as int, limit as int),
{
    let n = sorted.len();
    let mut r: Vec<T> = Vec::new();
    if offset >= n {
        return r;
    }
    let end = if limit >= n - offset {
        n
    } else {
        offset + limit
    };
    let mut i = offset;
    while i < end
        invariant
            n == sorted@.len(),
            offset <= i <= end <= n,
            forall|a: &T, b: T| #[trigger] call_ensures(T::clone, (a,), b) ==> b == *a,
            r@ == sorted@.subrange(offset as int, i as int),
        decreases end - i,
    {
        r.push(sorted[i].clone());
        proof {
            assert(r@ =~= sorted@.subrange(offset as int, i + 1));
        }
        i = i + 1;
    }
    r
}

impl MemoryState {
    /// The expenses the caller sees (all of them for an admin), in table
    /// order.
    pub fn list_expenses(&self, auth: &AuthUser) -> (r: AppResult<Vec<ExpenseResponse>>)
        requires
            self.wf(),
        ensures
            expenses_listing(*self, *auth, r),
    {
        if let Err(e) = require_user_or_admin(auth) {
            return Err(e);
        }
        let ghost pred = |e: Expense| auth.role == Role::Admin || e.owner_user_id == auth.user_id;
        let mut rows: Vec<ExpenseResponse> = Vec::new();
        let mut i: usize = 0;
        while i < self.expenses.len()
            invariant
                self.wf(),
                i <= self.expenses@.len(),
                pred == (|e: Expense| auth.role == Role::Admin || e.owner_user_id == auth.user_id),
                listed(self.expenses@.take(i as int).filter(pred), rows@),
            decreases self.expenses@.len() - i,
        {
            let e = &self.expenses[i];
            proof {
                reveal(Seq::filter);
                assert(self.expenses@.take(i + 1).drop_last() =~= self.expenses@.take(i as int));
                assert(chrono_instant(self.expenses@[i as int].occurred_at as int));
            }
            if auth.role == Role::Admin || e.owner_user_id == auth.user_id {
                rows.push(respond(e));
            }
            i = i + 1;
        }
        proof {
            assert(self.expenses@.take(self.expenses@.len() as int) =~= self.expenses@);
        }
        Ok(rows)
    }

    /// Searches the expenses the caller sees: by status text, category,
    /// currency, occurrence window and a keyword looked for, ignoring case,
    /// in the amount and currency; newest first, one page at a time.
    pub fn search_expenses(&self, auth: &AuthUser, query: &SearchExpensesQuery) -> (r: AppResult<SearchExpensesResponse>)
        requires
            self.wf(),
        ensures
            match search_rejection(*auth, *query) {
                Some(e) => fails_with(r, e),
                None => r matches Ok(resp) && exists|f: SearchFilter| #[trigger] filter_of(*query, f) && search_answer(
                    self.expenses@.filter(|e: Expense| search_hit(*auth, f, e)),
                    f,
                    resp,
                ),
            },
    {
        let f = match search_filter(auth, query) {
            Err(e) => {
                return Err(e);
            },
            Ok(f) => f,
        };
        let ghost pred = |e: Expense| search_hit(*auth, f, e);
        let mut rows: Vec<ExpenseResponse> = Vec::new();
        let mut i: usize = 0;
        while i < self.expenses.len()
            invariant
                self.wf(),
                i <= self.expenses@.len(),
                pred == (|e: Expense| search_hit(*auth, f, e)),
                listed(self.expenses@.take(i as int).filter(pred), rows@),
            decreases self.expenses@.len() - i,
        {
            let e = &self.expenses[i];
            proof {
                reveal(Seq::filter);
                assert(self.expenses@.take(i + 1).drop_last() =~= self.expenses@.take(i as int));
                assert(chrono_instant(self.expenses@[i as int].occurred_at as int));
            }
            if is_search_hit(auth, &f, e) {
                rows.push(respond(e));
            }
            i = i + 1;
        }
        proof {
            assert(self.expenses@.take(self.expenses@.len() as int) =~= self.expenses@);
        }
        let ghost rows_v = rows@;
        let sorted = rank_sort(rows);
        let n = sorted.len();
        let items = page_of(&sorted, f.offset, f.limit);
        let has_more = f.offset + items.len() < n;
        let resp = SearchExpensesResponse { items, total: n as i64, limit: f.limit, offset: f.offset, has_more };
        proof {
            assert(listed(self.expenses@.filter(pred), rows_v));
            assert(search_answer(self.expenses@.filter(pred), f, resp));
        }
        Ok(resp)
    }
}

// ---------------------------------------------------------------------------
// History and the audit log
// ---------------------------------------------------------------------------

/// `it` is the audit entry `x` as an expense's history shows it.
pub open spec fn history_item(x: AuditLog, it: ExpenseHistoryItem) -> bool {
    &&& it.id@ == uuid_text(x.id)
    &&& it.actor_wallet@ == x.actor_wallet@
    &&& it.action@ == x.action@
    &&& opt_text(it.target_id) == opt_text(x.target_id)
    &&& opt_text(it.tx_hash) == opt_text(x.tx_hash)
    &&& it.metadata@ == x.metadata@
    &&& it.created_at@ == rfc3339_text(x.created_at)
}

/// `it` is the audit entry `x` as the audit log shows it.
pub open spec fn log_item(x: AuditLog, it: AuditLogItem) -> bool {
    &&& it.id@ == uuid_text(x.id)
    &&& it.actor_wallet@ == x.actor_wallet@
    &&& it.action@ == x.action@
    &&& opt_text(it.target_id) == opt_text(x.target_id)
    &&& opt_text(it.tx_hash) == opt_text(x.tx_hash)
    &&& it.metadata@ == x.metadata@
    &&& it.created_at@ == rfc3339_text(x.created_at)
}

/// The number of entries a history or audit listing returns at most: 50
/// unless given, and never more than 200.
pub open spec fn listing_limit(limit: Option<usize>) -> usize {
    match limit {
        None => 50,
        Some(l) => if l > 200 {
            200
        } else {
            l
        },
    }
}

/// The number of entries a history or audit listing returns at most.
pub fn listing_limit_of(limit: Option<usize>) -> (r: usize)
    ensures
        r == listing_limit(limit),
{
    match limit {
        None => 50,
        Some(l) => if l > 200 {
            200
        } else {
            l
        },
    }
}

/// The first `n` items of `s` (all of them when there are fewer).
pub open spec fn first_n<T>(s: Seq<T>, n: int) -> Seq<T> {
    if n >= s.len() {
        s
    } else {
        s.take(n)
    }
}

/// Parses the id of an expense named in a path; text that is not a UUID
/// is the bad request `invalid expense_id`.
pub fn parse_expense_id(text: &str) -> (r: AppResult<u128>)
    ensures
        match uuid_parsed(text@) {
            Some(id) => r == Ok::<u128, AppError>(id),
            None => fails_with(r, (ErrorKind::BadRequest, "invalid expense_id"@)),
        },
{
    match parse_uuid(text) {
        Some(id) => Ok(id),
        None => Err(AppError::bad_request("invalid expense_id")),
    }
}

/// Why a history query is refused, if it is.
pub open spec fn history_rejection(expense_id: Seq<char>, q: ExpenseHistoryQuery) -> Option<ErrorView> {
    if uuid_parsed(expense_id) is None {
        Some((ErrorKind::BadRequest, "invalid expense_id"@))
    } else if time_bound(q.from) is None {
        Some((ErrorKind::BadRequest, "invalid from datetime"@))
    } else if time_bound(q.to) is None {
        Some((ErrorKind::BadRequest, "invalid to datetime"@))
    } else {
        None
    }
}

/// Whether the audit entry `x` belongs to the history of expense `id`
/// within the bounds.
pub open spec fn history_hit(id: u128, from: Option<i64>, to: Option<i64>, x: AuditLog) -> bool {
    opt_text(x.target_id) == Some(uuid_text(id)) && within(x.created_at, from, to)
}

/// Why an audit log query by `auth` is refused, if it is.
pub open spec fn logs_rejection(auth: AuthUser, q: AuditLogsQuery) -> Option<ErrorView> {
    if !(auth.role == Role::Admin || auth.role == Role::Auditor) {
        Some(role_error())
    } else if time_bound(q.from) is None {
        Some((ErrorKind::BadRequest, "invalid from datetime"@))
    } else if time_bound(q.to) is None {
        Some((ErrorKind::BadRequest, "invalid to datetime"@))
    } else {
        None
    }
}

/// Whether the audit entry `x` matches the query `q` with bounds `from`
/// and `to`.
pub open spec fn log_hit(q: AuditLogsQuery, from: Option<i64>, to: Option<i64>, x: AuditLog) -> bool {
    &&& (q.action matches Some(a) ==> x.action@ == a@)
    &&& (q.actor_wallet matches Some(w) ==> x.actor_wallet@ == w@)
    &&& (q.target_id matches Some(t) ==> opt_text(x.target_id) == Some(t@))
    &&& within(x.created_at, from, to)
}

fn opt_eq(a: &Option<String>, b: &String) -> (r: bool)
    ensures
        r == (opt_text(*a) == Some(b@)),
{
    match a {
        Some(x) => *x == *b,
        None => false,
    }
}

fn history_item_of(x: &AuditLog) -> (r: ExpenseHistoryItem)
    requires
        chrono_instant(x.created_at as int),
    ensures
        history_item(*x, r),
{
    ExpenseHistoryItem {
        id: uuid_to_string(x.id),
        actor_wallet: x.actor_wallet.clone(),
        action: x.action.clone(),
        target_id: clone_opt(&x.target_id),
        tx_hash: clone_opt(&x.tx_hash),
        metadata: clone_meta(&x.metadata),
        created_at: format_rfc3339(x.created_at),
    }
}

fn log_item_of(x: &AuditLog) -> (r: AuditLogItem)
    requires
        chrono_instant(x.created_at as int),
    ensures
        log_item(*x, r),
{
    AuditLogItem {
        id: uuid_to_string(x.id),
        actor_wallet: x.actor_wallet.clone(),
        action: x.action.clone(),
        target_id: clone_opt(&x.target_id),
        tx_hash: clone_opt(&x.tx_hash),
        metadata: clone_meta(&x.metadata),
        created_at: format_rfc3339(x.created_at),
    }
}

/// `rows` answer a history listing whose entries, before sorting, are
/// `hits`: newest first (ties in log order), at most `limit` of them.
pub open spec fn history_answer(hits: Seq<AuditLog>, limit: int, rows: Seq<ExpenseHistoryItem>) -> bool {
    exists|items: Seq<ExpenseHistoryItem>, sorted: Seq<ExpenseHistoryItem>|
        #![trigger is_ranking(items, sorted)]
        {
            &&& items.len() == hits.len()
            &&& (forall|i: int| 0 <= i < hits.len() ==> history_item(hits[i], #[trigger] items[i]))
            &&& is_ranking(items, sorted)
            &&& rows == first_n(sorted, limit)
        }
}

/// `rows` answer an audit log listing whose entries, before sorting, are
/// `hits`: newest first (ties in log order), at most `limit` of them.
pub open spec fn logs_answer(hits: Seq<AuditLog>, limit: int, rows: Seq<AuditLogItem>) -> bool {
    exists|items: Seq<AuditLogItem>, sorted: Seq<AuditLogItem>|
        #![trigger is_ranking(items, sorted)]
        {
            &&& items.len() == hits.len()
            &&& (forall|i: int| 0 <= i < hits.len() ==> log_item(hits[i], #[trigger] items[i]))
            &&& is_ranking(items, sorted)
            &&& rows == first_n(sorted, limit)
        }
}

pub(crate) fn keep_first<T>(v: &mut Vec<T>, n: usize)
    ensures
        final(v)@ == first_n(old(v)@, n as int),
{
    if n < v.len() {
        v.truncate(n);
    }
}

impl MemoryState {
    /// The audit entries about the expense named by `expense_id`, within the
    /// query's bounds, newest first, at most the query's limit (50 unless
    /// given, never more than 200). Every role may read it.
    pub fn expense_history(&self, auth: &AuthUser, expense_id: &str, query: &ExpenseHistoryQuery) -> (r: AppResult<
        Vec<ExpenseHistoryItem>,
    >)
        requires
            self.wf(),
        ensures
            match history_rejection(expense_id@, *query) {
                Some(e) => fails_with(r, e),
                None => r matches Ok(rows) && history_answer(
                    self.audit_logs@.filter(
                        |x: AuditLog|
                            history_hit(
                                uuid_parsed(expense_id@)->0,
                                time_bound(query.from)->0,
                                time_bound(query.to)->0,
                                x,
                            ),
                    ),
                    listing_limit(query.limit) as int,
                    rows@,
                ),
            },
    {
        let _ = require_user_admin_or_auditor(auth);
        let id = match parse_expense_id(expense_id) {
            Err(e) => {
                return Err(e);
            },
            Ok(id) => id,
        };
        let from = match parse_time_bound(&query.from, "invalid from datetime") {
            Err(e) => {
                return Err(e);
            },
            Ok(b) => b,
        };
        let to = match parse_time_bound(&query.to, "invalid to datetime") {
            Err(e) => {
                return Err(e);
            },
            Ok(b) => b,
        };
        let limit = listing_limit_of(query.limit);
        let target = uuid_to_string(id);
        let ghost pred = |x: AuditLog| history_hit(id, from, to, x);
        let mut items: Vec<ExpenseHistoryItem> = Vec::new();
        let mut i: usize = 0;
        while i < self.audit_logs.len()
            invariant
                self.wf(),
                i <= self.audit_logs@.len(),
                target@ == uuid_text(id),
                pred == (|x: AuditLog| history_hit(id, from, to, x)),
                items@.len() == self.audit_logs@.take(i as int).filter(pred).len(),
                forall|k: int| 0 <= k < items@.len() ==> history_item(
                    self.audit_logs@.take(i as int).filter(pred)[k],
                    #[trigger] items@[k],
                ),
            decreases self.audit_logs@.len() - i,
        {
            let x = &self.audit_logs[i];
            proof {
                reveal(Seq::filter);
                assert(self.audit_logs@.take(i + 1).drop_last() =~= self.audit_logs@.take(i as int));
                assert(chrono_instant(self.audit_logs@[i as int].created_at as int));
            }
            let in_window = match from {
                Some(f) => x.created_at >= f,
                None => true,
            } && match to {
                Some(u) => x.created_at <= u,
                None => true,
            };
            if opt_eq(&x.target_id, &target) && in_window {
                items.push(history_item_of(x));
            }
            i = i + 1;
        }
        proof {
            assert(self.audit_logs@.take(self.audit_logs@.len() as int) =~= self.audit_logs@);
        }
        let ghost items_v = items@;
        let mut rows = rank_sort(items);
        let ghost sorted = rows@;
        keep_first(&mut rows, limit);
        proof {
            assert(is_ranking(items_v, sorted));
        }
        Ok(rows)
    }

    /// The audit log entries that match the query (action, actor, target and
    /// time bounds), newest first, at most the query's limit (50 unless
    /// given, never more than 200). Admins and auditors only.
    pub fn list_audit_logs(&self, auth: &AuthUser, query: &AuditLogsQuery) -> (r: AppResult<Vec<AuditLogItem>>)
        requires
            self.wf(),
        ensures
            match logs_rejection(*auth, *query) {
                Some(e) => fails_with(r, e),
                None => r matches Ok(rows) && logs_answer(
                    self.audit_logs@.filter(
                        |x: AuditLog| log_hit(*query, time_bound(query.from)->0, time_bound(query.to)->0, x),
                    ),
                    listing_limit(query.limit) as int,
                    rows@,
                ),
            },
    {
        if let Err(e) = require_admin_or_auditor(auth) {
            return Err(e);
        }
        let from = match parse_time_bound(&query.from, "invalid from datetime") {
            Err(e) => {
                return Err(e);
            },
            Ok(b) => b,
        };
        let to = match parse_time_bound(&query.to, "invalid to datetime") {
            Err(e) => {
                return Err(e);
            },
            Ok(b) => b,
        };
        let limit = listing_limit_of(query.limit);
        let ghost pred = |x: AuditLog| log_hit(*query, from, to, x);
        let mut items: Vec<AuditLogItem> = Vec::new();
        let mut i: usize = 0;
        while i < self.audit_logs.len()
            invariant
                self.wf(),
                i <= self.audit_logs@.len(),
                pred == (|x: AuditLog| log_hit(*query, from, to, x)),
                items@.len() == self.audit_logs@.take(i as int).filter(pred).len(),
                forall|k: int| 0 <= k < items@.len() ==> log_item(
                    self.audit_logs@.take(i as int).filter(pred)[k],
                    #[trigger] items@[k],
                ),
            decreases self.audit_logs@.len() - i,
        {
            let x = &self.audit_logs[i];
            proof {
                reveal(Seq::filter);
                assert(self.audit_logs@.take(i + 1).drop_last() =~= self.audit_logs@.take(i as int));
                assert(chrono_instant(self.audit_logs@[i as int].created_at as int));
            }
            let action_ok = match &query.action {
                Some(a) => x.action == *a,
                None => true,
            };
            let actor_ok = match &query.actor_wallet {
                Some(w) => x.actor_wallet == *w,
                None => true,
            };
            let target_ok = match &query.target_id {
                Some(t) => opt_eq(&x.target_id, t),
                None => true,
            };
            let in_window = match from {
                Some(f) => x.created_at >= f,
                None => true,
            } && match to {
                Some(u) => x.created_at <= u,
                None => true,
            };
            if action_ok && actor_ok && target_ok && in_window {
                items.push(log_item_of(x));
            }
            i = i + 1;
        }
        proof {
            assert(self.audit_logs@.take(self.audit_logs@.len() as int) =~= self.audit_logs@);
        }
        let ghost items_v = items@;
        let mut rows = rank_sort(items);
        let ghost sorted = rows@;
        keep_first(&mut rows, limit);
        proof {
            assert(is_ranking(items_v, sorted));
        }
        Ok(rows)
    }
}

} // verus!
