use expense_tracker_api::config::ConfigValues;
use expense_tracker_api::ledger::{
    status_cache_key_text, AuditLogsQuery, CreateCategoryRequest, CreateExpenseRequest, ExpenseHistoryQuery,
    SearchExpensesQuery, UpdateExpenseStatusRequest,
};
use expense_tracker_api::model::{AppConfig, AuthUser, ErrorKind, ExpenseStatus, Role};
use expense_tracker_api::ranking::rank_sort;
use expense_tracker_api::reports::TopSpendingItem;
use expense_tracker_api::session::access_claims;
use expense_tracker_api::state::{Category, MemoryState, MetaValue};

const NOW: i64 = 1_700_000_000_000_000;
const SECOND: i64 = 1_000_000;

fn config() -> AppConfig {
    AppConfig::from_values(&ConfigValues {
        api_host: None,
        api_port: None,
        database_url: None,
        expenses_pg_enabled: None,
        auth_pg_enabled: None,
        hybrid_onchain_enabled: None,
        solana_rpc_url: None,
        solana_program_id: None,
        solana_commitment: None,
        jwt_secret: None,
        jwt_expires_in_seconds: None,
        refresh_expires_in_seconds: None,
        cleanup_interval_seconds: None,
    })
}

fn caller(state: &MemoryState, user_id: u128, wallet: &str, role: Role) -> AuthUser {
    let claims = access_claims(user_id, wallet, &role, "family", NOW, 3600);
    state.authorize(Some(&claims)).unwrap()
}

fn id_text(id: u128) -> String {
    uuid::Uuid::from_u128(id).to_string()
}

fn with_categories(ids: &[u128]) -> MemoryState {
    let mut state = MemoryState::new(config());
    for id in ids {
        state.categories.push(Category { id: *id, owner_user_id: 1, name: format!("c{}", id), created_at: NOW });
    }
    state
}

fn expense_request(category: u128, amount: i64, currency: &str, occurred: Option<&str>) -> CreateExpenseRequest {
    CreateExpenseRequest {
        category_id: id_text(category),
        amount_minor: amount,
        currency: currency.to_string(),
        occurred_at: occurred.map(|s| s.to_string()),
    }
}

fn no_search() -> SearchExpensesQuery {
    SearchExpensesQuery {
        status: None,
        category_id: None,
        currency: None,
        from: None,
        to: None,
        q: None,
        limit: None,
        offset: None,
    }
}

#[test]
fn category_created_and_listed_for_owner() {
    let mut state = MemoryState::new(config());
    let alice = caller(&state, 1, "alice", Role::User);
    let bob = caller(&state, 2, "bob", Role::User);
    let c = state.create_category(&alice, &CreateCategoryRequest { name: "  Travel ".to_string() }, NOW).unwrap();
    assert_eq!(c.name, "Travel");
    assert_eq!(c.owner_user_id, id_text(1));
    assert_eq!(c.created_at, "2023-11-14T22:13:20+00:00");
    state.create_category(&bob, &CreateCategoryRequest { name: "Food".to_string() }, NOW).unwrap();
    let mine = state.list_categories(&alice).unwrap();
    assert_eq!(mine.len(), 1);
    assert_eq!(mine[0].id, c.id);
    let err = state.create_category(&alice, &CreateCategoryRequest { name: " \t ".to_string() }, NOW).unwrap_err();
    assert_eq!((err.kind, err.message.as_str()), (ErrorKind::BadRequest, "name is required"));
    let auditor = caller(&state, 3, "aud", Role::Auditor);
    assert_eq!(state.list_categories(&auditor).unwrap_err().status_code(), 403);
}

#[test]
fn expense_creation_is_idempotent() {
    let mut state = with_categories(&[77, 78]);
    let alice = caller(&state, 1, "alice", Role::User);
    let req = expense_request(77, 1250, "USD", Some("2023-11-01T10:00:00Z"));
    let first = state.create_expense(&alice, &req, Some("key-1".to_string()), NOW).unwrap();
    assert_eq!(first.status, ExpenseStatus::Pending);
    assert_eq!(first.amount_minor, 1250);
    assert_eq!(first.category_id, id_text(77));
    assert_eq!(first.occurred_at, "2023-11-01T10:00:00+00:00");
    assert_eq!(first.created_at, "2023-11-14T22:13:20+00:00");
    let other = expense_request(78, 99, "EUR", None);
    let again = state.create_expense(&alice, &other, Some("key-1".to_string()), NOW + SECOND).unwrap();
    assert_eq!(again, first);
    assert_eq!(state.expenses.len(), 1);
    assert_eq!(state.audit_logs.len(), 1);
    let log = &state.audit_logs[0];
    assert_eq!(log.action, "expense.create");
    assert_eq!(log.target_id, Some(first.id.clone()));
    assert_eq!(log.metadata[0].key, "category_id");
    assert_eq!(log.metadata[0].value, MetaValue::Text(id_text(77)));
    assert_eq!(log.metadata[1].value, MetaValue::Int(1250));
}

#[test]
fn expense_creation_refusals() {
    let mut state = with_categories(&[7]);
    let alice = caller(&state, 1, "alice", Role::User);
    let err = state.create_expense(&alice, &expense_request(7, 0, "USD", None), Some("k".to_string()), NOW).unwrap_err();
    assert_eq!(err.message, "amount_minor must be > 0");
    let mut bad = expense_request(7, 5, "USD", None);
    bad.category_id = "not-a-uuid".to_string();
    assert_eq!(state.create_expense(&alice, &bad, Some("k".to_string()), NOW).unwrap_err().message, "invalid category_id");
    let err = state.create_expense(&alice, &expense_request(7, 5, "USD", None), None, NOW).unwrap_err();
    assert_eq!(err.message, "x-idempotency-key header is required");
    let err = state.create_expense(&alice, &expense_request(99, 5, "USD", None), Some("k".to_string()), NOW).unwrap_err();
    assert_eq!((err.status_code(), err.message.as_str()), (404, "category not found"));
    assert_eq!(state.expenses.len(), 0);
    let auditor = caller(&state, 2, "aud", Role::Auditor);
    let err = state.create_expense(&auditor, &expense_request(7, 5, "USD", None), Some("k".to_string()), NOW).unwrap_err();
    assert_eq!(err.status_code(), 403);
    let spaced = CreateExpenseRequest { category_id: format!(" {} ", id_text(7)), ..expense_request(7, 5, "USD", Some("garbage")) };
    let ok = state.create_expense(&alice, &spaced, Some("k2".to_string()), NOW).unwrap();
    assert_eq!(ok.category_id, id_text(7));
    assert_eq!(ok.occurred_at, "2023-11-14T22:13:20+00:00");
    assert_eq!(state.expenses.len(), 1);
}

#[test]
fn decided_expense_stays_decided() {
    let mut state = with_categories(&[7]);
    let alice = caller(&state, 1, "alice", Role::User);
    let admin = caller(&state, 9, "admin", Role::Admin);
    let e = state.create_expense(&alice, &expense_request(7, 500, "USD", None), Some("c1".to_string()), NOW).unwrap();
    let approve = UpdateExpenseStatusRequest { status: ExpenseStatus::Approved, reason: Some("ok".to_string()) };
    let decided = state.update_expense_status(&admin, &e.id, &approve, Some("s1".to_string()), NOW).unwrap();
    assert_eq!(decided.status, ExpenseStatus::Approved);
    let replay = state.update_expense_status(&admin, &e.id, &approve, Some("s1".to_string()), NOW).unwrap();
    assert_eq!(replay, decided);
    let reject = UpdateExpenseStatusRequest { status: ExpenseStatus::Rejected, reason: None };
    let err = state.update_expense_status(&admin, &e.id, &reject, Some("s2".to_string()), NOW).unwrap_err();
    assert_eq!((err.kind, err.message.as_str()), (ErrorKind::BadRequest, "expense status is final"));
    assert_eq!(state.expenses[0].status, ExpenseStatus::Approved);
    let log = state.audit_logs.last().unwrap();
    assert_eq!(log.action, "expense.approve");
    assert_eq!(log.metadata[0].value, MetaValue::Text("pending".to_string()));
    assert_eq!(log.metadata[1].value, MetaValue::Text("approved".to_string()));
    assert_eq!(log.metadata[2].value, MetaValue::Text("ok".to_string()));
    assert_eq!(log.metadata[3].value, MetaValue::Text("s1".to_string()));
}

#[test]
fn status_decision_refusals() {
    let mut state = MemoryState::new(config());
    let alice = caller(&state, 1, "alice", Role::User);
    let admin = caller(&state, 9, "admin", Role::Admin);
    let approve = UpdateExpenseStatusRequest { status: ExpenseStatus::Approved, reason: None };
    let pending = UpdateExpenseStatusRequest { status: ExpenseStatus::Pending, reason: None };
    let some_id = id_text(123);
    assert_eq!(state.update_expense_status(&alice, &some_id, &approve, Some("k".to_string()), NOW).unwrap_err().status_code(), 403);
    assert_eq!(state.update_expense_status(&admin, "bad", &approve, Some("k".to_string()), NOW).unwrap_err().message, "invalid expense_id");
    assert_eq!(
        state.update_expense_status(&admin, &some_id, &pending, Some("k".to_string()), NOW).unwrap_err().message,
        "status must be approved or rejected"
    );
    assert_eq!(
        state.update_expense_status(&admin, &some_id, &approve, None, NOW).unwrap_err().message,
        "x-idempotency-key header is required"
    );
    let err = state.update_expense_status(&admin, &some_id, &approve, Some("k".to_string()), NOW).unwrap_err();
    assert_eq!((err.status_code(), err.message.as_str()), (404, "expense not found"));
    assert_eq!(status_cache_key_text(123, "k"), format!("expense.status:{}:k", some_id));
}

#[test]
fn search_filters_sorts_and_pages() {
    let mut state = with_categories(&[7, 8]);
    let alice = caller(&state, 1, "alice", Role::User);
    let bob = caller(&state, 2, "bob", Role::User);
    let admin = caller(&state, 9, "admin", Role::Admin);
    state.create_expense(&alice, &expense_request(7, 1250, "USD", None), Some("a1".to_string()), NOW).unwrap();
    state.create_expense(&alice, &expense_request(8, 300, "EUR", None), Some("a2".to_string()), NOW + SECOND).unwrap();
    state.create_expense(&alice, &expense_request(7, 125, "usd", None), Some("a3".to_string()), NOW + 2 * SECOND).unwrap();
    state.create_expense(&bob, &expense_request(7, 1250, "USD", None), Some("b1".to_string()), NOW + 3 * SECOND).unwrap();

    let all = state.search_expenses(&alice, &no_search()).unwrap();
    assert_eq!(all.total, 3);
    assert_eq!(all.limit, 20);
    assert!(!all.has_more);
    let amounts: Vec<i64> = all.items.iter().map(|x| x.amount_minor).collect();
    assert_eq!(amounts, vec![125, 300, 1250]);

    let q = SearchExpensesQuery { q: Some("125".to_string()), ..no_search() };
    let hits = state.search_expenses(&alice, &q).unwrap();
    assert_eq!(hits.total, 2);

    let q = SearchExpensesQuery { q: Some("USD".to_string()), ..no_search() };
    assert_eq!(state.search_expenses(&alice, &q).unwrap().total, 2);

    let q = SearchExpensesQuery { currency: Some("USD".to_string()), ..no_search() };
    assert_eq!(state.search_expenses(&alice, &q).unwrap().total, 1);

    let q = SearchExpensesQuery { limit: Some(1), offset: Some(1), ..no_search() };
    let page = state.search_expenses(&alice, &q).unwrap();
    assert_eq!(page.items.len(), 1);
    assert_eq!(page.items[0].amount_minor, 300);
    assert!(page.has_more);

    let q = SearchExpensesQuery { limit: Some(0), offset: Some(10), ..no_search() };
    let empty = state.search_expenses(&alice, &q).unwrap();
    assert_eq!(empty.limit, 1);
    assert!(empty.items.is_empty());
    assert!(!empty.has_more);

    let q = SearchExpensesQuery { status: Some("approved".to_string()), ..no_search() };
    assert_eq!(state.search_expenses(&alice, &q).unwrap().total, 0);

    assert_eq!(state.search_expenses(&admin, &no_search()).unwrap().total, 4);
    assert_eq!(state.list_expenses(&admin).unwrap().len(), 4);
    assert_eq!(state.list_expenses(&bob).unwrap().len(), 1);

    let q = SearchExpensesQuery { category_id: Some("x".to_string()), ..no_search() };
    assert_eq!(state.search_expenses(&alice, &q).unwrap_err().message, "invalid category_id");
    let q = SearchExpensesQuery { from: Some("yesterday".to_string()), ..no_search() };
    assert_eq!(state.search_expenses(&alice, &q).unwrap_err().message, "invalid from datetime");
    let q = SearchExpensesQuery { to: Some("later".to_string()), ..no_search() };
    assert_eq!(state.search_expenses(&alice, &q).unwrap_err().message, "invalid to datetime");
}

#[test]
fn history_and_audit_log_listing() {
    let mut state = with_categories(&[7]);
    let alice = caller(&state, 1, "alice", Role::User);
    let admin = caller(&state, 9, "admin", Role::Admin);
    let auditor = caller(&state, 5, "aud", Role::Auditor);
    let e = state.create_expense(&alice, &expense_request(7, 40, "USD", None), Some("h1".to_string()), NOW).unwrap();
    let approve = UpdateExpenseStatusRequest { status: ExpenseStatus::Approved, reason: None };
    state.update_expense_status(&admin, &e.id, &approve, Some("h2".to_string()), NOW + 5 * SECOND).unwrap();
    let q = ExpenseHistoryQuery { from: None, to: None, limit: None };
    let history = state.expense_history(&alice, &e.id, &q).unwrap();
    let actions: Vec<&str> = history.iter().map(|x| x.action.as_str()).collect();
    assert_eq!(actions, vec!["expense.approve", "expense.create"]);
    let q = ExpenseHistoryQuery { from: None, to: None, limit: Some(1) };
    assert_eq!(state.expense_history(&alice, &e.id, &q).unwrap().len(), 1);
    let q = ExpenseHistoryQuery { from: Some("2023-11-14T22:13:21Z".to_string()), to: None, limit: None };
    assert_eq!(state.expense_history(&alice, &e.id, &q).unwrap().len(), 1);
    let q = ExpenseHistoryQuery { from: None, to: None, limit: None };
    assert_eq!(state.expense_history(&alice, "nope", &q).unwrap_err().message, "invalid expense_id");

    let logs = state
        .list_audit_logs(&auditor, &AuditLogsQuery { action: None, actor_wallet: Some("admin".to_string()), target_id: None, from: None, to: None, limit: None })
        .unwrap();
    assert_eq!(logs.len(), 1);
    assert_eq!(logs[0].action, "expense.approve");
    assert_eq!(logs[0].created_at, "2023-11-14T22:13:25+00:00");
    let logs = state
        .list_audit_logs(&admin, &AuditLogsQuery { action: None, actor_wallet: None, target_id: Some(e.id.clone()), from: None, to: None, limit: Some(500) })
        .unwrap();
    assert_eq!(logs.len(), 2);
    assert_eq!(logs[0].action, "expense.approve");
    let err = state
        .list_audit_logs(&admin, &AuditLogsQuery { action: None, actor_wallet: None, target_id: None, from: Some("x".to_string()), to: None, limit: None })
        .unwrap_err();
    assert_eq!(err.message, "invalid from datetime");
}

#[test]
fn ranking_is_stable() {
    let item = |id: &str, amount: i64, at: &str| TopSpendingItem {
        id: id.to_string(),
        category_id: "c".to_string(),
        amount_minor: amount,
        currency: "USD".to_string(),
        status: "pending".to_string(),
        occurred_at: at.to_string(),
    };
    let sorted = rank_sort(vec![
        item("a", 10, "2023-01-01"),
        item("b", 30, "2023-01-01"),
        item("c", 10, "2023-02-01"),
        item("d", 10, "2023-01-01"),
    ]);
    let ids: Vec<&str> = sorted.iter().map(|x| x.id.as_str()).collect();
    assert_eq!(ids, vec!["b", "c", "a", "d"]);
}

#[test]
fn blank_category_names_are_refused() {
    let mut state = MemoryState::new(config());
    let alice = caller(&state, 1, "alice", Role::User);
    for name in ["   ", "\u{3000}\t\n", "\u{2009}"] {
        let err = state.create_category(&alice, &CreateCategoryRequest { name: name.to_string() }, NOW).unwrap_err();
        assert_eq!((err.kind, err.message.as_str()), (ErrorKind::BadRequest, "name is required"));
    }
    assert!(state.categories.is_empty());
}

#[test]
fn created_records_are_listed() {
    let mut state = with_categories(&[7]);
    let alice = caller(&state, 1, "alice", Role::User);
    let bob = caller(&state, 2, "bob", Role::User);
    let admin = caller(&state, 9, "admin", Role::Admin);
    let c = state.create_category(&alice, &CreateCategoryRequest { name: "Rent".to_string() }, NOW).unwrap();
    assert!(state.list_categories(&alice).unwrap().contains(&c));
    assert!(!state.list_categories(&bob).unwrap().contains(&c));
    let e = state.create_expense(&alice, &expense_request(7, 90, "USD", None), Some("l1".to_string()), NOW).unwrap();
    assert!(state.list_expenses(&alice).unwrap().contains(&e));
    assert!(state.list_expenses(&admin).unwrap().contains(&e));
    assert!(state.list_expenses(&bob).unwrap().is_empty());
}

#[test]
fn replayed_expense_is_listed() {
    let mut state = with_categories(&[7]);
    let alice = caller(&state, 1, "alice", Role::User);
    let admin = caller(&state, 9, "admin", Role::Admin);
    let first = state.create_expense(&alice, &expense_request(7, 90, "USD", None), Some("r1".to_string()), NOW).unwrap();
    let approve = UpdateExpenseStatusRequest { status: ExpenseStatus::Approved, reason: None };
    state.update_expense_status(&admin, &first.id, &approve, Some("r2".to_string()), NOW).unwrap();
    let again = state.create_expense(&alice, &expense_request(7, 5, "EUR", None), Some("r1".to_string()), NOW).unwrap();
    assert_eq!(again, first);
    let rows = state.list_expenses(&alice).unwrap();
    assert_eq!(rows.len(), 1);
    assert_eq!(rows[0].id, again.id);
    assert_eq!(rows[0].amount_minor, again.amount_minor);
    assert_eq!(rows[0].status, ExpenseStatus::Approved);
    assert!(state.list_expenses(&admin).unwrap().iter().any(|x| x.id == again.id));
}
