use expense_tracker_api::ledger::CreateExpenseRequest;
use expense_tracker_api::model::{AuthUser, ErrorKind, ExpenseResponse, ExpenseStatus, Role};
use expense_tracker_api::persisted::{
    category_commit_metadata, category_commit_replay, commit_category_of, expense_commit_metadata,
    expense_commit_replay, history_access, pg_create_decision, pg_status_decision, status_commit_metadata,
    status_commit_replay, CreateAction, StatusAction,
};
use expense_tracker_api::state::{MetaField, MetaValue};

const NOW: i64 = 1_700_000_000_000_000;

fn user(id: u128, role: Role) -> AuthUser {
    AuthUser { user_id: id, wallet: format!("wallet-{}", id), role, claims: claims_for(id) }
}

fn claims_for(id: u128) -> expense_tracker_api::model::Claims {
    expense_tracker_api::session::access_claims(id, "w", &Role::User, "fam", NOW, 60)
}

fn id_text(id: u128) -> String {
    uuid::Uuid::from_u128(id).to_string()
}

fn text(f: &MetaField) -> (&str, &str) {
    match &f.value {
        MetaValue::Text(t) => (f.key.as_str(), t.as_str()),
        _ => (f.key.as_str(), "<not text>"),
    }
}

fn request() -> CreateExpenseRequest {
    CreateExpenseRequest {
        category_id: id_text(7),
        amount_minor: 1250,
        currency: "USD".to_string(),
        occurred_at: None,
    }
}

fn response(id: u128, status: ExpenseStatus) -> ExpenseResponse {
    ExpenseResponse {
        id: id_text(id),
        owner_user_id: id_text(1),
        category_id: id_text(7),
        amount_minor: 40,
        currency: "USD".to_string(),
        status,
        tx_hash: None,
        occurred_at: "2023-11-14T22:13:20+00:00".to_string(),
        created_at: "2023-11-14T22:13:20+00:00".to_string(),
    }
}

#[test]
fn pg_create_decides_in_order() {
    let alice = user(1, Role::User);
    let req = request();
    let key = Some("k".to_string());
    let decide = |key: Option<String>, owner: Option<u128>, cached: Option<ExpenseResponse>| {
        pg_create_decision(&alice, key, owner, cached, &req, 7, 99, NOW, NOW)
    };
    assert_eq!(decide(None, Some(1), None).unwrap_err().message, "x-idempotency-key header is required");
    let err = decide(key.clone(), None, None).unwrap_err();
    assert_eq!((err.kind, err.message.as_str()), (ErrorKind::NotFound, "category not found"));
    let err = decide(key.clone(), Some(2), None).unwrap_err();
    assert_eq!((err.kind, err.message.as_str()), (ErrorKind::Forbidden, "cannot use category of another user"));
    let kept = response(5, ExpenseStatus::Approved);
    assert_eq!(decide(key.clone(), Some(1), Some(kept.clone())).unwrap(), CreateAction::Replay(kept));
    match decide(key, Some(1), None).unwrap() {
        CreateAction::Insert(resp, md) => {
            assert_eq!(resp.id, id_text(99));
            assert_eq!(resp.owner_user_id, id_text(1));
            assert_eq!(resp.category_id, id_text(7));
            assert_eq!(resp.amount_minor, 1250);
            assert_eq!(resp.status, ExpenseStatus::Pending);
            assert_eq!(resp.created_at, "2023-11-14T22:13:20+00:00");
            assert_eq!(text(&md[0]), ("category_id", id_text(7).as_str()));
            assert_eq!(md[1].value, MetaValue::Int(1250));
        },
        other => panic!("expected an insert, got {:?}", other),
    }
}

#[test]
fn pg_status_decides_in_order() {
    let key = Some("s1".to_string());
    let reason = Some("fine".to_string());
    let decide = |key: Option<String>, cached: Option<ExpenseResponse>, row: Option<ExpenseResponse>| {
        pg_status_decision(key, cached, row, ExpenseStatus::Approved, &reason)
    };
    assert_eq!(decide(None, None, None).unwrap_err().message, "x-idempotency-key header is required");
    let kept = response(5, ExpenseStatus::Approved);
    assert_eq!(decide(key.clone(), Some(kept.clone()), None).unwrap(), StatusAction::Replay(kept));
    let err = decide(key.clone(), None, None).unwrap_err();
    assert_eq!((err.kind, err.message.as_str()), (ErrorKind::NotFound, "expense not found"));
    let err = decide(key.clone(), None, Some(response(5, ExpenseStatus::Rejected))).unwrap_err();
    assert_eq!((err.kind, err.message.as_str()), (ErrorKind::BadRequest, "expense status is final"));
    match decide(key, None, Some(response(5, ExpenseStatus::Pending))).unwrap() {
        StatusAction::Update(resp, md) => {
            assert_eq!(resp, response(5, ExpenseStatus::Approved));
            assert_eq!(text(&md[0]), ("from_status", "pending"));
            assert_eq!(text(&md[1]), ("to_status", "approved"));
            assert_eq!(text(&md[2]), ("reason", "fine"));
            assert_eq!(text(&md[3]), ("idempotency_key", "s1"));
        },
        other => panic!("expected an update, got {:?}", other),
    }
}

#[test]
fn owner_checks_over_stored_rows() {
    let alice = user(1, Role::User);
    let auditor = user(3, Role::Auditor);
    assert!(history_access(&auditor, None).is_ok());
    assert!(history_access(&alice, Some(1)).is_ok());
    assert_eq!(history_access(&alice, None).unwrap_err().message, "expense not found");
    assert_eq!(history_access(&alice, Some(2)).unwrap_err().message, "cannot access history of another user's expense");
    assert_eq!(commit_category_of(&alice, Some((7, 1))).unwrap(), 7);
    assert_eq!(commit_category_of(&alice, Some((7, 2))).unwrap_err().message, "cannot use category of another user");
    assert_eq!(commit_category_of(&alice, None).unwrap_err().message, "category commit not found for category_pda");
}

#[test]
fn recorded_commits_are_replayed() {
    let client = Some("ref-1".to_string());
    assert!(category_commit_replay(None, "pda", "w", &client, 10).is_none());
    let r = category_commit_replay(Some((7, 1, "Food".to_string(), None)), "pda", "w", &client, 10).unwrap();
    assert_eq!((r.target_id, r.slot), (7, 10));
    assert_eq!(r.metadata[0].value, MetaValue::Bool(true));
    assert_eq!(text(&r.metadata[2]), ("category_name", "Food"));
    let r = category_commit_replay(Some((7, 1, "Food".to_string(), Some(4))), "pda", "w", &None, 10).unwrap();
    assert_eq!(r.slot, 4);
    assert_eq!(r.metadata[5].value, MetaValue::Null);
    assert!(expense_commit_replay(None, "e", "c", "w", &client, 3).is_none());
    let r = expense_commit_replay(Some(9), "e", "c", "w", &client, 3).unwrap();
    assert_eq!((r.target_id, r.slot, r.metadata.len()), (9, 3, 5));
    let r = status_commit_replay(Some(9), ExpenseStatus::Rejected, &None, "w", &client, 3).unwrap();
    assert_eq!(text(&r.metadata[1]), ("to_status", "rejected"));
    assert_eq!(text(&r.metadata[4]), ("client_ref_id", "ref-1"));
}

#[test]
fn commit_metadata_fields() {
    let md = category_commit_metadata(1, "Food", "pda", "w", &None);
    assert_eq!(text(&md[0]), ("owner_user_id", id_text(1).as_str()));
    assert_eq!(md[4].value, MetaValue::Null);
    let md = expense_commit_metadata(1, 7, "c", "e", 11, 500, "USD", "w", &None);
    assert_eq!(md[4].value, MetaValue::UInt(11));
    assert_eq!(md[5].value, MetaValue::Int(500));
    assert_eq!(text(&md[6]), ("currency", "USD"));
    let md = status_commit_metadata(ExpenseStatus::Pending, ExpenseStatus::Approved, &Some("ok".to_string()), "w", &None);
    assert_eq!(text(&md[0]), ("from_status", "pending"));
    assert_eq!(text(&md[2]), ("reason", "ok"));
}
