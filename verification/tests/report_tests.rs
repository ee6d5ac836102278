use expense_tracker_api::config::ConfigValues;
use expense_tracker_api::ledger::CreateExpenseRequest;
use expense_tracker_api::model::{AppConfig, AuthUser, Role};
use expense_tracker_api::reports::{resolve_period, MonthlyReportQuery};
use expense_tracker_api::session::access_claims;
use expense_tracker_api::state::{Category, MemoryState};

const NOW: i64 = 1_700_000_000_000_000;

fn config() -> AppConfig {
    AppConfig::from_values(&ConfigValues {
        api_host: None,
        api_port: None,
        database_url: None,
        expenses_pg_enabled: None,
        auth_pg_enabled: None,
        hybrid_onchain_enabled: None,
        solana_rpc_url: None,
        solana_program_id: None,
        solana_commitment: None,
        jwt_secret: None,
        jwt_expires_in_seconds: None,
        refresh_expires_in_seconds: None,
        cleanup_interval_seconds: None,
    })
}

fn caller(state: &MemoryState, user_id: u128, role: Role) -> AuthUser {
    let claims = access_claims(user_id, "wallet", &role, "family", NOW, 3600);
    state.authorize(Some(&claims)).unwrap()
}

fn query(month: Option<u32>, year: Option<i32>, tz: Option<&str>, top: Option<usize>) -> MonthlyReportQuery {
    MonthlyReportQuery { month, year, timezone: tz.map(|s| s.to_string()), top_n: top }
}

fn add(state: &mut MemoryState, auth: &AuthUser, category: u128, amount: i64, at: &str, key: &str) {
    if !state.categories.iter().any(|c| c.id == category) {
        state.categories.push(Category { id: category, owner_user_id: auth.user_id, name: format!("c{}", category), created_at: NOW });
    }
    let req = CreateExpenseRequest {
        category_id: uuid::Uuid::from_u128(category).to_string(),
        amount_minor: amount,
        currency: "USD".to_string(),
        occurred_at: Some(at.to_string()),
    };
    state.create_expense(auth, &req, Some(key.to_string()), NOW).unwrap();
}

#[test]
fn period_defaults_and_refusals() {
    let p = resolve_period(&query(None, None, None, None), NOW).unwrap();
    assert_eq!((p.month, p.year, p.timezone.as_str()), (11, 2023, "UTC"));
    assert_eq!(p.from, 1_698_796_800_000_000);
    assert_eq!(p.to, 1_701_388_800_000_000);
    let dec = resolve_period(&query(Some(12), Some(2023), Some("Asia/Tokyo"), None), NOW).unwrap();
    assert_eq!(dec.timezone, "Asia/Tokyo");
    assert_eq!(dec.from, 1_701_356_400_000_000);
    assert_eq!(dec.to, 1_704_034_800_000_000);
    assert_eq!(resolve_period(&query(Some(13), None, None, None), NOW).unwrap_err().message, "month must be between 1 and 12");
    assert_eq!(resolve_period(&query(Some(0), None, None, None), NOW).unwrap_err().message, "month must be between 1 and 12");
    assert_eq!(resolve_period(&query(None, None, Some("Mars/Base"), None), NOW).unwrap_err().message, "invalid timezone");
    assert_eq!(resolve_period(&query(Some(1), Some(i32::MAX), None, None), NOW).unwrap_err().message, "invalid report period");
}

#[test]
fn monthly_totals_add_up() {
    let mut state = MemoryState::new(config());
    let alice = caller(&state, 1, Role::User);
    let bob = caller(&state, 2, Role::User);
    add(&mut state, &alice, 10, 500, "2023-11-03T09:00:00Z", "k1");
    add(&mut state, &alice, 11, 700, "2023-11-03T23:30:00Z", "k2");
    add(&mut state, &alice, 10, 200, "2023-11-20T12:00:00Z", "k3");
    add(&mut state, &alice, 10, 999, "2023-10-31T23:59:59Z", "k4");
    add(&mut state, &bob, 10, 5000, "2023-11-05T00:00:00Z", "k5");

    let resp = state.monthly_report(&alice, &query(Some(11), Some(2023), None, Some(2)), NOW).unwrap().unwrap();
    assert_eq!(resp.total_amount_minor, 1400);
    let cat_sum: i64 = resp.by_category.iter().map(|x| x.total_amount_minor).sum();
    let day_sum: i64 = resp.by_day.iter().map(|x| x.total_amount_minor).sum();
    assert_eq!(cat_sum, 1400);
    assert_eq!(day_sum, 1400);
    let c10 = uuid::Uuid::from_u128(10).to_string();
    let ten = resp.by_category.iter().find(|x| x.category_id == c10).unwrap();
    assert_eq!(ten.total_amount_minor, 700);
    let days: Vec<(&str, i64)> = resp.by_day.iter().map(|x| (x.day.as_str(), x.total_amount_minor)).collect();
    assert_eq!(days, vec![("2023-11-03", 1200), ("2023-11-20", 200)]);
    let tops: Vec<i64> = resp.top_spending.iter().map(|x| x.amount_minor).collect();
    assert_eq!(tops, vec![700, 500]);
    assert_eq!(resp.top_spending[0].status, "pending");
    assert_eq!(resp.period.from_utc, "2023-11-01T00:00:00+00:00");
    assert_eq!(resp.period.to_utc, "2023-12-01T00:00:00+00:00");

    let tokyo = state.monthly_report(&alice, &query(Some(11), Some(2023), Some("Asia/Tokyo"), None), NOW).unwrap().unwrap();
    let days: Vec<&str> = tokyo.by_day.iter().map(|x| x.day.as_str()).collect();
    assert_eq!(days, vec!["2023-11-01", "2023-11-03", "2023-11-04", "2023-11-20"]);
    assert_eq!(tokyo.total_amount_minor, 2399);
    assert_eq!(tokyo.top_spending.len(), 4);
}

#[test]
fn report_overflow_is_signalled() {
    let mut state = MemoryState::new(config());
    let alice = caller(&state, 1, Role::User);
    add(&mut state, &alice, 10, i64::MAX, "2023-11-03T09:00:00Z", "k1");
    add(&mut state, &alice, 10, 1, "2023-11-04T09:00:00Z", "k2");
    let period = resolve_period(&query(Some(11), Some(2023), None, None), NOW).unwrap();
    assert!(!state.period_total_fits(1, period.from, period.to));
    assert!(state.monthly_report(&alice, &query(Some(11), Some(2023), None, None), NOW).unwrap().is_none());
}
