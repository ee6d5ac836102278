use ed25519_dalek::{Signer, SigningKey};
use expense_tracker_api::config::ConfigValues;
use expense_tracker_api::model::{
    AppConfig, AuthUser, ChallengeRequest, Claims, ErrorKind, RevokeRequest, Role, TokenType, VerifyRequest,
};
use expense_tracker_api::session::{access_claims, bearer_token, refresh_claims, tokens_response};
use expense_tracker_api::state::{AuthChallenge, MemoryState, RefreshTokenRecord, Revocation, User};

const NOW: i64 = 1_700_000_000_000_000;
const SECOND: i64 = 1_000_000;

fn no_values() -> ConfigValues {
    ConfigValues {
        api_host: None,
        api_port: None,
        database_url: None,
        expenses_pg_enabled: None,
        auth_pg_enabled: None,
        hybrid_onchain_enabled: None,
        solana_rpc_url: None,
        solana_program_id: None,
        solana_commitment: None,
        jwt_secret: None,
        jwt_expires_in_seconds: None,
        refresh_expires_in_seconds: None,
        cleanup_interval_seconds: None,
    }
}

fn config() -> AppConfig {
    AppConfig::from_values(&no_values())
}

fn fresh_state() -> MemoryState {
    MemoryState::new(config())
}

fn new_id() -> u128 {
    uuid::Uuid::new_v4().as_u128()
}

fn new_id_text() -> String {
    uuid::Uuid::new_v4().to_string()
}

fn add_user(state: &mut MemoryState, id: u128, wallet: &str, role: Role) {
    state.users.push(User { id, wallet_address: wallet.to_string(), role, created_at: NOW });
}

fn caller(state: &MemoryState, user_id: u128, wallet: &str, role: Role, family: &str) -> AuthUser {
    let claims = access_claims(user_id, wallet, &role, family, NOW, 3600);
    state.authorize(Some(&claims)).expect("access token admitted")
}

fn family_revoked(state: &MemoryState, family: &str) -> bool {
    state.revoked_token_families.iter().any(|r| r.id == family)
}

#[test]
fn refresh_reuse_revokes_family() {
    let mut state = fresh_state();
    let family_id = new_id_text();
    let user_id = new_id();
    let claims = refresh_claims(user_id, "wallet1", &Role::User, &family_id, NOW, 3600);
    state.refresh_tokens.push(RefreshTokenRecord {
        jti: claims.jti.clone(),
        family_id: family_id.clone(),
        user_id,
        expires_at: NOW + 3600 * SECOND,
        used: true,
        revoked: false,
    });
    let err = state.refresh_session(Some(claims), NOW).unwrap_err();
    assert_eq!(err.status_code(), 401);
    assert_eq!(err.message, "Refresh token reuse detected");
    assert!(family_revoked(&state, &family_id));
}

#[test]
fn cleanup_expired_removes_old_records() {
    let mut state = fresh_state();
    state.auth_challenges.push(AuthChallenge {
        challenge_id: new_id(),
        wallet_address: "wallet".to_string(),
        nonce: "nonce".to_string(),
        message: "msg".to_string(),
        expires_at: NOW - 10 * SECOND,
        used: false,
    });
    state.refresh_tokens.push(RefreshTokenRecord {
        jti: "expired-jti".to_string(),
        family_id: "family-x".to_string(),
        user_id: new_id(),
        expires_at: NOW - 10 * SECOND,
        used: false,
        revoked: false,
    });
    state.revoked_access_jtis.push(Revocation { id: "access-jti".to_string(), at: NOW - 10 * 3600 * SECOND });
    state.revoked_token_families.push(Revocation { id: "family-x".to_string(), at: NOW - 10 * 86400 * SECOND });
    assert!(state.sweep_is_defined(NOW));
    state.cleanup_expired(NOW);
    assert!(state.auth_challenges.is_empty());
    assert!(state.refresh_tokens.is_empty());
    assert!(state.revoked_access_jtis.is_empty());
    assert!(state.revoked_token_families.is_empty());
}

#[test]
fn audit_logs_requires_admin_or_auditor() {
    let state = fresh_state();
    let user = caller(&state, new_id(), "wallet-user", Role::User, &new_id_text());
    let query = expense_tracker_api::ledger::AuditLogsQuery {
        action: None,
        actor_wallet: None,
        target_id: None,
        from: None,
        to: None,
        limit: None,
    };
    let err = state.list_audit_logs(&user, &query).unwrap_err();
    assert_eq!(err.status_code(), 403);
}

#[test]
fn refresh_route_returns_tokens() {
    let mut state = fresh_state();
    let user_id = new_id();
    let family_id = new_id_text();
    add_user(&mut state, user_id, "wallet-ok", Role::User);
    let claims = refresh_claims(user_id, "wallet-ok", &Role::User, &family_id, NOW, 3600);
    state.refresh_tokens.push(RefreshTokenRecord {
        jti: claims.jti.clone(),
        family_id: family_id.clone(),
        user_id,
        expires_at: NOW + 3600 * SECOND,
        used: false,
        revoked: false,
    });
    let grant = state.refresh_session(Some(claims), NOW).expect("refresh accepted");
    assert!(!grant.access_claims.jti.is_empty());
    assert!(!grant.refresh_claims.jti.is_empty());
    assert_eq!(grant.family_id, family_id);
    let resp = tokens_response(&grant, "access".to_string(), "refresh".to_string(), 3600, 604800);
    assert!(!resp.access_token.is_empty());
    assert!(!resp.refresh_token.is_empty());
    assert_eq!(resp.family_id, family_id);
    assert_eq!(resp.token_type, "Bearer");
    assert_eq!(resp.user_id, uuid::Uuid::from_u128(user_id).to_string());
}

#[test]
fn challenge_endpoint_works() {
    let mut state = fresh_state();
    let resp = state
        .issue_challenge(&ChallengeRequest { wallet_address: "wallet-demo".to_string() }, NOW)
        .expect("challenge issued");
    assert!(!resp.challenge_id.is_empty());
    assert!(!resp.message.is_empty());
    assert_eq!(resp.wallet_address, "wallet-demo");
    assert_eq!(resp.nonce.len(), 24);
    assert!(resp.nonce.chars().all(|c| c.is_ascii_alphanumeric()));
    assert!(resp.message.starts_with("Expense Tracker login\nwallet:wallet-demo\nnonce:"));
    assert!(resp.message.contains(&format!("\nchallenge_id:{}\n", resp.challenge_id)));
    assert!(resp.message.ends_with(&format!("\nexpires:{}", resp.expires_at)));
    assert_eq!(resp.expires_at, "2023-11-14T22:18:20+00:00");
    assert_eq!(state.auth_challenges.len(), 1);
}

fn login(state: &mut MemoryState, key: &SigningKey) -> expense_tracker_api::session::SessionGrant {
    let wallet = bs58::encode(key.verifying_key().as_bytes()).into_string();
    let challenge = state
        .issue_challenge(&ChallengeRequest { wallet_address: wallet.clone() }, NOW)
        .expect("challenge issued");
    let signature = key.sign(challenge.message.as_bytes());
    let request = VerifyRequest {
        challenge_id: challenge.challenge_id.clone(),
        wallet_address: challenge.wallet_address.clone(),
        signature: bs58::encode(signature.to_bytes()).into_string(),
    };
    state.verify_login(&request, NOW + SECOND).expect("login accepted")
}

#[test]
fn full_flow_verify_refresh_logout_then_refresh_fail() {
    let mut state = fresh_state();
    let key = SigningKey::from_bytes(&[7u8; 32]);
    let grant = login(&mut state, &key);
    assert_eq!(grant.role, Role::User);
    assert_eq!(state.users.len(), 1);

    let refreshed = state.refresh_session(Some(grant.refresh_claims.clone()), NOW + 2 * SECOND).expect("refresh accepted");
    assert_eq!(refreshed.family_id, grant.family_id);

    let auth = state.authorize(Some(&refreshed.access_claims)).expect("access token admitted");
    state.logout(&auth, Some(refreshed.refresh_claims.clone()), NOW + 3 * SECOND).expect("logout accepted");

    let err = state.refresh_session(Some(refreshed.refresh_claims.clone()), NOW + 4 * SECOND).unwrap_err();
    assert_eq!(err.status_code(), 401);
    assert_eq!(err.message, "Session revoked");
    let err = state.authorize(Some(&refreshed.access_claims)).unwrap_err();
    assert_eq!(err.message, "Token revoked");
}

#[test]
fn revoke_scope_self_and_admin() {
    let mut state = fresh_state();
    let user_id = new_id();
    let admin_id = new_id();
    let target_user_id = new_id();
    add_user(&mut state, user_id, "wallet-user", Role::User);
    add_user(&mut state, admin_id, "wallet-admin", Role::Admin);
    add_user(&mut state, target_user_id, "wallet-target", Role::User);
    let self_family_id = new_id_text();
    let another_family_id = new_id_text();
    let user = caller(&state, user_id, "wallet-user", Role::User, &self_family_id);
    let user_other = caller(&state, user_id, "wallet-user", Role::User, &new_id_text());
    let admin = caller(&state, admin_id, "wallet-admin", Role::Admin, &new_id_text());
    state.refresh_tokens.push(RefreshTokenRecord {
        jti: "target-refresh-jti".to_string(),
        family_id: another_family_id.clone(),
        user_id: target_user_id,
        expires_at: NOW + 3600 * SECOND,
        used: false,
        revoked: false,
    });

    let own = RevokeRequest { family_id: Some(self_family_id.clone()), user_id: None };
    assert!(state.revoke(&user, &own, NOW).is_ok());

    let other = RevokeRequest { family_id: Some(another_family_id.clone()), user_id: None };
    let err = state.revoke(&user_other, &other, NOW).unwrap_err();
    assert_eq!(err.status_code(), 403);

    let by_user = RevokeRequest { family_id: None, user_id: Some(uuid::Uuid::from_u128(target_user_id).to_string()) };
    assert!(state.revoke(&admin, &by_user, NOW).is_ok());
    assert!(family_revoked(&state, &another_family_id));
    assert!(family_revoked(&state, &self_family_id));
}

#[test]
fn refresh_token_exchanged_twice_is_reuse() {
    let mut state = fresh_state();
    let key = SigningKey::from_bytes(&[9u8; 32]);
    let grant = login(&mut state, &key);
    let first = state.refresh_session(Some(grant.refresh_claims.clone()), NOW + 2 * SECOND).expect("first exchange");
    let err = state.refresh_session(Some(grant.refresh_claims.clone()), NOW + 3 * SECOND).unwrap_err();
    assert_eq!(err.message, "Refresh token reuse detected");
    assert!(family_revoked(&state, &grant.family_id));
    let err = state.refresh_session(Some(first.refresh_claims.clone()), NOW + 4 * SECOND).unwrap_err();
    assert_eq!(err.message, "Session revoked");
    let err = state.authorize(Some(&first.access_claims)).unwrap_err();
    assert_eq!(err.kind, ErrorKind::Unauthorized);
}

#[test]
fn challenge_is_single_use() {
    let mut state = fresh_state();
    let key = SigningKey::from_bytes(&[3u8; 32]);
    let wallet = bs58::encode(key.verifying_key().as_bytes()).into_string();
    let challenge = state.issue_challenge(&ChallengeRequest { wallet_address: wallet.clone() }, NOW).unwrap();
    let signature = bs58::encode(key.sign(challenge.message.as_bytes()).to_bytes()).into_string();
    let request = VerifyRequest { challenge_id: challenge.challenge_id.clone(), wallet_address: wallet.clone(), signature };
    state.verify_login(&request, NOW + SECOND).expect("first login");
    let err = state.verify_login(&request, NOW + 2 * SECOND).unwrap_err();
    assert_eq!(err.message, "challenge already used");
    assert_eq!(state.users.len(), 1);
}

#[test]
fn login_refusals() {
    let mut state = fresh_state();
    let key = SigningKey::from_bytes(&[5u8; 32]);
    let wallet = bs58::encode(key.verifying_key().as_bytes()).into_string();
    let challenge = state.issue_challenge(&ChallengeRequest { wallet_address: format!("  {}  ", wallet) }, NOW).unwrap();
    assert_eq!(challenge.wallet_address, wallet);
    let good = bs58::encode(key.sign(challenge.message.as_bytes()).to_bytes()).into_string();

    let bad_id = VerifyRequest { challenge_id: "nope".to_string(), wallet_address: wallet.clone(), signature: good.clone() };
    let err = state.verify_login(&bad_id, NOW).unwrap_err();
    assert_eq!((err.kind, err.message.as_str()), (ErrorKind::BadRequest, "invalid challenge_id"));

    let unknown = VerifyRequest { challenge_id: new_id_text(), wallet_address: wallet.clone(), signature: good.clone() };
    assert_eq!(state.verify_login(&unknown, NOW).unwrap_err().message, "challenge not found");

    let mismatch = VerifyRequest {
        challenge_id: challenge.challenge_id.clone(),
        wallet_address: "someone-else".to_string(),
        signature: good.clone(),
    };
    assert_eq!(state.verify_login(&mismatch, NOW).unwrap_err().message, "wallet mismatch");

    let other_key = SigningKey::from_bytes(&[6u8; 32]);
    let forged = bs58::encode(other_key.sign(challenge.message.as_bytes()).to_bytes()).into_string();
    let forged_req = VerifyRequest { challenge_id: challenge.challenge_id.clone(), wallet_address: wallet.clone(), signature: forged };
    assert_eq!(state.verify_login(&forged_req, NOW).unwrap_err().message, "invalid signature");

    let late = VerifyRequest { challenge_id: challenge.challenge_id.clone(), wallet_address: wallet.clone(), signature: good };
    let err = state.verify_login(&late, NOW + 301 * SECOND).unwrap_err();
    assert_eq!(err.message, "challenge expired");
    assert!(state.users.is_empty());
}

#[test]
fn empty_wallet_gets_no_challenge() {
    let mut state = fresh_state();
    let err = state.issue_challenge(&ChallengeRequest { wallet_address: "   ".to_string() }, NOW).unwrap_err();
    assert_eq!(err.status_code(), 400);
    assert_eq!(err.message, "wallet_address is required");
    assert!(state.auth_challenges.is_empty());
}

#[test]
fn bearer_header_forms() {
    assert_eq!(bearer_token(Some("Bearer abc.def")).unwrap(), "abc.def");
    assert_eq!(bearer_token(None).unwrap_err().message, "Missing Authorization header");
    assert_eq!(bearer_token(Some("Basic xyz")).unwrap_err().message, "Invalid auth scheme");
    assert_eq!(bearer_token(Some("bearer abc")).unwrap_err().message, "Invalid auth scheme");
}

#[test]
fn admission_refusals() {
    let mut state = fresh_state();
    let family = new_id_text();
    let uid = new_id();
    assert_eq!(state.authorize(None).unwrap_err().message, "Invalid or expired token");
    let refresh = refresh_claims(uid, "w", &Role::User, &family, NOW, 60);
    assert_eq!(state.authorize(Some(&refresh)).unwrap_err().message, "Access token required");
    let access = access_claims(uid, "w", &Role::Auditor, &family, NOW, 60);
    let auth = state.authorize(Some(&access)).unwrap();
    assert_eq!(auth.user_id, uid);
    assert_eq!(auth.role, Role::Auditor);
    assert_eq!(access.role, "auditor");
    assert_eq!(access.typ, TokenType::Access);
    assert_eq!(access.iat, 1_700_000_000);
    assert_eq!(access.exp, 1_700_000_060);
    let odd = Claims { role: "owner".to_string(), ..access.clone() };
    assert_eq!(state.authorize(Some(&odd)).unwrap_err().message, "Invalid role claim");
    let bad_sub = Claims { sub: "x".to_string(), ..access.clone() };
    assert_eq!(state.authorize(Some(&bad_sub)).unwrap_err().message, "Invalid subject claim");
    state.revoked_token_families.push(Revocation { id: family.clone(), at: NOW });
    assert_eq!(state.authorize(Some(&access)).unwrap_err().message, "Session revoked");
}

#[test]
fn logout_of_another_session_is_forbidden() {
    let mut state = fresh_state();
    let me = caller(&state, new_id(), "w1", Role::User, &new_id_text());
    let theirs = refresh_claims(new_id(), "w2", &Role::User, &new_id_text(), NOW, 60);
    let err = state.logout(&me, Some(theirs), NOW).unwrap_err();
    assert_eq!((err.kind, err.message.as_str()), (ErrorKind::Forbidden, "Cannot logout another session"));
    let access = access_claims(me.user_id, "w1", &Role::User, "f", NOW, 60);
    let err = state.logout(&me, Some(access), NOW).unwrap_err();
    assert_eq!(err.message, "Refresh token required");
    assert_eq!(state.logout(&me, None, NOW).unwrap_err().message, "Invalid refresh token");
    assert!(state.audit_logs.is_empty());
}

#[test]
fn revoke_needs_a_target() {
    let mut state = fresh_state();
    let admin = caller(&state, new_id(), "w", Role::Admin, &new_id_text());
    let err = state.revoke(&admin, &RevokeRequest { family_id: None, user_id: None }, NOW).unwrap_err();
    assert_eq!(err.message, "family_id or user_id is required");
    let err = state.revoke(&admin, &RevokeRequest { family_id: None, user_id: Some("zz".to_string()) }, NOW).unwrap_err();
    assert_eq!(err.message, "invalid user_id");
    let user = caller(&state, new_id(), "u", Role::User, &new_id_text());
    let err = state
        .revoke(&user, &RevokeRequest { family_id: None, user_id: Some(new_id_text()) }, NOW)
        .unwrap_err();
    assert_eq!(err.message, "insufficient role");
}

#[test]
fn me_reports_own_account() {
    let mut state = fresh_state();
    let uid = new_id();
    add_user(&mut state, uid, "wallet-me", Role::Admin);
    let auth = caller(&state, uid, "wallet-me", Role::Admin, "fam");
    let me = state.me(&auth).unwrap();
    assert_eq!(me.id, uuid::Uuid::from_u128(uid).to_string());
    assert_eq!(me.wallet_address, "wallet-me");
    assert_eq!(me.role, Role::Admin);
    assert_eq!(me.created_at, "2023-11-14T22:13:20+00:00");
    let stranger = caller(&state, new_id(), "x", Role::User, "fam");
    assert_eq!(state.me(&stranger).unwrap_err().status_code(), 404);
}

#[test]
fn sweep_keeps_live_records() {
    let mut state = fresh_state();
    state.auth_challenges.push(AuthChallenge {
        challenge_id: 1,
        wallet_address: "w".to_string(),
        nonce: "n".to_string(),
        message: "m".to_string(),
        expires_at: NOW + 10 * SECOND,
        used: false,
    });
    state.auth_challenges.push(AuthChallenge {
        challenge_id: 2,
        wallet_address: "w".to_string(),
        nonce: "n".to_string(),
        message: "m".to_string(),
        expires_at: NOW + 10 * SECOND,
        used: true,
    });
    state.revoked_access_jtis.push(Revocation { id: "recent".to_string(), at: NOW - SECOND });
    state.cleanup_expired(NOW);
    assert_eq!(state.auth_challenges.len(), 2);
    assert_eq!(state.revoked_access_jtis.len(), 1);
    state.cleanup_expired(NOW + 311 * SECOND);
    assert!(state.auth_challenges.is_empty());
}
