use expense_tracker_api::authz::{
    parse_status_text, require_admin, require_admin_or_auditor, require_roles, require_user_admin_or_auditor,
    require_user_or_admin, role_from_db, role_to_str, status_from_db, status_to_db,
};
use expense_tracker_api::commit::{
    check_category_accounts, derive_program_config_pda, ensure_hybrid_onchain_enabled, ensure_pg_mode,
    parse_program_id, parse_wallet_pubkey, prepare_category_commit, resolve_rpc_url,
};
use expense_tracker_api::config::{cleanup_period_seconds, ConfigValues};
use expense_tracker_api::model::{AppConfig, AuthUser, CommitCategoryRequest, ErrorKind, ExpenseStatus, Role};
use expense_tracker_api::onchain::{
    decode_create_category_name, decode_create_expense_args, decode_update_status_arg, ensure_account_at,
    instruction_discriminator, parse_account_keys, u64_le_bytes, validate_signature_base58, verify_instruction,
    AccountKeyEntry, FetchedTransaction, RawInstruction, RpcReply, TransactionMessage, VerifiedInstruction,
};
use expense_tracker_api::program::{
    create_category, create_expense, init_program_config, init_user_profile, update_expense_status, Category, CreateCategory,
    CreateExpense, Expense, ExpenseError, InitProgramConfig, InitUserProfile, ProgramConfig, UpdateExpenseStatus, UserProfile,
};
use expense_tracker_api::session::access_claims;
use expense_tracker_api::state::MemoryState;
use expense_tracker_api::text::{contains_text, decimal_text, parse_decimal, str_lt, trim};
use sha2::{Digest, Sha256};

const NOW: i64 = 1_700_000_000_000_000;
const PROGRAM: &str = "rzMxNuut6R34aFgt8NY9hj3SoRB37iszrsSqZR2DSnB";

fn values() -> ConfigValues {
    ConfigValues {
        api_host: None,
        api_port: None,
        database_url: None,
        expenses_pg_enabled: None,
        auth_pg_enabled: None,
        hybrid_onchain_enabled: None,
        solana_rpc_url: None,
        solana_program_id: None,
        solana_commitment: None,
        jwt_secret: None,
        jwt_expires_in_seconds: None,
        refresh_expires_in_seconds: None,
        cleanup_interval_seconds: None,
    }
}

fn auth_with(role: Role) -> AuthUser {
    let state = MemoryState::new(AppConfig::from_values(&values()));
    let claims = access_claims(5, "wallet", &role, "fam", NOW, 60);
    state.authorize(Some(&claims)).unwrap()
}

#[test]
fn settings_defaults_and_overrides() {
    let c = AppConfig::from_values(&values());
    assert_eq!(c.host, "0.0.0.0");
    assert_eq!(c.port, 8080);
    assert_eq!(c.database_url, None);
    assert!(!c.expenses_pg_enabled);
    assert_eq!(c.solana_rpc_url, "http://127.0.0.1:8899");
    assert_eq!(c.solana_program_id, PROGRAM);
    assert_eq!(c.solana_commitment, "finalized");
    assert_eq!(c.jwt_secret, "change_me_in_production");
    assert_eq!(c.jwt_expires_in_seconds, 3600);
    assert_eq!(c.refresh_expires_in_seconds, 604800);
    assert_eq!(c.cleanup_interval_seconds, 30);
    assert_eq!(c.challenge_ttl_seconds, 300);
    assert_eq!(c.revoked_family_retention_seconds, 604800);

    let v = ConfigValues {
        api_port: Some("9000".to_string()),
        database_url: Some("   ".to_string()),
        expenses_pg_enabled: Some("TRUE".to_string()),
        auth_pg_enabled: Some("Yes".to_string()),
        hybrid_onchain_enabled: Some("on".to_string()),
        jwt_expires_in_seconds: Some("-5".to_string()),
        refresh_expires_in_seconds: Some("12x".to_string()),
        cleanup_interval_seconds: Some("+2".to_string()),
        ..values()
    };
    let c = AppConfig::from_values(&v);
    assert_eq!(c.port, 9000);
    assert_eq!(c.database_url, None);
    assert!(c.expenses_pg_enabled);
    assert!(c.auth_pg_enabled);
    assert!(!c.hybrid_onchain_enabled);
    assert_eq!(c.jwt_expires_in_seconds, -5);
    assert_eq!(c.refresh_expires_in_seconds, 604800);
    assert_eq!(c.cleanup_interval_seconds, 2);
    assert_eq!(cleanup_period_seconds(&c), 5);
    let c = AppConfig::from_values(&ConfigValues { api_port: Some("70000".to_string()), database_url: Some("postgres://x".to_string()), ..values() });
    assert_eq!(c.port, 8080);
    assert_eq!(c.database_url, Some("postgres://x".to_string()));
}

#[test]
fn decimal_text_and_parsing() {
    assert_eq!(decimal_text(0), "0");
    assert_eq!(decimal_text(1250), "1250");
    assert_eq!(decimal_text(-42), "-42");
    assert_eq!(decimal_text(i64::MIN), "-9223372036854775808");
    assert_eq!(parse_decimal("9223372036854775807", i64::MIN, i64::MAX), Some(i64::MAX));
    assert_eq!(parse_decimal("-9223372036854775808", i64::MIN, i64::MAX), Some(i64::MIN));
    assert_eq!(parse_decimal("9223372036854775808", i64::MIN, i64::MAX), None);
    assert_eq!(parse_decimal("-1", 0, 65535), None);
    assert_eq!(parse_decimal("+", i64::MIN, i64::MAX), None);
    assert_eq!(parse_decimal("", i64::MIN, i64::MAX), None);
    assert_eq!(parse_decimal(" 1", i64::MIN, i64::MAX), None);
    assert_eq!(parse_decimal("65535", 0, 65535), Some(65535));
}

#[test]
fn text_helpers() {
    assert_eq!(trim("  a b \n"), "a b");
    assert_eq!(trim("   "), "");
    assert!(str_lt("2023-01-01", "2023-01-02"));
    assert!(str_lt("ab", "abc"));
    assert!(!str_lt("abc", "abc"));
    assert!(!str_lt("b", "abc"));
    assert!(contains_text("1250 usd", "50 u"));
    assert!(contains_text("x", ""));
    assert!(!contains_text("usd", "usdc"));
}

#[test]
fn roles_and_statuses() {
    assert!(require_roles(&auth_with(Role::User), &[Role::Admin, Role::User]).is_ok());
    assert_eq!(require_admin(&auth_with(Role::User)).unwrap_err().message, "insufficient role");
    assert!(require_user_or_admin(&auth_with(Role::Admin)).is_ok());
    assert!(require_user_or_admin(&auth_with(Role::Auditor)).is_err());
    assert!(require_user_admin_or_auditor(&auth_with(Role::Auditor)).is_ok());
    assert!(require_admin_or_auditor(&auth_with(Role::Auditor)).is_ok());
    assert_eq!(require_admin_or_auditor(&auth_with(Role::User)).unwrap_err().status_code(), 403);
    assert_eq!(role_to_str(&Role::Auditor), "auditor");
    assert_eq!(role_from_db("admin").unwrap(), Role::Admin);
    assert_eq!(role_from_db("root").unwrap_err().message, "invalid role in database");
    assert_eq!(status_to_db(&ExpenseStatus::Rejected), "rejected");
    assert_eq!(status_from_db("approved").unwrap(), ExpenseStatus::Approved);
    assert_eq!(status_from_db("x").unwrap_err().kind, ErrorKind::Internal);
    assert_eq!(parse_status_text(" Approved ").unwrap(), ExpenseStatus::Approved);
    assert_eq!(parse_status_text("done").unwrap_err().message, "to_status must be one of: pending, approved, rejected");
}

#[test]
fn instruction_payloads() {
    let expected: [u8; 8] = Sha256::digest(b"global:create_category")[..8].try_into().unwrap();
    assert_eq!(instruction_discriminator("create_category"), expected);
    let mut data = expected.to_vec();
    data.extend_from_slice(&4u32.to_le_bytes());
    data.extend_from_slice(b"Food");
    assert_eq!(decode_create_category_name(&data).unwrap(), "Food");
    assert_eq!(decode_create_category_name(&data[..10]).unwrap_err().message, "invalid create_category instruction data");
    assert_eq!(decode_create_category_name(&data[..14]).unwrap_err().message, "category name bytes truncated");

    let mut args = vec![0u8; 8];
    args.extend_from_slice(&7u64.to_le_bytes());
    args.extend_from_slice(&1500u64.to_le_bytes());
    args.extend_from_slice(&[0u8; 32]);
    assert_eq!(decode_create_expense_args(&args).unwrap(), (7, 1500));
    assert!(decode_create_expense_args(&args[..55]).is_err());
    assert_eq!(u64_le_bytes(258), vec![2, 1, 0, 0, 0, 0, 0, 0]);

    let mut status = vec![0u8; 8];
    status.push(2);
    assert_eq!(decode_update_status_arg(&status).unwrap(), ExpenseStatus::Rejected);
    status[8] = 9;
    assert_eq!(decode_update_status_arg(&status).unwrap_err().message, "invalid onchain status enum value");
}

#[test]
fn signatures_and_keys() {
    let sig = bs58::encode([1u8; 64]).into_string();
    assert_eq!(validate_signature_base58(&format!(" {} ", sig)).unwrap(), sig);
    assert_eq!(validate_signature_base58("  ").unwrap_err().message, "tx_hash is required");
    assert_eq!(validate_signature_base58("0OIl").unwrap_err().message, "invalid tx_hash base58");
    assert_eq!(validate_signature_base58(&bs58::encode([1u8; 32]).into_string()).unwrap_err().message, "invalid tx_hash length");
    assert!(parse_program_id(PROGRAM).is_ok());
    assert_eq!(parse_program_id("nope").unwrap_err().message, "invalid SOLANA_PROGRAM_ID");
    assert_eq!(parse_wallet_pubkey("nope").unwrap_err().message, "invalid wallet pubkey");

    let c = AppConfig::from_values(&values());
    assert_eq!(ensure_hybrid_onchain_enabled(&c).unwrap_err().message, "hybrid onchain flow is disabled");
    assert_eq!(ensure_pg_mode(&c).unwrap_err().message, "expenses postgres mode is required for hybrid commits");
    assert_eq!(resolve_rpc_url(&c, None, false).unwrap(), "http://127.0.0.1:8899");
    assert_eq!(resolve_rpc_url(&c, Some("http://x"), false).unwrap_err().status_code(), 403);
    assert_eq!(resolve_rpc_url(&c, Some("ftp://x"), true).unwrap_err().message, "rpc_url_override must be http(s) url");
    assert_eq!(resolve_rpc_url(&c, Some("https://x"), true).unwrap(), "https://x");
}

fn reply_with(keys: Vec<&str>, data: Vec<u8>, accounts: Vec<Option<u64>>) -> RpcReply {
    RpcReply {
        has_error: false,
        result: Some(FetchedTransaction {
            meta_present: true,
            meta_err_null: true,
            slot: Some(42),
            message: Some(TransactionMessage {
                account_keys: Some(keys.iter().map(|k| AccountKeyEntry::Text(k.to_string())).collect()),
                num_required_signatures: Some(1),
                instructions: Some(vec![RawInstruction {
                    program_id_index: Some((keys.len() - 1) as u64),
                    data: Some(bs58::encode(&data).into_string()),
                    accounts: Some(accounts),
                }]),
            }),
        }),
    }
}

#[test]
fn transaction_instruction_is_found() {
    let program = parse_program_id(PROGRAM).unwrap();
    let wallet = bs58::encode([3u8; 32]).into_string();
    let mut data = instruction_discriminator("create_category").to_vec();
    data.extend_from_slice(&4u32.to_le_bytes());
    data.extend_from_slice(b"Food");
    let reply = reply_with(vec![&wallet, "Profile1111", PROGRAM], data.clone(), vec![Some(0), Some(1)]);
    let v = verify_instruction(&reply, &program, "create_category", &wallet).unwrap();
    assert_eq!(v.slot, 42);
    assert_eq!(v.data_raw, data);
    assert_eq!(v.account_indices, vec![0, 1]);
    assert!(ensure_account_at(&v, 0, &wallet).is_ok());
    assert_eq!(ensure_account_at(&v, 1, "other").unwrap_err().message, "instruction account mismatch");
    assert_eq!(ensure_account_at(&v, 2, "x").unwrap_err().message, "instruction account index missing");

    let err = verify_instruction(&reply, &program, "create_category", "someone").unwrap_err();
    assert_eq!((err.status_code(), err.message.as_str()), (403, "jwt wallet is not a transaction signer"));
    let err = verify_instruction(&reply, &program, "create_expense", &wallet).unwrap_err();
    assert_eq!(err.message, "matching instruction not found in transaction");
    let failed = RpcReply { has_error: true, result: None };
    assert_eq!(verify_instruction(&failed, &program, "create_category", &wallet).unwrap_err().message, "solana rpc returned error for tx_hash");

    let message = TransactionMessage {
        account_keys: Some(vec![AccountKeyEntry::Object(Some("k1".to_string())), AccountKeyEntry::Text("k2".to_string())]),
        num_required_signatures: None,
        instructions: None,
    };
    assert_eq!(parse_account_keys(&message).unwrap(), vec!["k1".to_string(), "k2".to_string()]);
    let odd = TransactionMessage { account_keys: Some(vec![AccountKeyEntry::Other]), num_required_signatures: None, instructions: None };
    assert_eq!(parse_account_keys(&odd).unwrap_err().message, "invalid account key format");

    let bad_index = VerifiedInstruction {
        slot: 1,
        signer_wallet: wallet.clone(),
        account_keys: vec![wallet.clone()],
        account_indices: vec![3],
        data_raw: vec![],
    };
    assert_eq!(ensure_account_at(&bad_index, 0, &wallet).unwrap_err().message, "instruction account index out of range");
}

#[test]
fn program_instructions() {
    let owner = [1u8; 32];
    let other = [2u8; 32];
    let profile = init_user_profile(&InitUserProfile { owner, user_profile_bump: 254 }).unwrap();
    assert_eq!(profile, UserProfile { owner, bump: 254 });

    let ctx = CreateCategory { owner, user_profile: UserProfile { owner, bump: 254 }, category_bump: 7 };
    let cat = create_category(&ctx, "Food".to_string()).unwrap();
    assert_eq!(cat.name, "Food");
    assert_eq!(create_category(&ctx, "   ".to_string()).unwrap_err(), ExpenseError::InvalidCategoryName);
    assert_eq!(create_category(&ctx, "x".repeat(65)).unwrap_err(), ExpenseError::InvalidCategoryName);
    assert!(create_category(&ctx, "x".repeat(64)).is_ok());
    let foreign = CreateCategory { owner, user_profile: UserProfile { owner: other, bump: 1 }, category_bump: 7 };
    assert_eq!(create_category(&foreign, "Food".to_string()).unwrap_err(), ExpenseError::Unauthorized);

    let ectx = CreateExpense {
        owner,
        user_profile: UserProfile { owner, bump: 1 },
        category_key: [9u8; 32],
        category: Category { owner, name: "Food".to_string(), bump: 7 },
        expense_bump: 3,
    };
    let e = create_expense(&ectx, 11, 500, [0u8; 32]).unwrap();
    assert_eq!(e.status, ExpenseStatus::Pending);
    assert_eq!(e.category, [9u8; 32]);
    assert_eq!(create_expense(&ectx, 11, 0, [0u8; 32]).unwrap_err(), ExpenseError::InvalidAmount);
    let other_cat = CreateExpense { category: Category { owner: other, name: "F".to_string(), bump: 1 }, ..ectx };
    assert_eq!(create_expense(&other_cat, 11, 0, [0u8; 32]).unwrap_err(), ExpenseError::Unauthorized);

    let admin = [42u8; 32];
    let config = init_program_config(&InitProgramConfig { admin, program_config_bump: 4 }).unwrap();
    assert_eq!(config.admin_authority, admin);
    let mut uctx = UpdateExpenseStatus { owner, program_config: ProgramConfig { admin_authority: admin, bump: 4 }, expense: e };
    assert!(update_expense_status(&mut uctx, ExpenseStatus::Approved).is_ok());
    assert_eq!(uctx.expense.status, ExpenseStatus::Approved);
    assert_eq!(update_expense_status(&mut uctx, ExpenseStatus::Rejected).unwrap_err(), ExpenseError::InvalidStatusTransition);
    assert_eq!(uctx.expense.status, ExpenseStatus::Approved);
    let mut stranger = UpdateExpenseStatus {
        owner: other,
        program_config: ProgramConfig { admin_authority: admin, bump: 4 },
        expense: Expense { owner, expense_id: 1, category: [0u8; 32], amount: 1, note_hash: [0u8; 32], status: ExpenseStatus::Pending, bump: 0 },
    };
    assert_eq!(update_expense_status(&mut stranger, ExpenseStatus::Approved).unwrap_err(), ExpenseError::Unauthorized);
    let mut by_admin = UpdateExpenseStatus {
        owner: admin,
        program_config: ProgramConfig { admin_authority: admin, bump: 4 },
        expense: Expense { owner, expense_id: 2, category: [0u8; 32], amount: 1, note_hash: [0u8; 32], status: ExpenseStatus::Pending, bump: 0 },
    };
    assert!(update_expense_status(&mut by_admin, ExpenseStatus::Rejected).is_ok());
    assert_eq!(by_admin.expense.status, ExpenseStatus::Rejected);
    assert_eq!(update_expense_status(&mut by_admin, ExpenseStatus::Approved).unwrap_err(), ExpenseError::InvalidStatusTransition);
    assert_eq!(ExpenseError::InvalidStatusTransition.message(), "Invalid status transition");
}

#[test]
fn program_addresses() {
    let program = parse_program_id(PROGRAM).unwrap();
    let pk = solana_pubkey::Pubkey::new_from_array(program);
    let expected = solana_pubkey::Pubkey::find_program_address(&[b"program_config"], &pk).0;
    assert_eq!(derive_program_config_pda(&program), Some(expected.to_bytes()));
}

#[test]
fn category_commit_accounts() {
    let cfg = AppConfig::from_values(&ConfigValues {
        expenses_pg_enabled: Some("1".to_string()),
        hybrid_onchain_enabled: Some("yes".to_string()),
        ..values()
    });
    let owner = [3u8; 32];
    let wallet = solana_pubkey::Pubkey::new_from_array(owner).to_string();
    let state = MemoryState::new(cfg.clone());
    let auth = state.authorize(Some(&access_claims(5, &wallet, &Role::User, "fam", NOW, 60))).unwrap();
    let payload = CommitCategoryRequest {
        tx_hash: bs58::encode([4u8; 64]).into_string(),
        category_name: " Food ".to_string(),
        client_ref_id: None,
        rpc_url_override: None,
    };
    let plan = prepare_category_commit(&cfg, &auth, &payload, false).unwrap();
    assert_eq!(plan.category_name, "Food");
    assert_eq!(plan.rpc_url, "http://127.0.0.1:8899");
    assert_eq!(plan.owner, owner);

    let program = solana_pubkey::Pubkey::new_from_array(plan.program_id);
    let owner_key = solana_pubkey::Pubkey::new_from_array(owner);
    let profile = solana_pubkey::Pubkey::find_program_address(&[b"user_profile", owner_key.as_ref()], &program).0.to_string();
    let category =
        solana_pubkey::Pubkey::find_program_address(&[b"category", owner_key.as_ref(), b"Food"], &program).0.to_string();
    let verified = VerifiedInstruction {
        slot: 1,
        signer_wallet: wallet.clone(),
        account_keys: vec![wallet.clone(), profile.clone(), category.clone(), PROGRAM.to_string()],
        account_indices: vec![0, 1, 2],
        data_raw: vec![],
    };
    assert_eq!(check_category_accounts(&plan, &wallet, &verified).unwrap(), category);
    let swapped = VerifiedInstruction { account_indices: vec![0, 2, 1], ..verified };
    assert_eq!(check_category_accounts(&plan, &wallet, &swapped).unwrap_err().message, "instruction account mismatch");

    let user_cfg = AppConfig::from_values(&values());
    assert_eq!(prepare_category_commit(&user_cfg, &auth, &payload, false).unwrap_err().message, "hybrid onchain flow is disabled");
}

#[test]
fn category_name_must_be_utf8() {
    let mut data = vec![0u8; 8];
    data.extend_from_slice(&2u32.to_le_bytes());
    data.extend_from_slice(&[0xff, 0xfe]);
    assert_eq!(decode_create_category_name(&data).unwrap_err().message, "category name is not utf8");
}
