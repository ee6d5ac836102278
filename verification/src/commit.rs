//! The checks of the hybrid commit flow. A commit runs in three steps: the
//! request is checked before the transaction is fetched (`prepare_*`), the
//! fetched transaction is checked against the request (`check_*`), and the
//! records are then written by the caller. Program-derived addresses are
//! compared as the key texts that the transaction lists.
use vstd::prelude::*;
use crate::authz::require_user_or_admin;
use crate::authz::require_admin;
use crate::authz::parse_status_text;
use crate::model::{
    fails_with, AppConfig, AppError, AppResult, AuthUser, CommitCategoryRequest,
    CommitExpenseCreateRequest, CommitExpenseStatusRequest, ErrorKind, ErrorView, ExpenseStatus, Role,
};
use crate::onchain::{
    account_check, category_name_decoding, decode_create_category_name, decode_create_expense_args,
    decode_update_status_arg, discriminator_of, ensure_account_at, expense_args_decoding, le_bytes_u64,
    status_arg_decoding, texts, transaction_verification, tx_hash_check, u64_le_bytes,
    validate_signature_base58, verify_instruction, RpcReply, VerifiedInstruction, VerifiedView,
};
use crate::primitives::{
    find_program_address, parse_pubkey, parse_uuid, parsed_pubkey, program_address, pubkey_text,
    pubkey_to_text, uuid_parsed,
};
use crate::text::{has_prefix, starts_with, trim, trimmed};

verus! {

// ---------------------------------------------------------------------------
// Seeds
// ---------------------------------------------------------------------------

/// The error when no program-derived address exists for the seeds.
pub open spec fn no_address_error() -> ErrorView {
    (ErrorKind::Internal, "program address not found"@)
}

/// The bytes of `user_profile`.
pub open spec fn seed_user_profile() -> Seq<u8> {
    seq![117u8, 115u8, 101u8, 114u8, 95u8, 112u8, 114u8, 111u8, 102u8, 105u8, 108u8, 101u8]
}

/// The bytes of `category`.
pub open spec fn seed_category() -> Seq<u8> {
    seq![99u8, 97u8, 116u8, 101u8, 103u8, 111u8, 114u8, 121u8]
}

/// The bytes of `expense`.
pub open spec fn seed_expense() -> Seq<u8> {
    seq![101u8, 120u8, 112u8, 101u8, 110u8, 115u8, 101u8]
}

/// The bytes of `program_config`.
pub open spec fn seed_program_config() -> Seq<u8> {
    seq![112u8, 114u8, 111u8, 103u8, 114u8, 97u8, 109u8, 95u8, 99u8, 111u8, 110u8, 102u8, 105u8, 103u8]
}

fn bytes_of_array32(a: &[u8; 32]) -> (r: Vec<u8>)
    ensures
        r@ == a@,
{
    let mut v: Vec<u8> = Vec::new();
    let mut i: usize = 0;
    while i < 32
        invariant
            i <= 32,
            v@ == a@.subrange(0, i as int),
        decreases 32 - i,
    {
        v.push(a[i]);
        i = i + 1;
        proof {
            assert(v@ =~= a@.subrange(0, i as int));
        }
    }
    proof {
        assert(a@.subrange(0, 32) =~= a@);
    }
    v
}

/// The address of the user profile of `owner` under `program`.
pub open spec fn user_profile_address(owner: Seq<u8>, program: Seq<u8>) -> Option<Seq<u8>> {
    program_address(seq![seed_user_profile(), owner], program)
}

/// The address of the category `name` (its UTF-8 bytes) of `owner`.
pub open spec fn category_address(owner: Seq<u8>, name: Seq<u8>, program: Seq<u8>) -> Option<Seq<u8>> {
    program_address(seq![seed_category(), owner, name], program)
}

/// The address of the expense with on-chain id `id` of `owner`.
pub open spec fn expense_address(owner: Seq<u8>, id: u64, program: Seq<u8>) -> Option<Seq<u8>> {
    program_address(seq![seed_expense(), owner, le_bytes_u64(id)], program)
}

/// The address of the program configuration account.
pub open spec fn program_config_address(program: Seq<u8>) -> Option<Seq<u8>> {
    program_address(seq![seed_program_config()], program)
}

fn user_profile_pda(owner: &[u8; 32], program: &[u8; 32]) -> (r: Option<[u8; 32]>)
    ensures
        match r {
            Some(a) => user_profile_address(owner@, program@) == Some(a@),
            None => user_profile_address(owner@, program@) is None,
        },
{
    let mut seeds: Vec<Vec<u8>> = Vec::new();
    seeds.push(vec![117u8, 115u8, 101u8, 114u8, 95u8, 112u8, 114u8, 111u8, 102u8, 105u8, 108u8, 101u8]);
    seeds.push(bytes_of_array32(owner));
    proof {
        assert(crate::primitives::seeds_view(seeds@) =~= seq![seed_user_profile(), owner@]);
    }
    find_program_address(&seeds, program)
}

fn category_pda(owner: &[u8; 32], name: &str, program: &[u8; 32]) -> (r: Option<[u8; 32]>)
    requires
        vstd::utf8::encode_utf8(name@).len() <= 32,
    ensures
        match r {
            Some(a) => category_address(owner@, vstd::utf8::encode_utf8(name@), program@) == Some(a@),
            None => category_address(owner@, vstd::utf8::encode_utf8(name@), program@) is None,
        },
{
    let mut seeds: Vec<Vec<u8>> = Vec::new();
    seeds.push(vec![99u8, 97u8, 116u8, 101u8, 103u8, 111u8, 114u8, 121u8]);
    seeds.push(bytes_of_array32(owner));
    seeds.push(name.as_bytes_vec());
    proof {
        assert(crate::primitives::seeds_view(seeds@) =~= seq![
            seed_category(),
            owner@,
            vstd::utf8::encode_utf8(name@),
        ]);
    }
    find_program_address(&seeds, program)
}

fn expense_pda(owner: &[u8; 32], id: u64, program: &[u8; 32]) -> (r: Option<[u8; 32]>)
    ensures
        match r {
            Some(a) => expense_address(owner@, id, program@) == Some(a@),
            None => expense_address(owner@, id, program@) is None,
        },
{
    let mut seeds: Vec<Vec<u8>> = Vec::new();
    seeds.push(vec![101u8, 120u8, 112u8, 101u8, 110u8, 115u8, 101u8]);
    seeds.push(bytes_of_array32(owner));
    seeds.push(u64_le_bytes(id));
    proof {
        assert(crate::primitives::seeds_view(seeds@) =~= seq![seed_expense(), owner@, le_bytes_u64(id)]);
    }
    find_program_address(&seeds, program)
}

/// The address of the program configuration account of `program_id`;
/// `None` when no bump seed gives one.
pub fn derive_program_config_pda(program_id: &[u8; 32]) -> (r: Option<[u8; 32]>)
    ensures
        match r {
            Some(a) => program_config_address(program_id@) == Some(a@),
            None => program_config_address(program_id@) is None,
        },
{
    let mut seeds: Vec<Vec<u8>> = Vec::new();
    seeds.push(vec![112u8, 114u8, 111u8, 103u8, 114u8, 97u8, 109u8, 95u8, 99u8, 111u8, 110u8, 102u8, 105u8, 103u8]);
    proof {
        assert(crate::primitives::seeds_view(seeds@) =~= seq![seed_program_config()]);
    }
    find_program_address(&seeds, program_id)
}

// ---------------------------------------------------------------------------
// Request checks shared by the commits
// ---------------------------------------------------------------------------

/// Fails with `hybrid onchain flow is disabled` unless the hybrid flow is on.
pub fn ensure_hybrid_onchain_enabled(config: &AppConfig) -> (r: AppResult<()>)
    ensures
        r is Ok <==> config.hybrid_onchain_enabled,
        !config.hybrid_onchain_enabled ==> fails_with(
            r,
            (ErrorKind::BadRequest, "hybrid onchain flow is disabled"@),
        ),
{
    if !config.hybrid_onchain_enabled {
        return Err(AppError::bad_request("hybrid onchain flow is disabled"));
    }
    Ok(())
}

/// Fails unless expenses are kept in Postgres, which hybrid commits need.
pub fn ensure_pg_mode(config: &AppConfig) -> (r: AppResult<()>)
    ensures
        r is Ok <==> config.expenses_pg_enabled,
        !config.expenses_pg_enabled ==> fails_with(
            r,
            (ErrorKind::BadRequest, "expenses postgres mode is required for hybrid commits"@),
        ),
{
    if !config.expenses_pg_enabled {
        return Err(AppError::bad_request("expenses postgres mode is required for hybrid commits"));
    }
    Ok(())
}

/// The configured program id; a configuration that does not parse is an
/// internal error.
pub fn parse_program_id(value: &str) -> (r: AppResult<[u8; 32]>)
    ensures
        match parsed_pubkey(value@) {
            Some(b) => r matches Ok(k) && k@ == b,
            None => fails_with(r, (ErrorKind::Internal, "invalid SOLANA_PROGRAM_ID"@)),
        },
{
    match parse_pubkey(value) {
        Some(k) => Ok(k),
        None => Err(AppError::internal("invalid SOLANA_PROGRAM_ID")),
    }
}

/// A wallet or account key given by a client; one that does not parse is a
/// bad request.
pub fn parse_wallet_pubkey(value: &str) -> (r: AppResult<[u8; 32]>)
    ensures
        match parsed_pubkey(value@) {
            Some(b) => r matches Ok(k) && k@ == b,
            None => fails_with(r, (ErrorKind::BadRequest, "invalid wallet pubkey"@)),
        },
{
    match parse_pubkey(value) {
        Some(k) => Ok(k),
        None => Err(AppError::bad_request("invalid wallet pubkey")),
    }
}

/// What `resolve_rpc_url` answers.
pub open spec fn rpc_url_resolution(config: AppConfig, url_override: Option<Seq<char>>, debug_build: bool) -> Result<
    Seq<char>,
    ErrorView,
> {
    match url_override {
        Some(url) => if !debug_build {
            Err((ErrorKind::Forbidden, "rpc_url_override is allowed only in debug build"@))
        } else if !has_prefix(url, "http://"@) && !has_prefix(url, "https://"@) {
            Err((ErrorKind::BadRequest, "rpc_url_override must be http(s) url"@))
        } else {
            Ok(url)
        },
        None => Ok(config.solana_rpc_url@),
    }
}

/// The RPC endpoint to ask: the configured one, or an http(s) override,
/// which only a debug build accepts.
pub fn resolve_rpc_url(config: &AppConfig, rpc_url_override: Option<&str>, debug_build: bool) -> (r: AppResult<String>)
    ensures
        match rpc_url_resolution(
            *config,
            match rpc_url_override {
                Some(u) => Some(u@),
                None => None,
            },
            debug_build,
        ) {
            Ok(u) => r matches Ok(s) && s@ == u,
            Err(e) => fails_with(r, e),
        },
{
    match rpc_url_override {
        Some(url) => {
            if !debug_build {
                return Err(AppError::forbidden("rpc_url_override is allowed only in debug build"));
            }
            if !starts_with(url, "http://") && !starts_with(url, "https://") {
                return Err(AppError::bad_request("rpc_url_override must be http(s) url"));
            }
            Ok(url.to_owned())
        },
        None => Ok(config.solana_rpc_url.clone()),
    }
}

fn opt_str(o: &Option<String>) -> (r: Option<&str>)
    ensures
        match o {
            Some(s) => r matches Some(t) && t@ == s@,
            None => r is None,
        },
{
    match o {
        Some(s) => Some(s.as_str()),
        None => None,
    }
}

/// The override text of a request, as a value of specifications.
pub open spec fn override_view(o: Option<String>) -> Option<Seq<char>> {
    match o {
        Some(s) => Some(s@),
        None => None,
    }
}

/// Whether the caller may commit categories and expenses: users and admins.
pub open spec fn may_write(auth: AuthUser) -> bool {
    auth.role == Role::User || auth.role == Role::Admin
}

/// The checks of the configuration that every hybrid commit makes after the
/// role check.
pub open spec fn hybrid_config_check(config: AppConfig) -> Result<(), ErrorView> {
    if !config.hybrid_onchain_enabled {
        Err((ErrorKind::BadRequest, "hybrid onchain flow is disabled"@))
    } else if !config.expenses_pg_enabled {
        Err((ErrorKind::BadRequest, "expenses postgres mode is required for hybrid commits"@))
    } else {
        Ok(())
    }
}

// ---------------------------------------------------------------------------
// Category commits
// ---------------------------------------------------------------------------

/// A category commit request that passed the checks made before the
/// transaction is fetched.
#[derive(Debug, PartialEq, Eq)]
pub struct CategoryCommitPlan {
    pub tx_hash: String,
    /// The trimmed category name.
    pub category_name: String,
    pub program_id: [u8; 32],
    /// The caller's wallet key.
    pub owner: [u8; 32],
    pub rpc_url: String,
}

/// The checks of a category commit request before the transaction is
/// fetched, in order, and the plan they yield: signature text, trimmed name,
/// program id, owner key and endpoint.
pub open spec fn category_commit_preparation(
    config: AppConfig,
    auth: AuthUser,
    payload: CommitCategoryRequest,
    debug_build: bool,
) -> Result<(Seq<char>, Seq<char>, Seq<u8>, Seq<u8>, Seq<char>), ErrorView> {
    if !may_write(auth) {
        Err((ErrorKind::Forbidden, "insufficient role"@))
    } else if hybrid_config_check(config) is Err {
        Err(hybrid_config_check(config)->Err_0)
    } else {
        match tx_hash_check(payload.tx_hash@) {
            Err(e) => Err(e),
            Ok(tx) => if trimmed(payload.category_name@).len() == 0 {
                Err((ErrorKind::BadRequest, "category_name is required"@))
            } else {
                match parsed_pubkey(config.solana_program_id@) {
                    None => Err((ErrorKind::Internal, "invalid SOLANA_PROGRAM_ID"@)),
                    Some(prog) => match parsed_pubkey(auth.wallet@) {
                        None => Err((ErrorKind::BadRequest, "invalid wallet pubkey"@)),
                        Some(owner) => match rpc_url_resolution(
                            config,
                            override_view(payload.rpc_url_override),
                            debug_build,
                        ) {
                            Err(e) => Err(e),
                            Ok(url) => Ok((tx, trimmed(payload.category_name@), prog, owner, url)),
                        },
                    },
                }
            },
        }
    }
}

/// Checks a category commit request before its transaction is fetched.
pub fn prepare_category_commit(
    config: &AppConfig,
    auth: &AuthUser,
    payload: &CommitCategoryRequest,
    debug_build: bool,
) -> (r: AppResult<CategoryCommitPlan>)
    ensures
        match category_commit_preparation(*config, *auth, *payload, debug_build) {
            Ok(p) => r matches Ok(plan) && plan.tx_hash@ == p.0 && plan.category_name@ == p.1
                && plan.program_id@ == p.2 && plan.owner@ == p.3 && plan.rpc_url@ == p.4,
            Err(e) => fails_with(r, e),
        },
{
    require_user_or_admin(auth)?;
    ensure_hybrid_onchain_enabled(config)?;
    ensure_pg_mode(config)?;
    let tx_hash = validate_signature_base58(payload.tx_hash.as_str())?;
    let category_name = trim(payload.category_name.as_str());
    if category_name.as_str().unicode_len() == 0 {
        return Err(AppError::bad_request("category_name is required"));
    }
    let program_id = parse_program_id(config.solana_program_id.as_str())?;
    let owner = parse_wallet_pubkey(auth.wallet.as_str())?;
    let rpc_url = resolve_rpc_url(config, opt_str(&payload.rpc_url_override), debug_build)?;
    Ok(CategoryCommitPlan { tx_hash, category_name, program_id, owner, rpc_url })
}

/// The checks of the fetched transaction against a category commit plan,
/// before any address is derived: the instruction, its decoded name, and
/// the name's agreement with the request.
pub open spec fn category_instruction_checking(
    plan: CategoryCommitPlan,
    wallet: Seq<char>,
    reply: RpcReply,
) -> Result<VerifiedView, ErrorView> {
    match transaction_verification(reply, pubkey_text(plan.program_id@), discriminator_of("create_category"@), wallet) {
        Err(e) => Err(e),
        Ok(v) => match category_name_decoding(v.3) {
            Err(e) => Err(e),
            Ok(name) => if name != plan.category_name@ {
                Err((ErrorKind::BadRequest, "category_name does not match onchain instruction"@))
            } else {
                Ok(v)
            },
        },
    }
}

/// Finds the `create_category` instruction of the fetched transaction and
/// checks that it names the requested category.
pub fn check_category_instruction(plan: &CategoryCommitPlan, auth_wallet: &str, reply: &RpcReply) -> (r: AppResult<
    VerifiedInstruction,
>)
    ensures
        match category_instruction_checking(*plan, auth_wallet@, *reply) {
            Ok(v) => r matches Ok(x) && x.slot == v.0 && texts(x.account_keys@) == v.1
                && x.account_indices@ == v.2 && x.data_raw@ == v.3 && x.signer_wallet@ == auth_wallet@,
            Err(e) => fails_with(r, e),
        },
{
    let verified = verify_instruction(reply, &plan.program_id, "create_category", auth_wallet)?;
    let decoded_name = decode_create_category_name(verified.data_raw.as_slice())?;
    if decoded_name != plan.category_name {
        return Err(AppError::bad_request("category_name does not match onchain instruction"));
    }
    Ok(verified)
}

/// The checks of the accounts of a verified `create_category` instruction:
/// the derived addresses must exist; then the caller's wallet, its user
/// profile and the category address, in order; on success, the category
/// address text.
pub open spec fn category_accounts_checking(
    plan: CategoryCommitPlan,
    wallet: Seq<char>,
    keys: Seq<Seq<char>>,
    ix: Seq<usize>,
) -> Result<Seq<char>, ErrorView> {
    match (
        user_profile_address(plan.owner@, plan.program_id@),
        category_address(plan.owner@, vstd::utf8::encode_utf8(plan.category_name@), plan.program_id@),
    ) {
        (Some(pa), Some(ca)) => {
            let profile = pubkey_text(pa);
            let category = pubkey_text(ca);
            if account_check(keys, ix, 0, wallet) is Err {
                Err(account_check(keys, ix, 0, wallet)->Err_0)
            } else if account_check(keys, ix, 1, profile) is Err {
                Err(account_check(keys, ix, 1, profile)->Err_0)
            } else if account_check(keys, ix, 2, category) is Err {
                Err(account_check(keys, ix, 2, category)->Err_0)
            } else {
                Ok(category)
            }
        },
        _ => Err(no_address_error()),
    }
}

/// Checks the accounts of the verified `create_category` instruction and
/// returns the category address text. The address derivation that this
/// makes panics for a name longer than 32 bytes, which `requires` leaves
/// out.
pub fn check_category_accounts(plan: &CategoryCommitPlan, auth_wallet: &str, verified: &VerifiedInstruction) -> (r: AppResult<String>)
    requires
        vstd::utf8::encode_utf8(plan.category_name@).len() <= 32,
    ensures
        match category_accounts_checking(*plan, auth_wallet@, texts(verified.account_keys@), verified.account_indices@) {
            Ok(t) => r matches Ok(s) && s@ == t,
            Err(e) => fails_with(r, e),
        },
{
    let profile_key = user_profile_pda(&plan.owner, &plan.program_id);
    let category_key = category_pda(&plan.owner, plan.category_name.as_str(), &plan.program_id);
    let (profile, category) = match (profile_key, category_key) {
        (Some(p), Some(c)) => (pubkey_to_text(&p), pubkey_to_text(&c)),
        _ => {
            return Err(AppError::internal("program address not found"));
        },
    };
    ensure_account_at(verified, 0, auth_wallet)?;
    ensure_account_at(verified, 1, profile.as_str())?;
    ensure_account_at(verified, 2, category.as_str())?;
    Ok(category)
}

// ---------------------------------------------------------------------------
// Expense creation commits
// ---------------------------------------------------------------------------

/// An expense creation commit request that passed the checks made before the
/// transaction is fetched.
#[derive(Debug, PartialEq, Eq)]
pub struct ExpenseCreatePlan {
    pub tx_hash: String,
    pub program_id: [u8; 32],
    pub owner: [u8; 32],
    pub category_pda: [u8; 32],
    pub rpc_url: String,
    pub expense_id_onchain: u64,
    pub amount_minor: i64,
    /// The amount as the on-chain `u64`.
    pub amount_onchain: u64,
    /// The trimmed currency.
    pub currency: String,
}

/// The checks of an expense creation commit request before the transaction
/// is fetched, in order, and the plan they yield: signature text, program
/// id, owner key, category key, endpoint and trimmed currency.
pub open spec fn expense_create_preparation(
    config: AppConfig,
    auth: AuthUser,
    payload: CommitExpenseCreateRequest,
    debug_build: bool,
) -> Result<(Seq<char>, Seq<u8>, Seq<u8>, Seq<u8>, Seq<char>, Seq<char>), ErrorView> {
    if !may_write(auth) {
        Err((ErrorKind::Forbidden, "insufficient role"@))
    } else if hybrid_config_check(config) is Err {
        Err(hybrid_config_check(config)->Err_0)
    } else {
        match tx_hash_check(payload.tx_hash@) {
            Err(e) => Err(e),
            Ok(tx) => match parsed_pubkey(config.solana_program_id@) {
                None => Err((ErrorKind::Internal, "invalid SOLANA_PROGRAM_ID"@)),
                Some(prog) => match parsed_pubkey(auth.wallet@) {
                    None => Err((ErrorKind::BadRequest, "invalid wallet pubkey"@)),
                    Some(owner) => match parsed_pubkey(payload.category_pda@) {
                        None => Err((ErrorKind::BadRequest, "invalid wallet pubkey"@)),
                        Some(cat) => match rpc_url_resolution(
                            config,
                            override_view(payload.rpc_url_override),
                            debug_build,
                        ) {
                            Err(e) => Err(e),
                            Ok(url) => if payload.amount_minor <= 0 {
                                Err((ErrorKind::BadRequest, "amount_minor must be > 0"@))
                            } else if trimmed(payload.currency@).len() == 0 {
                                Err((ErrorKind::BadRequest, "currency is required"@))
                            } else {
                                Ok((tx, prog, owner, cat, url, trimmed(payload.currency@)))
                            },
                        },
                    },
                },
            },
        }
    }
}

/// Checks an expense creation commit request before its transaction is
/// fetched.
pub fn prepare_expense_create_commit(
    config: &AppConfig,
    auth: &AuthUser,
    payload: &CommitExpenseCreateRequest,
    debug_build: bool,
) -> (r: AppResult<ExpenseCreatePlan>)
    ensures
        match expense_create_preparation(*config, *auth, *payload, debug_build) {
            Ok(p) => r matches Ok(plan) && plan.tx_hash@ == p.0 && plan.program_id@ == p.1
                && plan.owner@ == p.2 && plan.category_pda@ == p.3 && plan.rpc_url@ == p.4
                && plan.currency@ == p.5 && plan.expense_id_onchain == payload.expense_id_onchain
                && plan.amount_minor == payload.amount_minor && plan.amount_onchain as int == payload.amount_minor as int,
            Err(e) => fails_with(r, e),
        },
{
    require_user_or_admin(auth)?;
    ensure_hybrid_onchain_enabled(config)?;
    ensure_pg_mode(config)?;
    let tx_hash = validate_signature_base58(payload.tx_hash.as_str())?;
    let program_id = parse_program_id(config.solana_program_id.as_str())?;
    let owner = parse_wallet_pubkey(auth.wallet.as_str())?;
    let category_pda = parse_wallet_pubkey(payload.category_pda.as_str())?;
    let rpc_url = resolve_rpc_url(config, opt_str(&payload.rpc_url_override), debug_build)?;
    if payload.amount_minor <= 0 {
        return Err(AppError::bad_request("amount_minor must be > 0"));
    }
    let amount_onchain = payload.amount_minor as u64;
    let currency = trim(payload.currency.as_str());
    if currency.as_str().unicode_len() == 0 {
        return Err(AppError::bad_request("currency is required"));
    }
    Ok(ExpenseCreatePlan {
        tx_hash,
        program_id,
        owner,
        category_pda,
        rpc_url,
        expense_id_onchain: payload.expense_id_onchain,
        amount_minor: payload.amount_minor,
        amount_onchain,
        currency,
    })
}

/// The addresses an expense creation commit confirms, as key texts.
#[derive(Debug, PartialEq, Eq)]
pub struct ExpenseCreateCheck {
    pub verified: VerifiedInstruction,
    pub category_pda: String,
    pub expense_pda: String,
}

/// The checks of the fetched transaction against an expense creation plan,
/// in order: the instruction, its arguments, the derived addresses (which
/// must exist), and its accounts (the caller's wallet, its user profile, the
/// category and the expense address); on success, the verified instruction and the category and expense key
/// texts.
pub open spec fn expense_create_checking(plan: ExpenseCreatePlan, wallet: Seq<char>, reply: RpcReply) -> Result<
    (VerifiedView, Seq<char>, Seq<char>),
    ErrorView,
> {
    match transaction_verification(reply, pubkey_text(plan.program_id@), discriminator_of("create_expense"@), wallet) {
        Err(e) => Err(e),
        Ok(v) => match expense_args_decoding(v.3) {
            Err(e) => Err(e),
            Ok(args) => if args.0 != plan.expense_id_onchain as nat {
                Err((ErrorKind::BadRequest, "expense_id_onchain does not match instruction"@))
            } else if args.1 != plan.amount_onchain as nat {
                Err((ErrorKind::BadRequest, "amount_minor does not match instruction amount"@))
            } else {
                match (
                    user_profile_address(plan.owner@, plan.program_id@),
                    expense_address(plan.owner@, plan.expense_id_onchain, plan.program_id@),
                ) {
                    (Some(pa), Some(ea)) => {
                        let profile = pubkey_text(pa);
                        let category = pubkey_text(plan.category_pda@);
                        let expense = pubkey_text(ea);
                        if account_check(v.1, v.2, 0, wallet) is Err {
                            Err(account_check(v.1, v.2, 0, wallet)->Err_0)
                        } else if account_check(v.1, v.2, 1, profile) is Err {
                            Err(account_check(v.1, v.2, 1, profile)->Err_0)
                        } else if account_check(v.1, v.2, 2, category) is Err {
                            Err(account_check(v.1, v.2, 2, category)->Err_0)
                        } else if account_check(v.1, v.2, 3, expense) is Err {
                            Err(account_check(v.1, v.2, 3, expense)->Err_0)
                        } else {
                            Ok((v, category, expense))
                        }
                    },
                    _ => Err(no_address_error()),
                }
            },
        },
    }
}

/// Checks the fetched transaction of an expense creation commit.
pub fn check_expense_create(plan: &ExpenseCreatePlan, auth_wallet: &str, reply: &RpcReply) -> (r: AppResult<
    ExpenseCreateCheck,
>)
    ensures
        match expense_create_checking(*plan, auth_wallet@, *reply) {
            Ok(c) => r matches Ok(x) && x.verified.slot == c.0.0 && texts(x.verified.account_keys@) == c.0.1
                && x.verified.account_indices@ == c.0.2 && x.verified.data_raw@ == c.0.3
                && x.verified.signer_wallet@ == auth_wallet@ && x.category_pda@ == c.1 && x.expense_pda@ == c.2,
            Err(e) => fails_with(r, e),
        },
{
    let verified = verify_instruction(reply, &plan.program_id, "create_expense", auth_wallet)?;
    let (decoded_expense_id, decoded_amount) = decode_create_expense_args(verified.data_raw.as_slice())?;
    if decoded_expense_id != plan.expense_id_onchain {
        return Err(AppError::bad_request("expense_id_onchain does not match instruction"));
    }
    if decoded_amount != plan.amount_onchain {
        return Err(AppError::bad_request("amount_minor does not match instruction amount"));
    }
    let profile_key = user_profile_pda(&plan.owner, &plan.program_id);
    let expense_key = expense_pda(&plan.owner, plan.expense_id_onchain, &plan.program_id);
    let (profile, expense) = match (profile_key, expense_key) {
        (Some(p), Some(e)) => (pubkey_to_text(&p), pubkey_to_text(&e)),
        _ => {
            return Err(AppError::internal("program address not found"));
        },
    };
    let category = pubkey_to_text(&plan.category_pda);
    ensure_account_at(&verified, 0, auth_wallet)?;
    ensure_account_at(&verified, 1, profile.as_str())?;
    ensure_account_at(&verified, 2, category.as_str())?;
    ensure_account_at(&verified, 3, expense.as_str())?;
    Ok(ExpenseCreateCheck { verified, category_pda: category, expense_pda: expense })
}

// ---------------------------------------------------------------------------
// Expense status commits
// ---------------------------------------------------------------------------

/// A status commit request that passed the checks made before the
/// transaction is fetched.
#[derive(Debug, PartialEq, Eq)]
pub struct ExpenseStatusPlan {
    pub expense_id: u128,
    pub tx_hash: String,
    pub program_id: [u8; 32],
    pub rpc_url: String,
    pub to_status: ExpenseStatus,
}

/// The status a status commit request names, as `parse_status_text` reads it.
pub open spec fn requested_status(v: Seq<char>) -> Result<ExpenseStatus, ErrorView> {
    let t = trimmed(v);
    if crate::text::eq_ascii_fold(t, "pending"@) {
        Ok(ExpenseStatus::Pending)
    } else if crate::text::eq_ascii_fold(t, "approved"@) {
        Ok(ExpenseStatus::Approved)
    } else if crate::text::eq_ascii_fold(t, "rejected"@) {
        Ok(ExpenseStatus::Rejected)
    } else {
        Err((ErrorKind::BadRequest, "to_status must be one of: pending, approved, rejected"@))
    }
}

/// The checks of a status commit request before the transaction is fetched,
/// in order, and the plan they yield: expense id, signature text, program
/// id, endpoint and target status.
pub open spec fn expense_status_preparation(
    config: AppConfig,
    auth: AuthUser,
    expense_id: Seq<char>,
    payload: CommitExpenseStatusRequest,
    debug_build: bool,
) -> Result<(u128, Seq<char>, Seq<u8>, Seq<char>, ExpenseStatus), ErrorView> {
    if auth.role != Role::Admin {
        Err((ErrorKind::Forbidden, "insufficient role"@))
    } else if hybrid_config_check(config) is Err {
        Err(hybrid_config_check(config)->Err_0)
    } else {
        match uuid_parsed(expense_id) {
            None => Err((ErrorKind::BadRequest, "invalid expense_id"@)),
            Some(id) => match tx_hash_check(payload.tx_hash@) {
                Err(e) => Err(e),
                Ok(tx) => match parsed_pubkey(config.solana_program_id@) {
                    None => Err((ErrorKind::Internal, "invalid SOLANA_PROGRAM_ID"@)),
                    Some(prog) => match rpc_url_resolution(
                        config,
                        override_view(payload.rpc_url_override),
                        debug_build,
                    ) {
                        Err(e) => Err(e),
                        Ok(url) => match requested_status(payload.to_status@) {
                            Err(e) => Err(e),
                            Ok(st) => if st == ExpenseStatus::Pending {
                                Err((ErrorKind::BadRequest, "to_status must be approved or rejected"@))
                            } else {
                                Ok((id, tx, prog, url, st))
                            },
                        },
                    },
                },
            },
        }
    }
}

/// Checks a status commit request before its transaction is fetched.
pub fn prepare_expense_status_commit(
    config: &AppConfig,
    auth: &AuthUser,
    expense_id: &str,
    payload: &CommitExpenseStatusRequest,
    debug_build: bool,
) -> (r: AppResult<ExpenseStatusPlan>)
    ensures
        match expense_status_preparation(*config, *auth, expense_id@, *payload, debug_build) {
            Ok(p) => r matches Ok(plan) && plan.expense_id == p.0 && plan.tx_hash@ == p.1
                && plan.program_id@ == p.2 && plan.rpc_url@ == p.3 && plan.to_status == p.4,
            Err(e) => fails_with(r, e),
        },
{
    require_admin(auth)?;
    ensure_hybrid_onchain_enabled(config)?;
    ensure_pg_mode(config)?;
    let expense_id = match parse_uuid(expense_id) {
        Some(u) => u,
        None => {
            return Err(AppError::bad_request("invalid expense_id"));
        },
    };
    let tx_hash = validate_signature_base58(payload.tx_hash.as_str())?;
    let program_id = parse_program_id(config.solana_program_id.as_str())?;
    let rpc_url = resolve_rpc_url(config, opt_str(&payload.rpc_url_override), debug_build)?;
    let to_status = parse_status_text(payload.to_status.as_str())?;
    if to_status == ExpenseStatus::Pending {
        return Err(AppError::bad_request("to_status must be approved or rejected"));
    }
    Ok(ExpenseStatusPlan { expense_id, tx_hash, program_id, rpc_url, to_status })
}

/// The checks of the fetched transaction against a status commit plan, in
/// order: the instruction, the program configuration address (which must
/// exist) and the status argument; on success, the
/// verified instruction and the key text of the program configuration
/// account.
pub open spec fn expense_status_checking(plan: ExpenseStatusPlan, wallet: Seq<char>, reply: RpcReply) -> Result<
    (VerifiedView, Seq<char>),
    ErrorView,
> {
    match transaction_verification(
        reply,
        pubkey_text(plan.program_id@),
        discriminator_of("update_expense_status"@),
        wallet,
    ) {
        Err(e) => Err(e),
        Ok(v) => match program_config_address(plan.program_id@) {
            None => Err(no_address_error()),
            Some(ca) => match status_arg_decoding(v.3) {
                Err(e) => Err(e),
                Ok(st) => if st != plan.to_status {
                    Err((ErrorKind::BadRequest, "to_status does not match onchain instruction"@))
                } else {
                    Ok((v, pubkey_text(ca)))
                },
            },
        },
    }
}

/// A status commit whose transaction passed the checks.
#[derive(Debug, PartialEq, Eq)]
pub struct ExpenseStatusCheck {
    pub verified: VerifiedInstruction,
    pub program_config_pda: String,
}

/// Checks the fetched transaction of a status commit.
pub fn check_expense_status(plan: &ExpenseStatusPlan, auth_wallet: &str, reply: &RpcReply) -> (r: AppResult<
    ExpenseStatusCheck,
>)
    ensures
        match expense_status_checking(*plan, auth_wallet@, *reply) {
            Ok(c) => r matches Ok(x) && x.verified.slot == c.0.0 && texts(x.verified.account_keys@) == c.0.1
                && x.verified.account_indices@ == c.0.2 && x.verified.data_raw@ == c.0.3
                && x.verified.signer_wallet@ == auth_wallet@ && x.program_config_pda@ == c.1,
            Err(e) => fails_with(r, e),
        },
{
    let verified = verify_instruction(reply, &plan.program_id, "update_expense_status", auth_wallet)?;
    let program_config_pda = match derive_program_config_pda(&plan.program_id) {
        Some(a) => pubkey_to_text(&a),
        None => {
            return Err(AppError::internal("program address not found"));
        },
    };
    let onchain_status = decode_update_status_arg(verified.data_raw.as_slice())?;
    if onchain_status != plan.to_status {
        return Err(AppError::bad_request("to_status does not match onchain instruction"));
    }
    Ok(ExpenseStatusCheck { verified, program_config_pda })
}

/// The checks made once the stored expense is loaded, in order: its status
/// must still be pending, and the instruction's accounts must be the
/// caller's wallet, the program configuration and, when the expense has a
/// recorded address, that address.
pub open spec fn status_accounts_checking(
    check: ExpenseStatusCheck,
    wallet: Seq<char>,
    from_status: ExpenseStatus,
    expense_pda: Option<Seq<char>>,
) -> Result<(), ErrorView> {
    let keys = texts(check.verified.account_keys@);
    let ix = check.verified.account_indices@;
    if from_status != ExpenseStatus::Pending {
        Err((ErrorKind::BadRequest, "expense status is final"@))
    } else if account_check(keys, ix, 0, wallet) is Err {
        Err(account_check(keys, ix, 0, wallet)->Err_0)
    } else if account_check(keys, ix, 1, check.program_config_pda@) is Err {
        Err(account_check(keys, ix, 1, check.program_config_pda@)->Err_0)
    } else {
        match expense_pda {
            Some(p) => account_check(keys, ix, 2, p),
            None => Ok(()),
        }
    }
}

/// Checks a status commit against the stored expense.
pub fn check_status_accounts(
    check: &ExpenseStatusCheck,
    auth_wallet: &str,
    from_status: ExpenseStatus,
    expense_pda: Option<&str>,
) -> (r: AppResult<()>)
    ensures
        match status_accounts_checking(
            *check,
            auth_wallet@,
            from_status,
            match expense_pda {
                Some(p) => Some(p@),
                None => None,
            },
        ) {
            Ok(_) => r is Ok,
            Err(e) => fails_with(r, e),
        },
{
    if from_status != ExpenseStatus::Pending {
        return Err(AppError::bad_request("expense status is final"));
    }
    ensure_account_at(&check.verified, 0, auth_wallet)?;
    ensure_account_at(&check.verified, 1, check.program_config_pda.as_str())?;
    if let Some(pda) = expense_pda {
        ensure_account_at(&check.verified, 2, pda)?;
    }
    Ok(())
}

// ---------------------------------------------------------------------------
// Laws: the accounts a commit expects follow the program's account layout
// ---------------------------------------------------------------------------

/// The instruction whose account indices `ix` point into the account keys
/// `keys` lists the accounts `accounts`, in that order, first.
pub open spec fn lists_accounts(keys: Seq<Seq<char>>, ix: Seq<usize>, accounts: Seq<Seq<char>>) -> bool {
    &&& accounts.len() <= ix.len()
    &&& forall|i: int| 0 <= i < accounts.len() ==> (#[trigger] ix[i]) < keys.len() && keys[ix[i] as int] == accounts[i]
}

proof fn lemma_lists_accounts(keys: Seq<Seq<char>>, ix: Seq<usize>, accounts: Seq<Seq<char>>)
    ensures
        lists_accounts(keys, ix, accounts) <==> forall|i: int|
            0 <= i < accounts.len() ==> #[trigger] account_check(keys, ix, i, accounts[i]) is Ok,
{
    if forall|i: int| 0 <= i < accounts.len() ==> #[trigger] account_check(keys, ix, i, accounts[i]) is Ok {
        if accounts.len() > 0 {
            assert(account_check(keys, ix, accounts.len() - 1, accounts[accounts.len() - 1]) is Ok);
        }
        assert forall|i: int| 0 <= i < accounts.len() implies (#[trigger] ix[i]) < keys.len() && keys[ix[i] as int]
            == accounts[i] by {
            assert(account_check(keys, ix, i, accounts[i]) is Ok);
        }
    }
    if lists_accounts(keys, ix, accounts) {
        assert forall|i: int| 0 <= i < accounts.len() implies #[trigger] account_check(keys, ix, i, accounts[i]) is Ok by {
            assert(ix[i] < keys.len());
        }
    }
}

/// A `create_category` commit's accounts follow the program's
/// `CreateCategory` layout: once the instruction is verified, its account
/// check passes exactly when the instruction lists the caller's wallet, the
/// caller's user profile and the category address, in that order; and it
/// then answers the category address.
pub proof fn law_category_accounts_follow_layout(
    plan: CategoryCommitPlan,
    wallet: Seq<char>,
    keys: Seq<Seq<char>>,
    ix: Seq<usize>,
    profile: Seq<u8>,
    category: Seq<u8>,
)
    requires
        user_profile_address(plan.owner@, plan.program_id@) == Some(profile),
        category_address(plan.owner@, vstd::utf8::encode_utf8(plan.category_name@), plan.program_id@) == Some(category),
    ensures
        category_accounts_checking(plan, wallet, keys, ix) is Ok <==> lists_accounts(
            keys,
            ix,
            seq![wallet, pubkey_text(profile), pubkey_text(category)],
        ),
        category_accounts_checking(plan, wallet, keys, ix) is Ok ==> category_accounts_checking(plan, wallet, keys, ix)
            == Ok::<Seq<char>, ErrorView>(pubkey_text(category)),
{
    let accounts = seq![wallet, pubkey_text(profile), pubkey_text(category)];
    lemma_lists_accounts(keys, ix, accounts);
    assert(accounts[0] == wallet && accounts[1] == pubkey_text(profile) && accounts[2] == pubkey_text(category));
}

/// A `create_expense` commit's accounts follow the program's
/// `CreateExpense` layout: once the instruction is verified and its
/// arguments match the request, the check passes exactly when the
/// instruction lists the caller's wallet, the caller's user profile, the
/// requested category and the expense address for the on-chain id, in that
/// order; and it then answers the instruction with the category and expense
/// addresses.
pub proof fn law_expense_create_accounts_follow_layout(
    plan: ExpenseCreatePlan,
    wallet: Seq<char>,
    reply: RpcReply,
    v: VerifiedView,
    profile: Seq<u8>,
    expense: Seq<u8>,
)
    requires
        transaction_verification(reply, pubkey_text(plan.program_id@), discriminator_of("create_expense"@), wallet)
            == Ok::<VerifiedView, ErrorView>(v),
        expense_args_decoding(v.3) == Ok::<(nat, nat), ErrorView>(
            (plan.expense_id_onchain as nat, plan.amount_onchain as nat),
        ),
        user_profile_address(plan.owner@, plan.program_id@) == Some(profile),
        expense_address(plan.owner@, plan.expense_id_onchain, plan.program_id@) == Some(expense),
    ensures
        expense_create_checking(plan, wallet, reply) is Ok <==> lists_accounts(
            v.1,
            v.2,
            seq![wallet, pubkey_text(profile), pubkey_text(plan.category_pda@), pubkey_text(expense)],
        ),
        expense_create_checking(plan, wallet, reply) is Ok ==> expense_create_checking(plan, wallet, reply) == Ok::<
            (VerifiedView, Seq<char>, Seq<char>),
            ErrorView,
        >((v, pubkey_text(plan.category_pda@), pubkey_text(expense))),
{
    let accounts = seq![wallet, pubkey_text(profile), pubkey_text(plan.category_pda@), pubkey_text(expense)];
    lemma_lists_accounts(v.1, v.2, accounts);
    assert(accounts[0] == wallet && accounts[1] == pubkey_text(profile) && accounts[2] == pubkey_text(
        plan.category_pda@,
    ) && accounts[3] == pubkey_text(expense));
}

/// A status commit's accounts follow the program's `UpdateExpenseStatus`
/// layout: a decided expense is refused as final; for a pending one the
/// check passes exactly when the instruction lists the caller's wallet, the
/// program configuration and (when the expense has a recorded address)
/// that address, in that order.
pub proof fn law_status_accounts_follow_layout(
    check: ExpenseStatusCheck,
    wallet: Seq<char>,
    from_status: ExpenseStatus,
    expense_pda: Option<Seq<char>>,
)
    ensures
        from_status != ExpenseStatus::Pending ==> status_accounts_checking(check, wallet, from_status, expense_pda)
            == Err::<(), ErrorView>((ErrorKind::BadRequest, "expense status is final"@)),
        from_status == ExpenseStatus::Pending ==> (status_accounts_checking(check, wallet, from_status, expense_pda) is Ok
            <==> lists_accounts(
            texts(check.verified.account_keys@),
            check.verified.account_indices@,
            match expense_pda {
                Some(p) => seq![wallet, check.program_config_pda@, p],
                None => seq![wallet, check.program_config_pda@],
            },
        )),
{
    let keys = texts(check.verified.account_keys@);
    let ix = check.verified.account_indices@;
    let accounts = match expense_pda {
        Some(p) => seq![wallet, check.program_config_pda@, p],
        None => seq![wallet, check.program_config_pda@],
    };
    lemma_lists_accounts(keys, ix, accounts);
    assert(accounts[0] == wallet && accounts[1] == check.program_config_pda@);
    if let Some(p) = expense_pda {
        assert(accounts[2] == p);
    }
}

} // verus!
