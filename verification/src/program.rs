//! The on-chain expense program: its accounts, the checks each instruction
//! makes on the accounts handed to it, and what it writes. Keys are the 32
//! bytes of a public key; an instruction's context carries the signer and
//! the data of the accounts it reads.
use vstd::prelude::*;
use crate::model::ExpenseStatus;
use crate::text::{trim, trimmed};

verus! {

/// The longest category name, in UTF-8 bytes.
pub const MAX_CATEGORY_NAME: usize = 64;

/// The profile of a wallet.
#[derive(Debug, PartialEq, Eq)]
pub struct UserProfile {
    pub owner: [u8; 32],
    pub bump: u8,
}

/// A category account.
#[derive(Debug, PartialEq, Eq)]
pub struct Category {
    pub owner: [u8; 32],
    pub name: String,
    pub bump: u8,
}

/// An expense account.
#[derive(Debug, PartialEq, Eq)]
pub struct Expense {
    pub owner: [u8; 32],
    pub expense_id: u64,
    /// The address of the category account.
    pub category: [u8; 32],
    pub amount: u64,
    pub note_hash: [u8; 32],
    pub status: ExpenseStatus,
    pub bump: u8,
}

/// Why the program refuses an instruction.
#[derive(Clone, Copy, Debug, PartialEq, Eq, Structural)]
pub enum ExpenseError {
    InvalidAmount,
    Unauthorized,
    InvalidCategoryName,
    InvalidStatusTransition,
}

impl ExpenseError {
    /// The message the program reports for the error.
    pub fn message(&self) -> (r: &'static str)
        ensures
            r@ == error_message(*self),
    {
        match self {
            ExpenseError::InvalidAmount => "Invalid amount",
            ExpenseError::Unauthorized => "Unauthorized operation",
            ExpenseError::InvalidCategoryName => "Invalid category name",
            ExpenseError::InvalidStatusTransition => "Invalid status transition",
        }
    }
}

/// The message of each error.
pub open spec fn error_message(e: ExpenseError) -> Seq<char> {
    match e {
        ExpenseError::InvalidAmount => "Invalid amount"@,
        ExpenseError::Unauthorized => "Unauthorized operation"@,
        ExpenseError::InvalidCategoryName => "Invalid category name"@,
        ExpenseError::InvalidStatusTransition => "Invalid status transition"@,
    }
}

/// The accounts of `init_user_profile`: the signing wallet, and the bump of
/// the profile address derived for it.
#[derive(Debug, PartialEq, Eq)]
pub struct InitUserProfile {
    pub owner: [u8; 32],
    pub user_profile_bump: u8,
}

/// The accounts of `create_category`: the signing wallet, its profile, and
/// the bump of the category address derived for it and the name.
#[derive(Debug, PartialEq, Eq)]
pub struct CreateCategory {
    pub owner: [u8; 32],
    pub user_profile: UserProfile,
    pub category_bump: u8,
}

/// The accounts of `create_expense`: the signing wallet, its profile, the
/// category account (address and data), and the bump of the expense
/// address derived for the wallet and the expense id.
#[derive(Debug, PartialEq, Eq)]
pub struct CreateExpense {
    pub owner: [u8; 32],
    pub user_profile: UserProfile,
    pub category_key: [u8; 32],
    pub category: Category,
    pub expense_bump: u8,
}

/// The program configuration account: the admin authority, which may
/// decide any expense.
#[derive(Debug, PartialEq, Eq)]
pub struct ProgramConfig {
    pub admin_authority: [u8; 32],
    pub bump: u8,
}

/// The accounts of `init_program_config`: the signing wallet, which becomes
/// the admin authority, and the bump of the configuration address.
#[derive(Debug, PartialEq, Eq)]
pub struct InitProgramConfig {
    pub admin: [u8; 32],
    pub program_config_bump: u8,
}

/// The accounts of `update_expense_status`: the signing wallet, the program
/// configuration and the expense account.
#[derive(Debug, PartialEq, Eq)]
pub struct UpdateExpenseStatus {
    pub owner: [u8; 32],
    pub program_config: ProgramConfig,
    pub expense: Expense,
}

fn same_key(a: &[u8; 32], b: &[u8; 32]) -> (r: bool)
    ensures
        r == (a@ == b@),
{
    let mut i: usize = 0;
    while i < 32
        invariant
            i <= 32,
            a@.len() == 32,
            b@.len() == 32,
            forall|j: int| 0 <= j < i ==> a@[j] == b@[j],
        decreases 32 - i,
    {
        if a[i] != b[i] {
            return false;
        }
        i = i + 1;
    }
    proof {
        assert(a@ =~= b@);
    }
    true
}

/// Creates the program configuration with the signing wallet as the admin
/// authority.
pub fn init_program_config(ctx: &InitProgramConfig) -> (r: Result<ProgramConfig, ExpenseError>)
    ensures
        r matches Ok(c) && c.admin_authority == ctx.admin && c.bump == ctx.program_config_bump,
{
    Ok(ProgramConfig { admin_authority: ctx.admin, bump: ctx.program_config_bump })
}

/// Creates the profile of the signing wallet.
pub fn init_user_profile(ctx: &InitUserProfile) -> (r: Result<UserProfile, ExpenseError>)
    ensures
        r matches Ok(p) && p.owner == ctx.owner && p.bump == ctx.user_profile_bump,
{
    Ok(UserProfile { owner: ctx.owner, bump: ctx.user_profile_bump })
}

/// Why `create_category` refuses, if it does: the profile must be the
/// signer's, and the name must hold something besides white space and be at
/// most 64 bytes long.
pub open spec fn category_rejection(ctx: CreateCategory, name: Seq<char>) -> Option<ExpenseError> {
    if ctx.user_profile.owner@ != ctx.owner@ {
        Some(ExpenseError::Unauthorized)
    } else if trimmed(name).len() == 0 {
        Some(ExpenseError::InvalidCategoryName)
    } else if vstd::utf8::encode_utf8(name).len() > MAX_CATEGORY_NAME {
        Some(ExpenseError::InvalidCategoryName)
    } else {
        None
    }
}

/// Creates a category of the signing wallet.
pub fn create_category(ctx: &CreateCategory, name: String) -> (r: Result<Category, ExpenseError>)
    ensures
        match category_rejection(*ctx, name@) {
            Some(e) => r == Err::<Category, ExpenseError>(e),
            None => r matches Ok(c) && c.owner == ctx.owner && c.name == name && c.bump == ctx.category_bump,
        },
{
    if !same_key(&ctx.user_profile.owner, &ctx.owner) {
        return Err(ExpenseError::Unauthorized);
    }
    if trim(name.as_str()).as_str().unicode_len() == 0 {
        return Err(ExpenseError::InvalidCategoryName);
    }
    if name.as_str().as_bytes().len() > MAX_CATEGORY_NAME {
        return Err(ExpenseError::InvalidCategoryName);
    }
    Ok(Category { owner: ctx.owner, name, bump: ctx.category_bump })
}

/// Why `create_expense` refuses, if it does: the profile and the category
/// must be the signer's, and the amount positive.
pub open spec fn expense_rejection(ctx: CreateExpense, amount: u64) -> Option<ExpenseError> {
    if ctx.user_profile.owner@ != ctx.owner@ || ctx.category.owner@ != ctx.owner@ {
        Some(ExpenseError::Unauthorized)
    } else if amount == 0 {
        Some(ExpenseError::InvalidAmount)
    } else {
        None
    }
}

/// Records a pending expense of the signing wallet in its category.
pub fn create_expense(ctx: &CreateExpense, expense_id: u64, amount: u64, note_hash: [u8; 32]) -> (r: Result<
    Expense,
    ExpenseError,
>)
    ensures
        match expense_rejection(*ctx, amount) {
            Some(e) => r == Err::<Expense, ExpenseError>(e),
            None => r matches Ok(x) && x == (Expense {
                owner: ctx.owner,
                expense_id,
                category: ctx.category_key,
                amount,
                note_hash,
                status: ExpenseStatus::Pending,
                bump: ctx.expense_bump,
            }),
        },
{
    if !same_key(&ctx.user_profile.owner, &ctx.owner) {
        return Err(ExpenseError::Unauthorized);
    }
    if !same_key(&ctx.category.owner, &ctx.owner) {
        return Err(ExpenseError::Unauthorized);
    }
    if amount == 0 {
        return Err(ExpenseError::InvalidAmount);
    }
    Ok(Expense {
        owner: ctx.owner,
        expense_id,
        category: ctx.category_key,
        amount,
        note_hash,
        status: ExpenseStatus::Pending,
        bump: ctx.expense_bump,
    })
}

/// Why `update_expense_status` refuses, if it does: the signer must own the
/// expense or be the admin authority, and the expense must still be
/// pending.
pub open spec fn transition_rejection(ctx: UpdateExpenseStatus) -> Option<ExpenseError> {
    if ctx.expense.owner@ != ctx.owner@ && ctx.program_config.admin_authority@ != ctx.owner@ {
        Some(ExpenseError::Unauthorized)
    } else if ctx.expense.status != ExpenseStatus::Pending {
        Some(ExpenseError::InvalidStatusTransition)
    } else {
        None
    }
}

/// What `update_expense_status` with `status` answers on the accounts
/// `ctx`, and the accounts `after` it.
pub open spec fn transition_step(ctx: UpdateExpenseStatus, status: ExpenseStatus, after: UpdateExpenseStatus, r: Result<(), ExpenseError>) -> bool {
    match transition_rejection(ctx) {
        Some(e) => r == Err::<(), ExpenseError>(e) && after == ctx,
        None => r is Ok && after.owner == ctx.owner && after.program_config == ctx.program_config
            && after.expense == (Expense { status, ..ctx.expense }),
    }
}

/// Sets the status of a pending expense, signed by its owner or by the
/// admin authority.
pub fn update_expense_status(ctx: &mut UpdateExpenseStatus, status: ExpenseStatus) -> (r: Result<(), ExpenseError>)
    ensures
        transition_step(*old(ctx), status, *final(ctx), r),
{
    if !same_key(&ctx.expense.owner, &ctx.owner) && !same_key(&ctx.program_config.admin_authority, &ctx.owner) {
        return Err(ExpenseError::Unauthorized);
    }
    if ctx.expense.status != ExpenseStatus::Pending {
        return Err(ExpenseError::InvalidStatusTransition);
    }
    ctx.expense.status = status;
    Ok(())
}

/// Once an expense is approved or rejected on chain, no instruction changes
/// its status again: every later status update is refused, and leaves the
/// account as it was.
pub proof fn law_onchain_status_is_final(ctx: UpdateExpenseStatus, status: ExpenseStatus, after: UpdateExpenseStatus, r: Result<(), ExpenseError>)
    requires
        ctx.expense.status != ExpenseStatus::Pending,
        transition_step(ctx, status, after, r),
    ensures
        r is Err,
        after.expense.status == ctx.expense.status,
{
}

/// Who may decide an expense on chain: a status update succeeds exactly
/// when the signer is the expense's owner or the program's admin authority
/// and the expense is still pending; then only the status changes, to the
/// one given.
pub proof fn law_onchain_decision_by_owner_or_admin(
    ctx: UpdateExpenseStatus,
    status: ExpenseStatus,
    after: UpdateExpenseStatus,
    r: Result<(), ExpenseError>,
)
    requires
        transition_step(ctx, status, after, r),
    ensures
        r is Ok <==> ((ctx.owner@ == ctx.expense.owner@ || ctx.owner@ == ctx.program_config.admin_authority@)
            && ctx.expense.status == ExpenseStatus::Pending),
        r is Ok ==> after.expense.status == status && after.expense.owner == ctx.expense.owner
            && after.expense.amount == ctx.expense.amount && after.expense.category == ctx.expense.category,
        !(ctx.owner@ == ctx.expense.owner@ || ctx.owner@ == ctx.program_config.admin_authority@) ==> r
            == Err::<(), ExpenseError>(ExpenseError::Unauthorized),
{
}

/// What the program accepts as a category: a signer with their own
/// profile, and a name that holds something besides white space and takes
/// at most 64 bytes of UTF-8.
pub proof fn law_onchain_category_names(ctx: CreateCategory, name: Seq<char>)
    ensures
        category_rejection(ctx, name) is None <==> (ctx.user_profile.owner@ == ctx.owner@ && trimmed(name).len() > 0
            && vstd::utf8::encode_utf8(name).len() <= 64),
{
}

} // verus!
