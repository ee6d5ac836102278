//! The library's data: roles, statuses, errors, stored records and the
//! request and response shapes of the API.
use vstd::prelude::*;

verus! {

/// Role of an authenticated account.
#[derive(Clone, Copy, Debug, PartialEq, Eq, Structural)]
pub enum Role {
    User,
    Admin,
    Auditor,
}

/// Lifecycle state of an expense: `Pending` until it is approved or rejected.
#[derive(Clone, Copy, Debug, PartialEq, Eq, Structural)]
pub enum ExpenseStatus {
    Pending,
    Approved,
    Rejected,
}

/// Kind of a signed token.
#[derive(Clone, Copy, Debug, PartialEq, Eq, Structural)]
pub enum TokenType {
    Access,
    Refresh,
}

/// The class of an API error; it fixes the HTTP status and the `code` field.
#[derive(Clone, Copy, Debug, PartialEq, Eq, Structural)]
pub enum ErrorKind {
    BadRequest,
    Unauthorized,
    Forbidden,
    NotFound,
    Internal,
}

/// An API error: its class and a human-readable message.
#[derive(Debug, PartialEq, Eq)]
pub struct AppError {
    pub kind: ErrorKind,
    pub message: String,
}

/// Result type of the API operations.
pub type AppResult<T> = Result<T, AppError>;

/// Whether `r` is the error of kind `kind` with message `msg`.
pub open spec fn is_err<T>(r: AppResult<T>, kind: ErrorKind, msg: Seq<char>) -> bool {
    r matches Err(e) && e.kind == kind && e.message@ == msg
}

/// An error as a value of specifications: its kind and its message.
pub type ErrorView = (ErrorKind, Seq<char>);

/// Whether `r` is the error `e`.
pub open spec fn fails_with<T>(r: AppResult<T>, e: ErrorView) -> bool {
    is_err(r, e.0, e.1)
}

impl AppError {
    pub fn new(kind: ErrorKind, message: &str) -> (e: AppError)
        ensures
            e.kind == kind,
            e.message@ == message@,
    {
        AppError { kind, message: message.to_owned() }
    }

    pub fn bad_request(message: &str) -> (e: AppError)
        ensures
            e.kind == ErrorKind::BadRequest,
            e.message@ == message@,
    {
        AppError::new(ErrorKind::BadRequest, message)
    }

    pub fn unauthorized(message: &str) -> (e: AppError)
        ensures
            e.kind == ErrorKind::Unauthorized,
            e.message@ == message@,
    {
        AppError::new(ErrorKind::Unauthorized, message)
    }

    pub fn forbidden(message: &str) -> (e: AppError)
        ensures
            e.kind == ErrorKind::Forbidden,
            e.message@ == message@,
    {
        AppError::new(ErrorKind::Forbidden, message)
    }

    pub fn not_found(message: &str) -> (e: AppError)
        ensures
            e.kind == ErrorKind::NotFound,
            e.message@ == message@,
    {
        AppError::new(ErrorKind::NotFound, message)
    }

    pub fn internal(message: &str) -> (e: AppError)
        ensures
            e.kind == ErrorKind::Internal,
            e.message@ == message@,
    {
        AppError::new(ErrorKind::Internal, message)
    }

    /// The HTTP status code of the error.
    pub fn status_code(&self) -> (code: u16)
        ensures
            code == match self.kind {
                ErrorKind::BadRequest => 400u16,
                ErrorKind::Unauthorized => 401u16,
                ErrorKind::Forbidden => 403u16,
                ErrorKind::NotFound => 404u16,
                ErrorKind::Internal => 500u16,
            },
    {
        match self.kind {
            ErrorKind::BadRequest => 400,
            ErrorKind::Unauthorized => 401,
            ErrorKind::Forbidden => 403,
            ErrorKind::NotFound => 404,
            ErrorKind::Internal => 500,
        }
    }
}


/// The claims a signed token carries.
#[derive(Debug, PartialEq, Eq)]
pub struct Claims {
    /// The user id, as UUID text.
    pub sub: String,
    pub wallet: String,
    /// The role, as `user`, `admin` or `auditor`.
    pub role: String,
    /// The token's own id.
    pub jti: String,
    /// The id of the session family the token belongs to.
    pub fid: String,
    pub typ: TokenType,
    /// Expiry, in seconds since the Unix epoch.
    pub exp: usize,
    /// Issue time, in seconds since the Unix epoch.
    pub iat: usize,
}

impl Clone for Claims {
    fn clone(&self) -> (r: Self)
        ensures
            r == *self,
    {
        Claims {
            sub: self.sub.clone(),
            wallet: self.wallet.clone(),
            role: self.role.clone(),
            jti: self.jti.clone(),
            fid: self.fid.clone(),
            typ: self.typ,
            exp: self.exp,
            iat: self.iat,
        }
    }
}

/// The caller of a request, as its access token identifies it.
#[derive(Debug, PartialEq, Eq)]
pub struct AuthUser {
    pub user_id: u128,
    pub wallet: String,
    pub role: Role,
    pub claims: Claims,
}

impl Clone for AuthUser {
    fn clone(&self) -> (r: Self)
        ensures
            r == *self,
    {
        AuthUser {
            user_id: self.user_id,
            wallet: self.wallet.clone(),
            role: self.role,
            claims: self.claims.clone(),
        }
    }
}

/// Settings of the service.
#[derive(Clone, Debug, PartialEq, Eq)]
pub struct AppConfig {
    pub host: String,
    pub port: u16,
    pub database_url: Option<String>,
    pub expenses_pg_enabled: bool,
    pub auth_pg_enabled: bool,
    pub hybrid_onchain_enabled: bool,
    pub solana_rpc_url: String,
    pub solana_program_id: String,
    pub solana_commitment: String,
    pub jwt_secret: String,
    pub jwt_expires_in_seconds: i64,
    pub refresh_expires_in_seconds: i64,
    pub challenge_ttl_seconds: i64,
    pub cleanup_interval_seconds: i64,
    pub used_challenge_retention_seconds: i64,
    pub used_refresh_retention_seconds: i64,
    pub revoked_access_retention_seconds: i64,
    pub revoked_family_retention_seconds: i64,
}

/// Request to record a category whose creation was committed on chain.
#[derive(Debug, PartialEq, Eq)]
pub struct CommitCategoryRequest {
    pub tx_hash: String,
    pub category_name: String,
    pub client_ref_id: Option<String>,
    pub rpc_url_override: Option<String>,
}

/// Request to record an expense whose creation was committed on chain.
#[derive(Debug, PartialEq, Eq)]
pub struct CommitExpenseCreateRequest {
    pub tx_hash: String,
    pub expense_id_onchain: u64,
    pub category_pda: String,
    pub amount_minor: i64,
    pub currency: String,
    pub occurred_at: Option<String>,
    pub client_ref_id: Option<String>,
    pub rpc_url_override: Option<String>,
}

/// Request to record a status decision committed on chain.
#[derive(Debug, PartialEq, Eq)]
pub struct CommitExpenseStatusRequest {
    pub tx_hash: String,
    pub to_status: String,
    pub reason: Option<String>,
    pub client_ref_id: Option<String>,
    pub rpc_url_override: Option<String>,
}

/// An expense as the API returns it.
#[derive(Debug, PartialEq, Eq)]
pub struct ExpenseResponse {
    pub id: String,
    pub owner_user_id: String,
    pub category_id: String,
    pub amount_minor: i64,
    pub currency: String,
    pub status: ExpenseStatus,
    pub tx_hash: Option<String>,
    pub occurred_at: String,
    pub created_at: String,
}

impl Clone for ExpenseResponse {
    fn clone(&self) -> (r: Self)
        ensures
            r == *self,
    {
        ExpenseResponse {
            id: self.id.clone(),
            owner_user_id: self.owner_user_id.clone(),
            category_id: self.category_id.clone(),
            amount_minor: self.amount_minor,
            currency: self.currency.clone(),
            status: self.status,
            tx_hash: match &self.tx_hash {
                Some(t) => Some(t.clone()),
                None => None,
            },
            occurred_at: self.occurred_at.clone(),
            created_at: self.created_at.clone(),
        }
    }
}

/// Request for a login challenge.
#[derive(Debug, PartialEq, Eq)]
pub struct ChallengeRequest {
    pub wallet_address: String,
}

/// A login challenge for a wallet to sign.
#[derive(Debug, PartialEq, Eq)]
pub struct ChallengeResponse {
    pub challenge_id: String,
    pub wallet_address: String,
    pub message: String,
    pub nonce: String,
    pub expires_at: String,
}

/// A signed challenge.
#[derive(Debug, PartialEq, Eq)]
pub struct VerifyRequest {
    pub challenge_id: String,
    pub wallet_address: String,
    pub signature: String,
}

/// Request to exchange a refresh token.
#[derive(Debug, PartialEq, Eq)]
pub struct RefreshRequest {
    pub refresh_token: String,
}

/// Request to end the session a refresh token belongs to.
#[derive(Debug, PartialEq, Eq)]
pub struct LogoutRequest {
    pub refresh_token: String,
}

/// Request to revoke a session family, or every family of a user.
#[derive(Debug, PartialEq, Eq)]
pub struct RevokeRequest {
    pub family_id: Option<String>,
    pub user_id: Option<String>,
}

/// Tokens handed out at login and refresh.
#[derive(Debug, PartialEq, Eq)]
pub struct AuthTokensResponse {
    pub access_token: String,
    pub refresh_token: String,
    pub token_type: String,
    pub expires_in: i64,
    pub refresh_expires_in: i64,
    pub user_id: String,
    pub role: Role,
    pub family_id: String,
}

/// An acknowledgement.
#[derive(Debug, PartialEq, Eq)]
pub struct GenericOkResponse {
    pub ok: bool,
}

/// The caller's own account.
#[derive(Debug, PartialEq, Eq)]
pub struct MeResponse {
    pub id: String,
    pub wallet_address: String,
    pub role: Role,
    pub created_at: String,
}

} // verus!
