//! Wallet login and sessions: challenges, the claims of access and refresh
//! tokens, refresh-token rotation with reuse detection, logout, revocation,
//! and the admission of a request by its access token.
use vstd::prelude::*;
use crate::authz::{require_admin, role_text, role_to_str};
use crate::model::{
    fails_with, AppConfig, AppError, AppResult, AuthTokensResponse, AuthUser, ChallengeRequest, ChallengeResponse,
    Claims, ErrorKind, ErrorView, GenericOkResponse, MeResponse, RevokeRequest, Role, TokenType,
    VerifyRequest,
};
use crate::primitives::{
    ascii_alphanumeric, chrono_instant, format_rfc3339, new_uuid, parse_uuid, random_nonce, rfc3339_text,
    uuid_parsed, uuid_text, uuid_to_string,
};
use crate::signature::{verify_signature_base58, wallet_signature_valid};
use crate::state::{
    audit_appended, meta_texts, only_changed, AuthChallenge, MemoryState, MetaField, MetaValue,
    RefreshTokenRecord, Revocation, Table, User, WalletEntry,
};
use crate::table::{find_index, has_key_in, lemma_table_map_at, table_map, unique_keys, upsert, Keyed};
use crate::text::{starts_with, str_eq, trim, trimmed};

verus! {

/// The number of characters of a login challenge's nonce.
pub const NONCE_LEN: usize = 24;

// ---------------------------------------------------------------------------
// Time
// ---------------------------------------------------------------------------

/// Whole seconds since the epoch of the instant `t` (microseconds), rounded
/// down, as `DateTime::timestamp` gives them.
pub open spec fn secs_of(t: int) -> int {
    t / 1_000_000
}

fn secs_of_micros(t: i64) -> (r: i64)
    ensures
        r == secs_of(t as int),
{
    if t >= 0 {
        t / 1_000_000
    } else {
        let q = t / 1_000_000;
        if q * 1_000_000 == t {
            q
        } else {
            q - 1
        }
    }
}

// ---------------------------------------------------------------------------
// Claims
// ---------------------------------------------------------------------------

/// Whether `c` are the claims of a token of type `typ` for `user_id` with
/// wallet `wallet` and role `role`, in family `family`, with id `jti`,
/// issued at `now` (microseconds) and valid for `expires_in` seconds.
pub open spec fn claims_are(
    c: Claims,
    user_id: u128,
    wallet: Seq<char>,
    role: Role,
    family: Seq<char>,
    jti: Seq<char>,
    typ: TokenType,
    now: int,
    expires_in: int,
) -> bool {
    &&& c.sub@ == uuid_text(user_id)
    &&& c.wallet@ == wallet
    &&& c.role@ == role_text(role)
    &&& c.jti@ == jti
    &&& c.fid@ == family
    &&& c.typ == typ
    &&& c.exp == issued_exp(now, expires_in)
    &&& c.iat == secs_of(now) as usize
}

/// The expiry, in seconds since the epoch, of a token issued at `now`
/// (microseconds) and valid for `expires_in` seconds.
pub open spec fn issued_exp(now: int, expires_in: int) -> usize {
    (secs_of(now) + expires_in) as usize
}

/// Whether adding `expires_in` seconds to the second count of `now` stays
/// within `i64`, as computing the expiry of a token needs.
pub open spec fn expiry_fits(now: int, expires_in: int) -> bool {
    i64::MIN <= secs_of(now) + expires_in <= i64::MAX
}

fn build_claims(
    user_id: u128,
    wallet: &str,
    role: &Role,
    family_id: &str,
    jti: String,
    typ: TokenType,
    now: i64,
    expires_in_seconds: i64,
) -> (c: Claims)
    requires
        chrono_instant(now as int),
        expiry_fits(now as int, expires_in_seconds as int),
    ensures
        claims_are(c, user_id, wallet@, *role, family_id@, jti@, typ, now as int, expires_in_seconds as int),
{
    let now_secs = secs_of_micros(now);
    Claims {
        sub: uuid_to_string(user_id),
        wallet: wallet.to_owned(),
        role: role_to_str(role).to_owned(),
        jti,
        fid: family_id.to_owned(),
        typ,
        exp: (now_secs + expires_in_seconds) as usize,
        iat: now_secs as usize,
    }
}

/// The claims of a fresh access token for the account `user_id`, in the
/// session family `family_id`, issued at `now`; the token id is a random
/// UUID.
pub fn access_claims(user_id: u128, wallet: &str, role: &Role, family_id: &str, now: i64, expires_in_seconds: i64) -> (c:
    Claims)
    requires
        chrono_instant(now as int),
        expiry_fits(now as int, expires_in_seconds as int),
    ensures
        claims_are(c, user_id, wallet@, *role, family_id@, c.jti@, TokenType::Access, now as int, expires_in_seconds as int),
        uuid_parsed(c.jti@) is Some,
{
    let jti = uuid_to_string(new_uuid());
    build_claims(user_id, wallet, role, family_id, jti, TokenType::Access, now, expires_in_seconds)
}

/// The claims of a fresh refresh token, as `access_claims` but of type
/// `Refresh`.
pub fn refresh_claims(user_id: u128, wallet: &str, role: &Role, family_id: &str, now: i64, expires_in_seconds: i64) -> (c:
    Claims)
    requires
        chrono_instant(now as int),
        expiry_fits(now as int, expires_in_seconds as int),
    ensures
        claims_are(c, user_id, wallet@, *role, family_id@, c.jti@, TokenType::Refresh, now as int, expires_in_seconds as int),
        uuid_parsed(c.jti@) is Some,
{
    let jti = uuid_to_string(new_uuid());
    build_claims(user_id, wallet, role, family_id, jti, TokenType::Refresh, now, expires_in_seconds)
}

/// The instant at which a refresh token with expiry `exp` (seconds) lapses,
/// as `DateTime::from_timestamp(exp as i64, 0)` gives it: `None` outside the
/// range chrono represents.
pub open spec fn refresh_expiry(exp: usize) -> Option<int> {
    let secs = exp as i64 as int;
    if chrono_instant(secs * 1_000_000) {
        Some(secs * 1_000_000)
    } else {
        None
    }
}

fn refresh_expiry_micros(exp: usize) -> (r: Option<i64>)
    ensures
        match refresh_expiry(exp) {
            Some(t) => r == Some(t as i64),
            None => r is None,
        },
{
    let secs = exp as i64;
    if secs < -8334601315200 || secs > 8210266876799 {
        None
    } else {
        Some(secs * 1_000_000)
    }
}

// ---------------------------------------------------------------------------
// Grants
// ---------------------------------------------------------------------------

/// The outcome of a login or a refresh: the account, its session family and
/// the claims of the two tokens to sign.
#[derive(Debug, PartialEq, Eq)]
pub struct SessionGrant {
    pub user_id: u128,
    pub role: Role,
    pub family_id: String,
    pub access_claims: Claims,
    pub refresh_claims: Claims,
}

/// The response that hands out the signed tokens of a grant.
pub fn tokens_response(
    grant: &SessionGrant,
    access_token: String,
    refresh_token: String,
    jwt_expires_in_seconds: i64,
    refresh_expires_in_seconds: i64,
) -> (r: AuthTokensResponse)
    ensures
        r.access_token == access_token,
        r.refresh_token == refresh_token,
        r.token_type@ == "Bearer"@,
        r.expires_in == jwt_expires_in_seconds,
        r.refresh_expires_in == refresh_expires_in_seconds,
        r.user_id@ == uuid_text(grant.user_id),
        r.role == grant.role,
        r.family_id == grant.family_id,
{
    AuthTokensResponse {
        access_token,
        refresh_token,
        token_type: "Bearer".to_owned(),
        expires_in: jwt_expires_in_seconds,
        refresh_expires_in: refresh_expires_in_seconds,
        user_id: uuid_to_string(grant.user_id),
        role: grant.role,
        family_id: grant.family_id.clone(),
    }
}

fn meta_text(key: &str, value: &str) -> (r: MetaField)
    ensures
        r.key@ == key@,
        r.value matches MetaValue::Text(v) && v@ == value@,
{
    MetaField { key: key.to_owned(), value: MetaValue::Text(value.to_owned()) }
}

// ---------------------------------------------------------------------------
// Challenges
// ---------------------------------------------------------------------------

/// The text a wallet signs to log in.
pub open spec fn challenge_message(wallet: Seq<char>, nonce: Seq<char>, id: Seq<char>, expires: Seq<char>) -> Seq<char> {
    "Expense Tracker login\nwallet:"@ + wallet + "\nnonce:"@ + nonce + "\nchallenge_id:"@ + id + "\nexpires:"@
        + expires
}

fn build_challenge_message(wallet: &str, nonce: &str, id: &str, expires: &str) -> (r: String)
    ensures
        r@ == challenge_message(wallet@, nonce@, id@, expires@),
{
    let mut m = "Expense Tracker login\nwallet:".to_owned();
    m.append(wallet);
    m.append("\nnonce:");
    m.append(nonce);
    m.append("\nchallenge_id:");
    m.append(id);
    m.append("\nexpires:");
    m.append(expires);
    m
}

/// Whether the challenge lifetime of `s`'s settings, added to `now`, is an
/// instant chrono represents.
pub open spec fn challenge_expiry_ok(s: MemoryState, now: int) -> bool {
    &&& crate::state::duration_secs_ok(s.config.challenge_ttl_seconds as int)
    &&& chrono_instant(now + s.config.challenge_ttl_seconds * 1_000_000)
}

impl MemoryState {
    /// Hands the wallet a fresh login challenge, valid for the configured
    /// lifetime: a random id and a random 24-character alphanumeric nonce,
    /// and the message to sign. A wallet address that is empty once trimmed
    /// is a bad request.
    pub fn issue_challenge(&mut self, payload: &ChallengeRequest, now: i64) -> (r: AppResult<ChallengeResponse>)
        requires
            old(self).wf(),
            chrono_instant(now as int),
            challenge_expiry_ok(*old(self), now as int),
        ensures
            final(self).wf(),
            only_changed(*old(self), *final(self), set![Table::Challenges]),
            trimmed(payload.wallet_address@).len() == 0 ==> fails_with(
                r,
                (ErrorKind::BadRequest, "wallet_address is required"@),
            ) && final(self).auth_challenges == old(self).auth_challenges,
            trimmed(payload.wallet_address@).len() > 0 ==> (r matches Ok(resp) && {
                let id = uuid_parsed(resp.challenge_id@)->0;
                let expires = now + old(self).config.challenge_ttl_seconds * 1_000_000;
                &&& uuid_parsed(resp.challenge_id@) is Some
                &&& resp.challenge_id@ == uuid_text(id)
                &&& resp.wallet_address@ == trimmed(payload.wallet_address@)
                &&& resp.nonce@.len() == NONCE_LEN
                &&& (forall|i: int| 0 <= i < NONCE_LEN ==> ascii_alphanumeric(#[trigger] resp.nonce@[i]))
                &&& resp.expires_at@ == rfc3339_text(expires as i64)
                &&& resp.message@ == challenge_message(resp.wallet_address@, resp.nonce@, resp.challenge_id@, resp.expires_at@)
                &&& table_map(final(self).auth_challenges@) == table_map(old(self).auth_challenges@).insert(
                    id,
                    AuthChallenge {
                        challenge_id: id,
                        wallet_address: resp.wallet_address,
                        nonce: resp.nonce,
                        message: resp.message,
                        expires_at: expires as i64,
                        used: false,
                    },
                )
            }),
    {
        let wallet = trim(payload.wallet_address.as_str());
        if wallet.as_str().unicode_len() == 0 {
            return Err(AppError::bad_request("wallet_address is required"));
        }
        let nonce = random_nonce(NONCE_LEN);
        let challenge_id = new_uuid();
        let id_text = uuid_to_string(challenge_id);
        let ttl = (self.config.challenge_ttl_seconds as i128) * 1_000_000;
        let expires_at = ((now as i128) + ttl) as i64;
        let expires_text = format_rfc3339(expires_at);
        let message = build_challenge_message(wallet.as_str(), nonce.as_str(), id_text.as_str(), expires_text.as_str());
        let challenge = AuthChallenge {
            challenge_id,
            wallet_address: wallet.clone(),
            nonce: nonce.clone(),
            message: message.clone(),
            expires_at,
            used: false,
        };
        upsert(&mut self.auth_challenges, challenge, &challenge_id);
        Ok(ChallengeResponse { challenge_id: id_text, wallet_address: wallet, message, nonce, expires_at: expires_text })
    }
}

// ---------------------------------------------------------------------------
// Admission of requests
// ---------------------------------------------------------------------------

/// What `bearer_token` answers for the `Authorization` header, if present.
pub open spec fn bearer_extraction(header: Option<Seq<char>>) -> Result<Seq<char>, ErrorView> {
    match header {
        None => Err((ErrorKind::Unauthorized, "Missing Authorization header"@)),
        Some(h) => if crate::text::has_prefix(h, "Bearer "@) {
            Ok(h.subrange(7, h.len() as int))
        } else {
            Err((ErrorKind::Unauthorized, "Invalid auth scheme"@))
        },
    }
}

/// The token of an `Authorization: Bearer <token>` header.
pub fn bearer_token(header: Option<&str>) -> (r: AppResult<String>)
    ensures
        match bearer_extraction(
            match header {
                Some(h) => Some(h@),
                None => None,
            },
        ) {
            Ok(t) => r matches Ok(s) && s@ == t,
            Err(e) => fails_with(r, e),
        },
{
    match header {
        None => Err(AppError::unauthorized("Missing Authorization header")),
        Some(h) => {
            if !starts_with(h, "Bearer ") {
                return Err(AppError::unauthorized("Invalid auth scheme"));
            }
            proof {
                reveal_strlit("Bearer ");
            }
            let n = h.unicode_len();
            Ok(h.substring_char(7, n).to_owned())
        },
    }
}

/// The role a role claim names.
pub open spec fn role_claim(s: Seq<char>) -> Option<Role> {
    crate::authz::role_of_text(s)
}

/// What `authorize` answers for the claims of a presented access token
/// (`None` when the token did not decode or verify).
pub open spec fn admission(s: MemoryState, claims: Option<Claims>) -> Result<(u128, Role), ErrorView> {
    match claims {
        None => Err((ErrorKind::Unauthorized, "Invalid or expired token"@)),
        Some(c) => if c.typ != TokenType::Access {
            Err((ErrorKind::Unauthorized, "Access token required"@))
        } else if has_key_in(s.revoked_access_jtis@, c.jti@) {
            Err((ErrorKind::Unauthorized, "Token revoked"@))
        } else if has_key_in(s.revoked_token_families@, c.fid@) {
            Err((ErrorKind::Unauthorized, "Session revoked"@))
        } else {
            match uuid_parsed(c.sub@) {
                None => Err((ErrorKind::Unauthorized, "Invalid subject claim"@)),
                Some(uid) => match role_claim(c.role@) {
                    None => Err((ErrorKind::Unauthorized, "Invalid role claim"@)),
                    Some(role) => Ok((uid, role)),
                },
            }
        }
    }
}

impl MemoryState {
    /// Admits a request by the claims of its access token: the token must be
    /// an access token, neither it nor its session family revoked, with a
    /// UUID subject and a known role.
    pub fn authorize(&self, claims: Option<&Claims>) -> (r: AppResult<AuthUser>)
        ensures
            match admission(
                *self,
                match claims {
                    Some(c) => Some(*c),
                    None => None,
                },
            ) {
                Ok(p) => r matches Ok(a) && a.user_id == p.0 && a.role == p.1 && a.claims == *claims->0
                    && a.wallet == claims->0.wallet,
                Err(e) => fails_with(r, e),
            },
    {
        let c = match claims {
            None => {
                return Err(AppError::unauthorized("Invalid or expired token"));
            },
            Some(c) => c,
        };
        if c.typ != TokenType::Access {
            return Err(AppError::unauthorized("Access token required"));
        }
        if find_index(&self.revoked_access_jtis, &c.jti).is_some() {
            return Err(AppError::unauthorized("Token revoked"));
        }
        if find_index(&self.revoked_token_families, &c.fid).is_some() {
            return Err(AppError::unauthorized("Session revoked"));
        }
        let user_id = match parse_uuid(c.sub.as_str()) {
            None => {
                return Err(AppError::unauthorized("Invalid subject claim"));
            },
            Some(u) => u,
        };
        let role = if str_eq(c.role.as_str(), "admin") {
            Role::Admin
        } else if str_eq(c.role.as_str(), "auditor") {
            Role::Auditor
        } else if str_eq(c.role.as_str(), "user") {
            Role::User
        } else {
            return Err(AppError::unauthorized("Invalid role claim"));
        };
        Ok(AuthUser { user_id, wallet: c.wallet.clone(), role, claims: c.clone() })
    }
}

// ---------------------------------------------------------------------------
// Opening a session
// ---------------------------------------------------------------------------

/// `rec` is the unused, unrevoked record of refresh token `jti` in family
/// `family`, for account `user_id`, lapsing at `expires_at`.
pub open spec fn fresh_record(rec: RefreshTokenRecord, jti: Seq<char>, family: Seq<char>, user_id: u128, expires_at: int) -> bool {
    &&& rec.jti@ == jti
    &&& rec.family_id@ == family
    &&& rec.user_id == user_id
    &&& rec.expires_at == expires_at
    &&& !rec.used
    &&& !rec.revoked
}

/// `g` grants the account `u` a session in family `family` at `now` under
/// the settings `cfg`: both tokens carry `u`'s id, wallet and role, the
/// family and the configured lifetimes, and have UUID ids.
pub open spec fn grant_for(g: SessionGrant, u: User, family: Seq<char>, now: int, cfg: AppConfig) -> bool {
    &&& g.user_id == u.id
    &&& g.role == u.role
    &&& g.family_id@ == family
    &&& claims_are(
        g.access_claims,
        u.id,
        u.wallet_address@,
        u.role,
        family,
        g.access_claims.jti@,
        TokenType::Access,
        now,
        cfg.jwt_expires_in_seconds as int,
    )
    &&& claims_are(
        g.refresh_claims,
        u.id,
        u.wallet_address@,
        u.role,
        family,
        g.refresh_claims.jti@,
        TokenType::Refresh,
        now,
        cfg.refresh_expires_in_seconds as int,
    )
    &&& uuid_parsed(g.access_claims.jti@) is Some
    &&& uuid_parsed(g.refresh_claims.jti@) is Some
}

/// The refresh table `t` is the table `base` with the record of `g`'s
/// refresh token added.
pub open spec fn session_recorded(base: Map<Seq<char>, RefreshTokenRecord>, t: Seq<RefreshTokenRecord>, g: SessionGrant) -> bool {
    let jti = g.refresh_claims.jti@;
    &&& table_map(t) == base.insert(jti, table_map(t)[jti])
    &&& fresh_record(table_map(t)[jti], jti, g.family_id@, g.user_id, refresh_expiry(g.refresh_claims.exp)->0)
}

/// The settings let a token issued at `now` carry its expiry.
pub open spec fn token_times_ok(cfg: AppConfig, now: int) -> bool {
    &&& chrono_instant(now)
    &&& expiry_fits(now, cfg.jwt_expires_in_seconds as int)
    &&& expiry_fits(now, cfg.refresh_expires_in_seconds as int)
}

impl MemoryState {
    /// Issues the claims of an access and a refresh token for `user` in
    /// `family_id`, and records the refresh token.
    fn open_session(&mut self, user: &User, family_id: String, now: i64) -> (r: AppResult<SessionGrant>)
        requires
            old(self).wf(),
            token_times_ok(old(self).config, now as int),
        ensures
            final(self).wf(),
            refresh_expiry(issued_exp(now as int, old(self).config.refresh_expires_in_seconds as int)) is None ==> fails_with(
                r,
                (ErrorKind::Internal, "invalid refresh exp"@),
            ) && only_changed(*old(self), *final(self), Set::empty()),
            refresh_expiry(issued_exp(now as int, old(self).config.refresh_expires_in_seconds as int)) is Some ==> (
            r matches Ok(g) && grant_for(g, *user, family_id@, now as int, old(self).config) && session_recorded(
                table_map(old(self).refresh_tokens@),
                final(self).refresh_tokens@,
                g,
            ) && only_changed(*old(self), *final(self), set![Table::RefreshTokens])),
    {
        let ac = access_claims(
            user.id,
            user.wallet_address.as_str(),
            &user.role,
            family_id.as_str(),
            now,
            self.config.jwt_expires_in_seconds,
        );
        let rc = refresh_claims(
            user.id,
            user.wallet_address.as_str(),
            &user.role,
            family_id.as_str(),
            now,
            self.config.refresh_expires_in_seconds,
        );
        let expires_at = match refresh_expiry_micros(rc.exp) {
            None => {
                return Err(AppError::internal("invalid refresh exp"));
            },
            Some(t) => t,
        };
        let jti = rc.jti.clone();
        let rec = RefreshTokenRecord {
            jti: rc.jti.clone(),
            family_id: family_id.clone(),
            user_id: user.id,
            expires_at,
            used: false,
            revoked: false,
        };
        upsert(&mut self.refresh_tokens, rec, &jti);
        Ok(SessionGrant { user_id: user.id, role: user.role, family_id, access_claims: ac, refresh_claims: rc })
    }
}

// ---------------------------------------------------------------------------
// Login
// ---------------------------------------------------------------------------

/// What a login by `wallet` at `now` does to the accounts: it uses the
/// account `uid` registered for the wallet, or else registers a new account
/// `uid` with role `user`.
pub open spec fn account_opened(s: MemoryState, t: MemoryState, wallet: Seq<char>, now: int, uid: u128) -> bool {
    let wallets = table_map(s.users_by_wallet@);
    if wallets.contains_key(wallet) {
        &&& uid == wallets[wallet].user_id
        &&& t.users@ == s.users@
        &&& t.users_by_wallet@ == s.users_by_wallet@
    } else {
        let u = table_map(t.users@)[uid];
        &&& table_map(t.users@) == table_map(s.users@).insert(uid, u)
        &&& u.id == uid
        &&& u.wallet_address@ == wallet
        &&& u.role == Role::User
        &&& u.created_at == now
        &&& table_map(t.users_by_wallet@) == wallets.insert(wallet, table_map(t.users_by_wallet@)[wallet])
        &&& table_map(t.users_by_wallet@)[wallet].user_id == uid
    }
}

/// Why a login with `p` at `now` is refused before anything changes, if it
/// is: the challenge must parse, exist, be unused and unexpired, belong to
/// the wallet, and carry the wallet's signature.
pub open spec fn login_rejection(s: MemoryState, p: VerifyRequest, now: int) -> Option<ErrorView> {
    match uuid_parsed(p.challenge_id@) {
        None => Some((ErrorKind::BadRequest, "invalid challenge_id"@)),
        Some(id) => if !table_map(s.auth_challenges@).contains_key(id) {
            Some((ErrorKind::Unauthorized, "challenge not found"@))
        } else {
            let c = table_map(s.auth_challenges@)[id];
            if c.used {
                Some((ErrorKind::Unauthorized, "challenge already used"@))
            } else if now > c.expires_at {
                Some((ErrorKind::Unauthorized, "challenge expired"@))
            } else if c.wallet_address@ != p.wallet_address@ {
                Some((ErrorKind::Unauthorized, "wallet mismatch"@))
            } else if !wallet_signature_valid(p.wallet_address@, p.signature@, c.message@) {
                Some((ErrorKind::Unauthorized, "invalid signature"@))
            } else {
                None
            }
        },
    }
}

/// What an accepted login of account `uid` through challenge `cid` at `now`
/// answers, and how the state `s` becomes `t` past the challenge and the
/// accounts.
pub open spec fn login_session(s: MemoryState, t: MemoryState, uid: u128, cid: u128, now: int, r: AppResult<SessionGrant>) -> bool {
    if !table_map(t.users@).contains_key(uid) {
        &&& fails_with(r, (ErrorKind::Internal, "user not found after auth"@))
        &&& only_changed(s, t, set![Table::Challenges, Table::Users, Table::Wallets])
    } else if refresh_expiry(issued_exp(now, s.config.refresh_expires_in_seconds as int)) is None {
        &&& fails_with(r, (ErrorKind::Internal, "invalid refresh exp"@))
        &&& only_changed(s, t, set![Table::Challenges, Table::Users, Table::Wallets])
    } else {
        let u = table_map(t.users@)[uid];
        r matches Ok(g) && {
            &&& grant_for(g, u, g.family_id@, now, s.config)
            &&& uuid_parsed(g.family_id@) is Some
            &&& session_recorded(table_map(s.refresh_tokens@), t.refresh_tokens@, g)
            &&& audit_appended(s.audit_logs@, t.audit_logs@, u.wallet_address@, "auth.verify"@, Some(uuid_text(u.id)), None, now)
            &&& meta_texts(
                t.audit_logs@.last().metadata@,
                seq![
                    ("challenge_id"@, uuid_text(cid)),
                    ("family_id"@, g.family_id@),
                    ("access_jti"@, g.access_claims.jti@),
                    ("refresh_jti"@, g.refresh_claims.jti@),
                ],
            )
            &&& only_changed(
                s,
                t,
                set![Table::Challenges, Table::Users, Table::Wallets, Table::RefreshTokens, Table::AuditLogs],
            )
        }
    }
}

/// What an accepted login with `p` at `now` answers and does: the challenge
/// is marked used, an account is found or registered, and a session opens.
pub open spec fn login_accepted(s: MemoryState, p: VerifyRequest, now: int, t: MemoryState, r: AppResult<SessionGrant>) -> bool {
    let id = uuid_parsed(p.challenge_id@)->0;
    let c = table_map(s.auth_challenges@)[id];
    &&& table_map(t.auth_challenges@) == table_map(s.auth_challenges@).insert(id, AuthChallenge { used: true, ..c })
    &&& exists|uid: u128| #[trigger] account_opened(s, t, p.wallet_address@, now, uid) && login_session(s, t, uid, id, now, r)
}

impl MemoryState {
    fn login_account(&mut self, wallet: &String, now: i64) -> (uid: u128)
        requires
            old(self).wf(),
            chrono_instant(now as int),
        ensures
            final(self).wf(),
            account_opened(*old(self), *final(self), wallet@, now as int, uid),
            only_changed(*old(self), *final(self), set![Table::Users, Table::Wallets]),
    {
        match find_index(&self.users_by_wallet, wallet) {
            Some(i) => {
                proof {
                    lemma_table_map_at(self.users_by_wallet@, i as int);
                }
                self.users_by_wallet[i].user_id
            },
            None => {
                let id = new_uuid();
                let user = User { id, wallet_address: wallet.clone(), role: Role::User, created_at: now };
                let ghost u = user;
                upsert(&mut self.users, user, &id);
                upsert(&mut self.users_by_wallet, WalletEntry { wallet: wallet.clone(), user_id: id }, wallet);
                proof {
                    assert forall|i: int| 0 <= i < self.users@.len() implies chrono_instant(
                        #[trigger] self.users@[i].created_at as int,
                    ) by {
                        if self.users@[i] != u {
                            let j = choose|j: int| 0 <= j < old(self).users@.len() && old(self).users@[j] == self.users@[i];
                            assert(chrono_instant(old(self).users@[j].created_at as int));
                        }
                    }
                }
                id
            },
        }
    }

    /// Logs a wallet in with a signed challenge: the challenge is consumed,
    /// the wallet's account is found or registered with role `user`, and a
    /// new session family is opened, with its refresh token recorded and the
    /// login written to the audit log.
    pub fn verify_login(&mut self, payload: &VerifyRequest, now: i64) -> (r: AppResult<SessionGrant>)
        requires
            old(self).wf(),
            token_times_ok(old(self).config, now as int),
        ensures
            final(self).wf(),
            match login_rejection(*old(self), *payload, now as int) {
                Some(e) => fails_with(r, e) && only_changed(*old(self), *final(self), Set::empty()),
                None => login_accepted(*old(self), *payload, now as int, *final(self), r),
            },
    {
        let ghost s = *self;
        let challenge_id = match parse_uuid(payload.challenge_id.as_str()) {
            None => {
                return Err(AppError::bad_request("invalid challenge_id"));
            },
            Some(id) => id,
        };
        let idx = match find_index(&self.auth_challenges, &challenge_id) {
            None => {
                return Err(AppError::unauthorized("challenge not found"));
            },
            Some(i) => i,
        };
        proof {
            lemma_table_map_at(self.auth_challenges@, idx as int);
        }
        let mut challenge = self.auth_challenges[idx].clone();
        if challenge.used {
            return Err(AppError::unauthorized("challenge already used"));
        }
        if now > challenge.expires_at {
            return Err(AppError::unauthorized("challenge expired"));
        }
        if challenge.wallet_address != payload.wallet_address {
            return Err(AppError::unauthorized("wallet mismatch"));
        }
        if !verify_signature_base58(
            payload.wallet_address.as_str(),
            payload.signature.as_str(),
            challenge.message.as_str(),
        ) {
            return Err(AppError::unauthorized("invalid signature"));
        }
        challenge.used = true;
        upsert(&mut self.auth_challenges, challenge, &challenge_id);
        let ghost s1 = *self;
        let user_id = self.login_account(&payload.wallet_address, now);
        let ghost s2 = *self;
        let uidx = match find_index(&self.users, &user_id) {
            None => {
                proof {
                    assert(account_opened(s, *self, payload.wallet_address@, now as int, user_id));
                }
                return Err(AppError::internal("user not found after auth"));
            },
            Some(i) => i,
        };
        proof {
            lemma_table_map_at(self.users@, uidx as int);
        }
        let user = self.users[uidx].clone();
        let family_id = uuid_to_string(new_uuid());
        let grant = match self.open_session(&user, family_id, now) {
            Err(e) => {
                proof {
                    assert(account_opened(s, *self, payload.wallet_address@, now as int, user_id));
                }
                return Err(e);
            },
            Ok(g) => g,
        };
        let metadata = vec![
            meta_text("challenge_id", uuid_to_string(challenge_id).as_str()),
            meta_text("family_id", grant.family_id.as_str()),
            meta_text("access_jti", grant.access_claims.jti.as_str()),
            meta_text("refresh_jti", grant.refresh_claims.jti.as_str()),
        ];
        let ghost meta = metadata@;
        self.append_audit(user.wallet_address.clone(), "auth.verify", Some(uuid_to_string(user.id)), None, metadata, now);
        proof {
            assert(account_opened(s, *self, payload.wallet_address@, now as int, user_id));
            assert(meta_texts(
                meta,
                seq![
                    ("challenge_id"@, uuid_text(challenge_id)),
                    ("family_id"@, grant.family_id@),
                    ("access_jti"@, grant.access_claims.jti@),
                    ("refresh_jti"@, grant.refresh_claims.jti@),
                ],
            ));
        }
        Ok(grant)
    }
}

// ---------------------------------------------------------------------------
// Refresh
// ---------------------------------------------------------------------------

/// The error that answers a refresh token that was already exchanged.
pub open spec fn reuse_error() -> ErrorView {
    (ErrorKind::Unauthorized, "Refresh token reuse detected"@)
}

/// Why a refresh with the presented claims (`None` when the token did not
/// decode or verify) at `now` is refused, if it is. A token already
/// exchanged is refused with `reuse_error()`, and revokes its family.
pub open spec fn refresh_rejection(s: MemoryState, claims: Option<Claims>, now: int) -> Option<ErrorView> {
    match claims {
        None => Some((ErrorKind::Unauthorized, "Invalid refresh token"@)),
        Some(c) => if c.typ != TokenType::Refresh {
            Some((ErrorKind::Unauthorized, "Refresh token required"@))
        } else if has_key_in(s.revoked_token_families@, c.fid@) {
            Some((ErrorKind::Unauthorized, "Session revoked"@))
        } else if !table_map(s.refresh_tokens@).contains_key(c.jti@) {
            Some((ErrorKind::Unauthorized, "Unknown refresh token"@))
        } else {
            let rec = table_map(s.refresh_tokens@)[c.jti@];
            if rec.revoked || now > rec.expires_at {
                Some((ErrorKind::Unauthorized, "Refresh token expired/revoked"@))
            } else if rec.used {
                Some(reuse_error())
            } else {
                None
            }
        },
    }
}

/// Whether the presented refresh token was already exchanged: it passes
/// every other check of `refresh_rejection`, and is refused with
/// `reuse_error()`.
pub open spec fn reuse_detected(s: MemoryState, claims: Option<Claims>, now: int) -> bool {
    match claims {
        None => false,
        Some(c) => {
            let rec = table_map(s.refresh_tokens@)[c.jti@];
            &&& c.typ == TokenType::Refresh
            &&& !has_key_in(s.revoked_token_families@, c.fid@)
            &&& table_map(s.refresh_tokens@).contains_key(c.jti@)
            &&& !(rec.revoked || now > rec.expires_at)
            &&& rec.used
        },
    }
}

/// The revocation table `t` is `s` with `id` revoked at `now`.
pub open spec fn revoked_at(s: Seq<Revocation>, t: Seq<Revocation>, id: Seq<char>, now: int) -> bool {
    &&& table_map(t) == table_map(s).insert(id, table_map(t)[id])
    &&& table_map(t)[id].at == now
}

/// The refresh table of `s` with the record of `jti` marked used.
pub open spec fn marked_used(s: MemoryState, jti: Seq<char>) -> Map<Seq<char>, RefreshTokenRecord> {
    let rec = table_map(s.refresh_tokens@)[jti];
    table_map(s.refresh_tokens@).insert(jti, RefreshTokenRecord { used: true, ..rec })
}

/// What an accepted refresh with claims `c` at `now` answers, and how `s`
/// becomes `t`: the presented token is marked used; if its account still
/// exists, a new pair of tokens of the same family is issued, the new
/// refresh token recorded and the exchange written to the audit log.
pub open spec fn refresh_accepted(s: MemoryState, c: Claims, now: int, t: MemoryState, r: AppResult<SessionGrant>) -> bool {
    let rec = table_map(s.refresh_tokens@)[c.jti@];
    let users = table_map(s.users@);
    if !users.contains_key(rec.user_id) {
        &&& fails_with(r, (ErrorKind::Unauthorized, "User not found"@))
        &&& table_map(t.refresh_tokens@) == marked_used(s, c.jti@)
        &&& only_changed(s, t, set![Table::RefreshTokens])
    } else if refresh_expiry(issued_exp(now, s.config.refresh_expires_in_seconds as int)) is None {
        &&& fails_with(r, (ErrorKind::Internal, "invalid refresh exp"@))
        &&& table_map(t.refresh_tokens@) == marked_used(s, c.jti@)
        &&& only_changed(s, t, set![Table::RefreshTokens])
    } else {
        let u = users[rec.user_id];
        r matches Ok(g) && {
            &&& grant_for(g, u, rec.family_id@, now, s.config)
            &&& session_recorded(marked_used(s, c.jti@), t.refresh_tokens@, g)
            &&& audit_appended(s.audit_logs@, t.audit_logs@, u.wallet_address@, "auth.refresh"@, Some(uuid_text(u.id)), None, now)
            &&& meta_texts(
                t.audit_logs@.last().metadata@,
                seq![
                    ("family_id"@, rec.family_id@),
                    ("access_jti"@, g.access_claims.jti@),
                    ("refresh_jti"@, g.refresh_claims.jti@),
                ],
            )
            &&& only_changed(s, t, set![Table::RefreshTokens, Table::AuditLogs])
        }
    }
}

/// What a refresh with the presented claims at `now` answers, and how `s`
/// becomes `t`.
pub open spec fn refresh_step(s: MemoryState, claims: Option<Claims>, now: int, t: MemoryState, r: AppResult<SessionGrant>) -> bool {
    match refresh_rejection(s, claims, now) {
        Some(e) => {
            &&& fails_with(r, e)
            &&& if reuse_detected(s, claims, now) {
                &&& revoked_at(
                    s.revoked_token_families@,
                    t.revoked_token_families@,
                    table_map(s.refresh_tokens@)[claims->0.jti@].family_id@,
                    now,
                )
                &&& only_changed(s, t, set![Table::RevokedFamilies])
            } else {
                only_changed(s, t, Set::empty())
            }
        },
        None => refresh_accepted(s, claims->0, now, t, r),
    }
}

impl MemoryState {
    fn revoke_id(table: &mut Vec<Revocation>, id: &String, now: i64)
        requires
            unique_keys(old(table)@),
        ensures
            unique_keys(final(table)@),
            revoked_at(old(table)@, final(table)@, id@, now as int),
    {
        upsert(table, Revocation { id: id.clone(), at: now }, id);
    }

    /// Exchanges a refresh token (given by its verified claims, `None` when
    /// it did not decode or verify) for a new pair of tokens of the same
    /// session family. A token already exchanged is refused, and its whole
    /// family revoked.
    pub fn refresh_session(&mut self, claims: Option<Claims>, now: i64) -> (r: AppResult<SessionGrant>)
        requires
            old(self).wf(),
            token_times_ok(old(self).config, now as int),
        ensures
            final(self).wf(),
            refresh_step(*old(self), claims, now as int, *final(self), r),
    {
        let c = match claims {
            None => {
                return Err(AppError::unauthorized("Invalid refresh token"));
            },
            Some(c) => c,
        };
        if c.typ != TokenType::Refresh {
            return Err(AppError::unauthorized("Refresh token required"));
        }
        if find_index(&self.revoked_token_families, &c.fid).is_some() {
            return Err(AppError::unauthorized("Session revoked"));
        }
        let idx = match find_index(&self.refresh_tokens, &c.jti) {
            None => {
                return Err(AppError::unauthorized("Unknown refresh token"));
            },
            Some(i) => i,
        };
        proof {
            lemma_table_map_at(self.refresh_tokens@, idx as int);
        }
        let mut current = self.refresh_tokens[idx].clone();
        if current.revoked || now > current.expires_at {
            return Err(AppError::unauthorized("Refresh token expired/revoked"));
        }
        if current.used {
            Self::revoke_id(&mut self.revoked_token_families, &current.family_id, now);
            return Err(AppError::unauthorized("Refresh token reuse detected"));
        }
        current.used = true;
        let family_id = current.family_id.clone();
        let user_id = current.user_id;
        upsert(&mut self.refresh_tokens, current, &c.jti);
        let uidx = match find_index(&self.users, &user_id) {
            None => {
                return Err(AppError::unauthorized("User not found"));
            },
            Some(i) => i,
        };
        proof {
            lemma_table_map_at(self.users@, uidx as int);
        }
        let user = self.users[uidx].clone();
        let grant = match self.open_session(&user, family_id, now) {
            Err(e) => {
                return Err(e);
            },
            Ok(g) => g,
        };
        let metadata = vec![
            meta_text("family_id", grant.family_id.as_str()),
            meta_text("access_jti", grant.access_claims.jti.as_str()),
            meta_text("refresh_jti", grant.refresh_claims.jti.as_str()),
        ];
        let ghost meta = metadata@;
        self.append_audit(user.wallet_address.clone(), "auth.refresh", Some(uuid_to_string(user.id)), None, metadata, now);
        proof {
            assert(meta_texts(
                meta,
                seq![
                    ("family_id"@, grant.family_id@),
                    ("access_jti"@, grant.access_claims.jti@),
                    ("refresh_jti"@, grant.refresh_claims.jti@),
                ],
            ));
        }
        Ok(grant)
    }
}

// ---------------------------------------------------------------------------
// Logout and revocation
// ---------------------------------------------------------------------------

/// Why a logout by `auth` presenting a refresh token with the given claims
/// is refused, if it is: the token must verify, be a refresh token, and
/// belong to the caller.
pub open spec fn logout_rejection(auth: AuthUser, claims: Option<Claims>) -> Option<ErrorView> {
    match claims {
        None => Some((ErrorKind::Unauthorized, "Invalid refresh token"@)),
        Some(c) => if c.typ != TokenType::Refresh {
            Some((ErrorKind::Unauthorized, "Refresh token required"@))
        } else if c.sub@ != uuid_text(auth.user_id) {
            Some((ErrorKind::Forbidden, "Cannot logout another session"@))
        } else {
            None
        },
    }
}

/// The revocation table `t` is `s` with every session family of account
/// `uid` (as the refresh records `records` name them) revoked at `now`.
pub open spec fn families_revoked(
    s: Seq<Revocation>,
    t: Seq<Revocation>,
    records: Seq<RefreshTokenRecord>,
    uid: u128,
    now: int,
) -> bool {
    &&& forall|f: Seq<char>| #[trigger] table_map(t).contains_key(f) <==> (table_map(s).contains_key(f) || user_family(records, uid, f))
    &&& forall|f: Seq<char>| #[trigger] user_family(records, uid, f) ==> table_map(t)[f].at == now
    &&& forall|f: Seq<char>| table_map(s).contains_key(f) && !user_family(records, uid, f) ==> #[trigger] table_map(t)[f] == table_map(s)[f]
}

/// Whether some refresh record of account `uid` belongs to family `f`.
pub open spec fn user_family(records: Seq<RefreshTokenRecord>, uid: u128, f: Seq<char>) -> bool {
    exists|i: int| 0 <= i < records.len() && records[i].user_id == uid && #[trigger] records[i].family_id@ == f
}

/// What `revoke` answers for `auth` and `p`, and whether it succeeds.
pub open spec fn revoke_rejection(auth: AuthUser, p: RevokeRequest) -> Option<ErrorView> {
    match p.family_id {
        Some(f) => if auth.claims.fid@ != f@ && auth.role != Role::Admin {
            Some((ErrorKind::Forbidden, "insufficient role"@))
        } else {
            None
        },
        None => match p.user_id {
            Some(u) => if auth.role != Role::Admin {
                Some((ErrorKind::Forbidden, "insufficient role"@))
            } else if uuid_parsed(u@) is None {
                Some((ErrorKind::BadRequest, "invalid user_id"@))
            } else {
                None
            },
            None => Some((ErrorKind::BadRequest, "family_id or user_id is required"@)),
        },
    }
}

/// What a logout by `auth` presenting the given refresh claims at `now`
/// answers, and how `s` becomes `t`: the token's family and the caller's
/// access token are revoked, and the logout is audited.
pub open spec fn logout_step(s: MemoryState, auth: AuthUser, claims: Option<Claims>, now: int, t: MemoryState, r: AppResult<GenericOkResponse>) -> bool {
    match logout_rejection(auth, claims) {
        Some(e) => fails_with(r, e) && only_changed(s, t, Set::empty()),
        None => {
            let fid = claims->0.fid@;
            &&& r matches Ok(ok) && ok.ok
            &&& revoked_at(s.revoked_token_families@, t.revoked_token_families@, fid, now)
            &&& revoked_at(s.revoked_access_jtis@, t.revoked_access_jtis@, auth.claims.jti@, now)
            &&& audit_appended(s.audit_logs@, t.audit_logs@, auth.wallet@, "auth.logout"@, Some(uuid_text(auth.user_id)), None, now)
            &&& meta_texts(t.audit_logs@.last().metadata@, seq![("family_id"@, fid)])
            &&& only_changed(s, t, set![Table::RevokedFamilies, Table::RevokedJtis, Table::AuditLogs])
        },
    }
}

/// What `revoke` by `auth` with `p` at `now` answers, and how `s` becomes
/// `t`: the named family is revoked, or every family of the named account.
pub open spec fn revoke_step(s: MemoryState, auth: AuthUser, p: RevokeRequest, now: int, t: MemoryState, r: AppResult<GenericOkResponse>) -> bool {
    match revoke_rejection(auth, p) {
        Some(e) => fails_with(r, e) && only_changed(s, t, Set::empty()),
        None => {
            &&& r matches Ok(ok) && ok.ok
            &&& only_changed(s, t, set![Table::RevokedFamilies])
            &&& match p.family_id {
                Some(f) => revoked_at(s.revoked_token_families@, t.revoked_token_families@, f@, now),
                None => families_revoked(
                    s.revoked_token_families@,
                    t.revoked_token_families@,
                    s.refresh_tokens@,
                    uuid_parsed(p.user_id->0@)->0,
                    now,
                ),
            }
        },
    }
}

impl MemoryState {
    /// Ends the session of the presented refresh token: its family and the
    /// caller's access token are revoked, and the logout is audited.
    pub fn logout(&mut self, auth: &AuthUser, claims: Option<Claims>, now: i64) -> (r: AppResult<GenericOkResponse>)
        requires
            old(self).wf(),
            chrono_instant(now as int),
        ensures
            final(self).wf(),
            logout_step(*old(self), *auth, claims, now as int, *final(self), r),
    {
        let c = match claims {
            None => {
                return Err(AppError::unauthorized("Invalid refresh token"));
            },
            Some(c) => c,
        };
        if c.typ != TokenType::Refresh {
            return Err(AppError::unauthorized("Refresh token required"));
        }
        let uid_text = uuid_to_string(auth.user_id);
        if c.sub != uid_text {
            return Err(AppError::forbidden("Cannot logout another session"));
        }
        Self::revoke_id(&mut self.revoked_token_families, &c.fid, now);
        Self::revoke_id(&mut self.revoked_access_jtis, &auth.claims.jti, now);
        let metadata = vec![meta_text("family_id", c.fid.as_str())];
        let ghost meta = metadata@;
        self.append_audit(auth.wallet.clone(), "auth.logout", Some(uid_text), None, metadata, now);
        proof {
            assert(meta_texts(meta, seq![("family_id"@, c.fid@)]));
        }
        Ok(GenericOkResponse { ok: true })
    }

    /// Revokes a session family (the caller's own, or any for an admin), or
    /// every session family of an account (admins only).
    pub fn revoke(&mut self, auth: &AuthUser, payload: &RevokeRequest, now: i64) -> (r: AppResult<GenericOkResponse>)
        requires
            old(self).wf(),
        ensures
            final(self).wf(),
            revoke_step(*old(self), *auth, *payload, now as int, *final(self), r),
    {
        if let Some(family_id) = &payload.family_id {
            if auth.claims.fid != *family_id {
                if let Err(e) = require_admin(auth) {
                    return Err(e);
                }
            }
            Self::revoke_id(&mut self.revoked_token_families, family_id, now);
            return Ok(GenericOkResponse { ok: true });
        }
        if let Some(user_id) = &payload.user_id {
            if let Err(e) = require_admin(auth) {
                return Err(e);
            }
            let uid = match parse_uuid(user_id.as_str()) {
                None => {
                    return Err(AppError::bad_request("invalid user_id"));
                },
                Some(u) => u,
            };
            let ghost s0 = self.revoked_token_families@;
            let ghost records = self.refresh_tokens@;
            let mut i: usize = 0;
            while i < self.refresh_tokens.len()
                invariant
                    self.refresh_tokens@ == records,
                    only_changed(*old(self), *self, set![Table::RevokedFamilies]),
                    old(self).revoked_token_families@ == s0,
                    unique_keys(self.revoked_token_families@),
                    i <= records.len(),
                    families_revoked(s0, self.revoked_token_families@, records.take(i as int), uid, now as int),
                decreases records.len() - i,
            {
                let ghost before = self.revoked_token_families@;
                if self.refresh_tokens[i].user_id == uid {
                    let fid = self.refresh_tokens[i].family_id.clone();
                    Self::revoke_id(&mut self.revoked_token_families, &fid, now);
                }
                proof {
                    let pre = records.take(i as int);
                    let post = records.take(i + 1);
                    assert forall|f: Seq<char>| user_family(post, uid, f) <==> (user_family(pre, uid, f) || (
                    records[i as int].user_id == uid && records[i as int].family_id@ == f)) by {
                        if user_family(post, uid, f) {
                            let j = choose|j: int| 0 <= j < post.len() && post[j].user_id == uid && #[trigger] post[j].family_id@ == f;
                            if j < i {
                                assert(pre[j] == post[j]);
                            }
                        }
                        if user_family(pre, uid, f) {
                            let j = choose|j: int| 0 <= j < pre.len() && pre[j].user_id == uid && #[trigger] pre[j].family_id@ == f;
                            assert(post[j] == pre[j]);
                        }
                        if records[i as int].user_id == uid && records[i as int].family_id@ == f {
                            assert(post[i as int] == records[i as int]);
                        }
                    }
                }
                i = i + 1;
            }
            proof {
                assert(records.take(records.len() as int) =~= records);
            }
            return Ok(GenericOkResponse { ok: true });
        }
        Err(AppError::bad_request("family_id or user_id is required"))
    }

    /// The caller's own account.
    pub fn me(&self, auth: &AuthUser) -> (r: AppResult<MeResponse>)
        requires
            self.wf(),
        ensures
            !table_map(self.users@).contains_key(auth.user_id) ==> fails_with(r, (ErrorKind::NotFound, "user not found"@)),
            table_map(self.users@).contains_key(auth.user_id) ==> {
                let u = table_map(self.users@)[auth.user_id];
                r matches Ok(m) && m.id@ == uuid_text(u.id) && m.wallet_address == u.wallet_address && m.role == u.role
                    && m.created_at@ == rfc3339_text(u.created_at)
            },
    {
        let idx = match find_index(&self.users, &auth.user_id) {
            None => {
                return Err(AppError::not_found("user not found"));
            },
            Some(i) => i,
        };
        proof {
            lemma_table_map_at(self.users@, idx as int);
        }
        let u = &self.users[idx];
        Ok(MeResponse {
            id: uuid_to_string(u.id),
            wallet_address: u.wallet_address.clone(),
            role: u.role,
            created_at: format_rfc3339(u.created_at),
        })
    }
}

// ---------------------------------------------------------------------------
// Laws
// ---------------------------------------------------------------------------

/// A refresh token is exchanged at most once. Once the claims `c` have been
/// exchanged (state `s0` to `s1`), presenting them again before the token
/// lapses is refused as reuse and revokes the whole session family (`s1` to
/// `s2`); from then on the refresh token the first exchange issued is refused
/// because its session is revoked, and so is the access token it issued.
/// (Assumed: the exchange did not draw the presented token's own id for the
/// new refresh token.)
pub proof fn law_refresh_reuse_revokes_family(
    s0: MemoryState,
    c: Claims,
    t1: int,
    s1: MemoryState,
    r1: AppResult<SessionGrant>,
    t2: int,
    s2: MemoryState,
    r2: AppResult<SessionGrant>,
    t3: int,
)
    requires
        refresh_step(s0, Some(c), t1, s1, r1),
        r1 matches Ok(g) && g.refresh_claims.jti@ != c.jti@,
        t2 <= table_map(s0.refresh_tokens@)[c.jti@].expires_at,
        refresh_step(s1, Some(c), t2, s2, r2),
    ensures
        fails_with(r2, reuse_error()),
        has_key_in(s2.revoked_token_families@, r1->Ok_0.family_id@),
        refresh_rejection(s2, Some(r1->Ok_0.refresh_claims), t3) == Some(
            (ErrorKind::Unauthorized, "Session revoked"@),
        ),
        admission(s2, Some(r1->Ok_0.access_claims)) is Err,
{
    let g = r1->Ok_0;
    let rec = table_map(s0.refresh_tokens@)[c.jti@];
    assert(refresh_rejection(s0, Some(c), t1) is None);
    let m = marked_used(s0, c.jti@);
    assert(table_map(s1.refresh_tokens@)[c.jti@] == m[c.jti@]);
    assert(reuse_detected(s1, Some(c), t2));
    assert(table_map(s2.revoked_token_families@).contains_key(g.family_id@));
}

/// Logging out ends the session: afterwards every refresh token of the
/// family is refused because the session is revoked, and the access token
/// used to log out is refused because it is revoked.
pub proof fn law_logout_ends_session(
    s0: MemoryState,
    auth: AuthUser,
    c: Claims,
    now: int,
    s1: MemoryState,
    r: AppResult<GenericOkResponse>,
    later: Claims,
    t: int,
)
    requires
        logout_step(s0, auth, Some(c), now, s1, r),
        r is Ok,
        later.typ == TokenType::Refresh,
        later.fid@ == c.fid@,
        auth.claims.typ == TokenType::Access,
    ensures
        refresh_rejection(s1, Some(later), t) == Some((ErrorKind::Unauthorized, "Session revoked"@)),
        admission(s1, Some(auth.claims)) == Err::<(u128, Role), ErrorView>((ErrorKind::Unauthorized, "Token revoked"@)),
{
    assert(table_map(s1.revoked_token_families@).contains_key(c.fid@));
    assert(table_map(s1.revoked_access_jtis@).contains_key(auth.claims.jti@));
}

/// After a session family is revoked, no access token of the family is
/// admitted and no refresh token of it is exchanged.
pub proof fn law_revoked_family_is_refused(
    s0: MemoryState,
    auth: AuthUser,
    p: RevokeRequest,
    now: int,
    s1: MemoryState,
    r: AppResult<GenericOkResponse>,
    access: Claims,
    refresh: Claims,
    t: int,
)
    requires
        revoke_step(s0, auth, p, now, s1, r),
        r is Ok,
        p.family_id is Some,
        access.fid@ == p.family_id->0@,
        refresh.fid@ == p.family_id->0@,
        refresh.typ == TokenType::Refresh,
    ensures
        admission(s1, Some(access)) is Err,
        refresh_rejection(s1, Some(refresh), t) == Some((ErrorKind::Unauthorized, "Session revoked"@)),
{
    assert(table_map(s1.revoked_token_families@).contains_key(p.family_id->0@));
}

/// Revoking an account's sessions revokes the family of every refresh token
/// recorded for it: none of them can be exchanged afterwards.
pub proof fn law_revoked_account_sessions_are_refused(
    s0: MemoryState,
    auth: AuthUser,
    p: RevokeRequest,
    now: int,
    s1: MemoryState,
    r: AppResult<GenericOkResponse>,
    refresh: Claims,
    t: int,
)
    requires
        revoke_step(s0, auth, p, now, s1, r),
        r is Ok,
        p.family_id is None,
        refresh.typ == TokenType::Refresh,
        table_map(s0.refresh_tokens@).contains_key(refresh.jti@),
        uuid_parsed(p.user_id->0@) == Some(table_map(s0.refresh_tokens@)[refresh.jti@].user_id),
        table_map(s0.refresh_tokens@)[refresh.jti@].family_id@ == refresh.fid@,
    ensures
        refresh_rejection(s1, Some(refresh), t) == Some((ErrorKind::Unauthorized, "Session revoked"@)),
{
    let recs = s0.refresh_tokens@;
    let uid = table_map(recs)[refresh.jti@].user_id;
    let j = choose|j: int| 0 <= j < recs.len() && #[trigger] recs[j].key() == refresh.jti@;
    assert(table_map(recs)[refresh.jti@] == recs[j]);
    assert(user_family(recs, uid, refresh.fid@));
    assert(table_map(s1.revoked_token_families@).contains_key(refresh.fid@));
}

/// A login challenge is good for one login: once a login through it has
/// been accepted, every further login with the same challenge id is refused.
pub proof fn law_challenge_single_use(
    s0: MemoryState,
    p: VerifyRequest,
    now: int,
    s1: MemoryState,
    r: AppResult<SessionGrant>,
    again: VerifyRequest,
    later: int,
)
    requires
        login_rejection(s0, p, now) is None,
        login_accepted(s0, p, now, s1, r),
        again.challenge_id@ == p.challenge_id@,
    ensures
        login_rejection(s1, again, later) == Some((ErrorKind::Unauthorized, "challenge already used"@)),
{
    let id = uuid_parsed(p.challenge_id@)->0;
    assert(table_map(s1.auth_challenges@).contains_key(id));
}

/// A refused login changes nothing: the challenge stays as it was (unused
/// if it was), so any later login through it is judged exactly as it would
/// have been before the refused one.
pub proof fn law_refused_login_keeps_challenge(
    s0: MemoryState,
    p: VerifyRequest,
    now: int,
    s1: MemoryState,
    r: AppResult<SessionGrant>,
    again: VerifyRequest,
    later: int,
)
    requires
        login_rejection(s0, p, now) is Some,
        fails_with(r, login_rejection(s0, p, now)->Some_0),
        only_changed(s0, s1, Set::empty()),
    ensures
        table_map(s1.auth_challenges@) == table_map(s0.auth_challenges@),
        login_rejection(s1, again, later) == login_rejection(s0, again, later),
{
    assert(s1.auth_challenges@ == s0.auth_challenges@);
}

} // verus!
