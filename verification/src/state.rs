//! The in-memory state of the service: users, login challenges, refresh
//! sessions, revocations, categories, expenses, the idempotency cache and the
//! audit log; and the sweep that drops what has expired.
use vstd::prelude::*;
use crate::model::{AppConfig, ExpenseStatus, Role};
use crate::primitives::{chrono_instant, new_uuid};
use crate::table::{lemma_filter_unique, unique_keys, Keyed};

verus! {

/// A value of audit metadata.
#[derive(Debug, PartialEq, Eq)]
pub enum MetaValue {
    Text(String),
    Int(i64),
    UInt(u64),
    Bool(bool),
    Null,
}

/// One field of audit metadata.
#[derive(Debug, PartialEq, Eq)]
pub struct MetaField {
    pub key: String,
    pub value: MetaValue,
}

/// A registered account.
#[derive(Debug, PartialEq, Eq)]
pub struct User {
    pub id: u128,
    pub wallet_address: String,
    pub role: Role,
    /// Microseconds since the Unix epoch.
    pub created_at: i64,
}

/// The account id registered for a wallet.
#[derive(Debug, PartialEq, Eq)]
pub struct WalletEntry {
    pub wallet: String,
    pub user_id: u128,
}

/// A login challenge handed to a wallet.
#[derive(Debug, PartialEq, Eq)]
pub struct AuthChallenge {
    pub challenge_id: u128,
    pub wallet_address: String,
    pub nonce: String,
    /// The text the wallet must sign.
    pub message: String,
    /// Microseconds since the Unix epoch.
    pub expires_at: i64,
    pub used: bool,
}

/// A refresh token that was handed out.
#[derive(Debug, PartialEq, Eq)]
pub struct RefreshTokenRecord {
    pub jti: String,
    pub family_id: String,
    pub user_id: u128,
    /// Microseconds since the Unix epoch.
    pub expires_at: i64,
    pub used: bool,
    pub revoked: bool,
}

/// A revoked session family or access token id, with the time of
/// revocation (microseconds since the Unix epoch).
#[derive(Debug, PartialEq, Eq)]
pub struct Revocation {
    pub id: String,
    pub at: i64,
}

/// A category of expenses.
#[derive(Debug, PartialEq, Eq)]
pub struct Category {
    pub id: u128,
    pub owner_user_id: u128,
    pub name: String,
    pub created_at: i64,
}

/// An expense as the read model holds it.
#[derive(Debug, PartialEq, Eq)]
pub struct Expense {
    pub id: u128,
    pub owner_user_id: u128,
    pub category_id: u128,
    pub amount_minor: i64,
    pub currency: String,
    pub status: ExpenseStatus,
    pub tx_hash: Option<String>,
    pub occurred_at: i64,
    pub created_at: i64,
}

/// An entry of the audit log.
#[derive(Debug, PartialEq, Eq)]
pub struct AuditLog {
    pub id: u128,
    pub actor_wallet: String,
    pub action: String,
    pub target_id: Option<String>,
    pub tx_hash: Option<String>,
    pub metadata: Vec<MetaField>,
    pub created_at: i64,
}

impl Clone for MetaValue {
    fn clone(&self) -> (r: Self)
        ensures
            r == *self,
    {
        match self {
            MetaValue::Text(t) => MetaValue::Text(t.clone()),
            MetaValue::Int(i) => MetaValue::Int(*i),
            MetaValue::UInt(u) => MetaValue::UInt(*u),
            MetaValue::Bool(b) => MetaValue::Bool(*b),
            MetaValue::Null => MetaValue::Null,
        }
    }
}

impl Clone for MetaField {
    fn clone(&self) -> (r: Self)
        ensures
            r == *self,
    {
        MetaField { key: self.key.clone(), value: self.value.clone() }
    }
}

/// A copy of audit metadata.
pub(crate) fn clone_meta(m: &Vec<MetaField>) -> (r: Vec<MetaField>)
    ensures
        r@ == m@,
{
    let mut r: Vec<MetaField> = Vec::new();
    let mut i: usize = 0;
    while i < m.len()
        invariant
            i <= m@.len(),
            r@ == m@.take(i as int),
        decreases m@.len() - i,
    {
        r.push(m[i].clone());
        proof {
            assert(r@ =~= m@.take(i + 1));
        }
        i = i + 1;
    }
    proof {
        assert(m@.take(m@.len() as int) =~= m@);
    }
    r
}

pub(crate) fn clone_opt(o: &Option<String>) -> (r: Option<String>)
    ensures
        r == *o,
{
    match o {
        Some(s) => Some(s.clone()),
        None => None,
    }
}

impl Clone for User {
    fn clone(&self) -> (r: Self)
        ensures
            r == *self,
    {
        User { id: self.id, wallet_address: self.wallet_address.clone(), role: self.role, created_at: self.created_at }
    }
}

impl Clone for AuthChallenge {
    fn clone(&self) -> (r: Self)
        ensures
            r == *self,
    {
        AuthChallenge {
            challenge_id: self.challenge_id,
            wallet_address: self.wallet_address.clone(),
            nonce: self.nonce.clone(),
            message: self.message.clone(),
            expires_at: self.expires_at,
            used: self.used,
        }
    }
}

impl Clone for RefreshTokenRecord {
    fn clone(&self) -> (r: Self)
        ensures
            r == *self,
    {
        RefreshTokenRecord {
            jti: self.jti.clone(),
            family_id: self.family_id.clone(),
            user_id: self.user_id,
            expires_at: self.expires_at,
            used: self.used,
            revoked: self.revoked,
        }
    }
}

impl Clone for Revocation {
    fn clone(&self) -> (r: Self)
        ensures
            r == *self,
    {
        Revocation { id: self.id.clone(), at: self.at }
    }
}

impl Clone for Category {
    fn clone(&self) -> (r: Self)
        ensures
            r == *self,
    {
        Category { id: self.id, owner_user_id: self.owner_user_id, name: self.name.clone(), created_at: self.created_at }
    }
}

impl Clone for Expense {
    fn clone(&self) -> (r: Self)
        ensures
            r == *self,
    {
        Expense {
            id: self.id,
            owner_user_id: self.owner_user_id,
            category_id: self.category_id,
            amount_minor: self.amount_minor,
            currency: self.currency.clone(),
            status: self.status,
            tx_hash: clone_opt(&self.tx_hash),
            occurred_at: self.occurred_at,
            created_at: self.created_at,
        }
    }
}

impl Keyed for User {
    type Key = u128;

    open spec fn key(&self) -> u128 {
        self.id
    }

    fn has_key(&self, k: &u128) -> (r: bool) {
        self.id == *k
    }
}

impl Keyed for WalletEntry {
    type Key = String;

    open spec fn key(&self) -> Seq<char> {
        self.wallet@
    }

    fn has_key(&self, k: &String) -> (r: bool) {
        self.wallet == *k
    }
}

impl Keyed for AuthChallenge {
    type Key = u128;

    open spec fn key(&self) -> u128 {
        self.challenge_id
    }

    fn has_key(&self, k: &u128) -> (r: bool) {
        self.challenge_id == *k
    }
}

impl Keyed for RefreshTokenRecord {
    type Key = String;

    open spec fn key(&self) -> Seq<char> {
        self.jti@
    }

    fn has_key(&self, k: &String) -> (r: bool) {
        self.jti == *k
    }
}

impl Keyed for Revocation {
    type Key = String;

    open spec fn key(&self) -> Seq<char> {
        self.id@
    }

    fn has_key(&self, k: &String) -> (r: bool) {
        self.id == *k
    }
}

impl Keyed for Category {
    type Key = u128;

    open spec fn key(&self) -> u128 {
        self.id
    }

    fn has_key(&self, k: &u128) -> (r: bool) {
        self.id == *k
    }
}

impl Keyed for Expense {
    type Key = u128;

    open spec fn key(&self) -> u128 {
        self.id
    }

    fn has_key(&self, k: &u128) -> (r: bool) {
        self.id == *k
    }
}

/// The in-memory state of the service. Each table holds at most one record
/// per key.
pub struct MemoryState {
    pub config: AppConfig,
    pub users: Vec<User>,
    pub users_by_wallet: Vec<WalletEntry>,
    pub categories: Vec<Category>,
    pub expenses: Vec<Expense>,
    pub auth_challenges: Vec<AuthChallenge>,
    pub refresh_tokens: Vec<RefreshTokenRecord>,
    pub revoked_token_families: Vec<Revocation>,
    pub revoked_access_jtis: Vec<Revocation>,
    pub idempotency: Vec<crate::ledger::IdempotencyEntry>,
    pub audit_logs: Vec<AuditLog>,
}

impl MemoryState {
    /// Each table holds at most one record per key, and every stored expense
    /// has a positive amount.
    pub open spec fn wf(&self) -> bool {
        &&& unique_keys(self.users@)
        &&& unique_keys(self.users_by_wallet@)
        &&& unique_keys(self.categories@)
        &&& unique_keys(self.expenses@)
        &&& unique_keys(self.auth_challenges@)
        &&& unique_keys(self.refresh_tokens@)
        &&& unique_keys(self.revoked_token_families@)
        &&& unique_keys(self.revoked_access_jtis@)
        &&& unique_keys(self.idempotency@)
        &&& forall|i: int| 0 <= i < self.expenses@.len() ==> #[trigger] self.expenses@[i].amount_minor > 0
        &&& forall|i: int| 0 <= i < self.expenses@.len() ==> chrono_instant(#[trigger] self.expenses@[i].occurred_at as int)
            && chrono_instant(self.expenses@[i].created_at as int)
        &&& forall|i: int| 0 <= i < self.users@.len() ==> chrono_instant(#[trigger] self.users@[i].created_at as int)
        &&& forall|i: int| 0 <= i < self.categories@.len() ==> chrono_instant(#[trigger] self.categories@[i].created_at as int)
        &&& forall|i: int| 0 <= i < self.audit_logs@.len() ==> chrono_instant(#[trigger] self.audit_logs@[i].created_at as int)
    }

    /// An empty state with the given settings.
    pub fn new(config: AppConfig) -> (s: Self)
        ensures
            s.wf(),
            s.config == config,
            s.users@.len() == 0,
            s.users_by_wallet@.len() == 0,
            s.categories@.len() == 0,
            s.expenses@.len() == 0,
            s.auth_challenges@.len() == 0,
            s.refresh_tokens@.len() == 0,
            s.revoked_token_families@.len() == 0,
            s.revoked_access_jtis@.len() == 0,
            s.idempotency@.len() == 0,
            s.audit_logs@.len() == 0,
    {
        MemoryState {
            config,
            users: Vec::new(),
            users_by_wallet: Vec::new(),
            categories: Vec::new(),
            expenses: Vec::new(),
            auth_challenges: Vec::new(),
            refresh_tokens: Vec::new(),
            revoked_token_families: Vec::new(),
            revoked_access_jtis: Vec::new(),
            idempotency: Vec::new(),
            audit_logs: Vec::new(),
        }
    }
}

/// The tables of the state.
pub enum Table {
    Users,
    Wallets,
    Categories,
    Expenses,
    Challenges,
    RefreshTokens,
    RevokedFamilies,
    RevokedJtis,
    Idempotency,
    AuditLogs,
}

/// `b` has `a`'s settings, and every table not in `changed` is as in `a`.
pub open spec fn only_changed(a: MemoryState, b: MemoryState, changed: Set<Table>) -> bool {
    &&& b.config == a.config
    &&& (!changed.contains(Table::Users) ==> b.users@ == a.users@)
    &&& (!changed.contains(Table::Wallets) ==> b.users_by_wallet@ == a.users_by_wallet@)
    &&& (!changed.contains(Table::Categories) ==> b.categories@ == a.categories@)
    &&& (!changed.contains(Table::Expenses) ==> b.expenses@ == a.expenses@)
    &&& (!changed.contains(Table::Challenges) ==> b.auth_challenges@ == a.auth_challenges@)
    &&& (!changed.contains(Table::RefreshTokens) ==> b.refresh_tokens@ == a.refresh_tokens@)
    &&& (!changed.contains(Table::RevokedFamilies) ==> b.revoked_token_families@ == a.revoked_token_families@)
    &&& (!changed.contains(Table::RevokedJtis) ==> b.revoked_access_jtis@ == a.revoked_access_jtis@)
    &&& (!changed.contains(Table::Idempotency) ==> b.idempotency@ == a.idempotency@)
    &&& (!changed.contains(Table::AuditLogs) ==> b.audit_logs@ == a.audit_logs@)
}

/// The text of an optional string.
pub open spec fn opt_text(o: Option<String>) -> Option<Seq<char>> {
    match o {
        Some(s) => Some(s@),
        None => None,
    }
}

/// `m` holds exactly the text fields `kv`, in order.
pub open spec fn meta_texts(m: Seq<MetaField>, kv: Seq<(Seq<char>, Seq<char>)>) -> bool {
    &&& m.len() == kv.len()
    &&& forall|i: int|
        0 <= i < m.len() ==> (#[trigger] m[i]).key@ == kv[i].0 && match m[i].value {
            MetaValue::Text(v) => v@ == kv[i].1,
            _ => false,
        }
}

/// `t` is the log `s` with one entry appended: by `actor`, of `action`, on
/// `target`, with transaction `tx`, at `now`.
pub open spec fn audit_appended(
    s: Seq<AuditLog>,
    t: Seq<AuditLog>,
    actor: Seq<char>,
    action: Seq<char>,
    target: Option<Seq<char>>,
    tx: Option<Seq<char>>,
    now: int,
) -> bool {
    &&& t.len() == s.len() + 1
    &&& t.take(s.len() as int) == s
    &&& t.last().actor_wallet@ == actor
    &&& t.last().action@ == action
    &&& opt_text(t.last().target_id) == target
    &&& opt_text(t.last().tx_hash) == tx
    &&& t.last().created_at == now
}

impl MemoryState {
    /// Appends an entry, with a fresh random id, to the audit log.
    pub(crate) fn append_audit(
        &mut self,
        actor_wallet: String,
        action: &str,
        target_id: Option<String>,
        tx_hash: Option<String>,
        metadata: Vec<MetaField>,
        now: i64,
    )
        requires
            old(self).wf(),
            chrono_instant(now as int),
        ensures
            final(self).wf(),
            only_changed(*old(self), *final(self), set![Table::AuditLogs]),
            audit_appended(
                old(self).audit_logs@,
                final(self).audit_logs@,
                actor_wallet@,
                action@,
                opt_text(target_id),
                opt_text(tx_hash),
                now as int,
            ),
            final(self).audit_logs@.last().metadata@ == metadata@,
    {
        let entry = AuditLog {
            id: new_uuid(),
            actor_wallet,
            action: action.to_owned(),
            target_id,
            tx_hash,
            metadata,
            created_at: now,
        };
        self.audit_logs.push(entry);
        proof {
            assert(self.audit_logs@.take(old(self).audit_logs@.len() as int) =~= old(self).audit_logs@);
        }
    }

    /// Whether the sweep at `now` is defined (see `sweep_defined`).
    pub fn sweep_is_defined(&self, now: i64) -> (r: bool)
        ensures
            r == self.sweep_defined(now as int),
    {
        let lo: i128 = -8334601315200000000;
        let hi: i128 = 8210266876799999999;
        let cfg = &self.config;
        let ok_secs = |x: i64| -> (b: bool)
            ensures
                b == duration_secs_ok(x as int),
            { -9223372036854775 <= x && x <= 9223372036854775 };
        if !(ok_secs(cfg.used_challenge_retention_seconds) && ok_secs(cfg.used_refresh_retention_seconds)
            && ok_secs(cfg.revoked_access_retention_seconds) && ok_secs(cfg.revoked_family_retention_seconds)) {
            return false;
        }
        let ch_ret = micros_of_secs(cfg.used_challenge_retention_seconds);
        let rf_ret = micros_of_secs(cfg.used_refresh_retention_seconds);
        let ac_ret = micros_of_secs(cfg.revoked_access_retention_seconds);
        let fa_ret = micros_of_secs(cfg.revoked_family_retention_seconds);
        let now_w = now as i128;
        let mut i: usize = 0;
        while i < self.auth_challenges.len()
            invariant
                i <= self.auth_challenges@.len(),
                ch_ret == self.config.used_challenge_retention_seconds * 1_000_000,
                duration_secs_ok(self.config.used_challenge_retention_seconds as int),
                lo == crate::primitives::chrono_min_micros(),
                hi == crate::primitives::chrono_max_micros(),
                now_w == now,
                forall|j: int| 0 <= j < i && !(self.auth_challenges@[j].expires_at < now) && #[trigger] self.auth_challenges@[j].used
                    ==> chrono_instant(self.auth_challenges@[j].expires_at + self.config.used_challenge_retention_seconds * 1_000_000),
            decreases self.auth_challenges@.len() - i,
        {
            let c = &self.auth_challenges[i];
            if !((c.expires_at as i128) < now_w) && c.used {
                let t = (c.expires_at as i128) + ch_ret;
                if t < lo || t > hi {
                    return false;
                }
            }
            i = i + 1;
        }
        let mut i: usize = 0;
        while i < self.refresh_tokens.len()
            invariant
                i <= self.refresh_tokens@.len(),
                rf_ret == self.config.used_refresh_retention_seconds * 1_000_000,
                duration_secs_ok(self.config.used_refresh_retention_seconds as int),
                lo == crate::primitives::chrono_min_micros(),
                hi == crate::primitives::chrono_max_micros(),
                now_w == now,
                forall|j: int| #![trigger self.refresh_tokens@[j]] 0 <= j < i && !(self.refresh_tokens@[j].expires_at < now)
                    && (self.refresh_tokens@[j].used || self.refresh_tokens@[j].revoked)
                    ==> chrono_instant(self.refresh_tokens@[j].expires_at + self.config.used_refresh_retention_seconds * 1_000_000),
            decreases self.refresh_tokens@.len() - i,
        {
            let r = &self.refresh_tokens[i];
            if !((r.expires_at as i128) < now_w) && (r.used || r.revoked) {
                let t = (r.expires_at as i128) + rf_ret;
                if t < lo || t > hi {
                    return false;
                }
            }
            i = i + 1;
        }
        let mut i: usize = 0;
        while i < self.revoked_access_jtis.len()
            invariant
                i <= self.revoked_access_jtis@.len(),
                ac_ret == self.config.revoked_access_retention_seconds * 1_000_000,
                duration_secs_ok(self.config.revoked_access_retention_seconds as int),
                lo == crate::primitives::chrono_min_micros(),
                hi == crate::primitives::chrono_max_micros(),
                forall|j: int| 0 <= j < i ==> chrono_instant(
                    #[trigger] self.revoked_access_jtis@[j].at + self.config.revoked_access_retention_seconds * 1_000_000,
                ),
            decreases self.revoked_access_jtis@.len() - i,
        {
            let t = (self.revoked_access_jtis[i].at as i128) + ac_ret;
            if t < lo || t > hi {
                return false;
            }
            i = i + 1;
        }
        let mut i: usize = 0;
        while i < self.revoked_token_families.len()
            invariant
                i <= self.revoked_token_families@.len(),
                fa_ret == self.config.revoked_family_retention_seconds * 1_000_000,
                duration_secs_ok(self.config.revoked_family_retention_seconds as int),
                lo == crate::primitives::chrono_min_micros(),
                hi == crate::primitives::chrono_max_micros(),
                forall|j: int| 0 <= j < i ==> chrono_instant(
                    #[trigger] self.revoked_token_families@[j].at + self.config.revoked_family_retention_seconds * 1_000_000,
                ),
            decreases self.revoked_token_families@.len() - i,
        {
            let t = (self.revoked_token_families[i].at as i128) + fa_ret;
            if t < lo || t > hi {
                return false;
            }
            i = i + 1;
        }
        true
    }
}

/// Whether `secs` seconds is a duration that `chrono::Duration::seconds`
/// accepts.
pub open spec fn duration_secs_ok(secs: int) -> bool {
    -9223372036854775 <= secs <= 9223372036854775
}

/// Whether a challenge survives a sweep at `now`: it has not expired, and if
/// used, its expiry plus the retention for used challenges has not passed.
pub open spec fn challenge_kept(c: AuthChallenge, now: int, retention_secs: int) -> bool {
    !(c.expires_at < now) && !(c.used && c.expires_at + retention_secs * 1_000_000 < now)
}

/// Whether a refresh record survives a sweep at `now`: it has not expired,
/// and if used or revoked, its expiry plus the retention has not passed.
pub open spec fn refresh_kept(r: RefreshTokenRecord, now: int, retention_secs: int) -> bool {
    !(r.expires_at < now) && !((r.used || r.revoked) && r.expires_at + retention_secs * 1_000_000 < now)
}

/// Whether a revocation survives a sweep at `now`: its time plus the
/// retention has not passed.
pub open spec fn revocation_kept(x: Revocation, now: int, retention_secs: int) -> bool {
    x.at + retention_secs * 1_000_000 >= now
}

fn micros_of_secs(secs: i64) -> (r: i128)
    ensures
        r == secs * 1_000_000,
{
    (secs as i128) * 1_000_000
}

/// `t` is `s` swept at `now`: expired challenges and refresh records, used
/// or revoked ones past their retention, and revocations past theirs are
/// dropped; everything else stays, in order.
pub open spec fn swept(s: MemoryState, t: MemoryState, now: int) -> bool {
    &&& t.auth_challenges@ == s.auth_challenges@.filter(
        |c: AuthChallenge| challenge_kept(c, now, s.config.used_challenge_retention_seconds as int),
    )
    &&& t.refresh_tokens@ == s.refresh_tokens@.filter(
        |r: RefreshTokenRecord| refresh_kept(r, now, s.config.used_refresh_retention_seconds as int),
    )
    &&& t.revoked_access_jtis@ == s.revoked_access_jtis@.filter(
        |x: Revocation| revocation_kept(x, now, s.config.revoked_access_retention_seconds as int),
    )
    &&& t.revoked_token_families@ == s.revoked_token_families@.filter(
        |x: Revocation| revocation_kept(x, now, s.config.revoked_family_retention_seconds as int),
    )
    &&& only_changed(s, t, set![Table::Challenges, Table::RefreshTokens, Table::RevokedJtis, Table::RevokedFamilies])
}

/// After a sweep at `now` no challenge or refresh record that lapsed before
/// `now` remains, and every one that has not lapsed and was never used (nor,
/// for refresh records, revoked) is still there.
pub proof fn law_sweep_drops_exactly_the_expired(s: MemoryState, now: int, t: MemoryState)
    requires
        swept(s, t, now),
    ensures
        forall|i: int| 0 <= i < t.auth_challenges@.len() ==> #[trigger] t.auth_challenges@[i].expires_at >= now,
        forall|i: int| 0 <= i < t.refresh_tokens@.len() ==> #[trigger] t.refresh_tokens@[i].expires_at >= now,
        forall|c: AuthChallenge|
            s.auth_challenges@.contains(c) && c.expires_at >= now && !c.used ==> #[trigger] t.auth_challenges@.contains(c),
        forall|r: RefreshTokenRecord|
            s.refresh_tokens@.contains(r) && r.expires_at >= now && !r.used && !r.revoked ==> #[trigger] t.refresh_tokens@.contains(r),
{
    let pc = |c: AuthChallenge| challenge_kept(c, now, s.config.used_challenge_retention_seconds as int);
    let pr = |r: RefreshTokenRecord| refresh_kept(r, now, s.config.used_refresh_retention_seconds as int);
    assert forall|i: int| 0 <= i < t.auth_challenges@.len() implies #[trigger] t.auth_challenges@[i].expires_at >= now by {
        assert(pc(s.auth_challenges@.filter(pc)[i]));
    }
    assert forall|i: int| 0 <= i < t.refresh_tokens@.len() implies #[trigger] t.refresh_tokens@[i].expires_at >= now by {
        assert(pr(s.refresh_tokens@.filter(pr)[i]));
    }
    assert forall|c: AuthChallenge| s.auth_challenges@.contains(c) && c.expires_at >= now && !c.used implies #[trigger] t.auth_challenges@.contains(c) by {
        assert(pc(c));
    }
    assert forall|r: RefreshTokenRecord| s.refresh_tokens@.contains(r) && r.expires_at >= now && !r.used && !r.revoked implies #[trigger] t.refresh_tokens@.contains(r) by {
        assert(pr(r));
    }
}

impl MemoryState {
    /// The sweep at `now` computes only instants that chrono represents
    /// (chrono's date arithmetic panics beyond them): the retention durations
    /// are valid, and each sum of an expiry or revocation time and a
    /// retention that the sweep evaluates is an instant.
    pub open spec fn sweep_defined(&self, now: int) -> bool {
        &&& duration_secs_ok(self.config.used_challenge_retention_seconds as int)
        &&& duration_secs_ok(self.config.used_refresh_retention_seconds as int)
        &&& duration_secs_ok(self.config.revoked_access_retention_seconds as int)
        &&& duration_secs_ok(self.config.revoked_family_retention_seconds as int)
        &&& forall|i: int| 0 <= i < self.auth_challenges@.len() && !(self.auth_challenges@[i].expires_at < now)
            && #[trigger] self.auth_challenges@[i].used ==> chrono_instant(
            self.auth_challenges@[i].expires_at + self.config.used_challenge_retention_seconds * 1_000_000,
        )
        &&& forall|i: int| #![trigger self.refresh_tokens@[i]] 0 <= i < self.refresh_tokens@.len() && !(self.refresh_tokens@[i].expires_at < now)
            && (self.refresh_tokens@[i].used || self.refresh_tokens@[i].revoked)
            ==> chrono_instant(
            self.refresh_tokens@[i].expires_at + self.config.used_refresh_retention_seconds * 1_000_000,
        )
        &&& forall|i: int| 0 <= i < self.revoked_access_jtis@.len() ==> chrono_instant(
            #[trigger] self.revoked_access_jtis@[i].at + self.config.revoked_access_retention_seconds * 1_000_000,
        )
        &&& forall|i: int| 0 <= i < self.revoked_token_families@.len() ==> chrono_instant(
            #[trigger] self.revoked_token_families@[i].at + self.config.revoked_family_retention_seconds * 1_000_000,
        )
    }

    /// Drops expired challenges and refresh records, used or revoked ones
    /// past their retention, and revocations past theirs; everything else
    /// stays, in order.
    pub fn cleanup_expired(&mut self, now: i64)
        requires
            old(self).wf(),
            old(self).sweep_defined(now as int),
        ensures
            final(self).wf(),
            swept(*old(self), *final(self), now as int),
    {
        let ch_ret = micros_of_secs(self.config.used_challenge_retention_seconds);
        let rf_ret = micros_of_secs(self.config.used_refresh_retention_seconds);
        let ac_ret = micros_of_secs(self.config.revoked_access_retention_seconds);
        let fa_ret = micros_of_secs(self.config.revoked_family_retention_seconds);
        let now_w = now as i128;

        let ghost old_ch = self.auth_challenges@;
        let mut kept_ch: Vec<AuthChallenge> = Vec::new();
        let mut i: usize = 0;
        while i < self.auth_challenges.len()
            invariant
                self.auth_challenges@ == old_ch,
                i <= old_ch.len(),
                ch_ret == self.config.used_challenge_retention_seconds * 1_000_000,
                now_w == now,
                kept_ch@ == old_ch.subrange(0, i as int).filter(
                    |c: AuthChallenge| challenge_kept(c, now as int, self.config.used_challenge_retention_seconds as int),
                ),
            decreases old_ch.len() - i,
        {
            let c = &self.auth_challenges[i];
            let keep = !((c.expires_at as i128) < now_w) && !(c.used && (c.expires_at as i128) + ch_ret < now_w);
            if keep {
                kept_ch.push(c.clone());
            }
            proof {
                reveal(Seq::filter);
                assert(old_ch.subrange(0, i + 1).drop_last() =~= old_ch.subrange(0, i as int));
            }
            i = i + 1;
        }
        proof {
            assert(old_ch.subrange(0, old_ch.len() as int) =~= old_ch);
            lemma_filter_unique(old_ch, |c: AuthChallenge| challenge_kept(c, now as int, self.config.used_challenge_retention_seconds as int));
        }
        self.auth_challenges = kept_ch;

        let ghost old_rf = self.refresh_tokens@;
        let mut kept_rf: Vec<RefreshTokenRecord> = Vec::new();
        let mut i: usize = 0;
        while i < self.refresh_tokens.len()
            invariant
                self.refresh_tokens@ == old_rf,
                i <= old_rf.len(),
                rf_ret == self.config.used_refresh_retention_seconds * 1_000_000,
                now_w == now,
                kept_rf@ == old_rf.subrange(0, i as int).filter(
                    |r: RefreshTokenRecord| refresh_kept(r, now as int, self.config.used_refresh_retention_seconds as int),
                ),
            decreases old_rf.len() - i,
        {
            let r = &self.refresh_tokens[i];
            let keep = !((r.expires_at as i128) < now_w) && !((r.used || r.revoked) && (r.expires_at as i128) + rf_ret
                < now_w);
            if keep {
                kept_rf.push(r.clone());
            }
            proof {
                reveal(Seq::filter);
                assert(old_rf.subrange(0, i + 1).drop_last() =~= old_rf.subrange(0, i as int));
            }
            i = i + 1;
        }
        proof {
            assert(old_rf.subrange(0, old_rf.len() as int) =~= old_rf);
            lemma_filter_unique(old_rf, |r: RefreshTokenRecord| refresh_kept(r, now as int, self.config.used_refresh_retention_seconds as int));
        }
        self.refresh_tokens = kept_rf;

        let ghost old_ac = self.revoked_access_jtis@;
        let mut kept_ac: Vec<Revocation> = Vec::new();
        let mut i: usize = 0;
        while i < self.revoked_access_jtis.len()
            invariant
                self.revoked_access_jtis@ == old_ac,
                i <= old_ac.len(),
                ac_ret == self.config.revoked_access_retention_seconds * 1_000_000,
                now_w == now,
                kept_ac@ == old_ac.subrange(0, i as int).filter(
                    |x: Revocation| revocation_kept(x, now as int, self.config.revoked_access_retention_seconds as int),
                ),
            decreases old_ac.len() - i,
        {
            let x = &self.revoked_access_jtis[i];
            if (x.at as i128) + ac_ret >= now_w {
                kept_ac.push(x.clone());
            }
            proof {
                reveal(Seq::filter);
                assert(old_ac.subrange(0, i + 1).drop_last() =~= old_ac.subrange(0, i as int));
            }
            i = i + 1;
        }
        proof {
            assert(old_ac.subrange(0, old_ac.len() as int) =~= old_ac);
            lemma_filter_unique(old_ac, |x: Revocation| revocation_kept(x, now as int, self.config.revoked_access_retention_seconds as int));
        }
        self.revoked_access_jtis = kept_ac;

        let ghost old_fa = self.revoked_token_families@;
        let mut kept_fa: Vec<Revocation> = Vec::new();
        let mut i: usize = 0;
        while i < self.revoked_token_families.len()
            invariant
                self.revoked_token_families@ == old_fa,
                i <= old_fa.len(),
                fa_ret == self.config.revoked_family_retention_seconds * 1_000_000,
                now_w == now,
                kept_fa@ == old_fa.subrange(0, i as int).filter(
                    |x: Revocation| revocation_kept(x, now as int, self.config.revoked_family_retention_seconds as int),
                ),
            decreases old_fa.len() - i,
        {
            let x = &self.revoked_token_families[i];
            if (x.at as i128) + fa_ret >= now_w {
                kept_fa.push(x.clone());
            }
            proof {
                reveal(Seq::filter);
                assert(old_fa.subrange(0, i + 1).drop_last() =~= old_fa.subrange(0, i as int));
            }
            i = i + 1;
        }
        proof {
            assert(old_fa.subrange(0, old_fa.len() as int) =~= old_fa);
            lemma_filter_unique(old_fa, |x: Revocation| revocation_kept(x, now as int, self.config.revoked_family_retention_seconds as int));
        }
        self.revoked_token_families = kept_fa;
    }
}

} // verus!
