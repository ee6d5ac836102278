//! Settings of the service, read from the values of its environment
//! variables, with the defaults that apply when a value is absent or does
//! not read.
use vstd::prelude::*;
use crate::model::AppConfig;
use crate::text::{decimal_value, eq_ascii_fold, eq_ignore_ascii_case, parse_decimal, str_eq, trim, trimmed};

verus! {

/// The values of the environment variables the settings are read from;
/// `None` where a variable is unset (or not Unicode).
#[derive(Debug, PartialEq, Eq)]
pub struct ConfigValues {
    pub api_host: Option<String>,
    pub api_port: Option<String>,
    pub database_url: Option<String>,
    pub expenses_pg_enabled: Option<String>,
    pub auth_pg_enabled: Option<String>,
    pub hybrid_onchain_enabled: Option<String>,
    pub solana_rpc_url: Option<String>,
    pub solana_program_id: Option<String>,
    pub solana_commitment: Option<String>,
    pub jwt_secret: Option<String>,
    pub jwt_expires_in_seconds: Option<String>,
    pub refresh_expires_in_seconds: Option<String>,
    pub cleanup_interval_seconds: Option<String>,
}

/// Whether a flag's value turns it on: `1`, or `true` or `yes` in any ASCII
/// case.
pub open spec fn flag_on(v: Option<String>) -> bool {
    match v {
        Some(x) => x@ == "1"@ || eq_ascii_fold(x@, "true"@) || eq_ascii_fold(x@, "yes"@),
        None => false,
    }
}

/// The text of a setting, or `default` when it is absent.
pub open spec fn text_or(v: Option<String>, default: Seq<char>) -> Seq<char> {
    match v {
        Some(x) => x@,
        None => default,
    }
}

/// The `i64` a setting writes, or `default` when it is absent or does not
/// read as one.
pub open spec fn i64_or(v: Option<String>, default: i64) -> i64 {
    match v {
        Some(x) => match decimal_value(x@, i64::MIN as int, i64::MAX as int) {
            Some(n) => n as i64,
            None => default,
        },
        None => default,
    }
}

/// The port a setting writes, or 8080 when it is absent or does not read
/// as a `u16`.
pub open spec fn port_or_default(v: Option<String>) -> u16 {
    match v {
        Some(x) => match decimal_value(x@, 0, u16::MAX as int) {
            Some(n) => n as u16,
            None => 8080,
        },
        None => 8080,
    }
}

fn flag(v: &Option<String>) -> (r: bool)
    ensures
        r == flag_on(*v),
{
    match v {
        Some(x) => str_eq(x.as_str(), "1") || eq_ignore_ascii_case(x.as_str(), "true") || eq_ignore_ascii_case(
            x.as_str(),
            "yes",
        ),
        None => false,
    }
}

fn text_setting(v: &Option<String>, default: &str) -> (r: String)
    ensures
        r@ == text_or(*v, default@),
{
    match v {
        Some(x) => x.clone(),
        None => default.to_owned(),
    }
}

fn i64_setting(v: &Option<String>, default: i64) -> (r: i64)
    ensures
        r == i64_or(*v, default),
{
    match v {
        Some(x) => match parse_decimal(x.as_str(), i64::MIN, i64::MAX) {
            Some(n) => n,
            None => default,
        },
        None => default,
    }
}

impl AppConfig {
    /// The settings the environment values `v` give.
    pub fn from_values(v: &ConfigValues) -> (c: AppConfig)
        ensures
            c.host@ == text_or(v.api_host, "0.0.0.0"@),
            c.port == port_or_default(v.api_port),
            c.database_url == (match v.database_url {
                Some(x) => if trimmed(x@).len() > 0 {
                    Some(x)
                } else {
                    None
                },
                None => None,
            }),
            c.expenses_pg_enabled == flag_on(v.expenses_pg_enabled),
            c.auth_pg_enabled == flag_on(v.auth_pg_enabled),
            c.hybrid_onchain_enabled == flag_on(v.hybrid_onchain_enabled),
            c.solana_rpc_url@ == text_or(v.solana_rpc_url, "http://127.0.0.1:8899"@),
            c.solana_program_id@ == text_or(v.solana_program_id, "rzMxNuut6R34aFgt8NY9hj3SoRB37iszrsSqZR2DSnB"@),
            c.solana_commitment@ == text_or(v.solana_commitment, "finalized"@),
            c.jwt_secret@ == text_or(v.jwt_secret, "change_me_in_production"@),
            c.jwt_expires_in_seconds == i64_or(v.jwt_expires_in_seconds, 3600),
            c.refresh_expires_in_seconds == i64_or(v.refresh_expires_in_seconds, 604800),
            c.challenge_ttl_seconds == 300,
            c.cleanup_interval_seconds == i64_or(v.cleanup_interval_seconds, 30),
            c.used_challenge_retention_seconds == 300,
            c.used_refresh_retention_seconds == 3600,
            c.revoked_access_retention_seconds == 7200,
            c.revoked_family_retention_seconds == 604800,
    {
        let port = match &v.api_port {
            Some(x) => match parse_decimal(x.as_str(), 0, 65535) {
                Some(n) => n as u16,
                None => 8080,
            },
            None => 8080,
        };
        let database_url = match &v.database_url {
            Some(x) => if trim(x.as_str()).as_str().unicode_len() > 0 {
                Some(x.clone())
            } else {
                None
            },
            None => None,
        };
        AppConfig {
            host: text_setting(&v.api_host, "0.0.0.0"),
            port,
            database_url,
            expenses_pg_enabled: flag(&v.expenses_pg_enabled),
            auth_pg_enabled: flag(&v.auth_pg_enabled),
            hybrid_onchain_enabled: flag(&v.hybrid_onchain_enabled),
            solana_rpc_url: text_setting(&v.solana_rpc_url, "http://127.0.0.1:8899"),
            solana_program_id: text_setting(&v.solana_program_id, "rzMxNuut6R34aFgt8NY9hj3SoRB37iszrsSqZR2DSnB"),
            solana_commitment: text_setting(&v.solana_commitment, "finalized"),
            jwt_secret: text_setting(&v.jwt_secret, "change_me_in_production"),
            jwt_expires_in_seconds: i64_setting(&v.jwt_expires_in_seconds, 3600),
            refresh_expires_in_seconds: i64_setting(&v.refresh_expires_in_seconds, 604800),
            challenge_ttl_seconds: 300,
            cleanup_interval_seconds: i64_setting(&v.cleanup_interval_seconds, 30),
            used_challenge_retention_seconds: 300,
            used_refresh_retention_seconds: 3600,
            revoked_access_retention_seconds: 7200,
            revoked_family_retention_seconds: 604800,
        }
    }
}

/// The period, in seconds, of the sweep of expired records: the configured
/// interval, at least 5.
pub fn cleanup_period_seconds(config: &AppConfig) -> (r: u64)
    ensures
        r == if config.cleanup_interval_seconds < 5 {
            5
        } else {
            config.cleanup_interval_seconds
        },
{
    if config.cleanup_interval_seconds < 5 {
        5
    } else {
        config.cleanup_interval_seconds as u64
    }
}

} // verus!
