//! The calls this library makes into outside crates and into parts of std that
//! vstd leaves unspecified. Each function here is trusted: Verus believes its
//! contract and does not read its body. Where a result takes more than a few
//! lines to describe but depends on the arguments alone, it is given a name
//! (a spec function without a body) and the contract ties the result to it.
use vstd::prelude::*;

verus! {

// ---------------------------------------------------------------------------
// base58 (bs58)
// ---------------------------------------------------------------------------

/// The bytes that `bs58::decode(s).into_vec()` yields for the text `s`
/// (Bitcoin alphabet), or `None` when that call fails.
pub uninterp spec fn base58_decoded(s: Seq<char>) -> Option<Seq<u8>>;

/// Calls `bs58::decode(s).into_vec()`. Claimed: the result is exactly
/// `base58_decoded(s)`, a function of the text alone.
#[verifier::external_body]
pub(crate) fn base58_decode(s: &str) -> (r: Option<Vec<u8>>)
    ensures
        match r {
            Some(v) => base58_decoded(s@) == Some(v@),
            None => base58_decoded(s@) is None,
        },
{
    bs58::decode(s).into_vec().ok()
}

// ---------------------------------------------------------------------------
// SHA-256 (sha2)
// ---------------------------------------------------------------------------

/// The SHA-256 digest of `data`.
pub uninterp spec fn sha256_of(data: Seq<u8>) -> Seq<u8>;

/// Calls `sha2::Sha256::digest`. Claimed: the 32-byte result is
/// `sha256_of(data)`.
#[verifier::external_body]
pub(crate) fn sha256(data: &[u8]) -> (r: [u8; 32])
    ensures
        r@ == sha256_of(data@),
{
    <sha2::Sha256 as sha2::Digest>::digest(data).into()
}

// ---------------------------------------------------------------------------
// Solana public keys (solana_pubkey)
// ---------------------------------------------------------------------------

/// The 32 bytes that `Pubkey::from_str(s)` yields, or `None` when it fails.
pub uninterp spec fn parsed_pubkey(s: Seq<char>) -> Option<Seq<u8>>;

/// Calls `solana_pubkey::Pubkey::from_str`. Claimed: the result is
/// `parsed_pubkey(s)`.
#[verifier::external_body]
pub(crate) fn parse_pubkey(s: &str) -> (r: Option<[u8; 32]>)
    ensures
        match r {
            Some(b) => parsed_pubkey(s@) == Some(b@),
            None => parsed_pubkey(s@) is None,
        },
{
    <solana_pubkey::Pubkey as std::str::FromStr>::from_str(s).ok().map(|k| k.to_bytes())
}

/// The text that `Pubkey::to_string` produces for the key with these bytes.
pub uninterp spec fn pubkey_text(bytes: Seq<u8>) -> Seq<char>;

/// Calls `Pubkey::to_string` on the key with the given bytes. Claimed: the
/// result is `pubkey_text(bytes)`.
#[verifier::external_body]
pub(crate) fn pubkey_to_text(bytes: &[u8; 32]) -> (r: String)
    ensures
        r@ == pubkey_text(bytes@),
{
    solana_pubkey::Pubkey::new_from_array(*bytes).to_string()
}

/// The address that `Pubkey::try_find_program_address(seeds, program_id)`
/// yields; `None` when no bump seed gives an address off the curve.
pub uninterp spec fn program_address(seeds: Seq<Seq<u8>>, program_id: Seq<u8>) -> Option<Seq<u8>>;

/// The seeds as byte sequences.
pub open spec fn seeds_view(seeds: Seq<Vec<u8>>) -> Seq<Seq<u8>> {
    seeds.map_values(|s: Vec<u8>| s@)
}

/// Calls `Pubkey::try_find_program_address` and keeps the address. Claimed:
/// the result is `program_address(seeds, program_id)`. The call itself does
/// not panic; `requires` keeps to the seeds it is meant for (at most 32
/// bytes each, and fewer than 16 so that the bump seed still fits).
#[verifier::external_body]
pub(crate) fn find_program_address(seeds: &Vec<Vec<u8>>, program_id: &[u8; 32]) -> (r: Option<[u8; 32]>)
    requires
        seeds.len() < 16,
        forall|i: int| 0 <= i < seeds.len() ==> #[trigger] seeds[i].len() <= 32,
    ensures
        match r {
            Some(a) => program_address(seeds_view(seeds@), program_id@) == Some(a@),
            None => program_address(seeds_view(seeds@), program_id@) is None,
        },
{
    let refs: Vec<&[u8]> = seeds.iter().map(|s| s.as_slice()).collect();
    let program = solana_pubkey::Pubkey::new_from_array(*program_id);
    solana_pubkey::Pubkey::try_find_program_address(&refs, &program).map(|(a, _)| a.to_bytes())
}

// ---------------------------------------------------------------------------
// Ed25519 signatures (ed25519_dalek)
// ---------------------------------------------------------------------------

/// Whether ed25519_dalek accepts `signature` over `message` for the public
/// key with bytes `public_key`: `VerifyingKey::from_bytes` succeeds and
/// `verify` returns `Ok`.
pub uninterp spec fn ed25519_accepts(public_key: Seq<u8>, signature: Seq<u8>, message: Seq<u8>) -> bool;

/// Calls `VerifyingKey::from_bytes`, then `Verifier::verify` with
/// `Signature::from_bytes`; a key that does not decode counts as a rejection.
/// Claimed: the result is `ed25519_accepts(public_key, signature, message)`.
#[verifier::external_body]
pub(crate) fn ed25519_verify(public_key: &[u8], signature: &[u8], message: &[u8]) -> (r: bool)
    requires
        public_key@.len() == 32,
        signature@.len() == 64,
    ensures
        r == ed25519_accepts(public_key@, signature@, message@),
{
    let key_bytes: [u8; 32] = public_key.try_into().unwrap();
    let sig_bytes: [u8; 64] = signature.try_into().unwrap();
    match ed25519_dalek::VerifyingKey::from_bytes(&key_bytes) {
        Ok(key) => ed25519_dalek::Verifier::verify(&key, message, &ed25519_dalek::Signature::from_bytes(&sig_bytes)).is_ok(),
        Err(_) => false,
    }
}

// ---------------------------------------------------------------------------
// UTF-8 (std)
// ---------------------------------------------------------------------------

/// Calls `String::from_utf8`. Claimed, as std documents: it succeeds exactly
/// on valid UTF-8, and then holds the decoded characters.
#[verifier::external_body]
pub(crate) fn string_from_utf8(bytes: Vec<u8>) -> (r: Option<String>)
    ensures
        r is Some <==> vstd::utf8::valid_utf8(bytes@),
        r matches Some(s) ==> s@ == vstd::utf8::decode_utf8(bytes@),
{
    String::from_utf8(bytes).ok()
}

// ---------------------------------------------------------------------------
// UUIDs (uuid)
// ---------------------------------------------------------------------------

/// The UUID, as a 128-bit number, that `Uuid::parse_str(s)` yields, or
/// `None` when parsing fails.
pub uninterp spec fn uuid_parsed(s: Seq<char>) -> Option<u128>;

/// Calls `uuid::Uuid::parse_str` (which `str::parse::<Uuid>` calls).
/// Claimed: the result is `uuid_parsed(s)`.
#[verifier::external_body]
pub(crate) fn parse_uuid(s: &str) -> (r: Option<u128>)
    ensures
        r == uuid_parsed(s@),
{
    uuid::Uuid::parse_str(s).ok().map(|u| u.as_u128())
}

/// The hyphenated text that `Uuid::to_string` gives for the UUID `u`.
pub uninterp spec fn uuid_text(u: u128) -> Seq<char>;

/// Calls `Uuid::to_string` on `Uuid::from_u128(u)`. Claimed: the result is
/// `uuid_text(u)`, 36 characters long (the hyphenated form), and
/// `Uuid::parse_str` reads it back as `u`, as the uuid documentation says of
/// the forms it generates.
#[verifier::external_body]
pub(crate) fn uuid_to_string(u: u128) -> (r: String)
    ensures
        r@ == uuid_text(u),
        r@.len() == 36,
        uuid_parsed(r@) == Some(u),
{
    uuid::Uuid::from_u128(u).to_string()
}

/// Calls `uuid::Uuid::new_v4`, a random UUID; nothing is claimed of it.
#[verifier::external_body]
pub(crate) fn new_uuid() -> (r: u128) {
    uuid::Uuid::new_v4().as_u128()
}

// ---------------------------------------------------------------------------
// Time (chrono)
// ---------------------------------------------------------------------------

/// The earliest instant chrono represents, in microseconds since the Unix
/// epoch (`-262143-01-01T00:00:00Z`).
pub open spec fn chrono_min_micros() -> int {
    -8334601315200000000
}

/// The latest instant chrono represents, in microseconds since the Unix
/// epoch (`+262142-12-31T23:59:59.999999Z`).
pub open spec fn chrono_max_micros() -> int {
    8210266876799999999
}

/// Whether `t` microseconds since the epoch is an instant chrono represents.
pub open spec fn chrono_instant(t: int) -> bool {
    chrono_min_micros() <= t <= chrono_max_micros()
}

/// The RFC 3339 text that `DateTime<Utc>::to_rfc3339` gives for the instant
/// `t` (microseconds since the epoch).
pub uninterp spec fn rfc3339_text(t: i64) -> Seq<char>;

/// Calls `DateTime::from_timestamp_micros(t)`, which succeeds on every
/// instant that `requires` admits, then `to_rfc3339`. Claimed: the result is
/// `rfc3339_text(t)`.
#[verifier::external_body]
pub(crate) fn format_rfc3339(t: i64) -> (r: String)
    requires
        chrono_instant(t as int),
    ensures
        r@ == rfc3339_text(t),
{
    chrono::DateTime::from_timestamp_micros(t).unwrap().to_rfc3339()
}

/// The instant, in microseconds since the epoch, that
/// `DateTime::parse_from_rfc3339(s)` yields, or `None` when it fails.
pub uninterp spec fn rfc3339_instant(s: Seq<char>) -> Option<i64>;

/// Calls `DateTime::parse_from_rfc3339` and takes `timestamp_micros` of the
/// result. Claimed: the result is `rfc3339_instant(s)`, and an instant chrono
/// represents.
#[verifier::external_body]
pub(crate) fn parse_rfc3339(s: &str) -> (r: Option<i64>)
    ensures
        r == rfc3339_instant(s@),
        r matches Some(t) ==> chrono_instant(t as int),
{
    chrono::DateTime::parse_from_rfc3339(s).ok().map(|d| d.timestamp_micros())
}

// ---------------------------------------------------------------------------
// Randomness (rand)
// ---------------------------------------------------------------------------

/// Whether `c` is an ASCII letter or digit.
pub open spec fn ascii_alphanumeric(c: char) -> bool {
    ('a' <= c <= 'z') || ('A' <= c <= 'Z') || ('0' <= c <= '9')
}

/// Draws `len` samples of `rand::distributions::Alphanumeric` from
/// `rand::thread_rng()`. Claimed, as rand documents that distribution: `len`
/// characters, each an ASCII letter or digit; which ones is left open.
#[verifier::external_body]
pub(crate) fn random_nonce(len: usize) -> (r: String)
    ensures
        r@.len() == len,
        forall|i: int| 0 <= i < len ==> ascii_alphanumeric(#[trigger] r@[i]),
{
    rand::Rng::sample_iter(rand::thread_rng(), &rand::distributions::Alphanumeric).take(len).map(char::from).collect()
}

// ---------------------------------------------------------------------------
// Calendars and time zones (chrono, chrono_tz)
// ---------------------------------------------------------------------------

/// The canonical name of the IANA time zone that `s` names, as
/// `chrono_tz::Tz::from_str(s)` then `Tz::name` give it; `None` when the
/// text names no zone.
pub uninterp spec fn tz_name_of(s: Seq<char>) -> Option<Seq<char>>;

/// Calls `<chrono_tz::Tz as FromStr>::from_str` and `Tz::name`. Claimed:
/// the result is `tz_name_of(s)`, and a canonical name reads back as itself
/// (the crate's table maps each zone's name to that zone).
#[verifier::external_body]
pub(crate) fn timezone_name(s: &str) -> (r: Option<String>)
    ensures
        match r {
            Some(n) => tz_name_of(s@) == Some(n@) && tz_name_of(n@) == Some(n@),
            None => tz_name_of(s@) is None,
        },
{
    s.parse::<chrono_tz::Tz>().ok().map(|tz| tz.name().to_string())
}

/// The instant (microseconds since the epoch) at which the first day of
/// `month` of `year` begins in the zone named `tz`, as
/// `Tz::with_ymd_and_hms(year, month, 1, 0, 0, 0).single()` gives it;
/// `None` when that local time does not exist exactly once.
pub uninterp spec fn local_month_start(tz: Seq<char>, year: i32, month: u32) -> Option<i64>;

/// Calls `TimeZone::with_ymd_and_hms` on the zone named `tz`, then
/// `single`. Claimed: the result is `local_month_start(tz, year, month)`;
/// when there is one it is an instant chrono represents, and the year is
/// below `i32::MAX` (chrono's dates end at year 262142).
#[verifier::external_body]
pub(crate) fn month_start(tz: &str, year: i32, month: u32) -> (r: Option<i64>)
    requires
        tz_name_of(tz@) == Some(tz@),
    ensures
        r == local_month_start(tz@, year, month),
        r matches Some(t) ==> chrono_instant(t as int) && year < i32::MAX,
{
    let zone: chrono_tz::Tz = tz.parse().unwrap();
    chrono::TimeZone::with_ymd_and_hms(&zone, year, month, 1, 0, 0, 0).single().map(|d| d.timestamp_micros())
}

/// The calendar date (`YYYY-MM-DD`, as `NaiveDate`'s `Display` writes it)
/// of the instant `t` in the zone named `tz`; `None` when the zone's offset
/// takes the local date-time out of the range chrono represents.
pub uninterp spec fn local_date_text(tz: Seq<char>, t: i64) -> Option<Seq<char>>;

/// Takes the zone's offset at `t` (`TimeZone::offset_from_utc_datetime`,
/// then `Offset::fix`) and adds it to the UTC date-time with
/// `NaiveDateTime::checked_add_offset`, then takes the date and its text:
/// what `with_timezone(..).date_naive()` computes, without its panic.
/// Claimed: the result is `local_date_text(tz, t)`.
#[verifier::external_body]
pub(crate) fn local_date(tz: &str, t: i64) -> (r: Option<String>)
    requires
        tz_name_of(tz@) == Some(tz@),
        chrono_instant(t as int),
    ensures
        match r {
            Some(d) => local_date_text(tz@, t) == Some(d@),
            None => local_date_text(tz@, t) is None,
        },
{
    let zone: chrono_tz::Tz = tz.parse().unwrap();
    let utc = chrono::DateTime::from_timestamp_micros(t).unwrap().naive_utc();
    let offset = chrono::Offset::fix(&chrono::TimeZone::offset_from_utc_datetime(&zone, &utc));
    utc.checked_add_offset(offset).map(|d| d.date().to_string())
}

/// The year and month, in UTC, of the instant `t`.
pub uninterp spec fn utc_year_month_of(t: i64) -> (i32, u32);

/// Calls `Datelike::year` and `Datelike::month` on the UTC date-time of
/// `t`. Claimed: the result is `utc_year_month_of(t)`, with the month from
/// 1 to 12 as chrono documents.
#[verifier::external_body]
pub(crate) fn utc_year_month(t: i64) -> (r: (i32, u32))
    requires
        chrono_instant(t as int),
    ensures
        r == utc_year_month_of(t),
        1 <= r.1 <= 12,
{
    let d = chrono::DateTime::from_timestamp_micros(t).unwrap();
    (chrono::Datelike::year(&d), chrono::Datelike::month(&d))
}

} // verus!
