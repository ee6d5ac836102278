//! Checks of the on-chain side of a hybrid commit: the transaction signature
//! text, the Anchor instruction discriminator, the instruction payloads, the
//! fetched transaction itself and the accounts that the instruction names.
use vstd::prelude::*;
use crate::model::{fails_with, AppError, AppResult, ErrorKind, ErrorView, ExpenseStatus};
use crate::primitives::{base58_decode, base58_decoded, sha256, sha256_of};
use crate::text::{str_eq, trim, trimmed};

verus! {

// ---------------------------------------------------------------------------
// Little-endian integers
// ---------------------------------------------------------------------------

/// The little-endian unsigned integer held by `d[at..at + 4]`.
pub open spec fn le_u32_at(d: Seq<u8>, at: int) -> nat {
    (d[at] as nat) + 256 * (d[at + 1] as nat) + 65536 * (d[at + 2] as nat) + 16777216 * (d[at + 3] as nat)
}

/// The little-endian unsigned integer held by `d[at..at + 8]`.
pub open spec fn le_u64_at(d: Seq<u8>, at: int) -> nat {
    le_u32_at(d, at) + 4294967296 * le_u32_at(d, at + 4)
}

fn read_u32_le(d: &[u8], at: usize) -> (r: u32)
    requires
        at + 4 <= d@.len(),
    ensures
        r as nat == le_u32_at(d@, at as int),
{
    (d[at] as u32) + 256 * (d[at + 1] as u32) + 65536 * (d[at + 2] as u32) + 16777216 * (d[at + 3] as u32)
}

fn read_u64_le(d: &[u8], at: usize) -> (r: u64)
    requires
        at + 8 <= d@.len(),
    ensures
        r as nat == le_u64_at(d@, at as int),
{
    let n = d.len();
    let lo = read_u32_le(d, at) as u64;
    let hi = read_u32_le(d, at + 4) as u64;
    lo + 4294967296 * hi
}

/// The eight bytes of `v` in little-endian order (`u64::to_le_bytes`).
pub open spec fn le_bytes_u64(v: u64) -> Seq<u8> {
    Seq::new(8, |i: int| ((v as nat / pow256(i)) % 256) as u8)
}

/// 256 to the power `i`.
pub open spec fn pow256(i: int) -> nat
    decreases i,
{
    if i <= 0 {
        1
    } else {
        256 * pow256(i - 1)
    }
}

proof fn lemma_pow256_pos(i: int)
    ensures
        pow256(i) > 0,
    decreases i,
{
    if i > 0 {
        lemma_pow256_pos(i - 1);
    }
}

/// The eight bytes of `v` in little-endian order.
pub fn u64_le_bytes(v: u64) -> (r: Vec<u8>)
    ensures
        r@ == le_bytes_u64(v),
{
    let mut r: Vec<u8> = Vec::new();
    let mut x: u64 = v;
    let mut i: usize = 0;
    proof {
        assert(pow256(0) == 1);
        assert(v as nat / 1 == v as nat);
    }
    while i < 8
        invariant
            i <= 8,
            r@.len() == i,
            x as nat == v as nat / pow256(i as int),
            forall|k: int| 0 <= k < i ==> r@[k] == ((v as nat / pow256(k)) % 256) as u8,
        decreases 8 - i,
    {
        proof {
            assert(pow256(i + 1) == 256 * pow256(i as int));
            lemma_pow256_pos(i as int);
            vstd::arithmetic::div_mod::lemma_div_denominator(v as int, pow256(i as int) as int, 256);
        }
        r.push((x % 256) as u8);
        x = x / 256;
        i = i + 1;
    }
    proof {
        assert(r@ =~= le_bytes_u64(v));
    }
    r
}

// ---------------------------------------------------------------------------
// Transaction signature text
// ---------------------------------------------------------------------------

/// What `validate_signature_base58` answers for the text `v`.
pub open spec fn tx_hash_check(v: Seq<char>) -> Result<Seq<char>, ErrorView> {
    let t = trimmed(v);
    if t.len() == 0 {
        Err((ErrorKind::BadRequest, "tx_hash is required"@))
    } else {
        match base58_decoded(t) {
            None => Err((ErrorKind::BadRequest, "invalid tx_hash base58"@)),
            Some(b) => if b.len() != 64 {
                Err((ErrorKind::BadRequest, "invalid tx_hash length"@))
            } else {
                Ok(t)
            },
        }
    }
}

/// Checks the signature of a transaction given as base58 text: it is
/// trimmed, must be non-empty, must decode, and must decode to 64 bytes.
/// Returns the trimmed text.
pub fn validate_signature_base58(value: &str) -> (r: AppResult<String>)
    ensures
        match tx_hash_check(value@) {
            Ok(t) => r matches Ok(s) && s@ == t,
            Err(e) => fails_with(r, e),
        },
{
    let tx_hash = trim(value);
    if tx_hash.as_str().unicode_len() == 0 {
        return Err(AppError::bad_request("tx_hash is required"));
    }
    let raw = match base58_decode(tx_hash.as_str()) {
        Some(v) => v,
        None => {
            return Err(AppError::bad_request("invalid tx_hash base58"));
        },
    };
    if raw.len() != 64 {
        return Err(AppError::bad_request("invalid tx_hash length"));
    }
    Ok(tx_hash)
}

// ---------------------------------------------------------------------------
// Anchor instruction discriminator
// ---------------------------------------------------------------------------

/// The bytes of the ASCII text `global:`.
pub open spec fn global_prefix() -> Seq<u8> {
    seq![103u8, 108u8, 111u8, 98u8, 97u8, 108u8, 58u8]
}

/// The Anchor discriminator of the instruction `name`: the first eight bytes
/// of the SHA-256 digest of `global:` followed by the UTF-8 bytes of `name`.
pub open spec fn discriminator_of(name: Seq<char>) -> Seq<u8> {
    sha256_of(global_prefix() + vstd::utf8::encode_utf8(name)).subrange(0, 8)
}

/// The Anchor discriminator of the instruction `name`.
pub fn instruction_discriminator(name: &str) -> (r: [u8; 8])
    ensures
        r@ == discriminator_of(name@),
{
    let mut pre: Vec<u8> = vec![103u8, 108u8, 111u8, 98u8, 97u8, 108u8, 58u8];
    let bytes = name.as_bytes();
    let mut i: usize = 0;
    while i < bytes.len()
        invariant
            bytes@ == vstd::utf8::encode_utf8(name@),
            i <= bytes@.len(),
            pre@ == global_prefix() + bytes@.subrange(0, i as int),
        decreases bytes@.len() - i,
    {
        pre.push(bytes[i]);
        i = i + 1;
        proof {
            assert(pre@ =~= global_prefix() + bytes@.subrange(0, i as int));
        }
    }
    proof {
        assert(bytes@.subrange(0, bytes@.len() as int) =~= bytes@);
    }
    let digest = sha256(pre.as_slice());
    let r = [digest[0], digest[1], digest[2], digest[3], digest[4], digest[5], digest[6], digest[7]];
    proof {
        assert(r@ =~= digest@.subrange(0, 8));
    }
    r
}


// ---------------------------------------------------------------------------
// Instruction payloads
// ---------------------------------------------------------------------------

/// What `decode_create_category_name` answers for the instruction data `d`:
/// after the eight-byte discriminator, a little-endian `u32` length and that
/// many bytes of UTF-8 name.
pub open spec fn category_name_decoding(d: Seq<u8>) -> Result<Seq<char>, ErrorView> {
    if d.len() < 12 {
        Err((ErrorKind::BadRequest, "invalid create_category instruction data"@))
    } else if d.len() < 12 + le_u32_at(d, 8) {
        Err((ErrorKind::BadRequest, "category name bytes truncated"@))
    } else {
        let bytes = d.subrange(12, 12 + le_u32_at(d, 8) as int);
        if vstd::utf8::valid_utf8(bytes) {
            Ok(vstd::utf8::decode_utf8(bytes))
        } else {
            Err((ErrorKind::BadRequest, "category name is not utf8"@))
        }
    }
}

/// Decodes the name argument of a `create_category` instruction.
pub fn decode_create_category_name(data: &[u8]) -> (r: AppResult<String>)
    ensures
        match category_name_decoding(data@) {
            Ok(name) => r matches Ok(s) && s@ == name,
            Err(e) => fails_with(r, e),
        },
{
    let n = data.len();
    if n < 12 {
        return Err(AppError::bad_request("invalid create_category instruction data"));
    }
    let len = read_u32_le(data, 8) as usize;
    if n - 12 < len {
        return Err(AppError::bad_request("category name bytes truncated"));
    }
    let mut bytes: Vec<u8> = Vec::new();
    let mut i: usize = 12;
    while i < 12 + len
        invariant
            n == data@.len(),
            12 + len <= n,
            12 <= i <= 12 + len,
            bytes@ == data@.subrange(12, i as int),
        decreases 12 + len - i,
    {
        bytes.push(data[i]);
        i = i + 1;
        proof {
            assert(bytes@ =~= data@.subrange(12, i as int));
        }
    }
    match crate::primitives::string_from_utf8(bytes) {
        Some(name) => Ok(name),
        None => Err(AppError::bad_request("category name is not utf8")),
    }
}

/// What `decode_create_expense_args` answers for the instruction data `d`:
/// the expense id and the amount, two little-endian `u64` after the
/// discriminator, in data of at least 56 bytes.
pub open spec fn expense_args_decoding(d: Seq<u8>) -> Result<(nat, nat), ErrorView> {
    if d.len() < 56 {
        Err((ErrorKind::BadRequest, "invalid create_expense instruction data"@))
    } else {
        Ok((le_u64_at(d, 8), le_u64_at(d, 16)))
    }
}

/// Decodes the expense id and amount arguments of a `create_expense`
/// instruction.
pub fn decode_create_expense_args(data: &[u8]) -> (r: AppResult<(u64, u64)>)
    ensures
        match expense_args_decoding(data@) {
            Ok(v) => r matches Ok(p) && p.0 as nat == v.0 && p.1 as nat == v.1,
            Err(e) => fails_with(r, e),
        },
{
    if data.len() < 56 {
        return Err(AppError::bad_request("invalid create_expense instruction data"));
    }
    Ok((read_u64_le(data, 8), read_u64_le(data, 16)))
}

/// The status an `update_expense_status` instruction carries, by the byte
/// after the discriminator.
pub open spec fn status_arg_decoding(d: Seq<u8>) -> Result<ExpenseStatus, ErrorView> {
    if d.len() < 9 {
        Err((ErrorKind::BadRequest, "invalid update_expense_status instruction data"@))
    } else if d[8] == 0 {
        Ok(ExpenseStatus::Pending)
    } else if d[8] == 1 {
        Ok(ExpenseStatus::Approved)
    } else if d[8] == 2 {
        Ok(ExpenseStatus::Rejected)
    } else {
        Err((ErrorKind::BadRequest, "invalid onchain status enum value"@))
    }
}

/// Decodes the status argument of an `update_expense_status` instruction.
pub fn decode_update_status_arg(data: &[u8]) -> (r: AppResult<ExpenseStatus>)
    ensures
        match status_arg_decoding(data@) {
            Ok(v) => r == Ok::<ExpenseStatus, AppError>(v),
            Err(e) => fails_with(r, e),
        },
{
    if data.len() < 9 {
        return Err(AppError::bad_request("invalid update_expense_status instruction data"));
    }
    if data[8] == 0 {
        Ok(ExpenseStatus::Pending)
    } else if data[8] == 1 {
        Ok(ExpenseStatus::Approved)
    } else if data[8] == 2 {
        Ok(ExpenseStatus::Rejected)
    } else {
        Err(AppError::bad_request("invalid onchain status enum value"))
    }
}

// ---------------------------------------------------------------------------
// Verified instructions and their accounts
// ---------------------------------------------------------------------------

/// The one instruction of a fetched transaction that calls the expected
/// program with the expected discriminator, signed by the expected wallet.
#[derive(Debug, PartialEq, Eq)]
pub struct VerifiedInstruction {
    pub slot: u64,
    pub signer_wallet: String,
    /// The account keys of the whole transaction message.
    pub account_keys: Vec<String>,
    /// For each account of the instruction, its index into `account_keys`.
    pub account_indices: Vec<usize>,
    /// The instruction data, discriminator included.
    pub data_raw: Vec<u8>,
}

/// What `ensure_account_at` answers for an instruction with account keys
/// `keys` and account indices `ix`: the account at position `pos` must
/// exist, must index a key of the transaction, and that key must be
/// `expected`.
pub open spec fn account_check(keys: Seq<Seq<char>>, ix: Seq<usize>, pos: int, expected: Seq<char>) -> Result<(), ErrorView> {
    if pos >= ix.len() {
        Err((ErrorKind::BadRequest, "instruction account index missing"@))
    } else if ix[pos] >= keys.len() {
        Err((ErrorKind::BadRequest, "instruction account index out of range"@))
    } else if keys[ix[pos] as int] != expected {
        Err((ErrorKind::BadRequest, "instruction account mismatch"@))
    } else {
        Ok(())
    }
}

/// Checks that the account at position `pos` of the instruction is the key
/// `expected_pubkey`.
pub fn ensure_account_at(verified: &VerifiedInstruction, pos: usize, expected_pubkey: &str) -> (r: AppResult<()>)
    ensures
        match account_check(texts(verified.account_keys@), verified.account_indices@, pos as int, expected_pubkey@) {
            Ok(_) => r is Ok,
            Err(e) => fails_with(r, e),
        },
{
    if pos >= verified.account_indices.len() {
        return Err(AppError::bad_request("instruction account index missing"));
    }
    let account_idx = verified.account_indices[pos];
    if account_idx >= verified.account_keys.len() {
        return Err(AppError::bad_request("instruction account index out of range"));
    }
    if !str_eq(verified.account_keys[account_idx].as_str(), expected_pubkey) {
        return Err(AppError::bad_request("instruction account mismatch"));
    }
    Ok(())
}

// ---------------------------------------------------------------------------
// The fetched transaction
// ---------------------------------------------------------------------------

/// An entry of `message.accountKeys` in a `getTransaction` reply: a text, an
/// object whose `pubkey` field may hold a text, or anything else.
#[derive(Debug, PartialEq, Eq)]
pub enum AccountKeyEntry {
    Text(String),
    Object(Option<String>),
    Other,
}

/// An entry of `message.instructions`; each field is `None` when the reply
/// lacks it or gives it another JSON type.
#[derive(Debug, PartialEq, Eq)]
pub struct RawInstruction {
    pub program_id_index: Option<u64>,
    pub data: Option<String>,
    pub accounts: Option<Vec<Option<u64>>>,
}

/// The transaction message of a `getTransaction` reply.
#[derive(Debug, PartialEq, Eq)]
pub struct TransactionMessage {
    pub account_keys: Option<Vec<AccountKeyEntry>>,
    pub num_required_signatures: Option<u64>,
    pub instructions: Option<Vec<RawInstruction>>,
}

/// The `result` of a `getTransaction` reply.
#[derive(Debug, PartialEq, Eq)]
pub struct FetchedTransaction {
    /// Whether the result has a `meta` field.
    pub meta_present: bool,
    /// Whether `meta.err` is absent or null.
    pub meta_err_null: bool,
    pub slot: Option<u64>,
    pub message: Option<TransactionMessage>,
}

/// A decoded `getTransaction` reply: whether it has an `error` field, and its
/// `result`, `None` when absent or null.
#[derive(Debug, PartialEq, Eq)]
pub struct RpcReply {
    pub has_error: bool,
    pub result: Option<FetchedTransaction>,
}

/// The key text of one account key entry.
pub open spec fn key_of_entry(e: AccountKeyEntry) -> Result<Seq<char>, ErrorView> {
    match e {
        AccountKeyEntry::Text(s) => Ok(s@),
        AccountKeyEntry::Object(Some(s)) => Ok(s@),
        AccountKeyEntry::Object(None) => Err((ErrorKind::Internal, "invalid parsed account key object"@)),
        AccountKeyEntry::Other => Err((ErrorKind::Internal, "invalid account key format"@)),
    }
}

/// The key texts of the first `n` entries, or the error of the first entry
/// among them that has none.
pub open spec fn keys_of_entries(es: Seq<AccountKeyEntry>, n: int) -> Result<Seq<Seq<char>>, ErrorView>
    decreases n,
{
    if n <= 0 {
        Ok(Seq::empty())
    } else {
        match keys_of_entries(es, n - 1) {
            Err(e) => Err(e),
            Ok(ks) => match key_of_entry(es[n - 1]) {
                Err(e) => Err(e),
                Ok(k) => Ok(ks.push(k)),
            },
        }
    }
}

proof fn lemma_keys_err_persists(es: Seq<AccountKeyEntry>, n: int, m: int)
    requires
        0 <= n <= m,
        keys_of_entries(es, n) is Err,
    ensures
        keys_of_entries(es, m) == keys_of_entries(es, n),
    decreases m - n,
{
    if m > n {
        lemma_keys_err_persists(es, n, m - 1);
    }
}

/// What `parse_account_keys` answers for a message.
pub open spec fn account_keys_parse(m: TransactionMessage) -> Result<Seq<Seq<char>>, ErrorView> {
    match m.account_keys {
        None => Err((ErrorKind::Internal, "missing message.accountKeys"@)),
        Some(es) => keys_of_entries(es@, es@.len() as int),
    }
}

/// The texts of a list of keys.
pub open spec fn texts(v: Seq<String>) -> Seq<Seq<char>> {
    v.map_values(|s: String| s@)
}

/// The account keys of a transaction message, as texts.
pub fn parse_account_keys(message: &TransactionMessage) -> (r: AppResult<Vec<String>>)
    ensures
        match account_keys_parse(*message) {
            Ok(ks) => r matches Ok(v) && texts(v@) == ks,
            Err(e) => fails_with(r, e),
        },
{
    let entries = match &message.account_keys {
        None => {
            return Err(AppError::internal("missing message.accountKeys"));
        },
        Some(es) => es,
    };
    let mut out: Vec<String> = Vec::new();
    let mut i: usize = 0;
    proof {
        assert(texts(out@) =~= Seq::<Seq<char>>::empty());
    }
    while i < entries.len()
        invariant
            message.account_keys == Some(*entries),
            i <= entries@.len(),
            keys_of_entries(entries@, i as int) == Ok::<Seq<Seq<char>>, ErrorView>(texts(out@)),
        decreases entries@.len() - i,
    {
        let key = match &entries[i] {
            AccountKeyEntry::Text(s) => s.clone(),
            AccountKeyEntry::Object(Some(s)) => s.clone(),
            AccountKeyEntry::Object(None) => {
                proof {
                    lemma_keys_err_persists(entries@, i + 1, entries@.len() as int);
                }
                return Err(AppError::internal("invalid parsed account key object"));
            },
            AccountKeyEntry::Other => {
                proof {
                    lemma_keys_err_persists(entries@, i + 1, entries@.len() as int);
                }
                return Err(AppError::internal("invalid account key format"));
            },
        };
        let ghost prev = out@;
        let ghost k = key@;
        out.push(key);
        proof {
            assert(texts(out@) =~= texts(prev).push(k));
        }
        i = i + 1;
    }
    Ok(out)
}

/// The account indices an instruction lists, when each entry is a number.
pub open spec fn account_indices_of(a: Seq<Option<u64>>) -> Option<Seq<usize>> {
    if forall|i: int| 0 <= i < a.len() ==> #[trigger] a[i] is Some {
        Some(Seq::new(a.len(), |i: int| a[i]->0 as usize))
    } else {
        None
    }
}

/// A matched instruction: its account indices and its raw data.
pub type InstructionMatch = (Seq<usize>, Seq<u8>);

/// How one instruction fares in the search for the instruction of program
/// `prog` with discriminator `disc`: an error, no match (`Ok(None)`), or a
/// match.
pub open spec fn classify_instruction(
    ins: RawInstruction,
    keys: Seq<Seq<char>>,
    prog: Seq<char>,
    disc: Seq<u8>,
) -> Result<Option<InstructionMatch>, ErrorView> {
    match ins.program_id_index {
        None => Err((ErrorKind::Internal, "missing instruction programIdIndex"@)),
        Some(pi) => if pi as usize >= keys.len() {
            Err((ErrorKind::Internal, "programIdIndex out of range"@))
        } else if keys[pi as usize as int] != prog {
            Ok(None)
        } else {
            match ins.data {
                None => Err((ErrorKind::Internal, "missing instruction data"@)),
                Some(d) => match base58_decoded(d@) {
                    None => Err((ErrorKind::Internal, "invalid base58 instruction data"@)),
                    Some(raw) => if raw.len() < 8 || raw.subrange(0, 8) != disc {
                        Ok(None)
                    } else {
                        match ins.accounts {
                            None => Err((ErrorKind::Internal, "missing instruction accounts"@)),
                            Some(a) => match account_indices_of(a@) {
                                None => Err((ErrorKind::Internal, "invalid account index"@)),
                                Some(ix) => Ok(Some((ix, raw))),
                            },
                        }
                    },
                },
            }
        },
    }
}

/// The search over the first `n` instructions, one instruction at a time,
/// as `verify_instruction` makes it; `search_outcome` states its result.
spec fn scan_instructions(
    ins: Seq<RawInstruction>,
    keys: Seq<Seq<char>>,
    prog: Seq<char>,
    disc: Seq<u8>,
    n: int,
) -> Result<Option<InstructionMatch>, ErrorView>
    decreases n,
{
    if n <= 0 {
        Ok(None)
    } else {
        match scan_instructions(ins, keys, prog, disc, n - 1) {
            Err(e) => Err(e),
            Ok(m) => match classify_instruction(ins[n - 1], keys, prog, disc) {
                Err(e) => Err(e),
                Ok(None) => Ok(m),
                Ok(Some(x)) => if m is Some {
                    Err((ErrorKind::BadRequest, "multiple matching instructions found in one tx"@))
                } else {
                    Ok(Some(x))
                },
            },
        }
    }
}

proof fn lemma_scan_err_persists(
    ins: Seq<RawInstruction>,
    keys: Seq<Seq<char>>,
    prog: Seq<char>,
    disc: Seq<u8>,
    n: int,
    m: int,
)
    requires
        0 <= n <= m,
        scan_instructions(ins, keys, prog, disc, n) is Err,
    ensures
        scan_instructions(ins, keys, prog, disc, m) == scan_instructions(ins, keys, prog, disc, n),
    decreases m - n,
{
    if m > n {
        lemma_scan_err_persists(ins, keys, prog, disc, n, m - 1);
    }
}

/// Whether `signer` is among the first `required` account keys.
pub open spec fn signer_among(keys: Seq<Seq<char>>, required: int, signer: Seq<char>) -> bool {
    exists|i: int| 0 <= i < required && i < keys.len() && #[trigger] keys[i] == signer
}

/// A verified instruction as a value of specifications: slot, account keys,
/// account indices and data.
pub type VerifiedView = (u64, Seq<Seq<char>>, Seq<usize>, Seq<u8>);

/// What `verify_instruction` answers for a reply, the program key text, the
/// discriminator and the wallet that must have signed.
pub open spec fn transaction_verification(
    reply: RpcReply,
    prog: Seq<char>,
    disc: Seq<u8>,
    signer: Seq<char>,
) -> Result<VerifiedView, ErrorView> {
    if reply.has_error {
        Err((ErrorKind::BadRequest, "solana rpc returned error for tx_hash"@))
    } else {
        match reply.result {
            None => Err((ErrorKind::BadRequest, "transaction not found at selected commitment"@)),
            Some(t) => if !t.meta_present {
                Err((ErrorKind::BadRequest, "missing transaction meta"@))
            } else if !t.meta_err_null {
                Err((ErrorKind::BadRequest, "transaction failed onchain"@))
            } else {
                match t.slot {
                    None => Err((ErrorKind::Internal, "missing slot in transaction result"@)),
                    Some(slot) => match t.message {
                        None => Err((ErrorKind::Internal, "missing transaction.message"@)),
                        Some(m) => match account_keys_parse(m) {
                            Err(e) => Err(e),
                            Ok(keys) => match m.num_required_signatures {
                                None => Err((ErrorKind::Internal, "missing numRequiredSignatures"@)),
                                Some(req) => if !signer_among(keys, req as usize as int, signer) {
                                    Err((ErrorKind::Forbidden, "jwt wallet is not a transaction signer"@))
                                } else {
                                    match m.instructions {
                                        None => Err((ErrorKind::Internal, "missing message.instructions"@)),
                                        Some(ins) => match search_outcome(
                                            ins@,
                                            keys,
                                            prog,
                                            disc,
                                            ins@.len() as int,
                                        ) {
                                            Err(e) => Err(e),
                                            Ok(None) => Err(
                                                (
                                                    ErrorKind::BadRequest,
                                                    "matching instruction not found in transaction"@,
                                                ),
                                            ),
                                            Ok(Some(x)) => Ok((slot, keys, x.0, x.1)),
                                        },
                                    }
                                },
                            },
                        },
                    },
                }
            },
        }
    }
}

fn starts_with_bytes(raw: &Vec<u8>, disc: &[u8; 8]) -> (r: bool)
    ensures
        r == (raw@.len() >= 8 && raw@.subrange(0, 8) == disc@),
{
    if raw.len() < 8 {
        return false;
    }
    let mut i: usize = 0;
    while i < 8
        invariant
            raw@.len() >= 8,
            i <= 8,
            forall|k: int| 0 <= k < i ==> raw@[k] == disc@[k],
        decreases 8 - i,
    {
        if raw[i] != disc[i] {
            proof {
                assert(raw@.subrange(0, 8)[i as int] != disc@[i as int]);
            }
            return false;
        }
        i = i + 1;
    }
    proof {
        assert(raw@.subrange(0, 8) =~= disc@);
    }
    true
}

fn collect_account_indices(a: &Vec<Option<u64>>) -> (r: Option<Vec<usize>>)
    ensures
        match account_indices_of(a@) {
            None => r is None,
            Some(ix) => r matches Some(v) && v@ == ix,
        },
{
    let mut out: Vec<usize> = Vec::new();
    let mut i: usize = 0;
    while i < a.len()
        invariant
            i <= a@.len(),
            out@.len() == i,
            forall|k: int| 0 <= k < i ==> #[trigger] a@[k] is Some,
            forall|k: int| 0 <= k < i ==> #[trigger] out@[k] == a@[k]->0 as usize,
        decreases a@.len() - i,
    {
        match a[i] {
            Some(x) => {
                out.push(x as usize);
            },
            None => {
                return None;
            },
        }
        i = i + 1;
    }
    proof {
        assert(out@ =~= Seq::new(a@.len(), |k: int| a@[k]->0 as usize));
    }
    Some(out)
}

/// Finds, in the fetched transaction, the one instruction that calls the
/// program `program_id` with the discriminator of `instruction_name`, after
/// checking that the transaction succeeded and that `expected_signer_wallet`
/// signed it.
#[verifier::loop_isolation(false)]
pub fn verify_instruction(
    reply: &RpcReply,
    program_id: &[u8; 32],
    instruction_name: &str,
    expected_signer_wallet: &str,
) -> (r: AppResult<VerifiedInstruction>)
    ensures
        match transaction_verification(
            *reply,
            crate::primitives::pubkey_text(program_id@),
            discriminator_of(instruction_name@),
            expected_signer_wallet@,
        ) {
            Ok(v) => r matches Ok(x) && x.slot == v.0 && texts(x.account_keys@) == v.1
                && x.account_indices@ == v.2 && x.data_raw@ == v.3
                && x.signer_wallet@ == expected_signer_wallet@,
            Err(e) => fails_with(r, e),
        },
{
    if reply.has_error {
        return Err(AppError::bad_request("solana rpc returned error for tx_hash"));
    }
    let result = match &reply.result {
        None => {
            return Err(AppError::bad_request("transaction not found at selected commitment"));
        },
        Some(t) => t,
    };
    if !result.meta_present {
        return Err(AppError::bad_request("missing transaction meta"));
    }
    if !result.meta_err_null {
        return Err(AppError::bad_request("transaction failed onchain"));
    }
    let slot = match result.slot {
        None => {
            return Err(AppError::internal("missing slot in transaction result"));
        },
        Some(s) => s,
    };
    let message = match &result.message {
        None => {
            return Err(AppError::internal("missing transaction.message"));
        },
        Some(m) => m,
    };
    let account_keys = parse_account_keys(message)?;
    let required = match message.num_required_signatures {
        None => {
            return Err(AppError::internal("missing numRequiredSignatures"));
        },
        Some(n) => n as usize,
    };
    let ghost keys = texts(account_keys@);
    let mut found = false;
    let mut j: usize = 0;
    while j < account_keys.len() && j < required
        invariant
            keys == texts(account_keys@),
            j <= account_keys@.len(),
            found ==> signer_among(keys, required as int, expected_signer_wallet@),
            !found ==> forall|k: int| 0 <= k < j ==> keys[k] != expected_signer_wallet@,
        decreases account_keys@.len() - j,
    {
        if str_eq(account_keys[j].as_str(), expected_signer_wallet) {
            found = true;
            proof {
                assert(keys[j as int] == expected_signer_wallet@);
            }
            break;
        }
        j = j + 1;
    }
    if !found {
        return Err(AppError::forbidden("jwt wallet is not a transaction signer"));
    }
    let signer_wallet = expected_signer_wallet.to_owned();
    let disc = instruction_discriminator(instruction_name);
    let program_text = crate::primitives::pubkey_to_text(program_id);
    let instructions = match &message.instructions {
        None => {
            return Err(AppError::internal("missing message.instructions"));
        },
        Some(v) => v,
    };
    let ghost prog = program_text@;
    proof {
        lemma_search_outcome(instructions@, keys, prog, disc@, instructions@.len() as int);
    }
    let mut matched: Option<(Vec<usize>, Vec<u8>)> = None;
    let mut i: usize = 0;
    while i < instructions.len()
        invariant
            i <= instructions@.len(),
            keys == texts(account_keys@),
            prog == program_text@,
            scan_instructions(instructions@, keys, prog, disc@, instructions@.len() as int) == search_outcome(
                instructions@,
                keys,
                prog,
                disc@,
                instructions@.len() as int,
            ),
            scan_instructions(instructions@, keys, prog, disc@, i as int) == Ok::<
                Option<InstructionMatch>,
                ErrorView,
            >(
                match matched {
                    None => None,
                    Some(m) => Some((m.0@, m.1@)),
                },
            ),
        decreases instructions@.len() - i,
    {
        let ins = &instructions[i];
        let pi = match ins.program_id_index {
            None => {
                proof {
                    lemma_scan_err_persists(instructions@, keys, prog, disc@, i + 1, instructions@.len() as int);
                }
                return Err(AppError::internal("missing instruction programIdIndex"));
            },
            Some(p) => p as usize,
        };
        if pi >= account_keys.len() {
            proof {
                lemma_scan_err_persists(instructions@, keys, prog, disc@, i + 1, instructions@.len() as int);
            }
            return Err(AppError::internal("programIdIndex out of range"));
        }
        if !str_eq(account_keys[pi].as_str(), program_text.as_str()) {
            i = i + 1;
            continue;
        }
        let data_text = match &ins.data {
            None => {
                proof {
                    lemma_scan_err_persists(instructions@, keys, prog, disc@, i + 1, instructions@.len() as int);
                }
                return Err(AppError::internal("missing instruction data"));
            },
            Some(d) => d,
        };
        let data_raw = match base58_decode(data_text.as_str()) {
            None => {
                proof {
                    lemma_scan_err_persists(instructions@, keys, prog, disc@, i + 1, instructions@.len() as int);
                }
                return Err(AppError::internal("invalid base58 instruction data"));
            },
            Some(v) => v,
        };
        if !starts_with_bytes(&data_raw, &disc) {
            i = i + 1;
            continue;
        }
        let accounts = match &ins.accounts {
            None => {
                proof {
                    lemma_scan_err_persists(instructions@, keys, prog, disc@, i + 1, instructions@.len() as int);
                }
                return Err(AppError::internal("missing instruction accounts"));
            },
            Some(a) => a,
        };
        let account_indices = match collect_account_indices(accounts) {
            None => {
                proof {
                    lemma_scan_err_persists(instructions@, keys, prog, disc@, i + 1, instructions@.len() as int);
                }
                return Err(AppError::internal("invalid account index"));
            },
            Some(v) => v,
        };
        if matched.is_some() {
            proof {
                lemma_scan_err_persists(instructions@, keys, prog, disc@, i + 1, instructions@.len() as int);
            }
            return Err(AppError::bad_request("multiple matching instructions found in one tx"));
        }
        matched = Some((account_indices, data_raw));
        i = i + 1;
    }
    match matched {
        None => Err(AppError::bad_request("matching instruction not found in transaction")),
        Some((account_indices, data_raw)) => Ok(
            VerifiedInstruction { slot, signer_wallet, account_keys, account_indices, data_raw },
        ),
    }
}

// ---------------------------------------------------------------------------
// The search for the instruction, stated over its matches
// ---------------------------------------------------------------------------

/// Whether the instruction is one the search looks for.
pub open spec fn is_match(ins: RawInstruction, keys: Seq<Seq<char>>, prog: Seq<char>, disc: Seq<u8>) -> bool {
    classify_instruction(ins, keys, prog, disc) matches Ok(Some(_))
}

/// Whether the search refuses the instruction (it is malformed).
pub open spec fn is_refused(ins: RawInstruction, keys: Seq<Seq<char>>, prog: Seq<char>, disc: Seq<u8>) -> bool {
    classify_instruction(ins, keys, prog, disc) is Err
}

/// The number of the first `n` instructions that match.
pub open spec fn match_count(
    ins: Seq<RawInstruction>,
    keys: Seq<Seq<char>>,
    prog: Seq<char>,
    disc: Seq<u8>,
    n: int,
) -> nat
    decreases n,
{
    if n <= 0 {
        0
    } else {
        match_count(ins, keys, prog, disc, n - 1) + if is_match(ins[n - 1], keys, prog, disc) {
            1nat
        } else {
            0nat
        }
    }
}

/// The index of the first of the first `n` instructions that matches; `n`
/// when none does.
pub open spec fn first_match(ins: Seq<RawInstruction>, keys: Seq<Seq<char>>, prog: Seq<char>, disc: Seq<u8>, n: int) -> int
    decreases n,
{
    if n <= 0 {
        0
    } else if first_match(ins, keys, prog, disc, n - 1) < n - 1 {
        first_match(ins, keys, prog, disc, n - 1)
    } else if is_match(ins[n - 1], keys, prog, disc) {
        n - 1
    } else {
        n
    }
}

/// The index of the first of the first `n` instructions that the search
/// refuses; `n` when it refuses none.
pub open spec fn first_refused(ins: Seq<RawInstruction>, keys: Seq<Seq<char>>, prog: Seq<char>, disc: Seq<u8>, n: int) -> int
    decreases n,
{
    if n <= 0 {
        0
    } else if first_refused(ins, keys, prog, disc, n - 1) < n - 1 {
        first_refused(ins, keys, prog, disc, n - 1)
    } else if is_refused(ins[n - 1], keys, prog, disc) {
        n - 1
    } else {
        n
    }
}

/// What the search for the instruction of program `prog` with
/// discriminator `disc` among the first `n` instructions comes to: a second
/// match before any malformed instruction is refused as one too many; else
/// the first malformed instruction is refused for what is wrong with it;
/// else the one match is found, or none.
pub open spec fn search_outcome(
    ins: Seq<RawInstruction>,
    keys: Seq<Seq<char>>,
    prog: Seq<char>,
    disc: Seq<u8>,
    n: int,
) -> Result<Option<InstructionMatch>, ErrorView> {
    let b = first_refused(ins, keys, prog, disc, n);
    if match_count(ins, keys, prog, disc, b) >= 2 {
        Err((ErrorKind::BadRequest, "multiple matching instructions found in one tx"@))
    } else if b < n {
        classify_instruction(ins[b], keys, prog, disc)
    } else if match_count(ins, keys, prog, disc, n) == 1 {
        classify_instruction(ins[first_match(ins, keys, prog, disc, n)], keys, prog, disc)
    } else {
        Ok(None)
    }
}

proof fn lemma_first_match(ins: Seq<RawInstruction>, keys: Seq<Seq<char>>, prog: Seq<char>, disc: Seq<u8>, n: int)
    requires
        0 <= n,
    ensures
        0 <= first_match(ins, keys, prog, disc, n) <= n,
        first_match(ins, keys, prog, disc, n) == n <==> match_count(ins, keys, prog, disc, n) == 0,
        first_match(ins, keys, prog, disc, n) < n ==> is_match(
            ins[first_match(ins, keys, prog, disc, n)],
            keys,
            prog,
            disc,
        ),
        0 <= first_refused(ins, keys, prog, disc, n) <= n,
        first_refused(ins, keys, prog, disc, n) < n ==> is_refused(
            ins[first_refused(ins, keys, prog, disc, n)],
            keys,
            prog,
            disc,
        ),
    decreases n,
{
    if n > 0 {
        lemma_first_match(ins, keys, prog, disc, n - 1);
    }
}

proof fn lemma_count_grows(ins: Seq<RawInstruction>, keys: Seq<Seq<char>>, prog: Seq<char>, disc: Seq<u8>, a: int, b: int)
    requires
        a <= b,
    ensures
        match_count(ins, keys, prog, disc, a) <= match_count(ins, keys, prog, disc, b),
    decreases b - a,
{
    if a < b {
        lemma_count_grows(ins, keys, prog, disc, a, b - 1);
    }
}

/// The step-by-step search over the first `n` instructions comes to
/// `search_outcome`.
proof fn lemma_search_outcome(ins: Seq<RawInstruction>, keys: Seq<Seq<char>>, prog: Seq<char>, disc: Seq<u8>, n: int)
    requires
        0 <= n <= ins.len(),
    ensures
        scan_instructions(ins, keys, prog, disc, n) == search_outcome(ins, keys, prog, disc, n),
    decreases n,
{
    if n > 0 {
        lemma_search_outcome(ins, keys, prog, disc, n - 1);
        lemma_first_match(ins, keys, prog, disc, n - 1);
        lemma_first_match(ins, keys, prog, disc, n);
        lemma_count_grows(ins, keys, prog, disc, n - 1, n);
        let b0 = first_refused(ins, keys, prog, disc, n - 1);
        if b0 < n - 1 {
            lemma_count_grows(ins, keys, prog, disc, b0, n - 1);
        }
    }
}

/// The instruction search, stated over its matches: among well-formed
/// instructions (none of which the search refuses), it finds the one
/// matching instruction when there is exactly one, answers that there is
/// none when none matches, and refuses more than one with `multiple matching
/// instructions found in one tx`.
pub proof fn law_instruction_search_over_matches(
    ins: Seq<RawInstruction>,
    keys: Seq<Seq<char>>,
    prog: Seq<char>,
    disc: Seq<u8>,
)
    requires
        forall|i: int| 0 <= i < ins.len() ==> !#[trigger] is_refused(ins[i], keys, prog, disc),
    ensures
        match_count(ins, keys, prog, disc, ins.len() as int) == 0 ==> search_outcome(
            ins,
            keys,
            prog,
            disc,
            ins.len() as int,
        ) == Ok::<Option<InstructionMatch>, ErrorView>(None),
        match_count(ins, keys, prog, disc, ins.len() as int) == 1 ==> exists|i: int|
            0 <= i < ins.len() && #[trigger] is_match(ins[i], keys, prog, disc) && search_outcome(
                ins,
                keys,
                prog,
                disc,
                ins.len() as int,
            ) == classify_instruction(ins[i], keys, prog, disc),
        match_count(ins, keys, prog, disc, ins.len() as int) >= 2 ==> search_outcome(
            ins,
            keys,
            prog,
            disc,
            ins.len() as int,
        ) == Err::<Option<InstructionMatch>, ErrorView>(
            (ErrorKind::BadRequest, "multiple matching instructions found in one tx"@),
        ),
{
    let n = ins.len() as int;
    lemma_first_match(ins, keys, prog, disc, n);
    if first_refused(ins, keys, prog, disc, n) < n {
        let b = first_refused(ins, keys, prog, disc, n);
        assert(!is_refused(ins[b], keys, prog, disc));
    }
    if match_count(ins, keys, prog, disc, n) == 1 {
        let f = first_match(ins, keys, prog, disc, n);
        assert(0 <= f < n && is_match(ins[f], keys, prog, disc));
    }
}

/// A transaction passes verification only if it succeeded on chain, the
/// wallet is one of its required signers (among the first
/// `numRequiredSignatures` account keys), and exactly one of its
/// instructions is a well-formed call of the program whose data begins
/// with the discriminator; the verified instruction is that one, with the
/// transaction's slot and account keys.
pub proof fn law_verified_transaction_is_signed_and_matches(
    reply: RpcReply,
    prog: Seq<char>,
    disc: Seq<u8>,
    signer: Seq<char>,
)
    requires
        transaction_verification(reply, prog, disc, signer) is Ok,
    ensures
        ({
            let v = transaction_verification(reply, prog, disc, signer)->Ok_0;
            let t = reply.result->Some_0;
            let m = t.message->Some_0;
            let ins = m.instructions->Some_0@;
            &&& !reply.has_error
            &&& reply.result is Some
            &&& t.meta_present && t.meta_err_null
            &&& t.slot == Some(v.0)
            &&& t.message is Some
            &&& account_keys_parse(m) == Ok::<Seq<Seq<char>>, ErrorView>(v.1)
            &&& m.num_required_signatures is Some
            &&& exists|k: int|
                0 <= k < m.num_required_signatures->Some_0 as usize && k < v.1.len() && #[trigger] v.1[k] == signer
            &&& m.instructions is Some
            &&& match_count(ins, v.1, prog, disc, ins.len() as int) == 1
            &&& exists|i: int|
                0 <= i < ins.len() && #[trigger] is_match(ins[i], v.1, prog, disc) && {
                    let pi = ins[i].program_id_index->Some_0;
                    &&& (pi as usize) < v.1.len()
                    &&& v.1[pi as usize as int] == prog
                    &&& base58_decoded(ins[i].data->Some_0@) == Some(v.3)
                    &&& v.3.len() >= 8
                    &&& v.3.subrange(0, 8) == disc
                    &&& classify_instruction(ins[i], v.1, prog, disc) == Ok::<Option<InstructionMatch>, ErrorView>(
                        Some((v.2, v.3)),
                    )
                }
        }),
{
    let t = reply.result->Some_0;
    let m = t.message->Some_0;
    let keys = account_keys_parse(m)->Ok_0;
    let ins = m.instructions->Some_0@;
    let n = ins.len() as int;
    let v = transaction_verification(reply, prog, disc, signer)->Ok_0;
    lemma_first_match(ins, keys, prog, disc, n);
    let b = first_refused(ins, keys, prog, disc, n);
    let out = search_outcome(ins, keys, prog, disc, n);
    assert(out == Ok::<Option<InstructionMatch>, ErrorView>(Some((v.2, v.3))));
    assert(keys == v.1);
    if b < n {
        assert(is_refused(ins[b], keys, prog, disc));
        assert(match_count(ins, keys, prog, disc, b) >= 2 || out == classify_instruction(ins[b], keys, prog, disc));
    }
    assert(b == n);
    assert(match_count(ins, keys, prog, disc, n) == 1);
    let f = first_match(ins, keys, prog, disc, n);
    assert(f < n);
    assert(is_match(ins[f], keys, prog, disc));
    assert(classify_instruction(ins[f], keys, prog, disc) == out);
    let pi = ins[f].program_id_index->Some_0;
    assert(ins[f].program_id_index is Some);
    assert(signer_among(keys, m.num_required_signatures->Some_0 as usize as int, signer));
}

// ---------------------------------------------------------------------------
// Laws: the instruction payloads read back what the program's encoding wrote
// ---------------------------------------------------------------------------

/// The eight little-endian bytes of `v` read back as `v`.
pub proof fn law_le_u64_round_trip(v: u64)
    ensures
        le_u64_at(le_bytes_u64(v), 0) == v,
{
    reveal_with_fuel(pow256, 8);
    let b = le_bytes_u64(v);
    assert(pow256(1) == 0x100 && pow256(2) == 0x10000 && pow256(3) == 0x1000000 && pow256(4) == 0x100000000);
    assert(pow256(5) == 0x10000000000 && pow256(6) == 0x1000000000000 && pow256(7) == 0x100000000000000);
    let b0: u64 = v % 0x100;
    let b1: u64 = (v / 0x100) % 0x100;
    let b2: u64 = (v / 0x10000) % 0x100;
    let b3: u64 = (v / 0x1000000) % 0x100;
    let b4: u64 = (v / 0x100000000) % 0x100;
    let b5: u64 = (v / 0x10000000000) % 0x100;
    let b6: u64 = (v / 0x1000000000000) % 0x100;
    let b7: u64 = (v / 0x100000000000000) % 0x100;
    assert(b[0] == ((v as nat / pow256(0)) % 256) as u8);
    assert(pow256(0) == 1);
    assert(v as nat / 1 == v as nat);
    assert((v as nat % 256) < 256);
    assert(b[0] == b0);
    assert(v == b0 + 0x100 * b1 + 0x10000 * b2 + 0x1000000 * b3 + 0x100000000 * (b4 + 0x100 * b5 + 0x10000 * b6
        + 0x1000000 * b7)) by (bit_vector)
        requires
            b0 == v % 0x100,
            b1 == (v / 0x100) % 0x100,
            b2 == (v / 0x10000) % 0x100,
            b3 == (v / 0x1000000) % 0x100,
            b4 == (v / 0x100000000) % 0x100,
            b5 == (v / 0x10000000000) % 0x100,
            b6 == (v / 0x1000000000000) % 0x100,
            b7 == (v / 0x100000000000000) % 0x100,
    ;
}

proof fn lemma_le_u64_at_shift(d: Seq<u8>, at: int, b: Seq<u8>)
    requires
        b.len() == 8,
        0 <= at,
        at + 8 <= d.len(),
        forall|k: int| 0 <= k < 8 ==> d[at + k] == #[trigger] b[k],
    ensures
        le_u64_at(d, at) == le_u64_at(b, 0),
{
    assert(d[at] == b[0] && d[at + 1] == b[1] && d[at + 2] == b[2] && d[at + 3] == b[3]);
    assert(d[at + 4] == b[4] && d[at + 5] == b[5] && d[at + 6] == b[6] && d[at + 7] == b[7]);
}

/// A `create_expense` payload as the program's client encodes it (the
/// discriminator, then the expense id and the amount as little-endian
/// `u64`, then the 32-byte note hash) reads back that id and that amount,
/// in that order.
pub proof fn law_expense_args_round_trip(disc: Seq<u8>, id: u64, amount: u64, note: Seq<u8>)
    requires
        disc.len() == 8,
        note.len() == 32,
    ensures
        expense_args_decoding(disc + le_bytes_u64(id) + le_bytes_u64(amount) + note) == Ok::<(nat, nat), ErrorView>(
            (id as nat, amount as nat),
        ),
{
    let bi = le_bytes_u64(id);
    let ba = le_bytes_u64(amount);
    let d = disc + bi + ba + note;
    assert(d.len() == 56);
    assert forall|k: int| 0 <= k < 8 implies d[8 + k] == #[trigger] bi[k] by {}
    assert forall|k: int| 0 <= k < 8 implies d[16 + k] == #[trigger] ba[k] by {}
    lemma_le_u64_at_shift(d, 8, bi);
    lemma_le_u64_at_shift(d, 16, ba);
    law_le_u64_round_trip(id);
    law_le_u64_round_trip(amount);
}

/// The four bytes of `v` in little-endian order.
pub open spec fn le_bytes_u32(v: u32) -> Seq<u8> {
    seq![(v % 0x100) as u8, ((v / 0x100) % 0x100) as u8, ((v / 0x10000) % 0x100) as u8, ((v / 0x1000000) % 0x100) as u8]
}

/// A `create_category` payload as the program's client encodes it (the
/// discriminator, then the name's UTF-8 length as a little-endian `u32`,
/// then its UTF-8 bytes) reads back that name.
pub proof fn law_category_name_round_trip(disc: Seq<u8>, len: u32, name: Seq<char>)
    requires
        disc.len() == 8,
        vstd::utf8::encode_utf8(name).len() == len,
    ensures
        category_name_decoding(disc + le_bytes_u32(len) + vstd::utf8::encode_utf8(name)) == Ok::<Seq<char>, ErrorView>(
            name,
        ),
{
    let bytes = vstd::utf8::encode_utf8(name);
    let lb = le_bytes_u32(len);
    let d = disc + lb + bytes;
    let b0: u32 = len % 0x100;
    let b1: u32 = (len / 0x100) % 0x100;
    let b2: u32 = (len / 0x10000) % 0x100;
    let b3: u32 = (len / 0x1000000) % 0x100;
    assert(len == b0 + 0x100 * b1 + 0x10000 * b2 + 0x1000000 * b3) by (bit_vector)
        requires
            b0 == len % 0x100,
            b1 == (len / 0x100) % 0x100,
            b2 == (len / 0x10000) % 0x100,
            b3 == (len / 0x1000000) % 0x100,
    ;
    assert(d[8] == lb[0] && d[9] == lb[1] && d[10] == lb[2] && d[11] == lb[3]);
    assert(le_u32_at(d, 8) == len);
    assert(d.subrange(12, 12 + len as int) =~= bytes);
    vstd::utf8::encode_utf8_valid_utf8(name);
    vstd::utf8::encode_utf8_decode_utf8(name);
}

} // verus!
