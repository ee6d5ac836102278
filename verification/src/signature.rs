//! Wallet signatures over login challenges.
use vstd::prelude::*;
use crate::primitives::{base58_decode, base58_decoded, ed25519_accepts, ed25519_verify};

verus! {

/// Whether `signature` (base58) is a valid Ed25519 signature of the UTF-8
/// bytes of `message` by the wallet `wallet` (base58 of a 32-byte public
/// key): both texts must decode, to 32 and 64 bytes.
pub open spec fn wallet_signature_valid(wallet: Seq<char>, signature: Seq<char>, message: Seq<char>) -> bool {
    match (base58_decoded(wallet), base58_decoded(signature)) {
        (Some(pk), Some(sig)) => pk.len() == 32 && sig.len() == 64 && ed25519_accepts(
            pk,
            sig,
            vstd::utf8::encode_utf8(message),
        ),
        _ => false,
    }
}

/// Checks a wallet's signature over a message, all given as text.
pub fn verify_signature_base58(wallet_address_base58: &str, signature_base58: &str, message: &str) -> (r: bool)
    ensures
        r == wallet_signature_valid(wallet_address_base58@, signature_base58@, message@),
{
    let pubkey_bytes = match base58_decode(wallet_address_base58) {
        Some(v) => v,
        None => {
            return false;
        },
    };
    if pubkey_bytes.len() != 32 {
        return false;
    }
    let sig_bytes = match base58_decode(signature_base58) {
        Some(v) => v,
        None => {
            return false;
        },
    };
    if sig_bytes.len() != 64 {
        return false;
    }
    ed25519_verify(pubkey_bytes.as_slice(), sig_bytes.as_slice(), message.as_bytes())
}

} // verus!
