//! SHA-256 digests through the `bitcoin_hashes` crate behind a trusted
//! wrapper, and the verified preimage/payment-hash binding check.

use vstd::prelude::*;

use crate::error::PaymentError;
use crate::invoice::parse_bolt11;
use crate::invoice::parsed_invoice;
use crate::utils::spec_hex_decode;
use crate::utils::spec_hex_of;
use crate::utils::hex_decode;
use crate::utils::str_eq;
use crate::utils::to_hex;

verus! {

/// What SHA-256 returns on a given byte sequence.
pub uninterp spec fn sha256_of(data: Seq<u8>) -> Seq<u8>;

/// Relies on `bitcoin_hashes::sha256::Hash::hash`: the 32-byte SHA-256
/// digest of the input, a function of the bytes alone, named by
/// [`sha256_of`].
#[verifier::external_body]
pub fn sha256(data: &Vec<u8>) -> (r: Vec<u8>)
    ensures
        r@ == sha256_of(data@),
        r@.len() == 32,
{
    bitcoin_hashes::sha256::Hash::hash(data.as_slice()).to_byte_array().to_vec()
}

/// Whether a hex-encoded preimage hashes to the given hex-encoded
/// payment hash: the preimage must be well-formed hex and the lower-case
/// hex of its SHA-256 digest must equal the hash string.
pub open spec fn spec_preimage_matches(preimage: Seq<char>, payment_hash_hex: Seq<char>) -> bool {
    match spec_hex_decode(preimage) {
        Some(bytes) => spec_hex_of(sha256_of(bytes)) == payment_hash_hex,
        None => false,
    }
}

/// Whether a hex preimage is bound to an invoice: the invoice parses and
/// the preimage hashes to its payment hash.
pub open spec fn spec_invoice_binding(invoice: Seq<char>, preimage: Seq<char>) -> bool {
    match parsed_invoice(invoice) {
        Some(inv) => spec_preimage_matches(preimage, inv.payment_hash_hex@),
        None => false,
    }
}

/// Checks that a hex preimage hashes to the invoice's payment hash.
///
/// Fails with `InvalidPreimage` when the preimage is no well-formed hex
/// string or its digest does not match, and with `InvalidInvoice` when
/// the invoice cannot be parsed.
pub fn verify_payment_hash(preimage: &str, invoice: &str) -> (r: Result<(), PaymentError>)
    ensures
        r is Ok <==> spec_hex_decode(preimage@) is Some && (parsed_invoice(invoice@) matches Some(
            inv,
        ) && spec_preimage_matches(preimage@, inv.payment_hash_hex@)),
        r is Err ==> r->Err_0 == if spec_hex_decode(preimage@) is None {
            PaymentError::InvalidPreimage
        } else if parsed_invoice(invoice@) is None {
            PaymentError::InvalidInvoice
        } else {
            PaymentError::InvalidPreimage
        },
{
    let preimage_bytes = match hex_decode(preimage) {
        Some(b) => b,
        None => {
            return Err(PaymentError::InvalidPreimage);
        },
    };
    let inv = match parse_bolt11(invoice) {
        Some(i) => i,
        None => {
            return Err(PaymentError::InvalidInvoice);
        },
    };
    let digest_hex = to_hex(&sha256(&preimage_bytes));
    if str_eq(digest_hex.as_str(), inv.payment_hash_hex.as_str()) {
        Ok(())
    } else {
        Err(PaymentError::InvalidPreimage)
    }
}

} // verus!
