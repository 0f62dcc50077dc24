//! BOLT-11 invoice handling: parsing through the `lightning_invoice`
//! crate behind a trusted wrapper, and the verified validation rules the
//! engine applies to every invoice it accepts.

use vstd::prelude::*;

use crate::error::PaymentError;
use crate::model::Network;

verus! {

/// The Bitcoin-side network an invoice was issued for.
#[derive(Clone, Copy, Debug, PartialEq, Eq, Structural)]
pub enum InvoiceNetwork {
    Bitcoin,
    Testnet,
    Regtest,
    Simnet,
    Signet,
}

/// A parsed BOLT-11 invoice, reduced to the plain values the engine
/// reads.
#[derive(Clone, Debug, PartialEq)]
pub struct LNInvoice {
    pub network: InvoiceNetwork,
    /// The invoice amount, when one is carried.
    pub amount_msat: Option<u64>,
    /// Lower-case hex of the 32-byte payment hash.
    pub payment_hash_hex: String,
    /// Creation time, in seconds since the Unix epoch.
    pub timestamp_secs: u64,
    /// Seconds after the creation time at which the invoice expires.
    pub expiry_secs: u64,
}

/// What BOLT-11 parsing returns on a given string, after trimming
/// surrounding whitespace: `None` when the string is no well-formed,
/// correctly signed invoice.
pub uninterp spec fn parsed_invoice(s: Seq<char>) -> Option<LNInvoice>;

/// Relies on `lightning_invoice::Bolt11Invoice::from_str` (the BOLT-11
/// parser, checksum and signature checks included) and its accessors:
/// the result is a function of the characters alone, named by
/// [`parsed_invoice`]. The payment hash is that type's 32-byte SHA-256
/// hash, rendered by its `Display` as 64 lower-case hex characters.
#[verifier::external_body]
pub fn parse_bolt11(s: &str) -> (r: Option<LNInvoice>)
    ensures
        r == parsed_invoice(s@),
        r matches Some(inv) ==> inv.payment_hash_hex@.len() == 64,
{
    let inv = match s.trim().parse::<lightning_invoice::Bolt11Invoice>() { Ok(i) => i, Err(_) => return None };
    let network = match inv.currency() {
        lightning_invoice::Currency::Bitcoin => InvoiceNetwork::Bitcoin,
        lightning_invoice::Currency::BitcoinTestnet => InvoiceNetwork::Testnet,
        lightning_invoice::Currency::Regtest => InvoiceNetwork::Regtest,
        lightning_invoice::Currency::Simnet => InvoiceNetwork::Simnet,
        lightning_invoice::Currency::Signet => InvoiceNetwork::Signet,
    };
    let payment_hash_hex = format!("{}", inv.payment_hash());
    let (timestamp_secs, expiry_secs) = (inv.duration_since_epoch().as_secs(), inv.expiry_time().as_secs());
    Some(LNInvoice { network, amount_msat: inv.amount_milli_satoshis(), payment_hash_hex, timestamp_secs, expiry_secs })
}

/// Whether the invoice has expired at the given wall-clock time: the
/// elapsed seconds since its creation exceed its expiry window. A clock
/// that sits before the creation time never counts as expired.
pub open spec fn spec_invoice_expired(inv: LNInvoice, now_secs: u64) -> bool {
    now_secs > inv.timestamp_secs + inv.expiry_secs
}

/// Checks invoice expiry against a wall-clock timestamp.
pub fn invoice_expired(inv: &LNInvoice, now_secs: u64) -> (r: bool)
    ensures
        r == spec_invoice_expired(*inv, now_secs),
{
    (now_secs as u128) > (inv.timestamp_secs as u128) + (inv.expiry_secs as u128)
}

/// Whether an invoice network is the Lightning side of the wallet's
/// Liquid network: Bitcoin mainnet pairs with Liquid mainnet, Bitcoin
/// testnet with Liquid testnet.
pub open spec fn spec_network_matches(inv_network: InvoiceNetwork, network: Network) -> bool {
    match (inv_network, network) {
        (InvoiceNetwork::Bitcoin, Network::Mainnet) => true,
        (InvoiceNetwork::Testnet, Network::Testnet) => true,
        _ => false,
    }
}

/// Whether the engine accepts the invoice string at the given time:
/// it parses, was issued for the matching network, and has not expired.
pub open spec fn spec_invoice_valid(s: Seq<char>, network: Network, now_secs: u64) -> bool {
    match parsed_invoice(s) {
        Some(inv) => spec_network_matches(inv.network, network) && !spec_invoice_expired(
            inv,
            now_secs,
        ),
        None => false,
    }
}

/// Parses and validates an invoice: it must be well-formed, issued for
/// the wallet's network, and not yet expired at `now_secs`. Every
/// rejection is an `InvalidInvoice` error.
pub fn validate_invoice(invoice: &str, network: Network, now_secs: u64) -> (r: Result<
    LNInvoice,
    PaymentError,
>)
    ensures
        r matches Ok(inv) ==> parsed_invoice(invoice@) == Some(inv),
        r is Ok <==> spec_invoice_valid(invoice@, network, now_secs),
        r is Err ==> r == Err::<LNInvoice, PaymentError>(PaymentError::InvalidInvoice),
{
    let inv = match parse_bolt11(invoice) {
        Some(i) => i,
        None => {
            return Err(PaymentError::InvalidInvoice);
        },
    };
    let matches_network = match (inv.network, network) {
        (InvoiceNetwork::Bitcoin, Network::Mainnet) => true,
        (InvoiceNetwork::Testnet, Network::Testnet) => true,
        _ => false,
    };
    if !matches_network {
        return Err(PaymentError::InvalidInvoice);
    }
    if invoice_expired(&inv, now_secs) {
        return Err(PaymentError::InvalidInvoice);
    }
    Ok(inv)
}

/// The invoice amount in whole satoshi, when the invoice carries one.
pub open spec fn spec_invoice_amount_sat(inv: LNInvoice) -> Option<u64> {
    match inv.amount_msat {
        Some(msat) => Some((msat / 1000) as u64),
        None => None,
    }
}

/// Reads the invoice amount in whole satoshi.
pub fn invoice_amount_sat(inv: &LNInvoice) -> (r: Option<u64>)
    ensures
        r == spec_invoice_amount_sat(*inv),
{
    match inv.amount_msat {
        Some(msat) => Some(msat / 1000),
        None => None,
    }
}

} // verus!
