//! Swap pair quotes and fee arithmetic.
//!
//! The swapper quotes a pair as limits, a proportional fee and miner-fee
//! estimates. The quote arrives from the network edge reduced to plain
//! integers (the proportional fee in basis points); the fee totals and
//! limit checks on it are verified here.

use vstd::prelude::*;

use crate::error::PaymentError;

verus! {

/// A quoted L-BTC-to-BTC (submarine, Send) pair.
#[derive(Clone, Debug, PartialEq)]
pub struct SubmarinePair {
    /// Quote hash, echoed back when creating a swap against this quote.
    pub hash: String,
    pub limits_minimal: u64,
    pub limits_maximal: u64,
    /// Proportional swapper fee, in basis points of the amount.
    pub fees_percentage_bp: u32,
    /// Miner-fee estimate the swapper charges for its transactions.
    pub fees_miner: u64,
}

/// A quoted BTC-to-L-BTC (reverse submarine, Receive) pair.
#[derive(Clone, Debug, PartialEq)]
pub struct ReversePair {
    /// Quote hash, echoed back when creating a swap against this quote.
    pub hash: String,
    pub limits_minimal: u64,
    pub limits_maximal: u64,
    /// Proportional swapper fee, in basis points of the amount.
    pub fees_percentage_bp: u32,
    /// Miner-fee estimate for the swapper's lockup transaction.
    pub fees_miner_lockup: u64,
    /// Miner-fee estimate for the wallet's claim transaction.
    pub fees_miner_claim: u64,
}

/// The proportional fee on an amount, rounded up to a whole satoshi.
pub open spec fn spec_proportional_fee(amount_sat: u64, percentage_bp: u32) -> int {
    (amount_sat * percentage_bp + 9999) / 10000
}

/// Total swap fees of a Send quote on a receiver amount.
pub open spec fn spec_submarine_total_fees(pair: SubmarinePair, amount_sat: u64) -> int {
    spec_proportional_fee(amount_sat, pair.fees_percentage_bp) + pair.fees_miner
}

/// Total swap fees of a Receive quote on a payer amount.
pub open spec fn spec_reverse_total_fees(pair: ReversePair, amount_sat: u64) -> int {
    spec_proportional_fee(amount_sat, pair.fees_percentage_bp) + pair.fees_miner_lockup
        + pair.fees_miner_claim
}

/// Whether an amount lies inside a quote's limits.
pub open spec fn spec_within_limits(minimal: u64, maximal: u64, amount_sat: u64) -> bool {
    minimal <= amount_sat <= maximal
}

fn proportional_fee(amount_sat: u64, percentage_bp: u32) -> (r: u128)
    ensures
        r == spec_proportional_fee(amount_sat, percentage_bp),
        r <= u64::MAX as u128 * u32::MAX as u128,
{
    proof {
        assert((amount_sat as int) * (percentage_bp as int) <= (u64::MAX as int) * (
        u32::MAX as int)) by (nonlinear_arith)
            requires
                amount_sat <= u64::MAX,
                percentage_bp <= u32::MAX,
        ;
    }
    ((amount_sat as u128) * (percentage_bp as u128) + 9999) / 10000
}

/// Total swap fees of a Send quote, or `None` when they do not fit a
/// 64-bit satoshi amount.
pub fn submarine_total_fees_sat(pair: &SubmarinePair, amount_sat: u64) -> (r: Option<u64>)
    ensures
        r matches Some(f) ==> f == spec_submarine_total_fees(*pair, amount_sat),
        r is Some <==> spec_submarine_total_fees(*pair, amount_sat) <= u64::MAX,
{
    let total = proportional_fee(amount_sat, pair.fees_percentage_bp) + (pair.fees_miner as u128);
    if total <= u64::MAX as u128 {
        Some(total as u64)
    } else {
        None
    }
}

/// Total swap fees of a Receive quote, or `None` when they do not fit a
/// 64-bit satoshi amount.
pub fn reverse_total_fees_sat(pair: &ReversePair, amount_sat: u64) -> (r: Option<u64>)
    ensures
        r matches Some(f) ==> f == spec_reverse_total_fees(*pair, amount_sat),
        r is Some <==> spec_reverse_total_fees(*pair, amount_sat) <= u64::MAX,
{
    let total = proportional_fee(amount_sat, pair.fees_percentage_bp)
        + (pair.fees_miner_lockup as u128) + (pair.fees_miner_claim as u128);
    if total <= u64::MAX as u128 {
        Some(total as u64)
    } else {
        None
    }
}

/// Whether a Send quote accepts the receiver amount: inside the limits,
/// with fees that fit and leave the amount strictly above them.
pub open spec fn spec_submarine_quote_ok(pair: SubmarinePair, amount_sat: u64) -> bool {
    &&& spec_within_limits(pair.limits_minimal, pair.limits_maximal, amount_sat)
    &&& spec_submarine_total_fees(pair, amount_sat) <= u64::MAX
    &&& amount_sat > spec_submarine_total_fees(pair, amount_sat)
}

/// Validates a Send quote lookup against a receiver amount and returns
/// the total swap fees.
///
/// Fails with `PairsNotFound` when the swapper did not quote the pair,
/// and with `AmountOutOfRange` when the amount lies outside the limits
/// or does not strictly exceed the fees.
pub fn validate_submarine_pairs(pair: Option<&SubmarinePair>, receiver_amount_sat: u64) -> (r:
    Result<u64, PaymentError>)
    ensures
        pair is None ==> r == Err::<u64, PaymentError>(PaymentError::PairsNotFound),
        pair matches Some(p) ==> {
            &&& r is Ok <==> spec_submarine_quote_ok(*p, receiver_amount_sat)
            &&& (r matches Ok(f) ==> f == spec_submarine_total_fees(*p, receiver_amount_sat))
            &&& (r is Err ==> r == Err::<u64, PaymentError>(PaymentError::AmountOutOfRange))
        },
{
    let p = match pair {
        Some(p) => p,
        None => {
            return Err(PaymentError::PairsNotFound);
        },
    };
    if receiver_amount_sat < p.limits_minimal || receiver_amount_sat > p.limits_maximal {
        return Err(PaymentError::AmountOutOfRange);
    }
    let fees_sat = match submarine_total_fees_sat(p, receiver_amount_sat) {
        Some(f) => f,
        None => {
            return Err(PaymentError::AmountOutOfRange);
        },
    };
    if receiver_amount_sat > fees_sat {
        Ok(fees_sat)
    } else {
        Err(PaymentError::AmountOutOfRange)
    }
}

/// Whether a Receive quote accepts the payer amount: inside the limits,
/// with fees that fit and leave the amount strictly above them.
pub open spec fn spec_reverse_quote_ok(pair: ReversePair, amount_sat: u64) -> bool {
    &&& spec_within_limits(pair.limits_minimal, pair.limits_maximal, amount_sat)
    &&& spec_reverse_total_fees(pair, amount_sat) <= u64::MAX
    &&& amount_sat > spec_reverse_total_fees(pair, amount_sat)
}

/// Validates a Receive quote lookup against a payer amount and returns
/// the total swap fees.
///
/// Fails with `PairsNotFound` when the swapper did not quote the pair,
/// and with `AmountOutOfRange` when the amount lies outside the limits
/// or does not strictly exceed the fees.
pub fn validate_reverse_pairs(pair: Option<&ReversePair>, payer_amount_sat: u64) -> (r: Result<
    u64,
    PaymentError,
>)
    ensures
        pair is None ==> r == Err::<u64, PaymentError>(PaymentError::PairsNotFound),
        pair matches Some(p) ==> {
            &&& r is Ok <==> spec_reverse_quote_ok(*p, payer_amount_sat)
            &&& (r matches Ok(f) ==> f == spec_reverse_total_fees(*p, payer_amount_sat))
            &&& (r is Err ==> r == Err::<u64, PaymentError>(PaymentError::AmountOutOfRange))
        },
{
    let p = match pair {
        Some(p) => p,
        None => {
            return Err(PaymentError::PairsNotFound);
        },
    };
    let fees_sat = match reverse_total_fees_sat(p, payer_amount_sat) {
        Some(f) => f,
        None => {
            return Err(PaymentError::AmountOutOfRange);
        },
    };
    if payer_amount_sat <= fees_sat {
        return Err(PaymentError::AmountOutOfRange);
    }
    if payer_amount_sat < p.limits_minimal || payer_amount_sat > p.limits_maximal {
        return Err(PaymentError::AmountOutOfRange);
    }
    Ok(fees_sat)
}

} // verus!
