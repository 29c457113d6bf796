//! The balance that keeps an account exempt from rent.

use solana_sdk::rent::Rent;
use vstd::prelude::*;

verus! {

/// Bytes of bookkeeping that every account is charged for besides its data.
pub const ACCOUNT_STORAGE_OVERHEAD: u64 = 128;

/// The largest data length the ledger permits an account.
pub const MAX_ACCOUNT_DATA_LEN: u64 = 10 * 1024 * 1024;

/// The largest rent rate at which the yearly rent of every permitted account
/// fits in 64 bits.
pub const MAX_RENT_RATE: u64 = u64::MAX / (ACCOUNT_STORAGE_OVERHEAD + MAX_ACCOUNT_DATA_LEN);

/// The rent rate of a new ledger, in lamports per byte and year.
pub const DEFAULT_RENT_RATE: u64 = 3480;

/// The smallest balance at which an account of `data_len` bytes is exempt
/// from rent when a byte costs `rate` lamports a year.
pub uninterp spec fn exempt_minimum(rate: u64, data_len: usize) -> u64;

/// Whether the size that an account of `data_len` bytes is charged for, and
/// its yearly rent at `rate`, both fit in 64 bits.
pub open spec fn rent_fits(rate: u64, data_len: usize) -> bool {
    &&& ACCOUNT_STORAGE_OVERHEAD + data_len <= u64::MAX
    &&& (ACCOUNT_STORAGE_OVERHEAD + data_len) * rate <= u64::MAX
}

/// Whether the yearly rent of every permitted account fits in 64 bits.
pub open spec fn rate_in_range(rate: u64) -> bool {
    rate <= MAX_RENT_RATE
}

/// What a snapshot asks of a new account of `data_len` bytes: the exempt
/// minimum, and never less than one lamport.
pub open spec fn exempt_balance(rate: u64, data_len: usize) -> u64 {
    if exempt_minimum(rate, data_len) < 1 {
        1
    } else {
        exempt_minimum(rate, data_len)
    }
}

/// `Rent::minimum_balance` of the ledger's default rent with the rate
/// replaced by `rate`. The result goes by the name `exempt_minimum`. Inputs
/// whose charged size or yearly rent does not fit in 64 bits are left out:
/// the sum or the product overflows on them.
#[verifier::external_body]
fn minimum_balance(rate: u64, data_len: usize) -> (lamports: u64)
    requires
        rent_fits(rate, data_len),
    ensures
        lamports == exempt_minimum(rate, data_len),
{
    Rent { lamports_per_byte_year: rate, ..Rent::default() }.minimum_balance(data_len)
}

/// The balance that makes an account of `data_len` bytes exempt from rent.
pub fn minimum_balance_for_rent_exemption(rate: u64, data_len: usize) -> (lamports: u64)
    requires
        rent_fits(rate, data_len),
    ensures
        lamports == exempt_balance(rate, data_len),
{
    let minimum = minimum_balance(rate, data_len);
    if minimum < 1 {
        1
    } else {
        minimum
    }
}

/// A rate in range covers every permitted data length.
pub proof fn lemma_rate_in_range(rate: u64, data_len: usize)
    requires
        rate_in_range(rate),
        data_len <= MAX_ACCOUNT_DATA_LEN,
    ensures
        rent_fits(rate, data_len),
{
    let most: int = ACCOUNT_STORAGE_OVERHEAD + MAX_ACCOUNT_DATA_LEN;
    let top: int = u64::MAX as int;
    assert(MAX_RENT_RATE == top / most);
    assert(MAX_RENT_RATE * most <= top) by (nonlinear_arith)
        requires
            MAX_RENT_RATE == top / most,
            most > 0,
    ;
    assert((ACCOUNT_STORAGE_OVERHEAD + data_len) * rate <= MAX_RENT_RATE * most)
        by (nonlinear_arith)
        requires
            0 <= ACCOUNT_STORAGE_OVERHEAD + data_len <= most,
            0 <= rate <= MAX_RENT_RATE,
    ;
}

} // verus!
