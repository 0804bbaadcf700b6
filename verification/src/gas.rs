//! Gas prices of host operations. The prices are computed by `revm`; the specification functions
//! say what they are.

use alloy_primitives::U256;
use revm::context_interface::host::SStoreResult as RevmSStoreResult;
use revm::context_interface::journaled_state::{AccountLoad as RevmAccountLoad, StateLoad as RevmStateLoad};
use revm::specification::hardfork::SpecId as RevmSpecId;
use vstd::prelude::*;

use crate::spec_id::{is_fork_number, SpecId};
use crate::wire::{be_value, is_zero_word, law_zero_word_spells_zero, Word};

verus! {

/// The price of creating a contract, before its code is paid for.
pub const CREATE: u64 = 32000;

/// The code size limit of the main network, in bytes.
pub const CODE_SIZE_UNIT: u64 = 24576;

/// The price of touching code, for each full [`CODE_SIZE_UNIT`] of the code size limit.
pub const CODE_TOUCH: u64 = 700;

/// What a storage write found and left: the value at the start of the transaction, the value just
/// before the write, and the value written.
#[derive(Clone, Copy, Debug, PartialEq, Eq)]
pub struct SStoreResult {
    pub original_value: Word,
    pub present_value: Word,
    pub new_value: Word,
}

/// What loading an account for a call found out about it.
#[derive(Clone, Copy, Debug, PartialEq, Eq)]
pub struct AccountLoad {
    /// For an account whose code delegates to another account: whether that one was cold.
    pub is_delegate_account_cold: Option<bool>,
    /// Whether the account does not exist yet.
    pub is_empty: bool,
}

/// Whether the fork numbered `spec` has the rules of `fork`.
pub open spec fn in_force(spec: u8, fork: SpecId) -> bool {
    spec >= fork.number()
}

/// The price of reading a storage slot.
pub open spec fn sload_price(spec: u8, is_cold: bool) -> u64 {
    if in_force(spec, SpecId::BERLIN) {
        if is_cold { 2100 } else { 100 }
    } else if in_force(spec, SpecId::ISTANBUL) {
        800
    } else if in_force(spec, SpecId::TANGERINE) {
        200
    } else {
        50
    }
}

/// The price of a storage write under net metering: `unchanged` for a write that changes nothing
/// or that follows an earlier one in the same transaction, 20000 for a first write to an empty
/// slot, and `reset` for a first write to a slot in use.
pub open spec fn net_metered_price(vals: SStoreResult, unchanged: u64, reset: u64) -> u64 {
    if vals.new_value == vals.present_value || vals.original_value != vals.present_value {
        unchanged
    } else if is_zero_word(vals.original_value) {
        20000
    } else {
        reset
    }
}

/// The price of writing a storage slot.
pub open spec fn sstore_price(spec: u8, vals: SStoreResult, is_cold: bool) -> u64 {
    if in_force(spec, SpecId::BERLIN) {
        (net_metered_price(vals, 100, 2900) + if is_cold { 2100int } else { 0 }) as u64
    } else if in_force(spec, SpecId::ISTANBUL) {
        net_metered_price(vals, 800, 5000)
    } else if is_zero_word(vals.present_value) && !is_zero_word(vals.new_value) {
        20000
    } else {
        5000
    }
}

/// The price of touching an account that may be cold.
pub open spec fn account_price(is_cold: bool) -> u64 {
    if is_cold { 2600 } else { 100 }
}

/// The price of starting a call: access to the callee and to the account it delegates to, the
/// transfer of value, and the creation of the callee.
pub open spec fn call_price(spec: u8, transfers_value: bool, load: AccountLoad, is_cold: bool) -> u64 {
    let access: int = if in_force(spec, SpecId::BERLIN) {
        account_price(is_cold) + match load.is_delegate_account_cold {
            Some(delegate_is_cold) => account_price(delegate_is_cold) as int,
            None => 0,
        }
    } else if in_force(spec, SpecId::TANGERINE) {
        700
    } else {
        40
    };
    let transfer: int = if transfers_value { 9000 } else { 0 };
    let creation: int = if load.is_empty && (transfers_value || !in_force(spec, SpecId::SPURIOUS_DRAGON)) {
        25000
    } else {
        0
    };
    (access + transfer + creation) as u64
}

/// The lesser of `value` and the largest `u64`.
pub open spec fn saturated(value: int) -> u64 {
    if value > u64::MAX { u64::MAX } else { value as u64 }
}

/// How many 32-byte words hold `len` bytes, except that a length within 31 bytes of the largest
/// `usize` is taken for that number.
pub open spec fn words(len: usize) -> usize {
    if len + 31 > usize::MAX { usize::MAX / 32 } else { ((len + 31) / 32) as usize }
}

/// The price of `words` words of memory, capped term by term at the largest `u64`.
pub open spec fn memory_price(words: usize) -> u64 {
    saturated(saturated(3 * words) + saturated(words * words) / 512)
}

/// The price of deploying `len` bytes of init code.
pub open spec fn initcode_price(len: usize) -> u64 {
    (2 * words(len)) as u64
}

/// The price of a salted contract creation with `len` bytes of init code.
pub open spec fn create2_price(len: usize) -> u64 {
    (CREATE + 6 * words(len)) as u64
}

/// Calls `revm::interpreter::gas::sload_cost`, which picks the price of a storage read by fork and
/// by whether the slot was cold.
#[verifier::external_body]
pub(crate) fn sload_cost(spec: u8, is_cold: bool) -> (cost: u64)
    requires
        is_fork_number(spec),
    ensures
        cost == sload_price(spec, is_cold),
{
    revm::interpreter::gas::sload_cost(RevmSpecId::try_from_u8(spec).unwrap(), is_cold)
}

/// Calls `revm::interpreter::gas::sstore_cost`, which prices a storage write by fork, by how the
/// three values compare and by whether the slot was cold.
#[verifier::external_body]
pub(crate) fn sstore_cost(spec: u8, vals: &SStoreResult, is_cold: bool) -> (cost: u64)
    requires
        is_fork_number(spec),
    ensures
        cost == sstore_price(spec, *vals, is_cold),
{
    let vals = RevmSStoreResult {
        original_value: U256::from_be_bytes(vals.original_value),
        present_value: U256::from_be_bytes(vals.present_value),
        new_value: U256::from_be_bytes(vals.new_value),
    };
    revm::interpreter::gas::sstore_cost(RevmSpecId::try_from_u8(spec).unwrap(), &vals, is_cold)
}

/// Calls `revm::interpreter::gas::call_cost`, which adds up what a call pays before the callee
/// runs.
#[verifier::external_body]
pub(crate) fn call_cost(spec: u8, transfers_value: bool, load: &AccountLoad, is_cold: bool) -> (cost: u64)
    requires
        is_fork_number(spec),
    ensures
        cost == call_price(spec, transfers_value, *load, is_cold),
{
    let data = RevmAccountLoad {
        is_delegate_account_cold: load.is_delegate_account_cold,
        is_empty: load.is_empty,
    };
    let load = RevmStateLoad::new(data, is_cold);
    revm::interpreter::gas::call_cost(RevmSpecId::try_from_u8(spec).unwrap(), transfers_value, load)
}

/// Calls `revm::interpreter::gas::warm_cold_cost`, which prices the access to an account.
#[verifier::external_body]
pub(crate) fn warm_cold_cost(is_cold: bool) -> (cost: u64)
    ensures
        cost == account_price(is_cold),
{
    revm::interpreter::gas::warm_cold_cost(is_cold)
}

/// Calls `revm::interpreter::num_words`, which rounds a length in bytes up to whole words.
#[verifier::external_body]
pub(crate) fn num_words(len: usize) -> (count: usize)
    ensures
        count == words(len),
{
    revm::interpreter::num_words(len)
}

/// Calls `revm::interpreter::gas::memory_gas`, which prices memory by its number of words.
#[verifier::external_body]
pub(crate) fn memory_gas(num_words: usize) -> (cost: u64)
    ensures
        cost == memory_price(num_words),
{
    revm::interpreter::gas::memory_gas(num_words)
}

/// Calls `revm::interpreter::gas::initcode_cost`, which charges two for each word of init code; the
/// product always fits, since a length has fewer than 2^59 words.
#[verifier::external_body]
pub(crate) fn initcode_cost(len: usize) -> (cost: u64)
    ensures
        cost == initcode_price(len),
{
    revm::interpreter::gas::initcode_cost(len)
}

/// Calls `revm::interpreter::gas::create2_cost`, which adds the hashing of the init code, six for
/// each word, to the price of a creation; the sum always fits, so the result is never `None`.
#[verifier::external_body]
pub(crate) fn create2_cost(len: usize) -> (cost: Option<u64>)
    ensures
        cost == Some(create2_price(len)),
{
    revm::interpreter::gas::create2_cost(len)
}

/// A storage read has one price from the fork on that tells cold slots from warm ones, and another
/// for each range of forks before, where cold slots cost what warm ones do. From that fork on, a first
/// access costs 2000 more than a later one.
pub proof fn law_sload_price(fork: SpecId, is_cold: bool)
    ensures
        ({
            let price = sload_price(fork.number(), is_cold);
            let warm = sload_price(fork.number(), false);
            &&& fork.enables(SpecId::BERLIN) ==> warm == 100
            &&& !fork.enables(SpecId::BERLIN) && fork.enables(SpecId::ISTANBUL) ==> warm == 800
            &&& !fork.enables(SpecId::ISTANBUL) && fork.enables(SpecId::TANGERINE) ==> warm == 200
            &&& !fork.enables(SpecId::TANGERINE) ==> warm == 50
            &&& price - warm == if is_cold && fork.enables(SpecId::BERLIN) { 2000int } else { 0 }
        }),
{
}

/// A storage write of a cold slot costs 2100 more than one of a warm slot from the fork on that tells
/// them apart, and nothing more before. Once writes are metered by what they change, one that changes
/// nothing costs as much as one that follows another write of the slot; a first write costs 20000 if
/// the slot was empty at the start of the transaction. Before, a write costs 20000 if it fills an
/// empty slot.
pub proof fn law_sstore_price(fork: SpecId, vals: SStoreResult, is_cold: bool)
    ensures
        ({
            let price = sstore_price(fork.number(), vals, is_cold);
            let warm = sstore_price(fork.number(), vals, false);
            let metered = fork.enables(SpecId::ISTANBUL);
            let changes = vals.new_value != vals.present_value;
            let is_first = vals.present_value == vals.original_value;
            &&& price - warm == if is_cold && fork.enables(SpecId::BERLIN) { 2100int } else { 0 }
            &&& metered && !(changes && is_first) ==> warm == if fork.enables(SpecId::BERLIN) {
                100int
            } else {
                800
            }
            &&& metered && changes && is_first && be_value(vals.original_value@) == 0 ==> warm == 20000
            &&& metered && changes && is_first && be_value(vals.original_value@) != 0 ==> warm
                == if fork.enables(SpecId::BERLIN) { 2900int } else { 5000 }
            &&& !metered && be_value(vals.present_value@) == 0 && be_value(vals.new_value@) != 0
                ==> warm == 20000
            &&& !metered && !(be_value(vals.present_value@) == 0 && be_value(vals.new_value@) != 0)
                ==> warm == 5000
        }),
{
    law_zero_word_spells_zero(vals.original_value);
    law_zero_word_spells_zero(vals.present_value);
    law_zero_word_spells_zero(vals.new_value);
}

/// A first access to an account costs 2500 more than a later one, which costs 100.
pub proof fn law_account_price(is_cold: bool)
    ensures
        account_price(is_cold) == 100 + if is_cold { 2500int } else { 0 },
{
}

/// What a call pays is made of parts that do not depend on each other: access to the callee, 9000 for
/// a transfer of value, 25000 where it brings the callee into being, and access to the account that
/// the callee delegates to.
pub proof fn law_call_price(fork: SpecId, transfers_value: bool, load: AccountLoad, is_cold: bool)
    ensures
        ({
            let known = AccountLoad { is_delegate_account_cold: None, is_empty: false };
            let berlin = fork.enables(SpecId::BERLIN);
            let price = call_price(fork.number(), transfers_value, load, is_cold);
            let access = call_price(fork.number(), false, known, is_cold);
            let delegate: int = match load.is_delegate_account_cold {
                Some(true) if berlin => 2600,
                Some(false) if berlin => 100,
                _ => 0,
            };
            let creates = load.is_empty && (transfers_value || !fork.enables(SpecId::SPURIOUS_DRAGON));
            &&& berlin ==> access == if is_cold { 2600int } else { 100 }
            &&& !berlin && fork.enables(SpecId::TANGERINE) ==> access == 700
            &&& !fork.enables(SpecId::TANGERINE) ==> access == 40
            &&& price == access + delegate + (if transfers_value { 9000int } else { 0 }) + if creates {
                25000int
            } else {
                0
            }
        }),
{
}

/// Words hold 32 bytes each: there are as many as are needed to hold `len` bytes, and no more.
pub proof fn law_words_hold_bytes(len: usize)
    requires
        len + 31 <= usize::MAX,
    ensures
        len <= 32 * words(len) < len + 32,
{
}

/// A word of memory costs 3, and all of them together one part in 512 of their number squared, as far
/// as a `u64` can hold the square.
pub proof fn law_memory_price(words: usize)
    requires
        words <= usize::MAX / 32,
    ensures
        words * words <= u64::MAX ==> memory_price(words) == 3 * words + words * words / 512,
        words * words > u64::MAX ==> memory_price(words) == 3 * words + u64::MAX / 512,
{
    let square: int = words * words;
    assert(square >= 0) by (nonlinear_arith)
        requires
            square == words * words,
    ;
}

/// Init code costs 2 for each of its words; a salt adds 6 for each to the price of a creation.
pub proof fn law_code_prices(len: usize)
    ensures
        initcode_price(len) == 2 * words(len),
        create2_price(len) == 32000 + 6 * words(len),
        CREATE == 32000,
{
}

} // verus!
