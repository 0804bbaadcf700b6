//! The byte format of host requests: fixed-width big-endian fields, read one after the other from
//! the front of a buffer.

use vstd::arithmetic::power::pow;
use vstd::prelude::*;

verus! {

/// A 256-bit quantity (storage key, storage value, hash or amount), most significant byte first.
pub type Word = [u8; 32];

/// A 20-byte account address.
pub type Address = [u8; 20];

/// The number that `bytes` spells in base 256, most significant digit first.
pub open spec fn be_value(bytes: Seq<u8>) -> nat
    decreases bytes.len(),
{
    if bytes.len() == 0 {
        0
    } else {
        be_value(bytes.drop_last()) * 256 + bytes.last() as nat
    }
}

/// The `width` lowest base-256 digits of `value`, most significant digit first.
pub open spec fn be_bytes(value: nat, width: nat) -> Seq<u8>
    decreases width,
{
    if width == 0 {
        Seq::empty()
    } else {
        be_bytes(value / 256, (width - 1) as nat).push((value % 256) as u8)
    }
}

/// 256 to the power of `width`: how many numbers `width` bytes can spell.
pub open spec fn be_range(width: nat) -> nat
    decreases width,
{
    if width == 0 {
        1
    } else {
        256 * be_range((width - 1) as nat)
    }
}

/// The address in the 20 bytes of `data` that start at `at`.
pub open spec fn address_at(data: Seq<u8>, at: int) -> Address {
    [
        data[at], data[at + 1], data[at + 2], data[at + 3], data[at + 4],
        data[at + 5], data[at + 6], data[at + 7], data[at + 8], data[at + 9],
        data[at + 10], data[at + 11], data[at + 12], data[at + 13], data[at + 14],
        data[at + 15], data[at + 16], data[at + 17], data[at + 18], data[at + 19],
    ]
}

/// The word in the 32 bytes of `data` that start at `at`.
pub open spec fn word_at(data: Seq<u8>, at: int) -> Word {
    [
        data[at], data[at + 1], data[at + 2], data[at + 3],
        data[at + 4], data[at + 5], data[at + 6], data[at + 7],
        data[at + 8], data[at + 9], data[at + 10], data[at + 11],
        data[at + 12], data[at + 13], data[at + 14], data[at + 15],
        data[at + 16], data[at + 17], data[at + 18], data[at + 19],
        data[at + 20], data[at + 21], data[at + 22], data[at + 23],
        data[at + 24], data[at + 25], data[at + 26], data[at + 27],
        data[at + 28], data[at + 29], data[at + 30], data[at + 31],
    ]
}

/// Whether `word` is the number zero.
pub open spec fn is_zero_word(word: Word) -> bool {
    forall|i: int| 0 <= i < 32 ==> word[i] == 0
}

/// A sequence of bytes spells a number below the range of its length.
pub proof fn lemma_be_value_bound(bytes: Seq<u8>)
    ensures
        be_value(bytes) < be_range(bytes.len()),
    decreases bytes.len(),
{
    if bytes.len() > 0 {
        lemma_be_value_bound(bytes.drop_last());
    }
}

/// Writing a number that fits in `width` bytes and reading it back gives the number.
pub proof fn law_be_bytes_read_back(value: nat, width: nat)
    requires
        value < be_range(width),
    ensures
        be_bytes(value, width).len() == width,
        be_value(be_bytes(value, width)) == value,
    decreases width,
{
    if width > 0 {
        law_be_bytes_read_back(value / 256, (width - 1) as nat);
        let bytes = be_bytes(value, width);
        assert(bytes.drop_last() =~= be_bytes(value / 256, (width - 1) as nat));
    }
}

/// Reading a sequence of bytes as a number and writing it back gives the same bytes, so sequences
/// of equal length spell different numbers when they differ.
pub proof fn law_be_value_written_back(bytes: Seq<u8>)
    ensures
        be_bytes(be_value(bytes), bytes.len()) == bytes,
    decreases bytes.len(),
{
    if bytes.len() == 0 {
        assert(be_bytes(0, 0) =~= bytes);
    } else {
        law_be_value_written_back(bytes.drop_last());
        assert(bytes.drop_last().push(bytes.last()) =~= bytes);
    }
}

/// `width` bytes can spell 256 to the power of `width` numbers.
pub proof fn law_be_range_is_power(width: nat)
    ensures
        be_range(width) == pow(256, width),
    decreases width,
{
    reveal(pow);
    if width > 0 {
        law_be_range_is_power((width - 1) as nat);
    }
}

/// The most significant byte comes first: of two strings of bytes one after the other, the first
/// counts as often as the second can spell numbers. One byte spells itself, and none spells zero.
pub proof fn law_be_value_of_parts(high: Seq<u8>, low: Seq<u8>, byte: u8)
    ensures
        be_value(high + low) == be_value(high) * pow(256, low.len()) + be_value(low),
        be_value(seq![byte]) == byte,
        be_value(Seq::empty()) == 0,
    decreases low.len(),
{
    reveal_with_fuel(be_value, 2);
    assert(seq![byte].drop_last() =~= Seq::empty());
    law_be_range_is_power(low.len());
    if low.len() == 0 {
        assert(high + low =~= high);
    } else {
        let shorter = low.drop_last();
        law_be_value_of_parts(high, shorter, byte);
        law_be_range_is_power(shorter.len());
        assert((high + low).drop_last() =~= high + shorter);
        let (a, r, b) = (be_value(high) as int, be_range(shorter.len()) as int, be_value(shorter) as int);
        assert((a * r + b) * 256 == a * (256 * r) + b * 256) by (nonlinear_arith);
    }
}

/// A word is the 32 bytes that stand where it is read, in their order.
pub proof fn law_word_read_back(before: Seq<u8>, word: Word, after: Seq<u8>)
    ensures
        word_at(before + word@ + after, before.len() as int) == word,
{
    assert(word_at(before + word@ + after, before.len() as int) =~= word);
}

/// An address is the 20 bytes that stand where it is read, in their order.
pub proof fn law_address_read_back(before: Seq<u8>, address: Address, after: Seq<u8>)
    ensures
        address_at(before + address@ + after, before.len() as int) == address,
{
    assert(address_at(before + address@ + after, before.len() as int) =~= address);
}

/// A word at the front is read as it was written.
pub proof fn lemma_word_at_front(word: Word, rest: Seq<u8>)
    ensures
        word_at(word@ + rest, 0) == word,
{
    law_word_read_back(Seq::empty(), word, rest);
    assert(Seq::empty() + word@ + rest =~= word@ + rest);
}

/// An address at the front is read as it was written.
pub proof fn lemma_address_at_front(address: Address, rest: Seq<u8>)
    ensures
        address_at(address@ + rest, 0) == address,
{
    law_address_read_back(Seq::empty(), address, rest);
    assert(Seq::empty() + address@ + rest =~= address@ + rest);
}

/// A word is zero exactly if the number that its bytes spell is.
pub proof fn law_zero_word_spells_zero(word: Word)
    ensures
        is_zero_word(word) <==> be_value(word@) == 0,
{
    lemma_zero_bytes_spell_zero(word@);
}

proof fn lemma_zero_bytes_spell_zero(bytes: Seq<u8>)
    ensures
        (forall|i: int| 0 <= i < bytes.len() ==> bytes[i] == 0) <==> be_value(bytes) == 0,
    decreases bytes.len(),
{
    if bytes.len() > 0 {
        let front = bytes.drop_last();
        lemma_zero_bytes_spell_zero(front);
        if forall|i: int| 0 <= i < bytes.len() ==> bytes[i] == 0 {
            assert forall|i: int| 0 <= i < front.len() implies front[i] == 0 by {
                assert(front[i] == bytes[i]);
            }
        }
        if be_value(bytes) == 0 {
            assert forall|i: int| 0 <= i < bytes.len() implies bytes[i] == 0 by {
                if i < front.len() {
                    assert(front[i] == bytes[i]);
                }
            }
        }
    }
}

/// How many numbers two, four, eight and sixteen bytes can spell.
pub proof fn lemma_be_range_machine()
    ensures
        be_range(2) == 0x1_0000,
        be_range(4) == 0x1_0000_0000,
        be_range(8) == 0x1_0000_0000_0000_0000,
        be_range(16) == 0x1_0000_0000_0000_0000_0000_0000_0000_0000,
{
    reveal_with_fuel(be_range, 17);
}

/// Shorter ranges are no larger than longer ones.
proof fn lemma_be_range_monotonic(shorter: nat, longer: nat)
    requires
        shorter <= longer,
    ensures
        1 <= be_range(shorter) <= be_range(longer),
    decreases longer,
{
    if shorter < longer {
        lemma_be_range_monotonic(shorter, (longer - 1) as nat);
    } else if longer > 0 {
        lemma_be_range_monotonic((shorter - 1) as nat, (longer - 1) as nat);
    }
}

/// Reads up to sixteen bytes as a big-endian number.
pub fn be_to_u128(bytes: &[u8]) -> (value: u128)
    requires
        bytes@.len() <= 16,
    ensures
        value == be_value(bytes@),
{
    let mut value: u128 = 0;
    let mut i: usize = 0;
    proof {
        lemma_be_range_machine();
    }
    while i < bytes.len()
        invariant
            i <= bytes@.len() <= 16,
            value == be_value(bytes@.take(i as int)),
            be_range(16) == 0x1_0000_0000_0000_0000_0000_0000_0000_0000,
        decreases bytes@.len() - i,
    {
        proof {
            let next = bytes@.take(i as int + 1);
            assert(next.drop_last() =~= bytes@.take(i as int));
            lemma_be_value_bound(next);
            lemma_be_range_monotonic(next.len(), 16);
        }
        value = value * 256 + bytes[i] as u128;
        i = i + 1;
    }
    assert(bytes@.take(i as int) =~= bytes@);
    value
}

/// Removes the first `count` bytes of `data` and returns them.
fn take_front(data: &mut Vec<u8>, count: usize) -> (front: Vec<u8>)
    requires
        count <= old(data)@.len(),
    ensures
        front@ == old(data)@.take(count as int),
        final(data)@ == old(data)@.skip(count as int),
{
    let mut front = data.split_off(count);
    std::mem::swap(data, &mut front);
    front
}

/// Reads a big-endian `u16` from the front of `data`.
pub fn take_u16(data: &mut Vec<u8>) -> (value: u16)
    requires
        old(data)@.len() >= 2,
    ensures
        value == be_value(old(data)@.take(2)),
        final(data)@ == old(data)@.skip(2),
{
    let front = take_front(data, 2);
    proof {
        lemma_be_range_machine();
        lemma_be_value_bound(front@);
    }
    be_to_u128(front.as_slice()) as u16
}

/// Reads a big-endian `u32` from the front of `data`.
pub fn take_u32(data: &mut Vec<u8>) -> (value: u32)
    requires
        old(data)@.len() >= 4,
    ensures
        value == be_value(old(data)@.take(4)),
        final(data)@ == old(data)@.skip(4),
{
    let front = take_front(data, 4);
    proof {
        lemma_be_range_machine();
        lemma_be_value_bound(front@);
    }
    be_to_u128(front.as_slice()) as u32
}

/// Reads a big-endian `u64` from the front of `data`.
pub fn take_u64(data: &mut Vec<u8>) -> (value: u64)
    requires
        old(data)@.len() >= 8,
    ensures
        value == be_value(old(data)@.take(8)),
        final(data)@ == old(data)@.skip(8),
{
    let front = take_front(data, 8);
    proof {
        lemma_be_range_machine();
        lemma_be_value_bound(front@);
    }
    be_to_u128(front.as_slice()) as u64
}

/// Reads an address from the front of `data`.
pub fn take_address(data: &mut Vec<u8>) -> (address: Address)
    requires
        old(data)@.len() >= 20,
    ensures
        address == address_at(old(data)@, 0),
        final(data)@ == old(data)@.skip(20),
{
    let b = take_front(data, 20);
    let address = [
        b[0], b[1], b[2], b[3], b[4], b[5], b[6], b[7], b[8], b[9],
        b[10], b[11], b[12], b[13], b[14], b[15], b[16], b[17], b[18], b[19],
    ];
    assert(address =~= address_at(old(data)@, 0));
    address
}

/// Reads a 32-byte word from the front of `data`.
pub fn take_bytes32(data: &mut Vec<u8>) -> (word: Word)
    requires
        old(data)@.len() >= 32,
    ensures
        word == word_at(old(data)@, 0),
        final(data)@ == old(data)@.skip(32),
{
    let b = take_front(data, 32);
    let word = [
        b[0], b[1], b[2], b[3], b[4], b[5], b[6], b[7],
        b[8], b[9], b[10], b[11], b[12], b[13], b[14], b[15],
        b[16], b[17], b[18], b[19], b[20], b[21], b[22], b[23],
        b[24], b[25], b[26], b[27], b[28], b[29], b[30], b[31],
    ];
    assert(word =~= word_at(old(data)@, 0));
    word
}

/// Reads a 256-bit number from the front of `data`; it is kept as its 32 big-endian bytes.
pub fn take_u256(data: &mut Vec<u8>) -> (word: Word)
    requires
        old(data)@.len() >= 32,
    ensures
        word == word_at(old(data)@, 0),
        final(data)@ == old(data)@.skip(32),
{
    take_bytes32(data)
}

/// Takes everything that is left in `data`.
pub fn take_rest(data: &mut Vec<u8>) -> (rest: Vec<u8>)
    ensures
        rest@ == old(data)@,
        final(data)@ == Seq::<u8>::empty(),
{
    let mut rest: Vec<u8> = Vec::new();
    std::mem::swap(data, &mut rest);
    rest
}

/// Tells whether a word is the number zero.
pub fn word_is_zero(word: &Word) -> (zero: bool)
    ensures
        zero == is_zero_word(*word),
{
    let mut i: usize = 0;
    while i < 32
        invariant
            i <= 32,
            forall|j: int| 0 <= j < i ==> word[j] == 0,
        decreases 32 - i,
    {
        if word[i] != 0 {
            return false;
        }
        i = i + 1;
    }
    true
}

} // verus!
