//! The hard forks of the execution layer, in the order in which they were activated.

use vstd::prelude::*;

verus! {

/// A hard fork; each one includes the rules of all that come before it.
#[allow(non_camel_case_types)]
#[derive(Clone, Copy, Debug, PartialEq, Eq, Structural)]
pub enum SpecId {
    FRONTIER,
    FRONTIER_THAWING,
    HOMESTEAD,
    DAO_FORK,
    TANGERINE,
    SPURIOUS_DRAGON,
    BYZANTIUM,
    CONSTANTINOPLE,
    PETERSBURG,
    ISTANBUL,
    MUIR_GLACIER,
    BERLIN,
    LONDON,
    ARROW_GLACIER,
    GRAY_GLACIER,
    MERGE,
    SHANGHAI,
    CANCUN,
    PRAGUE,
    OSAKA,
    LATEST,
}

/// Whether `number` is the number of a hard fork.
pub open spec fn is_fork_number(number: u8) -> bool {
    number <= 19 || number == 255
}

impl SpecId {
    /// The fork's number in activation order; the open-ended latest fork stands above all others.
    pub open spec fn number(self) -> u8 {
        match self {
            SpecId::FRONTIER => 0,
            SpecId::FRONTIER_THAWING => 1,
            SpecId::HOMESTEAD => 2,
            SpecId::DAO_FORK => 3,
            SpecId::TANGERINE => 4,
            SpecId::SPURIOUS_DRAGON => 5,
            SpecId::BYZANTIUM => 6,
            SpecId::CONSTANTINOPLE => 7,
            SpecId::PETERSBURG => 8,
            SpecId::ISTANBUL => 9,
            SpecId::MUIR_GLACIER => 10,
            SpecId::BERLIN => 11,
            SpecId::LONDON => 12,
            SpecId::ARROW_GLACIER => 13,
            SpecId::GRAY_GLACIER => 14,
            SpecId::MERGE => 15,
            SpecId::SHANGHAI => 16,
            SpecId::CANCUN => 17,
            SpecId::PRAGUE => 18,
            SpecId::OSAKA => 19,
            SpecId::LATEST => 255,
        }
    }

    /// Whether the rules that came with `fork` are in force.
    pub open spec fn enables(self, fork: SpecId) -> bool {
        self.number() >= fork.number()
    }

    /// Returns the fork's number.
    pub fn to_u8(self) -> (number: u8)
        ensures
            number == self.number(),
            is_fork_number(number),
    {
        match self {
            SpecId::FRONTIER => 0,
            SpecId::FRONTIER_THAWING => 1,
            SpecId::HOMESTEAD => 2,
            SpecId::DAO_FORK => 3,
            SpecId::TANGERINE => 4,
            SpecId::SPURIOUS_DRAGON => 5,
            SpecId::BYZANTIUM => 6,
            SpecId::CONSTANTINOPLE => 7,
            SpecId::PETERSBURG => 8,
            SpecId::ISTANBUL => 9,
            SpecId::MUIR_GLACIER => 10,
            SpecId::BERLIN => 11,
            SpecId::LONDON => 12,
            SpecId::ARROW_GLACIER => 13,
            SpecId::GRAY_GLACIER => 14,
            SpecId::MERGE => 15,
            SpecId::SHANGHAI => 16,
            SpecId::CANCUN => 17,
            SpecId::PRAGUE => 18,
            SpecId::OSAKA => 19,
            SpecId::LATEST => 255,
        }
    }

    /// Returns the fork with the given number, or `None` where no fork has it.
    pub fn try_from_u8(number: u8) -> (fork: Option<SpecId>)
        ensures
            fork is Some <==> is_fork_number(number),
            fork matches Some(fork) ==> fork.number() == number,
    {
        match number {
            0 => Some(SpecId::FRONTIER),
            1 => Some(SpecId::FRONTIER_THAWING),
            2 => Some(SpecId::HOMESTEAD),
            3 => Some(SpecId::DAO_FORK),
            4 => Some(SpecId::TANGERINE),
            5 => Some(SpecId::SPURIOUS_DRAGON),
            6 => Some(SpecId::BYZANTIUM),
            7 => Some(SpecId::CONSTANTINOPLE),
            8 => Some(SpecId::PETERSBURG),
            9 => Some(SpecId::ISTANBUL),
            10 => Some(SpecId::MUIR_GLACIER),
            11 => Some(SpecId::BERLIN),
            12 => Some(SpecId::LONDON),
            13 => Some(SpecId::ARROW_GLACIER),
            14 => Some(SpecId::GRAY_GLACIER),
            15 => Some(SpecId::MERGE),
            16 => Some(SpecId::SHANGHAI),
            17 => Some(SpecId::CANCUN),
            18 => Some(SpecId::PRAGUE),
            19 => Some(SpecId::OSAKA),
            255 => Some(SpecId::LATEST),
            _ => None,
        }
    }

    /// Tells whether the rules that came with `fork` are in force.
    pub fn is_enabled_in(self, fork: SpecId) -> (enabled: bool)
        ensures
            enabled == self.enables(fork),
    {
        self.to_u8() >= fork.to_u8()
    }
}

/// The forks stand in a line: of any two each later one has the rules of the earlier, only a fork
/// itself has the rules of the very same forks, and whatever a fork has the rules of, it has all the
/// rules of.
pub proof fn law_forks_are_ordered(a: SpecId, b: SpecId, c: SpecId)
    ensures
        a.enables(b) || b.enables(a),
        a.enables(b) && b.enables(a) ==> a == b,
        a.enables(b) && b.enables(c) ==> a.enables(c),
        a.enables(b) <==> a.number() >= b.number(),
        is_fork_number(a.number()),
        a.enables(SpecId::FRONTIER),
        SpecId::LATEST.enables(a),
{
}

/// Each fork comes after the one before it, and they are numbered without a gap but for the last.
pub proof fn law_forks_follow_one_another()
    ensures
        SpecId::FRONTIER.number() == 0,
        SpecId::FRONTIER_THAWING.number() == SpecId::FRONTIER.number() + 1,
        SpecId::HOMESTEAD.number() == SpecId::FRONTIER_THAWING.number() + 1,
        SpecId::DAO_FORK.number() == SpecId::HOMESTEAD.number() + 1,
        SpecId::TANGERINE.number() == SpecId::DAO_FORK.number() + 1,
        SpecId::SPURIOUS_DRAGON.number() == SpecId::TANGERINE.number() + 1,
        SpecId::BYZANTIUM.number() == SpecId::SPURIOUS_DRAGON.number() + 1,
        SpecId::CONSTANTINOPLE.number() == SpecId::BYZANTIUM.number() + 1,
        SpecId::PETERSBURG.number() == SpecId::CONSTANTINOPLE.number() + 1,
        SpecId::ISTANBUL.number() == SpecId::PETERSBURG.number() + 1,
        SpecId::MUIR_GLACIER.number() == SpecId::ISTANBUL.number() + 1,
        SpecId::BERLIN.number() == SpecId::MUIR_GLACIER.number() + 1,
        SpecId::LONDON.number() == SpecId::BERLIN.number() + 1,
        SpecId::ARROW_GLACIER.number() == SpecId::LONDON.number() + 1,
        SpecId::GRAY_GLACIER.number() == SpecId::ARROW_GLACIER.number() + 1,
        SpecId::MERGE.number() == SpecId::GRAY_GLACIER.number() + 1,
        SpecId::SHANGHAI.number() == SpecId::MERGE.number() + 1,
        SpecId::CANCUN.number() == SpecId::SHANGHAI.number() + 1,
        SpecId::PRAGUE.number() == SpecId::CANCUN.number() + 1,
        SpecId::OSAKA.number() == SpecId::PRAGUE.number() + 1,
        SpecId::LATEST.number() == u8::MAX,
        forall|number: u8| #[trigger] is_fork_number(number) <==> number <= SpecId::OSAKA.number()
            || number == u8::MAX,
{
}

} // verus!
