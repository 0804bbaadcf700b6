//! The journal of a transaction, extended by what Stylus programs need: the programs activated in
//! the transaction and the memory pages that they hold.

use std::collections::HashMap;
use vstd::prelude::*;
use vstd::slice::{slice_subrange, slice_to_vec};

use crate::db::{AsmMap, WasmTarget};
use crate::wire::{
    be_to_u128, be_value, law_be_value_written_back, lemma_be_range_machine, lemma_be_value_bound, Word,
};

verus! {

broadcast use vstd::std_specs::hash::group_hash_axioms;

/// The bytes with which the code of every Stylus program starts.
pub const STYLUS_DISCRIMINANT: [u8; 3] = [0xEF, 0xF0, 0x00];

/// Whether `code` is that of a Stylus program: the discriminant, then the number of a dictionary,
/// then the program.
pub open spec fn is_stylus_code(code: Seq<u8>) -> bool {
    code.len() >= 4 && code.take(3) == STYLUS_DISCRIMINANT@
}

/// The activated programs once `module_hash` has been activated with `asms`: a program that is
/// already active stays as it is.
pub open spec fn with_activated(
    activated: Map<Word, Map<WasmTarget, Seq<u8>>>,
    module_hash: Word,
    asms: Map<WasmTarget, Seq<u8>>,
) -> Map<Word, Map<WasmTarget, Seq<u8>>> {
    if activated.contains_key(module_hash) {
        activated
    } else {
        activated.insert(module_hash, asms)
    }
}

/// The pages held now and the most ever held, once `new` more are taken. The pages held stop at
/// the largest `u16`.
pub open spec fn with_pages(pages: (u16, u16), new: u16) -> (u16, u16) {
    let open: u16 = if pages.0 + new > u16::MAX {
        u16::MAX
    } else {
        (pages.0 + new) as u16
    };
    (open, if pages.1 > open { pages.1 } else { open })
}

/// What Stylus programs need of a transaction's journal.
pub trait ArbOsJournal {
    /// The programs activated so far, by the hash of their module.
    spec fn activated_wasms(&self) -> Map<Word, Map<WasmTarget, Seq<u8>>>;

    /// The pages held now and the most ever held.
    spec fn stylus_pages(&self) -> (u16, u16);

    /// Activates a program, unless it is active already.
    fn activate_wasm(&mut self, module_hash: Word, asm_map: AsmMap)
        ensures
            final(self).activated_wasms() == with_activated(
                old(self).activated_wasms(),
                module_hash,
                asm_map@,
            ),
            final(self).stylus_pages() == old(self).stylus_pages(),
    ;

    /// Returns the code of an active program for a machine, if there is any.
    fn try_get_activated_asm(&self, target: WasmTarget, module_hash: Word) -> (code: Option<Vec<u8>>)
        ensures
            code is Some <==> self.activated_wasms().contains_key(module_hash)
                && self.activated_wasms()[module_hash].contains_key(target),
            code matches Some(code) ==> code@ == self.activated_wasms()[module_hash][target],
    ;

    /// Returns the pages held now and the most ever held.
    fn get_stylus_pages(&self) -> (pages: (u16, u16))
        ensures
            pages == self.stylus_pages(),
    ;

    /// Takes `new` more pages and returns what [`ArbOsJournal::get_stylus_pages`] gave before.
    fn add_stylus_pages(&mut self, new: u16) -> (pages: (u16, u16))
        ensures
            pages == old(self).stylus_pages(),
            final(self).stylus_pages() == with_pages(old(self).stylus_pages(), new),
            final(self).activated_wasms() == old(self).activated_wasms(),
    ;
}

/// A 128-bit half of a hash: the number that 16 of its bytes spell.
spec fn half(hash: Word, at: int) -> u128 {
    be_value(hash@.subrange(at, at + 16)) as u128
}

/// Two hashes with equal halves are equal.
proof fn lemma_halves_determine(a: Word, b: Word)
    requires
        half(a, 0) == half(b, 0),
        half(a, 16) == half(b, 16),
    ensures
        a == b,
{
    lemma_be_range_machine();
    let a0 = a@.subrange(0, 16);
    let a1 = a@.subrange(16, 32);
    let b0 = b@.subrange(0, 16);
    let b1 = b@.subrange(16, 32);
    lemma_be_value_bound(a0);
    lemma_be_value_bound(a1);
    lemma_be_value_bound(b0);
    lemma_be_value_bound(b1);
    law_be_value_written_back(a0);
    law_be_value_written_back(a1);
    law_be_value_written_back(b0);
    law_be_value_written_back(b1);
    assert(a@ =~= a0 + a1);
    assert(b@ =~= b0 + b1);
    assert(a =~= b);
}

/// Reads the two halves of a hash.
fn halves(hash: &Word) -> (halves: (u128, u128))
    ensures
        halves.0 == half(*hash, 0),
        halves.1 == half(*hash, 16),
{
    let bytes = hash.as_slice();
    (be_to_u128(slice_subrange(bytes, 0, 16)), be_to_u128(slice_subrange(bytes, 16, 32)))
}

/// The pages held now and the most ever held.
#[derive(Debug)]
struct WasmPages {
    open: u16,
    ever: u16,
}

impl WasmPages {
    /// No more pages are held than were ever held.
    #[verifier::type_invariant]
    spec fn is_consistent(&self) -> bool {
        self.open <= self.ever
    }

    spec fn counts(&self) -> (u16, u16) {
        (self.open, self.ever)
    }

    /// Holds no page.
    fn none() -> (pages: WasmPages)
        ensures
            pages.counts() == (0u16, 0u16),
    {
        WasmPages { open: 0, ever: 0 }
    }

    /// Returns both counts.
    fn get(&self) -> (counts: (u16, u16))
        ensures
            counts == self.counts(),
            counts.0 <= counts.1,
    {
        proof {
            use_type_invariant(self);
        }
        (self.open, self.ever)
    }

    /// Takes `new` more pages.
    fn grow(&mut self, new: u16)
        ensures
            final(self).counts() == with_pages(old(self).counts(), new),
    {
        let open: u16 = self.open.saturating_add(new);
        if open > self.ever {
            self.ever = open;
        }
        self.open = open;
    }
}

/// A transaction's journal: `inner` keeps the state of the accounts, the rest is about Stylus
/// programs.
#[derive(Debug)]
pub struct ArbOsJournaledState<J> {
    inner: J,
    /// The active programs, by the first and then by the second half of their hash.
    activated_wasms: HashMap<u128, HashMap<u128, AsmMap>>,
    wasm_pages: WasmPages,
}

impl<J> ArbOsJournaledState<J> {
    /// The journal that this one extends.
    pub closed spec fn base(&self) -> J {
        self.inner
    }

    /// Extends a journal in which no program is active and no page is held.
    pub fn new(inner: J) -> (journal: ArbOsJournaledState<J>)
        ensures
            journal.base() == inner,
            journal.activated_wasms() == Map::<Word, Map<WasmTarget, Seq<u8>>>::empty(),
            journal.stylus_pages() == (0u16, 0u16),
    {
        let journal = ArbOsJournaledState {
            inner,
            activated_wasms: HashMap::new(),
            wasm_pages: WasmPages::none(),
        };
        assert(journal.activated_wasms() =~= Map::<Word, Map<WasmTarget, Seq<u8>>>::empty());
        journal
    }

    /// Borrows the journal that this one extends.
    pub fn inner(&self) -> (inner: &J)
        ensures
            *inner == self.base(),
    {
        &self.inner
    }

    /// Borrows the journal that this one extends, to change it; what is known of Stylus programs
    /// stays.
    pub fn inner_mut(&mut self) -> (inner: &mut J)
        ensures
            *inner == old(self).base(),
            final(self).base() == *final(inner),
            final(self).activated_wasms() == old(self).activated_wasms(),
            final(self).stylus_pages() == old(self).stylus_pages(),
    {
        &mut self.inner
    }

    /// Tells whether `code` is that of a Stylus program.
    pub fn is_stylus_program(code: &[u8]) -> (is_stylus: bool)
        ensures
            is_stylus == is_stylus_code(code@),
            is_stylus <==> code@.len() > 3 && STYLUS_DISCRIMINANT@.is_prefix_of(code@),
    {
        if code.len() < 4 {
            return false;
        }
        let matches = code[0] == STYLUS_DISCRIMINANT[0] && code[1] == STYLUS_DISCRIMINANT[1]
            && code[2] == STYLUS_DISCRIMINANT[2];
        proof {
            if matches {
                assert(code@.take(3) =~= STYLUS_DISCRIMINANT@);
            } else {
                assert(code@.take(3)[0] == code@[0]);
                assert(code@.take(3)[1] == code@[1]);
                assert(code@.take(3)[2] == code@[2]);
            }
        }
        matches
    }

    /// Splits the code of a Stylus program into the program and the number of its dictionary.
    pub fn strip_stylus_prefix(code: &[u8]) -> (stripped: Result<(&[u8], u8), String>)
        ensures
            match stripped {
                Ok((program, dictionary)) => {
                    &&& is_stylus_code(code@)
                    &&& program@ == code@.skip(4)
                    &&& dictionary == code@[3]
                    &&& STYLUS_DISCRIMINANT@.push(dictionary) + program@ == code@
                },
                Err(message) => {
                    &&& !is_stylus_code(code@)
                    &&& message@ == "specified bytecode is not a Stylus program"@
                },
            },
    {
        if !Self::is_stylus_program(code) {
            return Err("specified bytecode is not a Stylus program".to_string());
        }
        Ok((slice_subrange(code, 4, code.len()), code[3]))
    }

    /// Makes the bytes that go before a program which uses the given dictionary.
    pub fn new_stylus_prefix(dictionary: u8) -> (prefix: Vec<u8>)
        ensures
            prefix@ == STYLUS_DISCRIMINANT@.push(dictionary),
            forall|program: Seq<u8>| is_stylus_code(#[trigger] (prefix@ + program)),
    {
        let mut prefix = slice_to_vec(STYLUS_DISCRIMINANT.as_slice());
        prefix.push(dictionary);
        assert forall|program: Seq<u8>| is_stylus_code(#[trigger] (prefix@ + program)) by {
            law_prefix_then_strip(dictionary, program);
        }
        prefix
    }
}

impl<J> ArbOsJournal for ArbOsJournaledState<J> {
    closed spec fn activated_wasms(&self) -> Map<Word, Map<WasmTarget, Seq<u8>>> {
        Map::new(
            |hash: Word|
                self.activated_wasms@.contains_key(half(hash, 0))
                    && self.activated_wasms@[half(hash, 0)]@.contains_key(half(hash, 16)),
            |hash: Word| self.activated_wasms@[half(hash, 0)]@[half(hash, 16)]@,
        )
    }

    closed spec fn stylus_pages(&self) -> (u16, u16) {
        self.wasm_pages.counts()
    }

    fn activate_wasm(&mut self, module_hash: Word, asm_map: AsmMap)
        ensures
            final(self).base() == old(self).base(),
    {
        let (first, second) = halves(&module_hash);
        let mut siblings = match self.activated_wasms.remove(&first) {
            Some(siblings) => siblings,
            None => HashMap::new(),
        };
        let ghost earlier = siblings@;
        if !siblings.contains_key(&second) {
            siblings.insert(second, asm_map);
        }
        let ghost later = siblings@;
        self.activated_wasms.insert(first, siblings);
        proof {
            let expected = with_activated(old(self).activated_wasms(), module_hash, asm_map@);
            let after = self.activated_wasms();
            let before = old(self).activated_wasms();
            assert forall|hash: Word|
                #![trigger after.dom().contains(hash)]
                #![trigger expected.dom().contains(hash)]
                after.dom().contains(hash) == expected.dom().contains(hash) by {
                assert(before.dom().contains(hash) == before.contains_key(hash));
                if half(hash, 0) == first && half(hash, 16) == second {
                    lemma_halves_determine(hash, module_hash);
                }
            }
            assert(after.dom() =~= expected.dom());
            assert forall|hash: Word| #[trigger] expected.dom().contains(hash) implies after[hash]
                == expected[hash] by {
                assert(after.dom().contains(hash));
                assert(after[hash] == self.activated_wasms@[half(hash, 0)]@[half(hash, 16)]@);
                if half(hash, 0) == first {
                    assert(self.activated_wasms@[first]@ == later);
                    if half(hash, 16) == second {
                        lemma_halves_determine(hash, module_hash);
                        if before.dom().contains(hash) {
                            assert(later == earlier);
                            assert(before[hash] == earlier[second]@);
                            assert(expected == before);
                        } else {
                            assert(later[second] == asm_map);
                            assert(expected[module_hash] == asm_map@);
                            assert(expected[hash] == asm_map@);
                        }
                    } else {
                        assert(before.dom().contains(hash));
                        assert(before[hash] == earlier[half(hash, 16)]@);
                        assert(later[half(hash, 16)] == earlier[half(hash, 16)]);
                        assert(hash != module_hash);
                        assert(expected[hash] == before[hash]);
                    }
                } else {
                    assert(before.dom().contains(hash));
                    assert(before[hash] == old(self).activated_wasms@[half(hash, 0)]@[half(hash, 16)]@);
                    assert(hash != module_hash);
                    assert(expected[hash] == before[hash]);
                }
            }
            assert(after =~= expected);
        }
    }

    fn try_get_activated_asm(&self, target: WasmTarget, module_hash: Word) -> (code: Option<Vec<u8>>) {
        let (first, second) = halves(&module_hash);
        match self.activated_wasms.get(&first) {
            Some(siblings) => match siblings.get(&second) {
                Some(asms) => asms.get(target),
                None => None,
            },
            None => None,
        }
    }

    fn get_stylus_pages(&self) -> (pages: (u16, u16))
        ensures
            pages.0 <= pages.1,
    {
        self.wasm_pages.get()
    }

    fn add_stylus_pages(&mut self, new: u16) -> (pages: (u16, u16))
        ensures
            final(self).base() == old(self).base(),
    {
        let (open, ever) = self.get_stylus_pages();
        self.wasm_pages.grow(new);
        (open, ever)
    }
}

/// What is put before a program is what is taken off it: stripping the prefixed program gives back
/// the program and the dictionary.
pub proof fn law_prefix_then_strip(dictionary: u8, program: Seq<u8>)
    ensures
        ({
            let code = STYLUS_DISCRIMINANT@.push(dictionary) + program;
            &&& is_stylus_code(code)
            &&& code.skip(4) == program
            &&& code[3] == dictionary
        }),
{
    let code = STYLUS_DISCRIMINANT@.push(dictionary) + program;
    assert(code.take(3) =~= STYLUS_DISCRIMINANT@);
    assert(code.skip(4) =~= program);
}

/// What is taken off a program is what was before it: prefixing the stripped program gives back
/// the code.
pub proof fn law_strip_then_prefix(code: Seq<u8>)
    requires
        is_stylus_code(code),
    ensures
        STYLUS_DISCRIMINANT@.push(code[3]) + code.skip(4) == code,
{
    assert(STYLUS_DISCRIMINANT@.push(code[3]) + code.skip(4) =~= code) by {
        assert forall|i: int| 0 <= i < 3 implies STYLUS_DISCRIMINANT@[i] == code[i] by {
            assert(code.take(3)[i] == code[i]);
        }
    }
}

/// The first activation of a program decides: a second one changes nothing, neither for it nor for
/// any other program.
pub proof fn law_first_activation_decides(
    activated: Map<Word, Map<WasmTarget, Seq<u8>>>,
    module_hash: Word,
    asms: Map<WasmTarget, Seq<u8>>,
    later: Map<WasmTarget, Seq<u8>>,
)
    ensures
        with_activated(with_activated(activated, module_hash, asms), module_hash, later)
            == with_activated(activated, module_hash, asms),
{
}

/// An activation leaves every other program as it is, and makes a program that was not active
/// available as it was given.
pub proof fn law_activation_is_local(
    activated: Map<Word, Map<WasmTarget, Seq<u8>>>,
    module_hash: Word,
    asms: Map<WasmTarget, Seq<u8>>,
    other: Word,
)
    ensures
        ({
            let after = with_activated(activated, module_hash, asms);
            &&& other != module_hash ==> after.contains_key(other) == activated.contains_key(other)
            &&& activated.contains_key(other) ==> after.contains_key(other) && after[other]
                == activated[other]
            &&& after.contains_key(module_hash)
            &&& !activated.contains_key(module_hash) ==> after[module_hash] == asms
        }),
{
}

/// Taking pages never lowers either count, and leaves no more pages held than ever held.
pub proof fn law_pages_grow(pages: (u16, u16), new: u16)
    ensures
        with_pages(pages, new).0 >= pages.0,
        with_pages(pages, new).1 >= pages.1,
        with_pages(pages, new).0 <= with_pages(pages, new).1,
{
}

/// The most ever held is a count that was really held: once pages are taken, it is the larger of what
/// it was before and the pages held now. The pages held now are the old and the new ones together, or
/// the largest `u16` where that is less.
pub proof fn law_pages_are_counted(pages: (u16, u16), new: u16)
    ensures
        ({
            let (open, ever) = with_pages(pages, new);
            &&& open <= pages.0 + new
            &&& open == pages.0 + new || open == u16::MAX
            &&& ever >= open && ever >= pages.1
            &&& ever == open || ever == pages.1
        }),
{
}

/// Taking pages twice is taking their sum at once, or the largest `u16` where the sum is larger,
/// and the order does not matter.
pub proof fn law_pages_add_up(pages: (u16, u16), first: u16, second: u16)
    ensures
        with_pages(with_pages(pages, first), second) == with_pages(with_pages(pages, second), first),
        with_pages(with_pages(pages, first), second) == with_pages(
            pages,
            if first + second > u16::MAX { u16::MAX } else { (first + second) as u16 },
        ),
{
}

} // verus!
