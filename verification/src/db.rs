//! Compiled Stylus programs and the machines that they are compiled for.

use std::collections::HashMap;
use vstd::prelude::*;

verus! {

broadcast use vstd::std_specs::hash::group_hash_axioms;

/// A machine that Stylus programs are compiled for.
#[derive(Clone, Copy, Debug, PartialEq, Eq, Hash, Structural)]
pub enum WasmTarget {
    WAVM,
    ARM64,
    AMD64,
    HOST,
}

impl WasmTarget {
    /// The target's place among the targets.
    pub open spec fn position(self) -> u8 {
        match self {
            WasmTarget::WAVM => 0,
            WasmTarget::ARM64 => 1,
            WasmTarget::AMD64 => 2,
            WasmTarget::HOST => 3,
        }
    }

    /// Returns the target's place among the targets.
    fn index(self) -> (index: u8)
        ensures
            index == self.position(),
    {
        match self {
            WasmTarget::WAVM => 0,
            WasmTarget::ARM64 => 1,
            WasmTarget::AMD64 => 2,
            WasmTarget::HOST => 3,
        }
    }
}

/// The compiled code of one program, for each machine that it was compiled for.
#[derive(Debug)]
pub struct AsmMap {
    asms: HashMap<u8, Vec<u8>>,
}

impl View for AsmMap {
    type V = Map<WasmTarget, Seq<u8>>;

    closed spec fn view(&self) -> Map<WasmTarget, Seq<u8>> {
        Map::new(
            |target: WasmTarget| self.asms@.contains_key(target.position()),
            |target: WasmTarget| self.asms@[target.position()]@,
        )
    }
}

impl AsmMap {
    /// Makes a map without any compiled code.
    pub fn new() -> (map: AsmMap)
        ensures
            map@ == Map::<WasmTarget, Seq<u8>>::empty(),
    {
        let map = AsmMap { asms: HashMap::new() };
        assert(map@ =~= Map::<WasmTarget, Seq<u8>>::empty());
        map
    }

    /// Sets the code for `target`, in place of any that was there.
    pub fn insert(&mut self, target: WasmTarget, code: Vec<u8>)
        ensures
            final(self)@ == old(self)@.insert(target, code@),
    {
        self.asms.insert(target.index(), code);
        assert(self@ =~= old(self)@.insert(target, code@));
    }

    /// Returns the code for `target`, if there is any.
    pub fn get(&self, target: WasmTarget) -> (code: Option<Vec<u8>>)
        ensures
            code is Some <==> self@.contains_key(target),
            code matches Some(code) ==> code@ == self@[target],
    {
        match self.asms.get(&target.index()) {
            Some(code) => {
                let copy = vstd::slice::slice_to_vec(code.as_slice());
                Some(copy)
            },
            None => None,
        }
    }
}

} // verus!
