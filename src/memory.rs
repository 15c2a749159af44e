use std::collections::HashMap;
use vstd::prelude::*;

verus! {

broadcast use vstd::std_specs::hash::group_hash_axioms;

/// What a cell of a memory map holds: the stored value, or zero where
/// nothing was ever written.
pub open spec fn mem_read(m: Map<u64, i64>, address: u64) -> i64 {
    if m.contains_key(address) {
        m[address]
    } else {
        0
    }
}

/// The memory a program is loaded into: cell `a` holds `program[a]`.
pub open spec fn memory_of(program: Seq<i64>) -> Map<u64, i64> {
    Map::new(|a: u64| (a as int) < program.len(), |a: u64| program[a as int])
}

/// A sparse store of signed integers addressed by non-negative integers.
/// Cells that were never written read as zero; a write at any address
/// succeeds and may grow the store.
pub struct Memory {
    cells: HashMap<u64, i64>,
}

impl View for Memory {
    type V = Map<u64, i64>;

    closed spec fn view(&self) -> Map<u64, i64> {
        self.cells@
    }
}

impl Memory {
    /// Loads `program` into addresses `0..program.len()`.
    pub fn new(program: &[i64]) -> (m: Memory)
        ensures
            m@ == memory_of(program@),
    {
        let mut cells: HashMap<u64, i64> = HashMap::new();
        let mut i: usize = 0;
        while i < program.len()
            invariant
                i <= program@.len(),
                cells@ == memory_of(program@.subrange(0, i as int)),
            decreases program@.len() - i,
        {
            proof {
                let before = program@.subrange(0, i as int);
                let after = program@.subrange(0, i as int + 1);
                assert(memory_of(after) =~= memory_of(before).insert(i as u64, program@[i as int]));
            }
            cells.insert(i as u64, program[i]);
            i = i + 1;
        }
        assert(program@.subrange(0, i as int) =~= program@);
        Memory { cells }
    }

    /// The value at `address`; zero for a cell never written.
    pub fn read(&self, address: u64) -> (r: i64)
        ensures
            r == mem_read(self@, address),
    {
        match self.cells.get(&address) {
            Some(v) => *v,
            None => 0,
        }
    }

    /// Stores `value` at `address`.
    pub fn write(&mut self, address: u64, value: i64)
        ensures
            final(self)@ == old(self)@.insert(address, value),
    {
        self.cells.insert(address, value);
    }
}

} // verus!
