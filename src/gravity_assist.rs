use vstd::prelude::*;

verus! {

/// One instruction of the first, add-and-multiply form of the machine:
/// the memory and instruction pointer after it, and whether to go on;
/// `None` where the program cannot go on (an unknown opcode, an index out
/// of range, or a result above `u32::MAX`).
pub open spec fn operate_spec(m: Seq<u32>, ip: int) -> Option<(Seq<u32>, int, bool)> {
    if !(0 <= ip < m.len()) {
        None
    } else if m[ip] == 99 {
        Some((m, ip, false))
    } else if (m[ip] == 1 || m[ip] == 2) && ip + 3 < m.len() && m[ip + 1] < m.len() && m[ip
        + 2] < m.len() && m[ip + 3] < m.len() {
        let a = m[m[ip + 1] as int] as int;
        let b = m[m[ip + 2] as int] as int;
        let v = if m[ip] == 1 {
            a + b
        } else {
            a * b
        };
        if v > u32::MAX {
            None
        } else {
            Some((m.update(m[ip + 3] as int, v as u32), (ip + 4) % (m.len() as int), true))
        }
    } else {
        None
    }
}

/// A program of the add-and-multiply machine: its memory and instruction
/// pointer.
pub struct Program {
    pub memory: Vec<u32>,
    pub ip: usize,
}

impl Program {
    pub fn new(int_list: &[u32]) -> (p: Program)
        ensures
            p.memory@ == int_list@,
            p.ip == 0,
    {
        let mut memory: Vec<u32> = Vec::new();
        let mut i: usize = 0;
        while i < int_list.len()
            invariant
                i <= int_list@.len(),
                memory@ == int_list@.subrange(0, i as int),
            decreases int_list@.len() - i,
        {
            memory.push(int_list[i]);
            i = i + 1;
            assert(memory@ =~= int_list@.subrange(0, i as int));
        }
        assert(int_list@.subrange(0, i as int) =~= int_list@);
        Program { memory, ip: 0 }
    }

    /// Runs one instruction: `Some(true)` to go on, `Some(false)` at a
    /// halt, `None` (with nothing changed) where the program cannot go on.
    pub fn operate(&mut self) -> (r: Option<bool>)
        ensures
            match operate_spec(old(self).memory@, old(self).ip as int) {
                Some((m, ip, go)) => r == Some(go) && final(self).memory@ == m && final(self).ip
                    == ip,
                None => r is None && final(self).memory@ == old(self).memory@ && final(self).ip
                    == old(self).ip,
            },
    {
        let len = self.memory.len();
        let ip = self.ip;
        if ip >= len {
            return None;
        }
        let op = self.memory[ip];
        if op == 99 {
            return Some(false);
        }
        if !(op == 1 || op == 2) || len - ip <= 3 {
            return None;
        }
        let i1 = self.memory[ip + 1] as usize;
        let i2 = self.memory[ip + 2] as usize;
        let i3 = self.memory[ip + 3] as usize;
        if i1 >= len || i2 >= len || i3 >= len {
            return None;
        }
        let a = self.memory[i1] as u64;
        let b = self.memory[i2] as u64;
        let v: u64 = if op == 1 {
            a + b
        } else {
            assert(a * b <= 0xffff_ffff * 0xffff_ffff) by (nonlinear_arith)
                requires
                    a <= 0xffff_ffff,
                    b <= 0xffff_ffff,
            ;
            a * b
        };
        if v > 0xffff_ffff {
            return None;
        }
        self.memory.set(i3, v as u32);
        self.ip = (ip + 4) % len;
        Some(true)
    }
}

} // verus!
