use std::collections::VecDeque;
use vstd::prelude::*;

use crate::instruction::{
    decode_mode, decode_opcode, mode_spec, opcode_spec, Fault, Mode, Opcode,
};
use crate::memory::{mem_read, memory_of, Memory};

verus! {

/// The abstract state of one machine: its memory, instruction pointer,
/// relative base, and the input values it has been given but not yet
/// consumed.
pub struct MachineState {
    pub memory: Map<u64, i64>,
    pub ip: u64,
    pub rb: i64,
    pub input: Seq<i64>,
}

/// What a machine reports after an instruction.
#[derive(Clone, Copy, Debug, PartialEq, Eq, Structural)]
pub enum Event {
    /// An instruction ran and nothing needs the outside world.
    Continue,
    /// An Output instruction published this value.
    Output(i64),
    /// An Input instruction found no pending value; nothing changed.
    AwaitingInput,
    /// The machine is at a Halt instruction; nothing changed.
    Halted,
}

/// A resolved parameter: the raw stored integer, its mode, the effective
/// address (for Immediate mode, the parameter's own cell) and the
/// effective value.
#[derive(Clone, Copy, Debug, PartialEq, Eq, Structural)]
pub struct Parameter {
    pub integer: i64,
    pub mode: Mode,
    pub address: u64,
    pub value: i64,
}

/// The state of a machine freshly loaded with `program`.
pub open spec fn initial_state(program: Seq<i64>) -> MachineState {
    MachineState { memory: memory_of(program), ip: 0, rb: 0, input: Seq::empty() }
}

/// The instruction cell at the instruction pointer.
pub open spec fn current_cell(s: MachineState) -> i64 {
    mem_read(s.memory, s.ip)
}

/// Resolves parameter `slot` of the instruction at the instruction pointer.
pub open spec fn param_spec(s: MachineState, slot: int) -> Result<Parameter, Fault> {
    let cell = current_cell(s);
    if cell < 0 {
        Err(Fault::UnknownOpcode(cell))
    } else if s.ip + slot > u64::MAX {
        Err(Fault::AddressOverflow)
    } else {
        let raw = mem_read(s.memory, (s.ip + slot) as u64);
        match mode_spec(cell, slot) {
            None => Err(Fault::UnknownMode(cell)),
            Some(Mode::Position) => if raw < 0 {
                Err(Fault::NegativeAddress)
            } else {
                Ok(
                    Parameter {
                        integer: raw,
                        mode: Mode::Position,
                        address: raw as u64,
                        value: mem_read(s.memory, raw as u64),
                    },
                )
            },
            Some(Mode::Immediate) => Ok(
                Parameter {
                    integer: raw,
                    mode: Mode::Immediate,
                    address: (s.ip + slot) as u64,
                    value: raw,
                },
            ),
            Some(Mode::Relative) => {
                let a = s.rb + raw;
                if a < 0 {
                    Err(Fault::NegativeAddress)
                } else {
                    Ok(
                        Parameter {
                            integer: raw,
                            mode: Mode::Relative,
                            address: a as u64,
                            value: mem_read(s.memory, a as u64),
                        },
                    )
                }
            },
        }
    }
}

/// Resolves parameter `slot` as a write target: its effective address.
pub open spec fn target_spec(s: MachineState, slot: int) -> Result<u64, Fault> {
    match param_spec(s, slot) {
        Err(f) => Err(f),
        Ok(p) => if p.mode == Mode::Immediate {
            Err(Fault::ImmediateWrite)
        } else {
            Ok(p.address)
        },
    }
}

/// The value that Add, Multiply, Less-than and Equals store. Sums and
/// products wrap around on overflow.
pub open spec fn combine_spec(op: Opcode, a: i64, b: i64) -> i64 {
    match op {
        Opcode::Add => a.wrapping_add(b),
        Opcode::Multiply => a.wrapping_mul(b),
        Opcode::LessThan => if a < b {
            1
        } else {
            0
        },
        _ => if a == b {
            1
        } else {
            0
        },
    }
}

/// Whether Jump-if-true or Jump-if-false takes its jump on `a`.
pub open spec fn jumps_spec(op: Opcode, a: i64) -> bool {
    if op == Opcode::JumpIfTrue {
        a != 0
    } else {
        a == 0
    }
}

/// The largest instruction pointer at which an instruction may start:
/// above it, the cells of a four-cell instruction would leave the address
/// space.
pub const MAX_IP: u64 = 0xffff_ffff_ffff_fffb;

/// One instruction: the state after it and what it reports. On a fault,
/// at a Halt, or at an Input with no pending value, the state is unchanged.
pub open spec fn step_spec(s: MachineState) -> (MachineState, Result<Event, Fault>) {
    let cell = current_cell(s);
    if s.ip > MAX_IP {
        (s, Err(Fault::AddressOverflow))
    } else {
        match opcode_spec(cell) {
            None => (s, Err(Fault::UnknownOpcode(cell))),
            Some(op) => match op {
                Opcode::Add | Opcode::Multiply | Opcode::LessThan | Opcode::Equals => {
                    match param_spec(s, 1) {
                        Err(f) => (s, Err(f)),
                        Ok(p1) => match param_spec(s, 2) {
                            Err(f) => (s, Err(f)),
                            Ok(p2) => match target_spec(s, 3) {
                                Err(f) => (s, Err(f)),
                                Ok(t) => (
                                    MachineState {
                                        memory: s.memory.insert(
                                            t,
                                            combine_spec(op, p1.value, p2.value),
                                        ),
                                        ip: (s.ip + 4) as u64,
                                        ..s
                                    },
                                    Ok(Event::Continue),
                                ),
                            },
                        },
                    }
                },
                Opcode::Input => match target_spec(s, 1) {
                    Err(f) => (s, Err(f)),
                    Ok(t) => if s.input.len() == 0 {
                        (s, Ok(Event::AwaitingInput))
                    } else {
                        (
                            MachineState {
                                memory: s.memory.insert(t, s.input[0]),
                                ip: (s.ip + 2) as u64,
                                input: s.input.drop_first(),
                                ..s
                            },
                            Ok(Event::Continue),
                        )
                    },
                },
                Opcode::Output => match param_spec(s, 1) {
                    Err(f) => (s, Err(f)),
                    Ok(p1) => (
                        MachineState { ip: (s.ip + 2) as u64, ..s },
                        Ok(Event::Output(p1.value)),
                    ),
                },
                Opcode::JumpIfTrue | Opcode::JumpIfFalse => match param_spec(s, 1) {
                    Err(f) => (s, Err(f)),
                    Ok(p1) => match param_spec(s, 2) {
                        Err(f) => (s, Err(f)),
                        Ok(p2) => if !jumps_spec(op, p1.value) {
                            (MachineState { ip: (s.ip + 3) as u64, ..s }, Ok(Event::Continue))
                        } else if p2.value < 0 {
                            (s, Err(Fault::NegativeAddress))
                        } else {
                            (MachineState { ip: p2.value as u64, ..s }, Ok(Event::Continue))
                        },
                    },
                },
                Opcode::AdjustRelativeBase => match param_spec(s, 1) {
                    Err(f) => (s, Err(f)),
                    Ok(p1) => (
                        MachineState {
                            ip: (s.ip + 2) as u64,
                            rb: s.rb.wrapping_add(p1.value),
                            ..s
                        },
                        Ok(Event::Continue),
                    ),
                },
                Opcode::Halt => (s, Ok(Event::Halted)),
            },
        }
    }
}

/// Executes instructions until one reports something other than
/// `Continue`, a fault occurs, or `fuel` instructions have run (then the
/// report is `Continue`).
pub open spec fn run_spec(s: MachineState, fuel: nat) -> (MachineState, Result<Event, Fault>)
    decreases fuel,
{
    if fuel == 0 {
        (s, Ok(Event::Continue))
    } else {
        let (next, r) = step_spec(s);
        match r {
            Ok(Event::Continue) => run_spec(next, (fuel - 1) as nat),
            _ => (next, r),
        }
    }
}

/// How a machine driven to completion stopped.
#[derive(Clone, Copy, Debug, PartialEq, Eq, Structural)]
pub enum Finish {
    /// It reached a Halt instruction.
    Halted,
    /// It faulted.
    Faulted(Fault),
    /// It needed input and none was left.
    InputClosed,
    /// The step budget ran out first.
    OutOfFuel,
}

/// Executes up to `fuel` instructions with no input beyond what is
/// pending: everything output on the way, and how the run stopped.
pub open spec fn drain_spec(s: MachineState, fuel: nat) -> (Seq<i64>, Finish)
    decreases fuel,
{
    if fuel == 0 {
        (Seq::empty(), Finish::OutOfFuel)
    } else {
        let (next, r) = step_spec(s);
        match r {
            Err(f) => (Seq::empty(), Finish::Faulted(f)),
            Ok(Event::Continue) => drain_spec(next, (fuel - 1) as nat),
            Ok(Event::Output(v)) => {
                let (rest, finish) = drain_spec(next, (fuel - 1) as nat);
                (seq![v] + rest, finish)
            },
            Ok(Event::AwaitingInput) => (Seq::empty(), Finish::InputClosed),
            Ok(Event::Halted) => (Seq::empty(), Finish::Halted),
        }
    }
}

/// One machine instance: its memory, registers and pending input.
pub struct Computer {
    memory: Memory,
    ip: u64,
    rb: i64,
    input: VecDeque<i64>,
}

impl View for Computer {
    type V = MachineState;

    closed spec fn view(&self) -> MachineState {
        MachineState { memory: self.memory@, ip: self.ip, rb: self.rb, input: self.input@ }
    }
}

impl Computer {
    /// A machine with `program` loaded at address 0, both registers at
    /// zero and no pending input.
    pub fn new(program: &[i64]) -> (c: Computer)
        ensures
            c@ == initial_state(program@),
    {
        Computer { memory: Memory::new(program), ip: 0, rb: 0, input: VecDeque::new() }
    }

    /// Queues `value` for a later Input instruction.
    pub fn push_input(&mut self, value: i64)
        ensures
            final(self)@ == (MachineState { input: old(self)@.input.push(value), ..old(self)@ }),
    {
        self.input.push_back(value);
    }

    /// The value at `address`.
    pub fn get_value(&self, address: u64) -> (r: i64)
        ensures
            r == mem_read(self@.memory, address),
    {
        self.memory.read(address)
    }

    /// Stores `value` at `address`, as a patch before a run.
    pub fn set_value(&mut self, address: u64, value: i64)
        ensures
            final(self)@ == (MachineState {
                memory: old(self)@.memory.insert(address, value),
                ..old(self)@
            }),
    {
        self.memory.write(address, value);
    }

    /// The instruction pointer.
    pub fn ip(&self) -> (r: u64)
        ensures
            r == self@.ip,
    {
        self.ip
    }

    /// The relative base.
    pub fn relative_base(&self) -> (r: i64)
        ensures
            r == self@.rb,
    {
        self.rb
    }

    /// The instruction cell at the instruction pointer.
    pub fn get_opcode(&self) -> (r: i64)
        ensures
            r == current_cell(self@),
    {
        self.memory.read(self.ip)
    }

    /// Resolves parameter `offset` (1, 2 or 3) of the instruction at the
    /// instruction pointer.
    pub fn get_parameter(&self, offset: u64) -> (r: Result<Parameter, Fault>)
        requires
            1 <= offset <= 3,
        ensures
            r == param_spec(self@, offset as int),
    {
        let cell = self.memory.read(self.ip);
        if cell < 0 {
            return Err(Fault::UnknownOpcode(cell));
        }
        if self.ip > u64::MAX - offset {
            return Err(Fault::AddressOverflow);
        }
        let own: u64 = self.ip + offset;
        let raw = self.memory.read(own);
        let mode = match decode_mode(cell, offset) {
            Ok(m) => m,
            Err(f) => return Err(f),
        };
        match mode {
            Mode::Position => {
                if raw < 0 {
                    Err(Fault::NegativeAddress)
                } else {
                    let address = raw as u64;
                    Ok(
                        Parameter {
                            integer: raw,
                            mode,
                            address,
                            value: self.memory.read(address),
                        },
                    )
                }
            },
            Mode::Immediate => Ok(Parameter { integer: raw, mode, address: own, value: raw }),
            Mode::Relative => {
                let a: i128 = self.rb as i128 + raw as i128;
                if a < 0 {
                    Err(Fault::NegativeAddress)
                } else {
                    let address = a as u64;
                    Ok(
                        Parameter {
                            integer: raw,
                            mode,
                            address,
                            value: self.memory.read(address),
                        },
                    )
                }
            },
        }
    }

    /// Resolves parameter `offset` as a write target.
    fn write_target(&self, offset: u64) -> (r: Result<u64, Fault>)
        requires
            1 <= offset <= 3,
        ensures
            r == target_spec(self@, offset as int),
    {
        match self.get_parameter(offset) {
            Err(f) => Err(f),
            Ok(p) => match p.mode {
                Mode::Immediate => Err(Fault::ImmediateWrite),
                _ => Ok(p.address),
            },
        }
    }
    /// Executes the instruction at the instruction pointer.
    pub fn step(&mut self) -> (r: Result<Event, Fault>)
        ensures
            (final(self)@, r) == step_spec(old(self)@),
    {
        if self.ip > MAX_IP {
            return Err(Fault::AddressOverflow);
        }
        let cell = self.memory.read(self.ip);
        let op = match decode_opcode(cell) {
            Ok(op) => op,
            Err(f) => return Err(f),
        };
        match op {
            Opcode::Add | Opcode::Multiply | Opcode::LessThan | Opcode::Equals => {
                let p1 = match self.get_parameter(1) {
                    Ok(p) => p,
                    Err(f) => return Err(f),
                };
                let p2 = match self.get_parameter(2) {
                    Ok(p) => p,
                    Err(f) => return Err(f),
                };
                let t = match self.write_target(3) {
                    Ok(t) => t,
                    Err(f) => return Err(f),
                };
                let v = combine(op, p1.value, p2.value);
                self.memory.write(t, v);
                self.ip = self.ip + 4;
                Ok(Event::Continue)
            },
            Opcode::Input => {
                let t = match self.write_target(1) {
                    Ok(t) => t,
                    Err(f) => return Err(f),
                };
                match self.input.pop_front() {
                    None => Ok(Event::AwaitingInput),
                    Some(v) => {
                        self.memory.write(t, v);
                        self.ip = self.ip + 2;
                        Ok(Event::Continue)
                    },
                }
            },
            Opcode::Output => {
                let p1 = match self.get_parameter(1) {
                    Ok(p) => p,
                    Err(f) => return Err(f),
                };
                self.ip = self.ip + 2;
                Ok(Event::Output(p1.value))
            },
            Opcode::JumpIfTrue | Opcode::JumpIfFalse => {
                let p1 = match self.get_parameter(1) {
                    Ok(p) => p,
                    Err(f) => return Err(f),
                };
                let p2 = match self.get_parameter(2) {
                    Ok(p) => p,
                    Err(f) => return Err(f),
                };
                let jump = match op {
                    Opcode::JumpIfTrue => p1.value != 0,
                    _ => p1.value == 0,
                };
                if !jump {
                    self.ip = self.ip + 3;
                } else if p2.value < 0 {
                    return Err(Fault::NegativeAddress);
                } else {
                    self.ip = p2.value as u64;
                }
                Ok(Event::Continue)
            },
            Opcode::AdjustRelativeBase => {
                let p1 = match self.get_parameter(1) {
                    Ok(p) => p,
                    Err(f) => return Err(f),
                };
                self.rb = self.rb.wrapping_add(p1.value);
                self.ip = self.ip + 2;
                Ok(Event::Continue)
            },
            Opcode::Halt => Ok(Event::Halted),
        }
    }

    /// Executes instructions until one reports something other than
    /// `Continue` (an output, a wait for input, the halt) or a fault occurs,
    /// running at most `max_steps` instructions.
    pub fn run(&mut self, max_steps: u64) -> (r: Result<Event, Fault>)
        ensures
            (final(self)@, r) == run_spec(old(self)@, max_steps as nat),
    {
        let mut left: u64 = max_steps;
        while left > 0
            invariant
                run_spec(self@, left as nat) == run_spec(old(self)@, max_steps as nat),
            decreases left,
        {
            let r = self.step();
            match r {
                Ok(Event::Continue) => {},
                _ => return r,
            }
            left = left - 1;
        }
        Ok(Event::Continue)
    }
    /// Drives the machine with no input beyond what is pending, running at
    /// most `max_steps` instructions: returns everything it output and how
    /// it stopped.
    pub fn run_to_halt(&mut self, max_steps: u64) -> (r: (Vec<i64>, Finish))
        ensures
            (r.0@, r.1) == drain_spec(old(self)@, max_steps as nat),
    {
        let mut out: Vec<i64> = Vec::new();
        let mut left: u64 = max_steps;
        while left > 0
            invariant
                drain_spec(old(self)@, max_steps as nat).0 == out@ + drain_spec(
                    self@,
                    left as nat,
                ).0,
                drain_spec(old(self)@, max_steps as nat).1 == drain_spec(self@, left as nat).1,
            decreases left,
        {
            let r = self.step();
            match r {
                Ok(Event::Continue) => {},
                Ok(Event::Output(v)) => {
                    let ghost rest = drain_spec(self@, (left - 1) as nat).0;
                    assert(out@ + (seq![v] + rest) =~= out@.push(v) + rest);
                    out.push(v);
                },
                Ok(Event::AwaitingInput) => {
                    assert(out@ + Seq::<i64>::empty() =~= out@);
                    return (out, Finish::InputClosed);
                },
                Ok(Event::Halted) => {
                    assert(out@ + Seq::<i64>::empty() =~= out@);
                    return (out, Finish::Halted);
                },
                Err(f) => {
                    assert(out@ + Seq::<i64>::empty() =~= out@);
                    return (out, Finish::Faulted(f));
                },
            }
            left = left - 1;
        }
        assert(out@ + Seq::<i64>::empty() =~= out@);
        (out, Finish::OutOfFuel)
    }
}

/// The value that Add, Multiply, Less-than or Equals stores.
fn combine(op: Opcode, a: i64, b: i64) -> (r: i64)
    ensures
        r == combine_spec(op, a, b),
{
    match op {
        Opcode::Add => a.wrapping_add(b),
        Opcode::Multiply => a.wrapping_mul(b),
        Opcode::LessThan => if a < b {
            1
        } else {
            0
        },
        _ => if a == b {
            1
        } else {
            0
        },
    }
}

/// However much fuel each of two runs from the same state is given, if
/// both reach the Halt instruction they stop in the same state.
pub proof fn lemma_halted_state_unique(s: MachineState, f1: nat, f2: nat)
    requires
        run_spec(s, f1).1 == Ok::<Event, Fault>(Event::Halted),
        run_spec(s, f2).1 == Ok::<Event, Fault>(Event::Halted),
    ensures
        run_spec(s, f1).0 == run_spec(s, f2).0,
    decreases f1,
{
    let (next, r) = step_spec(s);
    if r == Ok::<Event, Fault>(Event::Continue) {
        lemma_halted_state_unique(next, (f1 - 1) as nat, (f2 - 1) as nat);
    }
}

/// Running a program twice from the same loaded memory, each time until
/// it halts, leaves the same final memory and registers.
pub proof fn lemma_rerun_same_result(program: Seq<i64>, f1: nat, f2: nat)
    requires
        run_spec(initial_state(program), f1).1 == Ok::<Event, Fault>(Event::Halted),
        run_spec(initial_state(program), f2).1 == Ok::<Event, Fault>(Event::Halted),
    ensures
        run_spec(initial_state(program), f1).0 == run_spec(initial_state(program), f2).0,
        run_spec(initial_state(program), f1).0.memory == run_spec(
            initial_state(program),
            f2,
        ).0.memory,
{
    lemma_halted_state_unique(initial_state(program), f1, f2);
}

} // verus!
