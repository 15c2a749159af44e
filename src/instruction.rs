use vstd::prelude::*;

verus! {

/// How a raw parameter is turned into an address and a value.
#[derive(Clone, Copy, Debug, PartialEq, Eq, Structural)]
pub enum Mode {
    /// The raw parameter is an address.
    Position,
    /// The raw parameter is the value itself.
    Immediate,
    /// The raw parameter is an offset from the relative base.
    Relative,
}

/// The instruction set.
#[derive(Clone, Copy, Debug, PartialEq, Eq, Structural)]
pub enum Opcode {
    Add,
    Multiply,
    Input,
    Output,
    JumpIfTrue,
    JumpIfFalse,
    LessThan,
    Equals,
    AdjustRelativeBase,
    Halt,
}

/// The conditions that stop a machine for good.
#[derive(Clone, Copy, Debug, PartialEq, Eq, Structural)]
pub enum Fault {
    /// The instruction cell (given) holds no known opcode.
    UnknownOpcode(i64),
    /// The instruction cell (given) names a mode digit other than 0, 1 or 2
    /// for a parameter the instruction uses.
    UnknownMode(i64),
    /// A Position or Relative parameter, or a jump target, resolved to a
    /// negative address.
    NegativeAddress,
    /// An instruction's write target is in Immediate mode.
    ImmediateWrite,
    /// The instruction pointer ran off the end of the address space.
    AddressOverflow,
}

/// The opcode that the two low decimal digits of a cell select, if any.
pub open spec fn opcode_spec(cell: i64) -> Option<Opcode> {
    if cell < 0 {
        None
    } else {
        let code = cell % 100;
        if code == 1 {
            Some(Opcode::Add)
        } else if code == 2 {
            Some(Opcode::Multiply)
        } else if code == 3 {
            Some(Opcode::Input)
        } else if code == 4 {
            Some(Opcode::Output)
        } else if code == 5 {
            Some(Opcode::JumpIfTrue)
        } else if code == 6 {
            Some(Opcode::JumpIfFalse)
        } else if code == 7 {
            Some(Opcode::LessThan)
        } else if code == 8 {
            Some(Opcode::Equals)
        } else if code == 9 {
            Some(Opcode::AdjustRelativeBase)
        } else if code == 99 {
            Some(Opcode::Halt)
        } else {
            None
        }
    }
}

/// The decimal place that holds the mode digit of parameter `slot`:
/// hundreds for the first, thousands for the second, ten-thousands for
/// the third.
pub open spec fn mode_place(slot: int) -> int {
    if slot == 1 {
        100
    } else if slot == 2 {
        1000
    } else {
        10000
    }
}

/// The mode digit of parameter `slot` of a non-negative instruction cell.
pub open spec fn mode_digit(cell: i64, slot: int) -> int {
    (cell as int / mode_place(slot)) % 10
}

/// The addressing mode of parameter `slot` of an instruction cell.
pub open spec fn mode_spec(cell: i64, slot: int) -> Option<Mode> {
    let d = mode_digit(cell, slot);
    if d == 0 {
        Some(Mode::Position)
    } else if d == 1 {
        Some(Mode::Immediate)
    } else if d == 2 {
        Some(Mode::Relative)
    } else {
        None
    }
}

/// Decodes the opcode of an instruction cell.
pub fn decode_opcode(cell: i64) -> (r: Result<Opcode, Fault>)
    ensures
        r == (match opcode_spec(cell) {
            Some(op) => Ok(op),
            None => Err(Fault::UnknownOpcode(cell)),
        }),
{
    if cell < 0 {
        return Err(Fault::UnknownOpcode(cell));
    }
    let code: u64 = (cell as u64) % 100;
    match code {
        1 => Ok(Opcode::Add),
        2 => Ok(Opcode::Multiply),
        3 => Ok(Opcode::Input),
        4 => Ok(Opcode::Output),
        5 => Ok(Opcode::JumpIfTrue),
        6 => Ok(Opcode::JumpIfFalse),
        7 => Ok(Opcode::LessThan),
        8 => Ok(Opcode::Equals),
        9 => Ok(Opcode::AdjustRelativeBase),
        99 => Ok(Opcode::Halt),
        _ => Err(Fault::UnknownOpcode(cell)),
    }
}

/// Decodes the addressing mode of parameter `slot` (1, 2 or 3) of a
/// non-negative instruction cell.
pub fn decode_mode(cell: i64, slot: u64) -> (r: Result<Mode, Fault>)
    requires
        cell >= 0,
        1 <= slot <= 3,
    ensures
        r == (match mode_spec(cell, slot as int) {
            Some(m) => Ok(m),
            None => Err(Fault::UnknownMode(cell)),
        }),
{
    let place: u64 = if slot == 1 {
        100
    } else if slot == 2 {
        1000
    } else {
        10000
    };
    let digit: u64 = ((cell as u64) / place) % 10;
    match digit {
        0 => Ok(Mode::Position),
        1 => Ok(Mode::Immediate),
        2 => Ok(Mode::Relative),
        _ => Err(Fault::UnknownMode(cell)),
    }
}

} // verus!
