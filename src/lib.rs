//! An integer virtual machine with positional, immediate and relative
//! addressing, the wiring that composes several machines into pipelines
//! and feedback rings, and the puzzle solvers built around it: fuel
//! requirements, the add-and-multiply machine, crossing wires, passwords,
//! image layers, moon motion, the arcade screen and signal phases.

pub mod memory;
pub mod instruction;
pub mod computer;
pub mod network;
pub mod load;
pub mod fuel;
pub mod gravity_assist;
pub mod wires;
pub mod password;
pub mod image;
pub mod moons;
pub mod arcade;
pub mod signal;
