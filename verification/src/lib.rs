//! A verified CHIP-8 instruction execution engine.
//!
//! The core of the crate is [`processor::Processor`], the machine state of a
//! CHIP-8 virtual machine, together with one handler per opcode family and a
//! fetch/decode/dispatch step ([`processor::Processor::tick`]). Every handler
//! carries a contract stating its exact effect on a mathematical model of the
//! machine ([`model::MachineView`]); the dispatch step is proved to implement
//! the transition function [`model::tick_spec`].

pub mod chip_machine;
pub mod laws;
pub mod memory;
pub mod model;
pub mod processor;
