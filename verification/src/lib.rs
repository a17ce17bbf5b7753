//! A small stack machine that runs programs written as sequences of symbolic tokens.
//!
//! The machine has two accumulators, an operand stack of signed 64-bit integers and an
//! instruction pointer. It never performs I/O and never terminates the process on its own:
//! characters to print and unknown opcodes are appended to an output log, a halt is reported
//! as a [`model::Status`], and every fatal condition is returned as a [`model::Fault`].
//!
//! * [`symbols`] names the symbols of the instruction set and decodes them.
//! * [`arith`] defines the integer arithmetic of the machine.
//! * [`model`] is the mathematical model: what every operation does to a machine state.
//! * [`machine`] is the executable machine, proved to follow the model.
//! * [`lemmas`] holds the facts about the model that the proofs rest on.
//! * [`laws`] states general properties of the model.
pub mod arith;
pub mod laws;
pub mod lemmas;
pub mod machine;
pub mod model;
pub mod symbols;
