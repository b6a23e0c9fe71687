//! Cycle-counting core of an SM83-class handheld console: register file,
//! memory bus, timer, decode tables and the instruction interpreter.
//!
//! `state` holds the machine as a value and the meaning of every step;
//! `cpu` holds the interpreter, whose contract is that meaning. `laws` and
//! `timing` prove what follows from it. Nothing here prints or reads: the
//! bytes that a program sends to the serial port are kept on the bus until
//! the host takes them.

pub mod alu;
pub mod bits;
pub mod bus;
pub mod consts;
pub mod context;
pub mod cpu;
pub mod emulator;
pub mod inst;
pub mod laws;
pub mod registers;
pub mod state;
pub mod timer;
pub mod timing;
