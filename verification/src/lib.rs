//! A verified execution engine for Core War matches: a circular shared
//! memory of Redcode instructions, an operand resolver with locality
//! restriction, an instruction executor covering the full ICWS-94 opcode
//! set, per-warrior bounded FIFO task queues, and a deterministic
//! round-robin match scheduler.

pub mod redcode;
pub mod semantics;
pub mod mars;
pub mod laws;
