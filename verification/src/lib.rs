//! A fixture module for exercising a sandboxing execution harness, together
//! with the minimal harness that runs it: named exports with deterministic
//! behaviors (wrapping arithmetic, fuel-consuming loops, memory writes,
//! deliberate traps, stateful counters), executed under an integer fuel
//! budget, with forensic access to the instance's memory and state at the
//! moment execution stopped.

pub mod arith;
pub mod engine;
pub mod fuel;
pub mod instance;
pub mod laws;
pub mod outcome;
pub mod primes;
pub mod recorder;
