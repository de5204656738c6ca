use vstd::prelude::*;

verus! {

/// The fault classes an invocation can stop with. A trap is a designated
/// abnormal-termination condition, distinct from a normal return and from
/// running out of fuel.
#[derive(Clone, Copy, Debug, PartialEq, Eq, Structural)]
pub enum TrapKind {
    /// A memory access outside the instance's linear memory.
    OutOfBoundsMemory,
    /// An unreachable-code marker was executed.
    Unreachable,
    /// An integer division by zero.
    DivideByZero,
    /// Any other instruction-level fault.
    Other,
}

/// How one invocation ended. Immutable once produced; the value of a
/// `Returned` outcome is widened to `i64`, which holds every export's
/// return type.
#[derive(Clone, Copy, Debug, PartialEq, Eq, Structural)]
pub enum ExecutionOutcome {
    /// The export ran to completion and returned this value.
    Returned(i64),
    /// Execution stopped at a fault of the given kind.
    Trapped(TrapKind),
    /// The fuel budget reached zero before the export returned.
    FuelExhausted,
}

/// Refusal of a call before any execution happens: the export name is
/// unknown, or the arguments do not match its arity or parameter types.
/// Surfaced to the caller; never reported as a trap.
#[derive(Clone, Copy, Debug, PartialEq, Eq, Structural)]
pub enum InvokeError {
    InvalidCall,
}

/// Refusal of a forensic read outside the instance's memory bounds.
/// Local to the inspector, distinct from an execution-time trap.
#[derive(Clone, Copy, Debug, PartialEq, Eq, Structural)]
pub enum ReadError {
    OutOfBoundsRead,
}

} // verus!
