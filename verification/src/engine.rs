use vstd::prelude::*;
use vstd::string::StrSliceExecFns;

use crate::arith::factorial_cost;
use crate::arith::fib_cost;
use crate::arith::nested_cost;
use crate::arith::spec_factorial;
use crate::arith::spec_fib;
use crate::arith::spec_nested;
use crate::arith::spec_spin;
use crate::arith::spin_cost;
use crate::arith::wrap_add32;
use crate::arith::wrap_mul32;
use crate::fuel::FuelMeter;
use crate::instance::get_state_outcome;
use crate::instance::incr_model;
use crate::instance::incr_model_n;
use crate::instance::read_result;
use crate::instance::requested_steps;
use crate::instance::scan_cost;
use crate::instance::spec_fill_bytes;
use crate::instance::spec_fill_incrementing;
use crate::instance::spec_scan;
use crate::instance::spec_zero_history;
use crate::instance::write_count;
use crate::instance::Instance;
use crate::instance::InstanceModel;
use crate::instance::HISTORY_SLOTS;
use crate::instance::MEM_SIZE;
use crate::outcome::ExecutionOutcome;
use crate::outcome::InvokeError;
use crate::outcome::TrapKind;
use crate::primes::count_fuel;
use crate::primes::prime_fuel;
use crate::primes::prime_result;
use crate::primes::spec_count_primes;

verus! {

/// The named exports of the fixture module, one variant per export.
#[derive(Clone, Copy, Debug, PartialEq, Eq, Structural)]
pub enum Export {
    Add,
    Multiply,
    Factorial,
    Spin,
    InfiniteLoop,
    NestedLoops,
    WritePattern,
    ReadBuffer,
    ScanForPattern,
    FillIncrementing,
    TrapOutOfBounds,
    TrapUnreachable,
    TrapDivZero,
    StatefulIncrement,
    GetState,
    ResetState,
    CrashAfterN,
    IncrementUntilExhausted,
    Fib,
    IsPrime,
    CountPrimes,
}

/// Which export a name denotes, if any.
pub open spec fn export_of_name(s: Seq<char>) -> Option<Export> {
    if s == "add"@ {
        Some(Export::Add)
    } else if s == "multiply"@ {
        Some(Export::Multiply)
    } else if s == "factorial"@ {
        Some(Export::Factorial)
    } else if s == "spin"@ {
        Some(Export::Spin)
    } else if s == "infinite_loop"@ {
        Some(Export::InfiniteLoop)
    } else if s == "nested_loops"@ {
        Some(Export::NestedLoops)
    } else if s == "write_pattern"@ {
        Some(Export::WritePattern)
    } else if s == "read_buffer"@ {
        Some(Export::ReadBuffer)
    } else if s == "scan_for_pattern"@ {
        Some(Export::ScanForPattern)
    } else if s == "fill_incrementing"@ {
        Some(Export::FillIncrementing)
    } else if s == "trap_out_of_bounds"@ {
        Some(Export::TrapOutOfBounds)
    } else if s == "trap_unreachable"@ {
        Some(Export::TrapUnreachable)
    } else if s == "trap_div_zero"@ {
        Some(Export::TrapDivZero)
    } else if s == "stateful_increment"@ {
        Some(Export::StatefulIncrement)
    } else if s == "get_state"@ {
        Some(Export::GetState)
    } else if s == "reset_state"@ {
        Some(Export::ResetState)
    } else if s == "crash_after_n"@ {
        Some(Export::CrashAfterN)
    } else if s == "increment_until_exhausted"@ {
        Some(Export::IncrementUntilExhausted)
    } else if s == "fib"@ {
        Some(Export::Fib)
    } else if s == "is_prime"@ {
        Some(Export::IsPrime)
    } else if s == "count_primes"@ {
        Some(Export::CountPrimes)
    } else {
        None
    }
}

/// Character-for-character string equality.
fn str_eq(a: &str, b: &str) -> (eq: bool)
    ensures
        eq == (a@ == b@),
{
    let len_a = a.unicode_len();
    let len_b = b.unicode_len();
    if len_a != len_b {
        return false;
    }
    let mut i: usize = 0;
    while i < len_a
        invariant
            i <= len_a,
            len_a == a@.len(),
            len_a == b@.len(),
            forall|j: int| 0 <= j < i ==> a@[j] == b@[j],
        decreases len_a - i,
    {
        if a.get_char(i) != b.get_char(i) {
            return false;
        }
        i = i + 1;
    }
    proof {
        assert(a@ =~= b@);
    }
    true
}

/// Looks an export up by its name; `None` for an unknown name.
pub fn export_named(name: &str) -> (ex: Option<Export>)
    ensures
        ex == export_of_name(name@),
{
    if str_eq(name, "add") {
        Some(Export::Add)
    } else if str_eq(name, "multiply") {
        Some(Export::Multiply)
    } else if str_eq(name, "factorial") {
        Some(Export::Factorial)
    } else if str_eq(name, "spin") {
        Some(Export::Spin)
    } else if str_eq(name, "infinite_loop") {
        Some(Export::InfiniteLoop)
    } else if str_eq(name, "nested_loops") {
        Some(Export::NestedLoops)
    } else if str_eq(name, "write_pattern") {
        Some(Export::WritePattern)
    } else if str_eq(name, "read_buffer") {
        Some(Export::ReadBuffer)
    } else if str_eq(name, "scan_for_pattern") {
        Some(Export::ScanForPattern)
    } else if str_eq(name, "fill_incrementing") {
        Some(Export::FillIncrementing)
    } else if str_eq(name, "trap_out_of_bounds") {
        Some(Export::TrapOutOfBounds)
    } else if str_eq(name, "trap_unreachable") {
        Some(Export::TrapUnreachable)
    } else if str_eq(name, "trap_div_zero") {
        Some(Export::TrapDivZero)
    } else if str_eq(name, "stateful_increment") {
        Some(Export::StatefulIncrement)
    } else if str_eq(name, "get_state") {
        Some(Export::GetState)
    } else if str_eq(name, "reset_state") {
        Some(Export::ResetState)
    } else if str_eq(name, "crash_after_n") {
        Some(Export::CrashAfterN)
    } else if str_eq(name, "increment_until_exhausted") {
        Some(Export::IncrementUntilExhausted)
    } else if str_eq(name, "fib") {
        Some(Export::Fib)
    } else if str_eq(name, "is_prime") {
        Some(Export::IsPrime)
    } else if str_eq(name, "count_primes") {
        Some(Export::CountPrimes)
    } else {
        None
    }
}

/// Whether a widened argument fits the export's `i32` parameter type.
pub open spec fn in_i32(v: i64) -> bool {
    i32::MIN <= v <= i32::MAX
}

/// Whether a widened argument fits the export's `u8` parameter type.
pub open spec fn in_u8(v: i64) -> bool {
    0 <= v <= u8::MAX
}

/// Whether `args` match the export's arity and parameter types.
pub open spec fn args_match(ex: Export, args: Seq<i64>) -> bool {
    match ex {
        Export::Add | Export::Multiply => args.len() == 2 && in_i32(args[0]) && in_i32(args[1]),
        Export::Factorial | Export::Spin | Export::NestedLoops | Export::ReadBuffer
            | Export::TrapDivZero | Export::CrashAfterN | Export::Fib | Export::IsPrime
            | Export::CountPrimes => args.len() == 1 && in_i32(args[0]),
        Export::WritePattern => args.len() == 2 && in_u8(args[0]) && in_i32(args[1]),
        Export::ScanForPattern => args.len() == 1 && in_u8(args[0]),
        Export::InfiniteLoop | Export::FillIncrementing | Export::TrapOutOfBounds
            | Export::TrapUnreachable | Export::StatefulIncrement | Export::GetState
            | Export::ResetState | Export::IncrementUntilExhausted => args.len() == 0,
    }
}

fn fits_i32(v: i64) -> (ok: bool)
    ensures
        ok == in_i32(v),
{
    v >= (i32::MIN as i64) && v <= (i32::MAX as i64)
}

fn fits_u8(v: i64) -> (ok: bool)
    ensures
        ok == in_u8(v),
{
    v >= 0 && v <= (u8::MAX as i64)
}

fn check_args(ex: Export, args: &Vec<i64>) -> (ok: bool)
    ensures
        ok == args_match(ex, args@),
{
    match ex {
        Export::Add | Export::Multiply => args.len() == 2 && fits_i32(args[0]) && fits_i32(
            args[1],
        ),
        Export::Factorial | Export::Spin | Export::NestedLoops | Export::ReadBuffer
            | Export::TrapDivZero | Export::CrashAfterN | Export::Fib | Export::IsPrime
            | Export::CountPrimes => args.len() == 1 && fits_i32(args[0]),
        Export::WritePattern => args.len() == 2 && fits_u8(args[0]) && fits_i32(args[1]),
        Export::ScanForPattern => args.len() == 1 && fits_u8(args[0]),
        Export::InfiniteLoop | Export::FillIncrementing | Export::TrapOutOfBounds
            | Export::TrapUnreachable | Export::StatefulIncrement | Export::GetState
            | Export::ResetState | Export::IncrementUntilExhausted => args.len() == 0,
    }
}

/// What one valid invocation does: how the instance's view after the call
/// and the outcome relate to the view before the call, the arguments, and
/// the fuel budget, export by export.
pub open spec fn invoke_post(
    ex: Export,
    args: Seq<i64>,
    pre: InstanceModel,
    post: InstanceModel,
    budget: u64,
    outcome: ExecutionOutcome,
) -> bool {
    match ex {
        Export::Add => post == pre && outcome == ExecutionOutcome::Returned(
            wrap_add32(args[0] as i32, args[1] as i32) as i64,
        ),
        Export::Multiply => post == pre && outcome == ExecutionOutcome::Returned(
            wrap_mul32(args[0] as i32, args[1] as i32) as i64,
        ),
        Export::Factorial => post == pre && (if budget >= factorial_cost(args[0] as int) {
            outcome == ExecutionOutcome::Returned(spec_factorial(args[0] as int))
        } else {
            outcome == ExecutionOutcome::FuelExhausted
        }),
        Export::Spin => post == pre && (if budget >= spin_cost(args[0] as int) {
            outcome == ExecutionOutcome::Returned(spec_spin(args[0] as int) as i64)
        } else {
            outcome == ExecutionOutcome::FuelExhausted
        }),
        Export::InfiniteLoop => post == pre && outcome == ExecutionOutcome::FuelExhausted,
        Export::NestedLoops => post == pre && (if budget >= nested_cost(args[0] as int) {
            outcome == ExecutionOutcome::Returned(spec_nested(args[0] as int) as i64)
        } else {
            outcome == ExecutionOutcome::FuelExhausted
        }),
        Export::WritePattern => {
            let cnt = write_count(args[1] as int);
            if budget >= cnt {
                &&& post == (InstanceModel {
                    mem: spec_fill_bytes(pre.mem, args[0] as u8, cnt),
                    ..pre
                })
                &&& outcome == ExecutionOutcome::Returned(cnt as i64)
            } else {
                &&& post == (InstanceModel {
                    mem: spec_fill_bytes(pre.mem, args[0] as u8, budget as int),
                    ..pre
                })
                &&& outcome == ExecutionOutcome::FuelExhausted
            }
        },
        Export::ReadBuffer => post == pre && outcome == ExecutionOutcome::Returned(
            read_result(pre.mem, args[0]),
        ),
        Export::ScanForPattern => post == pre && (if budget >= scan_cost(pre.mem, args[0] as u8) {
            outcome == ExecutionOutcome::Returned(spec_scan(pre.mem, args[0] as u8) as i64)
        } else {
            outcome == ExecutionOutcome::FuelExhausted
        }),
        Export::FillIncrementing => {
            if budget >= MEM_SIZE {
                &&& post == (InstanceModel {
                    mem: spec_fill_incrementing(pre.mem, MEM_SIZE as int),
                    ..pre
                })
                &&& outcome == ExecutionOutcome::Returned(MEM_SIZE as i64)
            } else {
                &&& post == (InstanceModel {
                    mem: spec_fill_incrementing(pre.mem, budget as int),
                    ..pre
                })
                &&& outcome == ExecutionOutcome::FuelExhausted
            }
        },
        Export::TrapOutOfBounds => post == pre && outcome == ExecutionOutcome::Trapped(
            TrapKind::OutOfBoundsMemory,
        ),
        Export::TrapUnreachable => post == pre && outcome == ExecutionOutcome::Trapped(
            TrapKind::Unreachable,
        ),
        Export::TrapDivZero => post == pre && outcome == ExecutionOutcome::Trapped(
            TrapKind::DivideByZero,
        ),
        Export::StatefulIncrement => post == incr_model(pre) && outcome
            == ExecutionOutcome::Returned(incr_model(pre).state as i64),
        Export::GetState => post == pre && outcome == get_state_outcome(pre),
        Export::ResetState => {
            if budget >= HISTORY_SLOTS {
                &&& post == (InstanceModel {
                    state: 0i32,
                    history_index: 0,
                    history: spec_zero_history(pre.history, HISTORY_SLOTS as int),
                    ..pre
                })
                &&& outcome == ExecutionOutcome::Returned(0)
            } else {
                &&& post == (InstanceModel {
                    state: 0i32,
                    history_index: 0,
                    history: spec_zero_history(pre.history, budget as int),
                    ..pre
                })
                &&& outcome == ExecutionOutcome::FuelExhausted
            }
        },
        Export::CrashAfterN => {
            if budget >= requested_steps(args[0] as int) {
                &&& post == incr_model_n(pre, requested_steps(args[0] as int))
                &&& outcome == ExecutionOutcome::Trapped(TrapKind::Unreachable)
            } else {
                &&& post == incr_model_n(pre, budget as int)
                &&& outcome == ExecutionOutcome::FuelExhausted
            }
        },
        Export::IncrementUntilExhausted => post == incr_model_n(pre, budget as int) && outcome
            == ExecutionOutcome::FuelExhausted,
        Export::Fib => post == pre && (if budget >= fib_cost(args[0] as int) {
            outcome == ExecutionOutcome::Returned(spec_fib(args[0] as int))
        } else {
            outcome == ExecutionOutcome::FuelExhausted
        }),
        Export::IsPrime => {
            &&& post == pre
            &&& (outcome is Returned || outcome is FuelExhausted)
            &&& (outcome matches ExecutionOutcome::Returned(v) ==> v == prime_result(
                args[0] as int,
            ))
            &&& (budget >= prime_fuel(args[0] as int) ==> outcome is Returned)
        },
        Export::CountPrimes => {
            &&& post == pre
            &&& (outcome is Returned || outcome is FuelExhausted)
            &&& (outcome matches ExecutionOutcome::Returned(v) ==> v == spec_count_primes(
                args[0] as int,
            ) as i64)
            &&& (budget >= count_fuel(args[0] as int) ==> outcome is Returned)
        },
    }
}

/// Runs the named export on the instance under the given per-invocation
/// fuel budget. An unknown name or arguments that do not match the export's
/// arity or parameter types are refused before any execution, leaving the
/// instance untouched; a valid call produces the outcome `invoke_post`
/// describes, with every state change committed before the stopping point
/// left visible in the instance.
pub fn invoke(inst: &mut Instance, name: &str, args: &Vec<i64>, fuel_budget: u64) -> (res: Result<
    ExecutionOutcome,
    InvokeError,
>)
    requires
        old(inst)@.wf(),
    ensures
        final(inst)@.wf(),
        (match export_of_name(name@) {
            Option::Some(ex) => if args_match(ex, args@) {
                res matches Ok(outcome) && invoke_post(
                    ex,
                    args@,
                    old(inst)@,
                    final(inst)@,
                    fuel_budget,
                    outcome,
                )
            } else {
                res == Err::<ExecutionOutcome, InvokeError>(InvokeError::InvalidCall)
                    && final(inst)@ == old(inst)@
            },
            Option::None => res == Err::<ExecutionOutcome, InvokeError>(InvokeError::InvalidCall)
                && final(inst)@ == old(inst)@,
        }),
{
    let ex = match export_named(name) {
        Some(e) => e,
        None => {
            return Err(InvokeError::InvalidCall);
        },
    };
    if !check_args(ex, args) {
        return Err(InvokeError::InvalidCall);
    }
    let mut meter = FuelMeter::new(fuel_budget);
    let outcome = match ex {
        Export::Add => inst.add(args[0] as i32, args[1] as i32),
        Export::Multiply => inst.multiply(args[0] as i32, args[1] as i32),
        Export::Factorial => inst.factorial(args[0] as i32, &mut meter),
        Export::Spin => inst.spin(args[0] as i32, &mut meter),
        Export::InfiniteLoop => inst.infinite_loop(&mut meter),
        Export::NestedLoops => inst.nested_loops(args[0] as i32, &mut meter),
        Export::WritePattern => inst.write_pattern(args[0] as u8, args[1] as i32, &mut meter),
        Export::ReadBuffer => inst.read_buffer(args[0] as i32),
        Export::ScanForPattern => inst.scan_for_pattern(args[0] as u8, &mut meter),
        Export::FillIncrementing => inst.fill_incrementing(&mut meter),
        Export::TrapOutOfBounds => inst.trap_out_of_bounds(),
        Export::TrapUnreachable => inst.trap_unreachable(),
        Export::TrapDivZero => inst.trap_div_zero(args[0] as i32),
        Export::StatefulIncrement => inst.stateful_increment(),
        Export::GetState => inst.get_state(),
        Export::ResetState => inst.reset_state(&mut meter),
        Export::CrashAfterN => inst.crash_after_n(args[0] as i32, &mut meter),
        Export::IncrementUntilExhausted => inst.increment_until_exhausted(&mut meter),
        Export::Fib => inst.fib(args[0] as i32, &mut meter),
        Export::IsPrime => inst.is_prime(args[0] as i32, &mut meter),
        Export::CountPrimes => inst.count_primes(args[0] as i32, &mut meter),
    };
    Ok(outcome)
}

} // verus!
