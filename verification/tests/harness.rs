use wasm_fixture::engine::export_named;
use wasm_fixture::engine::invoke;
use wasm_fixture::engine::Export;
use wasm_fixture::fuel::FuelMeter;
use wasm_fixture::instance::Instance;
use wasm_fixture::outcome::ExecutionOutcome;
use wasm_fixture::outcome::InvokeError;
use wasm_fixture::outcome::TrapKind;
use wasm_fixture::recorder::capture;

const AMPLE: u64 = 1_000_000;

#[test]
fn invoke_runs_pure_exports() {
    let mut inst = Instance::instantiate();
    assert_eq!(
        invoke(&mut inst, "add", &vec![2, 3], AMPLE),
        Ok(ExecutionOutcome::Returned(5))
    );
    assert_eq!(
        invoke(&mut inst, "multiply", &vec![4, 5], AMPLE),
        Ok(ExecutionOutcome::Returned(20))
    );
    assert_eq!(
        invoke(&mut inst, "factorial", &vec![5], AMPLE),
        Ok(ExecutionOutcome::Returned(120))
    );
    assert_eq!(
        invoke(&mut inst, "fib", &vec![10], AMPLE),
        Ok(ExecutionOutcome::Returned(55))
    );
    assert_eq!(
        invoke(&mut inst, "is_prime", &vec![17], AMPLE),
        Ok(ExecutionOutcome::Returned(1))
    );
    assert_eq!(
        invoke(&mut inst, "is_prime", &vec![18], AMPLE),
        Ok(ExecutionOutcome::Returned(0))
    );
    assert_eq!(
        invoke(&mut inst, "count_primes", &vec![10], AMPLE),
        Ok(ExecutionOutcome::Returned(4))
    );
    assert_eq!(
        invoke(&mut inst, "spin", &vec![10], AMPLE),
        Ok(ExecutionOutcome::Returned(45))
    );
    assert_eq!(
        invoke(&mut inst, "nested_loops", &vec![3], AMPLE),
        Ok(ExecutionOutcome::Returned(9))
    );
}

#[test]
fn invoke_refuses_unknown_exports() {
    let mut inst = Instance::instantiate();
    assert_eq!(
        invoke(&mut inst, "no_such_export", &vec![], AMPLE),
        Err(InvokeError::InvalidCall)
    );
    assert_eq!(invoke(&mut inst, "", &vec![], AMPLE), Err(InvokeError::InvalidCall));
    assert_eq!(
        invoke(&mut inst, "ADD", &vec![1, 2], AMPLE),
        Err(InvokeError::InvalidCall)
    );
}

#[test]
fn invoke_refuses_arity_and_type_mismatches() {
    let mut inst = Instance::instantiate();
    assert_eq!(invoke(&mut inst, "add", &vec![1], AMPLE), Err(InvokeError::InvalidCall));
    assert_eq!(
        invoke(&mut inst, "add", &vec![1, 2, 3], AMPLE),
        Err(InvokeError::InvalidCall)
    );
    assert_eq!(
        invoke(&mut inst, "add", &vec![1 << 40, 0], AMPLE),
        Err(InvokeError::InvalidCall)
    );
    assert_eq!(
        invoke(&mut inst, "write_pattern", &vec![300, 10], AMPLE),
        Err(InvokeError::InvalidCall)
    );
    assert_eq!(
        invoke(&mut inst, "get_state", &vec![0], AMPLE),
        Err(InvokeError::InvalidCall)
    );
}

#[test]
fn invoke_write_then_read_round_trip() {
    let mut inst = Instance::instantiate();
    assert_eq!(
        invoke(&mut inst, "write_pattern", &vec![0xAB, 2000], AMPLE),
        Ok(ExecutionOutcome::Returned(1024))
    );
    assert_eq!(
        invoke(&mut inst, "read_buffer", &vec![0], AMPLE),
        Ok(ExecutionOutcome::Returned(171))
    );
    assert_eq!(
        invoke(&mut inst, "read_buffer", &vec![1024], AMPLE),
        Ok(ExecutionOutcome::Returned(-1))
    );
    assert_eq!(
        invoke(&mut inst, "fill_incrementing", &vec![], AMPLE),
        Ok(ExecutionOutcome::Returned(1024))
    );
    assert_eq!(
        invoke(&mut inst, "scan_for_pattern", &vec![7], AMPLE),
        Ok(ExecutionOutcome::Returned(7))
    );
}

#[test]
fn invoke_infinite_loop_exhausts_any_finite_budget() {
    let mut inst = Instance::instantiate();
    for budget in [1u64, 5, 1000] {
        assert_eq!(
            invoke(&mut inst, "infinite_loop", &vec![], budget),
            Ok(ExecutionOutcome::FuelExhausted)
        );
    }
}

#[test]
fn invoke_traps_with_matching_kind() {
    let mut inst = Instance::instantiate();
    assert_eq!(
        invoke(&mut inst, "trap_out_of_bounds", &vec![], AMPLE),
        Ok(ExecutionOutcome::Trapped(TrapKind::OutOfBoundsMemory))
    );
    assert_eq!(
        invoke(&mut inst, "trap_unreachable", &vec![], AMPLE),
        Ok(ExecutionOutcome::Trapped(TrapKind::Unreachable))
    );
    assert_eq!(
        invoke(&mut inst, "trap_div_zero", &vec![9], AMPLE),
        Ok(ExecutionOutcome::Trapped(TrapKind::DivideByZero))
    );
}

#[test]
fn stateful_increment_counts_calls_and_caps_history() {
    let mut inst = Instance::instantiate();
    for k in 1..=5i64 {
        assert_eq!(
            invoke(&mut inst, "stateful_increment", &vec![], AMPLE),
            Ok(ExecutionOutcome::Returned(k))
        );
    }
    assert_eq!(
        invoke(&mut inst, "get_state", &vec![], AMPLE),
        Ok(ExecutionOutcome::Returned(5))
    );
    let snap = inst.snapshot();
    assert_eq!(snap.state, 5);
    assert_eq!(snap.history_index, 5);
    assert_eq!(&snap.history[0..5], &[1, 2, 3, 4, 5]);
    for _ in 0..120 {
        invoke(&mut inst, "stateful_increment", &vec![], AMPLE).unwrap();
    }
    let snap = inst.snapshot();
    assert_eq!(snap.state, 125);
    assert_eq!(snap.history_index, 100);
    assert_eq!(snap.history[99], 100);
}

#[test]
fn reset_state_clears_counter_and_history() {
    let mut inst = Instance::instantiate();
    for _ in 0..7 {
        inst.stateful_increment();
    }
    assert_eq!(
        invoke(&mut inst, "reset_state", &vec![], AMPLE),
        Ok(ExecutionOutcome::Returned(0))
    );
    assert_eq!(
        invoke(&mut inst, "get_state", &vec![], AMPLE),
        Ok(ExecutionOutcome::Returned(0))
    );
    let snap = inst.snapshot();
    assert_eq!(snap.state, 0);
    assert_eq!(snap.history_index, 0);
    assert!(snap.history.iter().all(|v| *v == 0));
}

#[test]
fn get_state_is_idempotent() {
    let mut inst = Instance::instantiate();
    for _ in 0..3 {
        inst.stateful_increment();
    }
    let first = invoke(&mut inst, "get_state", &vec![], AMPLE);
    let second = invoke(&mut inst, "get_state", &vec![], AMPLE);
    assert_eq!(first, second);
    assert_eq!(first, Ok(ExecutionOutcome::Returned(3)));
}

#[test]
fn crash_after_n_leaves_forensic_state() {
    let mut inst = Instance::instantiate();
    let outcome = invoke(&mut inst, "crash_after_n", &vec![5], AMPLE).unwrap();
    assert_eq!(outcome, ExecutionOutcome::Trapped(TrapKind::Unreachable));
    let report = capture(&inst, outcome, 12345);
    assert_eq!(report.outcome, ExecutionOutcome::Trapped(TrapKind::Unreachable));
    assert_eq!(report.timestamp, 12345);
    assert_eq!(report.snapshot.state, 5);
    assert_eq!(report.snapshot.history_index, 5);
    assert_eq!(&report.snapshot.history[0..5], &[1, 2, 3, 4, 5]);
    assert!(report.snapshot.mem.iter().all(|b| *b == 0));
}

#[test]
fn crash_after_n_exhausts_when_budget_is_short() {
    let mut inst = Instance::instantiate();
    assert_eq!(
        invoke(&mut inst, "crash_after_n", &vec![10], 4),
        Ok(ExecutionOutcome::FuelExhausted)
    );
    let snap = inst.snapshot();
    assert_eq!(snap.state, 4);
    assert_eq!(snap.history_index, 4);
}

#[test]
fn increment_until_exhausted_is_deterministic() {
    let mut first = Instance::instantiate();
    let mut second = Instance::instantiate();
    let a = invoke(&mut first, "increment_until_exhausted", &vec![], 37);
    let b = invoke(&mut second, "increment_until_exhausted", &vec![], 37);
    assert_eq!(a, Ok(ExecutionOutcome::FuelExhausted));
    assert_eq!(a, b);
    assert_eq!(first.snapshot().state, 37);
    assert_eq!(second.snapshot().state, 37);
    assert_eq!(first.snapshot().history_index, 37);
}

#[test]
fn increment_until_exhausted_never_returns() {
    let mut inst = Instance::instantiate();
    let mut meter = FuelMeter::new(250);
    assert_eq!(
        inst.increment_until_exhausted(&mut meter),
        ExecutionOutcome::FuelExhausted
    );
    assert_eq!(meter.remaining(), 0);
    assert_eq!(inst.snapshot().state, 250);
    assert_eq!(inst.snapshot().history_index, 100);
}

#[test]
fn export_named_knows_every_export() {
    assert_eq!(export_named("add"), Some(Export::Add));
    assert_eq!(export_named("multiply"), Some(Export::Multiply));
    assert_eq!(export_named("factorial"), Some(Export::Factorial));
    assert_eq!(export_named("spin"), Some(Export::Spin));
    assert_eq!(export_named("infinite_loop"), Some(Export::InfiniteLoop));
    assert_eq!(export_named("nested_loops"), Some(Export::NestedLoops));
    assert_eq!(export_named("write_pattern"), Some(Export::WritePattern));
    assert_eq!(export_named("read_buffer"), Some(Export::ReadBuffer));
    assert_eq!(export_named("scan_for_pattern"), Some(Export::ScanForPattern));
    assert_eq!(export_named("fill_incrementing"), Some(Export::FillIncrementing));
    assert_eq!(export_named("trap_out_of_bounds"), Some(Export::TrapOutOfBounds));
    assert_eq!(export_named("trap_unreachable"), Some(Export::TrapUnreachable));
    assert_eq!(export_named("trap_div_zero"), Some(Export::TrapDivZero));
    assert_eq!(export_named("stateful_increment"), Some(Export::StatefulIncrement));
    assert_eq!(export_named("get_state"), Some(Export::GetState));
    assert_eq!(export_named("reset_state"), Some(Export::ResetState));
    assert_eq!(export_named("crash_after_n"), Some(Export::CrashAfterN));
    assert_eq!(
        export_named("increment_until_exhausted"),
        Some(Export::IncrementUntilExhausted)
    );
    assert_eq!(export_named("fib"), Some(Export::Fib));
    assert_eq!(export_named("is_prime"), Some(Export::IsPrime));
    assert_eq!(export_named("count_primes"), Some(Export::CountPrimes));
    assert_eq!(export_named("factorial "), None);
    assert_eq!(export_named("Add"), None);
}

#[test]
fn reset_state_partial_when_budget_is_short() {
    let mut inst = Instance::instantiate();
    for _ in 0..7 {
        inst.stateful_increment();
    }
    assert_eq!(
        invoke(&mut inst, "reset_state", &vec![], 3),
        Ok(ExecutionOutcome::FuelExhausted)
    );
    let snap = inst.snapshot();
    assert_eq!(snap.state, 0);
    assert_eq!(snap.history_index, 0);
    assert_eq!(&snap.history[0..4], &[0, 0, 0, 4]);
}
