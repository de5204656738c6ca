use wasm_fixture::fuel::FuelMeter;
use wasm_fixture::instance::Instance;
use wasm_fixture::outcome::ExecutionOutcome;
use wasm_fixture::outcome::ReadError;
use wasm_fixture::outcome::TrapKind;

const AMPLE: u64 = 1_000_000;

#[test]
fn add_returns_wrapping_sum() {
    let inst = Instance::instantiate();
    assert_eq!(inst.add(2, 3), ExecutionOutcome::Returned(5));
    assert_eq!(inst.add(-7, 7), ExecutionOutcome::Returned(0));
    assert_eq!(
        inst.add(i32::MAX, 1),
        ExecutionOutcome::Returned(i32::MIN as i64)
    );
}

#[test]
fn multiply_returns_wrapping_product() {
    let inst = Instance::instantiate();
    assert_eq!(inst.multiply(4, 5), ExecutionOutcome::Returned(20));
    assert_eq!(
        inst.multiply(i32::MAX, 2),
        ExecutionOutcome::Returned(i32::MAX.wrapping_mul(2) as i64)
    );
}

#[test]
fn factorial_of_five_is_120() {
    let inst = Instance::instantiate();
    let mut meter = FuelMeter::new(AMPLE);
    assert_eq!(inst.factorial(5, &mut meter), ExecutionOutcome::Returned(120));
    let mut meter = FuelMeter::new(AMPLE);
    assert_eq!(inst.factorial(0, &mut meter), ExecutionOutcome::Returned(1));
    let mut meter = FuelMeter::new(AMPLE);
    assert_eq!(inst.factorial(1, &mut meter), ExecutionOutcome::Returned(1));
}

#[test]
fn factorial_exhausts_on_small_budget() {
    let inst = Instance::instantiate();
    let mut meter = FuelMeter::new(3);
    assert_eq!(inst.factorial(5, &mut meter), ExecutionOutcome::FuelExhausted);
    assert_eq!(meter.remaining(), 0);
}

#[test]
fn spin_sums_iterations() {
    let inst = Instance::instantiate();
    let mut meter = FuelMeter::new(10);
    assert_eq!(inst.spin(10, &mut meter), ExecutionOutcome::Returned(45));
    assert_eq!(meter.remaining(), 0);
    let mut meter = FuelMeter::new(0);
    assert_eq!(inst.spin(0, &mut meter), ExecutionOutcome::Returned(0));
    assert_eq!(inst.spin(-3, &mut meter), ExecutionOutcome::Returned(0));
}

#[test]
fn spin_exhausts_one_unit_short() {
    let inst = Instance::instantiate();
    let mut meter = FuelMeter::new(9);
    assert_eq!(inst.spin(10, &mut meter), ExecutionOutcome::FuelExhausted);
    assert_eq!(meter.remaining(), 0);
}

#[test]
fn nested_loops_accumulates_products() {
    let inst = Instance::instantiate();
    let mut meter = FuelMeter::new(9);
    assert_eq!(inst.nested_loops(3, &mut meter), ExecutionOutcome::Returned(9));
    assert_eq!(meter.remaining(), 0);
    let mut meter = FuelMeter::new(8);
    assert_eq!(inst.nested_loops(3, &mut meter), ExecutionOutcome::FuelExhausted);
}

#[test]
fn fib_of_ten_is_55() {
    let inst = Instance::instantiate();
    let mut meter = FuelMeter::new(AMPLE);
    assert_eq!(inst.fib(10, &mut meter), ExecutionOutcome::Returned(55));
    let mut meter = FuelMeter::new(AMPLE);
    assert_eq!(inst.fib(0, &mut meter), ExecutionOutcome::Returned(0));
    let mut meter = FuelMeter::new(AMPLE);
    assert_eq!(inst.fib(1, &mut meter), ExecutionOutcome::Returned(1));
    let mut meter = FuelMeter::new(1);
    assert_eq!(inst.fib(10, &mut meter), ExecutionOutcome::FuelExhausted);
}

#[test]
fn is_prime_encodes_primality() {
    let inst = Instance::instantiate();
    let cases = [
        (0, 0),
        (1, 0),
        (2, 1),
        (3, 1),
        (4, 0),
        (17, 1),
        (18, 0),
        (25, 0),
        (97, 1),
        (49, 0),
        (2147483647, 1),
    ];
    for (n, expected) in cases {
        let mut meter = FuelMeter::new(AMPLE);
        assert_eq!(
            inst.is_prime(n, &mut meter),
            ExecutionOutcome::Returned(expected),
            "is_prime({})",
            n
        );
    }
}

#[test]
fn count_primes_up_to_ten_is_4() {
    let inst = Instance::instantiate();
    let mut meter = FuelMeter::new(AMPLE);
    assert_eq!(inst.count_primes(10, &mut meter), ExecutionOutcome::Returned(4));
    let mut meter = FuelMeter::new(AMPLE);
    assert_eq!(inst.count_primes(100, &mut meter), ExecutionOutcome::Returned(25));
    let mut meter = FuelMeter::new(AMPLE);
    assert_eq!(inst.count_primes(1, &mut meter), ExecutionOutcome::Returned(0));
    let mut meter = FuelMeter::new(2);
    assert_eq!(inst.count_primes(50, &mut meter), ExecutionOutcome::FuelExhausted);
    assert_eq!(meter.remaining(), 0);
}

#[test]
fn write_pattern_clamps_to_buffer_size() {
    let mut inst = Instance::instantiate();
    let mut meter = FuelMeter::new(AMPLE);
    assert_eq!(
        inst.write_pattern(0xAB, 2000, &mut meter),
        ExecutionOutcome::Returned(1024)
    );
    assert_eq!(inst.read_buffer(0), ExecutionOutcome::Returned(171));
    assert_eq!(inst.read_buffer(1023), ExecutionOutcome::Returned(171));
    assert_eq!(inst.read_buffer(1024), ExecutionOutcome::Returned(-1));
    assert_eq!(inst.read_buffer(-1), ExecutionOutcome::Returned(-1));
}

#[test]
fn write_pattern_ignores_non_positive_length() {
    let mut inst = Instance::instantiate();
    let mut meter = FuelMeter::new(AMPLE);
    assert_eq!(inst.write_pattern(0x55, -4, &mut meter), ExecutionOutcome::Returned(0));
    assert_eq!(inst.read_buffer(0), ExecutionOutcome::Returned(0));
}

#[test]
fn write_pattern_partial_progress_stays_visible() {
    let mut inst = Instance::instantiate();
    let mut meter = FuelMeter::new(3);
    assert_eq!(
        inst.write_pattern(0x7F, 10, &mut meter),
        ExecutionOutcome::FuelExhausted
    );
    assert_eq!(meter.remaining(), 0);
    assert_eq!(inst.read_buffer(0), ExecutionOutcome::Returned(0x7F));
    assert_eq!(inst.read_buffer(2), ExecutionOutcome::Returned(0x7F));
    assert_eq!(inst.read_buffer(3), ExecutionOutcome::Returned(0));
}

#[test]
fn scan_after_fill_incrementing_finds_index_seven() {
    let mut inst = Instance::instantiate();
    let mut meter = FuelMeter::new(AMPLE);
    assert_eq!(inst.fill_incrementing(&mut meter), ExecutionOutcome::Returned(1024));
    let mut meter = FuelMeter::new(AMPLE);
    assert_eq!(inst.scan_for_pattern(7, &mut meter), ExecutionOutcome::Returned(7));
}

#[test]
fn scan_misses_give_minus_one() {
    let mut inst = Instance::instantiate();
    let mut meter = FuelMeter::new(AMPLE);
    assert_eq!(inst.write_pattern(1, 1024, &mut meter), ExecutionOutcome::Returned(1024));
    let mut meter = FuelMeter::new(AMPLE);
    assert_eq!(inst.scan_for_pattern(2, &mut meter), ExecutionOutcome::Returned(-1));
    let mut meter = FuelMeter::new(5);
    assert_eq!(inst.scan_for_pattern(2, &mut meter), ExecutionOutcome::FuelExhausted);
}

#[test]
fn infinite_loop_always_exhausts() {
    let inst = Instance::instantiate();
    for budget in [0u64, 1, 2, 17, 1000] {
        let mut meter = FuelMeter::new(budget);
        assert_eq!(inst.infinite_loop(&mut meter), ExecutionOutcome::FuelExhausted);
        assert_eq!(meter.remaining(), 0);
    }
}

#[test]
fn traps_report_their_kind() {
    let inst = Instance::instantiate();
    assert_eq!(
        inst.trap_out_of_bounds(),
        ExecutionOutcome::Trapped(TrapKind::OutOfBoundsMemory)
    );
    assert_eq!(
        inst.trap_unreachable(),
        ExecutionOutcome::Trapped(TrapKind::Unreachable)
    );
    assert_eq!(
        inst.trap_div_zero(41),
        ExecutionOutcome::Trapped(TrapKind::DivideByZero)
    );
}

#[test]
fn inspector_reads_are_bounds_checked() {
    let mut inst = Instance::instantiate();
    let mut meter = FuelMeter::new(AMPLE);
    inst.fill_incrementing(&mut meter);
    assert_eq!(inst.read_byte(5), Ok(5));
    assert_eq!(inst.read_byte(300), Ok(44));
    assert_eq!(inst.read_byte(1024), Err(ReadError::OutOfBoundsRead));
    let range = inst.read_range(250, 8).unwrap();
    assert_eq!(range, vec![250u8, 251, 252, 253, 254, 255, 0, 1]);
    assert_eq!(inst.read_range(1020, 8), Err(ReadError::OutOfBoundsRead));
    assert_eq!(inst.read_range(0, 1024).unwrap().len(), 1024);
}

#[test]
fn fuel_meter_has_a_hard_floor_at_zero() {
    let mut meter = FuelMeter::new(5);
    assert_eq!(meter.remaining(), 5);
    assert!(meter.tick(3));
    assert_eq!(meter.remaining(), 2);
    assert!(!meter.tick(3));
    assert_eq!(meter.remaining(), 0);
    assert!(meter.tick(0));
    assert_eq!(meter.remaining(), 0);
    assert!(!meter.tick(1));
    assert_eq!(meter.remaining(), 0);
}
