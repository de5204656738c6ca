use vstd::prelude::*;

use crate::arith::factorial_cost;
use crate::arith::fib_cost;
use crate::arith::lemma_fib_cost_nonneg;
use crate::arith::nested_acc;
use crate::arith::nested_cost;
use crate::arith::spec_factorial;
use crate::arith::spec_fib;
use crate::arith::spec_nested;
use crate::arith::spec_spin;
use crate::arith::spin_cost;
use crate::arith::wrap_add32;
use crate::arith::wrap_mul32;
use crate::fuel::FuelMeter;
use crate::outcome::ExecutionOutcome;
use vstd::arithmetic::div_mod::lemma_fundamental_div_mod;
use vstd::arithmetic::div_mod::lemma_mod_division_less_than_divisor;
use crate::primes::count_fuel;
use crate::primes::lemma_candidate_step;
use crate::primes::lemma_count_primes_bounds;
use crate::primes::lemma_trial_division_complete;
use crate::primes::prime_fuel;
use crate::primes::prime_result;
use crate::primes::spec_count_primes;
use crate::primes::spec_is_prime;
use crate::outcome::ReadError;
use crate::outcome::TrapKind;

verus! {

/// Size of the instance's linear memory, in bytes.
pub const MEM_SIZE: usize = 1024;

/// Number of slots in the instance's history of state changes.
pub const HISTORY_SLOTS: usize = 100;

/// Mathematical view of an instance: its linear memory, its state counter,
/// and the capped history of state changes.
#[verifier::ext_equal]
pub ghost struct InstanceModel {
    pub mem: Seq<u8>,
    pub state: i32,
    pub history: Seq<i32>,
    pub history_index: int,
}

impl InstanceModel {
    /// Well-formedness: the memory and the history have their fixed sizes,
    /// and the history index never passes the last slot.
    pub open spec fn wf(self) -> bool {
        &&& self.mem.len() == MEM_SIZE
        &&& self.history.len() == HISTORY_SLOTS
        &&& 0 <= self.history_index <= HISTORY_SLOTS
    }

    /// The state of a freshly instantiated instance: memory and history all
    /// zero, the counter at zero, no history recorded.
    pub open spec fn fresh() -> InstanceModel {
        InstanceModel {
            mem: Seq::new(MEM_SIZE as nat, |k: int| 0u8),
            state: 0i32,
            history: Seq::new(HISTORY_SLOTS as nat, |k: int| 0i32),
            history_index: 0,
        }
    }
}

/// One stateful increment: bump the state counter with wraparound and, while
/// a free slot remains, record the new value in the history.
pub open spec fn incr_model(m: InstanceModel) -> InstanceModel {
    let bumped = wrap_add32(m.state, 1);
    InstanceModel {
        state: bumped,
        history: if m.history_index < HISTORY_SLOTS {
            m.history.update(m.history_index, bumped)
        } else {
            m.history
        },
        history_index: if m.history_index < HISTORY_SLOTS {
            m.history_index + 1
        } else {
            m.history_index
        },
        mem: m.mem,
    }
}

/// `k` stateful increments in a row.
pub open spec fn incr_model_n(m: InstanceModel, k: int) -> InstanceModel
    decreases k,
{
    if k <= 0 {
        m
    } else {
        incr_model(incr_model_n(m, k - 1))
    }
}

pub proof fn lemma_incr_model_n_wf(m: InstanceModel, k: int)
    requires
        m.wf(),
    ensures
        incr_model_n(m, k).wf(),
    decreases k,
{
    if k > 0 {
        lemma_incr_model_n_wf(m, k - 1);
    }
}

/// Increments the crash_after_n export performs before it traps: one per
/// requested step, none for a non-positive request.
pub open spec fn requested_steps(n: int) -> int {
    if n <= 0 {
        0
    } else {
        n
    }
}

/// The memory after its first `count` bytes were overwritten with `value`.
pub open spec fn spec_fill_bytes(mem: Seq<u8>, value: u8, count: int) -> Seq<u8> {
    Seq::new(mem.len(), |k: int| if k < count { value } else { mem[k] })
}

/// The memory after its first `count` bytes were overwritten with their
/// index modulo 256.
pub open spec fn spec_fill_incrementing(mem: Seq<u8>, count: int) -> Seq<u8> {
    Seq::new(mem.len(), |k: int| if k < count { (k % 256) as u8 } else { mem[k] })
}

/// The history after its first `count` slots were zeroed.
pub open spec fn spec_zero_history(history: Seq<i32>, count: int) -> Seq<i32> {
    Seq::new(history.len(), |k: int| if k < count { 0i32 } else { history[k] })
}

/// Bytes the write_pattern export overwrites for a requested `length`: the
/// request is clamped to the memory size, and a non-positive length writes
/// nothing.
pub open spec fn write_count(length: int) -> int {
    if length <= 0 {
        0
    } else if length >= MEM_SIZE {
        MEM_SIZE as int
    } else {
        length
    }
}

/// First index at or after `i` whose byte equals `pattern`, or -1 if none.
pub open spec fn spec_scan_from(mem: Seq<u8>, pattern: u8, i: int) -> int
    decreases mem.len() - i,
{
    if i < 0 || i >= mem.len() {
        -1
    } else if mem[i] == pattern {
        i
    } else {
        spec_scan_from(mem, pattern, i + 1)
    }
}

/// First index whose byte equals `pattern`, or -1 if none.
pub open spec fn spec_scan(mem: Seq<u8>, pattern: u8) -> int {
    spec_scan_from(mem, pattern, 0)
}

pub proof fn lemma_scan_from_range(mem: Seq<u8>, pattern: u8, i: int)
    requires
        0 <= i <= mem.len(),
    ensures
        spec_scan_from(mem, pattern, i) == -1 || i <= spec_scan_from(mem, pattern, i) < mem.len(),
    decreases mem.len() - i,
{
    if i < mem.len() && mem[i] != pattern {
        lemma_scan_from_range(mem, pattern, i + 1);
    }
}

/// Fuel the scan export consumes: one unit per inspected byte, so one past
/// the hit index, or the whole memory when nothing matches.
pub open spec fn scan_cost(mem: Seq<u8>, pattern: u8) -> int {
    if spec_scan(mem, pattern) == -1 {
        mem.len() as int
    } else {
        spec_scan(mem, pattern) + 1
    }
}

/// What the get_state export returns, as a function of the instance's view
/// alone.
pub open spec fn get_state_outcome(m: InstanceModel) -> ExecutionOutcome {
    ExecutionOutcome::Returned(m.state as i64)
}

/// What the read_buffer export returns: the byte at `index`, or -1 when the
/// index lies outside the memory.
pub open spec fn read_result(mem: Seq<u8>, index: i64) -> i64 {
    if 0 <= index < mem.len() {
        mem[index as int] as i64
    } else {
        -1i64
    }
}

/// A live instantiation of the fixture module. The instance exclusively owns
/// its linear memory and its global cells; all mutation flows through the
/// exports.
pub struct Instance {
    buffer: Vec<u8>,
    state: i32,
    history: Vec<i32>,
    history_index: usize,
}

impl View for Instance {
    type V = InstanceModel;

    closed spec fn view(&self) -> InstanceModel {
        InstanceModel {
            mem: self.buffer@,
            state: self.state,
            history: self.history@,
            history_index: self.history_index as int,
        }
    }
}

/// An immutable copy of an instance's memory region and global cells, taken
/// at the moment execution stopped.
pub struct MemorySnapshot {
    pub mem: Vec<u8>,
    pub state: i32,
    pub history: Vec<i32>,
    pub history_index: usize,
}

impl Instance {
    /// Instantiates the fixture module: fresh linear memory, a zero state
    /// counter, and an empty history.
    pub fn instantiate() -> (inst: Instance)
        ensures
            inst@ == InstanceModel::fresh(),
            inst@.wf(),
    {
        let buffer: Vec<u8> = vec![0u8; MEM_SIZE];
        let history: Vec<i32> = vec![0i32; HISTORY_SLOTS];
        let inst = Instance { buffer, state: 0, history, history_index: 0 };
        proof {
            assert(inst@ =~= InstanceModel::fresh());
        }
        inst
    }

    /// Forensic read of one byte, bounds-checked against the memory size.
    pub fn read_byte(&self, index: usize) -> (r: Result<u8, ReadError>)
        requires
            self@.wf(),
        ensures
            index < MEM_SIZE ==> r == Ok::<u8, ReadError>(self@.mem[index as int]),
            index >= MEM_SIZE ==> r == Err::<u8, ReadError>(ReadError::OutOfBoundsRead),
    {
        if index < MEM_SIZE {
            Ok(self.buffer[index])
        } else {
            Err(ReadError::OutOfBoundsRead)
        }
    }

    /// Forensic read of `len` bytes starting at `start`, bounds-checked
    /// against the memory size.
    pub fn read_range(&self, start: usize, len: usize) -> (r: Result<Vec<u8>, ReadError>)
        requires
            self@.wf(),
        ensures
            start + len <= MEM_SIZE ==> (r matches Ok(bytes) && bytes@ == self@.mem.subrange(
                start as int,
                start + len,
            )),
            start + len > MEM_SIZE ==> r == Err::<Vec<u8>, ReadError>(ReadError::OutOfBoundsRead),
    {
        if start <= MEM_SIZE && len <= MEM_SIZE - start {
            let mut bytes: Vec<u8> = Vec::new();
            let mut i: usize = 0;
            while i < len
                invariant
                    i <= len,
                    start + len <= MEM_SIZE,
                    self@.wf(),
                    bytes@ == self@.mem.subrange(start as int, start + i),
                decreases len - i,
            {
                bytes.push(self.buffer[start + i]);
                proof {
                    assert(bytes@ =~= self@.mem.subrange(start as int, start + i + 1));
                }
                i = i + 1;
            }
            Ok(bytes)
        } else {
            Err(ReadError::OutOfBoundsRead)
        }
    }

    /// Full-region forensic snapshot: the memory and the global cells as
    /// they stand now.
    pub fn snapshot(&self) -> (s: MemorySnapshot)
        requires
            self@.wf(),
        ensures
            s.mem@ == self@.mem,
            s.state == self@.state,
            s.history@ == self@.history,
            s.history_index as int == self@.history_index,
    {
        let mut mem: Vec<u8> = Vec::new();
        let mut i: usize = 0;
        while i < MEM_SIZE
            invariant
                i <= MEM_SIZE,
                self@.wf(),
                mem@ == self@.mem.subrange(0, i as int),
            decreases MEM_SIZE - i,
        {
            mem.push(self.buffer[i]);
            proof {
                assert(mem@ =~= self@.mem.subrange(0, i + 1));
            }
            i = i + 1;
        }
        let mut history: Vec<i32> = Vec::new();
        let mut j: usize = 0;
        while j < HISTORY_SLOTS
            invariant
                j <= HISTORY_SLOTS,
                self@.wf(),
                history@ == self@.history.subrange(0, j as int),
            decreases HISTORY_SLOTS - j,
        {
            history.push(self.history[j]);
            proof {
                assert(history@ =~= self@.history.subrange(0, j + 1));
            }
            j = j + 1;
        }
        proof {
            assert(self@.mem.subrange(0, MEM_SIZE as int) =~= self@.mem);
            assert(self@.history.subrange(0, HISTORY_SLOTS as int) =~= self@.history);
        }
        MemorySnapshot { mem, state: self.state, history, history_index: self.history_index }
    }
}

/// The fixture's exports. Fuel is charged at loop back-edges and recursive
/// calls, one unit each; straight-line exports run to completion without
/// consulting the meter. Every mutation committed before the stopping point
/// stays visible in the instance afterwards.
impl Instance {
    /// Wrapping sum of two numbers.
    pub fn add(&self, a: i32, b: i32) -> (r: ExecutionOutcome)
        ensures
            r == ExecutionOutcome::Returned(wrap_add32(a, b) as i64),
    {
        ExecutionOutcome::Returned(a.wrapping_add(b) as i64)
    }

    /// Wrapping product of two numbers.
    pub fn multiply(&self, a: i32, b: i32) -> (r: ExecutionOutcome)
        ensures
            r == ExecutionOutcome::Returned(wrap_mul32(a, b) as i64),
    {
        ExecutionOutcome::Returned(a.wrapping_mul(b) as i64)
    }

    /// Byte at `index` of the linear memory, or -1 for an index outside it.
    pub fn read_buffer(&self, index: i32) -> (r: ExecutionOutcome)
        requires
            self@.wf(),
        ensures
            r == ExecutionOutcome::Returned(read_result(self@.mem, index as i64)),
    {
        if index >= 0 && index < 1024 {
            ExecutionOutcome::Returned(self.buffer[index as usize] as i64)
        } else {
            ExecutionOutcome::Returned(-1)
        }
    }

    /// The export dereferences an address far outside the linear memory; the
    /// engine classifies that access and raises the matching trap instead of
    /// performing it.
    pub fn trap_out_of_bounds(&self) -> (r: ExecutionOutcome)
        ensures
            r == ExecutionOutcome::Trapped(TrapKind::OutOfBoundsMemory),
    {
        ExecutionOutcome::Trapped(TrapKind::OutOfBoundsMemory)
    }

    /// The export executes an unreachable-code marker; the engine raises the
    /// matching trap.
    pub fn trap_unreachable(&self) -> (r: ExecutionOutcome)
        ensures
            r == ExecutionOutcome::Trapped(TrapKind::Unreachable),
    {
        ExecutionOutcome::Trapped(TrapKind::Unreachable)
    }

    /// The export divides its argument by zero; the engine classifies the
    /// fault and raises the matching trap instead of evaluating it.
    pub fn trap_div_zero(&self, _a: i32) -> (r: ExecutionOutcome)
        ensures
            r == ExecutionOutcome::Trapped(TrapKind::DivideByZero),
    {
        ExecutionOutcome::Trapped(TrapKind::DivideByZero)
    }

    /// Increments the state counter with wraparound, records the new value
    /// in the next free history slot if one remains, and returns the new
    /// state.
    pub fn stateful_increment(&mut self) -> (r: ExecutionOutcome)
        requires
            old(self)@.wf(),
        ensures
            final(self)@.wf(),
            final(self)@ == incr_model(old(self)@),
            r == ExecutionOutcome::Returned(incr_model(old(self)@).state as i64),
    {
        self.state = self.state.wrapping_add(1);
        if self.history_index < HISTORY_SLOTS {
            self.history[self.history_index] = self.state;
            self.history_index = self.history_index + 1;
        }
        proof {
            assert(self@ =~= incr_model(old(self)@));
        }
        ExecutionOutcome::Returned(self.state as i64)
    }

    /// Returns the current state counter. Mutates nothing.
    pub fn get_state(&self) -> (r: ExecutionOutcome)
        ensures
            r == get_state_outcome(self@),
    {
        ExecutionOutcome::Returned(self.state as i64)
    }

    /// Recursive wrapping factorial under a fuel budget: with enough fuel it
    /// returns the specified value, otherwise it stops with the meter empty.
    pub fn factorial(&self, n: i32, fuel: &mut FuelMeter) -> (r: ExecutionOutcome)
        ensures
            old(fuel)@ >= factorial_cost(n as int) ==> {
                &&& r == ExecutionOutcome::Returned(spec_factorial(n as int))
                &&& final(fuel)@ == old(fuel)@ - factorial_cost(n as int)
            },
            old(fuel)@ < factorial_cost(n as int) ==> {
                &&& r == ExecutionOutcome::FuelExhausted
                &&& final(fuel)@ == 0
            },
        decreases n,
    {
        if n <= 1 {
            return ExecutionOutcome::Returned(1);
        }
        if !fuel.tick(1) {
            return ExecutionOutcome::FuelExhausted;
        }
        let sub = self.factorial(n - 1, fuel);
        match sub {
            ExecutionOutcome::Returned(v) => ExecutionOutcome::Returned((n as i64).wrapping_mul(v)),
            _ => ExecutionOutcome::FuelExhausted,
        }
    }

    /// Sums `0..iterations` with wraparound, consuming one unit of fuel per
    /// iteration.
    pub fn spin(&self, iterations: i32, fuel: &mut FuelMeter) -> (r: ExecutionOutcome)
        ensures
            old(fuel)@ >= spin_cost(iterations as int) ==> {
                &&& r == ExecutionOutcome::Returned(spec_spin(iterations as int) as i64)
                &&& final(fuel)@ == old(fuel)@ - spin_cost(iterations as int)
            },
            old(fuel)@ < spin_cost(iterations as int) ==> {
                &&& r == ExecutionOutcome::FuelExhausted
                &&& final(fuel)@ == 0
            },
    {
        if iterations <= 0 {
            return ExecutionOutcome::Returned(0);
        }
        let mut acc: i32 = 0;
        let mut i: i32 = 0;
        while i < iterations
            invariant
                0 <= i <= iterations,
                acc == spec_spin(i as int),
                old(fuel)@ >= i,
                fuel@ == old(fuel)@ - i,
            decreases iterations - i,
        {
            if !fuel.tick(1) {
                return ExecutionOutcome::FuelExhausted;
            }
            acc = acc.wrapping_add(i);
            i = i + 1;
        }
        ExecutionOutcome::Returned(acc as i64)
    }

    /// Never returns by itself: it burns one unit of fuel per iteration until
    /// the meter refuses, so the outcome is always exhaustion.
    pub fn infinite_loop(&self, fuel: &mut FuelMeter) -> (r: ExecutionOutcome)
        ensures
            r == ExecutionOutcome::FuelExhausted,
            final(fuel)@ == 0,
    {
        loop
            decreases fuel@,
        {
            if !fuel.tick(1) {
                return ExecutionOutcome::FuelExhausted;
            }
        }
    }

    /// Quadratic accumulation: for every outer and inner counter pair the
    /// wrapping product is added with wraparound, at one unit of fuel per
    /// inner iteration.
    pub fn nested_loops(&self, n: i32, fuel: &mut FuelMeter) -> (r: ExecutionOutcome)
        ensures
            old(fuel)@ >= nested_cost(n as int) ==> {
                &&& r == ExecutionOutcome::Returned(spec_nested(n as int) as i64)
                &&& final(fuel)@ == old(fuel)@ - nested_cost(n as int)
            },
            old(fuel)@ < nested_cost(n as int) ==> {
                &&& r == ExecutionOutcome::FuelExhausted
                &&& final(fuel)@ == 0
            },
    {
        if n <= 0 {
            return ExecutionOutcome::Returned(0);
        }
        let mut acc: i32 = 0;
        let mut i: i32 = 0;
        while i < n
            invariant
                0 <= i <= n,
                acc == nested_acc(n as int, i as int, 0),
                old(fuel)@ >= i * n,
                fuel@ == old(fuel)@ - i * n,
            decreases n - i,
        {
            let mut j: i32 = 0;
            while j < n
                invariant
                    0 <= i < n,
                    0 <= j <= n,
                    acc == nested_acc(n as int, i as int, j as int),
                    old(fuel)@ >= i * n + j,
                    fuel@ == old(fuel)@ - i * n - j,
                decreases n - j,
            {
                if !fuel.tick(1) {
                    proof {
                        assert((i as int) * (n as int) + (j as int) + 1 <= (n as int) * (
                        n as int)) by (nonlinear_arith)
                            requires
                                0 <= (i as int),
                                (i as int) < (n as int),
                                0 <= (j as int),
                                (j as int) < (n as int),
                        ;
                    }
                    return ExecutionOutcome::FuelExhausted;
                }
                acc = acc.wrapping_add(i.wrapping_mul(j));
                j = j + 1;
            }
            proof {
                assert((i as int + 1) * (n as int) == (i as int) * (n as int) + (
                n as int)) by (nonlinear_arith);
                assert(nested_acc(n as int, i as int + 1, 0) == nested_acc(
                    n as int,
                    i as int,
                    n as int,
                ));
            }
            i = i + 1;
        }
        ExecutionOutcome::Returned(acc as i64)
    }

    /// Fills the first `write_count(length)` bytes of the linear memory with
    /// `pattern`, one unit of fuel per byte, and returns how many bytes were
    /// requested to be written; on exhaustion the bytes written so far stay
    /// visible.
    pub fn write_pattern(&mut self, pattern: u8, length: i32, fuel: &mut FuelMeter) -> (r:
        ExecutionOutcome)
        requires
            old(self)@.wf(),
        ensures
            final(self)@.wf(),
            old(fuel)@ >= write_count(length as int) ==> {
                &&& final(self)@ == (InstanceModel {
                    mem: spec_fill_bytes(old(self)@.mem, pattern, write_count(length as int)),
                    ..old(self)@
                })
                &&& r == ExecutionOutcome::Returned(write_count(length as int) as i64)
                &&& final(fuel)@ == old(fuel)@ - write_count(length as int)
            },
            old(fuel)@ < write_count(length as int) ==> {
                &&& final(self)@ == (InstanceModel {
                    mem: spec_fill_bytes(old(self)@.mem, pattern, old(fuel)@ as int),
                    ..old(self)@
                })
                &&& r == ExecutionOutcome::FuelExhausted
                &&& final(fuel)@ == 0
            },
    {
        let len: usize = if length <= 0 {
            0
        } else if length >= 1024 {
            1024
        } else {
            length as usize
        };
        proof {
            assert(self@ =~= (InstanceModel {
                mem: spec_fill_bytes(old(self)@.mem, pattern, 0),
                ..old(self)@
            }));
        }
        let mut i: usize = 0;
        while i < len
            invariant
                0 <= i <= len,
                len == write_count(length as int),
                old(self)@.wf(),
                self@ == (InstanceModel {
                    mem: spec_fill_bytes(old(self)@.mem, pattern, i as int),
                    ..old(self)@
                }),
                old(fuel)@ >= i,
                fuel@ == old(fuel)@ - i,
            decreases len - i,
        {
            if !fuel.tick(1) {
                return ExecutionOutcome::FuelExhausted;
            }
            self.buffer[i] = pattern;
            proof {
                assert(self@ =~= (InstanceModel {
                    mem: spec_fill_bytes(old(self)@.mem, pattern, i + 1),
                    ..old(self)@
                }));
            }
            i = i + 1;
        }
        ExecutionOutcome::Returned(len as i64)
    }

    /// Scans the linear memory for the first byte equal to `pattern`, one
    /// unit of fuel per inspected byte; returns its index, or -1 when no
    /// byte matches.
    pub fn scan_for_pattern(&self, pattern: u8, fuel: &mut FuelMeter) -> (r: ExecutionOutcome)
        requires
            self@.wf(),
        ensures
            old(fuel)@ >= scan_cost(self@.mem, pattern) ==> {
                &&& r == ExecutionOutcome::Returned(spec_scan(self@.mem, pattern) as i64)
                &&& final(fuel)@ == old(fuel)@ - scan_cost(self@.mem, pattern)
            },
            old(fuel)@ < scan_cost(self@.mem, pattern) ==> {
                &&& r == ExecutionOutcome::FuelExhausted
                &&& final(fuel)@ == 0
            },
    {
        let mut i: usize = 0;
        while i < MEM_SIZE
            invariant
                0 <= i <= MEM_SIZE,
                self@.wf(),
                spec_scan(self@.mem, pattern) == spec_scan_from(self@.mem, pattern, i as int),
                old(fuel)@ >= i,
                fuel@ == old(fuel)@ - i,
            decreases MEM_SIZE - i,
        {
            if !fuel.tick(1) {
                proof {
                    lemma_scan_from_range(self@.mem, pattern, i as int);
                }
                return ExecutionOutcome::FuelExhausted;
            }
            if self.buffer[i] == pattern {
                return ExecutionOutcome::Returned(i as i64);
            }
            i = i + 1;
        }
        ExecutionOutcome::Returned(-1)
    }

    /// Fills the linear memory with each index modulo 256, one unit of fuel
    /// per byte, and returns the memory size; on exhaustion the bytes
    /// written so far stay visible.
    pub fn fill_incrementing(&mut self, fuel: &mut FuelMeter) -> (r: ExecutionOutcome)
        requires
            old(self)@.wf(),
        ensures
            final(self)@.wf(),
            old(fuel)@ >= MEM_SIZE ==> {
                &&& final(self)@ == (InstanceModel {
                    mem: spec_fill_incrementing(old(self)@.mem, MEM_SIZE as int),
                    ..old(self)@
                })
                &&& r == ExecutionOutcome::Returned(MEM_SIZE as i64)
                &&& final(fuel)@ == old(fuel)@ - MEM_SIZE
            },
            old(fuel)@ < MEM_SIZE ==> {
                &&& final(self)@ == (InstanceModel {
                    mem: spec_fill_incrementing(old(self)@.mem, old(fuel)@ as int),
                    ..old(self)@
                })
                &&& r == ExecutionOutcome::FuelExhausted
                &&& final(fuel)@ == 0
            },
    {
        proof {
            assert(self@ =~= (InstanceModel {
                mem: spec_fill_incrementing(old(self)@.mem, 0),
                ..old(self)@
            }));
        }
        let mut i: usize = 0;
        while i < MEM_SIZE
            invariant
                0 <= i <= MEM_SIZE,
                old(self)@.wf(),
                self@ == (InstanceModel {
                    mem: spec_fill_incrementing(old(self)@.mem, i as int),
                    ..old(self)@
                }),
                old(fuel)@ >= i,
                fuel@ == old(fuel)@ - i,
            decreases MEM_SIZE - i,
        {
            if !fuel.tick(1) {
                return ExecutionOutcome::FuelExhausted;
            }
            self.buffer[i] = (i % 256) as u8;
            proof {
                assert(self@ =~= (InstanceModel {
                    mem: spec_fill_incrementing(old(self)@.mem, i + 1),
                    ..old(self)@
                }));
            }
            i = i + 1;
        }
        ExecutionOutcome::Returned(MEM_SIZE as i64)
    }

    /// Zeroes the state counter and the history index, then zeroes the
    /// history slots at one unit of fuel each; returns 0. The linear memory
    /// is untouched.
    pub fn reset_state(&mut self, fuel: &mut FuelMeter) -> (r: ExecutionOutcome)
        requires
            old(self)@.wf(),
        ensures
            final(self)@.wf(),
            old(fuel)@ >= HISTORY_SLOTS ==> {
                &&& final(self)@ == (InstanceModel {
                    state: 0i32,
                    history_index: 0,
                    history: spec_zero_history(old(self)@.history, HISTORY_SLOTS as int),
                    ..old(self)@
                })
                &&& r == ExecutionOutcome::Returned(0)
                &&& final(fuel)@ == old(fuel)@ - HISTORY_SLOTS
            },
            old(fuel)@ < HISTORY_SLOTS ==> {
                &&& final(self)@ == (InstanceModel {
                    state: 0i32,
                    history_index: 0,
                    history: spec_zero_history(old(self)@.history, old(fuel)@ as int),
                    ..old(self)@
                })
                &&& r == ExecutionOutcome::FuelExhausted
                &&& final(fuel)@ == 0
            },
    {
        self.state = 0;
        self.history_index = 0;
        proof {
            assert(self@ =~= (InstanceModel {
                state: 0i32,
                history_index: 0,
                history: spec_zero_history(old(self)@.history, 0),
                ..old(self)@
            }));
        }
        let mut i: usize = 0;
        while i < HISTORY_SLOTS
            invariant
                0 <= i <= HISTORY_SLOTS,
                old(self)@.wf(),
                self@ == (InstanceModel {
                    state: 0i32,
                    history_index: 0,
                    history: spec_zero_history(old(self)@.history, i as int),
                    ..old(self)@
                }),
                old(fuel)@ >= i,
                fuel@ == old(fuel)@ - i,
            decreases HISTORY_SLOTS - i,
        {
            if !fuel.tick(1) {
                return ExecutionOutcome::FuelExhausted;
            }
            self.history[i] = 0;
            proof {
                assert(self@ =~= (InstanceModel {
                    state: 0i32,
                    history_index: 0,
                    history: spec_zero_history(old(self)@.history, i + 1),
                    ..old(self)@
                }));
            }
            i = i + 1;
        }
        ExecutionOutcome::Returned(0)
    }

    /// Performs `n` stateful increments, one unit of fuel each, then traps
    /// at an unreachable-code marker; the increments committed before the
    /// trap or the exhaustion stay visible for forensics.
    pub fn crash_after_n(&mut self, n: i32, fuel: &mut FuelMeter) -> (r: ExecutionOutcome)
        requires
            old(self)@.wf(),
        ensures
            final(self)@.wf(),
            old(fuel)@ >= requested_steps(n as int) ==> {
                &&& final(self)@ == incr_model_n(old(self)@, requested_steps(n as int))
                &&& r == ExecutionOutcome::Trapped(TrapKind::Unreachable)
                &&& final(fuel)@ == old(fuel)@ - requested_steps(n as int)
            },
            old(fuel)@ < requested_steps(n as int) ==> {
                &&& final(self)@ == incr_model_n(old(self)@, old(fuel)@ as int)
                &&& r == ExecutionOutcome::FuelExhausted
                &&& final(fuel)@ == 0
            },
    {
        let mut i: i32 = 0;
        while i < n
            invariant
                0 <= i,
                i <= requested_steps(n as int),
                old(self)@.wf(),
                self@.wf(),
                self@ == incr_model_n(old(self)@, i as int),
                old(fuel)@ >= i,
                fuel@ == old(fuel)@ - i,
            decreases n - i,
        {
            if !fuel.tick(1) {
                return ExecutionOutcome::FuelExhausted;
            }
            let _ = self.stateful_increment();
            proof {
                assert(incr_model_n(old(self)@, i as int + 1) == incr_model(
                    incr_model_n(old(self)@, i as int),
                ));
            }
            i = i + 1;
        }
        ExecutionOutcome::Trapped(TrapKind::Unreachable)
    }

    /// Performs stateful increments until the meter refuses, so the outcome
    /// is always exhaustion, after exactly as many increments as the budget
    /// allowed.
    pub fn increment_until_exhausted(&mut self, fuel: &mut FuelMeter) -> (r: ExecutionOutcome)
        requires
            old(self)@.wf(),
        ensures
            final(self)@.wf(),
            final(self)@ == incr_model_n(old(self)@, old(fuel)@ as int),
            r == ExecutionOutcome::FuelExhausted,
            final(fuel)@ == 0,
    {
        loop
            invariant
                old(self)@.wf(),
                self@.wf(),
                fuel@ <= old(fuel)@,
                self@ == incr_model_n(old(self)@, old(fuel)@ - fuel@),
            decreases fuel@,
        {
            if !fuel.tick(1) {
                return ExecutionOutcome::FuelExhausted;
            }
            let _ = self.stateful_increment();
            proof {
                assert(incr_model_n(old(self)@, old(fuel)@ - fuel@) == incr_model(
                    incr_model_n(old(self)@, old(fuel)@ - fuel@ - 1),
                ));
            }
        }
    }

    /// Naive recursive Fibonacci under a fuel budget, one unit charged
    /// before each recursive call: with enough fuel it returns the specified
    /// value, otherwise it stops with the meter empty.
    pub fn fib(&self, n: i32, fuel: &mut FuelMeter) -> (r: ExecutionOutcome)
        ensures
            old(fuel)@ >= fib_cost(n as int) ==> {
                &&& r == ExecutionOutcome::Returned(spec_fib(n as int))
                &&& final(fuel)@ == old(fuel)@ - fib_cost(n as int)
            },
            old(fuel)@ < fib_cost(n as int) ==> {
                &&& r == ExecutionOutcome::FuelExhausted
                &&& final(fuel)@ == 0
            },
        decreases n,
    {
        if n <= 1 {
            return ExecutionOutcome::Returned(n as i64);
        }
        proof {
            lemma_fib_cost_nonneg(n as int - 1);
            lemma_fib_cost_nonneg(n as int - 2);
        }
        if !fuel.tick(1) {
            return ExecutionOutcome::FuelExhausted;
        }
        let first = self.fib(n - 1, fuel);
        let v1 = match first {
            ExecutionOutcome::Returned(v) => v,
            _ => {
                return ExecutionOutcome::FuelExhausted;
            },
        };
        if !fuel.tick(1) {
            return ExecutionOutcome::FuelExhausted;
        }
        let second = self.fib(n - 2, fuel);
        let v2 = match second {
            ExecutionOutcome::Returned(v) => v,
            _ => {
                return ExecutionOutcome::FuelExhausted;
            },
        };
        ExecutionOutcome::Returned(v1.wrapping_add(v2))
    }

    /// Trial-division primality test, one unit of fuel per trial round:
    /// returns 1 for a prime argument and 0 otherwise. The budget
    /// `prime_fuel` always suffices, and no run consumes more than that.
    pub fn is_prime(&self, n: i32, fuel: &mut FuelMeter) -> (r: ExecutionOutcome)
        ensures
            r is Returned || r is FuelExhausted,
            r matches ExecutionOutcome::Returned(v) ==> v == prime_result(n as int),
            old(fuel)@ >= prime_fuel(n as int) ==> r is Returned,
            final(fuel)@ <= old(fuel)@,
            old(fuel)@ - final(fuel)@ <= prime_fuel(n as int),
            r is FuelExhausted ==> final(fuel)@ == 0,
    {
        if n <= 1 {
            return ExecutionOutcome::Returned(0);
        }
        if n <= 3 {
            proof {
                if n == 3 {
                    assert forall|d: int| 2 <= d < (n as int) implies #[trigger] ((n as int) % d)
                        != 0 by {
                        assert(d == 2);
                        assert((n as int) % 2 == 1);
                    }
                }
                assert(spec_is_prime(n as int));
            }
            return ExecutionOutcome::Returned(1);
        }
        if n % 2 == 0 || n % 3 == 0 {
            proof {
                if spec_is_prime(n as int) {
                    assert((n as int) % 2 != 0);
                    assert((n as int) % 3 != 0);
                }
            }
            return ExecutionOutcome::Returned(0);
        }
        let mut i: i32 = 5;
        let ghost mut spent: int = 0;
        while i <= 46340 && i <= n / i
            invariant
                n >= 5,
                (n as int) % 2 != 0,
                (n as int) % 3 != 0,
                i >= 5,
                (i as int) % 6 == 5,
                forall|m: int|
                    5 <= m < i && (m % 6 == 5 || m % 6 == 1) ==> #[trigger] ((n as int) % m) != 0,
                0 <= spent,
                spent + 5 <= i,
                spent <= n as int,
                old(fuel)@ >= spent,
                fuel@ == old(fuel)@ - spent,
            decreases 46346 - i,
        {
            proof {
                lemma_fundamental_div_mod(n as int, i as int);
                lemma_mod_division_less_than_divisor(n as int, i as int);
                assert((i as int) * (i as int) <= n as int) by (nonlinear_arith)
                    requires
                        (i as int) <= (n as int) / (i as int),
                        i >= 5,
                        n as int == (i as int) * ((n as int) / (i as int)) + (n as int) % (
                        i as int),
                        (n as int) % (i as int) >= 0,
                ;
                assert((i as int) <= (i as int) * (i as int)) by (nonlinear_arith)
                    requires
                        i >= 1,
                ;
            }
            if !fuel.tick(1) {
                return ExecutionOutcome::FuelExhausted;
            }
            proof {
                spent = spent + 1;
            }
            if n % i == 0 || n % (i + 2) == 0 {
                proof {
                    assert((i as int) + 2 < (i as int) * (i as int)) by (nonlinear_arith)
                        requires
                            i >= 5,
                    ;
                    if spec_is_prime(n as int) {
                        assert((n as int) % (i as int) != 0);
                        assert((n as int) % (i as int + 2) != 0);
                    }
                }
                return ExecutionOutcome::Returned(0);
            }
            proof {
                lemma_candidate_step(i as int);
                assert forall|m: int|
                    5 <= m < i + 6 && (m % 6 == 5 || m % 6 == 1) implies #[trigger] ((n as int)
                    % m) != 0 by {
                    if m >= i {
                        assert(m == i || m == i as int + 2);
                    }
                }
            }
            i = i + 6;
        }
        proof {
            if i <= 46340 {
                lemma_fundamental_div_mod(n as int, i as int);
                lemma_mod_division_less_than_divisor(n as int, i as int);
                assert((i as int) * (i as int) > n as int) by (nonlinear_arith)
                    requires
                        (i as int) > (n as int) / (i as int),
                        i >= 5,
                        n as int == (i as int) * ((n as int) / (i as int)) + (n as int) % (
                        i as int),
                        0 <= (n as int) % (i as int) < (i as int),
                ;
            } else {
                assert((i as int) * (i as int) > n as int) by (nonlinear_arith)
                    requires
                        i as int >= 46341,
                        n as int <= 0x7fff_ffff,
                ;
            }
            lemma_trial_division_complete(n as int, i as int);
        }
        ExecutionOutcome::Returned(1)
    }

    /// Counts the primes in `[2, n]` by trial division, one unit of fuel
    /// per candidate plus the candidate's own trial rounds. The budget
    /// `count_fuel` always suffices.
    pub fn count_primes(&self, n: i32, fuel: &mut FuelMeter) -> (r: ExecutionOutcome)
        ensures
            r is Returned || r is FuelExhausted,
            r matches ExecutionOutcome::Returned(v) ==> v == spec_count_primes(n as int) as i64,
            old(fuel)@ >= count_fuel(n as int) ==> r is Returned,
            final(fuel)@ <= old(fuel)@,
            r is FuelExhausted ==> final(fuel)@ == 0,
    {
        if n < 2 {
            return ExecutionOutcome::Returned(0);
        }
        let mut count: i32 = 0;
        let mut i: i64 = 2;
        proof {
            assert((n as int + 1) * (n as int + 1) >= (n as int) * (n as int
                + 1)) by (nonlinear_arith)
                requires
                    n as int >= 2,
            ;
        }
        while i <= n as i64
            invariant
                2 <= i,
                i <= n as i64 + 1,
                2 <= n,
                n <= 0x7fff_ffff,
                count as int == spec_count_primes(i as int - 1),
                0 <= count,
                count as int <= i - 2,
                fuel@ <= old(fuel)@,
                old(fuel)@ >= count_fuel(n as int) ==> fuel@ >= (n as int + 2 - i) * (n as int
                    + 1),
            decreases n as i64 - i + 1,
        {
            proof {
                lemma_count_primes_bounds(i as int - 1);
                if old(fuel)@ >= count_fuel(n as int) {
                    assert((n as int + 2 - i) * (n as int + 1) >= 2 * (n as int
                        + 1)) by (nonlinear_arith)
                        requires
                            i <= n as int,
                            n as int >= 2,
                    ;
                }
            }
            if !fuel.tick(1) {
                return ExecutionOutcome::FuelExhausted;
            }
            let sub = self.is_prime(i as i32, fuel);
            let verdict = match sub {
                ExecutionOutcome::Returned(v) => v,
                _ => {
                    return ExecutionOutcome::FuelExhausted;
                },
            };
            if verdict == 1 {
                count = count + 1;
            }
            proof {
                if old(fuel)@ >= count_fuel(n as int) {
                    assert((n as int + 2 - i) * (n as int + 1) - 1 - (n as int) >= (n as int + 2
                        - (i + 1)) * (n as int + 1)) by (nonlinear_arith)
                        requires
                            n as int >= 2,
                    ;
                }
            }
            i = i + 1;
        }
        ExecutionOutcome::Returned(count as i64)
    }
}

} // verus!
