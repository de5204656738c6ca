use vstd::prelude::*;
use vstd::arithmetic::div_mod::lemma_fundamental_div_mod;
use vstd::arithmetic::div_mod::lemma_mod_division_less_than_divisor;
use vstd::arithmetic::div_mod::lemma_mod_multiples_vanish;
use vstd::arithmetic::div_mod::lemma_small_mod;
use vstd::wrapping::i32_specs;

use crate::instance::get_state_outcome;
use crate::instance::incr_model;
use crate::instance::incr_model_n;
use crate::instance::lemma_incr_model_n_wf;
use crate::instance::spec_scan;
use crate::instance::spec_scan_from;
use crate::instance::InstanceModel;
use crate::instance::HISTORY_SLOTS;

verus! {

/// Idempotence of reading the state: the get_state export takes the
/// instance immutably and its outcome is a function of the instance's view
/// alone, so two calls with no intervening mutation return the same value
/// both times.
pub proof fn lemma_get_state_idempotent(first: InstanceModel, second: InstanceModel)
    requires
        second == first,
    ensures
        get_state_outcome(second) == get_state_outcome(first),
{
}

/// `k` stateful increments on a fresh instance: the state counter reads
/// exactly `k`, the history holds the first `min(k, HISTORY_SLOTS)` values
/// `1, 2, ...` in order, and the linear memory is untouched.
pub proof fn lemma_increments_from_fresh(k: int)
    requires
        0 <= k <= i32::MAX,
    ensures
        incr_model_n(InstanceModel::fresh(), k).state == k,
        incr_model_n(InstanceModel::fresh(), k).history_index == (if k <= HISTORY_SLOTS {
            k
        } else {
            HISTORY_SLOTS as int
        }),
        forall|j: int|
            0 <= j < k && j < HISTORY_SLOTS ==> incr_model_n(InstanceModel::fresh(), k).history[j]
                == j + 1,
        incr_model_n(InstanceModel::fresh(), k).mem == InstanceModel::fresh().mem,
    decreases k,
{
    if k > 0 {
        lemma_increments_from_fresh(k - 1);
        lemma_incr_model_n_wf(InstanceModel::fresh(), k - 1);
        let prev = incr_model_n(InstanceModel::fresh(), k - 1);
        let cur = incr_model_n(InstanceModel::fresh(), k);
        assert(cur == incr_model(prev));
        assert forall|j: int| 0 <= j < k && j < HISTORY_SLOTS implies cur.history[j] == j + 1 by {
            if j < k - 1 && j < HISTORY_SLOTS {
                assert(prev.history[j] == j + 1);
            }
        }
    }
}

/// Determinism of exhaustion: starting from the same instance state with
/// the same fuel budget, the increment_until_exhausted export always halts
/// at the same state, since its effect is a function of the view and the
/// budget alone.
pub proof fn lemma_exhaustion_deterministic(
    m_a: InstanceModel,
    m_b: InstanceModel,
    budget_a: u64,
    budget_b: u64,
)
    requires
        m_b == m_a,
        budget_b == budget_a,
    ensures
        incr_model_n(m_b, budget_b as int) == incr_model_n(m_a, budget_a as int),
{
}

proof fn lemma_scan_from_characterization(mem: Seq<u8>, pattern: u8, i: int)
    requires
        0 <= i <= mem.len(),
    ensures
        spec_scan_from(mem, pattern, i) == -1 ==> forall|j: int|
            i <= j < mem.len() ==> mem[j] != pattern,
        spec_scan_from(mem, pattern, i) != -1 ==> {
            let r = spec_scan_from(mem, pattern, i);
            &&& i <= r < mem.len()
            &&& mem[r] == pattern
            &&& forall|j: int| i <= j < r ==> mem[j] != pattern
        },
    decreases mem.len() - i,
{
    if i < mem.len() && mem[i] != pattern {
        lemma_scan_from_characterization(mem, pattern, i + 1);
    }
}

/// What the scan export's result means: a non-negative result is the index
/// of the first byte equal to the pattern, and -1 means no byte of the
/// memory equals it.
pub proof fn lemma_scan_finds_first_match(mem: Seq<u8>, pattern: u8)
    ensures
        spec_scan(mem, pattern) == -1 ==> forall|j: int| 0 <= j < mem.len() ==> mem[j] != pattern,
        spec_scan(mem, pattern) != -1 ==> {
            let r = spec_scan(mem, pattern);
            &&& 0 <= r < mem.len()
            &&& mem[r] == pattern
            &&& forall|j: int| 0 <= j < r ==> mem[j] != pattern
        },
{
    lemma_scan_from_characterization(mem, pattern, 0);
}

proof fn lemma_mod_step(x: int, m: int)
    requires
        m > 0,
    ensures
        x % m < m - 1 ==> (x + 1) % m == x % m + 1,
        x % m == m - 1 ==> (x + 1) % m == 0,
{
    lemma_fundamental_div_mod(x, m);
    lemma_mod_division_less_than_divisor(x, m);
    let q = x / m;
    let r = x % m;
    if r < m - 1 {
        lemma_mod_multiples_vanish(q, r + 1, m);
        lemma_small_mod((r + 1) as nat, m as nat);
        assert(x + 1 == m * q + (r + 1));
    } else {
        lemma_mod_multiples_vanish(q + 1, 0, m);
        lemma_small_mod(0, m as nat);
        assert(x + 1 == m * (q + 1)) by (nonlinear_arith)
            requires
                x == m * q + (m - 1),
        ;
    }
}

/// The state counter after `k` increments in a row: the starting state plus
/// `k`, wrapped into the `i32` range. With the fuel budget as `k`, this is
/// the exact state at which increment_until_exhausted halts, from any
/// starting state.
pub proof fn lemma_state_after_increments(m: InstanceModel, k: int)
    requires
        0 <= k,
    ensures
        incr_model_n(m, k).state == i32_specs::signed_crop(m.state + k),
    decreases k,
{
    let range = 0x1_0000_0000int;
    if k == 0 {
        if m.state >= 0 {
            lemma_small_mod(m.state as nat, range as nat);
        } else {
            lemma_mod_multiples_vanish(1, m.state as int, range);
            lemma_small_mod((m.state + range) as nat, range as nat);
        }
    } else {
        lemma_state_after_increments(m, k - 1);
        let prev = incr_model_n(m, k - 1);
        assert(incr_model_n(m, k) == incr_model(prev));
        let x = m.state + k - 1;
        lemma_mod_step(x, range);
        lemma_mod_division_less_than_divisor(x, range);
        lemma_mod_division_less_than_divisor(x + 1, range);
    }
}

} // verus!
