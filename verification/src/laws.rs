//! The engine's stated laws, each proved against the model in
//! `semantics`: fold stays inside the core and preserves residues,
//! memory wraps around, bounded queues keep FIFO order up to capacity,
//! DAT and a resolved zero divisor kill exactly one process, SPL grows
//! the acting queue by one net process, and a match is a pure function
//! of its initial state.

use vstd::prelude::*;
use vstd::math::min;
use crate::redcode::Opcode;
use crate::mars::CoreMemory;
use crate::semantics::{
    CoreView, MatchStatus, StepOutcome, arith_dies, enq_spec, fold_spec, run_spec,
    sched_step_spec, step_ira, step_spec,
};

verus! {

/// Fold never leaves the core: for any limit within the core size, the
/// folded pointer lands in `[0, size)`.
pub proof fn lemma_fold_range(pointer: int, limit: int, size: int)
    requires
        0 <= pointer,
        0 < limit <= size,
    ensures
        0 <= fold_spec(pointer, limit, size) < size,
{
}

/// Fold preserves the pointer's residue: when the limit divides the
/// core size, the folded value reduced by the limit reproduces the
/// original residue. (With a limit that does not divide the size the
/// upper window is shifted by `size % limit` and the residue is not
/// kept, so that case is excluded here.)
pub proof fn lemma_fold_residue(pointer: int, limit: int, size: int)
    requires
        0 <= pointer,
        0 < limit <= size,
        size % limit == 0,
    ensures
        fold_spec(pointer, limit, size) % limit == pointer % limit,
{
    let r = pointer % limit;
    vstd::arithmetic::div_mod::lemma_small_mod(r as nat, limit as nat);
    if r > limit / 2 {
        let q = size / limit;
        vstd::arithmetic::div_mod::lemma_fundamental_div_mod(size, limit);
        vstd::arithmetic::mul::lemma_mul_is_distributive_sub(limit, q, 1);
        assert(size - limit == limit * (q - 1));
        vstd::arithmetic::div_mod::lemma_mod_multiples_vanish(q - 1, r, limit);
    }
}

/// Memory wraparound: the cell a core of size `N` holds at `k + N` is
/// the cell it holds at `k`, for every address.
pub proof fn lemma_read_wraparound(m: &CoreMemory, k: int)
    requires
        m.wf(),
        0 <= k,
    ensures
        m.cells@[(k + m.size as int) % m.size as int] == m.cells@[k % m.size as int],
{
    vstd::arithmetic::div_mod::lemma_mod_add_multiples_vanish(k, m.size as int);
}

/// A whole sequence of enqueues under the capacity-drop policy, oldest
/// first.
pub open spec fn enq_all(q: Seq<u32>, limit: int, addrs: Seq<u32>) -> Seq<u32>
    decreases addrs.len(),
{
    if addrs.len() == 0 {
        q
    } else {
        enq_all(enq_spec(q, limit, addrs[0]), limit, addrs.drop_first())
    }
}

/// FIFO with capacity: enqueueing a batch keeps the queue's contents,
/// then exactly as many of the new addresses as fit, in insertion order.
pub proof fn lemma_enq_all_fifo(q: Seq<u32>, limit: int, addrs: Seq<u32>)
    requires
        q.len() <= limit,
    ensures
        enq_all(q, limit, addrs) == q + addrs.take(min(limit - q.len(), addrs.len() as int)),
    decreases addrs.len(),
{
    let n = min(limit - q.len(), addrs.len() as int);
    if addrs.len() == 0 {
        assert(q + addrs.take(n) =~= q);
    } else {
        if q.len() < limit {
            lemma_enq_all_fifo(q.push(addrs[0]), limit, addrs.drop_first());
            let n2 = min(limit - q.len() - 1, addrs.len() - 1);
            assert(q.push(addrs[0]) + addrs.drop_first().take(n2) =~= q + addrs.take(n));
        } else {
            lemma_enq_all_fifo(q, limit, addrs.drop_first());
            let n2 = min(limit - q.len(), addrs.len() - 1);
            assert(q + addrs.drop_first().take(n2) =~= q + addrs.take(n));
        }
    }
}

/// The documented capacity policy, from an empty queue: enqueueing more
/// addresses than the capacity keeps exactly the first `capacity` of
/// them, in insertion order — dequeuing then yields them oldest first
/// and nothing else.
pub proof fn lemma_queue_capacity_fifo(limit: int, addrs: Seq<u32>)
    requires
        0 <= limit <= addrs.len(),
    ensures
        enq_all(Seq::empty(), limit, addrs) == addrs.take(limit),
{
    lemma_enq_all_fifo(Seq::empty(), limit, addrs);
    assert(Seq::<u32>::empty() + addrs.take(limit) =~= addrs.take(limit));
}

/// DAT terminates: a scheduled process whose instruction is DAT yields
/// no continuation, so the acting warrior's queue shrinks by exactly
/// one, and the other queue is untouched.
pub proof fn lemma_dat_terminates(v: CoreView)
    requires
        v.status == MatchStatus::Running,
        v.next == 0 || v.next == 1,
        v.q0.len() > 0,
        v.q1.len() > 0,
        v.cycle < v.cycle_limit,
        v.mem[(if v.next == 0 {
            v.q0[0]
        } else {
            v.q1[0]
        }) as int].opcode == Opcode::DAT,
    ensures
        step_spec(
            v.mem,
            if v.next == 0 {
                v.pspace0
            } else {
                v.pspace1
            },
            v.size,
            v.read_limit,
            v.write_limit,
            (if v.next == 0 {
                v.q0[0]
            } else {
                v.q1[0]
            }) as int,
        ).outcome == StepOutcome::Terminated,
        v.next == 0 ==> sched_step_spec(v).q0.len() == v.q0.len() - 1 && sched_step_spec(v).q1
            == v.q1,
        v.next == 1 ==> sched_step_spec(v).q1.len() == v.q1.len() - 1 && sched_step_spec(v).q0
            == v.q0,
{
}

/// A DIV or MOD whose resolved A-instruction carries a zero in a
/// selected divisor field terminates only the acting process: that
/// warrior's queue shrinks by one and the other queue is untouched —
/// the match itself goes on.
pub proof fn lemma_div_zero_terminates(v: CoreView)
    requires
        v.status == MatchStatus::Running,
        v.next == 0 || v.next == 1,
        v.q0.len() > 0,
        v.q1.len() > 0,
        v.cycle < v.cycle_limit,
        ({
            let pc = (if v.next == 0 {
                v.q0[0]
            } else {
                v.q1[0]
            }) as int;
            let ir = v.mem[pc];
            (ir.opcode == Opcode::DIV || ir.opcode == Opcode::MOD) && arith_dies(
                ir.opcode,
                ir.modifier,
                step_ira(v.mem, v.size, v.read_limit, v.write_limit, pc),
            )
        }),
    ensures
        step_spec(
            v.mem,
            if v.next == 0 {
                v.pspace0
            } else {
                v.pspace1
            },
            v.size,
            v.read_limit,
            v.write_limit,
            (if v.next == 0 {
                v.q0[0]
            } else {
                v.q1[0]
            }) as int,
        ).outcome == StepOutcome::Terminated,
        v.next == 0 ==> sched_step_spec(v).q0.len() == v.q0.len() - 1 && sched_step_spec(v).q1
            == v.q1,
        v.next == 1 ==> sched_step_spec(v).q1.len() == v.q1.len() - 1 && sched_step_spec(v).q0
            == v.q0,
{
}

/// SPL enqueues two: with room for both continuations, the acting
/// warrior's queue grows by exactly one net process (one head removed,
/// two tails appended), and the other queue is untouched.
pub proof fn lemma_spl_enqueues_two(v: CoreView)
    requires
        v.status == MatchStatus::Running,
        v.next == 0 || v.next == 1,
        v.q0.len() > 0,
        v.q1.len() > 0,
        v.cycle < v.cycle_limit,
        v.mem[(if v.next == 0 {
            v.q0[0]
        } else {
            v.q1[0]
        }) as int].opcode == Opcode::SPL,
        v.next == 0 ==> v.q0.len() + 1 <= v.task_limit,
        v.next == 1 ==> v.q1.len() + 1 <= v.task_limit,
    ensures
        v.next == 0 ==> sched_step_spec(v).q0.len() == v.q0.len() + 1 && sched_step_spec(v).q1
            == v.q1,
        v.next == 1 ==> sched_step_spec(v).q1.len() == v.q1.len() + 1 && sched_step_spec(v).q0
            == v.q0,
{
}

/// Determinism: the scheduler transition and the whole run are pure
/// functions of the match state, so two matches started from equal
/// states — same configuration, same loaded core, same seeded queues —
/// replay cycle for cycle identically and finish with the same outcome.
pub proof fn lemma_run_deterministic(a: CoreView, b: CoreView)
    requires
        a == b,
    ensures
        sched_step_spec(a) == sched_step_spec(b),
        run_spec(a) == run_spec(b),
{
}

} // verus!
