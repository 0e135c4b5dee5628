//! Mathematical model of the engine: the fold function, operand
//! resolution, the opcode dispatch table, one instruction execution, and
//! the scheduler's per-cycle transition, all as specification functions
//! over sequences. The executable engine in `mars` is proved to follow
//! this model exactly.

use vstd::prelude::*;
use crate::redcode::{Address, Instruction, Mode, Modifier, Opcode};

verus! {

/// Control-transfer outcome of executing one instruction: the zero, one
/// or two continuation program counters handed back to the scheduler.
#[derive(Clone, Copy, Debug, PartialEq, Eq, Structural)]
pub enum StepOutcome {
    /// The process dies; nothing is re-enqueued.
    Terminated,
    /// Exactly one continuation.
    Continue(Address),
    /// Two continuations, enqueued first-then-second.
    Split(Address, Address),
}

/// Terminal result of a match.
#[derive(Clone, Copy, Debug, PartialEq, Eq, Structural)]
pub enum Outcome {
    /// The identified warrior is the last one alive.
    Winner(u32),
    /// No warrior remains, or the cycle budget ran out.
    Draw,
}

/// Scheduler state: a match is running or has finished with an outcome.
#[derive(Clone, Copy, Debug, PartialEq, Eq, Structural)]
pub enum MatchStatus {
    Running,
    Finished(Outcome),
}

/// The locality restriction: maps a raw offset into the centered window
/// of reachable offsets defined by `limit`, consistently with modular
/// wraparound of the full core.
pub open spec fn fold_spec(pointer: int, limit: int, size: int) -> int {
    let r = pointer % limit;
    if r > limit / 2 {
        r + size - limit
    } else {
        r
    }
}

/// A cell with its A-number replaced.
pub open spec fn with_a(c: Instruction, a: int) -> Instruction {
    Instruction {
        opcode: c.opcode,
        modifier: c.modifier,
        a_mode: c.a_mode,
        a_number: a as u32,
        b_mode: c.b_mode,
        b_number: c.b_number,
    }
}

/// A cell with its B-number replaced.
pub open spec fn with_b(c: Instruction, b: int) -> Instruction {
    Instruction {
        opcode: c.opcode,
        modifier: c.modifier,
        a_mode: c.a_mode,
        a_number: c.a_number,
        b_mode: c.b_mode,
        b_number: b as u32,
    }
}

/// A cell with both numbers replaced.
pub open spec fn with_ab(c: Instruction, a: int, b: int) -> Instruction {
    Instruction {
        opcode: c.opcode,
        modifier: c.modifier,
        a_mode: c.a_mode,
        a_number: a as u32,
        b_mode: c.b_mode,
        b_number: b as u32,
    }
}

/// A cell with both numbers reduced modulo the core size; every write
/// into the core stores its cell in this normalized form.
pub open spec fn norm_cell(c: Instruction, size: int) -> Instruction {
    with_ab(c, c.a_number as int % size, c.b_number as int % size)
}

/// Result of resolving one operand: the read and write pointers (relative
/// offsets), the memory after any pre-decrement, and the cell index of a
/// pending post-increment.
pub ghost struct ResolvedOperand {
    pub rp: int,
    pub wp: int,
    pub mem: Seq<Instruction>,
    pub pip: Option<int>,
}

/// Operand resolution: immediate operands point at the instruction
/// itself; direct operands fold the number against each limit; indirect
/// operands add the B-number of the intermediate cell and re-fold, with
/// pre-decrement mutating that cell's B-number first and post-increment
/// recording it for a deferred increment.
pub open spec fn resolve_spec(
    mem: Seq<Instruction>,
    size: int,
    rlim: int,
    wlim: int,
    pc: int,
    mode: Mode,
    number: int,
) -> ResolvedOperand {
    if mode == Mode::IMMEDIATE {
        ResolvedOperand { rp: 0, wp: 0, mem: mem, pip: None }
    } else {
        let rp0 = fold_spec(number, rlim, size);
        let wp0 = fold_spec(number, wlim, size);
        if mode == Mode::DIRECT {
            ResolvedOperand { rp: rp0, wp: wp0, mem: mem, pip: None }
        } else {
            let iw = (pc + wp0) % size;
            let mem1 = if mode == Mode::PREDECREMENT {
                mem.update(iw, with_b(mem[iw], (mem[iw].b_number + size - 1) % size))
            } else {
                mem
            };
            let pip = if mode == Mode::POSTINCREMENT {
                Some(iw)
            } else {
                None
            };
            let ir_idx = (pc + rp0) % size;
            ResolvedOperand {
                rp: fold_spec(rp0 + mem1[ir_idx].b_number, rlim, size),
                wp: fold_spec(wp0 + mem1[iw].b_number, wlim, size),
                mem: mem1,
                pip: pip,
            }
        }
    }
}

/// One arithmetic combination, B-value first: the stored result is
/// reduced modulo the core size; division and remainder are only applied
/// with a nonzero divisor.
pub open spec fn arith_val(op: Opcode, x: int, y: int, size: int) -> int {
    if op == Opcode::ADD {
        (x + y) % size
    } else if op == Opcode::SUB {
        (x - y + size) % size
    } else if op == Opcode::MUL {
        (x * y) % size
    } else if op == Opcode::DIV {
        x / y
    } else {
        x % y
    }
}

/// Whether an arithmetic instruction kills its process: DIV and MOD
/// terminate when any divisor field selected by the modifier is zero.
pub open spec fn arith_dies(op: Opcode, m: Modifier, ira: Instruction) -> bool {
    (op == Opcode::DIV || op == Opcode::MOD) && {
        if m == Modifier::A || m == Modifier::AB {
            ira.a_number == 0
        } else if m == Modifier::B || m == Modifier::BA {
            ira.b_number == 0
        } else {
            ira.a_number == 0 || ira.b_number == 0
        }
    }
}

/// The cell written by ADD/SUB/MUL/DIV/MOD: each field selected by the
/// modifier is replaced by the combination of the corresponding B- and
/// A-instruction fields; for DIV/MOD a field with a zero divisor is left
/// unwritten (the process dies instead, per `arith_dies`).
pub open spec fn arith_cell_spec(
    op: Opcode,
    m: Modifier,
    ira: Instruction,
    irb: Instruction,
    t: Instruction,
    size: int,
) -> Instruction {
    let guard = op == Opcode::DIV || op == Opcode::MOD;
    if m == Modifier::A {
        if guard && ira.a_number == 0 {
            t
        } else {
            with_a(t, arith_val(op, irb.a_number as int, ira.a_number as int, size))
        }
    } else if m == Modifier::B {
        if guard && ira.b_number == 0 {
            t
        } else {
            with_b(t, arith_val(op, irb.b_number as int, ira.b_number as int, size))
        }
    } else if m == Modifier::AB {
        if guard && ira.a_number == 0 {
            t
        } else {
            with_b(t, arith_val(op, irb.b_number as int, ira.a_number as int, size))
        }
    } else if m == Modifier::BA {
        if guard && ira.b_number == 0 {
            t
        } else {
            with_a(t, arith_val(op, irb.a_number as int, ira.b_number as int, size))
        }
    } else if m == Modifier::X {
        let t1 = if guard && ira.b_number == 0 {
            t
        } else {
            with_a(t, arith_val(op, irb.a_number as int, ira.b_number as int, size))
        };
        if guard && ira.a_number == 0 {
            t1
        } else {
            with_b(t1, arith_val(op, irb.b_number as int, ira.a_number as int, size))
        }
    } else {
        let t1 = if guard && ira.a_number == 0 {
            t
        } else {
            with_a(t, arith_val(op, irb.a_number as int, ira.a_number as int, size))
        };
        if guard && ira.b_number == 0 {
            t1
        } else {
            with_b(t1, arith_val(op, irb.b_number as int, ira.b_number as int, size))
        }
    }
}

/// The cell written by MOV: the selected fields of the A-instruction
/// replace the corresponding fields of the target cell; `I` copies the
/// whole instruction.
pub open spec fn mov_cell_spec(m: Modifier, ira: Instruction, t: Instruction) -> Instruction {
    if m == Modifier::A {
        with_a(t, ira.a_number as int)
    } else if m == Modifier::B {
        with_b(t, ira.b_number as int)
    } else if m == Modifier::AB {
        with_b(t, ira.a_number as int)
    } else if m == Modifier::BA {
        with_a(t, ira.b_number as int)
    } else if m == Modifier::F {
        with_ab(t, ira.a_number as int, ira.b_number as int)
    } else if m == Modifier::X {
        with_ab(t, ira.b_number as int, ira.a_number as int)
    } else {
        ira
    }
}

/// Whether every field of `c` selected by the modifier is zero; the JMZ
/// jump condition, and negated the JMN/DJN one.
pub open spec fn is_zero_sel(m: Modifier, c: Instruction) -> bool {
    if m == Modifier::A || m == Modifier::BA {
        c.a_number == 0
    } else if m == Modifier::B || m == Modifier::AB {
        c.b_number == 0
    } else {
        c.a_number == 0 && c.b_number == 0
    }
}

/// Whether the selected fields of the A- and B-instructions are all
/// equal; the CMP/SEQ skip condition, and negated the SNE one.
pub open spec fn eq_sel(m: Modifier, ira: Instruction, irb: Instruction) -> bool {
    if m == Modifier::A {
        ira.a_number == irb.a_number
    } else if m == Modifier::B {
        ira.b_number == irb.b_number
    } else if m == Modifier::AB {
        ira.a_number == irb.b_number
    } else if m == Modifier::BA {
        ira.b_number == irb.a_number
    } else if m == Modifier::F {
        ira.a_number == irb.a_number && ira.b_number == irb.b_number
    } else if m == Modifier::X {
        ira.a_number == irb.b_number && ira.b_number == irb.a_number
    } else {
        ira == irb
    }
}

/// Whether the selected fields of the A-instruction are numerically less
/// than those of the B-instruction; the SLT skip condition.
pub open spec fn lt_sel(m: Modifier, ira: Instruction, irb: Instruction) -> bool {
    if m == Modifier::A {
        ira.a_number < irb.a_number
    } else if m == Modifier::B {
        ira.b_number < irb.b_number
    } else if m == Modifier::AB {
        ira.a_number < irb.b_number
    } else if m == Modifier::BA {
        ira.b_number < irb.a_number
    } else if m == Modifier::X {
        ira.a_number < irb.b_number && ira.b_number < irb.a_number
    } else {
        ira.a_number < irb.a_number && ira.b_number < irb.b_number
    }
}

/// The B-target cell after DJN's decrement of the selected fields,
/// modulo the core size.
pub open spec fn djn_dec_cell(m: Modifier, t: Instruction, size: int) -> Instruction {
    if m == Modifier::A || m == Modifier::BA {
        with_a(t, (t.a_number + size - 1) % size)
    } else if m == Modifier::B || m == Modifier::AB {
        with_b(t, (t.b_number + size - 1) % size)
    } else {
        with_ab(t, (t.a_number + size - 1) % size, (t.b_number + size - 1) % size)
    }
}

/// The P-space cell index LDP loads from, selected from the
/// A-instruction's fields.
pub open spec fn ldp_index(m: Modifier, ira: Instruction) -> int {
    if m == Modifier::A || m == Modifier::AB {
        ira.a_number as int
    } else {
        ira.b_number as int
    }
}

/// The core cell written by LDP: the loaded P-space value lands in the
/// A- or B-field selected by the modifier.
pub open spec fn ldp_cell_spec(
    m: Modifier,
    ira: Instruction,
    t: Instruction,
    pspace: Seq<u32>,
) -> Instruction {
    let v = pspace[ldp_index(m, ira)] as int;
    if m == Modifier::A || m == Modifier::BA {
        with_a(t, v)
    } else {
        with_b(t, v)
    }
}

/// The value STP stores, selected from the A-instruction's fields.
pub open spec fn stp_value(m: Modifier, ira: Instruction) -> u32 {
    if m == Modifier::A || m == Modifier::AB {
        ira.a_number
    } else {
        ira.b_number
    }
}

/// The P-space cell index STP stores into, selected from the
/// B-instruction's fields.
pub open spec fn stp_index(m: Modifier, irb: Instruction) -> int {
    if m == Modifier::A || m == Modifier::BA {
        irb.a_number as int
    } else {
        irb.b_number as int
    }
}

/// Result of executing one instruction: the memory, the acting warrior's
/// P-space, and the control outcome.
pub ghost struct StepResult {
    pub mem: Seq<Instruction>,
    pub pspace: Seq<u32>,
    pub outcome: StepOutcome,
}

/// Commit one pending post-increment: bump the B-number of the recorded
/// cell modulo the core size.
pub open spec fn commit_pip(mem: Seq<Instruction>, pip: Option<int>, size: int) -> Seq<
    Instruction,
> {
    match pip {
        Some(i) => mem.update(i, with_b(mem[i], (mem[i].b_number + 1) % size)),
        None => mem,
    }
}

/// The opcode dispatch table of the executor, after both operands are
/// resolved and read: the data effect on memory or P-space, and the
/// control outcome. `next`, `skip` and `jump` are the already-normalized
/// continuation addresses `pc+1`, `pc+2` and `pc+rpa`.
pub open spec fn dispatch_spec(
    op: Opcode,
    m: Modifier,
    ira: Instruction,
    irb: Instruction,
    mem: Seq<Instruction>,
    pspace: Seq<u32>,
    wb: int,
    size: int,
    next: Address,
    skip: Address,
    jump: Address,
) -> StepResult {
    if op == Opcode::DAT {
        StepResult { mem: mem, pspace: pspace, outcome: StepOutcome::Terminated }
    } else if op == Opcode::MOV {
        StepResult {
            mem: mem.update(wb, mov_cell_spec(m, ira, mem[wb])),
            pspace: pspace,
            outcome: StepOutcome::Continue(next),
        }
    } else if op == Opcode::ADD || op == Opcode::SUB || op == Opcode::MUL || op == Opcode::DIV
        || op == Opcode::MOD {
        StepResult {
            mem: mem.update(wb, arith_cell_spec(op, m, ira, irb, mem[wb], size)),
            pspace: pspace,
            outcome: if arith_dies(op, m, ira) {
                StepOutcome::Terminated
            } else {
                StepOutcome::Continue(next)
            },
        }
    } else if op == Opcode::JMP {
        StepResult { mem: mem, pspace: pspace, outcome: StepOutcome::Continue(jump) }
    } else if op == Opcode::JMZ {
        StepResult {
            mem: mem,
            pspace: pspace,
            outcome: StepOutcome::Continue(if is_zero_sel(m, irb) { jump } else { next }),
        }
    } else if op == Opcode::JMN {
        StepResult {
            mem: mem,
            pspace: pspace,
            outcome: StepOutcome::Continue(if !is_zero_sel(m, irb) { jump } else { next }),
        }
    } else if op == Opcode::DJN {
        let d = djn_dec_cell(m, mem[wb], size);
        StepResult {
            mem: mem.update(wb, d),
            pspace: pspace,
            outcome: StepOutcome::Continue(if !is_zero_sel(m, d) { jump } else { next }),
        }
    } else if op == Opcode::CMP || op == Opcode::SEQ {
        StepResult {
            mem: mem,
            pspace: pspace,
            outcome: StepOutcome::Continue(if eq_sel(m, ira, irb) { skip } else { next }),
        }
    } else if op == Opcode::SNE {
        StepResult {
            mem: mem,
            pspace: pspace,
            outcome: StepOutcome::Continue(if !eq_sel(m, ira, irb) { skip } else { next }),
        }
    } else if op == Opcode::SLT {
        StepResult {
            mem: mem,
            pspace: pspace,
            outcome: StepOutcome::Continue(if lt_sel(m, ira, irb) { skip } else { next }),
        }
    } else if op == Opcode::SPL {
        StepResult { mem: mem, pspace: pspace, outcome: StepOutcome::Split(next, jump) }
    } else if op == Opcode::NOP {
        StepResult { mem: mem, pspace: pspace, outcome: StepOutcome::Continue(next) }
    } else if op == Opcode::LDP {
        StepResult {
            mem: mem.update(wb, ldp_cell_spec(m, ira, mem[wb], pspace)),
            pspace: pspace,
            outcome: StepOutcome::Continue(next),
        }
    } else {
        StepResult {
            mem: mem,
            pspace: pspace.update(stp_index(m, irb), stp_value(m, ira)),
            outcome: StepOutcome::Continue(next),
        }
    }
}

/// Resolution of the A-operand of the instruction at `pc`.
pub open spec fn step_resolve_a(
    mem: Seq<Instruction>,
    size: int,
    rlim: int,
    wlim: int,
    pc: int,
) -> ResolvedOperand {
    resolve_spec(mem, size, rlim, wlim, pc, mem[pc].a_mode, mem[pc].a_number as int)
}

/// Resolution of the B-operand, over the memory the A-resolution left.
pub open spec fn step_resolve_b(
    mem: Seq<Instruction>,
    size: int,
    rlim: int,
    wlim: int,
    pc: int,
) -> ResolvedOperand {
    resolve_spec(
        step_resolve_a(mem, size, rlim, wlim, pc).mem,
        size,
        rlim,
        wlim,
        pc,
        mem[pc].b_mode,
        mem[pc].b_number as int,
    )
}

/// The A-instruction: the cell the A-operand's read pointer reaches.
pub open spec fn step_ira(
    mem: Seq<Instruction>,
    size: int,
    rlim: int,
    wlim: int,
    pc: int,
) -> Instruction {
    step_resolve_b(mem, size, rlim, wlim, pc).mem[(pc + step_resolve_a(
        mem,
        size,
        rlim,
        wlim,
        pc,
    ).rp) % size]
}

/// The B-instruction: the cell the B-operand's read pointer reaches.
pub open spec fn step_irb(
    mem: Seq<Instruction>,
    size: int,
    rlim: int,
    wlim: int,
    pc: int,
) -> Instruction {
    step_resolve_b(mem, size, rlim, wlim, pc).mem[(pc + step_resolve_b(
        mem,
        size,
        rlim,
        wlim,
        pc,
    ).rp) % size]
}

/// One full instruction execution at `pc`: resolve both operands
/// (applying pre-decrements immediately), read the A- and B-instructions,
/// dispatch on the opcode, then commit pending post-increments in
/// A-operand-then-B-operand order.
pub open spec fn step_spec(
    mem: Seq<Instruction>,
    pspace: Seq<u32>,
    size: int,
    rlim: int,
    wlim: int,
    pc: int,
) -> StepResult {
    let ir = mem[pc];
    let ra = step_resolve_a(mem, size, rlim, wlim, pc);
    let rb = step_resolve_b(mem, size, rlim, wlim, pc);
    let mem2 = rb.mem;
    let ira = step_ira(mem, size, rlim, wlim, pc);
    let irb = step_irb(mem, size, rlim, wlim, pc);
    let wb = (pc + rb.wp) % size;
    let next = ((pc + 1) % size) as u32;
    let skip = ((pc + 2) % size) as u32;
    let jump = ((pc + ra.rp) % size) as u32;
    let d = dispatch_spec(
        ir.opcode,
        ir.modifier,
        ira,
        irb,
        mem2,
        pspace,
        wb,
        size,
        next,
        skip,
        jump,
    );
    let mem4 = commit_pip(d.mem, ra.pip, size);
    let mem5 = commit_pip(mem4, rb.pip, size);
    StepResult { mem: mem5, pspace: d.pspace, outcome: d.outcome }
}

/// Bounded-queue append: beyond capacity the address is silently dropped.
pub open spec fn enq_spec(q: Seq<u32>, limit: int, a: u32) -> Seq<u32> {
    if q.len() < limit {
        q.push(a)
    } else {
        q
    }
}

/// Enqueue the continuations of a control outcome, in order.
pub open spec fn enq_outcome(q: Seq<u32>, limit: int, oc: StepOutcome) -> Seq<u32> {
    match oc {
        StepOutcome::Terminated => q,
        StepOutcome::Continue(a) => enq_spec(q, limit, a),
        StepOutcome::Split(a, b) => enq_spec(enq_spec(q, limit, a), limit, b),
    }
}

/// The whole match state, as the model sees it.
#[verifier::ext_equal]
pub ghost struct CoreView {
    pub mem: Seq<Instruction>,
    pub pspace0: Seq<u32>,
    pub pspace1: Seq<u32>,
    pub q0: Seq<u32>,
    pub q1: Seq<u32>,
    pub task_limit: int,
    pub size: int,
    pub read_limit: int,
    pub write_limit: int,
    pub cycle: int,
    pub cycle_limit: int,
    pub next: int,
    pub status: MatchStatus,
}

/// One scheduler cycle. A finished match is left unchanged. With no
/// warrior alive the match is a draw; with exactly one alive that warrior
/// wins; with the cycle budget exhausted while both live it is a draw.
/// Otherwise the warrior the round-robin points at executes the head of
/// its queue, its continuations are enqueued, and the turn passes on.
pub open spec fn sched_step_spec(v: CoreView) -> CoreView {
    if v.status != MatchStatus::Running {
        v
    } else if v.q0.len() == 0 && v.q1.len() == 0 {
        CoreView { status: MatchStatus::Finished(Outcome::Draw), ..v }
    } else if v.q1.len() == 0 {
        CoreView { status: MatchStatus::Finished(Outcome::Winner(0)), ..v }
    } else if v.q0.len() == 0 {
        CoreView { status: MatchStatus::Finished(Outcome::Winner(1)), ..v }
    } else if v.cycle >= v.cycle_limit {
        CoreView { status: MatchStatus::Finished(Outcome::Draw), ..v }
    } else if v.next == 0 {
        let pc = v.q0[0];
        let sr = step_spec(v.mem, v.pspace0, v.size, v.read_limit, v.write_limit, pc as int);
        CoreView {
            mem: sr.mem,
            pspace0: sr.pspace,
            q0: enq_outcome(v.q0.drop_first(), v.task_limit, sr.outcome),
            cycle: v.cycle + 1,
            next: 1,
            ..v
        }
    } else {
        let pc = v.q1[0];
        let sr = step_spec(v.mem, v.pspace1, v.size, v.read_limit, v.write_limit, pc as int);
        CoreView {
            mem: sr.mem,
            pspace1: sr.pspace,
            q1: enq_outcome(v.q1.drop_first(), v.task_limit, sr.outcome),
            cycle: v.cycle + 1,
            next: 0,
            ..v
        }
    }
}

/// Upper bound on the scheduler cycles left before the match must finish.
pub open spec fn run_measure(v: CoreView) -> nat {
    if v.status != MatchStatus::Running {
        0
    } else if v.cycle <= v.cycle_limit {
        (v.cycle_limit - v.cycle + 1) as nat
    } else {
        1
    }
}

/// Each scheduler cycle of a running match strictly shrinks the measure,
/// so a match always finishes.
pub proof fn lemma_sched_step_measure(v: CoreView)
    requires
        v.status == MatchStatus::Running,
    ensures
        run_measure(sched_step_spec(v)) < run_measure(v),
{
}

/// Running the scheduler to completion: the terminal state a match
/// reaches from `v`. The match is a pure function of its initial state.
pub open spec fn run_spec(v: CoreView) -> CoreView
    decreases run_measure(v),
    via run_spec_dec
{
    if v.status == MatchStatus::Running {
        run_spec(sched_step_spec(v))
    } else {
        v
    }
}

#[via_fn]
proof fn run_spec_dec(v: CoreView) {
    if v.status == MatchStatus::Running {
        lemma_sched_step_measure(v);
    }
}

} // verus!
