//! Engine tests: the task queue's FIFO and capacity policy, memory
//! wraparound, the fold formula, opcode semantics on exact values, and
//! end-to-end match scenarios.

use mars::mars::{ConfigError, Core, CoreBuilder, CoreMemory, InitialInstruction, TaskQueue};
use mars::redcode::{Instruction, Mode, Modifier, Opcode};
use mars::semantics::{MatchStatus, Outcome, StepOutcome};

fn insn(
    opcode: Opcode,
    modifier: Modifier,
    a_mode: Mode,
    a_number: u32,
    b_mode: Mode,
    b_number: u32,
) -> Instruction {
    Instruction { opcode, modifier, a_mode, a_number, b_mode, b_number }
}

/// A small fully-reachable arena: every address within both limits.
fn small_core(task_limit: usize, cycle_limit: u64) -> Core {
    let mut b = CoreBuilder::new();
    b.coresize(8);
    b.read_limit(8);
    b.write_limit(8);
    b.task_limit(task_limit);
    b.cycle_limit(cycle_limit);
    b.build().unwrap()
}

#[test]
fn mars_it_works() {}

#[test]
fn redcode_it_works() {}

#[test]
fn task_queue_simple() {
    let mut tq = TaskQueue::new(2);
    tq.queue(1);
    tq.queue(3);
    assert_eq!(tq.next(), Some(1));
    assert_eq!(tq.next(), Some(3));
    assert_eq!(tq.next(), None);
}

#[test]
fn task_queue_limit() {
    let mut tq = TaskQueue::new(3);
    tq.queue(100);
    tq.queue(200);
    tq.queue(300);
    tq.queue(400);

    assert_eq!(tq.next(), Some(100));
    assert_eq!(tq.next(), Some(200));
    assert_eq!(tq.next(), Some(300));
    assert_eq!(tq.next(), None);
}

#[test]
fn task_queue_empty() {
    let mut tq = TaskQueue::new(100);

    assert_eq!(tq.next(), None);
}

#[test]
fn core_mem_size() {
    let core = CoreMemory::new(2, InitialInstruction::Default);
    assert_eq!(core.size(), 2);
}

#[test]
fn core_mem_wrap() {
    let core = CoreMemory::new(2, InitialInstruction::Default);
    assert_eq!(core.read(0), core.read(2));
}

#[test]
fn core_mem_wrap_larger() {
    let mut core = CoreMemory::new(5, InitialInstruction::Default);
    let marker = insn(Opcode::NOP, Modifier::B, Mode::DIRECT, 2, Mode::DIRECT, 3);
    core.write(3, marker);
    assert_eq!(core.read(3), core.read(8));
    assert_eq!(core.read(3), core.read(13));
    assert_eq!(core.read(3), marker);
}

#[test]
fn default_cell_is_dat() {
    let cell = Instruction::default();
    assert_eq!(cell.opcode, Opcode::DAT);
    assert_eq!(cell.modifier, Modifier::F);
    assert_eq!(cell.a_number, 0);
    assert_eq!(cell.b_number, 0);
    assert_eq!(Instruction::random(), cell);
}

#[test]
fn builder_rejects_zero_configuration() {
    let mut b = CoreBuilder::new();
    b.coresize(0);
    assert_eq!(b.build().err(), Some(ConfigError::InvalidConfiguration));

    let mut b = CoreBuilder::new();
    b.task_limit(0);
    assert_eq!(b.build().err(), Some(ConfigError::InvalidConfiguration));

    let mut b = CoreBuilder::new();
    b.read_limit(0);
    assert_eq!(b.build().err(), Some(ConfigError::InvalidConfiguration));

    let mut b = CoreBuilder::new();
    b.write_limit(0);
    assert_eq!(b.build().err(), Some(ConfigError::InvalidConfiguration));
}

#[test]
fn builder_defaults_run() {
    let mut c = CoreBuilder::new().build().unwrap();
    assert_eq!(c.cycle(), 0);
    assert_eq!(c.status(), MatchStatus::Running);
    assert_eq!(c.core.size(), 8192);
    // No warrior was seeded, so the first cycle ends the match as a draw.
    c.step();
    assert_eq!(c.status(), MatchStatus::Finished(Outcome::Draw));
}

#[test]
fn fold_exact_values() {
    let mut b = CoreBuilder::new();
    b.coresize(8000);
    b.read_limit(400);
    b.write_limit(400);
    let c = b.build().unwrap();
    // Residue below half the limit: kept as is.
    assert_eq!(c.fold(13, 400), 13);
    // Residue above half the limit: shifted to the far end of the core.
    assert_eq!(c.fold(397, 400), 397 + 8000 - 400);
    assert_eq!(c.fold(8397, 400), 397 + 8000 - 400);
}

#[test]
fn evaluate_predecrement() {
    let mut c = small_core(4, 100);
    c.core.write(3, insn(Opcode::DAT, Modifier::F, Mode::IMMEDIATE, 0, Mode::IMMEDIATE, 5));
    // `<3`: the direct pointer reaches cell 3, whose B-number is first
    // decremented to 4, then followed: fold(3 + 4, 8) = 7.
    let (rp, wp) = c.evaluate(0, Mode::PREDECREMENT, 3);
    assert_eq!((rp, wp), (7, 7));
    assert_eq!(c.cell(3).b_number, 4);
}

#[test]
fn add_ab_exact() {
    let mut c = small_core(4, 100);
    c.core.write(0, insn(Opcode::ADD, Modifier::AB, Mode::IMMEDIATE, 3, Mode::DIRECT, 1));
    c.core.write(1, insn(Opcode::DAT, Modifier::F, Mode::IMMEDIATE, 0, Mode::IMMEDIATE, 4));
    let oc = c.emi94(0, 0);
    assert_eq!(oc, StepOutcome::Continue(1));
    // AB: the A-value 3 lands on the B-target's B-number, modulo 8.
    assert_eq!(c.cell(1).b_number, 7);
    assert_eq!(c.cell(1).a_number, 0);
}

#[test]
fn add_wraps_modulo_core_size() {
    let mut c = small_core(4, 100);
    c.core.write(0, insn(Opcode::ADD, Modifier::AB, Mode::IMMEDIATE, 3, Mode::DIRECT, 1));
    c.core.write(1, insn(Opcode::DAT, Modifier::F, Mode::IMMEDIATE, 0, Mode::IMMEDIATE, 5));
    c.emi94(0, 0);
    assert_eq!(c.cell(1).b_number, 0);
}

#[test]
fn div_exact_and_div_zero_kills() {
    let mut c = small_core(4, 100);
    c.core.write(0, insn(Opcode::DIV, Modifier::AB, Mode::IMMEDIATE, 2, Mode::DIRECT, 1));
    c.core.write(1, insn(Opcode::DAT, Modifier::F, Mode::IMMEDIATE, 0, Mode::IMMEDIATE, 7));
    let oc = c.emi94(0, 0);
    assert_eq!(oc, StepOutcome::Continue(1));
    assert_eq!(c.cell(1).b_number, 3);

    // A zero divisor terminates the process instead.
    let mut c = small_core(4, 100);
    c.core.write(0, insn(Opcode::DIV, Modifier::AB, Mode::IMMEDIATE, 0, Mode::DIRECT, 1));
    let oc = c.emi94(0, 0);
    assert_eq!(oc, StepOutcome::Terminated);
}

#[test]
fn mov_i_copies_whole_cell() {
    let mut c = small_core(4, 100);
    let imp = insn(Opcode::MOV, Modifier::I, Mode::DIRECT, 0, Mode::DIRECT, 1);
    c.core.write(4, imp);
    let oc = c.emi94(0, 4);
    assert_eq!(oc, StepOutcome::Continue(5));
    assert_eq!(c.cell(5), imp);
}

#[test]
fn postincrement_commits_after_execution() {
    let mut c = small_core(4, 100);
    // `>1` on the A-operand: the B-number of cell 1 is followed first
    // (still 0), then incremented once the instruction is done.
    c.core.write(0, insn(Opcode::NOP, Modifier::B, Mode::POSTINCREMENT, 1, Mode::IMMEDIATE, 0));
    let oc = c.emi94(0, 0);
    assert_eq!(oc, StepOutcome::Continue(1));
    assert_eq!(c.cell(1).b_number, 1);
}

#[test]
fn dat_terminates_process() {
    let mut c = small_core(2, 100);
    // Warrior 0 runs a DAT; warrior 1 sits on a NOP.
    c.core.write(4, insn(Opcode::NOP, Modifier::B, Mode::IMMEDIATE, 0, Mode::IMMEDIATE, 0));
    c.queue(0, 0);
    c.queue(1, 4);
    assert_eq!(c.task_count(0), 1);
    c.step();
    // The head was removed and nothing re-enqueued.
    assert_eq!(c.task_count(0), 0);
    assert_eq!(c.task_count(1), 1);
}

#[test]
fn spl_enqueues_two() {
    let mut c = small_core(3, 100);
    c.core.write(0, insn(Opcode::SPL, Modifier::B, Mode::DIRECT, 2, Mode::IMMEDIATE, 0));
    c.core.write(4, insn(Opcode::NOP, Modifier::B, Mode::IMMEDIATE, 0, Mode::IMMEDIATE, 0));
    c.queue(0, 0);
    c.queue(1, 4);
    assert_eq!(c.task_count(0), 1);
    c.step();
    // One head removed, two tails appended: net one more process.
    assert_eq!(c.task_count(0), 2);
}

#[test]
fn spl_respects_capacity() {
    let mut c = small_core(1, 100);
    c.core.write(0, insn(Opcode::SPL, Modifier::B, Mode::DIRECT, 2, Mode::IMMEDIATE, 0));
    c.core.write(4, insn(Opcode::NOP, Modifier::B, Mode::IMMEDIATE, 0, Mode::IMMEDIATE, 0));
    c.queue(0, 0);
    c.queue(1, 4);
    c.step();
    // With capacity 1 only the first continuation fits.
    assert_eq!(c.task_count(0), 1);
}

#[test]
fn div_zero_match_still_finishes_with_winner() {
    let mut c = small_core(2, 1000);
    // Warrior 0 divides by a resolved zero and dies; warrior 1 loops.
    c.core.write(0, insn(Opcode::DIV, Modifier::F, Mode::IMMEDIATE, 0, Mode::IMMEDIATE, 1));
    c.core.write(4, insn(Opcode::JMP, Modifier::B, Mode::DIRECT, 0, Mode::IMMEDIATE, 0));
    c.queue(0, 0);
    c.queue(1, 4);
    let outcome = c.run();
    assert_eq!(outcome, Outcome::Winner(1));
}

#[test]
fn scenario_dat_loses_immediately() {
    let mut c = small_core(1, 1000);
    // Warrior A at 0: a single DAT 0,0. Warrior B at 4: MOV 0,1 copying
    // itself forward in a loop.
    c.core.write(4, insn(Opcode::MOV, Modifier::I, Mode::DIRECT, 0, Mode::DIRECT, 1));
    c.queue(0, 0);
    c.queue(1, 4);
    c.step();
    assert_eq!(c.cycle(), 1);
    assert_eq!(c.task_count(0), 0);
    let outcome = c.run();
    assert_eq!(outcome, Outcome::Winner(1));
}

#[test]
fn scenario_two_nops_draw_at_cycle_limit() {
    // A NOP-filled arena, so that each warrior's single NOP continues
    // into further NOPs and nobody dies before the budget runs out.
    let nop = insn(Opcode::NOP, Modifier::B, Mode::IMMEDIATE, 0, Mode::IMMEDIATE, 0);
    let mut b = CoreBuilder::new();
    b.coresize(8);
    b.read_limit(8);
    b.write_limit(8);
    b.task_limit(1);
    b.cycle_limit(10);
    b.initial_instruction(InitialInstruction::Instruction(nop));
    let mut c = b.build().unwrap();
    c.queue(0, 0);
    c.queue(1, 4);
    for _ in 0..10 {
        assert_eq!(c.status(), MatchStatus::Running);
        c.step();
        assert_eq!(c.task_count(0), 1);
        assert_eq!(c.task_count(1), 1);
    }
    assert_eq!(c.cycle(), 10);
    let outcome = c.run();
    assert_eq!(outcome, Outcome::Draw);
    assert_eq!(c.cycle(), 10);
}

#[test]
fn determinism_identical_runs() {
    let build = || {
        let mut c = small_core(4, 50);
        c.core.write(0, insn(Opcode::SPL, Modifier::B, Mode::DIRECT, 2, Mode::IMMEDIATE, 0));
        c.core.write(2, insn(Opcode::ADD, Modifier::AB, Mode::IMMEDIATE, 3, Mode::DIRECT, 1));
        c.core.write(4, insn(Opcode::MOV, Modifier::I, Mode::DIRECT, 0, Mode::DIRECT, 1));
        c.queue(0, 0);
        c.queue(1, 4);
        c
    };
    let mut x = build();
    let mut y = build();
    loop {
        for addr in 0..8 {
            assert_eq!(x.cell(addr), y.cell(addr));
        }
        assert_eq!(x.status(), y.status());
        if x.status() != MatchStatus::Running {
            break;
        }
        x.step();
        y.step();
    }
}

#[test]
fn pspace_store_and_load() {
    let mut c = small_core(4, 100);
    // STP.AB stores the A-value 5 into the P-space cell picked by the
    // B-target's B-number; LDP.AB then loads it back into a core cell.
    c.core.write(0, insn(Opcode::STP, Modifier::AB, Mode::IMMEDIATE, 5, Mode::DIRECT, 1));
    c.core.write(1, insn(Opcode::DAT, Modifier::F, Mode::IMMEDIATE, 0, Mode::IMMEDIATE, 2));
    c.core.write(3, insn(Opcode::LDP, Modifier::AB, Mode::IMMEDIATE, 2, Mode::DIRECT, 1));
    c.core.write(4, insn(Opcode::DAT, Modifier::F, Mode::IMMEDIATE, 0, Mode::IMMEDIATE, 0));
    assert_eq!(c.emi94(0, 0), StepOutcome::Continue(1));
    assert_eq!(c.emi94(0, 3), StepOutcome::Continue(4));
    // The value 5 went through warrior 0's P-space cell 2 into cell 4.
    assert_eq!(c.cell(4).b_number, 5);
    // The other warrior's P-space is private: the same load for warrior
    // 1 sees a blank cell.
    let mut d = small_core(4, 100);
    d.core.write(3, insn(Opcode::LDP, Modifier::AB, Mode::IMMEDIATE, 2, Mode::DIRECT, 1));
    d.core.write(4, insn(Opcode::DAT, Modifier::F, Mode::IMMEDIATE, 0, Mode::IMMEDIATE, 7));
    assert_eq!(d.emi94(1, 3), StepOutcome::Continue(4));
    assert_eq!(d.cell(4).b_number, 0);
}

#[test]
fn jmz_and_skip_opcodes() {
    let mut c = small_core(4, 100);
    // JMZ $3, $1: cell 1 is blank, so the selected fields are zero and
    // the jump is taken.
    c.core.write(0, insn(Opcode::JMZ, Modifier::F, Mode::DIRECT, 3, Mode::DIRECT, 1));
    assert_eq!(c.emi94(0, 0), StepOutcome::Continue(3));
    // SEQ #1, $2 compares unequal fields: no skip.
    c.core.write(5, insn(Opcode::SEQ, Modifier::AB, Mode::IMMEDIATE, 1, Mode::DIRECT, 2));
    assert_eq!(c.emi94(0, 5), StepOutcome::Continue(6));
    // SLT #1, $2: 1 is less than the B-target's B-number 3: skip.
    c.core.write(6, insn(Opcode::SLT, Modifier::AB, Mode::IMMEDIATE, 1, Mode::DIRECT, 2));
    c.core.write(0, insn(Opcode::DAT, Modifier::F, Mode::IMMEDIATE, 0, Mode::IMMEDIATE, 3));
    assert_eq!(c.emi94(0, 6), StepOutcome::Continue(0));
}

#[test]
fn sub_mul_mod_exact() {
    let mut c = small_core(4, 100);
    c.core.write(0, insn(Opcode::SUB, Modifier::AB, Mode::IMMEDIATE, 3, Mode::DIRECT, 1));
    c.core.write(1, insn(Opcode::DAT, Modifier::F, Mode::IMMEDIATE, 0, Mode::IMMEDIATE, 1));
    c.emi94(0, 0);
    // 1 - 3 wraps to 6 modulo 8.
    assert_eq!(c.cell(1).b_number, 6);

    let mut c = small_core(4, 100);
    c.core.write(0, insn(Opcode::MUL, Modifier::AB, Mode::IMMEDIATE, 3, Mode::DIRECT, 1));
    c.core.write(1, insn(Opcode::DAT, Modifier::F, Mode::IMMEDIATE, 0, Mode::IMMEDIATE, 5));
    c.emi94(0, 0);
    // 5 * 3 = 15 wraps to 7 modulo 8.
    assert_eq!(c.cell(1).b_number, 7);

    let mut c = small_core(4, 100);
    c.core.write(0, insn(Opcode::MOD, Modifier::AB, Mode::IMMEDIATE, 3, Mode::DIRECT, 1));
    c.core.write(1, insn(Opcode::DAT, Modifier::F, Mode::IMMEDIATE, 0, Mode::IMMEDIATE, 7));
    c.emi94(0, 0);
    assert_eq!(c.cell(1).b_number, 1);
}

#[test]
fn mov_x_swaps_fields() {
    let mut c = small_core(4, 100);
    c.core.write(0, insn(Opcode::MOV, Modifier::X, Mode::DIRECT, 2, Mode::DIRECT, 1));
    c.core.write(2, insn(Opcode::DAT, Modifier::F, Mode::IMMEDIATE, 3, Mode::IMMEDIATE, 5));
    c.emi94(0, 0);
    // X crosses the fields: the source's A-number lands on the target's
    // B-number and the source's B-number on the target's A-number.
    assert_eq!(c.cell(1).a_number, 5);
    assert_eq!(c.cell(1).b_number, 3);
}

#[test]
fn jmn_branches_on_nonzero() {
    let mut c = small_core(4, 100);
    c.core.write(0, insn(Opcode::JMN, Modifier::B, Mode::DIRECT, 3, Mode::DIRECT, 1));
    // Cell 1 is blank: no branch.
    assert_eq!(c.emi94(0, 0), StepOutcome::Continue(1));
    c.core.write(1, insn(Opcode::DAT, Modifier::F, Mode::IMMEDIATE, 0, Mode::IMMEDIATE, 2));
    assert_eq!(c.emi94(0, 0), StepOutcome::Continue(3));
}

#[test]
fn evaluate_indirect() {
    let mut c = small_core(4, 100);
    c.core.write(2, insn(Opcode::DAT, Modifier::F, Mode::IMMEDIATE, 0, Mode::IMMEDIATE, 3));
    // `@2`: follow the B-number of cell 2 and re-fold: 2 + 3 = 5.
    let (rp, wp) = c.evaluate(0, Mode::INDIRECT, 2);
    assert_eq!((rp, wp), (5, 5));
    // Plain indirection mutates nothing.
    assert_eq!(c.cell(2).b_number, 3);
}

#[test]
fn queue_normalizes_seeded_addresses() {
    let mut c = small_core(2, 100);
    let nop = insn(Opcode::NOP, Modifier::B, Mode::IMMEDIATE, 0, Mode::IMMEDIATE, 0);
    c.core.write(5, nop);
    c.core.write(4, nop);
    // 13 wraps to 5 in a core of size 8.
    c.queue(0, 13);
    c.queue(1, 4);
    c.step();
    // The NOP at 5 ran, so warrior 0 lives on at 6.
    assert_eq!(c.task_count(0), 1);
}

#[test]
fn djn_decrements_and_branches() {
    let mut c = small_core(4, 100);
    c.core.write(0, insn(Opcode::DJN, Modifier::B, Mode::DIRECT, 3, Mode::DIRECT, 1));
    c.core.write(1, insn(Opcode::DAT, Modifier::F, Mode::IMMEDIATE, 0, Mode::IMMEDIATE, 2));
    // 2 decrements to 1, nonzero: branch taken.
    assert_eq!(c.emi94(0, 0), StepOutcome::Continue(3));
    assert_eq!(c.cell(1).b_number, 1);
    // 1 decrements to 0: fall through.
    assert_eq!(c.emi94(0, 0), StepOutcome::Continue(1));
    assert_eq!(c.cell(1).b_number, 0);
}
