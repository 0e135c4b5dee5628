//! The executable engine: core memory, task queues, the operand
//! resolver, the instruction executor, the match scheduler, and the
//! builder that assembles a configured match. Every function is proved
//! to follow the model in `semantics`.

use vstd::prelude::*;
use crate::redcode::{Address, Instruction, Mode, Modifier, Opcode};
use crate::semantics::{
    CoreView, MatchStatus, Outcome, StepOutcome, arith_cell_spec, arith_dies, arith_val,
    commit_pip, dispatch_spec, djn_dec_cell, enq_spec, eq_sel, fold_spec, is_zero_sel, lt_sel,
    mov_cell_spec, norm_cell, resolve_spec, run_spec, run_measure, lemma_sched_step_measure,
    sched_step_spec, step_ira, step_irb, step_spec, with_b,
};

verus! {

/// A value already below the modulus is its own remainder.
proof fn lemma_small(x: int, m: int)
    requires
        0 <= x < m,
    ensures
        x % m == x,
{
    vstd::arithmetic::div_mod::lemma_small_mod(x as nat, m as nat);
}

/// `(a + b) % m`, exact over the mathematical integers.
fn add_mod(a: Address, b: Address, m: Address) -> (r: Address)
    requires
        m >= 1,
    ensures
        r as int == (a as int + b as int) % (m as int),
        r < m,
{
    let wide: u64 = ((a as u64) + (b as u64)) % (m as u64);
    wide as u32
}

/// `(x + m - 1) % m`: a decrement modulo `m`.
fn dec_mod(x: Address, m: Address) -> (r: Address)
    requires
        m >= 1,
    ensures
        r as int == (x as int + m as int - 1) % (m as int),
        r < m,
{
    let wide: u64 = ((x as u64) + (m as u64) - 1) % (m as u64);
    wide as u32
}

/// `fold_spec(a + b, limit, size)`, for sums too large for one word.
fn fold_sum(a: Address, b: Address, limit: Address, size: Address) -> (r: Address)
    requires
        1 <= limit <= size,
    ensures
        r as int == fold_spec(a as int + b as int, limit as int, size as int),
        r < size,
{
    let mut result: u32 = (((a as u64) + (b as u64)) % (limit as u64)) as u32;
    if result > limit / 2 {
        result += size - limit;
    }
    result
}

/// The fill policy of a freshly built core: every cell gets the default
/// instruction, one draw of the entropy source, or a fixed caller-chosen
/// instruction.
#[derive(Clone, Copy, Debug)]
pub enum InitialInstruction {
    Default,
    Random,
    Instruction(Instruction),
}

/// The shared circular memory: exactly `size` cells, every access taken
/// modulo `size`, every stored cell normalized (both numbers reduced
/// modulo `size`).
pub struct CoreMemory {
    pub size: Address,
    pub cells: Vec<Instruction>,
}

impl CoreMemory {
    /// The memory owns one cell per address and every cell is normalized.
    pub open spec fn wf(&self) -> bool {
        &&& self.size >= 1
        &&& self.cells@.len() == self.size as int
        &&& forall|i: int|
            0 <= i < self.cells@.len() ==> (#[trigger] self.cells@[i]).a_number < self.size
                && self.cells@[i].b_number < self.size
    }

    /// A freshly built memory of `size` cells, each drawn from the fill
    /// policy: the default cell, one draw of the entropy source per cell,
    /// or a caller-supplied cell stored in normalized form.
    pub fn new(size: Address, initial_instruction: InitialInstruction) -> (m: CoreMemory)
        requires
            size >= 1,
        ensures
            m.wf(),
            m.size == size,
            m.cells@.len() == size as int,
            forall|i: int|
                0 <= i < size as int ==> #[trigger] m.cells@[i] == fill_cell_spec(
                    initial_instruction,
                    size as int,
                ),
    {
        let mut cells: Vec<Instruction> = Vec::new();
        let mut k: u32 = 0;
        while k < size
            invariant
                k <= size,
                size >= 1,
                cells@.len() == k as int,
                forall|i: int|
                    0 <= i < k as int ==> #[trigger] cells@[i] == fill_cell_spec(
                        initial_instruction,
                        size as int,
                    ),
            decreases size - k,
        {
            let cell = match initial_instruction {
                InitialInstruction::Default => Instruction::default(),
                InitialInstruction::Random => Instruction::random(),
                InitialInstruction::Instruction(insn) => Instruction {
                    a_number: insn.a_number % size,
                    b_number: insn.b_number % size,
                    ..insn
                },
            };
            cells.push(cell);
            k += 1;
        }
        CoreMemory { size, cells }
    }

    /// How many cells the memory owns.
    pub fn size(&self) -> (r: Address)
        ensures
            r == self.size,
    {
        self.size
    }

    /// The cell at `addr`, taken modulo the size: the memory is a torus,
    /// there is no out-of-bounds address.
    pub fn read(&self, addr: Address) -> (r: Instruction)
        requires
            self.wf(),
        ensures
            r == self.cells@[addr as int % self.size as int],
    {
        self.cells[(addr % self.size) as usize]
    }

    /// Store `insn` at `addr` modulo the size, in normalized form.
    pub fn write(&mut self, addr: Address, insn: Instruction)
        requires
            old(self).wf(),
        ensures
            final(self).wf(),
            final(self).size == old(self).size,
            final(self).cells@ == old(self).cells@.update(
                addr as int % old(self).size as int,
                norm_cell(insn, old(self).size as int),
            ),
    {
        let cell = Instruction {
            a_number: insn.a_number % self.size,
            b_number: insn.b_number % self.size,
            ..insn
        };
        let idx = (addr % self.size) as usize;
        self.cells.set(idx, cell);
    }
}

/// The fill policy's cell for one address: the builder's three policies
/// all draw a normalized cell.
pub open spec fn fill_cell_spec(init: InitialInstruction, size: int) -> Instruction {
    match init {
        InitialInstruction::Default => crate::redcode::default_cell(),
        InitialInstruction::Random => crate::redcode::default_cell(),
        InitialInstruction::Instruction(insn) => norm_cell(insn, size),
    }
}

/// One warrior's bounded FIFO of pending process program counters;
/// FIFO order is scheduling order.
pub struct TaskQueue {
    pub task_limit: usize,
    pub task_pointer: Vec<Address>,
}

impl TaskQueue {
    /// The queue never holds more than its capacity.
    pub open spec fn wf(&self) -> bool {
        self.task_pointer@.len() <= self.task_limit as int
    }

    /// An empty queue with the given capacity.
    pub fn new(limit: usize) -> (q: TaskQueue)
        ensures
            q.wf(),
            q.task_limit == limit,
            q.task_pointer@ == Seq::<u32>::empty(),
    {
        TaskQueue { task_limit: limit, task_pointer: Vec::new() }
    }

    /// Append at the tail; beyond capacity the address is silently
    /// dropped, which is the specified capacity policy, not an error.
    pub fn queue(&mut self, addr: Address)
        requires
            old(self).wf(),
        ensures
            final(self).wf(),
            final(self).task_limit == old(self).task_limit,
            final(self).task_pointer@ == enq_spec(
                old(self).task_pointer@,
                old(self).task_limit as int,
                addr,
            ),
    {
        if self.task_pointer.len() < self.task_limit {
            self.task_pointer.push(addr);
        }
    }

    /// Pop the head, or report the queue empty.
    pub fn next(&mut self) -> (r: Option<Address>)
        requires
            old(self).wf(),
        ensures
            final(self).wf(),
            final(self).task_limit == old(self).task_limit,
            old(self).task_pointer@.len() > 0 ==> r == Some(old(self).task_pointer@[0])
                && final(self).task_pointer@ == old(self).task_pointer@.drop_first(),
            old(self).task_pointer@.len() == 0 ==> r == None::<Address>
                && final(self).task_pointer@ == old(self).task_pointer@,
    {
        if self.task_pointer.len() > 0 {
            let head = self.task_pointer.remove(0);
            proof {
                assert(self.task_pointer@ =~= old(self).task_pointer@.drop_first());
            }
            Some(head)
        } else {
            None
        }
    }
}

/// Rejected engine configuration: a zero core size, read or write limit,
/// or task limit, caught when the match is built and never afterwards.
#[derive(Clone, Copy, Debug, PartialEq, Eq, Structural)]
pub enum ConfigError {
    InvalidConfiguration,
}

/// A configured match: the shared core, one task queue and one private
/// P-space per warrior, the addressing limits, and the scheduler state.
pub struct Core {
    pub core: CoreMemory,
    pub queue_a: TaskQueue,
    pub queue_b: TaskQueue,
    pub read_limit: Address,
    pub write_limit: Address,
    pub pspace_a: Vec<u32>,
    pub pspace_b: Vec<u32>,
    pub cycle: u64,
    pub cycle_limit: u64,
    pub next_warrior: usize,
    pub status: MatchStatus,
}

impl Core {
    /// Everything the engine relies on between cycles: a normalized core,
    /// bounded queues holding normalized addresses, limits within the
    /// core size, and one P-space cell per core address.
    pub open spec fn wf(&self) -> bool {
        &&& self.core.wf()
        &&& self.queue_a.wf()
        &&& self.queue_b.wf()
        &&& self.queue_a.task_limit == self.queue_b.task_limit
        &&& forall|i: int|
            0 <= i < self.queue_a.task_pointer@.len()
                ==> #[trigger] self.queue_a.task_pointer@[i] < self.core.size
        &&& forall|i: int|
            0 <= i < self.queue_b.task_pointer@.len()
                ==> #[trigger] self.queue_b.task_pointer@[i] < self.core.size
        &&& 1 <= self.read_limit <= self.core.size
        &&& 1 <= self.write_limit <= self.core.size
        &&& self.pspace_a@.len() == self.core.size as int
        &&& self.pspace_b@.len() == self.core.size as int
        &&& forall|i: int|
            0 <= i < self.pspace_a@.len() ==> #[trigger] self.pspace_a@[i] < self.core.size
        &&& forall|i: int|
            0 <= i < self.pspace_b@.len() ==> #[trigger] self.pspace_b@[i] < self.core.size
        &&& self.next_warrior < 2
    }

    /// The match state as the model sees it.
    pub open spec fn view_spec(&self) -> CoreView {
        CoreView {
            mem: self.core.cells@,
            pspace0: self.pspace_a@,
            pspace1: self.pspace_b@,
            q0: self.queue_a.task_pointer@,
            q1: self.queue_b.task_pointer@,
            task_limit: self.queue_a.task_limit as int,
            size: self.core.size as int,
            read_limit: self.read_limit as int,
            write_limit: self.write_limit as int,
            cycle: self.cycle as int,
            cycle_limit: self.cycle_limit as int,
            next: self.next_warrior as int,
            status: self.status,
        }
    }

    /// The fields two states share when only memory and P-space were
    /// touched: the configuration, the queues, and the scheduler state.
    pub open spec fn same_frame(a: Core, b: Core) -> bool {
        &&& a.core.size == b.core.size
        &&& a.queue_a == b.queue_a
        &&& a.queue_b == b.queue_b
        &&& a.read_limit == b.read_limit
        &&& a.write_limit == b.write_limit
        &&& a.cycle == b.cycle
        &&& a.cycle_limit == b.cycle_limit
        &&& a.next_warrior == b.next_warrior
        &&& a.status == b.status
    }

    /// `same_frame`, and neither P-space was touched either.
    pub open spec fn same_frame_mem(a: Core, b: Core) -> bool {
        &&& Core::same_frame(a, b)
        &&& a.pspace_a == b.pspace_a
        &&& a.pspace_b == b.pspace_b
    }

    /// Seed a process: append `task_pointer`, normalized modulo the core
    /// size, to the warrior's queue under the capacity-drop policy.
    pub fn queue(&mut self, warrior: usize, task_pointer: Address)
        requires
            old(self).wf(),
            warrior < 2,
        ensures
            final(self).wf(),
            Core::same_frame_queues(*old(self), *final(self)),
            warrior == 0 ==> final(self).queue_a.task_pointer@ == enq_spec(
                old(self).queue_a.task_pointer@,
                old(self).queue_a.task_limit as int,
                (task_pointer as int % old(self).core.size as int) as u32,
            ) && final(self).queue_b == old(self).queue_b,
            warrior == 1 ==> final(self).queue_b.task_pointer@ == enq_spec(
                old(self).queue_b.task_pointer@,
                old(self).queue_b.task_limit as int,
                (task_pointer as int % old(self).core.size as int) as u32,
            ) && final(self).queue_a == old(self).queue_a,
    {
        let tp = task_pointer % self.core.size;
        if warrior == 0 {
            self.queue_a.queue(tp);
        } else {
            self.queue_b.queue(tp);
        }
    }

    /// Everything but the two queues is shared unchanged.
    pub open spec fn same_frame_queues(a: Core, b: Core) -> bool {
        &&& a.core == b.core
        &&& a.queue_a.task_limit == b.queue_a.task_limit
        &&& a.queue_b.task_limit == b.queue_b.task_limit
        &&& a.read_limit == b.read_limit
        &&& a.write_limit == b.write_limit
        &&& a.pspace_a == b.pspace_a
        &&& a.pspace_b == b.pspace_b
        &&& a.cycle == b.cycle
        &&& a.cycle_limit == b.cycle_limit
        &&& a.next_warrior == b.next_warrior
        &&& a.status == b.status
    }

    /// The locality restriction: reduce the pointer by the limit,
    /// and map the upper half of the window onto the far end of the core.
    pub fn fold(&self, pointer: Address, limit: Address) -> (r: Address)
        requires
            self.wf(),
            1 <= limit <= self.core.size,
        ensures
            r as int == fold_spec(pointer as int, limit as int, self.core.size as int),
            r < self.core.size,
    {
        let mut result = pointer % limit;
        if result > limit / 2 {
            result += self.core.size - limit;
        }
        result
    }

    /// Resolve one operand at `pc`: the read and write pointers, with any
    /// pre-decrement applied to memory now and any post-increment handed
    /// back as the recorded cell index.
    fn resolve(&mut self, pc: Address, mode: Mode, number: Address) -> (r: (
        Address,
        Address,
        Option<Address>,
    ))
        requires
            old(self).wf(),
            pc < old(self).core.size,
        ensures
            final(self).wf(),
            Core::same_frame_mem(*old(self), *final(self)),
            ({
                let ro = resolve_spec(
                    old(self).core.cells@,
                    old(self).core.size as int,
                    old(self).read_limit as int,
                    old(self).write_limit as int,
                    pc as int,
                    mode,
                    number as int,
                );
                &&& r.0 as int == ro.rp
                &&& r.1 as int == ro.wp
                &&& final(self).core.cells@ == ro.mem
                &&& ro.pip == match r.2 {
                    Some(i) => Some(i as int),
                    None => None,
                }
                &&& match r.2 {
                    Some(i) => i < old(self).core.size,
                    None => true,
                }
            }),
            r.0 < old(self).core.size,
            r.1 < old(self).core.size,
    {
        let size = self.core.size;
        match mode {
            Mode::IMMEDIATE => (0, 0, None),
            Mode::DIRECT => {
                let rp = self.fold(number, self.read_limit);
                let wp = self.fold(number, self.write_limit);
                (rp, wp, None)
            },
            _ => {
                let rp0 = self.fold(number, self.read_limit);
                let wp0 = self.fold(number, self.write_limit);
                let iw = add_mod(pc, wp0, size);
                let mut pip: Option<Address> = None;
                if matches!(mode, Mode::PREDECREMENT) {
                    let cell = self.core.read(iw);
                    let nb = dec_mod(cell.b_number, size);
                    self.core.write(iw, Instruction { b_number: nb, ..cell });
                    proof {
                        lemma_small(iw as int, size as int);
                        lemma_small(cell.a_number as int, size as int);
                        lemma_small(nb as int, size as int);
                        assert(self.core.cells@ =~= old(self).core.cells@.update(
                            iw as int,
                            with_b(
                                old(self).core.cells@[iw as int],
                                (old(self).core.cells@[iw as int].b_number + size - 1) % (
                                size as int),
                            ),
                        ));
                    }
                }
                if matches!(mode, Mode::POSTINCREMENT) {
                    pip = Some(iw);
                }
                let ir_idx = add_mod(pc, rp0, size);
                proof {
                    lemma_small(ir_idx as int, size as int);
                    lemma_small(iw as int, size as int);
                }
                let b_read = self.core.read(ir_idx).b_number;
                let b_write = self.core.read(iw).b_number;
                let rp = fold_sum(rp0, b_read, self.read_limit, size);
                let wp = fold_sum(wp0, b_write, self.write_limit, size);
                (rp, wp, pip)
            },
        }
    }

    /// Resolve one operand for a caller that only needs the pointers; the
    /// pre-decrement side effect is applied exactly as in execution.
    pub fn evaluate(&mut self, pc: Address, mode: Mode, number: Address) -> (r: (
        Address,
        Address,
    ))
        requires
            old(self).wf(),
            pc < old(self).core.size,
        ensures
            final(self).wf(),
            Core::same_frame_mem(*old(self), *final(self)),
            ({
                let ro = resolve_spec(
                    old(self).core.cells@,
                    old(self).core.size as int,
                    old(self).read_limit as int,
                    old(self).write_limit as int,
                    pc as int,
                    mode,
                    number as int,
                );
                r.0 as int == ro.rp && r.1 as int == ro.wp && final(self).core.cells@ == ro.mem
            }),
    {
        let (rp, wp, _pip) = self.resolve(pc, mode, number);
        (rp, wp)
    }

    /// The acting warrior's P-space cell at `idx`.
    fn pspace_read(&self, warrior: usize, idx: Address) -> (r: u32)
        requires
            self.wf(),
            warrior < 2,
            idx < self.core.size,
        ensures
            warrior == 0 ==> r == self.pspace_a@[idx as int],
            warrior == 1 ==> r == self.pspace_b@[idx as int],
            r < self.core.size,
    {
        if warrior == 0 {
            self.pspace_a[idx as usize]
        } else {
            self.pspace_b[idx as usize]
        }
    }

    /// Store `v` into the acting warrior's P-space cell at `idx`.
    fn pspace_write(&mut self, warrior: usize, idx: Address, v: u32)
        requires
            old(self).wf(),
            warrior < 2,
            idx < old(self).core.size,
            v < old(self).core.size,
        ensures
            final(self).wf(),
            Core::same_frame(*old(self), *final(self)),
            final(self).core == old(self).core,
            warrior == 0 ==> final(self).pspace_a@ == old(self).pspace_a@.update(idx as int, v)
                && final(self).pspace_b == old(self).pspace_b,
            warrior == 1 ==> final(self).pspace_b@ == old(self).pspace_b@.update(idx as int, v)
                && final(self).pspace_a == old(self).pspace_a,
    {
        if warrior == 0 {
            self.pspace_a.set(idx as usize, v);
        } else {
            self.pspace_b.set(idx as usize, v);
        }
    }

    /// Commit one pending post-increment: bump the B-number of the
    /// recorded cell modulo the core size.
    fn bump(&mut self, i: Address)
        requires
            old(self).wf(),
            i < old(self).core.size,
        ensures
            final(self).wf(),
            Core::same_frame_mem(*old(self), *final(self)),
            final(self).core.cells@ == commit_pip(
                old(self).core.cells@,
                Some(i as int),
                old(self).core.size as int,
            ),
    {
        let size = self.core.size;
        let cell = self.core.read(i);
        let nb = add_mod(cell.b_number, 1, size);
        self.core.write(i, Instruction { b_number: nb, ..cell });
        proof {
            lemma_small(i as int, size as int);
            lemma_small(cell.a_number as int, size as int);
            lemma_small(nb as int, size as int);
            assert(self.core.cells@ =~= commit_pip(
                old(self).core.cells@,
                Some(i as int),
                size as int,
            ));
        }
    }
}

/// The cell MOV writes; follows `mov_cell_spec` exactly.
fn mov_cell(m: Modifier, ira: Instruction, t: Instruction) -> (r: Instruction)
    ensures
        r == mov_cell_spec(m, ira, t),
{
    match m {
        Modifier::A => Instruction { a_number: ira.a_number, ..t },
        Modifier::B => Instruction { b_number: ira.b_number, ..t },
        Modifier::AB => Instruction { b_number: ira.a_number, ..t },
        Modifier::BA => Instruction { a_number: ira.b_number, ..t },
        Modifier::F => Instruction { a_number: ira.a_number, b_number: ira.b_number, ..t },
        Modifier::X => Instruction { a_number: ira.b_number, b_number: ira.a_number, ..t },
        Modifier::I => ira,
    }
}

/// One arithmetic field combination, B-value first, reduced modulo the
/// core size; follows `arith_val` exactly.
fn arith_field(op: Opcode, x: u32, y: u32, size: u32) -> (r: u32)
    requires
        1 <= size,
        x < size,
        y < size,
        op == Opcode::ADD || op == Opcode::SUB || op == Opcode::MUL || op == Opcode::DIV
            || op == Opcode::MOD,
        (op == Opcode::DIV || op == Opcode::MOD) ==> y != 0,
    ensures
        r as int == arith_val(op, x as int, y as int, size as int),
        r < size,
{
    match op {
        Opcode::ADD => add_mod(x, y, size),
        Opcode::SUB => {
            let wide: u64 = ((x as u64) + (size as u64) - (y as u64)) % (size as u64);
            wide as u32
        },
        Opcode::MUL => {
            proof {
                assert((x as int) * (y as int) < 0x1_0000_0000_0000_0000) by (nonlinear_arith)
                    requires
                        0 <= (x as int),
                        (x as int) < 0x1_0000_0000,
                        0 <= (y as int),
                        (y as int) < 0x1_0000_0000,
                ;
            }
            let wide: u64 = ((x as u64) * (y as u64)) % (size as u64);
            wide as u32
        },
        Opcode::DIV => {
            proof {
                assert((x as int) / (y as int) <= x as int) by (nonlinear_arith)
                    requires
                        y as int >= 1,
                        x as int >= 0,
                ;
            }
            x / y
        },
        _ => x % y,
    }
}

/// The cell ADD/SUB/MUL/DIV/MOD writes, and whether the process dies;
/// follows `arith_cell_spec` and `arith_dies` exactly.
fn arith_cell(op: Opcode, m: Modifier, ira: Instruction, irb: Instruction, t: Instruction, size: u32)
    -> (r: (Instruction, bool))
    requires
        1 <= size,
        ira.a_number < size,
        ira.b_number < size,
        irb.a_number < size,
        irb.b_number < size,
        t.a_number < size,
        t.b_number < size,
        op == Opcode::ADD || op == Opcode::SUB || op == Opcode::MUL || op == Opcode::DIV
            || op == Opcode::MOD,
    ensures
        r.0 == arith_cell_spec(op, m, ira, irb, t, size as int),
        r.1 == arith_dies(op, m, ira),
        r.0.a_number < size,
        r.0.b_number < size,
{
    let guard = matches!(op, Opcode::DIV | Opcode::MOD);
    match m {
        Modifier::A => {
            let dies = guard && ira.a_number == 0;
            if dies {
                (t, true)
            } else {
                (
                    Instruction {
                        a_number: arith_field(op, irb.a_number, ira.a_number, size),
                        ..t
                    },
                    false,
                )
            }
        },
        Modifier::B => {
            let dies = guard && ira.b_number == 0;
            if dies {
                (t, true)
            } else {
                (
                    Instruction {
                        b_number: arith_field(op, irb.b_number, ira.b_number, size),
                        ..t
                    },
                    false,
                )
            }
        },
        Modifier::AB => {
            let dies = guard && ira.a_number == 0;
            if dies {
                (t, true)
            } else {
                (
                    Instruction {
                        b_number: arith_field(op, irb.b_number, ira.a_number, size),
                        ..t
                    },
                    false,
                )
            }
        },
        Modifier::BA => {
            let dies = guard && ira.b_number == 0;
            if dies {
                (t, true)
            } else {
                (
                    Instruction {
                        a_number: arith_field(op, irb.a_number, ira.b_number, size),
                        ..t
                    },
                    false,
                )
            }
        },
        Modifier::X => {
            let t1 = if guard && ira.b_number == 0 {
                t
            } else {
                Instruction { a_number: arith_field(op, irb.a_number, ira.b_number, size), ..t }
            };
            let t2 = if guard && ira.a_number == 0 {
                t1
            } else {
                Instruction { b_number: arith_field(op, irb.b_number, ira.a_number, size), ..t1 }
            };
            (t2, guard && (ira.a_number == 0 || ira.b_number == 0))
        },
        _ => {
            let t1 = if guard && ira.a_number == 0 {
                t
            } else {
                Instruction { a_number: arith_field(op, irb.a_number, ira.a_number, size), ..t }
            };
            let t2 = if guard && ira.b_number == 0 {
                t1
            } else {
                Instruction { b_number: arith_field(op, irb.b_number, ira.b_number, size), ..t1 }
            };
            (t2, guard && (ira.a_number == 0 || ira.b_number == 0))
        },
    }
}

/// The JMZ/JMN/DJN zero test on the selected fields; follows
/// `is_zero_sel` exactly.
fn is_zero_sel_x(m: Modifier, c: Instruction) -> (r: bool)
    ensures
        r == is_zero_sel(m, c),
{
    match m {
        Modifier::A | Modifier::BA => c.a_number == 0,
        Modifier::B | Modifier::AB => c.b_number == 0,
        _ => c.a_number == 0 && c.b_number == 0,
    }
}

/// The CMP/SEQ/SNE equality test on the selected fields; follows
/// `eq_sel` exactly.
fn eq_sel_x(m: Modifier, ira: Instruction, irb: Instruction) -> (r: bool)
    ensures
        r == eq_sel(m, ira, irb),
{
    match m {
        Modifier::A => ira.a_number == irb.a_number,
        Modifier::B => ira.b_number == irb.b_number,
        Modifier::AB => ira.a_number == irb.b_number,
        Modifier::BA => ira.b_number == irb.a_number,
        Modifier::F => ira.a_number == irb.a_number && ira.b_number == irb.b_number,
        Modifier::X => ira.a_number == irb.b_number && ira.b_number == irb.a_number,
        Modifier::I => ira == irb,
    }
}

/// The SLT order test on the selected fields; follows `lt_sel` exactly.
fn lt_sel_x(m: Modifier, ira: Instruction, irb: Instruction) -> (r: bool)
    ensures
        r == lt_sel(m, ira, irb),
{
    match m {
        Modifier::A => ira.a_number < irb.a_number,
        Modifier::B => ira.b_number < irb.b_number,
        Modifier::AB => ira.a_number < irb.b_number,
        Modifier::BA => ira.b_number < irb.a_number,
        Modifier::X => ira.a_number < irb.b_number && ira.b_number < irb.a_number,
        _ => ira.a_number < irb.a_number && ira.b_number < irb.b_number,
    }
}

impl Core {
    /// The data effect and control outcome of the opcode table, after
    /// both operands were resolved and read: `wb` is the absolute
    /// B-write index, `next`, `skip` and `jump` the normalized
    /// continuation addresses.
    fn dispatch(
        &mut self,
        warrior: usize,
        op: Opcode,
        m: Modifier,
        ira: Instruction,
        irb: Instruction,
        wb: Address,
        next: Address,
        skip: Address,
        jump: Address,
    ) -> (r: StepOutcome)
        requires
            old(self).wf(),
            warrior < 2,
            wb < old(self).core.size,
            ira.a_number < old(self).core.size,
            ira.b_number < old(self).core.size,
            irb.a_number < old(self).core.size,
            irb.b_number < old(self).core.size,
        ensures
            final(self).wf(),
            Core::same_frame(*old(self), *final(self)),
            ({
                let d = dispatch_spec(
                    op,
                    m,
                    ira,
                    irb,
                    old(self).core.cells@,
                    if warrior == 0 {
                        old(self).pspace_a@
                    } else {
                        old(self).pspace_b@
                    },
                    wb as int,
                    old(self).core.size as int,
                    next,
                    skip,
                    jump,
                );
                &&& final(self).core.cells@ == d.mem
                &&& (warrior == 0 ==> final(self).pspace_a@ == d.pspace && final(self).pspace_b
                    == old(self).pspace_b)
                &&& (warrior == 1 ==> final(self).pspace_b@ == d.pspace && final(self).pspace_a
                    == old(self).pspace_a)
                &&& r == d.outcome
            }),
            match r {
                StepOutcome::Terminated => true,
                StepOutcome::Continue(a) => a == next || a == skip || a == jump,
                StepOutcome::Split(a, b) => a == next && b == jump,
            },
    {
        let size = self.core.size;
        proof {
            lemma_small(wb as int, size as int);
        }
        match op {
            Opcode::DAT => StepOutcome::Terminated,
            Opcode::MOV => {
                let t = self.core.read(wb);
                let nc = mov_cell(m, ira, t);
                proof {
                    lemma_small(nc.a_number as int, size as int);
                    lemma_small(nc.b_number as int, size as int);
                    assert(norm_cell(nc, size as int) == nc);
                }
                self.core.write(wb, nc);
                StepOutcome::Continue(next)
            },
            Opcode::ADD | Opcode::SUB | Opcode::MUL | Opcode::DIV | Opcode::MOD => {
                let t = self.core.read(wb);
                let (nc, died) = arith_cell(op, m, ira, irb, t, size);
                proof {
                    lemma_small(nc.a_number as int, size as int);
                    lemma_small(nc.b_number as int, size as int);
                    assert(norm_cell(nc, size as int) == nc);
                }
                self.core.write(wb, nc);
                if died {
                    StepOutcome::Terminated
                } else {
                    StepOutcome::Continue(next)
                }
            },
            Opcode::JMP => StepOutcome::Continue(jump),
            Opcode::JMZ => {
                if is_zero_sel_x(m, irb) {
                    StepOutcome::Continue(jump)
                } else {
                    StepOutcome::Continue(next)
                }
            },
            Opcode::JMN => {
                if !is_zero_sel_x(m, irb) {
                    StepOutcome::Continue(jump)
                } else {
                    StepOutcome::Continue(next)
                }
            },
            Opcode::DJN => {
                let t = self.core.read(wb);
                let d = djn_dec(m, t, size);
                proof {
                    lemma_small(d.a_number as int, size as int);
                    lemma_small(d.b_number as int, size as int);
                    assert(norm_cell(d, size as int) == d);
                }
                self.core.write(wb, d);
                if !is_zero_sel_x(m, d) {
                    StepOutcome::Continue(jump)
                } else {
                    StepOutcome::Continue(next)
                }
            },
            Opcode::CMP | Opcode::SEQ => {
                if eq_sel_x(m, ira, irb) {
                    StepOutcome::Continue(skip)
                } else {
                    StepOutcome::Continue(next)
                }
            },
            Opcode::SNE => {
                if !eq_sel_x(m, ira, irb) {
                    StepOutcome::Continue(skip)
                } else {
                    StepOutcome::Continue(next)
                }
            },
            Opcode::SLT => {
                if lt_sel_x(m, ira, irb) {
                    StepOutcome::Continue(skip)
                } else {
                    StepOutcome::Continue(next)
                }
            },
            Opcode::SPL => StepOutcome::Split(next, jump),
            Opcode::NOP => StepOutcome::Continue(next),
            Opcode::LDP => {
                let idx = match m {
                    Modifier::A | Modifier::AB => ira.a_number,
                    _ => ira.b_number,
                };
                let v = self.pspace_read(warrior, idx);
                let t = self.core.read(wb);
                let nc = match m {
                    Modifier::A | Modifier::BA => Instruction { a_number: v, ..t },
                    _ => Instruction { b_number: v, ..t },
                };
                proof {
                    lemma_small(nc.a_number as int, size as int);
                    lemma_small(nc.b_number as int, size as int);
                    assert(norm_cell(nc, size as int) == nc);
                }
                self.core.write(wb, nc);
                StepOutcome::Continue(next)
            },
            Opcode::STP => {
                let idx = match m {
                    Modifier::A | Modifier::BA => irb.a_number,
                    _ => irb.b_number,
                };
                let v = match m {
                    Modifier::A | Modifier::AB => ira.a_number,
                    _ => ira.b_number,
                };
                self.pspace_write(warrior, idx, v);
                StepOutcome::Continue(next)
            },
        }
    }

    /// Execute the instruction at `pc` for the acting warrior, exactly
    /// as `step_spec` describes: resolve both operands (pre-decrements
    /// applied at once), read the A- and B-instructions, dispatch on the
    /// opcode, then commit pending post-increments, A-operand first.
    /// Returns the control outcome for the scheduler; every continuation
    /// address is already normalized.
    pub fn emi94(&mut self, warrior: usize, pc: Address) -> (r: StepOutcome)
        requires
            old(self).wf(),
            warrior < 2,
            pc < old(self).core.size,
        ensures
            final(self).wf(),
            Core::same_frame(*old(self), *final(self)),
            ({
                let sr = step_spec(
                    old(self).core.cells@,
                    if warrior == 0 {
                        old(self).pspace_a@
                    } else {
                        old(self).pspace_b@
                    },
                    old(self).core.size as int,
                    old(self).read_limit as int,
                    old(self).write_limit as int,
                    pc as int,
                );
                &&& final(self).core.cells@ == sr.mem
                &&& (warrior == 0 ==> final(self).pspace_a@ == sr.pspace && final(self).pspace_b
                    == old(self).pspace_b)
                &&& (warrior == 1 ==> final(self).pspace_b@ == sr.pspace && final(self).pspace_a
                    == old(self).pspace_a)
                &&& r == sr.outcome
            }),
            match r {
                StepOutcome::Terminated => true,
                StepOutcome::Continue(a) => a < old(self).core.size,
                StepOutcome::Split(a, b) => a < old(self).core.size && b < old(self).core.size,
            },
    {
        let ghost m0 = self.core.cells@;
        let ghost ps0 = if warrior == 0 {
            self.pspace_a@
        } else {
            self.pspace_b@
        };
        let size = self.core.size;
        proof {
            lemma_small(pc as int, size as int);
        }
        let ir = self.core.read(pc);
        let (rpa, _wpa, pip_a) = self.resolve(pc, ir.a_mode, ir.a_number);
        let (rpb, wpb, pip_b) = self.resolve(pc, ir.b_mode, ir.b_number);
        let ia_idx = add_mod(pc, rpa, size);
        let ib_idx = add_mod(pc, rpb, size);
        proof {
            lemma_small(ia_idx as int, size as int);
            lemma_small(ib_idx as int, size as int);
        }
        let ira = self.core.read(ia_idx);
        let irb = self.core.read(ib_idx);
        let wb = add_mod(pc, wpb, size);
        let next = add_mod(pc, 1, size);
        let skip = add_mod(pc, 2, size);
        let jump = add_mod(pc, rpa, size);
        proof {
            let rlim = old(self).read_limit as int;
            let wlim = old(self).write_limit as int;
            assert(ira == step_ira(m0, size as int, rlim, wlim, pc as int));
            assert(irb == step_irb(m0, size as int, rlim, wlim, pc as int));
        }
        let r = self.dispatch(warrior, ir.opcode, ir.modifier, ira, irb, wb, next, skip, jump);
        match pip_a {
            Some(i) => self.bump(i),
            None => (),
        }
        match pip_b {
            Some(i) => self.bump(i),
            None => (),
        }
        r
    }
}

impl Core {
    /// One scheduler cycle, exactly as `sched_step_spec` describes: a
    /// finished match is left alone; with no warrior alive the match is
    /// a draw, with one alive that warrior wins, with the cycle budget
    /// spent while both live it is a draw; otherwise the warrior the
    /// round-robin points at executes the head of its queue, its
    /// continuations are enqueued under the capacity policy, and the
    /// turn passes to the other warrior.
    pub fn step(&mut self)
        requires
            old(self).wf(),
        ensures
            final(self).wf(),
            final(self).view_spec() == sched_step_spec(old(self).view_spec()),
    {
        match self.status {
            MatchStatus::Finished(_) => {
                return;
            },
            MatchStatus::Running => {},
        }
        let a_alive = self.queue_a.task_pointer.len() > 0;
        let b_alive = self.queue_b.task_pointer.len() > 0;
        if !a_alive && !b_alive {
            self.status = MatchStatus::Finished(Outcome::Draw);
            return;
        }
        if !b_alive {
            self.status = MatchStatus::Finished(Outcome::Winner(0));
            return;
        }
        if !a_alive {
            self.status = MatchStatus::Finished(Outcome::Winner(1));
            return;
        }
        if self.cycle >= self.cycle_limit {
            self.status = MatchStatus::Finished(Outcome::Draw);
            return;
        }
        let w = self.next_warrior;
        let pc_opt = if w == 0 {
            self.queue_a.next()
        } else {
            self.queue_b.next()
        };
        let pc = match pc_opt {
            Some(p) => p,
            None => 0,
        };
        let oc = self.emi94(w, pc);
        match oc {
            StepOutcome::Terminated => {},
            StepOutcome::Continue(a) => {
                if w == 0 {
                    self.queue_a.queue(a);
                } else {
                    self.queue_b.queue(a);
                }
            },
            StepOutcome::Split(a, b) => {
                if w == 0 {
                    self.queue_a.queue(a);
                    self.queue_a.queue(b);
                } else {
                    self.queue_b.queue(a);
                    self.queue_b.queue(b);
                }
            },
        }
        self.cycle = self.cycle + 1;
        self.next_warrior = 1 - w;
        proof {
            assert(self.view_spec() =~= sched_step_spec(old(self).view_spec()));
        }
    }

    /// Drive the match to its end and hand back the outcome. The whole
    /// run is the pure function `run_spec` of the initial state.
    pub fn run(&mut self) -> (r: Outcome)
        requires
            old(self).wf(),
        ensures
            final(self).wf(),
            final(self).view_spec() == run_spec(old(self).view_spec()),
            final(self).status == MatchStatus::Finished(r),
    {
        loop
            invariant
                self.wf(),
                run_spec(old(self).view_spec()) == run_spec(self.view_spec()),
            decreases run_measure(self.view_spec()),
        {
            match self.status {
                MatchStatus::Finished(oc) => {
                    return oc;
                },
                MatchStatus::Running => {},
            }
            proof {
                lemma_sched_step_measure(self.view_spec());
                assert(run_spec(self.view_spec()) == run_spec(
                    sched_step_spec(self.view_spec()),
                ));
            }
            self.step();
        }
    }

    /// The scheduler's state: still running, or finished with whom.
    pub fn status(&self) -> (r: MatchStatus)
        ensures
            r == self.status,
    {
        self.status
    }

    /// The global cycle counter.
    pub fn cycle(&self) -> (r: u64)
        ensures
            r == self.cycle,
    {
        self.cycle
    }

    /// Snapshot one core cell, for observers; the address is taken
    /// modulo the core size.
    pub fn cell(&self, addr: Address) -> (r: Instruction)
        requires
            self.wf(),
        ensures
            r == self.core.cells@[addr as int % self.core.size as int],
    {
        self.core.read(addr)
    }

    /// Snapshot one warrior's queue length, for observers; the warrior
    /// is alive exactly when this is nonzero.
    pub fn task_count(&self, warrior: usize) -> (r: usize)
        requires
            warrior < 2,
        ensures
            warrior == 0 ==> r == self.queue_a.task_pointer@.len(),
            warrior == 1 ==> r == self.queue_b.task_pointer@.len(),
    {
        if warrior == 0 {
            self.queue_a.task_pointer.len()
        } else {
            self.queue_b.task_pointer.len()
        }
    }
}

/// A vector of `n` zeros: a warrior's P-space starts blank.
fn zero_vec(n: u32) -> (v: Vec<u32>)
    ensures
        v@.len() == n as int,
        forall|i: int| 0 <= i < n as int ==> #[trigger] v@[i] == 0u32,
{
    let mut v: Vec<u32> = Vec::new();
    let mut k: u32 = 0;
    while k < n
        invariant
            k <= n,
            v@.len() == k as int,
            forall|i: int| 0 <= i < k as int ==> #[trigger] v@[i] == 0u32,
        decreases n - k,
    {
        v.push(0);
        k += 1;
    }
    v
}

/// The match state a configuration builds: a freshly filled core, blank
/// P-spaces, empty queues, limits clamped to the core size, cycle zero,
/// the round-robin at warrior 0, and the match running.
pub open spec fn built_view(b: CoreBuilder) -> CoreView {
    let size = b.core_size as int;
    CoreView {
        mem: Seq::new(size as nat, |i: int| fill_cell_spec(b.initial_instruction, size)),
        pspace0: Seq::new(size as nat, |i: int| 0u32),
        pspace1: Seq::new(size as nat, |i: int| 0u32),
        q0: Seq::empty(),
        q1: Seq::empty(),
        task_limit: b.task_limit as int,
        size: size,
        read_limit: if b.read_limit as int <= size {
            b.read_limit as int
        } else {
            size
        },
        write_limit: if b.write_limit as int <= size {
            b.write_limit as int
        } else {
            size
        },
        cycle: 0,
        cycle_limit: b.cycle_limit as int,
        next: 0,
        status: MatchStatus::Running,
    }
}

/// The engine configuration, consumed when the match is built: core
/// size, fill policy, per-warrior task limit, read and write limits,
/// and the cycle budget.
pub struct CoreBuilder {
    pub core_size: u32,
    pub initial_instruction: InitialInstruction,
    pub task_limit: usize,
    pub read_limit: Address,
    pub write_limit: Address,
    pub cycle_limit: u64,
}

impl CoreBuilder {
    /// The default configuration: an 8192-cell core filled with the
    /// default cell, 64 tasks per warrior, both limits 300, and a cycle
    /// budget of 80000.
    pub fn new() -> (b: CoreBuilder)
        ensures
            b.core_size == 8192,
            b.initial_instruction is Default,
            b.task_limit == 64,
            b.read_limit == 300,
            b.write_limit == 300,
            b.cycle_limit == 80000,
    {
        CoreBuilder {
            core_size: 8192,
            initial_instruction: InitialInstruction::Default,
            task_limit: 64,
            read_limit: 300,
            write_limit: 300,
            cycle_limit: 80000,
        }
    }

    /// Choose the core size.
    pub fn coresize(&mut self, size: u32)
        ensures
            *final(self) == (CoreBuilder { core_size: size, ..*old(self) }),
    {
        self.core_size = size;
    }

    /// Choose the fill policy for the fresh core.
    pub fn initial_instruction(&mut self, insn: InitialInstruction)
        ensures
            *final(self) == (CoreBuilder { initial_instruction: insn, ..*old(self) }),
    {
        self.initial_instruction = insn;
    }

    /// Choose the per-warrior task limit.
    pub fn task_limit(&mut self, limit: usize)
        ensures
            *final(self) == (CoreBuilder { task_limit: limit, ..*old(self) }),
    {
        self.task_limit = limit;
    }

    /// Choose the read limit for indirect addressing.
    pub fn read_limit(&mut self, limit: Address)
        ensures
            *final(self) == (CoreBuilder { read_limit: limit, ..*old(self) }),
    {
        self.read_limit = limit;
    }

    /// Choose the write limit for indirect addressing.
    pub fn write_limit(&mut self, limit: Address)
        ensures
            *final(self) == (CoreBuilder { write_limit: limit, ..*old(self) }),
    {
        self.write_limit = limit;
    }

    /// Choose the cycle budget after which a still-contested match is a
    /// draw.
    pub fn cycle_limit(&mut self, limit: u64)
        ensures
            *final(self) == (CoreBuilder { cycle_limit: limit, ..*old(self) }),
    {
        self.cycle_limit = limit;
    }

    /// Assemble the match. A zero core size, task limit, read limit or
    /// write limit is the one configuration error, rejected here and
    /// never during a running match; limits above the core size are
    /// clamped to it.
    pub fn build(&self) -> (r: Result<Core, ConfigError>)
        ensures
            ({
                let ok = self.core_size >= 1 && self.task_limit >= 1 && self.read_limit >= 1
                    && self.write_limit >= 1;
                match r {
                    Ok(c) => ok && c.wf() && c.view_spec() == built_view(*self),
                    Err(e) => !ok && e == ConfigError::InvalidConfiguration,
                }
            }),
    {
        if self.core_size < 1 || self.task_limit < 1 || self.read_limit < 1 || self.write_limit
            < 1 {
            return Err(ConfigError::InvalidConfiguration);
        }
        let size = self.core_size;
        let rl = if self.read_limit <= size {
            self.read_limit
        } else {
            size
        };
        let wl = if self.write_limit <= size {
            self.write_limit
        } else {
            size
        };
        let c = Core {
            core: CoreMemory::new(size, self.initial_instruction),
            queue_a: TaskQueue::new(self.task_limit),
            queue_b: TaskQueue::new(self.task_limit),
            read_limit: rl,
            write_limit: wl,
            pspace_a: zero_vec(size),
            pspace_b: zero_vec(size),
            cycle: 0,
            cycle_limit: self.cycle_limit,
            next_warrior: 0,
            status: MatchStatus::Running,
        };
        proof {
            assert(c.view_spec() =~= built_view(*self));
        }
        Ok(c)
    }
}


/// The B-target cell after DJN's decrement; follows `djn_dec_cell`
/// exactly.
fn djn_dec(m: Modifier, t: Instruction, size: u32) -> (r: Instruction)
    requires
        1 <= size,
        t.a_number < size,
        t.b_number < size,
    ensures
        r == djn_dec_cell(m, t, size as int),
        r.a_number < size,
        r.b_number < size,
{
    match m {
        Modifier::A | Modifier::BA => Instruction { a_number: dec_mod(t.a_number, size), ..t },
        Modifier::B | Modifier::AB => Instruction { b_number: dec_mod(t.b_number, size), ..t },
        _ => Instruction {
            a_number: dec_mod(t.a_number, size),
            b_number: dec_mod(t.b_number, size),
            ..t
        },
    }
}

} // verus!
