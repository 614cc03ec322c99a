//! The mathematical model of the processor: an abstract state, the effect of
//! each instruction on it, and the fetch-decode-execute cycle.

use vstd::prelude::*;

use crate::vm::Instr;

verus! {

/// Number of instruction slots in one gene.
pub const GENE_SIZE: usize = 32;

/// Number of genes held by one cell.
pub const GENE_AMOUNT: usize = 16;

/// Number of program-counter bookmarks in a label table.
pub const LABEL_AMOUNT: usize = 4;

/// Capacity shared by the data stack and the call stack.
pub const STACK_CAPACITY: usize = 32;

/// Number of entries that survive a compaction: the newest half.
pub const STACK_HALF_CAPACITY: usize = 16;

/// A saved caller context: the gene, program counter and label table that a
/// return restores.
#[verifier::ext_equal]
pub struct Frame {
    pub gene_index: u8,
    pub pc: nat,
    pub labels: Seq<u8>,
}

/// The processor's state as mathematics. The stacks hold the live entries
/// only, bottom first.
#[verifier::ext_equal]
pub struct State {
    pub active: bool,
    pub gene_index: u8,
    pub pc: nat,
    pub labels: Seq<u8>,
    pub cond: bool,
    pub data: Seq<u8>,
    pub frames: Seq<Frame>,
}

impl Frame {
    /// The bounds every reachable frame satisfies: it names an existing gene,
    /// a program counter at most one past the gene's end, and label values
    /// that are themselves such program counters.
    pub open spec fn wf(self) -> bool {
        &&& self.gene_index < GENE_AMOUNT
        &&& self.pc <= GENE_SIZE
        &&& self.labels.len() == LABEL_AMOUNT
        &&& forall|i: int| 0 <= i < self.labels.len() ==> #[trigger] self.labels[i] <= GENE_SIZE
    }
}

impl State {
    /// The bounds every reachable state satisfies.
    pub open spec fn wf(self) -> bool {
        &&& self.gene_index < GENE_AMOUNT
        &&& self.pc <= GENE_SIZE
        &&& self.labels.len() == LABEL_AMOUNT
        &&& forall|i: int| 0 <= i < self.labels.len() ==> #[trigger] self.labels[i] <= GENE_SIZE
        &&& self.data.len() <= STACK_CAPACITY
        &&& self.frames.len() <= STACK_CAPACITY
        &&& forall|i: int| 0 <= i < self.frames.len() ==> (#[trigger] self.frames[i]).wf()
    }
}

/// Push onto a bounded stack: a stack at capacity first discards its oldest
/// half, keeping the newest entries in order, so a push never fails.
pub open spec fn compact_pushed<T>(s: Seq<T>, v: T) -> Seq<T> {
    if s.len() >= STACK_CAPACITY {
        s.subrange(STACK_HALF_CAPACITY as int, s.len() as int).push(v)
    } else {
        s.push(v)
    }
}

/// Pop never fails either: an empty stack stays empty.
pub open spec fn popped<T>(s: Seq<T>) -> Seq<T> {
    if s.len() == 0 {
        s
    } else {
        s.drop_last()
    }
}

/// The top of the stack, or the given default when it is empty.
pub open spec fn top_or<T>(s: Seq<T>, default: T) -> T {
    if s.len() == 0 {
        default
    } else {
        s.last()
    }
}

/// A label table with every bookmark at the gene's start.
pub open spec fn zero_labels() -> Seq<u8> {
    seq![0u8, 0u8, 0u8, 0u8]
}

/// The pristine state a processor starts in. Only the scheduling flag
/// survives a full reset.
pub open spec fn reset_state(s: State) -> State {
    State {
        active: s.active,
        gene_index: 0,
        pc: 0,
        labels: zero_labels(),
        cond: true,
        data: Seq::empty(),
        frames: Seq::empty(),
    }
}

/// The state of a freshly created processor.
pub open spec fn initial_state() -> State {
    State {
        active: true,
        gene_index: 0,
        pc: 0,
        labels: zero_labels(),
        cond: true,
        data: Seq::empty(),
        frames: Seq::empty(),
    }
}

pub open spec fn data_pushed(s: State, v: u8) -> State {
    State { data: compact_pushed(s.data, v), ..s }
}

/// What a pop of the data stack yields: the top value, or zero on underflow.
pub open spec fn data_top(s: State) -> u8 {
    top_or(s.data, 0u8)
}

pub open spec fn data_popped(s: State) -> State {
    State { data: popped(s.data), ..s }
}

/// Enter a gene: save the caller's context as a frame and start the target
/// gene at its top with a blank label table.
pub open spec fn called(s: State, target: u8) -> State {
    let f = Frame { gene_index: s.gene_index, pc: s.pc, labels: s.labels };
    State {
        gene_index: target,
        pc: 0,
        labels: zero_labels(),
        frames: compact_pushed(s.frames, f),
        ..s
    }
}

/// Leave the current gene: restore the topmost saved context, or perform a
/// full reset when no caller is left.
pub open spec fn returned(s: State) -> State {
    if s.frames.len() == 0 {
        reset_state(s)
    } else {
        let f = s.frames.last();
        State {
            gene_index: f.gene_index,
            pc: f.pc,
            labels: f.labels,
            frames: popped(s.frames),
            ..s
        }
    }
}

/// Addition modulo 256.
pub open spec fn wrapping_sum(a: u8, b: u8) -> u8 {
    ((a + b) % 256) as u8
}

/// Subtraction modulo 256.
pub open spec fn wrapping_diff(b: u8, a: u8) -> u8 {
    ((b - a) % 256) as u8
}

/// Multiplication modulo 256.
pub open spec fn wrapping_product(a: u8, b: u8) -> u8 {
    ((a * b) % 256) as u8
}

/// Division that yields zero on a zero divisor instead of trapping.
pub open spec fn safe_quotient(b: u8, a: u8) -> u8 {
    if a == 0 {
        0
    } else {
        (b / a) as u8
    }
}

pub open spec fn flag(b: bool) -> u8 {
    if b {
        1
    } else {
        0
    }
}

/// One instruction's effect on the state. A false predicate suppresses the
/// instruction, whatever its opcode, and is consumed by it.
pub open spec fn instr_step(i: Instr, s: State) -> State {
    if !s.cond {
        State { cond: true, ..s }
    } else {
        match i {
            Instr::Number(n) => data_pushed(s, n),
            Instr::Noop => s,
            Instr::Add => {
                let a = data_top(s);
                let s = data_popped(s);
                let b = data_top(s);
                let s = data_popped(s);
                data_pushed(s, wrapping_sum(a, b))
            },
            Instr::Sub => {
                let a = data_top(s);
                let s = data_popped(s);
                let b = data_top(s);
                let s = data_popped(s);
                data_pushed(s, wrapping_diff(b, a))
            },
            Instr::Mul => {
                let a = data_top(s);
                let s = data_popped(s);
                let b = data_top(s);
                let s = data_popped(s);
                data_pushed(s, wrapping_product(a, b))
            },
            Instr::Div => {
                let a = data_top(s);
                let s = data_popped(s);
                let b = data_top(s);
                let s = data_popped(s);
                data_pushed(s, safe_quotient(b, a))
            },
            Instr::Eq => {
                let a = data_top(s);
                let s = data_popped(s);
                let b = data_top(s);
                let s = data_popped(s);
                data_pushed(s, flag(a == b))
            },
            Instr::Ne => {
                let a = data_top(s);
                let s = data_popped(s);
                let b = data_top(s);
                let s = data_popped(s);
                data_pushed(s, flag(a != b))
            },
            Instr::Gt => {
                let a = data_top(s);
                let s = data_popped(s);
                let b = data_top(s);
                let s = data_popped(s);
                data_pushed(s, flag(b > a))
            },
            Instr::Lt => {
                let a = data_top(s);
                let s = data_popped(s);
                let b = data_top(s);
                let s = data_popped(s);
                data_pushed(s, flag(b < a))
            },
            Instr::And => {
                let a = data_top(s);
                let s = data_popped(s);
                let b = data_top(s);
                let s = data_popped(s);
                data_pushed(s, flag(a != 0 && b != 0))
            },
            Instr::Or => {
                let a = data_top(s);
                let s = data_popped(s);
                let b = data_top(s);
                let s = data_popped(s);
                data_pushed(s, flag(a != 0 || b != 0))
            },
            Instr::Not => {
                let a = data_top(s);
                let s = data_popped(s);
                data_pushed(s, flag(a == 0))
            },
            Instr::Dup => {
                let a = data_top(s);
                let s = data_popped(s);
                data_pushed(data_pushed(s, a), a)
            },
            Instr::Drop => data_popped(s),
            Instr::Swap => {
                let a = data_top(s);
                let s = data_popped(s);
                let b = data_top(s);
                let s = data_popped(s);
                data_pushed(data_pushed(s, a), b)
            },
            Instr::Over => {
                let a = data_top(s);
                let s = data_popped(s);
                let b = data_top(s);
                let s = data_popped(s);
                data_pushed(data_pushed(data_pushed(s, b), a), b)
            },
            Instr::Dup2 => {
                let a = data_top(s);
                let s = data_popped(s);
                let b = data_top(s);
                let s = data_popped(s);
                data_pushed(data_pushed(data_pushed(data_pushed(s, b), a), b), a)
            },
            Instr::Drop2 => data_popped(data_popped(s)),
            Instr::Call => {
                let a = data_top(s);
                let s = data_popped(s);
                called(s, ((a as int) % (GENE_AMOUNT as int)) as u8)
            },
            Instr::Return => returned(s),
            Instr::Cond => {
                let a = data_top(s);
                let s = data_popped(s);
                State { cond: a != 0, ..s }
            },
            Instr::Label => {
                let a = data_top(s);
                let s = data_popped(s);
                State {
                    labels: s.labels.update((a as int) % (LABEL_AMOUNT as int), s.pc as u8),
                    ..s
                }
            },
            Instr::Jump => {
                let a = data_top(s);
                let s = data_popped(s);
                State { pc: s.labels[(a as int) % (LABEL_AMOUNT as int)] as nat, ..s }
            },
        }
    }
}

/// Unwind a program counter that has run past the gene's end: return, level
/// by level, and reset the processor when a return finds no caller.
pub open spec fn unwound(s: State) -> State
    decreases s.frames.len(),
{
    if s.pc < GENE_SIZE {
        s
    } else if s.frames.len() == 0 {
        reset_state(s)
    } else {
        unwound(returned(s))
    }
}

/// The instruction at the state's program counter.
pub open spec fn fetched(genes: Seq<Seq<Instr>>, s: State) -> Instr {
    genes[s.gene_index as int][s.pc as int]
}

/// One fetch-decode-execute cycle: unwind past-end program counters, fetch,
/// advance the program counter, then apply the instruction.
pub open spec fn stepped(genes: Seq<Seq<Instr>>, s: State) -> State {
    let at = unwound(s);
    instr_step(fetched(genes, at), State { pc: at.pc + 1, ..at })
}

/// `n` consecutive cycles.
pub open spec fn run(genes: Seq<Seq<Instr>>, s: State, n: nat) -> State
    decreases n,
{
    if n == 0 {
        s
    } else {
        run(genes, stepped(genes, s), (n - 1) as nat)
    }
}

/// A gene image: the given instructions, padded with no-ops to full length.
pub open spec fn padded(instrs: Seq<Instr>) -> Seq<Instr> {
    Seq::new(GENE_SIZE as nat, |i: int| if i < instrs.len() { instrs[i] } else { Instr::Noop })
}

/// The genes of a fresh cell: every slot of every gene a no-op.
pub open spec fn blank_genes() -> Seq<Seq<Instr>> {
    Seq::new(GENE_AMOUNT as nat, |g: int| Seq::new(GENE_SIZE as nat, |i: int| Instr::Noop))
}

/// Running unfolds one cycle at a time from the back as well as the front.
pub proof fn lemma_run_unfold_last(genes: Seq<Seq<Instr>>, s: State, n: nat)
    ensures
        run(genes, s, n + 1) == stepped(genes, run(genes, s, n)),
    decreases n,
{
    assert(run(genes, s, n + 1) == run(genes, stepped(genes, s), n));
    if n == 0 {
        assert(run(genes, stepped(genes, s), 0) == stepped(genes, s));
        assert(run(genes, s, 0) == s);
    } else {
        lemma_run_unfold_last(genes, stepped(genes, s), (n - 1) as nat);
        assert(run(genes, s, n) == run(genes, stepped(genes, s), (n - 1) as nat));
    }
}

} // verus!
