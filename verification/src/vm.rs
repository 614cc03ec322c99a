//! The executable machine: instructions, the processor with its two bounded
//! stacks, and the cell that holds the genes it runs.

use vstd::prelude::*;

use crate::semantics::{
    blank_genes, called, data_popped, data_pushed, data_top, fetched, initial_state, instr_step,
    lemma_run_unfold_last, padded, reset_state, returned, run, stepped, unwound, zero_labels,
    Frame, State,
};
pub use crate::semantics::{
    GENE_AMOUNT, GENE_SIZE, LABEL_AMOUNT, STACK_CAPACITY, STACK_HALF_CAPACITY,
};

verus! {

/// Capacity of the data stack.
pub const DATA_STACK_SIZE: usize = STACK_CAPACITY;

/// Data-stack entries that survive a compaction.
pub const DATA_STACK_HALF_SIZE: usize = STACK_HALF_CAPACITY;

/// Capacity of the call stack.
pub const CALL_STACK_SIZE: u8 = 32;

/// Call-stack entries that survive a compaction.
pub const CALL_STACK_HALF_SIZE: u8 = CALL_STACK_SIZE / 2;

/// One instruction of a gene. `Number` carries its literal payload; the
/// remaining opcodes take their operands from the data stack.
#[derive(Debug, Copy, Clone, PartialEq, Eq)]
pub enum Instr {
    Number(u8),
    Noop,
    Add,
    Sub,
    Mul,
    Div,
    Eq,
    Ne,
    Gt,
    Lt,
    And,
    Or,
    Not,
    Dup,
    Drop,
    Swap,
    Over,
    Dup2,
    Drop2,
    Call,
    Return,
    Cond,
    Label,
    Jump,
}

impl Instr {
    /// Apply this instruction to the processor. A false predicate suppresses
    /// the instruction — whatever its opcode — and is consumed by it.
    pub fn execute(&self, processor: &mut Processor)
        requires
            old(processor).wf(),
        ensures
            final(processor).wf(),
            final(processor)@ == instr_step(*self, old(processor)@),
    {
        if !processor.cond {
            processor.cond = true;
            proof {
                assert(processor@ =~~= instr_step(*self, old(processor)@));
            }
            return ;
        }
        match *self {
            Instr::Number(n) => {
                processor.data_push(n);
            },
            Instr::Noop => {},
            Instr::Add => {
                let a = processor.data_pop();
                let b = processor.data_pop();
                processor.data_push(a.wrapping_add(b));
            },
            Instr::Sub => {
                let a = processor.data_pop();
                let b = processor.data_pop();
                processor.data_push(b.wrapping_sub(a));
            },
            Instr::Mul => {
                let a = processor.data_pop();
                let b = processor.data_pop();
                processor.data_push(a.wrapping_mul(b));
            },
            Instr::Div => {
                let a = processor.data_pop();
                let b = processor.data_pop();
                if a == 0 {
                    processor.data_push(0);
                } else {
                    processor.data_push(b / a);
                }
            },
            Instr::Eq => {
                let a = processor.data_pop();
                let b = processor.data_pop();
                processor.data_push(if a == b { 1 } else { 0 });
            },
            Instr::Ne => {
                let a = processor.data_pop();
                let b = processor.data_pop();
                processor.data_push(if a != b { 1 } else { 0 });
            },
            Instr::Gt => {
                let a = processor.data_pop();
                let b = processor.data_pop();
                processor.data_push(if b > a { 1 } else { 0 });
            },
            Instr::Lt => {
                let a = processor.data_pop();
                let b = processor.data_pop();
                processor.data_push(if b < a { 1 } else { 0 });
            },
            Instr::And => {
                let a = processor.data_pop();
                let b = processor.data_pop();
                processor.data_push(if a != 0 && b != 0 { 1 } else { 0 });
            },
            Instr::Or => {
                let a = processor.data_pop();
                let b = processor.data_pop();
                processor.data_push(if a != 0 || b != 0 { 1 } else { 0 });
            },
            Instr::Not => {
                let a = processor.data_pop();
                processor.data_push(if a == 0 { 1 } else { 0 });
            },
            Instr::Dup => {
                let a = processor.data_pop();
                processor.data_push(a);
                processor.data_push(a);
            },
            Instr::Drop => {
                processor.data_pop();
            },
            Instr::Swap => {
                let a = processor.data_pop();
                let b = processor.data_pop();
                processor.data_push(a);
                processor.data_push(b);
            },
            Instr::Over => {
                let a = processor.data_pop();
                let b = processor.data_pop();
                processor.data_push(b);
                processor.data_push(a);
                processor.data_push(b);
            },
            Instr::Dup2 => {
                let a = processor.data_pop();
                let b = processor.data_pop();
                processor.data_push(b);
                processor.data_push(a);
                processor.data_push(b);
                processor.data_push(a);
            },
            Instr::Drop2 => {
                processor.data_pop();
                processor.data_pop();
            },
            Instr::Call => {
                let gene_index = processor.data_pop();
                processor.call_push(gene_index % (GENE_AMOUNT as u8));
            },
            Instr::Return => {
                processor.call_pop();
            },
            Instr::Cond => {
                let a = processor.data_pop();
                processor.cond = a != 0;
            },
            Instr::Label => {
                let a = processor.data_pop();
                processor.labels[(a as usize) % LABEL_AMOUNT] = processor.pc as u8;
            },
            Instr::Jump => {
                let a = processor.data_pop();
                processor.pc = processor.labels[(a as usize) % LABEL_AMOUNT] as usize;
            },
        }
        proof {
            assert(processor@ =~~= instr_step(*self, old(processor)@));
        }
    }
}

/// A saved caller context, pushed by `Call` and restored by `Return`.
#[derive(Debug, Copy, Clone, PartialEq, Eq)]
pub struct CallStackEntry {
    pub gene_index: u8,
    pub pc: usize,
    pub labels: [u8; 4],
}

impl View for CallStackEntry {
    type V = Frame;

    open spec fn view(&self) -> Frame {
        Frame { gene_index: self.gene_index, pc: self.pc as nat, labels: self.labels@ }
    }
}

impl CallStackEntry {
    pub fn new() -> (r: CallStackEntry)
        ensures
            r@ == (Frame { gene_index: 0, pc: 0, labels: zero_labels() }),
    {
        let r = CallStackEntry { gene_index: 0, pc: 0, labels: [0; 4] };
        proof {
            assert(r@.labels =~= zero_labels());
            assert(r@ =~= Frame { gene_index: 0, pc: 0, labels: zero_labels() });
        }
        r
    }
}

/// The interpreter state: registers, the label table, and the two bounded
/// stacks. The stack arrays keep stale entries above their index; only the
/// entries below the index are live, and only those the model sees.
#[derive(Debug, Copy, Clone, PartialEq, Eq)]
pub struct Processor {
    pub active: bool,
    pub gene_index: u8,
    pub pc: usize,
    pub labels: [u8; 4],
    pub cond: bool,
    pub data_stack_index: usize,
    pub call_stack_index: u8,
    pub data_stack: [u8; 32],
    pub call_stack: [CallStackEntry; 32],
}

impl View for Processor {
    type V = State;

    open spec fn view(&self) -> State {
        State {
            active: self.active,
            gene_index: self.gene_index,
            pc: self.pc as nat,
            labels: self.labels@,
            cond: self.cond,
            data: self.data_stack@.take(self.data_stack_index as int),
            frames: Seq::new(self.call_stack_index as nat, |i: int| self.call_stack@[i]@),
        }
    }
}

impl Processor {
    /// The bounds every processor reachable through this interface satisfies.
    pub open spec fn wf(&self) -> bool {
        &&& self.data_stack_index <= DATA_STACK_SIZE
        &&& self.call_stack_index <= CALL_STACK_SIZE
        &&& self@.wf()
    }

    pub fn new() -> (r: Processor)
        ensures
            r.wf(),
            r@ == initial_state(),
    {
        let r = Processor {
            active: true,
            gene_index: 0,
            pc: 0,
            labels: [0; 4],
            cond: true,
            data_stack_index: 0,
            call_stack_index: 0,
            data_stack: [0; 32],
            call_stack: [CallStackEntry::new(); 32],
        };
        proof {
            assert(r@ =~~= initial_state());
        }
        r
    }

    /// The full reset a return with no caller performs: all registers to
    /// their pristine values, both stacks emptied by zeroing their indices.
    pub fn reset(&mut self)
        ensures
            final(self).wf(),
            final(self)@ == reset_state(old(self)@),
    {
        self.gene_index = 0;
        self.pc = 0;
        self.labels = [0; 4];
        self.cond = true;
        self.data_stack_index = 0;
        self.call_stack_index = 0;
        proof {
            assert(self@ =~~= reset_state(old(self)@));
        }
    }

    /// Push onto the data stack; at capacity the oldest half is discarded
    /// first, so the push always succeeds.
    pub fn data_push(&mut self, value: u8)
        requires
            old(self).wf(),
        ensures
            final(self).wf(),
            final(self)@ == data_pushed(old(self)@, value),
    {
        if self.data_stack_index >= DATA_STACK_SIZE {
            self.data_stack_index = DATA_STACK_HALF_SIZE;
            let mut i: usize = 0;
            while i < DATA_STACK_HALF_SIZE
                invariant
                    i <= DATA_STACK_HALF_SIZE,
                    self.data_stack_index == DATA_STACK_HALF_SIZE,
                    self.active == old(self).active,
                    self.gene_index == old(self).gene_index,
                    self.pc == old(self).pc,
                    self.labels == old(self).labels,
                    self.cond == old(self).cond,
                    self.call_stack_index == old(self).call_stack_index,
                    self.call_stack == old(self).call_stack,
                    forall|j: int|
                        0 <= j < i ==> self.data_stack@[j] == old(self).data_stack@[j
                            + DATA_STACK_HALF_SIZE],
                    forall|j: int|
                        i <= j < DATA_STACK_SIZE ==> self.data_stack@[j] == old(
                            self,
                        ).data_stack@[j],
                decreases DATA_STACK_HALF_SIZE - i,
            {
                self.data_stack[i] = self.data_stack[i + DATA_STACK_HALF_SIZE];
                i = i + 1;
            }
        }
        self.data_stack[self.data_stack_index] = value;
        self.data_stack_index = self.data_stack_index + 1;
        proof {
            assert(self@ =~~= data_pushed(old(self)@, value));
        }
    }

    /// Pop the data stack; on an empty stack this yields zero and changes
    /// nothing.
    pub fn data_pop(&mut self) -> (r: u8)
        requires
            old(self).wf(),
        ensures
            final(self).wf(),
            r == data_top(old(self)@),
            final(self)@ == data_popped(old(self)@),
    {
        if self.data_stack_index == 0 {
            proof {
                assert(self@ =~~= data_popped(old(self)@));
            }
            0
        } else {
            self.data_stack_index = self.data_stack_index - 1;
            let r = self.data_stack[self.data_stack_index];
            proof {
                assert(self@.data =~= data_popped(old(self)@).data);
                assert(self@ =~~= data_popped(old(self)@));
            }
            r
        }
    }

    /// Enter the given gene: the caller's context is saved on the call stack
    /// (compacting it at capacity, like the data stack), and the processor
    /// starts the target gene at its top with a blank label table.
    pub fn call_push(&mut self, gene_index: u8)
        requires
            old(self).wf(),
            gene_index < GENE_AMOUNT as u8,
        ensures
            final(self).wf(),
            final(self)@ == called(old(self)@, gene_index),
    {
        if self.call_stack_index >= CALL_STACK_SIZE {
            self.call_stack_index = CALL_STACK_HALF_SIZE;
            let mut i: usize = 0;
            while i < CALL_STACK_HALF_SIZE as usize
                invariant
                    i <= CALL_STACK_HALF_SIZE as usize,
                    self.call_stack_index == CALL_STACK_HALF_SIZE,
                    self.active == old(self).active,
                    self.gene_index == old(self).gene_index,
                    self.pc == old(self).pc,
                    self.labels == old(self).labels,
                    self.cond == old(self).cond,
                    self.data_stack_index == old(self).data_stack_index,
                    self.data_stack == old(self).data_stack,
                    forall|j: int|
                        0 <= j < i ==> self.call_stack@[j] == old(self).call_stack@[j
                            + CALL_STACK_HALF_SIZE],
                    forall|j: int|
                        i <= j < CALL_STACK_SIZE ==> self.call_stack@[j] == old(
                            self,
                        ).call_stack@[j],
                decreases CALL_STACK_HALF_SIZE as usize - i,
            {
                self.call_stack[i] = self.call_stack[i + CALL_STACK_HALF_SIZE as usize];
                i = i + 1;
            }
        }
        self.call_stack[self.call_stack_index as usize] = CallStackEntry {
            gene_index: self.gene_index,
            pc: self.pc,
            labels: self.labels,
        };
        self.call_stack_index = self.call_stack_index + 1;
        self.pc = 0;
        self.gene_index = gene_index;
        self.labels = [0; 4];
        proof {
            assert(self@.labels =~= zero_labels());
            assert(self@.frames =~~= called(old(self)@, gene_index).frames);
            assert(self@ =~~= called(old(self)@, gene_index));
        }
    }

    /// Leave the current gene: restore the topmost saved context, or perform
    /// a full reset when the call stack is empty.
    pub fn call_pop(&mut self)
        requires
            old(self).wf(),
        ensures
            final(self).wf(),
            final(self)@ == returned(old(self)@),
    {
        if self.call_stack_index == 0 {
            self.reset();
            proof {
                assert(self@ =~~= returned(old(self)@));
            }
            return ;
        }
        self.call_stack_index = self.call_stack_index - 1;
        let entry = self.call_stack[self.call_stack_index as usize];
        self.gene_index = entry.gene_index;
        self.pc = entry.pc;
        self.labels = entry.labels;
        proof {
            assert(old(self)@.frames.last() == entry@);
            assert(self@.frames =~~= returned(old(self)@).frames);
            assert(self@ =~~= returned(old(self)@));
        }
    }

    /// Perform `amount` fetch-decode-execute cycles against the cell's
    /// genes. A program counter past the gene's end first returns — possibly
    /// through several frames, resetting when none is left — without
    /// consuming an extra cycle.
    pub fn execute(&mut self, cell: &Cell, amount: usize)
        requires
            old(self).wf(),
        ensures
            final(self).wf(),
            final(self)@ == run(cell@, old(self)@, amount as nat),
    {
        let mut step: usize = 0;
        while step < amount
            invariant
                step <= amount,
                self.wf(),
                self@ == run(cell@, old(self)@, step as nat),
            decreases amount - step,
        {
            let ghost pre = self@;
            while self.pc >= GENE_SIZE
                invariant
                    self.wf(),
                    unwound(self@) == unwound(pre),
                decreases self.call_stack_index as int + (if self.pc >= GENE_SIZE {
                    1int
                } else {
                    0int
                }),
            {
                let ghost before = self@;
                self.call_pop();
                proof {
                    assert(unwound(before) == unwound(returned(before)));
                }
            }
            proof {
                assert(self@ == unwound(pre));
            }
            let row = cell.genes[self.gene_index as usize];
            let instruction = row[self.pc];
            self.pc = self.pc + 1;
            proof {
                assert(instruction == fetched(cell@, unwound(pre)));
                assert(self@ =~~= (State { pc: unwound(pre).pc + 1, ..unwound(pre) }));
            }
            instruction.execute(self);
            proof {
                assert(self@ == stepped(cell@, pre));
                lemma_run_unfold_last(cell@, old(self)@, step as nat);
            }
            step = step + 1;
        }
    }
}

/// The genome: a fixed number of genes, each a fixed-length array of
/// instructions.
#[derive(Debug, Copy, Clone)]
pub struct Cell {
    pub genes: [[Instr; 32]; 16],
}

impl View for Cell {
    type V = Seq<Seq<Instr>>;

    open spec fn view(&self) -> Seq<Seq<Instr>> {
        Seq::new(GENE_AMOUNT as nat, |g: int| self.genes@[g]@)
    }
}

impl Cell {
    /// A cell whose genes are all no-ops.
    pub fn new() -> (r: Cell)
        ensures
            r@ == blank_genes(),
    {
        let r = Cell { genes: [[Instr::Noop; 32]; 16] };
        proof {
            assert forall|g: int| 0 <= g < GENE_AMOUNT implies r@[g] =~= blank_genes()[g] by {}
            assert(r@ =~~= blank_genes());
        }
        r
    }

    /// Replace one gene wholesale with the given instructions, padding the
    /// unused tail with no-ops. A list longer than the gene is a
    /// configuration error the caller must rule out.
    pub fn set_gene(&mut self, gene_index: u8, instructions: Vec<Instr>)
        requires
            gene_index < GENE_AMOUNT as u8,
            instructions@.len() <= GENE_SIZE,
        ensures
            final(self)@ == old(self)@.update(gene_index as int, padded(instructions@)),
    {
        let mut gene: [Instr; 32] = [Instr::Noop; 32];
        let mut i: usize = 0;
        while i < instructions.len()
            invariant
                i <= instructions.len() <= GENE_SIZE,
                forall|j: int| 0 <= j < i ==> gene@[j] == instructions@[j],
                forall|j: int| i <= j < GENE_SIZE ==> gene@[j] == Instr::Noop,
            decreases instructions.len() - i,
        {
            gene[i] = instructions[i];
            i = i + 1;
        }
        self.genes[gene_index as usize] = gene;
        proof {
            assert(gene@ =~= padded(instructions@));
            assert(self@ =~~= old(self)@.update(gene_index as int, padded(instructions@)));
        }
    }
}

} // verus!
