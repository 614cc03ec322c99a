//! Laws of the machine that span several operations, stated over the model
//! and proved once and for all.

use vstd::prelude::*;

use crate::semantics::{
    compact_pushed, data_popped, data_top, instr_step, popped, reset_state, returned, stepped,
    unwound, State, GENE_SIZE, STACK_CAPACITY, STACK_HALF_CAPACITY,
};
use crate::vm::Instr;

verus! {

/// The result of pushing a sequence of values one by one, oldest first.
pub open spec fn pushed_all<T>(s: Seq<T>, vs: Seq<T>) -> Seq<T>
    decreases vs.len(),
{
    if vs.len() == 0 {
        s
    } else {
        pushed_all(compact_pushed(s, vs.first()), vs.drop_first())
    }
}

proof fn lemma_pushed_all_snoc<T>(s: Seq<T>, vs: Seq<T>, v: T)
    ensures
        pushed_all(s, vs.push(v)) == compact_pushed(pushed_all(s, vs), v),
    decreases vs.len(),
{
    if vs.len() == 0 {
        assert(vs.push(v).first() == v);
        assert(vs.push(v).drop_first() =~= Seq::<T>::empty());
        assert(pushed_all(s, vs.push(v)) == pushed_all(
            compact_pushed(s, v),
            Seq::<T>::empty(),
        ));
        assert(pushed_all(compact_pushed(s, v), Seq::<T>::empty()) == compact_pushed(s, v));
        assert(pushed_all(s, vs) == s);
    } else {
        assert(vs.push(v).first() == vs.first());
        assert(vs.push(v).drop_first() =~= vs.drop_first().push(v));
        assert(pushed_all(s, vs.push(v)) == pushed_all(
            compact_pushed(s, vs.first()),
            vs.drop_first().push(v),
        ));
        lemma_pushed_all_snoc(compact_pushed(s, vs.first()), vs.drop_first(), v);
        assert(pushed_all(s, vs) == pushed_all(compact_pushed(s, vs.first()), vs.drop_first()));
    }
}

proof fn lemma_pushed_all_below_capacity<T>(s: Seq<T>, vs: Seq<T>)
    requires
        s.len() + vs.len() <= STACK_CAPACITY,
    ensures
        pushed_all(s, vs) == s + vs,
    decreases vs.len(),
{
    if vs.len() == 0 {
        assert(s + vs =~= s);
    } else {
        assert(compact_pushed(s, vs.first()) == s.push(vs.first()));
        lemma_pushed_all_below_capacity(s.push(vs.first()), vs.drop_first());
        assert(s.push(vs.first()) + vs.drop_first() =~= s + vs);
    }
}

/// Overflowing a bounded stack discards exactly the oldest half. Pushing
/// capacity + 1 values onto an empty stack leaves capacity/2 + 1 of them:
/// the newest capacity/2 before the overflow, then the value whose push
/// overflowed, in push order; the oldest half is gone. The law holds for
/// values and call frames alike, since both stacks push the same way.
pub proof fn lemma_stack_overflow_keeps_newest<T>(vs: Seq<T>)
    requires
        vs.len() == STACK_CAPACITY + 1,
    ensures
        pushed_all(Seq::empty(), vs).len() == STACK_HALF_CAPACITY + 1,
        pushed_all(Seq::empty(), vs) == vs.subrange(STACK_HALF_CAPACITY as int, vs.len() as int),
{
    let first_full = vs.take(STACK_CAPACITY as int);
    assert(vs =~= first_full.push(vs.last()));
    lemma_pushed_all_snoc(Seq::empty(), first_full, vs.last());
    lemma_pushed_all_below_capacity(Seq::empty(), first_full);
    assert(Seq::empty() + first_full =~= first_full);
    assert(compact_pushed(first_full, vs.last()) =~= vs.subrange(
        STACK_HALF_CAPACITY as int,
        vs.len() as int,
    ));
}

/// Popping an empty data stack yields zero and changes nothing, so any
/// number of underflowing pops still yields zero and leaves the stack empty.
pub proof fn lemma_underflow_pop_is_zero(s: State)
    requires
        s.data.len() == 0,
    ensures
        data_top(s) == 0,
        data_popped(s) == s,
{
    assert(data_popped(s) =~~= s);
}

/// `Call` followed by `Return` restores the caller's gene, program counter
/// and label table, from any state whose predicate lets both run; together
/// the pair consumes only the call's data-stack operand. When the call stack
/// was below capacity it too is exactly as before.
pub proof fn lemma_call_return_round_trip(s: State)
    requires
        s.cond,
    ensures
        ({
            let after = instr_step(Instr::Return, instr_step(Instr::Call, s));
            &&& after.gene_index == s.gene_index
            &&& after.pc == s.pc
            &&& after.labels == s.labels
            &&& after.cond == s.cond
            &&& after.active == s.active
            &&& after.data == popped(s.data)
            &&& s.frames.len() < STACK_CAPACITY ==> after.frames == s.frames
        }),
{
    let mid = instr_step(Instr::Call, s);
    assert(mid.frames.last().gene_index == s.gene_index);
    assert(mid.frames.last().pc == s.pc);
    assert(mid.frames.last().labels == s.labels);
    if s.frames.len() < STACK_CAPACITY {
        assert(instr_step(Instr::Return, mid).frames =~= s.frames);
    }
}

/// A false predicate suppresses exactly one instruction, whatever its
/// opcode: the instruction has no effect beyond setting the predicate back
/// to true.
pub proof fn lemma_predicate_skips_any_opcode(i: Instr, s: State)
    requires
        !s.cond,
    ensures
        instr_step(i, s) == (State { cond: true, ..s }),
{
}

/// Running off a gene's end behaves exactly like the effect of an explicit
/// `Return` taken in the same cycle: the cycle's outcome is the same, and
/// with no caller left the unwinding is a full processor reset.
pub proof fn lemma_implicit_return_matches_explicit(genes: Seq<Seq<Instr>>, s: State)
    requires
        s.pc >= GENE_SIZE,
    ensures
        stepped(genes, s) == stepped(genes, returned(s)),
        s.frames.len() == 0 ==> unwound(s) == reset_state(s),
{
    assert(unwound(s) == unwound(returned(s))) by {
        if s.frames.len() == 0 {
            assert(returned(s) == reset_state(s));
            assert(unwound(reset_state(s)) == reset_state(s));
        }
    }
}

} // verus!
