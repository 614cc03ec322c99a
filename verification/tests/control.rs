use cellvm::vm::{
    Cell, Instr, Processor, CALL_STACK_HALF_SIZE, CALL_STACK_SIZE, GENE_AMOUNT, GENE_SIZE,
};

#[test]
fn test_instr_call() {
    let mut p = Processor::new();
    Instr::Number(3).execute(&mut p);
    Instr::Call.execute(&mut p);
    assert_eq!(p.data_pop(), 0);
    assert_eq!(p.gene_index, 3);
    assert_eq!(p.call_stack_index, 1);
    assert_eq!(p.call_stack[0].gene_index, 0);
    Instr::Number(2).execute(&mut p);
    Instr::Call.execute(&mut p);
    assert_eq!(p.gene_index, 2);
    assert_eq!(p.call_stack_index, 2);
    assert_eq!(p.call_stack[1].gene_index, 3);
}

#[test]
fn test_instr_return() {
    // this is a limited test which doesn't take the pc into account
    let mut p = Processor::new();
    Instr::Number(3).execute(&mut p);
    Instr::Call.execute(&mut p);
    assert_eq!(p.gene_index, 3);
    assert_eq!(p.call_stack_index, 1);
    assert_eq!(p.call_stack[0].gene_index, 0);
    Instr::Return.execute(&mut p);
    assert_eq!(p.gene_index, 0);
    assert_eq!(p.call_stack_index, 0);
}

#[test]
fn test_instr_return_underflow() {
    // doesn't take the pc into account yet
    let mut p = Processor::new();
    Instr::Return.execute(&mut p);
    assert_eq!(p.gene_index, 0);
    assert_eq!(p.call_stack_index, 0);
}

#[test]
fn test_instr_call_out_of_range() {
    let mut p = Processor::new();
    // silly non-existing processor number still works
    Instr::Number(17).execute(&mut p);
    Instr::Call.execute(&mut p);
    assert_eq!(p.data_pop(), 0);
    assert_eq!(p.gene_index, 1);
}

#[test]
fn test_instr_call_stack_overflow() {
    let mut p = Processor::new();
    for i in 1..=CALL_STACK_SIZE {
        Instr::Number(i).execute(&mut p);
        Instr::Call.execute(&mut p);
    }
    assert_eq!(p.call_stack_index, CALL_STACK_SIZE);
    // last invoker
    assert_eq!(
        p.call_stack[CALL_STACK_SIZE as usize - 1].gene_index,
        GENE_AMOUNT as u8 - 1
    );

    // now smash the stack
    Instr::Number(2).execute(&mut p);
    Instr::Call.execute(&mut p);

    assert_eq!(p.call_stack_index, CALL_STACK_HALF_SIZE + 1);
    // 0 as it is just beyond GENE_AMOUNT
    assert_eq!(p.call_stack[p.call_stack_index as usize - 1].gene_index, 0);
    assert_eq!(p.gene_index, 2);
}

#[test]
fn test_instr_cond_true() {
    let mut p = Processor::new();
    Instr::Number(3).execute(&mut p);
    Instr::Number(4).execute(&mut p);
    Instr::Number(1).execute(&mut p);
    Instr::Cond.execute(&mut p);
    Instr::Add.execute(&mut p);
    assert_eq!(p.data_pop(), 7);
}

#[test]
fn test_instr_cond_false() {
    let mut p = Processor::new();
    Instr::Number(3).execute(&mut p);
    Instr::Number(4).execute(&mut p);
    Instr::Number(0).execute(&mut p);
    Instr::Cond.execute(&mut p);
    Instr::Add.execute(&mut p);
    assert_eq!(p.data_pop(), 4);
}

#[test]
fn test_label_and_jump() {
    let mut c = Cell::new();
    c.set_gene(
        0,
        vec![
            Instr::Number(5),
            Instr::Number(3),
            Instr::Label, // set label 3
            Instr::Number(7),
            Instr::Number(3),
            Instr::Jump, // jump to label 3
        ],
    );
    let mut p = Processor::new();
    p.execute(&c, 7);
    // the 7 should be there two times because of the jump
    assert_eq!(p.data_pop(), 7);
    assert_eq!(p.data_pop(), 7);
    assert_eq!(p.data_pop(), 5);
    assert_eq!(p.data_pop(), 0);
}

#[test]
fn test_label_and_jump_multiple() {
    let mut c = Cell::new();
    c.set_gene(
        0,
        vec![
            Instr::Number(1),
            Instr::Number(1),
            Instr::Label, // set label 1
            Instr::Number(2),
            Instr::Number(2),
            Instr::Label, // set label 2
            Instr::Number(2),
            Instr::Jump, // jump to label 2
        ],
    );
    let mut p = Processor::new();
    p.execute(&c, 9);
    assert_eq!(p.data_pop(), 2);
    assert_eq!(p.data_pop(), 2);
    assert_eq!(p.data_pop(), 1);
    assert_eq!(p.data_pop(), 0);
}

#[test]
fn test_call_and_return_in_cell() {
    let mut c = Cell::new();
    c.set_gene(1, vec![Instr::Number(3), Instr::Add, Instr::Return]);
    c.set_gene(
        0,
        vec![
            Instr::Number(5),
            Instr::Number(1),
            Instr::Call,
            Instr::Number(10),
            Instr::Add,
        ],
    );
    let mut p = Processor::new();
    p.execute(&c, 8);
    assert_eq!(p.gene_index, 0);
    assert_eq!(p.data_pop(), 18);
}

#[test]
fn test_call_and_return_in_cell_implicit_return() {
    let mut c = Cell::new();
    c.set_gene(1, vec![Instr::Number(3), Instr::Add]);
    c.set_gene(
        0,
        vec![
            Instr::Number(5),
            Instr::Number(1),
            Instr::Call,
            Instr::Number(10),
            Instr::Add,
        ],
    );
    let mut p = Processor::new();
    // should get us well into noop land but not beyond the end of gene 0
    p.execute(&c, 50);
    assert_eq!(p.gene_index, 0);
    assert_eq!(p.data_pop(), 18);
}

#[test]
fn test_jump_and_call_and_return_in_cell() {
    let mut c = Cell::new();
    c.set_gene(1, vec![Instr::Number(3), Instr::Add, Instr::Return]);
    c.set_gene(
        0,
        vec![
            Instr::Number(5),
            Instr::Number(3),
            Instr::Label,
            Instr::Number(1),
            Instr::Call,
            Instr::Number(10),
            Instr::Add,
            Instr::Number(3),
            Instr::Jump,
        ],
    );
    let mut p = Processor::new();
    p.execute(&c, 13);
    assert_eq!(p.labels, [0, 0, 0, 3]);
    assert_eq!(p.pc, 4);
    // we should land just after the label
    assert_eq!(p.data_pop(), 1);
    assert_eq!(p.data_pop(), 18);
}

#[test]
fn test_return_from_gene0() {
    let mut c = Cell::new();
    c.set_gene(0, vec![Instr::Number(1), Instr::Return]);
    let mut p = Processor::new();
    p.execute(&c, 3);
    // history is lost by returning from the main gene,
    // so it should be just a single 1 on the stack
    assert_eq!(p.data_pop(), 1);
    assert_eq!(p.data_pop(), 0);
}

#[test]
fn test_implicit_return_from_gene0() {
    let mut c = Cell::new();
    c.set_gene(0, vec![Instr::Number(1)]);
    let mut p = Processor::new();
    p.execute(&c, 50);
    // history is lost by returning from the main gene,
    // so it should be just a single 1 on the stack
    assert_eq!(p.data_pop(), 1);
    assert_eq!(p.data_pop(), 0);
}

#[test]
fn test_set_gene_full_length() {
    let mut c = Cell::new();
    let gene = vec![Instr::Number(1); GENE_SIZE];
    c.set_gene(0, gene);
    let mut p = Processor::new();
    p.execute(&c, GENE_SIZE);
    assert_eq!(p.data_stack_index, GENE_SIZE);
    assert_eq!(p.data_pop(), 1);
}

#[test]
fn test_implicit_return_into_past_end_frame() {
    // a Call in the last slot saves a pc already past the gene's end; the
    // implicit return must unwind through that frame too, here down to a
    // full reset, instead of fetching out of range
    let mut c = Cell::new();
    let mut gene = vec![Instr::Noop; GENE_SIZE - 2];
    gene.push(Instr::Number(1));
    gene.push(Instr::Call);
    c.set_gene(0, gene);
    let mut p = Processor::new();
    p.execute(&c, 64);
    // parked at the end of the called gene, one frame deep
    assert_eq!(p.gene_index, 1);
    assert_eq!(p.pc, GENE_SIZE);
    assert_eq!(p.call_stack_index, 1);
    p.execute(&c, 1);
    // unwound twice in one cycle: through the past-end frame to the reset
    assert_eq!(p.gene_index, 0);
    assert_eq!(p.pc, 1);
    assert_eq!(p.call_stack_index, 0);
}

#[test]
fn test_cond_skips_any_opcode_once() {
    // the false predicate suppresses even a Call, and only that one
    let mut p = Processor::new();
    Instr::Number(0).execute(&mut p);
    Instr::Cond.execute(&mut p);
    Instr::Number(3).execute(&mut p); // skipped
    Instr::Number(2).execute(&mut p); // runs again
    Instr::Call.execute(&mut p);
    assert_eq!(p.gene_index, 2);
    assert_eq!(p.call_stack_index, 1);
}
