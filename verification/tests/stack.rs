use cellvm::vm::{Processor, DATA_STACK_HALF_SIZE, DATA_STACK_SIZE};

#[test]
fn test_data_stack() {
    let mut p = Processor::new();
    p.data_push(1);
    assert_eq!(p.data_stack_index, 1);
    p.data_push(2);
    assert_eq!(p.data_stack_index, 2);
    assert_eq!(p.data_pop(), 2);
    assert_eq!(p.data_pop(), 1);
    // stack underflow
    assert_eq!(p.data_pop(), 0);
}

#[test]
fn test_data_stack_overflow() {
    let mut p = Processor::new();
    for i in 0..DATA_STACK_SIZE {
        p.data_push(i as u8);
    }
    assert_eq!(p.data_stack_index, DATA_STACK_SIZE);
    // now smash the stack
    p.data_push(100);
    assert_eq!(p.data_stack_index, DATA_STACK_HALF_SIZE + 1);
    assert_eq!(p.data_pop(), 100);
    assert_eq!(p.data_pop(), DATA_STACK_SIZE as u8 - 1)
}

#[test]
fn test_data_stack_overflow_keeps_newest_half_in_order() {
    let mut p = Processor::new();
    for i in 0..DATA_STACK_SIZE {
        p.data_push(i as u8);
    }
    p.data_push(200);
    // the survivors, top to bottom: the new value, then the newest half
    assert_eq!(p.data_pop(), 200);
    for i in (DATA_STACK_HALF_SIZE..DATA_STACK_SIZE).rev() {
        assert_eq!(p.data_pop(), i as u8);
    }
    // the oldest half is gone
    assert_eq!(p.data_stack_index, 0);
    assert_eq!(p.data_pop(), 0);
}

#[test]
fn test_data_stack_underflow_repeats() {
    let mut p = Processor::new();
    for _ in 0..5 {
        assert_eq!(p.data_pop(), 0);
        assert_eq!(p.data_stack_index, 0);
    }
}
