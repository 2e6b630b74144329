use vm_core::machine::{Action, Clock, Fault, Step, VM};
use vm_core::opcode::OpCode;

const SEC: u128 = 1_000_000_000;
const MS: u128 = 1_000_000;

fn at(wall: u128, mono: u128) -> Clock {
    Clock { wall, mono }
}

fn load(wall: u128, bytes: &[u8]) -> VM {
    let mut vm = VM::new(at(wall, 0));
    for b in bytes {
        vm.add_byte(*b);
    }
    vm
}

fn ran(step: Step) -> (Vec<u8>, Action) {
    match step {
        Step::Ran(o) => (o.text, o.action),
        other => panic!("expected a run, got {:?}", other),
    }
}

#[test]
fn loaded_bytes_read_back() {
    let bytes = [0xF1u8, 7, 0x00, 0xFF, 0x80];
    for wall in [0u128, 5, 0x1_2345_6789, 0xFFFF_FFFF] {
        let mut vm = load(wall, &bytes);
        assert_eq!(vm.ram_len(), 5);
        assert_eq!(vm.ram.len(), 5);
        for (i, b) in bytes.iter().enumerate() {
            assert_eq!(vm.get_raw(i), Some(*b));
        }
        assert_eq!(vm.get_raw(1000), Some(0 ^ (wall as u8)));
    }
}

#[test]
fn get_op_fetches_only_operation_bytes() {
    let mut vm = load(7, &[0xF1, 1, 0xE5, 0x10]);
    assert_eq!(vm.get_op(at(7, 0)), Some(OpCode::Push));
    vm.pc = 2;
    assert_eq!(vm.get_op(at(7, 0)), None);
    vm.pc = 3;
    assert_eq!(vm.get_op(at(7, 0)), None);
    assert!(!vm.dump_due());
}

#[test]
fn exec_push_and_print() {
    let mut vm = load(11, &[0xF1, 65, 0xFB, 0]);
    let clock = at(11, 0);
    let op = vm.get_op(clock).unwrap();
    let out = vm.exec_op(op, clock);
    assert_eq!(out.action, Action::Continue);
    assert!(out.text.is_empty());
    assert_eq!(vm.stack().clone(), vec![65]);
    assert_eq!(vm.pc(), 2);
    let op = vm.get_op(clock).unwrap();
    let out = vm.exec_op(op, clock);
    assert_eq!(out.text, vec![65]);
    assert_eq!(vm.pc(), 4);
    assert!(vm.halted());
}

#[test]
fn nay_asks_to_exit_and_input_asks_for_a_line() {
    let mut vm = load(1, &[0xF0, 0xFC]);
    let clock = at(1, 0);
    let out = vm.exec_op(OpCode::Nay, clock);
    assert_eq!(out.action, Action::Exit(1));
    assert_eq!(vm.pc(), 0);
    vm.pc = 1;
    let out = vm.exec_op(OpCode::Input, clock);
    assert_eq!(out.action, Action::ReadLine);
    assert_eq!(vm.pc(), 1);
    vm.finish_input("ok\n");
    assert_eq!(vm.stack().clone(), vec![b'o', b'k', 0]);
    assert_eq!(vm.pc(), 2);
}

#[test]
fn corrupt_ram_fills_with_operation_noise() {
    let mut vm = load(0xABCD, &[0u8; 40]);
    vm.corrupt_ram();
    for i in 0..40usize {
        let v = vm.get_raw(i).unwrap();
        assert_eq!(v, 0xEE + (i as u8 % 17));
        let op = OpCode::from_u8(v).unwrap();
        assert_ne!(op, OpCode::FN);
        assert_ne!(op, OpCode::Debug);
    }
}

#[test]
fn check_warns_and_scrambles_when_slow() {
    let mut vm = load(10 * SEC, &[0xF1, 1]);
    assert!(vm.check(at(10 * SEC + 100 * MS, 0)).is_empty());
    assert_eq!(vm.get_raw(0), Some(0xF1));
    let back = vm.check(at(5 * SEC, 0));
    assert_eq!(back, b"78121973277101111111119119119\n".to_vec());
    assert_eq!(vm.get_raw(0), Some(0xF1));
    assert!(vm.check(at(10 * SEC + 500 * MS + 999_999, 0)).is_empty());
    let slow = vm.check(at(10 * SEC + 501 * MS, 0));
    assert_eq!(slow, b"78121973277101111111119119119\n".to_vec());
    assert_eq!(vm.get_raw(0), Some(0xEE));
    assert_eq!(vm.get_raw(1), Some(0xEF));
}

#[test]
fn stale_operation_scrambles_memory() {
    let mut vm = load(3, &[0xF2, 0xF2, 0xF2]);
    let op = vm.get_op(at(3, 0)).unwrap();
    vm.exec_op(op, at(3, SEC));
    assert_eq!(vm.get_raw(1), Some(0xF2));
    let op = vm.get_op(at(3, 2 * SEC)).unwrap();
    vm.exec_op(op, at(3, 3 * SEC + 1));
    assert_eq!(vm.get_raw(1), Some(0xEF));
    assert_eq!(vm.get_raw(2), Some(0xF0));
}

#[test]
fn stale_push_reads_noise() {
    let mut vm = load(3, &[0xF1, 0x41]);
    let op = vm.get_op(at(3, 0)).unwrap();
    vm.exec_op(op, at(3, 2 * SEC));
    assert_eq!(vm.stack().clone(), vec![0xEF]);
}

#[test]
fn run_with_function_table() {
    // 0: Call 3, 2: Nay, 3: FN 3, 5: Push 9
    let mut vm = load(5, &[0xF7, 3, 0xF0, 0xED, 3, 0xF1, 9]);
    let clock = at(5, 0);
    let (text, _) = ran(vm.start(clock));
    assert!(text.is_empty());
    assert_eq!(vm.get_ftable().get(&3), Some(&3));
    ran(vm.run_step(clock, clock));
    assert_eq!(vm.pc(), 3);
    ran(vm.run_step(clock, clock));
    assert_eq!(vm.pc(), 5);
    ran(vm.run_step(clock, clock));
    assert_eq!(vm.pc(), 7);
    assert_eq!(vm.stack().clone(), vec![9]);
    assert!(vm.halted());
}

#[test]
fn later_function_entry_wins() {
    let mut vm = load(5, &[0xED, 1, 0xED, 1, 0xED, 2]);
    vm.ftable();
    assert_eq!(vm.get_ftable().get(&1), Some(&2));
    assert_eq!(vm.get_ftable().get(&2), Some(&4));
    assert_eq!(vm.get_ftable().len(), 2);
}

#[test]
fn stray_byte_complains_and_skips() {
    let mut vm = load(5, &[0x01, 0x02, 0xF2]);
    let (text, action) = ran(vm.run_step(at(5, 0), at(5, 0)));
    assert_eq!(text, b"Nya Meoowww ".to_vec());
    assert_eq!(action, Action::Continue);
    assert_eq!(vm.pc(), 2);
    assert_eq!(vm.get_raw(2), Some(0xF0));
}

#[test]
fn faults() {
    let mut vm = load(0, &[0xED]);
    assert!(!vm.table_fits());
    assert!(matches!(vm.start(at(0, 0)), Step::Fault(Fault::TableOverrun)));

    let mut vm = load(5, &[0xF6, 0]);
    assert!(matches!(vm.run_step(at(5, 0), at(5, 0)), Step::Fault(Fault::EmptyStack)));

    let mut vm = load(0, &[0xF1, 1, 0xFA, 200, 0]);
    ran(vm.run_step(at(0, 0), at(0, 0)));
    assert_eq!(vm.fault(OpCode::Store), Some(Fault::CellMissing));
    assert!(matches!(vm.run_step(at(0, 0), at(0, 0)), Step::Fault(Fault::CellMissing)));

    let mut vm = load(5, &[0x00]);
    vm.pc = usize::MAX;
    assert!(matches!(vm.run_step(at(5, 0), at(5, 0)), Step::Fault(Fault::PcOverflow)));
    assert_eq!(vm.fault(OpCode::Push), Some(Fault::PcOverflow));
    assert_eq!(vm.fault(OpCode::Nay), None);
}

#[test]
fn debug_dump() {
    let mut vm = load(0, &[0xF1, 7]);
    let text = vm.debug(b"B", b"S");
    assert_eq!(String::from_utf8(text).unwrap(), "B\n\n0:[Push] 1:7 \nS\n\n");
    vm.add_byte(0xFF);
    vm.pc = 2;
    assert!(vm.dump_due());
    vm.stack.push(4);
    vm.stack.push(200);
    let text = vm.debug(b"B", b"S");
    assert_eq!(
        String::from_utf8(text).unwrap(),
        "B\n\n0:241 1:7 2:[Debug] \nS\n4 200 \n"
    );
}

#[test]
fn turn_asks_to_settle_and_slow_settle_scrambles() {
    // Pop, Pop, Pop
    let mut vm = load(3, &[0xF2, 0xF2, 0xF2]);
    let (text, action) = ran(vm.run_step(at(3, 0), at(3, 0)));
    assert!(text.is_empty());
    assert_eq!(action, Action::Settle);
    vm.settle(at(3, SEC));
    assert_eq!(vm.get_raw(1), Some(0xF2));
    assert_eq!(vm.pc(), 1);
    let (_, action) = ran(vm.run_step(at(3, 5 * SEC), at(3, 5 * SEC)));
    assert_eq!(action, Action::Settle);
    vm.settle(at(3, 6 * SEC + 1));
    assert_eq!(vm.get_raw(0), Some(0xEE));
    assert_eq!(vm.get_raw(1), Some(0xEF));
    assert_eq!(vm.get_raw(2), Some(0xF0));
}

#[test]
fn run_op_leaves_the_closing_check_to_settle() {
    let mut vm = load(3, &[0xF2, 0xF2, 0xF2]);
    let op = vm.get_op(at(3, 0)).unwrap();
    let out = vm.run_op(op, at(3, 2 * SEC));
    assert_eq!(out.action, Action::Settle);
    assert_eq!(vm.get_raw(1), Some(0xF2));
    vm.settle(at(3, 2 * SEC));
    assert_eq!(vm.get_raw(1), Some(0xEF));
}

#[test]
fn stale_push_scrambles_before_it_reads() {
    let mut vm = load(3, &[0xF1, 0x41]);
    let op = vm.get_op(at(3, 0)).unwrap();
    let out = vm.run_op(op, at(3, 2 * SEC));
    assert_eq!(out.action, Action::Settle);
    assert_eq!(vm.stack().clone(), vec![0xEF]);
}

#[test]
fn input_and_nay_ask_for_no_settle() {
    let mut vm = load(1, &[0xF0, 0xFC]);
    let out = vm.run_op(OpCode::Nay, at(1, 0));
    assert_eq!(out.action, Action::Exit(1));
    vm.pc = 1;
    let out = vm.run_op(OpCode::Input, at(1, 0));
    assert_eq!(out.action, Action::ReadLine);
}

#[test]
fn taken_jump_at_the_last_addresses() {
    // key 0xF6: the unwritten cell under the program counter reads as `Jz`,
    // and the one after it as the target 0xF6
    let mut vm = VM::new(at(0xF6, 0));
    vm.pc = usize::MAX - 1;
    vm.stack.push(0);
    assert_eq!(vm.fault(OpCode::Jz), None);
    let (_, action) = ran(vm.exec_step(OpCode::Jz, at(0xF6, 0)));
    assert_eq!(action, Action::Settle);
    assert_eq!(vm.pc(), 0xF6);
    vm.pc = usize::MAX - 1;
    vm.stack.push(1);
    assert_eq!(vm.fault(OpCode::Jz), Some(Fault::PcOverflow));
}

#[test]
fn cloned_machine_keeps_its_program() {
    let mut vm = load(0x1234, &[0xF1, 9, 0xF2]);
    vm.stack.push(5);
    let mut copy = vm.clone();
    assert_eq!(copy.ram_len(), 3);
    for i in 0..4usize {
        assert_eq!(copy.get_raw(i), vm.get_raw(i));
    }
    assert_eq!(copy.stack().clone(), vec![5]);
    assert_eq!(copy.pc(), 0);
}
