use vm_core::debugger::{parse_command, Command, Debugger};
use vm_core::machine::{Action, Clock, Step, VM};

fn at(wall: u128, mono: u128) -> Clock {
    Clock { wall, mono }
}

fn debugger(wall: u128, bytes: &[u8]) -> Debugger {
    let mut vm = VM::new(at(wall, 0));
    for b in bytes {
        vm.add_byte(*b);
    }
    Debugger::new(vm)
}

fn words(ws: &[&str]) -> Vec<String> {
    ws.iter().map(|w| w.to_string()).collect()
}

#[test]
fn commands_ignore_case() {
    let mut d = debugger(1, &[]);
    assert_eq!(d.exec_cmd(&words(&["CONTINUE"])), Command::Continue);
    assert_eq!(d.exec_cmd(&words(&["c"])), Command::Continue);
    assert_eq!(d.exec_cmd(&words(&["Next"])), Command::Next);
    assert_eq!(d.exec_cmd(&words(&["n", "x"])), Command::Next);
    assert_eq!(d.exec_cmd(&words(&["BreakPoint", "3"])), Command::Break);
    assert_eq!(d.exec_cmd(&words(&["b"])), Command::Break);
    assert_eq!(d.exec_cmd(&words(&["break"])), Command::Break);
    assert_eq!(d.exec_cmd(&words(&["EXIT"])), Command::Exit);
    assert_eq!(d.exec_cmd(&words(&["D"])), Command::Debug);
    assert_eq!(d.exec_cmd(&words(&["debug"])), Command::Debug);
    assert_eq!(d.exec_cmd(&words(&["run"])), Command::Unknown);
    assert_eq!(parse_command(&"Next".to_string()), Command::Unknown);
    assert_eq!(parse_command(&"next".to_string()), Command::Next);
}

#[test]
fn exit_ends_the_session() {
    let mut d = debugger(1, &[]);
    assert_eq!(d.cmd_exit(&words(&["exit"])), Err(()));
}

#[test]
fn breakpoints_on_known_functions() {
    // 0: Call 3, 2: Nay, 3: FN 3, 5: Push 9
    let mut d = debugger(5, &[0xF7, 3, 0xF0, 0xED, 3, 0xF1, 9]);
    d.vm.ftable();
    let (res, text) = d.cmd_break(&words(&["b"]));
    assert_eq!(res, Ok(()));
    assert_eq!(text, b"usage: break <fn_id>\nor: break *<pc>\n".to_vec());
    let (res, text) = d.cmd_break(&words(&["b", "3"]));
    assert_eq!(res, Ok(()));
    assert_eq!(text, b"added breakpoint on 3 pc 3\n".to_vec());
    assert_eq!(d.breakpoints, vec![3]);
    let (_, text) = d.cmd_break(&words(&["b", "+3"]));
    assert_eq!(text, b"added breakpoint on 3 pc 3\n".to_vec());
    assert_eq!(d.breakpoints, vec![3, 3]);
    for bad in ["4", "x", "300", "-3", "", "+", " 3"] {
        let (res, text) = d.cmd_break(&words(&["b", bad]));
        assert_eq!(res, Ok(()));
        assert!(text.is_empty());
    }
    assert_eq!(d.breakpoints, vec![3, 3]);
}

#[test]
fn continue_stops_at_a_breakpoint() {
    let mut d = debugger(5, &[0xF1, 1, 0xF7, 3, 0xF0, 0xED, 3, 0xF1, 9]);
    d.vm.ftable();
    d.cmd_break(&words(&["b", "3"]));
    let clock = at(5, 0);
    assert!(matches!(d.continue_step(clock, clock), Step::Ran(_)));
    assert_eq!(d.vm.pc(), 2);
    match d.continue_step(clock, clock) {
        Step::Halt(text) => assert_eq!(text, b"hit breakpoint 3\n".to_vec()),
        other => panic!("expected a halt, got {:?}", other),
    }
    assert_eq!(d.vm.pc(), 2);
    d.breakpoints.clear();
    assert!(matches!(d.continue_step(clock, clock), Step::Ran(_)));
    assert_eq!(d.vm.pc(), 5);
}

#[test]
fn next_runs_one_operation() {
    let mut d = debugger(9, &[0xF1, 4, 0x00]);
    let clock = at(9, 0);
    assert!(matches!(d.cmd_next(&words(&["n"]), clock, clock), Step::Ran(_)));
    assert_eq!(d.vm.stack().clone(), vec![4]);
    assert!(matches!(d.cmd_next(&words(&["n"]), clock, clock), Step::Idle));
    assert_eq!(d.vm.pc(), 2);
}

#[test]
fn debug_lists_code_around_pc() {
    let mut d = debugger(0, &[0xF1, 7, 0xF2, 0x01, 0xED, 2]);
    let text = d.cmd_debug(&words(&["d"]), b"B", b"S");
    assert_eq!(
        String::from_utf8(text).unwrap(),
        "B\n-> 0: Push(7)\n   2: Pop()\n   4: FN(2)\n\nS\n\n"
    );
    let mut d = debugger(77, &[0xF2, 0xF2, 0xF2, 0xF2, 0xFA, 1, 2, 0xF2, 0xF2, 0xF2, 0xF2]);
    d.vm.pc = 4;
    d.vm.stack.push(10);
    d.vm.stack.push(20);
    let text = d.cmd_debug(&words(&["d"]), b"==", b"--");
    assert_eq!(
        String::from_utf8(text).unwrap(),
        "==\n   1: Pop()\n   2: Pop()\n   3: Pop()\n-> 4: Store(1 2)\n   7: Pop()\n   8: Pop()\n   9: Pop()\n\n--\n0: 10\n1: 20\n\n"
    );
}

#[test]
fn slow_next_scrambles_once_settled() {
    let mut d = debugger(9, &[0xF2, 0xF2, 0xF2]);
    match d.cmd_next(&words(&["n"]), at(9, 0), at(9, 0)) {
        Step::Ran(o) => assert_eq!(o.action, Action::Settle),
        other => panic!("expected a run, got {:?}", other),
    }
    d.vm.settle(at(9, 3 * 1_000_000_000));
    assert_eq!(d.vm.get_raw(2), Some(0xF0));
}
