use vm_core::opcode::OpCode;
use vm_core::ram::RAM;
use vm_core::text::{line_bytes, push_decimal};

#[test]
fn from_u8_decodes_every_code() {
    let expected = [
        (0xED, OpCode::FN),
        (0xEE, OpCode::Nyaa),
        (0xEF, OpCode::Meow),
        (0xF0, OpCode::Nay),
        (0xF1, OpCode::Push),
        (0xF2, OpCode::Pop),
        (0xF3, OpCode::Add),
        (0xF4, OpCode::Sub),
        (0xF5, OpCode::Jmp),
        (0xF6, OpCode::Jz),
        (0xF7, OpCode::Call),
        (0xF8, OpCode::Ret),
        (0xF9, OpCode::Load),
        (0xFA, OpCode::Store),
        (0xFB, OpCode::Print),
        (0xFC, OpCode::Input),
        (0xFD, OpCode::Eq),
        (0xFE, OpCode::Check),
        (0xFF, OpCode::Debug),
    ];
    for (b, op) in expected {
        assert_eq!(OpCode::from_u8(b), Some(op));
        assert_eq!(op.code(), b);
    }
    assert_eq!(OpCode::from_u8(0xEC), None);
    assert_eq!(OpCode::from_u8(0x00), None);
    assert_eq!(OpCode::from_u8(0x7F), None);
}

#[test]
fn iterator_lists_each_operation_once() {
    let ops = OpCode::iterator();
    assert_eq!(ops.len(), 19);
    assert_eq!(ops[0], OpCode::Push);
    assert_eq!(ops[18], OpCode::FN);
    for i in 0..ops.len() {
        for j in (i + 1)..ops.len() {
            assert_ne!(ops[i], ops[j]);
        }
    }
}

#[test]
fn find_code_agrees_with_from_u8() {
    for b in 0..=255u8 {
        assert_eq!(OpCode::find_code(b), OpCode::from_u8(b));
        if let Some(op) = OpCode::from_u8(b) {
            assert_eq!(op.code(), b);
        }
    }
}

#[test]
fn arg_sizes_and_names() {
    assert_eq!(OpCode::Store.arg_size(), 2);
    assert_eq!(OpCode::Push.arg_size(), 1);
    assert_eq!(OpCode::FN.arg_size(), 1);
    assert_eq!(OpCode::Pop.arg_size(), 0);
    assert_eq!(OpCode::Nay.arg_size(), 0);
    let mut out = Vec::new();
    OpCode::Push.push_name(&mut out);
    OpCode::FN.push_name(&mut out);
    OpCode::Check.push_name(&mut out);
    assert_eq!(out, b"PushFNCheck".to_vec());
}

#[test]
fn ram_reads_back_what_it_stores() {
    let mut ram = RAM::setup(0x1_0000_0005);
    assert_eq!(ram.len(), 0);
    assert_eq!(ram.get(0).unwrap(), 0);
    ram.push(10);
    ram.add_byte(20);
    ram.push(30);
    assert_eq!(ram.len(), 3);
    assert_eq!(ram.get(0).unwrap(), 10);
    assert_eq!(ram.get(1).unwrap(), 20);
    assert_eq!(ram.get(2).unwrap(), 30);
    assert_eq!(ram.get_value(1), 20);
    assert_eq!(ram.index(2), 30);
    ram.set(1, 99);
    assert_eq!(ram.get(1).unwrap(), 99);
    assert_eq!(ram.get(0).unwrap(), 10);
    ram.index_set(0, 7);
    assert_eq!(ram.get(0).unwrap(), 7);
    assert_eq!(ram.len(), 3);
}

#[test]
fn ram_set_far_address_reads_zero_between() {
    let mut ram = RAM::setup(3);
    ram.set(100, 42);
    assert_eq!(ram.get(100).unwrap(), 42);
    assert_eq!(ram.get(50).unwrap(), 0);
    assert_eq!(ram.get(5000).unwrap(), 0);
    assert_eq!(ram.len(), 0);
    assert!(ram.has_cell(100));
    assert!(!ram.has_cell(5000));
}

#[test]
fn ram_debug_keeps_bytes_secret() {
    let mut ram = RAM::setup(9);
    ram.push(1);
    assert_eq!(ram.debug(), "Zeroizing { .. }\n");
}

#[test]
fn decimal_rendering() {
    let mut out = Vec::new();
    push_decimal(&mut out, 0);
    out.push(b' ');
    push_decimal(&mut out, 255);
    out.push(b' ');
    push_decimal(&mut out, 1234);
    assert_eq!(out, b"0 255 1234".to_vec());
}

#[test]
fn line_loses_its_last_character() {
    assert_eq!(line_bytes("abc\n"), b"abc".to_vec());
    assert_eq!(line_bytes("ab"), b"a".to_vec());
    assert_eq!(line_bytes(""), Vec::<u8>::new());
    assert_eq!(line_bytes("h\u{e9}"), b"h".to_vec());
    assert_eq!(line_bytes("\u{e9}\n"), "\u{e9}".as_bytes().to_vec());
}

#[test]
fn cloned_ram_reads_the_same() {
    let mut ram = RAM::setup(0x4321);
    ram.push(7);
    ram.add_byte(8);
    let copy = ram.clone();
    assert_eq!(copy.len(), 2);
    for i in 0..3usize {
        assert_eq!(copy.get(i).unwrap(), ram.get(i).unwrap());
    }
}
