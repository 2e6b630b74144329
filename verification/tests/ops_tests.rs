use std::collections::HashMap;
use vm_core::ops::{
    impl_Meow, impl_Nyaa, impl_add, impl_call, impl_dup, impl_eq, impl_input, impl_jmp, impl_jz,
    impl_load, impl_nay, impl_pop, impl_print, impl_push, impl_ret, impl_store, impl_sub,
};
use vm_core::ram::RAM;

/// A memory with key 0 holding `bytes` scrambled by the machine key `key`.
fn memory(bytes: &[u8], key: u8) -> RAM {
    let mut ram = RAM::setup(0);
    for b in bytes {
        ram.push(b ^ key);
    }
    ram
}

#[test]
fn push_reads_its_argument() {
    let mut ram = memory(&[0xF1, 42], 0x5A);
    let mut pc = 0usize;
    let mut stack = vec![1u8];
    assert!(!impl_push(&mut pc, &mut ram, &mut stack, 0x5A));
    assert_eq!(stack, vec![1, 42]);
    assert_eq!(pc, 2);
}

#[test]
fn pop_add_sub_wrap() {
    let mut ram = memory(&[], 0);
    let mut pc = 0usize;
    let mut stack = vec![200u8, 100];
    assert!(impl_add(&mut pc, &mut ram, &mut stack));
    assert_eq!(stack, vec![44]);
    assert_eq!(pc, 1);
    let mut stack = vec![5u8, 7];
    assert!(impl_sub(&mut pc, &mut ram, &mut stack));
    assert_eq!(stack, vec![254]);
    assert_eq!(pc, 2);
    let mut stack = vec![9u8];
    impl_add(&mut pc, &mut ram, &mut stack);
    assert_eq!(stack, vec![9]);
    let mut stack: Vec<u8> = vec![];
    impl_sub(&mut pc, &mut ram, &mut stack);
    assert_eq!(stack, vec![0]);
    assert!(impl_pop(&mut pc, &mut ram, &mut stack));
    assert!(stack.is_empty());
    assert!(impl_pop(&mut pc, &mut ram, &mut stack));
    assert_eq!(pc, 6);
}

#[test]
fn jumps() {
    let mut ram = memory(&[0xF5, 9, 0xF6, 20], 3);
    let mut pc = 0usize;
    let mut stack = vec![0u8, 1];
    assert!(impl_jmp(&mut pc, &mut ram, &mut stack, 3));
    assert_eq!(pc, 9);
    pc = 2;
    assert!(impl_jz(&mut pc, &mut ram, &mut stack, 3));
    assert_eq!(pc, 4);
    assert_eq!(stack, vec![0]);
    pc = 2;
    assert!(impl_jz(&mut pc, &mut ram, &mut stack, 3));
    assert_eq!(pc, 20);
    assert!(stack.is_empty());
}

#[test]
fn call_and_ret() {
    let mut ram = memory(&[0xF7, 4, 0xF7, 5], 0);
    let mut table = HashMap::new();
    table.insert(4u8, 77usize);
    let mut pc = 0usize;
    let mut stack = vec![12u8];
    assert!(impl_call(&table, &mut pc, &mut ram, &mut stack, 0));
    assert_eq!(pc, 77);
    pc = 2;
    assert!(!impl_call(&table, &mut pc, &mut ram, &mut stack, 0));
    assert_eq!(pc, 2);
    assert!(impl_ret(&mut pc, &mut ram, &mut stack));
    assert_eq!(pc, 12);
    assert!(!impl_ret(&mut pc, &mut ram, &mut stack));
    assert_eq!(pc, 12);
}

#[test]
fn store_then_load() {
    let key = 0x21u8;
    let mut ram = memory(&[0xFA, 1, 0, 0xF9], key);
    let mut pc = 0usize;
    let mut stack = vec![0x33u8, 8];
    assert!(impl_store(&mut pc, &mut ram, &mut stack, key));
    assert_eq!(pc, 3);
    assert_eq!(stack, vec![8]);
    assert_eq!(ram.get(1).unwrap() ^ key, 0x33);
    let mut stack = vec![1u8];
    assert!(impl_load(&mut pc, &mut ram, &mut stack, key));
    assert_eq!(stack, vec![0x33]);
    assert_eq!(pc, 4);
    let mut stack: Vec<u8> = vec![];
    impl_store(&mut pc, &mut ram, &mut stack, key);
    assert_eq!(pc, 7);
    impl_load(&mut pc, &mut ram, &mut stack, key);
    assert!(stack.is_empty());
    assert_eq!(pc, 8);
}

#[test]
fn eq_compares_top_two() {
    let mut ram = memory(&[], 0);
    let mut pc = 0usize;
    let mut stack = vec![1u8, 4, 4];
    assert!(impl_eq(&mut pc, &mut ram, &mut stack, 0));
    assert_eq!(stack, vec![1, 1]);
    let mut stack = vec![3u8, 4];
    impl_eq(&mut pc, &mut ram, &mut stack, 0);
    assert_eq!(stack, vec![0]);
    impl_eq(&mut pc, &mut ram, &mut stack, 0);
    assert_eq!(stack, vec![0, 0]);
    assert_eq!(pc, 3);
}

#[test]
fn check_sums_the_stack() {
    let mut ram = memory(&[], 0);
    let mut pc = 10usize;
    let mut stack = vec![253u8; 15];
    stack.push(2);
    assert!(!impl_dup(&mut pc, &mut ram, &mut stack, 0));
    assert_eq!(pc, 87);
    assert!(stack.is_empty());
    let mut stack = vec![1u8, 2];
    pc = 10;
    impl_dup(&mut pc, &mut ram, &mut stack, 0);
    assert_eq!(pc, 2);
    assert!(stack.is_empty());
    let mut stack = vec![1u8; 37];
    pc = 10;
    impl_dup(&mut pc, &mut ram, &mut stack, 0);
    assert_eq!(pc, 12);
    assert_eq!(stack.len(), 37);
}

#[test]
fn writing_operations() {
    let mut ram = memory(&[0xFB, 1, 0xFB, 9], 0);
    let mut pc = 0usize;
    let mut stack = vec![65u8, 66];
    let (_, out) = impl_print(&mut pc, &mut ram, &mut stack, 0);
    assert_eq!(out, vec![66]);
    assert_eq!(pc, 2);
    let (_, out) = impl_print(&mut pc, &mut ram, &mut stack, 0);
    assert_eq!(out, vec![0]);
    let mut stack = vec![b'x'];
    let (_, out) = impl_Nyaa(&mut pc, &mut ram, &mut stack, 0);
    assert_eq!(out, b"xNyaaNyaaaa\n".to_vec());
    assert_eq!(stack, b"xNyaa".to_vec());
    let mut stack: Vec<u8> = vec![];
    let (flag, out) = impl_Meow(&mut pc, &mut ram, &mut stack, 0);
    assert!(!flag);
    assert_eq!(out, b"Meowww".to_vec());
    assert_eq!(pc, 8);
    assert_eq!(impl_nay(&mut pc, &mut ram, &mut stack, 0), 1);
    assert_eq!(pc, 8);
}

#[test]
fn input_pushes_the_line() {
    let mut ram = memory(&[], 0);
    let mut pc = 4usize;
    let mut stack = vec![9u8];
    assert!(impl_input(&mut pc, &mut ram, &mut stack, 0, "hi\n"));
    assert_eq!(stack, vec![9, b'h', b'i', 0]);
    assert_eq!(pc, 5);
}

#[test]
fn calc_sums_and_empties() {
    let mut stack = vec![1u8, 2, 255];
    assert_eq!(vm_core::ops::calc(10, &mut stack), 268);
    assert!(stack.is_empty());
}

#[test]
fn add_then_sub_cancels() {
    let mut ram = memory(&[], 0);
    let mut pc = 0usize;
    for (b, a) in [(0u8, 0u8), (250, 10), (3, 255), (128, 128)] {
        let mut stack = vec![b, a];
        impl_add(&mut pc, &mut ram, &mut stack);
        stack.push(a);
        impl_sub(&mut pc, &mut ram, &mut stack);
        assert_eq!(stack, vec![b]);
    }
}

#[test]
fn push_then_pop_restores_stack() {
    let mut ram = memory(&[0xF1, 99, 0xF2], 0x44);
    let mut pc = 0usize;
    let mut stack = vec![5u8, 6];
    impl_push(&mut pc, &mut ram, &mut stack, 0x44);
    impl_pop(&mut pc, &mut ram, &mut stack);
    assert_eq!(stack, vec![5, 6]);
    assert_eq!(pc, 3);
}
