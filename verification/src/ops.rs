//! What each operation does to the program counter, the memory and the
//! stack. An operation's argument is the byte after it, unscrambled by the
//! machine key.
use crate::opcode::OpCode;
use crate::ram::{lemma_read_write, lemma_write_keeps_wf, RamModel, RAM};
use crate::text::{line_bytes, without_last_char};
use std::collections::HashMap;
use vstd::prelude::*;
use vstd::string::StringSliceAdditionalSpecFns;

verus! {

broadcast use vstd::std_specs::hash::group_hash_axioms;

/// The part of the machine that operations act on.
pub struct Core {
    pub pc: usize,
    pub ram: RamModel,
    pub stack: Seq<u8>,
}

/// The stack without its top and the top, or the stack and zero when it is
/// empty.
pub open spec fn pop_or_zero(s: Seq<u8>) -> (Seq<u8>, u8) {
    if s.len() > 0 {
        (s.drop_last(), s.last())
    } else {
        (s, 0u8)
    }
}

/// The sum of the bytes of `s`.
pub open spec fn total(s: Seq<u8>) -> nat
    decreases s.len(),
{
    if s.len() == 0 {
        0
    } else {
        total(s.drop_last()) + s.last() as nat
    }
}

/// `b + a` modulo 256.
pub open spec fn add_mod(b: u8, a: u8) -> u8 {
    ((b as int + a as int) % 256) as u8
}

/// `b - a` modulo 256.
pub open spec fn sub_mod(b: u8, a: u8) -> u8 {
    ((b as int - a as int) % 256) as u8
}

/// The stack length at which `Check` leaves the stack alone.
pub const CHECK_LEN: usize = 37;

/// The stack sum that `Check` accepts.
pub const CHECK_SUM: usize = 3797;

/// Where `Check` jumps to on the accepted sum, before it moves past itself.
pub const CHECK_TARGET: usize = 85;

/// The text that `Nyaa` adds to the stack.
pub open spec fn nyaa_bytes() -> Seq<u8> {
    seq![78u8, 121, 97, 97]
}

/// The text that `Meow` adds to the stack.
pub open spec fn meow_bytes() -> Seq<u8> {
    seq![77u8, 101, 111, 119, 119, 119]
}

/// The line that `Nyaa` writes after the stack: `Nyaaaa` and a line feed.
pub open spec fn nyaa_tail() -> Seq<u8> {
    seq![78u8, 121, 97, 97, 97, 97, 10]
}

impl Core {
    /// The unscrambled byte at `a`.
    pub open spec fn decoded(self, key: u8, a: usize) -> u8 {
        self.ram.read(a) ^ key
    }

    /// The argument of the operation under `pc`.
    pub open spec fn arg(self, key: u8) -> u8 {
        self.decoded(key, (self.pc + 1) as usize)
    }

    pub open spec fn at(self, pc: int) -> Core {
        Core { pc: pc as usize, ..self }
    }

    pub open spec fn with_stack(self, s: Seq<u8>) -> Core {
        Core { stack: s, ..self }
    }

    /// The state after `op`, for every operation but `Input` (which waits
    /// for a line, see `after_input`) and `Nay` (which ends the process).
    pub open spec fn step(self, op: OpCode, key: u8, table: Map<u8, usize>) -> Core {
        let s = self.stack;
        let pc = self.pc as int;
        match op {
            OpCode::FN => self.at(pc + 2),
            OpCode::Nyaa => self.with_stack(s + nyaa_bytes()).at(pc + 2),
            OpCode::Meow => self.with_stack(s + meow_bytes()).at(pc + 2),
            OpCode::Nay => self,
            OpCode::Push => self.with_stack(s.push(self.arg(key))).at(pc + 2),
            OpCode::Pop => self.with_stack(pop_or_zero(s).0).at(pc + 1),
            OpCode::Add => {
                let (s1, a) = pop_or_zero(s);
                let (s2, b) = pop_or_zero(s1);
                self.with_stack(s2.push(add_mod(b, a))).at(pc + 1)
            },
            OpCode::Sub => {
                let (s1, a) = pop_or_zero(s);
                let (s2, b) = pop_or_zero(s1);
                self.with_stack(s2.push(sub_mod(b, a))).at(pc + 1)
            },
            OpCode::Jmp => self.at(self.arg(key) as int),
            OpCode::Jz => {
                let c = self.with_stack(s.drop_last());
                if s.last() == 0 {
                    c.at(self.arg(key) as int)
                } else {
                    c.at(pc + 2)
                }
            },
            OpCode::Call => {
                if table.contains_key(self.arg(key)) {
                    self.at(table[self.arg(key)] as int)
                } else {
                    self
                }
            },
            OpCode::Ret => {
                if s.len() > 0 {
                    self.with_stack(s.drop_last()).at(s.last() as int)
                } else {
                    self
                }
            },
            OpCode::Load => {
                if s.len() > 0 {
                    let v = self.ram.read(s.last() as usize) ^ key;
                    self.with_stack(s.drop_last().push(v)).at(pc + 1)
                } else {
                    self.at(pc + 1)
                }
            },
            OpCode::Store => {
                if s.len() > 0 {
                    Core {
                        pc: (pc + 3) as usize,
                        ram: self.ram.write(self.arg(key) as usize, s[0] ^ key),
                        stack: s.drop_first(),
                    }
                } else {
                    self.at(pc + 3)
                }
            },
            OpCode::Print => self.at(pc + 2),
            OpCode::Input => self,
            OpCode::Eq => {
                if s.len() >= 2 {
                    let a = s[s.len() - 1];
                    let b = s[s.len() - 2];
                    self.with_stack(
                        s.subrange(0, s.len() - 2).push(if a == b { 1u8 } else { 0u8 }),
                    ).at(pc + 1)
                } else {
                    self.with_stack(s.push(0)).at(pc + 1)
                }
            },
            OpCode::Check => {
                if s.len() != CHECK_LEN {
                    let target = if total(s) == CHECK_SUM { CHECK_TARGET } else { 0 };
                    self.with_stack(Seq::empty()).at(target + 2)
                } else {
                    self.at(pc + 2)
                }
            },
            OpCode::Debug => self.at(pc + 1),
        }
    }

    /// The text that `op` writes.
    pub open spec fn output(self, op: OpCode, key: u8) -> Seq<u8> {
        match op {
            OpCode::Nyaa => self.stack + nyaa_bytes() + nyaa_tail(),
            OpCode::Meow => self.stack + meow_bytes(),
            OpCode::Print => {
                let d = self.arg(key) as int;
                seq![if d < self.stack.len() { self.stack[d] } else { 0u8 }]
            },
            _ => Seq::empty(),
        }
    }

    /// The state after `Input` has read `line` (the UTF-8 bytes of the line
    /// as read, line feed included): the line without its last character,
    /// then a zero byte, go onto the stack.
    pub open spec fn after_input(self, line: Seq<u8>) -> Core {
        self.with_stack(self.stack + without_last_char(line) + seq![0u8]).at(self.pc + 1)
    }

    /// How far beyond `pc` the operation reads or moves the program counter
    /// before it is done; `pc` plus this must fit in a `usize`. (`Jz` pops
    /// first, and moves on by two only when it does not jump.)
    pub open spec fn reach(self, op: OpCode) -> int {
        match op {
            OpCode::Nay | OpCode::Ret => 0,
            OpCode::Store => 3,
            OpCode::FN | OpCode::Nyaa | OpCode::Meow | OpCode::Push | OpCode::Print => 2,
            OpCode::Jz => if self.stack.len() == 0 {
                0
            } else if self.stack.last() == 0 {
                1
            } else {
                2
            },
            OpCode::Check => if self.stack.len() != CHECK_LEN { 0 } else { 2 },
            _ => 1,
        }
    }

    /// The inputs on which `op` completes; on the others the operation
    /// panics: an unwrap of an empty stack for `Jz`, an index past the cells
    /// for `Store`, an overflowing sum for `Check`, an overflowing program
    /// counter for every operation.
    pub open spec fn completes(self, op: OpCode, key: u8) -> bool {
        &&& self.pc + self.reach(op) <= usize::MAX
        &&& op == OpCode::Jz ==> self.stack.len() > 0
        &&& op == OpCode::Store && self.stack.len() > 0 ==> self.ram.present(self.arg(key) as usize)
        &&& op == OpCode::Check && self.stack.len() != CHECK_LEN ==> total(self.stack) <= usize::MAX
    }
}

/// Reads the argument of the operation under `pc`.
fn read_arg(pc: usize, ram: &RAM, key: u8) -> (r: u8)
    requires
        pc + 1 <= usize::MAX,
    ensures
        r == ram@.read((pc + 1) as usize) ^ key,
{
    match ram.get(pc + 1) {
        Ok(b) => b ^ key,
        Err(_) => 0,
    }
}

/// The state of the three parts that operations act on.
pub open spec fn core_of(pc: usize, ram: RamModel, stack: Seq<u8>) -> Core {
    Core { pc, ram, stack }
}

/// `Nyaa`: pushes `Nyaa`, writes the stack and `Nyaaaa` with a line feed.
pub fn impl_Nyaa(pc: &mut usize, ram: &mut RAM, stack: &mut Vec<u8>, key: u8) -> (r: (bool, Vec<u8>))
    requires
        core_of(*old(pc), old(ram)@, old(stack)@).completes(OpCode::Nyaa, key),
    ensures
        core_of(*final(pc), final(ram)@, final(stack)@) == core_of(*old(pc), old(ram)@, old(stack)@).step(OpCode::Nyaa, key, Map::empty()),
        r.1@ == core_of(*old(pc), old(ram)@, old(stack)@).output(OpCode::Nyaa, key),
        !r.0,
{
    stack.push(78);
    stack.push(121);
    stack.push(97);
    stack.push(97);
    let mut out: Vec<u8> = Vec::new();
    let mut i: usize = 0;
    while i < stack.len()
        invariant
            0 <= i <= stack.len(),
            out@ == stack@.subrange(0, i as int),
        decreases stack.len() - i,
    {
        out.push(stack[i]);
        i = i + 1;
        assert(out@ =~= stack@.subrange(0, i as int));
    }
    out.push(78);
    out.push(121);
    out.push(97);
    out.push(97);
    out.push(97);
    out.push(97);
    out.push(10);
    *pc = *pc + 2;
    proof {
        assert(stack@ =~= old(stack)@ + nyaa_bytes());
        assert(stack@.subrange(0, stack@.len() as int) =~= stack@);
        assert(out@ =~= old(stack)@ + nyaa_bytes() + nyaa_tail());
    }
    (false, out)
}

/// `Meow`: pushes `Meowww` and writes the stack.
pub fn impl_Meow(pc: &mut usize, ram: &mut RAM, stack: &mut Vec<u8>, key: u8) -> (r: (bool, Vec<u8>))
    requires
        core_of(*old(pc), old(ram)@, old(stack)@).completes(OpCode::Meow, key),
    ensures
        core_of(*final(pc), final(ram)@, final(stack)@) == core_of(*old(pc), old(ram)@, old(stack)@).step(OpCode::Meow, key, Map::empty()),
        r.1@ == core_of(*old(pc), old(ram)@, old(stack)@).output(OpCode::Meow, key),
        !r.0,
{
    stack.push(77);
    stack.push(101);
    stack.push(111);
    stack.push(119);
    stack.push(119);
    stack.push(119);
    let mut out: Vec<u8> = Vec::new();
    let mut i: usize = 0;
    while i < stack.len()
        invariant
            0 <= i <= stack.len(),
            out@ == stack@.subrange(0, i as int),
        decreases stack.len() - i,
    {
        out.push(stack[i]);
        i = i + 1;
        assert(out@ =~= stack@.subrange(0, i as int));
    }
    *pc = *pc + 2;
    proof {
        assert(stack@ =~= old(stack)@ + meow_bytes());
        assert(stack@.subrange(0, stack@.len() as int) =~= stack@);
    }
    (false, out)
}

/// The process exit status that `Nay` ends the process with.
pub const NAY_STATUS: i32 = 1;

/// `Nay`: ends the process with status 1. The state is left as it is; the
/// status is handed back for the caller to exit with.
pub fn impl_nay(pc: &mut usize, ram: &mut RAM, stack: &mut Vec<u8>, key: u8) -> (r: i32)
    ensures
        *final(pc) == *old(pc),
        final(ram)@ == old(ram)@,
        final(stack)@ == old(stack)@,
        r == NAY_STATUS,
{
    NAY_STATUS
}

/// `Print`: writes the stack byte whose index is the argument, or a zero
/// byte where there is none.
pub fn impl_print(pc: &mut usize, ram: &mut RAM, stack: &mut Vec<u8>, key: u8) -> (r: (bool, Vec<u8>))
    requires
        core_of(*old(pc), old(ram)@, old(stack)@).completes(OpCode::Print, key),
    ensures
        core_of(*final(pc), final(ram)@, final(stack)@) == core_of(*old(pc), old(ram)@, old(stack)@).step(OpCode::Print, key, Map::empty()),
        r.1@ == core_of(*old(pc), old(ram)@, old(stack)@).output(OpCode::Print, key),
        !r.0,
{
    let dest = read_arg(*pc, ram, key);
    let c: u8 = if (dest as usize) < stack.len() { stack[dest as usize] } else { 0 };
    let mut out: Vec<u8> = Vec::new();
    out.push(c);
    *pc = *pc + 2;
    (false, out)
}

/// `Push`: pushes the argument.
pub fn impl_push(pc: &mut usize, ram: &mut RAM, stack: &mut Vec<u8>, key: u8) -> (r: bool)
    requires
        core_of(*old(pc), old(ram)@, old(stack)@).completes(OpCode::Push, key),
    ensures
        core_of(*final(pc), final(ram)@, final(stack)@) == core_of(*old(pc), old(ram)@, old(stack)@).step(OpCode::Push, key, Map::empty()),
        !r,
{
    let dest = read_arg(*pc, ram, key);
    stack.push(dest);
    *pc = *pc + 2;
    false
}

/// `Pop`: drops the top of the stack, if any.
pub fn impl_pop(pc: &mut usize, _ram: &mut RAM, stack: &mut Vec<u8>) -> (r: bool)
    requires
        *old(pc) + 1 <= usize::MAX,
    ensures
        core_of(*final(pc), final(_ram)@, final(stack)@) == core_of(*old(pc), old(_ram)@, old(stack)@).step(OpCode::Pop, 0, Map::empty()),
        r,
{
    stack.pop();
    *pc = *pc + 1;
    true
}

/// `Add`: replaces the two top bytes, zeros where missing, with their sum
/// modulo 256.
pub fn impl_add(pc: &mut usize, _ram: &mut RAM, stack: &mut Vec<u8>) -> (r: bool)
    requires
        *old(pc) + 1 <= usize::MAX,
    ensures
        core_of(*final(pc), final(_ram)@, final(stack)@) == core_of(*old(pc), old(_ram)@, old(stack)@).step(OpCode::Add, 0, Map::empty()),
        r,
{
    let a = match stack.pop() {
        Some(v) => v,
        None => 0,
    };
    let b = match stack.pop() {
        Some(v) => v,
        None => 0,
    };
    let c = b.wrapping_add(a);
    assert(c == add_mod(b, a));
    stack.push(c);
    *pc = *pc + 1;
    true
}

/// `Sub`: replaces the two top bytes, zeros where missing, with the lower
/// minus the top modulo 256.
pub fn impl_sub(pc: &mut usize, _ram: &mut RAM, stack: &mut Vec<u8>) -> (r: bool)
    requires
        *old(pc) + 1 <= usize::MAX,
    ensures
        core_of(*final(pc), final(_ram)@, final(stack)@) == core_of(*old(pc), old(_ram)@, old(stack)@).step(OpCode::Sub, 0, Map::empty()),
        r,
{
    let a = match stack.pop() {
        Some(v) => v,
        None => 0,
    };
    let b = match stack.pop() {
        Some(v) => v,
        None => 0,
    };
    let c = b.wrapping_sub(a);
    assert(c == sub_mod(b, a));
    stack.push(c);
    *pc = *pc + 1;
    true
}

/// `Jmp`: jumps to the argument.
pub fn impl_jmp(pc: &mut usize, ram: &mut RAM, stack: &mut Vec<u8>, key: u8) -> (r: bool)
    requires
        core_of(*old(pc), old(ram)@, old(stack)@).completes(OpCode::Jmp, key),
    ensures
        core_of(*final(pc), final(ram)@, final(stack)@) == core_of(*old(pc), old(ram)@, old(stack)@).step(OpCode::Jmp, key, Map::empty()),
        r,
{
    let dest = read_arg(*pc, ram, key);
    *pc = dest as usize;
    true
}

/// `Jz`: pops the top of the stack, which must exist, and jumps to the
/// argument where it is zero; moves on otherwise.
pub fn impl_jz(pc: &mut usize, ram: &mut RAM, stack: &mut Vec<u8>, key: u8) -> (r: bool)
    requires
        core_of(*old(pc), old(ram)@, old(stack)@).completes(OpCode::Jz, key),
    ensures
        core_of(*final(pc), final(ram)@, final(stack)@) == core_of(*old(pc), old(ram)@, old(stack)@).step(OpCode::Jz, key, Map::empty()),
        r,
{
    let val = match stack.pop() {
        Some(v) => v,
        None => 0,
    };
    let dest = read_arg(*pc, ram, key);
    if val == 0 {
        *pc = dest as usize;
        return true;
    }
    *pc = *pc + 2;
    true
}

/// `Call`: jumps to the entry that the function table gives for the
/// argument; where it gives none, nothing changes and `false` comes back.
pub fn impl_call(
    ftable: &HashMap<u8, usize>,
    pc: &mut usize,
    ram: &mut RAM,
    stack: &mut Vec<u8>,
    key: u8,
) -> (r: bool)
    requires
        core_of(*old(pc), old(ram)@, old(stack)@).completes(OpCode::Call, key),
    ensures
        core_of(*final(pc), final(ram)@, final(stack)@) == core_of(*old(pc), old(ram)@, old(stack)@).step(OpCode::Call, key, ftable@),
        r == ftable@.contains_key(core_of(*old(pc), old(ram)@, old(stack)@).arg(key)),
{
    let dest = read_arg(*pc, ram, key);
    match ftable.get(&dest) {
        Some(idx) => {
            *pc = *idx;
            true
        },
        None => false,
    }
}

/// `Ret`: pops the top of the stack and jumps to it; with an empty stack
/// nothing changes and `false` comes back.
pub fn impl_ret(pc: &mut usize, ram: &mut RAM, stack: &mut Vec<u8>) -> (r: bool)
    ensures
        core_of(*final(pc), final(ram)@, final(stack)@) == core_of(*old(pc), old(ram)@, old(stack)@).step(OpCode::Ret, 0, Map::empty()),
        r == (old(stack)@.len() > 0),
{
    match stack.pop() {
        Some(addr) => {
            *pc = addr as usize;
            true
        },
        None => false,
    }
}

/// `Load`: replaces the top of the stack, an address, with the unscrambled
/// byte at that address.
pub fn impl_load(pc: &mut usize, ram: &mut RAM, stack: &mut Vec<u8>, key: u8) -> (r: bool)
    requires
        core_of(*old(pc), old(ram)@, old(stack)@).completes(OpCode::Load, key),
    ensures
        core_of(*final(pc), final(ram)@, final(stack)@) == core_of(*old(pc), old(ram)@, old(stack)@).step(OpCode::Load, key, Map::empty()),
        r,
{
    match stack.pop() {
        Some(addr) => {
            match ram.get(addr as usize) {
                Ok(val) => stack.push(val ^ key),
                Err(_) => {},
            }
        },
        None => {},
    }
    *pc = *pc + 1;
    true
}

/// `Store`: moves the bottom of the stack, scrambled by the key, to the
/// address given by the argument.
pub fn impl_store(pc: &mut usize, ram: &mut RAM, stack: &mut Vec<u8>, key: u8) -> (r: bool)
    requires
        core_of(*old(pc), old(ram)@, old(stack)@).completes(OpCode::Store, key),
    ensures
        core_of(*final(pc), final(ram)@, final(stack)@) == core_of(*old(pc), old(ram)@, old(stack)@).step(OpCode::Store, key, Map::empty()),
        old(ram)@.wf() ==> final(ram)@.wf(),
        r,
{
    let dest = read_arg(*pc, ram, key);
    if stack.len() > 0 {
        let value = stack[0];
        stack.remove(0);
        ram.index_set(dest as usize, value ^ key);
        proof {
            if old(ram)@.wf() {
                lemma_write_keeps_wf(old(ram)@, dest as usize, value ^ key);
            }
            assert(stack@ =~= old(stack)@.drop_first());
        }
    }
    *pc = *pc + 3;
    true
}

/// `Input`, once the line has been read: the line without its last
/// character, then a zero byte, go onto the stack.
pub fn impl_input(pc: &mut usize, _ram: &mut RAM, stack: &mut Vec<u8>, _key: u8, line: &str) -> (r: bool)
    requires
        *old(pc) + 1 <= usize::MAX,
    ensures
        core_of(*final(pc), final(_ram)@, final(stack)@) == core_of(*old(pc), old(_ram)@, old(stack)@).after_input(line.spec_bytes()),
        r,
{
    let bytes = line_bytes(line);
    let ghost start = stack@;
    let mut i: usize = 0;
    while i < bytes.len()
        invariant
            0 <= i <= bytes.len(),
            stack@ == start + bytes@.subrange(0, i as int),
        decreases bytes.len() - i,
    {
        stack.push(bytes[i]);
        i = i + 1;
        assert(stack@ =~= start + bytes@.subrange(0, i as int));
    }
    stack.push(0);
    *pc = *pc + 1;
    proof {
        assert(bytes@.subrange(0, bytes@.len() as int) =~= bytes@);
        assert(stack@ =~= start + without_last_char(line.spec_bytes()) + seq![0u8]);
    }
    true
}

/// `Eq`: replaces the two top bytes with 1 where they are equal and 0
/// otherwise; pushes 0 where there are fewer than two.
pub fn impl_eq(pc: &mut usize, _ram: &mut RAM, stack: &mut Vec<u8>, _key: u8) -> (r: bool)
    requires
        *old(pc) + 1 <= usize::MAX,
    ensures
        core_of(*final(pc), final(_ram)@, final(stack)@) == core_of(*old(pc), old(_ram)@, old(stack)@).step(OpCode::Eq, _key, Map::empty()),
        r,
{
    if stack.len() >= 2 {
        let a = match stack.pop() {
            Some(v) => v,
            None => 0,
        };
        let b = match stack.pop() {
            Some(v) => v,
            None => 0,
        };
        stack.push(if a == b { 1 } else { 0 });
        proof {
            let s = old(stack)@;
            assert(s.drop_last().drop_last() =~= s.subrange(0, s.len() - 2));
        }
    } else {
        stack.push(0);
    }
    *pc = *pc + 1;
    true
}

/// Pops the whole stack and returns `last` plus the sum of what it popped.
pub fn calc(last: usize, stack: &mut Vec<u8>) -> (r: usize)
    requires
        last + total(old(stack)@) <= usize::MAX,
    ensures
        r == last + total(old(stack)@),
        final(stack)@ == Seq::<u8>::empty(),
    decreases old(stack)@.len(),
{
    match stack.pop() {
        Some(value) => calc(last + value as usize, stack),
        None => last,
    }
}

/// `Check`: unless the stack holds exactly 37 bytes, pops it all and moves
/// to just past 85 where the bytes sum to 3797, just past 0 otherwise; then
/// moves two bytes on.
pub fn impl_dup(pc: &mut usize, _ram: &mut RAM, stack: &mut Vec<u8>, _key: u8) -> (r: bool)
    requires
        core_of(*old(pc), old(_ram)@, old(stack)@).completes(OpCode::Check, _key),
    ensures
        core_of(*final(pc), final(_ram)@, final(stack)@) == core_of(*old(pc), old(_ram)@, old(stack)@).step(OpCode::Check, _key, Map::empty()),
        !r,
{
    if stack.len() != CHECK_LEN {
        let a = calc(0, stack);
        if a == CHECK_SUM {
            *pc = CHECK_TARGET;
        } else {
            *pc = 0;
        }
    }
    *pc = *pc + 2;
    false
}

/// `Push` then `Pop` gives the stack back, three bytes further on.
pub proof fn lemma_push_then_pop(c: Core, key: u8, table: Map<u8, usize>)
    requires
        c.pc + 3 <= usize::MAX,
    ensures
        c.step(OpCode::Push, key, table).step(OpCode::Pop, key, table).stack == c.stack,
        c.step(OpCode::Push, key, table).step(OpCode::Pop, key, table).pc == c.pc + 3,
        c.step(OpCode::Push, key, table).step(OpCode::Pop, key, table).ram == c.ram,
{
    assert(c.stack.push(c.arg(key)).drop_last() =~= c.stack);
}

/// What `Load` reads back of a `Store`: once the bottom of the stack is
/// stored at an address, loading that address gives the stored byte.
pub proof fn lemma_store_then_load(c: Core, key: u8, table: Map<u8, usize>)
    requires
        c.stack.len() > 0,
        c.completes(OpCode::Store, key),
    ensures
        ({
            let a = c.arg(key);
            let d = c.step(OpCode::Store, key, table);
            d.ram.read(a as usize) ^ key == c.stack[0]
        }),
{
    let a = c.arg(key);
    let v = c.stack[0];
    lemma_read_write(c.ram, a as usize, v ^ key, a as usize);
    assert((v ^ key) ^ key == v) by (bit_vector);
}

/// `Jz` jumps to its argument exactly when the top of the stack is zero.
pub proof fn lemma_jz_branches(c: Core, key: u8, table: Map<u8, usize>)
    requires
        c.completes(OpCode::Jz, key),
    ensures
        c.stack.last() == 0 ==> c.step(OpCode::Jz, key, table).pc == c.arg(key),
        c.stack.last() != 0 ==> c.step(OpCode::Jz, key, table).pc == c.pc + 2,
        c.step(OpCode::Jz, key, table).stack == c.stack.drop_last(),
{
}

/// `Eq` leaves 1 on the stack exactly when its two top bytes are equal.
pub proof fn lemma_eq_compares(c: Core, key: u8, table: Map<u8, usize>)
    requires
        c.stack.len() >= 2,
    ensures
        c.step(OpCode::Eq, key, table).stack.last() == (if c.stack[c.stack.len() - 1]
            == c.stack[c.stack.len() - 2] {
            1u8
        } else {
            0u8
        }),
        c.step(OpCode::Eq, key, table).stack.len() == c.stack.len() - 1,
{
}

/// `Add` then `Sub` of the same top byte gives the lower byte back.
pub proof fn lemma_add_sub_cancel(b: u8, a: u8)
    ensures
        sub_mod(add_mod(b, a), a) == b,
{
}

/// `Check` on a stack whose length is not 37 empties the stack and lands
/// two bytes past 85 exactly when the bytes sum to 3797, and at 2 on every
/// other sum, whatever the program counter was; on a stack of 37 bytes it
/// only moves two bytes on.
pub proof fn lemma_check_accepts_only_the_exact_sum(c: Core, key: u8, table: Map<u8, usize>)
    requires
        c.completes(OpCode::Check, key),
    ensures
        c.stack.len() != 37 ==> c.step(OpCode::Check, key, table).stack == Seq::<u8>::empty(),
        c.stack.len() != 37 && total(c.stack) == 3797 ==> c.step(OpCode::Check, key, table).pc
            == 87,
        c.stack.len() != 37 && total(c.stack) != 3797 ==> c.step(OpCode::Check, key, table).pc
            == 2,
        c.stack.len() == 37 ==> c.step(OpCode::Check, key, table).pc == c.pc + 2
            && c.step(OpCode::Check, key, table).stack == c.stack,
        c.step(OpCode::Check, key, table).ram == c.ram,
{
}

/// `Jmp` sets the program counter to the absolute address held, scrambled,
/// in the byte after it, whatever the program counter was, and changes
/// neither the stack nor the memory.
pub proof fn lemma_jmp_is_absolute(c: Core, key: u8, table: Map<u8, usize>)
    ensures
        c.step(OpCode::Jmp, key, table).pc == (c.ram.read((c.pc + 1) as usize) ^ key) as usize,
        c.step(OpCode::Jmp, key, table).stack == c.stack,
        c.step(OpCode::Jmp, key, table).ram == c.ram,
{
}

/// `Call` jumps to the table entry of the id held, scrambled, in the byte
/// after it, and stays put where the table has no such id; `Ret` pops the
/// top of the stack and jumps to it. Neither changes the memory.
pub proof fn lemma_call_and_ret_targets(c: Core, key: u8, table: Map<u8, usize>)
    ensures
        ({
            let id = c.ram.read((c.pc + 1) as usize) ^ key;
            &&& table.contains_key(id) ==> c.step(OpCode::Call, key, table).pc == table[id]
            &&& !table.contains_key(id) ==> c.step(OpCode::Call, key, table) == c
            &&& c.step(OpCode::Call, key, table).stack == c.stack
            &&& c.step(OpCode::Call, key, table).ram == c.ram
        }),
        c.stack.len() > 0 ==> c.step(OpCode::Ret, key, table).pc == c.stack.last() as usize
            && c.step(OpCode::Ret, key, table).stack == c.stack.drop_last(),
        c.stack.len() == 0 ==> c.step(OpCode::Ret, key, table) == c,
        c.step(OpCode::Ret, key, table).ram == c.ram,
{
}

/// `Debug` moves the program counter on by exactly one and changes neither
/// the stack nor the memory.
pub proof fn lemma_debug_moves_one(c: Core, key: u8, table: Map<u8, usize>)
    requires
        c.pc + 1 <= usize::MAX,
    ensures
        c.step(OpCode::Debug, key, table).pc == c.pc + 1,
        c.step(OpCode::Debug, key, table).stack == c.stack,
        c.step(OpCode::Debug, key, table).ram == c.ram,
{
}

/// An operation that carries on past itself skips exactly its operands: it
/// moves the program counter on by one plus the operand count that the code
/// listing shows for it. (`Jz` when it does not jump; the jumps, `Check`,
/// `Nay` and `Input` are left out.)
pub proof fn lemma_fall_through_skips_operands(c: Core, op: OpCode, key: u8, table: Map<u8, usize>)
    requires
        c.completes(op, key),
        op != OpCode::Jmp && op != OpCode::Call && op != OpCode::Ret && op != OpCode::Check
            && op != OpCode::Nay && op != OpCode::Input,
        op == OpCode::Jz ==> c.stack.last() != 0,
    ensures
        c.step(op, key, table).pc == c.pc + 1 + op.operands(),
{
}

/// The stack operations in terms of their inputs: `Push` puts the
/// unscrambled byte after it on the stack and moves two on; `Add` and `Sub`
/// replace the two top bytes `b` (below) and `a` (top) with `b + a` and
/// `b - a` wrapped to a byte; `Load` replaces the top byte with the
/// unscrambled byte at the address it names; `Print` writes the stack byte
/// whose index is its argument, or 0 past the stack.
pub proof fn lemma_stack_operations(c: Core, key: u8, table: Map<u8, usize>)
    requires
        c.pc + 2 <= usize::MAX,
    ensures
        c.step(OpCode::Push, key, table).stack == c.stack.push(c.ram.read((c.pc + 1) as usize) ^ key),
        c.step(OpCode::Push, key, table).pc == c.pc + 2,
        c.stack.len() >= 2 ==> ({
            let n = c.stack.len();
            let a = c.stack[n - 1] as int;
            let b = c.stack[n - 2] as int;
            &&& c.step(OpCode::Add, key, table).stack.len() == n - 1
            &&& c.step(OpCode::Add, key, table).stack.subrange(0, n - 2) == c.stack.subrange(0, n - 2)
            &&& c.step(OpCode::Add, key, table).stack[n - 2] as int == if b + a < 256 {
                b + a
            } else {
                b + a - 256
            }
            &&& c.step(OpCode::Sub, key, table).stack.len() == n - 1
            &&& c.step(OpCode::Sub, key, table).stack.subrange(0, n - 2) == c.stack.subrange(0, n - 2)
            &&& c.step(OpCode::Sub, key, table).stack[n - 2] as int == if b >= a {
                b - a
            } else {
                b - a + 256
            }
        }),
        c.stack.len() > 0 ==> c.step(OpCode::Load, key, table).stack == c.stack.drop_last().push(
            c.ram.read(c.stack.last() as usize) ^ key,
        ),
        ({
            let d = (c.ram.read((c.pc + 1) as usize) ^ key) as int;
            c.output(OpCode::Print, key) == seq![
                if d < c.stack.len() {
                    c.stack[d]
                } else {
                    0u8
                },
            ]
        }),
{
    let n = c.stack.len();
    if n >= 2 {
        let s1 = c.stack.drop_last();
        assert(s1.drop_last() =~= c.stack.subrange(0, n - 2));
        assert(c.step(OpCode::Add, key, table).stack.subrange(0, n - 2) =~= c.stack.subrange(0, n - 2));
        assert(c.step(OpCode::Sub, key, table).stack.subrange(0, n - 2) =~= c.stack.subrange(0, n - 2));
    }
}

} // verus!
