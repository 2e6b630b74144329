//! The machine: memory, stack, program counter, function table, and the
//! timing guards that scramble the memory when the machine is observed too
//! slowly.
//!
//! Everything that touches the outside world is handed back to the caller:
//! the clock is an argument, text to write comes back as bytes, and an
//! operation that needs a line of input or ends the process says so in its
//! result.
use crate::opcode::{OpCode, DEBUG_CODE, FN_CODE};
use crate::ops::{
    impl_Meow, impl_Nyaa, impl_add, impl_call, impl_dup, impl_eq, impl_input,
    impl_jmp, impl_jz, impl_load, impl_nay, impl_pop, impl_print, impl_push, impl_ret,
    impl_store, impl_sub, total, Core, CHECK_LEN,
};
use crate::ram::{
    lemma_count_bound, lemma_read_write, lemma_write_keeps_wf, lemma_write_present, lemma_xor_involutive, RamModel, RAM,
};
use crate::secure::{byte_get, byte_new, wiped_byte, SecretByte};
use crate::text::{decimal, push_all, push_decimal};
use std::collections::HashMap;
use vstd::prelude::*;
use vstd::string::StringSliceAdditionalSpecFns;

verus! {

broadcast use vstd::std_specs::hash::group_hash_axioms;

/// The two clocks the machine reads, in nanoseconds: wall-clock time since
/// the Unix epoch, and a monotonic clock counted from any fixed instant.
#[derive(Debug, Clone, Copy)]
pub struct Clock {
    pub wall: u128,
    pub mono: u128,
}

/// What the caller must do once an operation has run.
#[derive(Debug, Clone, Copy, PartialEq, Eq, Structural)]
pub enum Action {
    /// Go on.
    Continue,
    /// Once the text is written, hand a fresh clock reading to `settle`,
    /// then go on.
    Settle,
    /// Read a line from the standard input and hand it to `finish_input`.
    ReadLine,
    /// End the process with this status.
    Exit(i32),
}

/// Text to write (each byte is the code point of one character), then what
/// to do.
#[derive(Debug)]
pub struct Outcome {
    pub text: Vec<u8>,
    pub action: Action,
}

/// Why an operation cannot complete: the interpreter must panic there.
#[derive(Debug, Clone, Copy, PartialEq, Eq, Structural)]
pub enum Fault {
    /// The program counter would overflow.
    PcOverflow,
    /// `Jz` on an empty stack.
    EmptyStack,
    /// `Store` to an address that has no memory cell.
    CellMissing,
    /// `Check`'s sum of the stack would overflow.
    SumOverflow,
    /// The function table scan indexes past the memory cells.
    TableOverrun,
}

/// One step of a driver loop.
#[derive(Debug)]
pub enum Step {
    /// An operation (or the recovery from a byte that is none) ran.
    Ran(Outcome),
    /// Nothing ran.
    Idle,
    /// The loop stops; the text is to be written.
    Halt(Vec<u8>),
    /// The operation cannot complete: the process panics.
    Fault(Fault),
}

/// A nonce of the program image format.
pub const NONCE_B: [u8; 9] = [0x30, 0x61, 0x58, 0x58, 0x42, 0x76, 0x34, 0x5a, 0x5a];

/// The fetch half of a step: an operation to run, or a step already over.
#[derive(Debug)]
pub enum Fetched {
    Op(OpCode),
    Done(Step),
}

/// How long after the last fetch an operation may run before the memory is
/// scrambled: one second.
pub const STALE_NANOS: u128 = 1_000_000_000;

/// How many milliseconds may pass between two operations before `check`
/// scrambles the memory.
pub const CHECK_MILLIS: u128 = 500;

/// The abstract state of the machine.
pub struct VmModel {
    pub core: Core,
    pub table: Map<u8, usize>,
    pub key: u8,
    pub last_op: Option<u128>,
    pub time: u128,
    pub len: usize,
}

/// The noise byte that scrambling leaves at the address `i`, before the key
/// is applied: one of the operation codes `0xEE..=0xFE`.
pub open spec fn noise(i: usize) -> u8 {
    (0xEE + (i as u8) % 17) as u8
}

/// The memory with every appended address overwritten by its noise byte,
/// scrambled by `key`.
pub open spec fn wrecked(m: RamModel, key: u8) -> RamModel {
    wrecked_below(m, key, m.count)
}

/// The memory with every address below `n` overwritten by its noise byte,
/// scrambled by `key`.
pub open spec fn wrecked_below(m: RamModel, key: u8, n: usize) -> RamModel {
    RamModel {
        cells: Seq::new(
            m.cells.len(),
            |j: int|
                if ((j as usize) ^ m.key) < n {
                    noise((j as usize) ^ m.key) ^ key
                } else {
                    m.cells[j]
                },
        ),
        ..m
    }
}

/// The decimal forms of the bytes of `s`, one after the other.
pub open spec fn decimals(s: Seq<u8>) -> Seq<u8>
    decreases s.len(),
{
    if s.len() == 0 {
        Seq::empty()
    } else {
        decimals(s.drop_last()) + decimal(s.last() as nat)
    }
}

/// The bytes of `Nya Meoowww`, the machine's complaint.
pub open spec fn complaint() -> Seq<u8> {
    seq![0x4eu8, 0x79, 0x61, 0x20, 0x4d, 0x65, 0x6f, 0x6f, 0x77, 0x77, 0x77]
}

/// What `check` writes: the decimal codes of the complaint, then a line
/// feed.
pub open spec fn check_warning() -> Seq<u8> {
    decimals(complaint()) + seq![10u8]
}

/// What the run loop writes for a byte that is no operation: the complaint
/// and a space.
pub open spec fn stray_text() -> Seq<u8> {
    complaint() + seq![32u8]
}

/// The function table after scanning the first `n` addresses: each `FN`
/// at `i` maps the unscrambled byte after it to `i`, later entries winning.
pub open spec fn scan(ram: RamModel, key: u8, table: Map<u8, usize>, n: nat) -> Map<u8, usize>
    decreases n,
{
    if n == 0 {
        table
    } else {
        let t = scan(ram, key, table, (n - 1) as nat);
        let i = (n - 1) as usize;
        if ram.read(i) ^ key == FN_CODE {
            t.insert(ram.read((i + 1) as usize) ^ key, i)
        } else {
            t
        }
    }
}


/// How the dump shows the byte under the program counter: the name of the
/// operation it encodes, or its value where it encodes none.
pub open spec fn op_label(o: u8) -> Seq<u8> {
    match OpCode::decode(o) {
        Some(op) => op.name(),
        None => decimal(o as nat),
    }
}

/// Appends `op_label(o)`.
fn push_label(out: &mut Vec<u8>, o: u8)
    ensures
        final(out)@ == old(out)@ + op_label(o),
{
    match OpCode::find_code(o) {
        Some(op) => op.push_name(out),
        None => push_decimal(out, o as usize),
    }
}

/// One cell of the machine dump: a line feed before every eighth address,
/// then `i:value ` with the unscrambled byte, or, at the program counter,
/// `i:[name] ` with the operation it encodes (`i:[value] ` where it encodes
/// none).
pub open spec fn cell_text(m: VmModel, i: usize) -> Seq<u8> {
    let o = m.decoded(i);
    let head: Seq<u8> = if i % 8 == 0 { seq![10u8] } else { Seq::empty() };
    let body: Seq<u8> = if i == m.core.pc {
        seq![58u8, 91u8] + op_label(o) + seq![93u8, 32u8]
    } else {
        seq![58u8] + decimal(o as nat) + seq![32u8]
    };
    head + decimal(i as nat) + body
}

/// The cells of the machine dump for the addresses below `n`.
pub open spec fn cells_text(m: VmModel, n: nat) -> Seq<u8>
    decreases n,
{
    if n == 0 {
        Seq::empty()
    } else {
        cells_text(m, (n - 1) as nat) + cell_text(m, (n - 1) as usize)
    }
}

/// The first `n` stack bytes of the machine dump, each as `value `.
pub open spec fn stack_row(s: Seq<u8>, n: nat) -> Seq<u8>
    decreases n,
{
    if n == 0 {
        Seq::empty()
    } else {
        stack_row(s, (n - 1) as nat) + decimal(s[n - 1] as nat) + seq![32u8]
    }
}

/// The machine dump: the banner, every loaded address, the stack banner and
/// the stack.
pub open spec fn dump_text(m: VmModel, banner: Seq<u8>, stack_banner: Seq<u8>) -> Seq<u8> {
    banner + seq![10u8] + cells_text(m, m.core.ram.count as nat) + seq![10u8] + stack_banner
        + seq![10u8] + stack_row(m.core.stack, m.core.stack.len()) + seq![10u8]
}

impl VmModel {
    /// The unscrambled byte at `a`.
    pub open spec fn decoded(self, a: usize) -> u8 {
        self.core.decoded(self.key, a)
    }

    /// The memory is well formed and every appended byte was loaded with
    /// `add_byte`.
    pub open spec fn wf(self) -> bool {
        &&& self.core.ram.wf()
        &&& self.len == self.core.ram.count
    }

    /// Whether more than a second has passed since the last fetch.
    pub open spec fn stale(self, now: Clock) -> bool {
        match self.last_op {
            Some(t) => now.mono > t + STALE_NANOS,
            None => false,
        }
    }

    /// The state with its memory scrambled by noise.
    pub open spec fn corrupted(self) -> VmModel {
        VmModel { core: Core { ram: wrecked(self.core.ram, self.key), ..self.core }, ..self }
    }

    pub open spec fn with_core(self, c: Core) -> VmModel {
        VmModel { core: c, ..self }
    }

    /// The state after `byte` is loaded at the end of the program.
    pub open spec fn added(self, byte: u8) -> VmModel {
        VmModel {
            core: Core { ram: self.core.ram.append(byte ^ self.key), ..self.core },
            len: (self.len + 1) as usize,
            ..self
        }
    }

    /// The byte under the program counter, unscrambled.
    pub open spec fn fetch_byte(self) -> u8 {
        self.decoded(self.core.pc)
    }

    /// Whether the byte under the program counter is in the range of the
    /// operation codes (its high nibble is `0xE` or `0xF`).
    pub open spec fn fetchable(self) -> bool {
        self.fetch_byte() >= 0xE0
    }

    /// The operation that `get_op` returns.
    pub open spec fn fetched(self) -> Option<OpCode> {
        if self.fetchable() {
            OpCode::decode(self.fetch_byte())
        } else {
            None
        }
    }

    /// The state after `get_op`: the fetch time is recorded when the byte is
    /// in the operation range.
    pub open spec fn after_fetch(self, now: Clock) -> VmModel {
        if self.fetchable() {
            VmModel { last_op: Some(now.mono), ..self }
        } else {
            self
        }
    }

    /// The state once the clock is recorded and, for `Push` on a stale
    /// machine, the memory scrambled: the state in which `op` itself runs.
    pub open spec fn before(self, op: OpCode, now: Clock) -> VmModel {
        let m0 = VmModel { time: now.wall, ..self };
        if op == OpCode::Push && m0.stale(now) {
            m0.corrupted()
        } else {
            m0
        }
    }

    /// The state after `run_op(op, now)`: the operation itself has run, but
    /// not yet the check that ends it. `Nay` ends the process and `Input`
    /// waits for its line.
    pub open spec fn ran(self, op: OpCode, now: Clock) -> VmModel {
        let m1 = self.before(op, now);
        if op == OpCode::Nay || op == OpCode::Input {
            m1
        } else {
            m1.with_core(m1.core.step(op, m1.key, m1.table))
        }
    }

    /// The state after `settle(done)`: a machine whose last fetch is more
    /// than a second before `done` has its memory scrambled.
    pub open spec fn settled(self, done: Clock) -> VmModel {
        if self.stale(done) {
            self.corrupted()
        } else {
            self
        }
    }

    /// The state after `exec_op(op, now)`: the operation runs, and then, but
    /// for `Nay` and `Input`, a stale machine has its memory scrambled.
    pub open spec fn exec(self, op: OpCode, now: Clock) -> VmModel {
        let m2 = self.ran(op, now);
        if op == OpCode::Nay || op == OpCode::Input {
            m2
        } else {
            m2.settled(now)
        }
    }

    /// The text that `exec_op(op, now)` writes.
    pub open spec fn exec_text(self, op: OpCode, now: Clock) -> Seq<u8> {
        let m1 = self.before(op, now);
        m1.core.output(op, m1.key)
    }

    /// What the caller must do after `exec_op(op, _)`.
    pub open spec fn exec_action(op: OpCode) -> Action {
        match op {
            OpCode::Nay => Action::Exit(1),
            OpCode::Input => Action::ReadLine,
            _ => Action::Continue,
        }
    }

    /// What the caller must do after `run_op(op, _)`: as after `exec_op`,
    /// but the operations that end with the check ask for `settle`.
    pub open spec fn run_action(op: OpCode) -> Action {
        match op {
            OpCode::Nay => Action::Exit(1),
            OpCode::Input => Action::ReadLine,
            _ => Action::Settle,
        }
    }

    /// The fault that `op` would run into, if any.
    pub open spec fn fault_of(self, op: OpCode) -> Option<Fault> {
        let c = self.core;
        if !(c.pc + c.reach(op) <= usize::MAX) {
            Some(Fault::PcOverflow)
        } else if op == OpCode::Jz && c.stack.len() == 0 {
            Some(Fault::EmptyStack)
        } else if op == OpCode::Store && c.stack.len() > 0 && !c.ram.present(c.arg(self.key) as usize) {
            Some(Fault::CellMissing)
        } else if op == OpCode::Check && c.stack.len() != CHECK_LEN && total(c.stack) > usize::MAX {
            Some(Fault::SumOverflow)
        } else {
            None
        }
    }

    /// Whether the function table scan stays within the memory cells: the
    /// address after every `FN` has a cell.
    pub open spec fn table_fits(self) -> bool {
        forall|i: usize|
            i < self.core.ram.count && #[trigger] self.decoded(i) == FN_CODE ==> self.core.ram.present(
                (i + 1) as usize,
            )
    }

    /// The state after `ftable`.
    pub open spec fn after_table(self) -> VmModel {
        VmModel {
            table: scan(self.core.ram, self.key, self.table, self.core.ram.count as nat),
            ..self
        }
    }

    /// Whether `check` finds the machine too slow: more than 500 ms since
    /// the last operation, or a wall clock that went back.
    pub open spec fn check_tripped(self, now: Clock) -> bool {
        now.wall < self.time || (now.wall - self.time) / 1_000_000 > CHECK_MILLIS
    }

    /// The state after `check`: the memory is scrambled when more than
    /// 500 ms have passed (not when the clock went back).
    pub open spec fn after_check(self, now: Clock) -> VmModel {
        if now.wall >= self.time && (now.wall - self.time) / 1_000_000 > CHECK_MILLIS {
            self.corrupted()
        } else {
            self
        }
    }

    /// Whether the run loop is over: the program counter is past the
    /// program.
    pub open spec fn halted(self) -> bool {
        self.core.pc >= self.core.ram.count
    }
}

/// The machine.
#[derive(Debug, Clone)]
pub struct VM {
    pub ram: RAM,
    func_table: HashMap<u8, usize>,
    pub stack: Vec<u8>,
    pub pc: usize,
    pub key: SecretByte,
    last_op_time: Option<u128>,
    time: u128,
    len: usize,
}

impl VM {
    pub closed spec fn model(&self) -> VmModel {
        VmModel {
            core: Core { pc: self.pc, ram: self.ram@, stack: self.stack@ },
            table: self.func_table@,
            key: wiped_byte(self.key),
            last_op: self.last_op_time,
            time: self.time,
            len: self.len,
        }
    }

    /// A machine with an empty program, started at `clock`: the memory key
    /// is the low 16 bits and the machine key the low 8 bits of the
    /// wall-clock nanoseconds.
    pub fn new(clock: Clock) -> (r: VM)
        ensures
            r.model().core.ram.cells == Seq::<u8>::empty(),
            r.model().core.ram.count == 0,
            r.model().core.ram.key == (clock.wall as u16) as usize,
            r.model().core.stack == Seq::<u8>::empty(),
            r.model().core.pc == 0,
            r.model().table == Map::<u8, usize>::empty(),
            r.model().key == clock.wall as u8,
            r.model().last_op == None::<u128>,
            r.model().time == clock.wall,
            r.model().len == 0,
            r.model().wf(),
    {
        VM {
            ram: RAM::setup(clock.wall),
            func_table: HashMap::new(),
            stack: Vec::new(),
            pc: 0,
            key: byte_new(clock.wall as u8),
            last_op_time: None,
            time: clock.wall,
            len: 0,
        }
    }

    /// The unscrambled byte at `id`.
    pub fn get_raw(&mut self, id: usize) -> (r: Option<u8>)
        ensures
            r == Some(old(self).model().decoded(id)),
            final(self).model() == old(self).model(),
    {
        let b = match self.ram.get(id) {
            Ok(b) => b,
            Err(_) => 0,
        };
        Some(b ^ byte_get(&self.key))
    }

    /// Whether `get_op` finds the `Debug` code under the program counter; the
    /// machine dump (see `debug`) is then written before the fetch.
    pub fn dump_due(&self) -> (r: bool)
        ensures
            r == (self.model().fetch_byte() == DEBUG_CODE),
    {
        let b = match self.ram.get(self.pc) {
            Ok(b) => b,
            Err(_) => 0,
        };
        (b ^ byte_get(&self.key)) == DEBUG_CODE
    }

    /// Fetches the operation under the program counter; records the fetch
    /// time when the byte is in the operation range.
    pub fn get_op(&mut self, now: Clock) -> (r: Option<OpCode>)
        ensures
            r == old(self).model().fetched(),
            final(self).model() == old(self).model().after_fetch(now),
    {
        let raw = match self.ram.get(self.pc) {
            Ok(b) => b,
            Err(_) => 0,
        };
        let byte = raw ^ byte_get(&self.key);
        let high = byte >> 4;
        assert((high == 0xf || high == 0xE) <==> byte >= 0xE0) by (bit_vector)
            requires
                high == byte >> 4,
        ;
        if high != 0xf && high != 0xE {
            return None;
        }
        self.last_op_time = Some(now.mono);
        OpCode::find_code(byte)
    }

    /// The program counter.
    pub fn pc(&self) -> (r: usize)
        ensures
            r == self.model().core.pc,
    {
        self.pc
    }

    /// The stack.
    pub fn stack(&self) -> (r: &Vec<u8>)
        ensures
            r@ == self.model().core.stack,
    {
        &self.stack
    }

    /// The function table.
    pub fn get_ftable(&self) -> (r: &HashMap<u8, usize>)
        ensures
            r@ == self.model().table,
    {
        &self.func_table
    }

    /// Whether `ftable` can scan the program without indexing past the cells.
    pub fn table_fits(&self) -> (r: bool)
        requires
            self.model().wf(),
        ensures
            r == self.model().table_fits(),
    {
        let n = self.ram.len();
        let key = byte_get(&self.key);
        let mut i: usize = 0;
        while i < n
            invariant
                0 <= i <= n,
                n == self.model().core.ram.count,
                key == self.model().key,
                self.model().wf(),
                forall|j: usize|
                    j < i && #[trigger] self.model().decoded(j) == FN_CODE ==> self.model().core.ram.present(
                        (j + 1) as usize,
                    ),
            decreases n - i,
        {
            proof {
                assert(self.model().core.ram.present(i));
            }
            if self.ram.index(i) ^ key == FN_CODE {
                if !self.ram_has(i + 1) {
                    proof {
                        assert(self.model().decoded(i) == FN_CODE);
                        assert(!self.model().core.ram.present((i + 1) as usize));
                    }
                    return false;
                }
            }
            i = i + 1;
        }
        true
    }

    /// Whether the address `a` has a memory cell.
    fn ram_has(&self, a: usize) -> (r: bool)
        ensures
            r == self.model().core.ram.present(a),
    {
        self.ram.has_cell(a)
    }

    /// Scans the whole program for `FN` entries and records each in the
    /// function table under the byte that follows it.
    pub fn ftable(&mut self)
        requires
            old(self).model().wf(),
            old(self).model().table_fits(),
        ensures
            final(self).model() == old(self).model().after_table(),
    {
        let n = self.ram.len();
        let key = byte_get(&self.key);
        let mut i: usize = 0;
        while i < n
            invariant
                0 <= i <= n,
                n == old(self).model().core.ram.count,
                key == old(self).model().key,
                old(self).model().wf(),
                old(self).model().table_fits(),
                self.model() == (VmModel {
                    table: scan(old(self).model().core.ram, key, old(self).model().table, i as nat),
                    ..old(self).model()
                }),
            decreases n - i,
        {
            proof {
                assert(old(self).model().core.ram.present(i));
            }
            if self.ram.index(i) ^ key == FN_CODE {
                proof {
                    assert(old(self).model().decoded(i) == FN_CODE);
                }
                let id = self.ram.index(i + 1) ^ key;
                self.func_table.insert(id, i);
            }
            i = i + 1;
        }
    }

    /// Loads `byte` at the end of the program, scrambled by the machine key.
    pub fn add_byte(&mut self, byte: u8)
        requires
            old(self).model().wf(),
        ensures
            final(self).model() == old(self).model().added(byte),
            final(self).model().wf(),
    {
        let key = byte_get(&self.key);
        proof {
            lemma_count_bound(self.ram@);
        }
        self.ram.push(byte ^ key);
        self.len = self.len + 1;
    }

    /// How many bytes were loaded with `add_byte`.
    pub fn ram_len(&self) -> (r: usize)
        ensures
            r == self.model().len,
    {
        return self.len;
    }

    /// Overwrites every loaded address with noise: `0xEE + (i mod 17)`,
    /// scrambled by the machine key, at the address `i`.
    pub fn corrupt_ram(&mut self)
        requires
            old(self).model().wf(),
        ensures
            final(self).model() == old(self).model().corrupted(),
            final(self).model().wf(),
    {
        let n = self.ram.len();
        let key = byte_get(&self.key);
        let ghost m = old(self).model().core.ram;
        let ghost k = m.key;
        // nothing lies below address 0: the memory is as it was
        assert(wrecked_below(m, key, 0).cells =~= m.cells);
        let mut i: usize = 0;
        while i < n
            invariant
                0 <= i <= n,
                n == m.count,
                m.wf(),
                k == m.key,
                m == old(self).model().core.ram,
                key == old(self).model().key,
                self.ram@.wf(),
                self.model() == (VmModel {
                    core: Core { ram: wrecked_below(m, key, i), ..old(self).model().core },
                    ..old(self).model()
                }),
            decreases n - i,
        {
            let r: u8 = (#[verifier::truncate] (i as u8)) % 17;
            let v: u8 = (0xEE + r) ^ key;
            let ghost prev = self.ram@;
            proof {
                assert(m.present(i));
                assert(prev.present(i));
            }
            self.ram.set(i, v);
            proof {
                lemma_write_present(prev, i, v);
                let cur = self.ram@.cells;
                let want = wrecked_below(m, key, (i + 1) as usize).cells;
                assert forall|j: int| 0 <= j < cur.len() implies #[trigger] cur[j] == want[j] by {
                    lemma_xor_involutive(i, k);
                    lemma_xor_involutive(j as usize, k);
                    if j == prev.slot(i) {
                        assert(((j as usize) ^ k) == i);
                    } else {
                        assert(((j as usize) ^ k) != i);
                    }
                }
                assert(cur =~= want);
            }
            i = i + 1;
        }
    }

    /// Whether `check` or `exec_op` would find the last fetch more than a
    /// second old.
    fn is_stale(&self, now: Clock) -> (r: bool)
        ensures
            r == self.model().stale(now),
    {
        match self.last_op_time {
            Some(t) => t <= u128::MAX - STALE_NANOS && now.mono > t + STALE_NANOS,
            None => false,
        }
    }

    /// The fault that `op` would run into, if any.
    pub fn fault(&self, op: OpCode) -> (r: Option<Fault>)
        ensures
            r == self.model().fault_of(op),
    {
        let need: usize = match op {
            OpCode::Nay | OpCode::Ret => 0,
            OpCode::Store => 3,
            OpCode::FN | OpCode::Nyaa | OpCode::Meow | OpCode::Push | OpCode::Print => 2,
            OpCode::Jz => if self.stack.len() == 0 {
                0
            } else if self.stack[self.stack.len() - 1] == 0 {
                1
            } else {
                2
            },
            OpCode::Check => if self.stack.len() != CHECK_LEN { 0 } else { 2 },
            _ => 1,
        };
        if self.pc > usize::MAX - need {
            return Some(Fault::PcOverflow);
        }
        if op == OpCode::Jz && self.stack.len() == 0 {
            return Some(Fault::EmptyStack);
        }
        if op == OpCode::Store && self.stack.len() > 0 {
            let key = byte_get(&self.key);
            let dest = match self.ram.get(self.pc + 1) {
                Ok(b) => b,
                Err(_) => 0,
            } ^ key;
            if !self.ram.has_cell(dest as usize) {
                return Some(Fault::CellMissing);
            }
        }
        if op == OpCode::Check && self.stack.len() != CHECK_LEN {
            let sum = stack_sum(&self.stack);
            if sum > usize::MAX as u128 {
                return Some(Fault::SumOverflow);
            }
        }
        None
    }

    /// Runs `op` itself, at the clock reading `now` taken as it starts: the
    /// clock stamps the operation, and for `Push` more than a second since
    /// the last fetch scrambles the memory first. The check that ends the
    /// operation is left to `settle`, which the action asks for. `Nay` asks
    /// the caller to end the process and `Input` asks for a line, which
    /// `finish_input` then takes.
    pub fn run_op(&mut self, op: OpCode, now: Clock) -> (r: Outcome)
        requires
            old(self).model().wf(),
            old(self).model().fault_of(op) is None,
        ensures
            final(self).model() == old(self).model().ran(op, now),
            final(self).model().wf(),
            r.text@ == old(self).model().exec_text(op, now),
            r.action == VmModel::run_action(op),
    {
        self.time = now.wall;
        let key = byte_get(&self.key);
        let stale = self.is_stale(now);
        let mut text: Vec<u8> = Vec::new();
        match op {
            OpCode::FN => {
                self.pc = self.pc + 2;
            },
            OpCode::Nyaa => {
                let (_, t) = impl_Nyaa(&mut self.pc, &mut self.ram, &mut self.stack, key);
                text = t;
            },
            OpCode::Meow => {
                let (_, t) = impl_Meow(&mut self.pc, &mut self.ram, &mut self.stack, key);
                text = t;
            },
            OpCode::Nay => {
                let status = impl_nay(&mut self.pc, &mut self.ram, &mut self.stack, key);
                return Outcome { text, action: Action::Exit(status) };
            },
            OpCode::Push => {
                if stale {
                    self.corrupt_ram();
                }
                if impl_push(&mut self.pc, &mut self.ram, &mut self.stack, key) {
                    return Outcome { text, action: Action::Continue };
                }
            },
            OpCode::Pop => {
                impl_pop(&mut self.pc, &mut self.ram, &mut self.stack);
            },
            OpCode::Add => {
                impl_add(&mut self.pc, &mut self.ram, &mut self.stack);
            },
            OpCode::Sub => {
                impl_sub(&mut self.pc, &mut self.ram, &mut self.stack);
            },
            OpCode::Jmp => {
                impl_jmp(&mut self.pc, &mut self.ram, &mut self.stack, key);
            },
            OpCode::Jz => {
                impl_jz(&mut self.pc, &mut self.ram, &mut self.stack, key);
            },
            OpCode::Call => {
                impl_call(&self.func_table, &mut self.pc, &mut self.ram, &mut self.stack, key);
            },
            OpCode::Ret => {
                impl_ret(&mut self.pc, &mut self.ram, &mut self.stack);
            },
            OpCode::Load => {
                impl_load(&mut self.pc, &mut self.ram, &mut self.stack, key);
            },
            OpCode::Store => {
                impl_store(&mut self.pc, &mut self.ram, &mut self.stack, key);
            },
            OpCode::Print => {
                let (_, t) = impl_print(&mut self.pc, &mut self.ram, &mut self.stack, key);
                text = t;
            },
            OpCode::Input => {
                return Outcome { text, action: Action::ReadLine };
            },
            OpCode::Eq => {
                impl_eq(&mut self.pc, &mut self.ram, &mut self.stack, key);
            },
            OpCode::Check => {
                impl_dup(&mut self.pc, &mut self.ram, &mut self.stack, key);
            },
            OpCode::Debug => {
                self.pc = self.pc + 1;
            },
        }
        Outcome { text, action: Action::Settle }
    }

    /// The check that ends an operation, at the clock reading `done` taken
    /// once the operation's text is written: where more than a second has
    /// passed since the last fetch, the memory is scrambled.
    pub fn settle(&mut self, done: Clock)
        requires
            old(self).model().wf(),
        ensures
            final(self).model() == old(self).model().settled(done),
            final(self).model().wf(),
    {
        if self.is_stale(done) {
            self.corrupt_ram();
        }
    }

    /// Runs `op` and then its closing check, both at the clock reading
    /// `now`: where more than a second has passed since the last fetch the
    /// memory is scrambled (before the operation for `Push`, after it for
    /// every operation but `Input` and `Nay`). `Nay` asks the caller to end
    /// the process and `Input` asks for a line, which `finish_input` then
    /// takes.
    pub fn exec_op(&mut self, op: OpCode, now: Clock) -> (r: Outcome)
        requires
            old(self).model().wf(),
            old(self).model().fault_of(op) is None,
        ensures
            final(self).model() == old(self).model().exec(op, now),
            final(self).model().wf(),
            r.text@ == old(self).model().exec_text(op, now),
            r.action == VmModel::exec_action(op),
    {
        let o = self.run_op(op, now);
        if op == OpCode::Nay || op == OpCode::Input {
            return o;
        }
        self.settle(now);
        Outcome { text: o.text, action: Action::Continue }
    }


    /// Completes `Input` with the line that was read (line feed included).
    pub fn finish_input(&mut self, line: &str)
        requires
            old(self).model().core.pc + 1 <= usize::MAX,
        ensures
            final(self).model() == old(self).model().with_core(
                old(self).model().core.after_input(line.spec_bytes()),
            ),
    {
        let key = byte_get(&self.key);
        impl_input(&mut self.pc, &mut self.ram, &mut self.stack, key, line);
    }

    /// Compares the clock with the time of the last operation: past 500 ms
    /// the complaint is written and the memory scrambled; a clock that went
    /// back only has the complaint written.
    pub fn check(&mut self, now: Clock) -> (r: Vec<u8>)
        requires
            old(self).model().wf(),
        ensures
            final(self).model() == old(self).model().after_check(now),
            r@ == (if old(self).model().check_tripped(now) { check_warning() } else { Seq::empty() }),
    {
        if now.wall >= self.time {
            let d = now.wall - self.time;
            if d / 1_000_000 > CHECK_MILLIS {
                let t = warning();
                self.corrupt_ram();
                return t;
            }
            Vec::new()
        } else {
            warning()
        }
    }

    /// Appends the dump text of the address `i`.
    #[verifier::spinoff_prover]
    #[verifier::rlimit(40)]
    fn push_cell(&self, out: &mut Vec<u8>, i: usize)
        ensures
            final(out)@ == old(out)@ + cell_text(self.model(), i),
    {
        let ghost start = out@;
        let key = byte_get(&self.key);
        if i % 8 == 0 {
            out.push(10);
        }
        let ghost a = out@;
        push_decimal(out, i);
        let ghost b = out@;
        let o = match self.ram.get(i) {
            Ok(v) => v,
            Err(_) => 0,
        } ^ key;
        if i == self.pc {
            out.push(58);
            out.push(91);
            push_label(out, o);
            out.push(93);
            out.push(32);
            proof {
                assert(out@ =~= start + (a.subrange(start.len() as int, a.len() as int))
                    + decimal(i as nat) + (seq![58u8, 91u8] + op_label(o) + seq![93u8, 32u8]));
            }
        } else {
            out.push(58);
            push_decimal(out, o as usize);
            out.push(32);
            proof {
                assert(out@ =~= start + (a.subrange(start.len() as int, a.len() as int))
                    + decimal(i as nat) + (seq![58u8] + decimal(o as nat) + seq![32u8]));
            }
        }
        proof {
            let h: Seq<u8> = if i % 8 == 0 { seq![10u8] } else { Seq::empty() };
            assert(a.subrange(start.len() as int, a.len() as int) =~= h);
        }
    }

    /// The machine dump, written when the `Debug` code is fetched:
    /// `banner` and `stack_banner` head the two parts.
    pub fn debug(&self, banner: &[u8], stack_banner: &[u8]) -> (r: Vec<u8>)
        ensures
            r@ == dump_text(self.model(), banner@, stack_banner@),
    {
        let ghost m = self.model();
        let key = byte_get(&self.key);
        let mut out: Vec<u8> = Vec::new();
        push_all(&mut out, banner);
        out.push(10);
        let ghost head = out@;
        let n = self.ram.len();
        let mut i: usize = 0;
        while i < n
            invariant
                0 <= i <= n,
                n == m.core.ram.count,
                m == self.model(),
                key == m.key,
                out@ == head + cells_text(m, i as nat),
            decreases n - i,
        {
            self.push_cell(&mut out, i);
            proof {
                assert(out@ =~= head + cells_text(m, (i + 1) as nat));
            }
            i = i + 1;
        }
        out.push(10);
        push_all(&mut out, stack_banner);
        out.push(10);
        let ghost mid = out@;
        let mut j: usize = 0;
        while j < self.stack.len()
            invariant
                0 <= j <= self.stack.len(),
                m == self.model(),
                out@ == mid + stack_row(m.core.stack, j as nat),
            decreases self.stack.len() - j,
        {
            push_decimal(&mut out, self.stack[j] as usize);
            out.push(32);
            proof {
                assert(out@ =~= mid + stack_row(m.core.stack, (j + 1) as nat));
            }
            j = j + 1;
        }
        out.push(10);
        proof {
            assert(out@ =~= dump_text(m, banner@, stack_banner@));
        }
        out
    }

    /// The start of a run: `check` against the clock, then the scan for the
    /// function table, which must stay within the memory cells.
    pub fn start(&mut self, now: Clock) -> (r: Step)
        requires
            old(self).model().wf(),
        ensures
            final(self).model().wf(),
            ({
                let m = old(self).model().after_check(now);
                let t: Seq<u8> = if old(self).model().check_tripped(now) {
                    check_warning()
                } else {
                    Seq::empty()
                };
                if m.table_fits() {
                    r matches Step::Ran(o) && o.text@ == t && o.action == Action::Continue
                        && final(self).model() == m.after_table()
                } else {
                    r == Step::Fault(Fault::TableOverrun) && final(self).model() == m
                }
            }),
    {
        let text = self.check(now);
        proof {
            lemma_corrupted_reads_noise(old(self).model(), 0);
        }
        if !self.table_fits() {
            return Step::Fault(Fault::TableOverrun);
        }
        self.ftable();
        Step::Ran(Outcome { text, action: Action::Continue })
    }

    /// Whether the run loop is over.
    pub fn halted(&self) -> (r: bool)
        ensures
            r == self.model().halted(),
    {
        self.pc >= self.ram.len()
    }

    /// The fetch half of a turn of the run loop, at the clock reading
    /// `fetched`: the operation to run, or, for a byte that is none, the
    /// complaint written, the memory scrambled and two bytes skipped.
    pub fn fetch_step(&mut self, fetched: Clock) -> (r: Fetched)
        requires
            old(self).model().wf(),
        ensures
            final(self).model().wf(),
            ({
                let m = old(self).model().after_fetch(fetched);
                match old(self).model().fetched() {
                    Some(op) => r == Fetched::Op(op) && final(self).model() == m,
                    None => if m.core.pc + 2 <= usize::MAX {
                        r matches Fetched::Done(Step::Ran(o)) && o.text@ == stray_text()
                            && o.action == Action::Continue
                            && final(self).model() == m.corrupted().with_core(
                                Core { pc: (m.core.pc + 2) as usize, ..m.corrupted().core },
                            )
                    } else {
                        r == Fetched::Done(Step::Fault(Fault::PcOverflow)) && final(self).model()
                            == m
                    },
                }
            }),
    {
        match self.get_op(fetched) {
            Some(op) => Fetched::Op(op),
            None => {
                if self.pc > usize::MAX - 2 {
                    return Fetched::Done(Step::Fault(Fault::PcOverflow));
                }
                let text = stray();
                self.corrupt_ram();
                self.pc = self.pc + 2;
                Fetched::Done(Step::Ran(Outcome { text, action: Action::Continue }))
            },
        }
    }

    /// The execute half of a turn: runs `op` at the clock reading `now`,
    /// taken as it starts (see `run_op`), or reports the fault that the
    /// operation would run into. An operation that ran asks, by its action,
    /// for `settle` once its text is written.
    pub fn exec_step(&mut self, op: OpCode, now: Clock) -> (r: Step)
        requires
            old(self).model().wf(),
        ensures
            final(self).model().wf(),
            match old(self).model().fault_of(op) {
                Some(f) => r == Step::Fault(f) && final(self).model() == old(self).model(),
                None => r matches Step::Ran(o) && o.text@ == old(self).model().exec_text(op, now)
                    && o.action == VmModel::run_action(op)
                    && final(self).model() == old(self).model().ran(op, now),
            },
    {
        match self.fault(op) {
            Some(f) => Step::Fault(f),
            None => Step::Ran(self.run_op(op, now)),
        }
    }

    /// One turn of the run loop: fetch at the clock reading `fetched`, then
    /// run the operation at the reading `now` taken as it starts; or, for a
    /// byte that is none, write the complaint, scramble the memory and skip
    /// two bytes. An operation that ran asks, by its action, for `settle`
    /// once its text is written, which scrambles the memory when more than
    /// a second has passed since `fetched`.
    pub fn run_step(&mut self, fetched: Clock, now: Clock) -> (r: Step)
        requires
            old(self).model().wf(),
        ensures
            final(self).model().wf(),
            ({
                let m = old(self).model().after_fetch(fetched);
                match old(self).model().fetched() {
                    Some(op) => match m.fault_of(op) {
                        Some(f) => r == Step::Fault(f) && final(self).model() == m,
                        None => r matches Step::Ran(o) && o.text@ == m.exec_text(op, now)
                            && o.action == VmModel::run_action(op)
                            && final(self).model() == m.ran(op, now),
                    },
                    None => if m.core.pc + 2 <= usize::MAX {
                        r matches Step::Ran(o) && o.text@ == stray_text()
                            && o.action == Action::Continue
                            && final(self).model() == m.corrupted().with_core(
                                Core { pc: (m.core.pc + 2) as usize, ..m.corrupted().core },
                            )
                    } else {
                        r == Step::Fault(Fault::PcOverflow) && final(self).model() == m
                    },
                }
            }),
    {
        match self.fetch_step(fetched) {
            Fetched::Op(op) => self.exec_step(op, now),
            Fetched::Done(step) => step,
        }
    }
}

/// The sum of the bytes of `s`.
fn stack_sum(s: &Vec<u8>) -> (r: u128)
    ensures
        r == total(s@),
{
    let mut sum: u128 = 0;
    let mut i: usize = 0;
    while i < s.len()
        invariant
            0 <= i <= s.len(),
            sum == total(s@.subrange(0, i as int)),
            sum <= 255 * i,
        decreases s.len() - i,
    {
        proof {
            assert(s@.subrange(0, i + 1).drop_last() =~= s@.subrange(0, i as int));
        }
        sum = sum + s[i] as u128;
        i = i + 1;
    }
    assert(s@.subrange(0, s@.len() as int) =~= s@);
    sum
}

/// `check`'s complaint text.
fn warning() -> (r: Vec<u8>)
    ensures
        r@ == check_warning(),
{
    let chars: Vec<u8> = vec![0x4e, 0x79, 0x61, 0x20, 0x4d, 0x65, 0x6f, 0x6f, 0x77, 0x77, 0x77];
    let mut out: Vec<u8> = Vec::new();
    let mut i: usize = 0;
    while i < chars.len()
        invariant
            0 <= i <= chars.len(),
            chars@ == complaint(),
            out@ == decimals(chars@.subrange(0, i as int)),
        decreases chars.len() - i,
    {
        proof {
            assert(chars@.subrange(0, i + 1).drop_last() =~= chars@.subrange(0, i as int));
        }
        push_decimal(&mut out, chars[i] as usize);
        i = i + 1;
    }
    assert(chars@.subrange(0, chars@.len() as int) =~= chars@);
    out.push(10);
    out
}

/// The run loop's complaint text.
fn stray() -> (r: Vec<u8>)
    ensures
        r@ == stray_text(),
{
    let r: Vec<u8> = vec![0x4e, 0x79, 0x61, 0x20, 0x4d, 0x65, 0x6f, 0x6f, 0x77, 0x77, 0x77, 0x20];
    assert(r@ =~= stray_text());
    r
}

/// What a read gives back of a load: the byte loaded at the end of the
/// program reads back, unscrambled, at the address it was loaded at, and no
/// other address changes.
pub proof fn lemma_load_reads_back(m: VmModel, b: u8, q: usize)
    requires
        m.wf(),
    ensures
        m.added(b).decoded(m.core.ram.count) == b,
        q != m.core.ram.count ==> m.added(b).decoded(q) == m.decoded(q),
        m.added(b).core.ram.count == m.core.ram.count + 1,
{
    lemma_count_bound(m.core.ram);
    lemma_read_write(m.core.ram, m.core.ram.count, b ^ m.key, q);
    lemma_read_write(m.core.ram, m.core.ram.count, b ^ m.key, m.core.ram.count);
    let k = m.key;
    assert((b ^ k) ^ k == b) by (bit_vector);
}

/// Scrambling keeps the memory well formed and leaves, at every loaded
/// address, a byte that decodes to an operation from `Nyaa` to `Check`
/// (never `FN` nor `Debug`); addresses past the program keep their bytes.
pub proof fn lemma_corrupted_reads_noise(m: VmModel, c: usize)
    requires
        m.wf(),
    ensures
        m.corrupted().wf(),
        m.corrupted().core.ram.count == m.core.ram.count,
        m.corrupted().core.ram.key == m.core.ram.key,
        c < m.core.ram.count ==> m.corrupted().decoded(c) == noise(c),
        c >= m.core.ram.count ==> m.corrupted().decoded(c) == m.decoded(c),
        0xEE <= noise(c) <= 0xFE,
        OpCode::decode(noise(c)) is Some,
        OpCode::decode(noise(c)) != Some(OpCode::FN),
        OpCode::decode(noise(c)) != Some(OpCode::Debug),
{
    let r = m.core.ram;
    let w = m.corrupted().core.ram;
    let k = r.key;
    let vk = m.key;
    assert(w.cells.len() == r.cells.len());
    assert forall|x: usize| x < w.count implies #[trigger] w.present(x) by {
        assert(r.present(x));
    }
    if r.present(c) {
        let j = r.slot(c);
        lemma_xor_involutive(c, k);
        assert(((j as usize) ^ k) == c);
        if c < r.count {
            let n = noise(c);
            assert((n ^ vk) ^ vk == n) by (bit_vector);
        }
    }
    let x = c as u8;
    assert(0xEE <= ((0xEE + x % 17) as u8) <= 0xFE) by (bit_vector);
}

/// A machine that is not stale has its memory changed by the operation
/// alone: `Store` writes one cell, every other operation leaves it.
pub proof fn lemma_prompt_keeps_memory(m: VmModel, op: OpCode, now: Clock)
    requires
        !m.stale(now),
    ensures
        op != OpCode::Nay && op != OpCode::Input ==> m.exec(op, now).core == m.core.step(
            op,
            m.key,
            m.table,
        ),
        op != OpCode::Store ==> m.exec(op, now).core.ram == m.core.ram,
        m.exec(op, now).table == m.table,
        m.exec(op, now).key == m.key,
        m.exec(op, now).time == now.wall,
{
}

/// A stale machine has its whole program scrambled by any operation but
/// `Input` and `Nay`: afterwards every loaded address holds noise.
pub proof fn lemma_stale_scrambles(m: VmModel, op: OpCode, now: Clock, c: usize)
    requires
        m.wf(),
        m.stale(now),
        op != OpCode::Nay,
        op != OpCode::Input,
        m.fault_of(op) is None,
        c < m.core.ram.count,
    ensures
        m.exec(op, now).decoded(c) == noise(c),
{
    lemma_ran_keeps_wf(m, op, now);
    let r = m.ran(op, now);
    assert(r.stale(now));
    lemma_corrupted_reads_noise(r, c);
}

/// The function table built from an empty one is exact: every entry points
/// at the last `FN` before `n` that is followed by its id, and every `FN`
/// before `n` has its id in the table, at its own address or a later one.
pub proof fn lemma_scan_exact(ram: RamModel, key: u8, n: nat)
    requires
        n <= usize::MAX,
    ensures
        forall|id: u8|
            #[trigger] scan(ram, key, Map::empty(), n).contains_key(id) ==> {
                let e = scan(ram, key, Map::empty(), n)[id];
                &&& e < n
                &&& ram.read(e) ^ key == FN_CODE
                &&& ram.read((e + 1) as usize) ^ key == id
                &&& forall|i: usize|
                    e < i < n ==> !(#[trigger] ram.read(i) ^ key == FN_CODE && ram.read(
                        (i + 1) as usize,
                    ) ^ key == id)
            },
        forall|i: usize|
            i < n && #[trigger] (ram.read(i) ^ key) == FN_CODE ==> {
                let id = ram.read((i + 1) as usize) ^ key;
                scan(ram, key, Map::empty(), n).contains_key(id) && scan(
                    ram,
                    key,
                    Map::empty(),
                    n,
                )[id] >= i
            },
    decreases n,
{
    if n > 0 {
        lemma_scan_exact(ram, key, (n - 1) as nat);
        let t0 = scan(ram, key, Map::empty(), (n - 1) as nat);
        let t = scan(ram, key, Map::empty(), n);
        let last = (n - 1) as usize;
        assert forall|id: u8| #[trigger] t.contains_key(id) implies {
            let e = t[id];
            &&& e < n
            &&& ram.read(e) ^ key == FN_CODE
            &&& ram.read((e + 1) as usize) ^ key == id
            &&& forall|i: usize|
                e < i < n ==> !(#[trigger] ram.read(i) ^ key == FN_CODE && ram.read(
                    (i + 1) as usize,
                ) ^ key == id)
        } by {
            if ram.read(last) ^ key == FN_CODE && ram.read((last + 1) as usize) ^ key == id {
                assert(t[id] == last);
            } else {
                assert(t0.contains_key(id));
                assert(t[id] == t0[id]);
            }
        }
    }
}

/// What a turn of `run_step`, `cmd_next` or `continue_step` followed by
/// `settle` leaves: an operation (but `Input` and `Nay`) that is settled more
/// than a second after its fetch has the whole program scrambled, and one
/// settled within the second keeps the state the operation left.
pub proof fn lemma_slow_step_scrambles(m: VmModel, fetched: Clock, now: Clock, done: Clock, c: usize)
    requires
        m.wf(),
        m.fetched() matches Some(op) && op != OpCode::Nay && op != OpCode::Input
            && m.after_fetch(fetched).fault_of(op) is None,
        c < m.core.ram.count,
    ensures
        done.mono > fetched.mono + STALE_NANOS ==> m.after_fetch(fetched).ran(
            m.fetched()->0,
            now,
        ).settled(done).decoded(c) == noise(c),
        done.mono <= fetched.mono + STALE_NANOS ==> m.after_fetch(fetched).ran(
            m.fetched()->0,
            now,
        ).settled(done) == m.after_fetch(fetched).ran(m.fetched()->0, now),
{
    let op = m.fetched()->0;
    let f = m.after_fetch(fetched);
    assert(f.fetchable());
    lemma_ran_keeps_wf(f, op, now);
    let r = f.ran(op, now);
    assert(r.last_op == Some(fetched.mono));
    if done.mono > fetched.mono + STALE_NANOS {
        assert(r.stale(done));
        lemma_corrupted_reads_noise(r, c);
    }
}

/// Running an operation that completes keeps the memory well formed, its
/// length, and the time of the last fetch.
pub proof fn lemma_ran_keeps_wf(m: VmModel, op: OpCode, now: Clock)
    requires
        m.wf(),
        m.fault_of(op) is None,
    ensures
        m.ran(op, now).wf(),
        m.ran(op, now).core.ram.count == m.core.ram.count,
        m.ran(op, now).last_op == m.last_op,
{
    let m0 = VmModel { time: now.wall, ..m };
    let m1 = m.before(op, now);
    if op == OpCode::Push && m0.stale(now) {
        lemma_corrupted_reads_noise(m0, 0);
    }
    assert(m1.wf());
    assert(m1.core.ram.count == m.core.ram.count);
    if op != OpCode::Nay && op != OpCode::Input {
        if op == OpCode::Store && m1.core.stack.len() > 0 {
            let a = m1.core.arg(m1.key) as usize;
            assert(m1.core.ram.present(a));
            lemma_write_keeps_wf(m1.core.ram, a, m1.core.stack[0] ^ m1.key);
        }
    }
}

/// The machine dump shows, at every loaded address, the byte that
/// `get_raw` gives there, which is the stored byte unscrambled by the
/// machine key: its value, or, at the program counter, the name of the
/// operation it encodes.
pub proof fn lemma_dump_shows_unscrambled_bytes(m: VmModel, i: usize)
    ensures
        ({
            let v = m.core.ram.read(i) ^ m.key;
            let head: Seq<u8> = if i % 8 == 0 { seq![10u8] } else { Seq::empty() };
            &&& i != m.core.pc ==> cell_text(m, i) == head + decimal(i as nat) + seq![58u8]
                + decimal(v as nat) + seq![32u8]
            &&& i == m.core.pc && OpCode::decode(v) is Some ==> cell_text(m, i) == head
                + decimal(i as nat) + seq![58u8, 91u8] + OpCode::decode(v)->0.name() + seq![
                93u8,
                32u8,
            ]
        }),
{
}

/// What the dump shows of a load: the byte loaded with `add_byte` at the end
/// of the program is shown, as loaded, at the address it was loaded at
/// (away from the program counter), whatever the keys.
pub proof fn lemma_dump_shows_loaded_byte(m: VmModel, b: u8)
    requires
        m.wf(),
        m.core.pc != m.core.ram.count,
    ensures
        ({
            let n = m.core.ram.count;
            let head: Seq<u8> = if n % 8 == 0 { seq![10u8] } else { Seq::empty() };
            cell_text(m.added(b), n) == head + decimal(n as nat) + seq![58u8] + decimal(b as nat)
                + seq![32u8]
        }),
{
    lemma_load_reads_back(m, b, m.core.ram.count);
}

/// `Debug` run as an operation moves the program counter on by exactly one
/// and leaves the stack and the memory as they were (when the machine is
/// not stale).
pub proof fn lemma_debug_op_moves_one(m: VmModel, now: Clock)
    requires
        m.core.pc + 1 <= usize::MAX,
        !m.stale(now),
    ensures
        m.ran(OpCode::Debug, now).core.pc == m.core.pc + 1,
        m.ran(OpCode::Debug, now).core.stack == m.core.stack,
        m.ran(OpCode::Debug, now).core.ram == m.core.ram,
        m.exec(OpCode::Debug, now).core == m.ran(OpCode::Debug, now).core,
{
}

} // verus!
