//! The debugger: commands that step or run the machine, set breakpoints on
//! function calls, and list the code around the program counter.
use crate::machine::{Clock, Fetched, Step, VmModel, VM};
use crate::opcode::OpCode;
use crate::ram::lemma_count_bound;
use crate::text::{decimal, push_all, push_decimal};
use vstd::prelude::*;

verus! {

/// `s` with every character in lower case, as `str::to_lowercase` maps it
/// (by the Unicode tables).
pub uninterp spec fn lowercase_of(s: Seq<char>) -> Seq<char>;

/// `String::to_lowercase`; its result depends on its argument alone.
#[verifier::external_body]
fn lowercase(s: &String) -> (r: String)
    ensures
        r@ == lowercase_of(s@),
{
    s.to_lowercase()
}

/// Whether `c` is an ASCII decimal digit.
pub open spec fn is_digit(c: char) -> bool {
    '0' <= c && c <= '9'
}

/// The value of a string of decimal digits.
pub open spec fn digits_value(ds: Seq<char>) -> nat
    decreases ds.len(),
{
    if ds.len() == 0 {
        0
    } else {
        digits_value(ds.drop_last()) * 10 + (ds.last() as nat - '0' as nat) as nat
    }
}

/// The digits that follow an optional leading `+`.
pub open spec fn unsigned_digits(s: Seq<char>) -> Seq<char> {
    if s.len() > 0 && s[0] == '+' {
        s.drop_first()
    } else {
        s
    }
}

/// What `u8::from_str` gives for `s`: an optional `+` followed by at least
/// one decimal digit and nothing else, of a value below 256.
pub open spec fn parsed_u8(s: Seq<char>) -> Option<u8> {
    let ds = unsigned_digits(s);
    if ds.len() > 0 && (forall|i: int| 0 <= i < ds.len() ==> is_digit(#[trigger] ds[i]))
        && digits_value(ds) <= 255 {
        Some(digits_value(ds) as u8)
    } else {
        None
    }
}

/// `str::parse::<u8>` (`u8::from_str`). Its documentation: the text is an
/// optional `+` sign followed by digits only, and a value that does not fit
/// the type is an error. The error itself is dropped.
#[verifier::external_body]
fn parse_u8(s: &String) -> (r: Option<u8>)
    ensures
        r == parsed_u8(s@),
{
    s.parse::<u8>().ok()
}

/// A debugger command.
#[derive(Debug, Clone, Copy, PartialEq, Eq, Structural)]
pub enum Command {
    Continue,
    Next,
    Break,
    Exit,
    Debug,
    Unknown,
}

/// The command that a (lower-case) command word names.
pub open spec fn command_of(w: Seq<char>) -> Command {
    if w == "continue"@ || w == "c"@ {
        Command::Continue
    } else if w == "next"@ || w == "n"@ {
        Command::Next
    } else if w == "break"@ || w == "breakpoint"@ || w == "b"@ {
        Command::Break
    } else if w == "exit"@ {
        Command::Exit
    } else if w == "debug"@ || w == "d"@ {
        Command::Debug
    } else {
        Command::Unknown
    }
}

/// The command that `word` names.
pub fn parse_command(word: &String) -> (r: Command)
    ensures
        r == command_of(word@),
{
    if word.eq(&"continue".to_owned()) || word.eq(&"c".to_owned()) {
        Command::Continue
    } else if word.eq(&"next".to_owned()) || word.eq(&"n".to_owned()) {
        Command::Next
    } else if word.eq(&"break".to_owned()) || word.eq(&"breakpoint".to_owned()) || word.eq(
        &"b".to_owned(),
    ) {
        Command::Break
    } else if word.eq(&"exit".to_owned()) {
        Command::Exit
    } else if word.eq(&"debug".to_owned()) || word.eq(&"d".to_owned()) {
        Command::Debug
    } else {
        Command::Unknown
    }
}

/// The text `usage: break <fn_id>` / `or: break *<pc>`, with line feeds.
pub open spec fn usage_text() -> Seq<u8> {
    seq![
        117u8, 115, 97, 103, 101, 58, 32, 98, 114, 101, 97, 107, 32, 60, 102, 110, 95, 105, 100,
        62, 10, 111, 114, 58, 32, 98, 114, 101, 97, 107, 32, 42, 60, 112, 99, 62, 10,
    ]
}

/// `added breakpoint on {id} pc {entry}` and a line feed.
pub open spec fn added_text(id: u8, entry: usize) -> Seq<u8> {
    seq![
        97u8, 100, 100, 101, 100, 32, 98, 114, 101, 97, 107, 112, 111, 105, 110, 116, 32, 111,
        110, 32,
    ] + decimal(id as nat) + seq![32u8, 112, 99, 32] + decimal(entry as nat) + seq![10u8]
}

/// `hit breakpoint {id}` and a line feed.
pub open spec fn hit_text(id: u8) -> Seq<u8> {
    seq![104u8, 105, 116, 32, 98, 114, 101, 97, 107, 112, 111, 105, 110, 116, 32] + decimal(
        id as nat,
    ) + seq![10u8]
}

/// How far the address `i` is below `len`.
pub open spec fn gap(len: usize, i: int) -> nat {
    if i < len {
        (len - i) as nat
    } else {
        0
    }
}

/// The operands of the operation at `i`, `k` of its `n`, separated by
/// spaces.
pub open spec fn operands_text(m: VmModel, i: int, n: nat, k: nat) -> Seq<u8>
    decreases k,
{
    if k == 0 {
        Seq::empty()
    } else {
        operands_text(m, i, n, (k - 1) as nat) + decimal(m.decoded((i + k) as usize) as nat) + (
        if k < n {
            seq![32u8]
        } else {
            Seq::<u8>::empty()
        })
    }
}

/// One line of the listing: an arrow at the program counter, the address,
/// the operation's name and its operands.
pub open spec fn entry_text(m: VmModel, i: int, op: OpCode) -> Seq<u8> {
    let arrow: Seq<u8> = if i == m.core.pc { seq![45u8, 62, 32] } else { seq![32u8, 32, 32] };
    arrow + decimal(i as nat) + seq![58u8, 32] + op.name() + seq![40u8] + operands_text(
        m,
        i,
        op.operands() as nat,
        op.operands() as nat,
    ) + seq![41u8, 10]
}

/// The listing from the address `i` on, below `end` and below the number of
/// loaded bytes: bytes that encode no operation are skipped and widen the
/// window by one; an operation's operands are shown with it and also widen
/// the window.
pub open spec fn listing(m: VmModel, i: int, end: int) -> Seq<u8>
    decreases gap(m.len, i),
{
    if i >= end || i >= m.len || i < 0 {
        Seq::empty()
    } else {
        match OpCode::decode(m.decoded(i as usize)) {
            None => listing(m, i + 1, end + 1),
            Some(op) => entry_text(m, i, op) + listing(
                m,
                i + op.operands() + 1,
                end + op.operands(),
            ),
        }
    }
}

/// The first `n` stack entries, each as `index: value` on a line.
pub open spec fn stack_lines(s: Seq<u8>, n: nat) -> Seq<u8>
    decreases n,
{
    if n == 0 {
        Seq::empty()
    } else {
        stack_lines(s, (n - 1) as nat) + decimal((n - 1) as nat) + seq![58u8, 32] + decimal(
            s[n - 1] as nat,
        ) + seq![10u8]
    }
}

/// Where the listing starts: three bytes before the program counter.
pub open spec fn window_start(pc: usize) -> int {
    if pc >= 3 {
        pc - 3
    } else {
        0
    }
}

/// The text of `cmd_debug`.
pub open spec fn debug_listing(m: VmModel, banner: Seq<u8>, stack_banner: Seq<u8>) -> Seq<u8> {
    banner + seq![10u8] + listing(m, window_start(m.core.pc), m.core.pc + 4) + seq![10u8]
        + stack_banner + seq![10u8] + stack_lines(m.core.stack, m.core.stack.len()) + seq![10u8]
}

/// The debugger: a machine and the function ids to stop at.
#[derive(Debug)]
pub struct Debugger {
    pub vm: VM,
    pub breakpoints: Vec<u8>,
}

impl Debugger {
    /// A debugger on `vm`, with no breakpoint.
    pub fn new(vm: VM) -> (r: Debugger)
        ensures
            r.vm == vm,
            r.breakpoints@ == Seq::<u8>::empty(),
    {
        Debugger { vm, breakpoints: Vec::new() }
    }

    /// The fetch half of `next`, at the clock reading `fetched`.
    pub fn next_fetch(&mut self, fetched: Clock) -> (r: Fetched)
        requires
            old(self).vm.model().wf(),
        ensures
            final(self).vm.model() == old(self).vm.model().after_fetch(fetched),
            final(self).vm.model().wf(),
            final(self).breakpoints == old(self).breakpoints,
            match old(self).vm.model().fetched() {
                Some(op) => r == Fetched::Op(op),
                None => r == Fetched::Done(Step::Idle),
            },
    {
        match self.vm.get_op(fetched) {
            Some(op) => Fetched::Op(op),
            None => Fetched::Done(Step::Idle),
        }
    }

    /// Runs the next operation, if the byte under the program counter is
    /// one: fetched at the clock reading `fetched`, run at the reading `now`
    /// taken as it starts. An operation that ran asks, by its action, for
    /// `settle` once its text is written, which scrambles the memory when
    /// more than a second has passed since `fetched`.
    pub fn cmd_next(&mut self, _cmds: &Vec<String>, fetched: Clock, now: Clock) -> (r: Step)
        requires
            old(self).vm.model().wf(),
        ensures
            final(self).vm.model().wf(),
            final(self).breakpoints == old(self).breakpoints,
            ({
                let m = old(self).vm.model().after_fetch(fetched);
                match old(self).vm.model().fetched() {
                    Some(op) => match m.fault_of(op) {
                        Some(f) => r == Step::Fault(f) && final(self).vm.model() == m,
                        None => r matches Step::Ran(o) && o.text@ == m.exec_text(op, now)
                            && o.action == VmModel::run_action(op)
                            && final(self).vm.model() == m.ran(op, now),
                    },
                    None => r == Step::Idle && final(self).vm.model() == m,
                }
            }),
    {
        match self.next_fetch(fetched) {
            Fetched::Op(op) => self.vm.exec_step(op, now),
            Fetched::Done(step) => step,
        }
    }

    /// Sets a breakpoint on the function whose id is the second word, where
    /// the function table has it; with fewer than two words, the usage.
    pub fn cmd_break(&mut self, cmds: &Vec<String>) -> (r: (Result<(), ()>, Vec<u8>))
        ensures
            r.0 == Ok::<(), ()>(()),
            final(self).vm == old(self).vm,
            cmds@.len() < 2 ==> r.1@ == usage_text() && final(self).breakpoints@
                == old(self).breakpoints@,
            cmds@.len() >= 2 ==> match parsed_u8(cmds@[1]@) {
                Some(id) => if old(self).vm.model().table.contains_key(id) {
                    &&& final(self).breakpoints@ == old(self).breakpoints@.push(id)
                    &&& r.1@ == added_text(id, old(self).vm.model().table[id])
                } else {
                    final(self).breakpoints@ == old(self).breakpoints@ && r.1@ == Seq::<u8>::empty()
                },
                None => final(self).breakpoints@ == old(self).breakpoints@ && r.1@ == Seq::<
                    u8,
                >::empty(),
            },
    {
        let mut out: Vec<u8> = Vec::new();
        if cmds.len() < 2 {
            let usage: Vec<u8> = vec![
                117u8, 115, 97, 103, 101, 58, 32, 98, 114, 101, 97, 107, 32, 60, 102, 110, 95, 105,
                100, 62, 10, 111, 114, 58, 32, 98, 114, 101, 97, 107, 32, 42, 60, 112, 99, 62, 10,
            ];
            assert(usage@ =~= usage_text());
            return (Ok(()), usage);
        }
        match parse_u8(&cmds[1]) {
            Some(id) => {
                match self.vm.get_ftable().get(&id) {
                    Some(ppc) => {
                        let entry = *ppc;
                        let head: Vec<u8> = vec![
                            97u8, 100, 100, 101, 100, 32, 98, 114, 101, 97, 107, 112, 111, 105,
                            110, 116, 32, 111, 110, 32,
                        ];
                        push_all(&mut out, head.as_slice());
                        push_decimal(&mut out, id as usize);
                        out.push(32);
                        out.push(112);
                        out.push(99);
                        out.push(32);
                        push_decimal(&mut out, entry);
                        out.push(10);
                        self.breakpoints.push(id);
                        assert(out@ =~= added_text(id, entry));
                    },
                    None => {},
                }
            },
            None => {},
        }
        (Ok(()), out)
    }

    /// The fetch half of `continue`, at the clock reading `fetched`: stop
    /// before a `Call` whose function id has a breakpoint; otherwise the
    /// operation to run.
    pub fn continue_fetch(&mut self, fetched: Clock) -> (r: Fetched)
        requires
            old(self).vm.model().wf(),
        ensures
            final(self).vm.model() == old(self).vm.model().after_fetch(fetched),
            final(self).vm.model().wf(),
            final(self).breakpoints == old(self).breakpoints,
            ({
                let m = old(self).vm.model().after_fetch(fetched);
                match old(self).vm.model().fetched() {
                    Some(op) => match m.fault_of(op) {
                        Some(f) => r == Fetched::Done(Step::Fault(f)),
                        None => if op == OpCode::Call && old(self).breakpoints@.contains(
                            m.core.arg(m.key),
                        ) {
                            r matches Fetched::Done(Step::Halt(t)) && t@ == hit_text(m.core.arg(m.key))
                        } else {
                            r == Fetched::Op(op)
                        },
                    },
                    None => r == Fetched::Done(Step::Idle),
                }
            }),
    {
        match self.vm.get_op(fetched) {
            Some(op) => {
                match self.vm.fault(op) {
                    Some(f) => {
                        return Fetched::Done(Step::Fault(f));
                    },
                    None => {},
                }
                if op == OpCode::Call {
                    let fn_id = match self.vm.get_raw(self.vm.pc() + 1) {
                        Some(b) => b,
                        None => 0,
                    };
                    let mut hit = false;
                    let mut j: usize = 0;
                    while j < self.breakpoints.len()
                        invariant
                            0 <= j <= self.breakpoints.len(),
                            hit <==> exists|k: int| 0 <= k < j && self.breakpoints@[k] == fn_id,
                        decreases self.breakpoints.len() - j,
                    {
                        if self.breakpoints[j] == fn_id {
                            hit = true;
                        }
                        j = j + 1;
                    }
                    if hit {
                        let mut out: Vec<u8> = vec![
                            104u8, 105, 116, 32, 98, 114, 101, 97, 107, 112, 111, 105, 110, 116, 32,
                        ];
                        push_decimal(&mut out, fn_id as usize);
                        out.push(10);
                        assert(out@ =~= hit_text(fn_id));
                        return Fetched::Done(Step::Halt(out));
                    }
                }
                Fetched::Op(op)
            },
            None => Fetched::Done(Step::Idle),
        }
    }


    /// One turn of `continue`: fetch at the clock reading `fetched`; stop
    /// before a `Call` whose function id has a breakpoint; run the operation
    /// otherwise, at the reading `now` taken as it starts. An operation that
    /// ran asks, by its action, for `settle` once its text is written, which
    /// scrambles the memory when more than a second has passed since
    /// `fetched`.
    pub fn continue_step(&mut self, fetched: Clock, now: Clock) -> (r: Step)
        requires
            old(self).vm.model().wf(),
        ensures
            final(self).vm.model().wf(),
            final(self).breakpoints == old(self).breakpoints,
            ({
                let m = old(self).vm.model().after_fetch(fetched);
                match old(self).vm.model().fetched() {
                    Some(op) => match m.fault_of(op) {
                        Some(f) => r == Step::Fault(f) && final(self).vm.model() == m,
                        None => if op == OpCode::Call && old(self).breakpoints@.contains(
                            m.core.arg(m.key),
                        ) {
                            r matches Step::Halt(t) && t@ == hit_text(m.core.arg(m.key))
                                && final(self).vm.model() == m
                        } else {
                            r matches Step::Ran(o) && o.text@ == m.exec_text(op, now)
                                && o.action == VmModel::run_action(op)
                                && final(self).vm.model() == m.ran(op, now)
                        },
                    },
                    None => r == Step::Idle && final(self).vm.model() == m,
                }
            }),
    {
        match self.continue_fetch(fetched) {
            Fetched::Op(op) => self.vm.exec_step(op, now),
            Fetched::Done(step) => step,
        }
    }

    /// `exit`: ends the debugging session.
    pub fn cmd_exit(&mut self, _cmds: &Vec<String>) -> (r: Result<(), ()>)
        ensures
            r == Err::<(), ()>(()),
            final(self).vm == old(self).vm,
            final(self).breakpoints == old(self).breakpoints,
    {
        Err(())
    }

    /// The listing around the program counter, then the stack, headed by
    /// `banner` and `stack_banner`.
    pub fn cmd_debug(&mut self, _cmds: &Vec<String>, banner: &[u8], stack_banner: &[u8]) -> (r: Vec<
        u8,
    >)
        requires
            old(self).vm.model().wf(),
            old(self).vm.model().core.pc + 4 <= usize::MAX,
        ensures
            r@ == debug_listing(old(self).vm.model(), banner@, stack_banner@),
            final(self).vm.model() == old(self).vm.model(),
            final(self).breakpoints == old(self).breakpoints,
    {
        let ghost m = self.vm.model();
        proof {
            lemma_count_bound(m.core.ram);
        }
        let mut out: Vec<u8> = Vec::new();
        push_all(&mut out, banner);
        out.push(10);
        let ghost head = out@;
        let pc = self.vm.pc();
        let start: usize = if pc >= 3 { pc - 3 } else { 0 };
        let mut end: usize = pc + 4;
        let len = self.vm.ram_len();
        let mut i: usize = start;
        while i < end && i < len
            invariant
                start <= i,
                i == start || i <= len + 2,
                end <= i + 7,
                len == m.len,
                len + 8 <= usize::MAX,
                pc == m.core.pc,
                start == window_start(pc),
                m == self.vm.model(),
                self.breakpoints == old(self).breakpoints,
                head + listing(m, start as int, pc + 4) == out@ + listing(m, i as int, end as int),
            decreases len + 3 - i,
        {
            let o = match self.vm.get_raw(i) {
                Some(b) => b,
                None => 0,
            };
            match OpCode::find_code(o) {
                None => {
                    i = i + 1;
                    end = end + 1;
                },
                Some(op) => {
                    let arg_size = op.arg_size();
                    let ghost before = out@;
                    self.push_entry(&mut out, i, op);
                    proof {
                        assert(out@ == before + entry_text(m, i as int, op));
                        assert(listing(m, i as int, end as int) == entry_text(m, i as int, op)
                            + listing(m, i + arg_size + 1, end + arg_size));
                    }
                    i = i + arg_size;
                    end = end + arg_size;
                    i = i + 1;
                },
            }
        }
        proof {
            assert(listing(m, i as int, end as int) == Seq::<u8>::empty());
        }
        out.push(10);
        push_all(&mut out, stack_banner);
        out.push(10);
        let ghost mid = out@;
        let mut j: usize = 0;
        let stack = self.vm.stack();
        while j < stack.len()
            invariant
                0 <= j <= stack.len(),
                m == self.vm.model(),
                m.core.stack == stack@,
                out@ == mid + stack_lines(m.core.stack, j as nat),
            decreases stack.len() - j,
        {
            push_decimal(&mut out, j);
            out.push(58);
            out.push(32);
            push_decimal(&mut out, stack[j] as usize);
            out.push(10);
            proof {
                assert(out@ =~= mid + stack_lines(m.core.stack, (j + 1) as nat));
            }
            j = j + 1;
        }
        out.push(10);
        proof {
            assert(out@ =~= debug_listing(m, banner@, stack_banner@));
        }
        out
    }

    /// Appends the listing line of the operation `op` at `i`.
    fn push_entry(&mut self, out: &mut Vec<u8>, i: usize, op: OpCode)
        requires
            i + 3 <= usize::MAX,
        ensures
            final(out)@ == old(out)@ + entry_text(old(self).vm.model(), i as int, op),
            final(self).vm.model() == old(self).vm.model(),
            final(self).breakpoints == old(self).breakpoints,
    {
        let ghost m = self.vm.model();
        let ghost start = out@;
        if i == self.vm.pc() {
            out.push(45);
            out.push(62);
            out.push(32);
        } else {
            out.push(32);
            out.push(32);
            out.push(32);
        }
        push_decimal(out, i);
        out.push(58);
        out.push(32);
        op.push_name(out);
        out.push(40);
        let ghost before_args = out@;
        let n = op.arg_size();
        let mut k: usize = 0;
        while k < n
            invariant
                0 <= k <= n,
                n == op.operands(),
                n <= 2,
                i + 3 <= usize::MAX,
                m == self.vm.model(),
                self.breakpoints == old(self).breakpoints,
                out@ == before_args + operands_text(m, i as int, n as nat, k as nat),
            decreases n - k,
        {
            let v = match self.vm.get_raw(i + (k + 1)) {
                Some(b) => b,
                None => 0,
            };
            push_decimal(out, v as usize);
            if k != n - 1 {
                out.push(32);
            }
            proof {
                assert(out@ =~= before_args + operands_text(m, i as int, n as nat, (k + 1) as nat));
            }
            k = k + 1;
        }
        out.push(41);
        out.push(10);
        proof {
            assert(out@ =~= start + entry_text(m, i as int, op));
        }
    }

    /// Reads the command word and names the command; the caller then runs
    /// it: `cmd_next` (once) or `continue_step` (until it halts) for the
    /// stepping commands, `cmd_break`, `cmd_exit` or `cmd_debug` for the
    /// others, nothing for an unknown word.
    pub fn exec_cmd(&mut self, cmds: &Vec<String>) -> (r: Command)
        requires
            cmds@.len() > 0,
        ensures
            r == command_of(lowercase_of(cmds@[0]@)),
            final(self).vm == old(self).vm,
            final(self).breakpoints == old(self).breakpoints,
    {
        let word = lowercase(&cmds[0]);
        parse_command(&word)
    }
}

/// The listing shows an operation that takes the byte after it as its
/// argument (the function id of `Call`, the target of `Jmp` and `Jz`, the
/// value of `Push`, the stack index of `Print`, the id after `FN`) with
/// exactly that byte, unscrambled, as its one operand.
pub proof fn lemma_listing_shows_the_argument(m: VmModel, i: int, op: OpCode)
    requires
        op == OpCode::Call || op == OpCode::Jmp || op == OpCode::Jz || op == OpCode::Push
            || op == OpCode::Print || op == OpCode::FN,
    ensures
        ({
            let arrow: Seq<u8> = if i == m.core.pc { seq![45u8, 62, 32] } else { seq![32u8, 32, 32] };
            entry_text(m, i, op) == arrow + decimal(i as nat) + seq![58u8, 32] + op.name() + seq![
                40u8,
            ] + decimal((m.core.ram.read((i + 1) as usize) ^ m.key) as nat) + seq![41u8, 10]
        }),
{
    reveal_with_fuel(operands_text, 2);
    let d = decimal(m.decoded((i + 1) as usize) as nat);
    assert(operands_text(m, i, 1, 1) =~= d);
}

} // verus!
