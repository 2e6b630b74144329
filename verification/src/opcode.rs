//! The instruction set: nineteen operations, each encoded by one byte of the
//! top range `0xED..=0xFF`.
use vstd::prelude::*;

verus! {

/// One operation of the machine.
#[derive(Debug, Clone, Copy, PartialEq, Eq, Structural)]
pub enum OpCode {
    FN,
    Nyaa,
    Meow,
    Nay,
    Push,
    Pop,
    Add,
    Sub,
    Jmp,
    Jz,
    Call,
    Ret,
    Load,
    Store,
    Print,
    Input,
    Eq,
    Check,
    Debug,
}

/// A key of the program image format.
pub const KEY_B: [u8; 20] = [
    0x41, 0x53, 0x36, 0x6c, 0x58, 0x58, 0x56, 0x41, 0x64, 0x31, 0x6f, 0x58, 0x58, 0x67, 0x36, 0x71,
    0x23, 0x66, 0x6d, 0x31,
];

/// The byte that encodes `FN`, the marker of a function entry.
pub const FN_CODE: u8 = 0xED;

/// The byte that encodes `Debug`.
pub const DEBUG_CODE: u8 = 0xFF;

impl OpCode {
    /// The byte that encodes the operation.
    pub open spec fn byte(self) -> u8 {
        match self {
            OpCode::FN => 0xED,
            OpCode::Nyaa => 0xEE,
            OpCode::Meow => 0xEF,
            OpCode::Nay => 0xF0,
            OpCode::Push => 0xF1,
            OpCode::Pop => 0xF2,
            OpCode::Add => 0xF3,
            OpCode::Sub => 0xF4,
            OpCode::Jmp => 0xF5,
            OpCode::Jz => 0xF6,
            OpCode::Call => 0xF7,
            OpCode::Ret => 0xF8,
            OpCode::Load => 0xF9,
            OpCode::Store => 0xFA,
            OpCode::Print => 0xFB,
            OpCode::Input => 0xFC,
            OpCode::Eq => 0xFD,
            OpCode::Check => 0xFE,
            OpCode::Debug => 0xFF,
        }
    }

    /// The operation that a byte encodes, if any.
    pub open spec fn decode(b: u8) -> Option<OpCode> {
        if b == 0xED {
            Some(OpCode::FN)
        } else if b == 0xEE {
            Some(OpCode::Nyaa)
        } else if b == 0xEF {
            Some(OpCode::Meow)
        } else if b == 0xF0 {
            Some(OpCode::Nay)
        } else if b == 0xF1 {
            Some(OpCode::Push)
        } else if b == 0xF2 {
            Some(OpCode::Pop)
        } else if b == 0xF3 {
            Some(OpCode::Add)
        } else if b == 0xF4 {
            Some(OpCode::Sub)
        } else if b == 0xF5 {
            Some(OpCode::Jmp)
        } else if b == 0xF6 {
            Some(OpCode::Jz)
        } else if b == 0xF7 {
            Some(OpCode::Call)
        } else if b == 0xF8 {
            Some(OpCode::Ret)
        } else if b == 0xF9 {
            Some(OpCode::Load)
        } else if b == 0xFA {
            Some(OpCode::Store)
        } else if b == 0xFB {
            Some(OpCode::Print)
        } else if b == 0xFC {
            Some(OpCode::Input)
        } else if b == 0xFD {
            Some(OpCode::Eq)
        } else if b == 0xFE {
            Some(OpCode::Check)
        } else if b == 0xFF {
            Some(OpCode::Debug)
        } else {
            None
        }
    }

    /// The order in which `iterator` lists the operations.
    pub open spec fn listing() -> Seq<OpCode> {
        seq![
            OpCode::Push,
            OpCode::Pop,
            OpCode::Add,
            OpCode::Sub,
            OpCode::Jmp,
            OpCode::Jz,
            OpCode::Call,
            OpCode::Ret,
            OpCode::Load,
            OpCode::Store,
            OpCode::Debug,
            OpCode::Print,
            OpCode::Input,
            OpCode::Eq,
            OpCode::Check,
            OpCode::Nay,
            OpCode::Meow,
            OpCode::Nyaa,
            OpCode::FN,
        ]
    }

    /// How many argument bytes follow the operation in a listing of the
    /// program.
    pub open spec fn operands(self) -> usize {
        match self {
            OpCode::FN | OpCode::Nyaa | OpCode::Meow | OpCode::Push | OpCode::Jmp | OpCode::Jz
            | OpCode::Call | OpCode::Print => 1,
            OpCode::Store => 2,
            _ => 0,
        }
    }

    /// The name under which the operation is shown, as its `Debug` form.
    pub open spec fn name(self) -> Seq<u8> {
        match self {
            OpCode::FN => seq![70u8, 78],
            OpCode::Nyaa => seq![78u8, 121, 97, 97],
            OpCode::Meow => seq![77u8, 101, 111, 119],
            OpCode::Nay => seq![78u8, 97, 121],
            OpCode::Push => seq![80u8, 117, 115, 104],
            OpCode::Pop => seq![80u8, 111, 112],
            OpCode::Add => seq![65u8, 100, 100],
            OpCode::Sub => seq![83u8, 117, 98],
            OpCode::Jmp => seq![74u8, 109, 112],
            OpCode::Jz => seq![74u8, 122],
            OpCode::Call => seq![67u8, 97, 108, 108],
            OpCode::Ret => seq![82u8, 101, 116],
            OpCode::Load => seq![76u8, 111, 97, 100],
            OpCode::Store => seq![83u8, 116, 111, 114, 101],
            OpCode::Print => seq![80u8, 114, 105, 110, 116],
            OpCode::Input => seq![73u8, 110, 112, 117, 116],
            OpCode::Eq => seq![69u8, 113],
            OpCode::Check => seq![67u8, 104, 101, 99, 107],
            OpCode::Debug => seq![68u8, 101, 98, 117, 103],
        }
    }

    /// The byte that encodes the operation.
    pub fn code(self) -> (r: u8)
        ensures
            r == self.byte(),
    {
        match self {
            OpCode::FN => 0xED,
            OpCode::Nyaa => 0xEE,
            OpCode::Meow => 0xEF,
            OpCode::Nay => 0xF0,
            OpCode::Push => 0xF1,
            OpCode::Pop => 0xF2,
            OpCode::Add => 0xF3,
            OpCode::Sub => 0xF4,
            OpCode::Jmp => 0xF5,
            OpCode::Jz => 0xF6,
            OpCode::Call => 0xF7,
            OpCode::Ret => 0xF8,
            OpCode::Load => 0xF9,
            OpCode::Store => 0xFA,
            OpCode::Print => 0xFB,
            OpCode::Input => 0xFC,
            OpCode::Eq => 0xFD,
            OpCode::Check => 0xFE,
            OpCode::Debug => 0xFF,
        }
    }

    /// Every operation, each once, in a fixed order.
    pub fn iterator() -> (r: Vec<OpCode>)
        ensures
            r@ == Self::listing(),
    {
        let r = vec![
            OpCode::Push,
            OpCode::Pop,
            OpCode::Add,
            OpCode::Sub,
            OpCode::Jmp,
            OpCode::Jz,
            OpCode::Call,
            OpCode::Ret,
            OpCode::Load,
            OpCode::Store,
            OpCode::Debug,
            OpCode::Print,
            OpCode::Input,
            OpCode::Eq,
            OpCode::Check,
            OpCode::Nay,
            OpCode::Meow,
            OpCode::Nyaa,
            OpCode::FN,
        ];
        assert(r@ =~= Self::listing());
        r
    }

    /// The operation that `val` encodes, or `None` where it encodes none.
    pub fn from_u8(val: u8) -> (r: Option<OpCode>)
        ensures
            r == Self::decode(val),
            r matches Some(op) ==> op.byte() == val,
            r is None ==> forall|op: OpCode| op.byte() != val,
    {
        proof {
            lemma_decode_inverts_byte();
        }
        match val {
            0xED => Some(OpCode::FN),
            0xEE => Some(OpCode::Nyaa),
            0xEF => Some(OpCode::Meow),
            0xf0 => Some(OpCode::Nay),
            0xf1 => Some(OpCode::Push),
            0xf2 => Some(OpCode::Pop),
            0xf3 => Some(OpCode::Add),
            0xf4 => Some(OpCode::Sub),
            0xf5 => Some(OpCode::Jmp),
            0xf6 => Some(OpCode::Jz),
            0xf7 => Some(OpCode::Call),
            0xf8 => Some(OpCode::Ret),
            0xf9 => Some(OpCode::Load),
            0xfa => Some(OpCode::Store),
            0xfb => Some(OpCode::Print),
            0xfc => Some(OpCode::Input),
            0xfd => Some(OpCode::Eq),
            0xfe => Some(OpCode::Check),
            0xff => Some(OpCode::Debug),
            _ => None,
        }
    }

    /// The first operation in `iterator()` order whose code is `byte`.
    pub fn find_code(byte: u8) -> (r: Option<OpCode>)
        ensures
            r == Self::decode(byte),
    {
        proof {
            lemma_decode_inverts_byte();
        }
        let ops = Self::iterator();
        let mut i: usize = 0;
        while i < ops.len()
            invariant
                0 <= i <= ops.len(),
                ops@ == Self::listing(),
                forall|k: int| 0 <= k < i ==> (#[trigger] ops@[k]).byte() != byte,
            decreases ops.len() - i,
        {
            if ops[i].code() == byte {
                return Some(ops[i]);
            }
            i = i + 1;
        }
        proof {
            if let Some(op) = Self::decode(byte) {
                lemma_listing_complete(op);
                let k = choose|k: int| 0 <= k < ops@.len() && ops@[k] == op;
                assert(ops@[k].byte() != byte);
            }
        }
        None
    }

    /// How many argument bytes follow the operation.
    pub fn arg_size(self) -> (r: usize)
        ensures
            r == self.operands(),
    {
        match self {
            OpCode::FN | OpCode::Nyaa | OpCode::Meow | OpCode::Push | OpCode::Jmp | OpCode::Jz
            | OpCode::Call | OpCode::Print => 1,
            OpCode::Store => 2,
            _ => 0,
        }
    }

    /// Appends the operation's name to `out`.
    pub fn push_name(self, out: &mut Vec<u8>)
        ensures
            final(out)@ == old(out)@ + self.name(),
    {
        let name: Vec<u8> = match self {
            OpCode::FN => vec![70u8, 78],
            OpCode::Nyaa => vec![78u8, 121, 97, 97],
            OpCode::Meow => vec![77u8, 101, 111, 119],
            OpCode::Nay => vec![78u8, 97, 121],
            OpCode::Push => vec![80u8, 117, 115, 104],
            OpCode::Pop => vec![80u8, 111, 112],
            OpCode::Add => vec![65u8, 100, 100],
            OpCode::Sub => vec![83u8, 117, 98],
            OpCode::Jmp => vec![74u8, 109, 112],
            OpCode::Jz => vec![74u8, 122],
            OpCode::Call => vec![67u8, 97, 108, 108],
            OpCode::Ret => vec![82u8, 101, 116],
            OpCode::Load => vec![76u8, 111, 97, 100],
            OpCode::Store => vec![83u8, 116, 111, 114, 101],
            OpCode::Print => vec![80u8, 114, 105, 110, 116],
            OpCode::Input => vec![73u8, 110, 112, 117, 116],
            OpCode::Eq => vec![69u8, 113],
            OpCode::Check => vec![67u8, 104, 101, 99, 107],
            OpCode::Debug => vec![68u8, 101, 98, 117, 103],
        };
        let ghost start = out@;
        let mut i: usize = 0;
        while i < name.len()
            invariant
                0 <= i <= name.len(),
                name@ == self.name(),
                out@ == start + name@.subrange(0, i as int),
            decreases name.len() - i,
        {
            out.push(name[i]);
            i = i + 1;
            assert(out@ =~= start + name@.subrange(0, i as int));
        }
        assert(name@.subrange(0, name@.len() as int) =~= name@);
    }
}

/// Decoding undoes encoding, and a byte decodes to an operation exactly when
/// it is the encoding of that operation.
pub proof fn lemma_decode_inverts_byte()
    ensures
        forall|op: OpCode| #[trigger] OpCode::decode(op.byte()) == Some(op),
        forall|b: u8| #[trigger] OpCode::decode(b) matches Some(op) ==> op.byte() == b,
        forall|b: u8| OpCode::decode(b) is None ==> forall|op: OpCode| #[trigger] op.byte() != b,
{
}

/// Distinct operations have distinct encodings.
pub proof fn lemma_byte_injective(a: OpCode, b: OpCode)
    ensures
        a.byte() == b.byte() <==> a == b,
{
}

/// The encodings fill exactly the range `0xED..=0xFF`: every operation's byte
/// lies in it, and every byte in it encodes an operation.
pub proof fn lemma_codes_fill_top_range(b: u8)
    ensures
        (0xED <= b <= 0xFF) <==> OpCode::decode(b) is Some,
        forall|op: OpCode| 0xED <= #[trigger] op.byte() <= 0xFF,
{
}

/// `iterator` lists every operation exactly once.
pub proof fn lemma_listing_complete(op: OpCode)
    ensures
        OpCode::listing().len() == 19,
        OpCode::listing().contains(op),
        forall|i: int, j: int|
            0 <= i < j < 19 ==> OpCode::listing()[i] != OpCode::listing()[j],
{
    let s = OpCode::listing();
    let k: int = match op {
        OpCode::Push => 0,
        OpCode::Pop => 1,
        OpCode::Add => 2,
        OpCode::Sub => 3,
        OpCode::Jmp => 4,
        OpCode::Jz => 5,
        OpCode::Call => 6,
        OpCode::Ret => 7,
        OpCode::Load => 8,
        OpCode::Store => 9,
        OpCode::Debug => 10,
        OpCode::Print => 11,
        OpCode::Input => 12,
        OpCode::Eq => 13,
        OpCode::Check => 14,
        OpCode::Nay => 15,
        OpCode::Meow => 16,
        OpCode::Nyaa => 17,
        OpCode::FN => 18,
    };
    assert(s[k] == op);
    assert forall|i: int, j: int| 0 <= i < j < 19 implies s[i] != s[j] by {
        assert(s[i].byte() != s[j].byte());
    }
}

} // verus!
