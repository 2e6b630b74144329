//! Program memory. A logical address `pc` lives in the physical cell
//! `pc ^ key`, where the key is drawn from the clock when the memory is set
//! up; cells that were never reached read as zero.
use crate::secure::{
    buffer_debug, buffer_debug_form, buffer_get, buffer_len, buffer_new, buffer_push, buffer_set,
    wiped_bytes, wiped_word, word_get, word_new, SecretBytes, SecretWord,
};
use vstd::prelude::*;
use vstd::string::StringExecFns;

verus! {

/// `std::io::Error`, the error type of `RAM::get`'s result.
#[verifier::external_type_specification]
#[verifier::external_body]
pub struct ExIoError(std::io::Error);

/// The largest key: the key is a 16-bit value.
pub const KEY_MAX: usize = 0xFFFF;

/// The abstract state of a memory: its physical cells, how many bytes were
/// appended, and its scrambling key.
pub struct RamModel {
    pub cells: Seq<u8>,
    pub count: usize,
    pub key: usize,
}

/// `s` extended with zero bytes to at least `n` bytes.
pub open spec fn padded(s: Seq<u8>, n: int) -> Seq<u8> {
    if s.len() >= n {
        s
    } else {
        s + Seq::new((n - s.len()) as nat, |_j: int| 0u8)
    }
}

impl RamModel {
    /// The physical cell of the logical address `pc`.
    pub open spec fn slot(self, pc: usize) -> int {
        (pc ^ self.key) as int
    }

    /// Whether the logical address `pc` has a physical cell.
    pub open spec fn present(self, pc: usize) -> bool {
        self.slot(pc) < self.cells.len()
    }

    /// The byte at the logical address `pc`; zero where it has no cell.
    pub open spec fn read(self, pc: usize) -> u8 {
        if self.present(pc) {
            self.cells[self.slot(pc)]
        } else {
            0
        }
    }

    /// The memory after `v` is written at `pc`, the cells being first
    /// extended with zeros up to the cell of `pc`.
    pub open spec fn write(self, pc: usize, v: u8) -> RamModel {
        RamModel {
            cells: padded(self.cells, self.slot(pc) + 1).update(self.slot(pc), v),
            ..self
        }
    }

    /// The memory after `v` is appended at the address `count`.
    pub open spec fn append(self, v: u8) -> RamModel {
        RamModel { count: (self.count + 1) as usize, ..self.write(self.count, v) }
    }

    /// The key is a 16-bit value and every appended address has a cell.
    pub open spec fn wf(self) -> bool {
        &&& self.key <= KEY_MAX
        &&& self.cells.len() <= isize::MAX
        &&& forall|c: usize| c < self.count ==> #[trigger] self.present(c)
    }
}

/// Scrambling an address twice with one key gives it back.
pub proof fn lemma_xor_involutive(a: usize, k: usize)
    ensures
        (a ^ k) ^ k == a,
{
    assert((a ^ k) ^ k == a) by (bit_vector);
}

/// Two addresses share a cell only when they are equal.
pub proof fn lemma_slot_injective(m: RamModel, p: usize, q: usize)
    ensures
        m.slot(p) == m.slot(q) <==> p == q,
{
    let k = m.key;
    assert((p ^ k) == (q ^ k) ==> p == q) by (bit_vector);
}

/// A 16-bit key moves an address up by less than `0x10000`.
pub proof fn lemma_slot_bound(m: RamModel, p: usize)
    requires
        m.key <= KEY_MAX,
    ensures
        m.slot(p) <= p + KEY_MAX,
{
    let k = m.key;
    assert(k <= 0xffff ==> (p ^ k) as int <= p as int + 0xffff) by (bit_vector);
}

/// What a read gives back of a write: the written byte at the written
/// address, and the earlier content everywhere else.
pub proof fn lemma_read_write(m: RamModel, p: usize, v: u8, q: usize)
    ensures
        m.write(p, v).read(q) == (if q == p { v } else { m.read(q) }),
        m.write(p, v).present(p),
        m.present(q) ==> m.write(p, v).present(q),
        m.write(p, v).key == m.key,
        m.write(p, v).count == m.count,
{
    lemma_slot_injective(m, p, q);
    let w = m.write(p, v);
    let s = m.slot(q);
    if q != p && s < w.cells.len() && s >= m.cells.len() {
        assert(w.cells[s] == padded(m.cells, m.slot(p) + 1)[s]);
    }
}

/// A well-formed memory holds fewer addresses than a `usize` can count: the
/// appended addresses have distinct cells, of which there are at most
/// `isize::MAX`, and the key moves an address by less than `0x10000`.
pub proof fn lemma_count_bound(m: RamModel)
    requires
        m.wf(),
    ensures
        m.count <= isize::MAX + KEY_MAX,
        m.count + 2 * KEY_MAX + 8 <= usize::MAX,
        m.slot(m.count) < usize::MAX,
{
    let k = m.key;
    if m.count > 0 {
        let x = (m.count - 1) as usize;
        assert(m.present(x));
        assert(k <= 0xffff ==> x <= (x ^ k) + 0xffff) by (bit_vector);
    }
    lemma_slot_bound(m, m.count);
}

/// Writing keeps the memory well formed, where the cells stay within the
/// size of a vector.
pub proof fn lemma_write_keeps_wf(m: RamModel, p: usize, v: u8)
    requires
        m.wf(),
        m.write(p, v).cells.len() <= isize::MAX,
    ensures
        m.write(p, v).wf(),
{
    assert forall|c: usize| c < m.count implies #[trigger] m.write(p, v).present(c) by {
        lemma_read_write(m, p, v, c);
    }
}

/// Writing an address that has a cell changes that cell only.
pub proof fn lemma_write_present(m: RamModel, p: usize, v: u8)
    requires
        m.present(p),
    ensures
        m.write(p, v).cells == m.cells.update(m.slot(p), v),
{
}

/// What a read gives back of an append: the appended byte at the address it
/// was appended at (the old length), the earlier content at every other
/// address, and one more address; the memory stays well formed where its
/// cells stay within the size of a vector (which `push` ensures).
pub proof fn lemma_append(m: RamModel, v: u8, q: usize)
    requires
        m.wf(),
    ensures
        m.append(v).count == m.count + 1,
        m.append(v).read(q) == (if q == m.count { v } else { m.read(q) }),
        m.append(v).cells.len() <= isize::MAX ==> m.append(v).wf(),
{
    lemma_read_write(m, m.count, v, q);
    lemma_count_bound(m);
    let a = m.append(v);
    assert forall|c: usize| c < a.count implies #[trigger] a.present(c) by {
        lemma_read_write(m, m.count, v, c);
    }
}

/// Memory whose physical cells hold the program bytes, scrambled by a key.
#[derive(Debug, Clone)]
pub struct RAM {
    ram: SecretBytes,
    count: usize,
    key: SecretWord,
}

impl View for RAM {
    type V = RamModel;

    closed spec fn view(&self) -> RamModel {
        RamModel { cells: wiped_bytes(self.ram), count: self.count, key: wiped_word(self.key) }
    }
}

impl RAM {
    /// An empty memory whose key is the low 16 bits of `clock_nanos`, the
    /// nanoseconds since the Unix epoch at the time of the call.
    pub fn setup(clock_nanos: u128) -> (r: RAM)
        ensures
            r@.cells == Seq::<u8>::empty(),
            r@.count == 0,
            r@.key == (clock_nanos as u16) as usize,
            r@.wf(),
    {
        let key: usize = (clock_nanos as u16) as usize;
        RAM { ram: buffer_new(), count: 0, key: word_new(key) }
    }

    /// Extends the cells with zeros until the physical cell `idx` exists.
    fn reach(&mut self, idx: usize)
        requires
            idx < usize::MAX,
        ensures
            final(self)@ == (RamModel { cells: padded(old(self)@.cells, idx + 1), ..old(self)@ }),
            final(self)@.cells.len() <= isize::MAX,
    {
        let ghost start = wiped_bytes(self.ram);
        let ghost len = start.len();
        if buffer_len(&self.ram) <= idx {
            while buffer_len(&self.ram) < idx + 1
                invariant
                    len <= idx,
                    len <= wiped_bytes(self.ram).len() <= idx + 1,
                    idx < usize::MAX,
                    self.count == old(self).count,
                    wiped_word(self.key) == wiped_word(old(self).key),
                    start == wiped_bytes(old(self).ram),
                    wiped_bytes(self.ram) =~= start + Seq::new(
                        (wiped_bytes(self.ram).len() - len) as nat,
                        |_j: int| 0u8,
                    ),
                decreases idx + 1 - wiped_bytes(self.ram).len(),
            {
                buffer_push(&mut self.ram, 0);
            }
        }
    }

    /// Appends `byte` at the address `len()`.
    pub fn push(&mut self, byte: u8)
        requires
            old(self)@.wf(),
        ensures
            final(self)@ == old(self)@.append(byte),
            final(self)@.wf(),
    {
        let key = word_get(&self.key);
        let idx = self.count ^ key;
        proof {
            lemma_count_bound(self@);
        }
        self.reach(idx);
        buffer_set(&mut self.ram, idx, byte);
        self.count = self.count + 1;
        proof {
            lemma_append(old(self)@, byte, 0);
        }
    }

    /// Appends `byte` at the address `len()`; the same as `push`.
    pub fn add_byte(&mut self, byte: u8)
        requires
            old(self)@.wf(),
        ensures
            final(self)@ == old(self)@.append(byte),
            final(self)@.wf(),
    {
        let key = word_get(&self.key);
        let idx = self.count ^ key;
        proof {
            lemma_count_bound(self@);
        }
        self.reach(idx);
        buffer_set(&mut self.ram, idx, byte);
        self.count = self.count + 1;
        proof {
            lemma_append(old(self)@, byte, 0);
        }
    }

    /// The byte at `pc`, which must have a cell.
    pub fn get_value(&mut self, pc: usize) -> (r: u8)
        requires
            old(self)@.present(pc),
        ensures
            r == old(self)@.read(pc),
            final(self)@ == old(self)@,
    {
        let idx = pc ^ word_get(&self.key);
        buffer_get(&self.ram, idx)
    }

    /// The byte at `pc`, zero where `pc` has no cell; never an error.
    pub fn get(&self, pc: usize) -> (r: std::io::Result<u8>)
        ensures
            r == Ok::<u8, std::io::Error>(self@.read(pc)),
    {
        let idx = pc ^ word_get(&self.key);
        if idx >= buffer_len(&self.ram) {
            return Ok(0);
        }
        Ok(buffer_get(&self.ram, idx))
    }

    /// How many bytes were appended.
    pub fn len(&self) -> (r: usize)
        ensures
            r == self@.count,
    {
        self.count
    }

    /// The debug form of the cell buffer, which the wrapper keeps secret,
    /// as a line: `Zeroizing { .. }` and a line feed.
    pub fn debug(&mut self) -> (r: String)
        ensures
            r@ == buffer_debug_form() + "\n"@,
            final(self)@ == old(self)@,
    {
        let mut line = buffer_debug(&self.ram);
        line.append("\n");
        line
    }

    /// Writes `value` at `pc`, first extending the cells with zeros up to the
    /// cell of `pc`.
    pub fn set(&mut self, pc: usize, value: u8)
        requires
            old(self)@.wf(),
            old(self)@.slot(pc) < usize::MAX,
        ensures
            final(self)@ == old(self)@.write(pc, value),
            final(self)@.wf(),
    {
        let key = word_get(&self.key);
        let idx = pc ^ key;
        self.reach(idx);
        buffer_set(&mut self.ram, idx, value);
        proof {
            lemma_write_keeps_wf(old(self)@, pc, value);
        }
    }

    /// Whether the address `pc` has a cell.
    pub fn has_cell(&self, pc: usize) -> (r: bool)
        ensures
            r == self@.present(pc),
    {
        (pc ^ word_get(&self.key)) < buffer_len(&self.ram)
    }

    /// The byte at `pc`, which must have a cell (indexing).
    pub fn index(&self, pc: usize) -> (r: u8)
        requires
            self@.present(pc),
        ensures
            r == self@.read(pc),
    {
        let idx = pc ^ word_get(&self.key);
        buffer_get(&self.ram, idx)
    }

    /// Overwrites the byte at `pc`, which must have a cell (indexed
    /// assignment).
    pub fn index_set(&mut self, pc: usize, value: u8)
        requires
            old(self)@.present(pc),
        ensures
            final(self)@ == old(self)@.write(pc, value),
            final(self)@.cells == old(self)@.cells.update(old(self)@.slot(pc), value),
    {
        let idx = pc ^ word_get(&self.key);
        buffer_set(&mut self.ram, idx, value);
        proof {
            assert(padded(old(self)@.cells, old(self)@.slot(pc) + 1) == old(self)@.cells);
        }
    }
}

} // verus!
