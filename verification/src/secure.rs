//! Memory that is wiped when it is dropped.
//!
//! The machine keeps its program bytes and its keys in `zeroize::Zeroizing`
//! wrappers, so that no secret outlives the machine in freed memory. The
//! wrapper is opaque to the verifier: what it holds is named below, and every
//! access goes through one of the small trusted functions of this module.
use vstd::prelude::*;

use zeroize::Zeroizing;

verus! {

/// A byte buffer in a `zeroize::Zeroizing` wrapper, which zeroes the buffer
/// when it is dropped. The wrapper is a private field, opaque to the
/// verifier; `wiped_bytes` names the bytes it holds.
#[verifier::external_body]
#[derive(Debug)]
pub struct SecretBytes {
    inner: Zeroizing<Vec<u8>>,
}

/// A word in a `zeroize::Zeroizing` wrapper, held in a private field,
/// opaque to the verifier; `wiped_word` names the word it holds.
#[verifier::external_body]
#[derive(Debug)]
pub struct SecretWord {
    inner: Zeroizing<usize>,
}

/// A byte in a `zeroize::Zeroizing` wrapper, held in a private field,
/// opaque to the verifier; `wiped_byte` names the byte it holds.
#[verifier::external_body]
#[derive(Debug)]
pub struct SecretByte {
    inner: Zeroizing<u8>,
}

/// The bytes held by a zeroizing byte buffer.
pub uninterp spec fn wiped_bytes(z: SecretBytes) -> Seq<u8>;

/// The word held by a zeroizing `usize`.
pub uninterp spec fn wiped_word(z: SecretWord) -> usize;

/// The byte held by a zeroizing `u8`.
pub uninterp spec fn wiped_byte(z: SecretByte) -> u8;

/// `Zeroizing::new(Vec::new())`: `new` moves its argument into the wrapper
/// unchanged, so the buffer holds no byte.
#[verifier::external_body]
pub(crate) fn buffer_new() -> (r: SecretBytes)
    ensures
        wiped_bytes(r) == Seq::<u8>::empty(),
{
    SecretBytes { inner: Zeroizing::new(Vec::new()) }
}

/// `Vec::len` on the vector that `<Zeroizing as Deref>::deref` returns,
/// which is the wrapped value itself. A `Vec` never allocates more than
/// `isize::MAX` bytes, so a byte vector holds at most `isize::MAX` bytes.
#[verifier::external_body]
pub(crate) fn buffer_len(z: &SecretBytes) -> (r: usize)
    ensures
        r == wiped_bytes(*z).len(),
        r <= isize::MAX,
{
    z.inner.len()
}

/// Indexing (`Vec`'s `Index`) the vector behind `Deref`; in bounds.
#[verifier::external_body]
pub(crate) fn buffer_get(z: &SecretBytes, i: usize) -> (r: u8)
    requires
        i < wiped_bytes(*z).len(),
    ensures
        r == wiped_bytes(*z)[i as int],
{
    z.inner[i]
}

/// `Vec::push` on the vector behind `DerefMut` (which hands out the wrapped
/// value itself). As for `Vec::push` in vstd, the failure of the allocator,
/// which aborts the process, is not stated.
#[verifier::external_body]
pub(crate) fn buffer_push(z: &mut SecretBytes, b: u8)
    ensures
        wiped_bytes(*final(z)) == wiped_bytes(*old(z)).push(b),
{
    z.inner.push(b);
}

/// Assigning one element of the vector behind `DerefMut`.
#[verifier::external_body]
pub(crate) fn buffer_set(z: &mut SecretBytes, i: usize, b: u8)
    requires
        i < wiped_bytes(*old(z)).len(),
    ensures
        wiped_bytes(*final(z)) == wiped_bytes(*old(z)).update(i as int, b),
{
    z.inner[i] = b;
}

/// `Zeroizing::new` on a word: the wrapper holds the word unchanged.
#[verifier::external_body]
pub(crate) fn word_new(w: usize) -> (r: SecretWord)
    ensures
        wiped_word(r) == w,
{
    SecretWord { inner: Zeroizing::new(w) }
}

/// Reading the word through `Deref`.
#[verifier::external_body]
pub(crate) fn word_get(z: &SecretWord) -> (r: usize)
    ensures
        r == wiped_word(*z),
{
    *z.inner
}

/// `Zeroizing::new` on a byte: the wrapper holds the byte unchanged.
#[verifier::external_body]
pub(crate) fn byte_new(b: u8) -> (r: SecretByte)
    ensures
        wiped_byte(r) == b,
{
    SecretByte { inner: Zeroizing::new(b) }
}

/// Reading the byte through `Deref`.
#[verifier::external_body]
pub(crate) fn byte_get(z: &SecretByte) -> (r: u8)
    ensures
        r == wiped_byte(*z),
{
    *z.inner
}

/// `<Zeroizing as Clone>::clone`, which wraps a clone of the wrapped vector:
/// the copy holds the same bytes.
#[verifier::external_body]
fn buffer_clone(z: &SecretBytes) -> (r: SecretBytes)
    ensures
        wiped_bytes(r) == wiped_bytes(*z),
{
    SecretBytes { inner: z.inner.clone() }
}

/// `<Zeroizing as Clone>::clone` on a word: the copy holds the same word.
#[verifier::external_body]
fn word_clone(z: &SecretWord) -> (r: SecretWord)
    ensures
        wiped_word(r) == wiped_word(*z),
{
    SecretWord { inner: z.inner.clone() }
}

/// `<Zeroizing as Clone>::clone` on a byte: the copy holds the same byte.
#[verifier::external_body]
fn byte_clone(z: &SecretByte) -> (r: SecretByte)
    ensures
        wiped_byte(r) == wiped_byte(*z),
{
    SecretByte { inner: z.inner.clone() }
}

impl Clone for SecretBytes {
    fn clone(&self) -> (r: Self)
        ensures
            wiped_bytes(r) == wiped_bytes(*self),
    {
        buffer_clone(self)
    }
}

impl Clone for SecretWord {
    fn clone(&self) -> (r: Self)
        ensures
            wiped_word(r) == wiped_word(*self),
    {
        word_clone(self)
    }
}

impl Clone for SecretByte {
    fn clone(&self) -> (r: Self)
        ensures
            wiped_byte(r) == wiped_byte(*self),
    {
        byte_clone(self)
    }
}

/// What `{:?}` shows of a zeroizing wrapper: its `Debug` impl writes
/// `f.debug_struct("Zeroizing").finish_non_exhaustive()`, never the content.
pub open spec fn buffer_debug_form() -> Seq<char> {
    "Zeroizing { .. }"@
}

/// `format!("{:?}", ..)` of the zeroizing buffer, which by the impl above is
/// the fixed text `Zeroizing { .. }`.
#[verifier::external_body]
pub(crate) fn buffer_debug(z: &SecretBytes) -> (r: String)
    ensures
        r@ == buffer_debug_form(),
{
    format!("{:?}", z.inner)
}

} // verus!
