//! Text that the machine and the debugger write, as a sequence of bytes in
//! which each byte stands for the character of that code point.
use vstd::prelude::*;
use vstd::string::StringSliceAdditionalSpecFns;
use vstd::utf8::is_char_boundary;

verus! {

/// The decimal digits of `n`, most significant first, as ASCII bytes.
pub open spec fn decimal(n: nat) -> Seq<u8>
    decreases n,
{
    if n < 10 {
        seq![(48 + n) as u8]
    } else {
        decimal(n / 10) + seq![(48 + n % 10) as u8]
    }
}

/// Appends the decimal form of `n` to `out`.
pub fn push_decimal(out: &mut Vec<u8>, n: usize)
    ensures
        final(out)@ == old(out)@ + decimal(n as nat),
    decreases n,
{
    if n >= 10 {
        push_decimal(out, n / 10);
    }
    out.push(48u8 + (n % 10) as u8);
    assert(final(out)@ =~= old(out)@ + decimal(n as nat));
}

/// Appends every byte of `bytes` to `out`.
pub fn push_all(out: &mut Vec<u8>, bytes: &[u8])
    ensures
        final(out)@ == old(out)@ + bytes@,
{
    let ghost start = out@;
    let mut i: usize = 0;
    while i < bytes.len()
        invariant
            0 <= i <= bytes.len(),
            out@ == start + bytes@.subrange(0, i as int),
        decreases bytes.len() - i,
    {
        out.push(bytes[i]);
        i = i + 1;
        assert(out@ =~= start + bytes@.subrange(0, i as int));
    }
    assert(bytes@.subrange(0, bytes@.len() as int) =~= bytes@);
}

/// The last character boundary of `bytes` at or below `k`.
pub open spec fn boundary_at_or_below(bytes: Seq<u8>, k: int) -> int
    decreases k,
{
    if k <= 0 {
        0
    } else if is_char_boundary(bytes, k) {
        k
    } else {
        boundary_at_or_below(bytes, k - 1)
    }
}

/// The UTF-8 bytes of `line` without its last character (`String::pop`),
/// the line being kept whole when it is empty.
pub open spec fn without_last_char(line: Seq<u8>) -> Seq<u8> {
    if line.len() == 0 {
        line
    } else {
        line.subrange(0, boundary_at_or_below(line, line.len() - 1))
    }
}

/// The bytes of `line` without its last character: a line read from a
/// terminal loses its line feed.
pub fn line_bytes(line: &str) -> (r: Vec<u8>)
    ensures
        r@ == without_last_char(line.spec_bytes()),
{
    let bytes = line.as_bytes();
    let n = bytes.len();
    if n == 0 {
        let r: Vec<u8> = Vec::new();
        assert(r@ =~= without_last_char(line.spec_bytes()));
        return r;
    }
    let mut k: usize = n - 1;
    while k > 0 && !line.is_char_boundary(k)
        invariant
            k < n,
            n == line.spec_bytes().len(),
            bytes@ == line.spec_bytes(),
            boundary_at_or_below(line.spec_bytes(), k as int) == boundary_at_or_below(
                line.spec_bytes(),
                n - 1,
            ),
        decreases k,
    {
        k = k - 1;
    }
    let mut r: Vec<u8> = Vec::new();
    let mut i: usize = 0;
    while i < k
        invariant
            0 <= i <= k,
            k < n,
            bytes@.len() == n,
            r@ == bytes@.subrange(0, i as int),
        decreases k - i,
    {
        r.push(bytes[i]);
        i = i + 1;
        assert(r@ =~= bytes@.subrange(0, i as int));
    }
    r
}

} // verus!
