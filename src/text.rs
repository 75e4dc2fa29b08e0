//! Building diagnostic text: appending to a `String` and writing bytes as hex.
use vstd::prelude::*;

verus! {

/// Relies on `String::push`: `c` is appended to `dst`.
#[verifier::external_body]
pub(crate) fn append_char(dst: &mut String, c: char)
    ensures
        final(dst)@ == old(dst)@.push(c),
{
    dst.push(c)
}

/// The upper-case hex digit of a value below 16.
pub open spec fn hex_digit(n: u8) -> char {
    if n == 0 { '0' }
    else if n == 1 { '1' }
    else if n == 2 { '2' }
    else if n == 3 { '3' }
    else if n == 4 { '4' }
    else if n == 5 { '5' }
    else if n == 6 { '6' }
    else if n == 7 { '7' }
    else if n == 8 { '8' }
    else if n == 9 { '9' }
    else if n == 10 { 'A' }
    else if n == 11 { 'B' }
    else if n == 12 { 'C' }
    else if n == 13 { 'D' }
    else if n == 14 { 'E' }
    else { 'F' }
}

/// A byte as two upper-case hex digits.
pub open spec fn hex_pair(b: u8) -> Seq<char> {
    seq![hex_digit(b >> 4u8), hex_digit(b & 0x0F)]
}

/// Bytes as hex pairs separated by single spaces.
pub open spec fn hex_join(bytes: Seq<u8>) -> Seq<char>
    decreases bytes.len(),
{
    if bytes.len() == 0 {
        Seq::empty()
    } else if bytes.len() == 1 {
        hex_pair(bytes[0])
    } else {
        hex_join(bytes.drop_last()) + seq![' '] + hex_pair(bytes.last())
    }
}

/// A number in decimal digits, without leading zeros.
pub open spec fn decimal(n: nat) -> Seq<char>
    decreases n,
{
    if n < 10 {
        seq![hex_digit(n as u8)]
    } else {
        decimal(n / 10).push(hex_digit((n % 10) as u8))
    }
}

/// Appends `n` in decimal digits.
pub fn append_decimal(dst: &mut String, n: u16)
    ensures
        final(dst)@ == old(dst)@ + decimal(n as nat),
    decreases n,
{
    if n >= 10 {
        append_decimal(dst, n / 10);
    }
    append_char(dst, hex_digit_of((n % 10) as u8));
    assert(final(dst)@ =~= old(dst)@ + decimal(n as nat));
}

fn hex_digit_of(n: u8) -> (r: char)
    ensures
        r == hex_digit(n),
{
    if n == 0 { '0' }
    else if n == 1 { '1' }
    else if n == 2 { '2' }
    else if n == 3 { '3' }
    else if n == 4 { '4' }
    else if n == 5 { '5' }
    else if n == 6 { '6' }
    else if n == 7 { '7' }
    else if n == 8 { '8' }
    else if n == 9 { '9' }
    else if n == 10 { 'A' }
    else if n == 11 { 'B' }
    else if n == 12 { 'C' }
    else if n == 13 { 'D' }
    else if n == 14 { 'E' }
    else { 'F' }
}

/// Appends `b` as two upper-case hex digits.
pub fn append_hex_pair(dst: &mut String, b: u8)
    ensures
        final(dst)@ == old(dst)@ + hex_pair(b),
{
    append_char(dst, hex_digit_of(b >> 4u8));
    append_char(dst, hex_digit_of(b & 0x0F));
    assert(final(dst)@ =~= old(dst)@ + hex_pair(b));
}

/// Appends `bytes[from..to]` as hex pairs separated by single spaces.
pub fn append_hex_bytes(dst: &mut String, bytes: &[u8], from: usize, to: usize)
    requires
        from <= to <= bytes@.len(),
    ensures
        final(dst)@ == old(dst)@ + hex_join(bytes@.subrange(from as int, to as int)),
{
    let mut k: usize = from;
    while k < to
        invariant
            from <= k <= to <= bytes@.len(),
            dst@ == old(dst)@ + hex_join(bytes@.subrange(from as int, k as int)),
        decreases to - k,
    {
        let ghost before = dst@;
        if k > from {
            append_char(dst, ' ');
        }
        append_hex_pair(dst, bytes[k]);
        proof {
            let s = bytes@.subrange(from as int, k as int + 1);
            assert(s.drop_last() =~= bytes@.subrange(from as int, k as int));
            assert(s.last() == bytes@[k as int]);
            if k == from {
                assert(s.len() == 1);
            }
            assert(dst@ =~= old(dst)@ + hex_join(s));
        }
        k = k + 1;
    }
}

} // verus!
