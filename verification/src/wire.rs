//! Big-endian (network order) layout of fixed-width integers.
//!
//! The layout is stated over mathematical integers: a value is first mapped
//! to its two's-complement residue and then written as base-256 digits, most
//! significant digit first.

use vstd::prelude::*;

verus! {

/// `256^len`: the number of values that `len` bytes can tell apart.
pub open spec fn radix(len: nat) -> int
    decreases len,
{
    if len == 0 {
        1
    } else {
        256 * radix((len - 1) as nat)
    }
}

/// The `len` base-256 digits of `v`, most significant first.
pub open spec fn be_digits(v: int, len: nat) -> Seq<u8>
    decreases len,
{
    if len == 0 {
        Seq::empty()
    } else {
        be_digits(v / 256, (len - 1) as nat).push((v % 256) as u8)
    }
}

/// The number whose base-256 digits, most significant first, are `bytes`.
pub open spec fn be_number(bytes: Seq<u8>) -> int
    decreases bytes.len(),
{
    if bytes.len() == 0 {
        0
    } else {
        be_number(bytes.drop_last()) * 256 + bytes.last() as int
    }
}

/// The two's-complement residue of `v` in `len` bytes.
pub open spec fn residue(v: int, len: nat) -> int {
    if v < 0 {
        v + radix(len)
    } else {
        v
    }
}

/// The signed value that the residue `u` stands for in `len` bytes.
pub open spec fn signed(u: int, len: nat) -> int {
    if 2 * u >= radix(len) {
        u - radix(len)
    } else {
        u
    }
}

/// The `len` bytes of the signed integer `v` in network order.
pub open spec fn be_bytes(v: int, len: nat) -> Seq<u8> {
    be_digits(residue(v, len), len)
}

/// The signed integer that `bytes` hold in network order.
pub open spec fn be_value(bytes: Seq<u8>) -> int {
    signed(be_number(bytes), bytes.len())
}

/// Whether `v` is a signed integer of `len` bytes.
pub open spec fn fits(v: int, len: nat) -> bool {
    -radix(len) <= 2 * v < radix(len)
}

/// How many values the widths of the wire types can tell apart.
pub proof fn lemma_radix_values()
    ensures
        radix(0) == 1,
        radix(1) == 0x100,
        radix(2) == 0x1_0000,
        radix(4) == 0x1_0000_0000,
        radix(8) == 0x1_0000_0000_0000_0000,
{
    reveal_with_fuel(radix, 9);
}

/// Bytes of any number can tell some values apart.
pub proof fn lemma_radix_positive(len: nat)
    ensures
        radix(len) > 0,
    decreases len,
{
    if len > 0 {
        lemma_radix_positive((len - 1) as nat);
    }
}

/// A number written in `len` digits takes `len` bytes.
pub proof fn lemma_be_digits_len(v: int, len: nat)
    ensures
        be_digits(v, len).len() == len,
    decreases len,
{
    if len > 0 {
        lemma_be_digits_len(v / 256, (len - 1) as nat);
    }
}

/// Reading back the digits of a number in range gives the number.
pub proof fn lemma_number_of_digits(v: int, len: nat)
    requires
        0 <= v < radix(len),
    ensures
        be_number(be_digits(v, len)) == v,
    decreases len,
{
    if len > 0 {
        let rest = be_digits(v / 256, (len - 1) as nat);
        let all = be_digits(v, len);
        lemma_be_digits_len(v / 256, (len - 1) as nat);
        lemma_number_of_digits(v / 256, (len - 1) as nat);
        assert(all.drop_last() =~= rest);
        assert(all.last() == (v % 256) as u8);
    } else {
        assert(be_digits(v, len).len() == 0);
    }
}

/// Every byte string is the digits of the number it holds, and that number
/// is in range for its length.
pub proof fn lemma_digits_of_number(bytes: Seq<u8>)
    ensures
        0 <= be_number(bytes) < radix(bytes.len()),
        be_digits(be_number(bytes), bytes.len()) == bytes,
    decreases bytes.len(),
{
    if bytes.len() > 0 {
        let rest = bytes.drop_last();
        lemma_digits_of_number(rest);
        let n = be_number(bytes);
        assert(n / 256 == be_number(rest));
        assert(n % 256 == bytes.last() as int);
        assert(be_digits(n, bytes.len()) =~= bytes);
    } else {
        assert(be_digits(be_number(bytes), bytes.len()) =~= bytes);
    }
}

/// Decoding the bytes of a signed integer that fits gives the integer back.
pub proof fn lemma_value_of_bytes(v: int, len: nat)
    requires
        fits(v, len),
    ensures
        be_bytes(v, len).len() == len,
        be_value(be_bytes(v, len)) == v,
{
    lemma_radix_positive(len);
    lemma_be_digits_len(residue(v, len), len);
    lemma_number_of_digits(residue(v, len), len);
}

/// Encoding the value of a byte string gives the byte string back, and the
/// value fits its length.
pub proof fn lemma_bytes_of_value(bytes: Seq<u8>)
    ensures
        fits(be_value(bytes), bytes.len()),
        be_bytes(be_value(bytes), bytes.len()) == bytes,
{
    lemma_radix_positive(bytes.len());
    lemma_digits_of_number(bytes);
}

/// The wire bytes of two integers of one width are equal only if the
/// integers are.
pub proof fn lemma_be_bytes_injective(a: int, b: int, len: nat)
    requires
        fits(a, len),
        fits(b, len),
        be_bytes(a, len) == be_bytes(b, len),
    ensures
        a == b,
{
    lemma_value_of_bytes(a, len);
    lemma_value_of_bytes(b, len);
}

} // verus!
