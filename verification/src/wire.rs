//! Byte-level building blocks of the wire format: big-endian integers and
//! alignment to eight bytes.

use vstd::prelude::*;
use vstd::arithmetic::div_mod::lemma_fundamental_div_mod_converse;

verus! {

/// The number of padding bytes that follow a value of `len` bytes: the
/// distance from `len` to the next multiple of eight.
pub open spec fn pad_len(len: nat) -> nat {
    ((8 - len % 8) % 8) as nat
}

/// The byte `b`, `n` times.
pub open spec fn repeated(b: u8, n: nat) -> Seq<u8> {
    Seq::new(n, |i: int| b)
}

/// `n` zero bytes.
pub open spec fn zeros(n: nat) -> Seq<u8> {
    repeated(0u8, n)
}

/// Padding brings a length to a multiple of eight with fewer than eight
/// bytes, and with none where the length is such a multiple.
pub proof fn lemma_pad_len(len: nat)
    ensures
        pad_len(len) < 8,
        (len + pad_len(len)) % 8 == 0,
        len % 8 == 0 <==> pad_len(len) == 0,
{
}

/// No fewer bytes than the padding bring a length to a multiple of eight.
pub proof fn lemma_pad_len_least(len: nat, k: nat)
    requires
        (len + k) % 8 == 0,
    ensures
        pad_len(len) <= k,
{
}

/// The 32-bit number that four bytes denote, most significant byte first.
pub open spec fn u32_from_be(b: Seq<u8>) -> u32
    recommends
        b.len() == 4,
{
    (b[0] as int * 0x100_0000 + b[1] as int * 0x1_0000 + b[2] as int * 0x100 + b[3] as int) as u32
}

/// The four bytes of a 32-bit number, most significant byte first.
pub open spec fn u32_to_be(v: u32) -> Seq<u8> {
    seq![
        (v / 0x100_0000) as u8,
        (v / 0x1_0000 % 0x100) as u8,
        (v / 0x100 % 0x100) as u8,
        (v % 0x100) as u8,
    ]
}

/// The 64-bit number that eight bytes denote, most significant byte first.
pub open spec fn u64_from_be(b: Seq<u8>) -> u64
    recommends
        b.len() == 8,
{
    (u32_from_be(b.subrange(0, 4)) as int * 0x1_0000_0000 + u32_from_be(b.subrange(4, 8)) as int) as u64
}

/// The eight bytes of a 64-bit number, most significant byte first.
pub open spec fn u64_to_be(v: u64) -> Seq<u8> {
    u32_to_be((v / 0x1_0000_0000) as u32) + u32_to_be((v % 0x1_0000_0000) as u32)
}

/// The unsigned number with the same 32 bits as `v` in two's complement.
pub open spec fn i32_bits(v: i32) -> u32 {
    if v >= 0 {
        v as u32
    } else {
        (v + 0x1_0000_0000) as u32
    }
}

/// The signed number that the 32 bits of `u` denote in two's complement.
pub open spec fn i32_of_bits(u: u32) -> i32 {
    if u < 0x8000_0000 {
        u as i32
    } else {
        (u - 0x1_0000_0000) as i32
    }
}

/// The unsigned number with the same 64 bits as `v` in two's complement.
pub open spec fn i64_bits(v: i64) -> u64 {
    if v >= 0 {
        v as u64
    } else {
        (v + 0x1_0000_0000_0000_0000) as u64
    }
}

/// The signed number that the 64 bits of `u` denote in two's complement.
pub open spec fn i64_of_bits(u: u64) -> i64 {
    if u < 0x8000_0000_0000_0000 {
        u as i64
    } else {
        (u - 0x1_0000_0000_0000_0000) as i64
    }
}

/// 256 to the power of `n`.
pub open spec fn pow256(n: nat) -> nat
    decreases n,
{
    if n == 0 {
        1
    } else {
        256 * pow256((n - 1) as nat)
    }
}

/// The number that bytes denote when read as an unsigned number, most
/// significant byte first.
pub open spec fn be_value(b: Seq<u8>) -> nat
    decreases b.len(),
{
    if b.len() == 0 {
        0
    } else {
        be_value(b.drop_last()) * 256 + b.last() as nat
    }
}

/// The number that bytes denote when read in two's complement, most
/// significant byte first. No bytes denote zero.
pub open spec fn signed_be_value(b: Seq<u8>) -> int {
    if b.len() > 0 && b[0] >= 0x80 {
        be_value(b) - pow256(b.len())
    } else {
        be_value(b) as int
    }
}

/// The bytes that are put before the bytes `v` of a big integer to make their
/// number a multiple of eight: each repeats the sign of `v`, which is its
/// topmost bit.
pub open spec fn sign_extension(v: Seq<u8>) -> Seq<u8> {
    repeated(
        if v.len() > 0 && v[0] >= 0x80 {
            0xFFu8
        } else {
            0x00u8
        },
        pad_len(v.len()),
    )
}

proof fn lemma_pow256_add(a: nat, b: nat)
    ensures
        pow256(a + b) == pow256(a) * pow256(b),
    decreases a,
{
    if a > 0 {
        lemma_pow256_add((a - 1) as nat, b);
        assert(pow256(a + b) == 256 * pow256((a - 1 + b) as nat));
        assert(256 * (pow256((a - 1) as nat) * pow256(b)) == (256 * pow256((a - 1) as nat))
            * pow256(b)) by (nonlinear_arith);
    } else {
        assert(pow256(0) * pow256(b) == pow256(b)) by (nonlinear_arith)
            requires
                pow256(0) == 1,
        ;
    }
}

proof fn lemma_be_value_concat(a: Seq<u8>, b: Seq<u8>)
    ensures
        be_value(a + b) == be_value(a) * pow256(b.len()) + be_value(b),
    decreases b.len(),
{
    if b.len() == 0 {
        assert(a + b =~= a);
        assert(be_value(a) * 1 == be_value(a)) by (nonlinear_arith);
    } else {
        let n = (b.len() - 1) as nat;
        assert((a + b).drop_last() =~= a + b.drop_last());
        lemma_be_value_concat(a, b.drop_last());
        let x = be_value(a);
        let p = pow256(n);
        let y = be_value(b.drop_last());
        assert((x * p + y) * 256 == x * (256 * p) + y * 256) by (nonlinear_arith);
    }
}

proof fn lemma_be_value_repeated(b: u8, n: nat)
    ensures
        b == 0x00 ==> be_value(repeated(b, n)) == 0,
        b == 0xFF ==> be_value(repeated(b, n)) == pow256(n) - 1,
    decreases n,
{
    if n > 0 {
        assert(repeated(b, n).drop_last() =~= repeated(b, (n - 1) as nat));
        lemma_be_value_repeated(b, (n - 1) as nat);
    }
}

/// A big integer with its sign extended is as many bytes as a multiple of
/// eight, and denotes the number that it denoted before.
pub proof fn lemma_sign_extension_keeps_value(v: Seq<u8>)
    ensures
        (sign_extension(v) + v).len() % 8 == 0,
        signed_be_value(sign_extension(v) + v) == signed_be_value(v),
        v.len() % 8 == 0 ==> sign_extension(v) + v == v,
{
    let ext = sign_extension(v);
    let k = pad_len(v.len());
    let n = v.len();
    lemma_pad_len(n);
    lemma_be_value_concat(ext, v);
    lemma_pow256_add(k, n);
    if k == 0 {
        assert(ext + v =~= v);
    } else if v[0] >= 0x80 {
        lemma_be_value_repeated(0xFF, k);
        assert((ext + v)[0] == 0xFF);
        let pk = pow256(k);
        let pn = pow256(n);
        assert((pk - 1) * pn == pk * pn - pn) by (nonlinear_arith);
    } else {
        lemma_be_value_repeated(0x00, k);
        assert((ext + v)[0] == 0x00);
        assert(0 * pow256(n) == 0) by (nonlinear_arith);
    }
}

/// Four big-endian bytes read back give the number they were made from.
pub proof fn lemma_u32_round_trip(v: u32)
    ensures
        u32_to_be(v).len() == 4,
        u32_from_be(u32_to_be(v)) == v,
{
}

/// A number made from four bytes has exactly those bytes.
pub proof fn lemma_u32_bytes_round_trip(b: Seq<u8>)
    requires
        b.len() == 4,
    ensures
        u32_to_be(u32_from_be(b)) == b,
{
    let b0 = b[0] as int;
    let b1 = b[1] as int;
    let b2 = b[2] as int;
    let b3 = b[3] as int;
    let v = u32_from_be(b) as int;
    assert(v == b0 * 0x100_0000 + b1 * 0x1_0000 + b2 * 0x100 + b3);
    lemma_fundamental_div_mod_converse(v, 0x100_0000, b0, b1 * 0x1_0000 + b2 * 0x100 + b3);
    lemma_fundamental_div_mod_converse(v, 0x1_0000, b0 * 0x100 + b1, b2 * 0x100 + b3);
    lemma_fundamental_div_mod_converse(b0 * 0x100 + b1, 0x100, b0, b1);
    lemma_fundamental_div_mod_converse(v, 0x100, b0 * 0x1_0000 + b1 * 0x100 + b2, b3);
    lemma_fundamental_div_mod_converse(b0 * 0x1_0000 + b1 * 0x100 + b2, 0x100, b0 * 0x100 + b1, b2);
    assert(u32_to_be(u32_from_be(b)) =~= b);
}

/// Eight big-endian bytes read back give the number they were made from.
pub proof fn lemma_u64_round_trip(v: u64)
    ensures
        u64_to_be(v).len() == 8,
        u64_from_be(u64_to_be(v)) == v,
{
    let hi = (v / 0x1_0000_0000) as u32;
    let lo = (v % 0x1_0000_0000) as u32;
    lemma_u32_round_trip(hi);
    lemma_u32_round_trip(lo);
    assert(u64_to_be(v).subrange(0, 4) =~= u32_to_be(hi));
    assert(u64_to_be(v).subrange(4, 8) =~= u32_to_be(lo));
}

/// A number made from eight bytes has exactly those bytes.
pub proof fn lemma_u64_bytes_round_trip(b: Seq<u8>)
    requires
        b.len() == 8,
    ensures
        u64_to_be(u64_from_be(b)) == b,
{
    let hi = u32_from_be(b.subrange(0, 4));
    let lo = u32_from_be(b.subrange(4, 8));
    lemma_u32_bytes_round_trip(b.subrange(0, 4));
    lemma_u32_bytes_round_trip(b.subrange(4, 8));
    let v = u64_from_be(b);
    assert((v / 0x1_0000_0000) as u32 == hi);
    assert((v % 0x1_0000_0000) as u32 == lo);
    assert(u64_to_be(v) =~= b);
}

/// Two's complement bits read back as a signed number give that number.
pub proof fn lemma_i32_bits_round_trip(v: i32)
    ensures
        i32_of_bits(i32_bits(v)) == v,
{
}

/// Two's complement bits read back as a signed number give that number.
pub proof fn lemma_i64_bits_round_trip(v: i64)
    ensures
        i64_of_bits(i64_bits(v)) == v,
{
}

/// A signed number made from two's complement bits has exactly those bits.
pub proof fn lemma_i32_of_bits_round_trip(u: u32)
    ensures
        i32_bits(i32_of_bits(u)) == u,
{
}

/// A signed number made from two's complement bits has exactly those bits.
pub proof fn lemma_i64_of_bits_round_trip(u: u64)
    ensures
        i64_bits(i64_of_bits(u)) == u,
{
}

/// Appends the four big-endian bytes of `v`.
pub fn put_u32(dst: &mut Vec<u8>, v: u32)
    ensures
        final(dst)@ == old(dst)@ + u32_to_be(v),
{
    dst.push((v / 0x100_0000) as u8);
    dst.push((v / 0x1_0000 % 0x100) as u8);
    dst.push((v / 0x100 % 0x100) as u8);
    dst.push((v % 0x100) as u8);
    assert(dst@ =~= old(dst)@ + u32_to_be(v));
}

/// Appends the eight big-endian bytes of `v`.
pub fn put_u64(dst: &mut Vec<u8>, v: u64)
    ensures
        final(dst)@ == old(dst)@ + u64_to_be(v),
{
    put_u32(dst, (v / 0x1_0000_0000) as u32);
    put_u32(dst, (v % 0x1_0000_0000) as u32);
    assert(dst@ =~= old(dst)@ + u64_to_be(v));
}

/// Reads four bytes as a big-endian number.
pub fn get_u32(b: &[u8]) -> (v: u32)
    requires
        b@.len() == 4,
    ensures
        v == u32_from_be(b@),
{
    let b0: u32 = b[0] as u32;
    let b1: u32 = b[1] as u32;
    let b2: u32 = b[2] as u32;
    let b3: u32 = b[3] as u32;
    b0 * 0x100_0000 + b1 * 0x1_0000 + b2 * 0x100 + b3
}

/// Reads eight bytes as a big-endian number.
pub fn get_u64(b: &[u8]) -> (v: u64)
    requires
        b@.len() == 8,
    ensures
        v == u64_from_be(b@),
{
    let hi: u64 = get_u32(vstd::slice::slice_subrange(b, 0, 4)) as u64;
    let lo: u64 = get_u32(vstd::slice::slice_subrange(b, 4, 8)) as u64;
    hi * 0x1_0000_0000 + lo
}

/// The bits of a signed 32-bit number, as an unsigned one.
pub fn bits_of_i32(v: i32) -> (u: u32)
    ensures
        u == i32_bits(v),
{
    if v >= 0 {
        v as u32
    } else {
        let wide: i64 = v as i64;
        (wide + 0x1_0000_0000) as u32
    }
}

/// The signed 32-bit number with the given bits.
pub fn i32_from_bits(u: u32) -> (v: i32)
    ensures
        v == i32_of_bits(u),
{
    if u < 0x8000_0000 {
        u as i32
    } else {
        let wide: i64 = u as i64;
        (wide - 0x1_0000_0000) as i32
    }
}

/// The bits of a signed 64-bit number, as an unsigned one.
pub fn bits_of_i64(v: i64) -> (u: u64)
    ensures
        u == i64_bits(v),
{
    if v >= 0 {
        v as u64
    } else {
        let wide: i128 = v as i128;
        (wide + 0x1_0000_0000_0000_0000) as u64
    }
}

/// The signed 64-bit number with the given bits.
pub fn i64_from_bits(u: u64) -> (v: i64)
    ensures
        v == i64_of_bits(u),
{
    if u < 0x8000_0000_0000_0000 {
        u as i64
    } else {
        let wide: i128 = u as i128;
        (wide - 0x1_0000_0000_0000_0000) as i64
    }
}

/// Appends the byte `b`, `n` times.
pub fn put_repeated(dst: &mut Vec<u8>, b: u8, n: u32)
    ensures
        final(dst)@ == old(dst)@ + repeated(b, n as nat),
{
    let mut i: u32 = 0;
    assert(dst@ =~= old(dst)@ + repeated(b, 0));
    while i < n
        invariant
            i <= n,
            dst@ == old(dst)@ + repeated(b, i as nat),
        decreases n - i,
    {
        dst.push(b);
        i = i + 1;
        assert(dst@ =~= old(dst)@ + repeated(b, i as nat));
    }
}

/// Appends `n` zero bytes.
pub fn put_zeros(dst: &mut Vec<u8>, n: u32)
    ensures
        final(dst)@ == old(dst)@ + zeros(n as nat),
{
    put_repeated(dst, 0u8, n);
}

/// Appends a copy of `bytes`.
pub fn put_bytes(dst: &mut Vec<u8>, bytes: &[u8])
    ensures
        final(dst)@ == old(dst)@ + bytes@,
{
    dst.extend_from_slice(bytes);
    assert(dst@ =~= old(dst)@ + bytes@);
}

} // verus!
