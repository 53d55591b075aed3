//! Encoding of the `flags` argument that the allocator hands to jemalloc's
//! `*allocx` family.
use vstd::prelude::*;
use tikv_jemalloc_sys as je;
use crate::decimal::{decimal, push_decimal};
use vstd::arithmetic::power2::{is_pow2, pow2, lemma2_to64, lemma2_to64_rest, lemma_pow2_unfold};

verus! {

/// Bits that `MALLOCX_ARENA(a)` sets: `a + 1` shifted into bit 20 and up,
/// keeping the low 32 bits.
pub open spec fn arena_bits(arena: u32) -> u32 {
    (((arena as int + 1) * 0x10_0000) % 0x1_0000_0000) as u32
}

/// Bits of `MALLOCX_TCACHE_NONE`.
pub open spec fn tcache_none_bits() -> u32 {
    0x100
}

/// Number of trailing zero bits of `x` within a word of `width` bits
/// (`width` itself for zero).
pub open spec fn trailing_zero_count(x: int, width: nat) -> nat
    decreases width,
{
    if width == 0 || x % 2 == 1 {
        0
    } else {
        1 + trailing_zero_count(x / 2, (width - 1) as nat)
    }
}

/// Bits of the flags that route a request to `arena` without a thread cache.
pub open spec fn mallocx_flags_bits(arena: u32) -> u32 {
    (arena_bits(arena) + tcache_none_bits()) as u32
}

/// The flags that route a request to `arena` without a thread cache.
pub open spec fn mallocx_flags_spec(arena: u32) -> i32 {
    mallocx_flags_bits(arena) as i32
}

/// The flags of an aligned request: the alignment's count of trailing zeros
/// in the low bits, over the flags of a plain request.
pub open spec fn mallocx_align_flags_spec(arena: u32, alignment: usize) -> i32 {
    (trailing_zero_count(alignment as int, usize::BITS as nat) + mallocx_flags_bits(arena)) as i32
}

/// Calls `tikv_jemalloc_sys::MALLOCX_ARENA`, which computes
/// `(a as c_int).wrapping_add(1).wrapping_shl(20)`: its bits are those of
/// `arena_bits`.
#[verifier::external_body]
fn mallocx_arena(arena: u32) -> (r: i32)
    ensures
        r as u32 == arena_bits(arena),
{
    je::MALLOCX_ARENA(arena as usize)
}

/// Reads `tikv_jemalloc_sys::MALLOCX_TCACHE_NONE`, defined as
/// `MALLOCX_TCACHE(-1)`, that is `(-1 + 2) << 8`.
#[verifier::external_body]
fn mallocx_tcache_none() -> (r: i32)
    ensures
        r == tcache_none_bits(),
{
    je::MALLOCX_TCACHE_NONE
}

/// Calls `tikv_jemalloc_sys::MALLOCX_ALIGN`, which is
/// `alignment.trailing_zeros() as c_int`.
#[verifier::external_body]
fn mallocx_align(alignment: usize) -> (r: i32)
    ensures
        r == trailing_zero_count(alignment as int, usize::BITS as nat),
{
    je::MALLOCX_ALIGN(alignment)
}

proof fn lemma_arena_bits_shape(arena: u32)
    ensures
        arena_bits(arena) % 0x10_0000 == 0,
{
    let x = arena as int + 1;
    assert((x * 0x10_0000) % 0x1_0000_0000 % 0x10_0000 == 0) by (nonlinear_arith);
}

/// Flags that send a request to `arena` and bypass the thread cache:
/// `MALLOCX_ARENA(arena) | MALLOCX_TCACHE_NONE`.
pub fn mallocx_flags(arena: u32) -> (r: i32)
    ensures
        r == mallocx_flags_spec(arena),
        r as u32 == mallocx_flags_bits(arena),
{
    let a = mallocx_arena(arena);
    let t = mallocx_tcache_none();
    proof {
        lemma_arena_bits_shape(arena);
        let au = a as u32;
        assert(au % 0x10_0000 == 0);
        assert((a | t) as u32 == au + 0x100u32) by (bit_vector)
            requires
                au == a as u32,
                au % 0x10_0000 == 0,
                t == 0x100i32,
        ;
        let x = a | t;
        assert(x == (x as u32) as i32) by (bit_vector);
    }
    a | t
}

proof fn lemma_trailing_zero_count_bound(x: int, width: nat)
    ensures
        trailing_zero_count(x, width) <= width,
    decreases width,
{
    if width > 0 && x % 2 != 1 {
        lemma_trailing_zero_count_bound(x / 2, (width - 1) as nat);
    }
}

/// Flags for an aligned request in `arena`:
/// `MALLOCX_ALIGN(alignment) | mallocx_flags(arena)`. The low bits carry the
/// base-2 logarithm of the alignment (its count of trailing zeros), the rest
/// are those of `mallocx_flags`.
pub fn mallocx_align_flags(arena: u32, alignment: usize) -> (r: i32)
    ensures
        r == mallocx_align_flags_spec(arena, alignment),
        r as u32 == trailing_zero_count(alignment as int, usize::BITS as nat)
            + mallocx_flags_bits(arena),
{
    let l = mallocx_align(alignment);
    let f = mallocx_flags(arena);
    proof {
        lemma_trailing_zero_count_bound(alignment as int, usize::BITS as nat);
        lemma_arena_bits_shape(arena);
        let fu = f as u32;
        assert(0 <= l <= 64);
        assert(fu % 0x100 == 0);
        assert((l | f) as u32 == (l as u32) + fu) by (bit_vector)
            requires
                fu == f as u32,
                fu % 0x100 == 0,
                0 <= l <= 64,
        ;
        let x = l | f;
        assert(x == (x as u32) as i32) by (bit_vector);
    }
    l | f
}

/// Whether `x` is a power of two.
pub fn is_power_of_two(x: usize) -> (r: bool)
    ensures
        r == is_pow2(x as int),
{
    proof {
        reveal(is_pow2);
    }
    if x == 0 {
        return false;
    }
    let mut y = x;
    while y % 2 == 0
        invariant
            y > 0,
            is_pow2(y as int) == is_pow2(x as int),
        decreases y,
    {
        proof {
            reveal(is_pow2);
        }
        y = y / 2;
    }
    y == 1
}

proof fn lemma_power_of_two_trailing_zeros(x: nat, width: nat)
    requires
        is_pow2(x as int),
        x < pow2(width),
    ensures
        pow2(trailing_zero_count(x as int, width)) == x,
        trailing_zero_count(x as int, width) < width,
    decreases x,
{
    reveal(is_pow2);
    lemma2_to64();
    if x != 1 {
        assert(width > 0);
        lemma_pow2_unfold(width);
        lemma_power_of_two_trailing_zeros(x / 2, (width - 1) as nat);
        let k = trailing_zero_count(x as int / 2, (width - 1) as nat);
        lemma_pow2_unfold(k + 1);
    }
}

/// An aligned request asks jemalloc for exactly the requested alignment, in
/// the same arena and with the same thread-cache setting as a plain request:
/// the low six bits of its flags hold `k` with `2^k == alignment`, and the
/// bits above them are the flags of a plain request.
pub proof fn lemma_align_flags_encode_alignment(arena: u32, alignment: usize)
    requires
        is_pow2(alignment as int),
    ensures
        pow2((mallocx_align_flags_spec(arena, alignment) as u32 % 64) as nat) == alignment,
        (mallocx_align_flags_spec(arena, alignment) as u32) / 64 * 64 == mallocx_flags_bits(arena),
{
    let w = usize::BITS as nat;
    assert(alignment < pow2(w)) by {
        lemma2_to64();
        lemma2_to64_rest();
    }
    lemma_power_of_two_trailing_zeros(alignment as nat, w);
    lemma_arena_bits_shape(arena);
    let t = trailing_zero_count(alignment as int, w);
    let b = mallocx_flags_bits(arena);
    assert(b % 0x100 == 0);
    assert(t < 64);
    let v = t + b;
    assert(v <= u32::MAX);
    let vv = v as u32;
    assert(vv as i32 as u32 == vv) by (bit_vector);
    assert(v % 64 == t);
    assert(v / 64 * 64 == b);
}


/// The bytes of `arena.`.
pub open spec fn arena_key_prefix() -> Seq<u8> {
    seq![0x61u8, 0x72, 0x65, 0x6e, 0x61, 0x2e]
}

/// The bytes of `.extent_hooks`.
pub open spec fn extent_hooks_key_suffix() -> Seq<u8> {
    seq![0x2eu8, 0x65, 0x78, 0x74, 0x65, 0x6e, 0x74, 0x5f, 0x68, 0x6f, 0x6f, 0x6b, 0x73]
}

/// The `mallctl` name under which an arena's extent hooks are set:
/// `arena.<index>.extent_hooks`, the index in decimal.
pub fn extent_hooks_key(arena_index: u32) -> (r: Vec<u8>)
    ensures
        r@ == arena_key_prefix() + decimal(arena_index as nat) + extent_hooks_key_suffix(),
{
    let mut out: Vec<u8> = vec![0x61u8, 0x72, 0x65, 0x6e, 0x61, 0x2e];
    assert(out@ =~= arena_key_prefix());
    push_decimal(arena_index as u64, &mut out);
    let suffix: [u8; 13] = [0x2e, 0x65, 0x78, 0x74, 0x65, 0x6e, 0x74, 0x5f, 0x68, 0x6f, 0x6f, 0x6b, 0x73];
    let ghost head = out@;
    let mut i: usize = 0;
    while i < 13
        invariant
            i <= 13,
            suffix@ == extent_hooks_key_suffix(),
            out@ == head + suffix@.subrange(0, i as int),
        decreases 13 - i,
    {
        out.push(suffix[i]);
        assert(suffix@.subrange(0, i + 1) =~= suffix@.subrange(0, i as int).push(suffix@[i as int]));
        i = i + 1;
    }
    assert(suffix@.subrange(0, 13) =~= suffix@);
    out
}


/// The flags of a plain request: bits 0..19 hold only the no-thread-cache
/// bit `0x100`, and bits 20..31 hold the arena index plus one (modulo
/// 4096, the 12 bits that remain of a 32-bit flags word), so every arena
/// below 4095 is named by its own flags.
pub proof fn lemma_mallocx_flags_law(arena: u32, other: u32)
    ensures
        mallocx_flags_spec(arena) as u32 == mallocx_flags_bits(arena),
        mallocx_flags_bits(arena) % 0x10_0000 == 0x100,
        mallocx_flags_bits(arena) / 0x10_0000 == (arena as int + 1) % 4096,
        arena < 4095 && other < 4095 && arena != other ==> mallocx_flags_bits(arena) != mallocx_flags_bits(other),
{
    lemma_arena_bits_shape(arena);
    lemma_arena_bits_shape(other);
    let x = arena as int + 1;
    let y = other as int + 1;
    assert((x * 0x10_0000) % 0x1_0000_0000 == (x % 4096) * 0x10_0000) by (nonlinear_arith)
        requires x >= 1;
    assert((y * 0x10_0000) % 0x1_0000_0000 == (y % 4096) * 0x10_0000) by (nonlinear_arith)
        requires y >= 1;
    let b = mallocx_flags_bits(arena);
    let bb = b;
    assert(bb as i32 as u32 == bb) by (bit_vector);
}

} // verus!
