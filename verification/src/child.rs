use vstd::prelude::*;

verus! {

/// The table the child VMs fill, one entry per page: entries 0 and 1 are
/// 1, every later entry is the sum of the two before it.
pub open spec fn fib(n: nat) -> nat
    decreases n,
{
    if n < 2 {
        1
    } else {
        fib((n - 2) as nat) + fib((n - 1) as nat)
    }
}

/// The entry a child computes for index `n` from the entries `a` and `b`
/// it read for `n - 2` and `n - 1`.
pub open spec fn child_entry(n: int, a: int, b: int) -> int {
    if n < 2 {
        1
    } else {
        a + b
    }
}

/// The entry a child writes for index `n`, given the entries it read for
/// `n - 2` and `n - 1`: 1 for `n < 2`, else their sum.
pub fn child_value(n: u64, fib_n_2: u32, fib_n_1: u32) -> (result: u32)
    requires
        n >= 2 ==> fib_n_2 + fib_n_1 <= u32::MAX,
    ensures
        result == child_entry(n as int, fib_n_2 as int, fib_n_1 as int),
{
    if n < 2 {
        1
    } else {
        fib_n_2 + fib_n_1
    }
}

/// Address from which a child reads the entry of page `k`: the base of
/// the argument area plus `k` pages.
pub fn page_read_address(base: u32, page_size: u64, k: u64) -> (addr: u64)
    requires
        base + k * page_size <= u64::MAX,
    ensures
        addr == base + k * page_size,
{
    proof {
        vstd::arithmetic::mul::lemma_mul_nonnegative(k as int, page_size as int);
    }
    base as u64 + k * page_size
}

/// Address to which a child writes the entry of page `n`: the base of the
/// argument area plus `n` pages, the offset cut to 32 bits.
pub fn page_write_address(base: u32, page_size: u64, n: u64) -> (addr: u32)
    requires
        n * page_size <= u64::MAX,
        base + (n * page_size) % 0x1_0000_0000 <= u32::MAX,
    ensures
        addr == base + (n * page_size) % 0x1_0000_0000,
{
    let offset: u64 = n * page_size;
    let low: u32 = offset as u32;
    assert(low == offset % 0x1_0000_0000) by (bit_vector)
        requires
            low == offset as u32,
    ;
    base + low
}

/// A child that reads the two previous table entries computes the next
/// one; for `n < 2` it computes the first entries whatever it read.
pub proof fn lemma_child_extends_table(n: nat, a: int, b: int)
    requires
        n >= 2 ==> a == fib((n - 2) as nat) && b == fib((n - 1) as nat),
    ensures
        child_entry(n as int, a, b) == fib(n),
{
}

/// Where the offset fits the 32-bit area, a child writes page `n` at the
/// address from which a later child reads page `n`.
pub proof fn lemma_write_matches_read(base: u32, page_size: u64, n: u64)
    requires
        base + n * page_size <= u32::MAX,
    ensures
        n * page_size <= u64::MAX,
        base + (n * page_size) % 0x1_0000_0000 == base + n * page_size,
{
    vstd::arithmetic::mul::lemma_mul_nonnegative(n as int, page_size as int);
    vstd::arithmetic::div_mod::lemma_small_mod((n * page_size) as nat, 0x1_0000_0000);
}

} // verus!
