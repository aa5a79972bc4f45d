//! Network masks as numbers: a run of one bits, then a run of zero bits.
use vstd::prelude::*;

verus! {

/// `2^n`.
pub open spec fn two_to(n: nat) -> nat
    decreases n,
{
    if n == 0 {
        1
    } else {
        2 * two_to((n - 1) as nat)
    }
}

/// The `width`-bit mask whose `n` top bits are set and the others clear.
pub open spec fn prefix_mask(width: nat, n: nat) -> nat {
    (two_to(width) - two_to((width - n) as nat)) as nat
}

/// `v` is a `width`-bit mask: some number of top bits set, and the others clear.
pub open spec fn is_mask(width: nat, v: nat) -> bool {
    exists|n: nat| n <= width && v == #[trigger] prefix_mask(width, n)
}

pub proof fn lemma_two_to_pos(n: nat)
    ensures
        two_to(n) >= 1,
    decreases n,
{
    if n > 0 {
        lemma_two_to_pos((n - 1) as nat);
    }
}

pub proof fn lemma_two_to_mono(a: nat, b: nat)
    requires
        a <= b,
    ensures
        two_to(a) <= two_to(b),
    decreases b,
{
    if a < b {
        lemma_two_to_mono(a, (b - 1) as nat);
    }
}

/// A mask one bit longer is the mask halved, with the top bit set.
pub proof fn lemma_prefix_mask_step(width: nat, n: nat)
    requires
        1 <= width,
        n < width,
    ensures
        prefix_mask(width, n + 1) == prefix_mask(width, n) / 2 + two_to((width - 1) as nat),
        prefix_mask(width, n) < two_to(width),
{
    let k = (width - n - 1) as nat;
    assert(two_to((width - n) as nat) == 2 * two_to(k));
    assert(two_to(width) == 2 * two_to((width - 1) as nat));
    lemma_two_to_mono(k, (width - 1) as nat);
    lemma_two_to_pos(k);
}

pub proof fn lemma_two_to_values()
    ensures
        two_to(31) == 0x8000_0000,
        two_to(32) == 0x1_0000_0000,
        two_to(127) == 0x8000_0000_0000_0000_0000_0000_0000_0000,
        two_to(128) == 0x1_0000_0000_0000_0000_0000_0000_0000_0000,
{
    reveal_with_fuel(two_to, 33);
    lemma_two_to_add32(31);
    lemma_two_to_add32(63);
    lemma_two_to_add32(95);
    lemma_two_to_add32(32);
    lemma_two_to_add32(64);
    lemma_two_to_add32(96);
}

proof fn lemma_two_to_add32(n: nat)
    ensures
        two_to(n + 32) == two_to(n) * 0x1_0000_0000,
{
    reveal_with_fuel(two_to, 33);
}

/// The 32-bit mask of prefix length `n`.
pub fn mask32_of_len(n: u8) -> (r: u32)
    requires
        n <= 32,
    ensures
        r == prefix_mask(32, n as nat),
{
    proof {
        lemma_two_to_values();
    }
    let mut m: u32 = 0;
    let mut k: u8 = 0;
    assert(prefix_mask(32, 0) == 0);
    while k < n
        invariant
            k <= n <= 32,
            m == prefix_mask(32, k as nat),
            two_to(31) == 0x8000_0000,
            two_to(32) == 0x1_0000_0000,
        decreases n - k,
    {
        proof {
            lemma_prefix_mask_step(32, k as nat);
        }
        m = m / 2 + 0x8000_0000;
        k = k + 1;
    }
    m
}

/// The 128-bit mask of prefix length `n`.
pub fn mask128_of_len(n: u8) -> (r: u128)
    requires
        n <= 128,
    ensures
        r == prefix_mask(128, n as nat),
{
    proof {
        lemma_two_to_values();
    }
    let mut m: u128 = 0;
    let mut k: u8 = 0;
    assert(prefix_mask(128, 0) == 0);
    while k < n
        invariant
            k <= n <= 128,
            m == prefix_mask(128, k as nat),
            two_to(127) == 0x8000_0000_0000_0000_0000_0000_0000_0000,
            two_to(128) == 0x1_0000_0000_0000_0000_0000_0000_0000_0000,
        decreases n - k,
    {
        proof {
            lemma_prefix_mask_step(128, k as nat);
        }
        m = m / 2 + 0x8000_0000_0000_0000_0000_0000_0000_0000;
        k = k + 1;
    }
    m
}

/// The prefix length of the 32-bit mask `value`, if it is one.
pub fn mask32_len(value: u32) -> (r: Option<u8>)
    ensures
        match r {
            Some(n) => n <= 32 && value == prefix_mask(32, n as nat),
            None => !is_mask(32, value as nat),
        },
{
    proof {
        lemma_two_to_values();
    }
    let mut m: u32 = 0;
    let mut k: u8 = 0;
    assert(prefix_mask(32, 0) == 0);
    loop
        invariant
            k <= 32,
            m == prefix_mask(32, k as nat),
            two_to(31) == 0x8000_0000,
            two_to(32) == 0x1_0000_0000,
            forall|j: nat| j < k ==> value != #[trigger] prefix_mask(32, j),
        decreases 32 - k,
    {
        if m == value {
            return Some(k);
        }
        if k == 32 {
            assert forall|j: nat| j <= 32 implies value != #[trigger] prefix_mask(32, j) by {}
            return None;
        }
        proof {
            lemma_prefix_mask_step(32, k as nat);
        }
        m = m / 2 + 0x8000_0000;
        k = k + 1;
    }
}

/// The prefix length of the 128-bit mask `value`, if it is one.
pub fn mask128_len(value: u128) -> (r: Option<u8>)
    ensures
        match r {
            Some(n) => n <= 128 && value == prefix_mask(128, n as nat),
            None => !is_mask(128, value as nat),
        },
{
    proof {
        lemma_two_to_values();
    }
    let mut m: u128 = 0;
    let mut k: u8 = 0;
    assert(prefix_mask(128, 0) == 0);
    loop
        invariant
            k <= 128,
            m == prefix_mask(128, k as nat),
            two_to(127) == 0x8000_0000_0000_0000_0000_0000_0000_0000,
            two_to(128) == 0x1_0000_0000_0000_0000_0000_0000_0000_0000,
            forall|j: nat| j < k ==> value != #[trigger] prefix_mask(128, j),
        decreases 128 - k,
    {
        if m == value {
            return Some(k);
        }
        if k == 128 {
            assert forall|j: nat| j <= 128 implies value != #[trigger] prefix_mask(128, j) by {}
            return None;
        }
        proof {
            lemma_prefix_mask_step(128, k as nat);
        }
        m = m / 2 + 0x8000_0000_0000_0000_0000_0000_0000_0000;
        k = k + 1;
    }
}

} // verus!
