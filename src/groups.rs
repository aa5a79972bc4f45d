//! The decomposition of a 128-bit address into eight 16-bit groups, most significant first.
use vstd::prelude::*;
use vstd::arithmetic::div_mod::lemma_mod_breakdown;
use vstd::arithmetic::power::pow;

verus! {

/// The number that a sequence of 16-bit groups denotes, most significant group first.
pub open spec fn groups_value(g: Seq<u16>) -> nat
    decreases g.len(),
{
    if g.len() == 0 {
        0
    } else {
        groups_value(g.drop_last()) * 65536 + g.last() as nat
    }
}

/// The last `n` groups of `v`, most significant first.
pub open spec fn groups_of(v: nat, n: nat) -> Seq<u16>
    decreases n,
{
    if n == 0 {
        Seq::empty()
    } else {
        groups_of(v / 65536, (n - 1) as nat).push((v % 65536) as u16)
    }
}

/// The eight groups of a 128-bit value.
pub open spec fn hextets_of(v: u128) -> Seq<u16> {
    groups_of(v as nat, 8)
}

/// The eight zero groups that an elided run stands for, `n` of them.
pub open spec fn zeros(n: nat) -> Seq<u16> {
    Seq::new(n, |k: int| 0u16)
}

pub proof fn lemma_groups_of_len(v: nat, n: nat)
    ensures
        groups_of(v, n).len() == n,
    decreases n,
{
    if n > 0 {
        lemma_groups_of_len(v / 65536, (n - 1) as nat);
    }
}

pub proof fn lemma_groups_value_bound(g: Seq<u16>)
    ensures
        groups_value(g) < pow(65536, g.len()),
    decreases g.len(),
{
    reveal(pow);
    if g.len() > 0 {
        let p = g.drop_last();
        lemma_groups_value_bound(p);
        let a = groups_value(p);
        let b = pow(65536, p.len());
        let l = g.last() as int;
        assert(a * 65536 + l < b * 65536) by (nonlinear_arith)
            requires
                a < b,
                0 <= l < 65536,
        ;
    }
}

pub proof fn lemma_groups_value_of(v: nat, n: nat)
    ensures
        groups_value(groups_of(v, n)) == v % (pow(65536, n) as nat),
    decreases n,
{
    reveal(pow);
    lemma_groups_of_len(v, n);
    if n == 0 {
        assert(v % 1 == 0);
    } else {
        let q = v / 65536;
        lemma_groups_value_of(q, (n - 1) as nat);
        let g = groups_of(v, n);
        assert(g.drop_last() == groups_of(q, (n - 1) as nat));
        let p = pow(65536, (n - 1) as nat);
        vstd::arithmetic::power::lemma_pow_positive(65536, (n - 1) as nat);
        lemma_mod_breakdown(v as int, 65536, p);
        assert(65536 * p == pow(65536, n));
    }
}

proof fn lemma_pow_eight()
    ensures
        pow(65536, 8) == 0x1_0000_0000_0000_0000_0000_0000_0000_0000,
{
    reveal_with_fuel(pow, 9);
}

/// Eight groups denote a value that fits in 128 bits.
pub proof fn lemma_eight_groups_fit(g: Seq<u16>)
    requires
        g.len() == 8,
    ensures
        groups_value(g) <= u128::MAX,
{
    lemma_groups_value_bound(g);
    lemma_pow_eight();
}

/// The groups of a value denote that value, and eight groups are the groups of what they denote.
pub proof fn lemma_hextets_round_trip(v: u128)
    ensures
        hextets_of(v).len() == 8,
        groups_value(hextets_of(v)) == v,
{
    lemma_groups_of_len(v as nat, 8);
    lemma_groups_value_of(v as nat, 8);
    lemma_pow_eight();
    vstd::arithmetic::div_mod::lemma_small_mod(v as nat, pow(65536, 8) as nat);
}

/// Packs eight groups into the value they denote.
pub fn pack_groups(g: &[u16; 8]) -> (r: u128)
    ensures
        r == groups_value(g@),
{
    let mut acc: u128 = 0;
    let mut k: usize = 0;
    proof {
        lemma_eight_groups_fit(g@);
    }
    while k < 8
        invariant
            0 <= k <= 8,
            g@.len() == 8,
            acc == groups_value(g@.subrange(0, k as int)),
            groups_value(g@) <= u128::MAX,
        decreases 8 - k,
    {
        let ghost pre = g@.subrange(0, k as int);
        let ghost next = g@.subrange(0, k + 1);
        assert(next.drop_last() == pre);
        proof {
            lemma_groups_value_bound(next);
            lemma_groups_value_prefix_le(g@, k + 1);
        }
        acc = acc * 65536 + g[k] as u128;
        k = k + 1;
    }
    assert(g@.subrange(0, 8) == g@);
    acc
}

/// A prefix of a sequence of groups denotes at most what the whole sequence denotes.
pub proof fn lemma_groups_value_prefix_le(g: Seq<u16>, k: int)
    requires
        0 <= k <= g.len(),
    ensures
        groups_value(g.subrange(0, k)) <= groups_value(g),
    decreases g.len(),
{
    if k < g.len() {
        let p = g.drop_last();
        assert(p.subrange(0, k) == g.subrange(0, k));
        lemma_groups_value_prefix_le(p, k);
    } else {
        assert(g.subrange(0, k) == g);
    }
}

/// Splits a 128-bit value into its eight groups.
pub fn unpack_groups(v: u128) -> (r: [u16; 8])
    ensures
        r@ == hextets_of(v),
{
    let mut a: [u16; 8] = [0; 8];
    let mut x: u128 = v;
    let mut k: usize = 8;
    while k > 0
        invariant
            0 <= k <= 8,
            a@.len() == 8,
            groups_of(v as nat, 8) == groups_of(x as nat, k as nat) + a@.subrange(k as int, 8),
        decreases k,
    {
        let ghost old_a = a@;
        let ghost gx = groups_of(x as nat, k as nat);
        a[k - 1] = (x % 65536) as u16;
        assert(gx == groups_of((x / 65536) as nat, (k - 1) as nat).push((x % 65536) as u16));
        assert(groups_of((x / 65536) as nat, (k - 1) as nat) + a@.subrange(k - 1, 8) =~= gx + old_a.subrange(k as int, 8));
        x = x / 65536;
        k = k - 1;
    }
    assert(a@.subrange(0, 8) == a@);
    assert(groups_of(x as nat, 0) + a@ =~= a@);
    a
}

} // verus!
