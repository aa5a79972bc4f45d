//! The decomposition of an integer into bytes, most significant first.
use vstd::prelude::*;
use vstd::arithmetic::power::pow;

verus! {

/// The number that a sequence of bytes denotes, most significant byte first.
pub open spec fn octets_value(g: Seq<u8>) -> nat
    decreases g.len(),
{
    if g.len() == 0 {
        0
    } else {
        octets_value(g.drop_last()) * 256 + g.last() as nat
    }
}

/// The last `n` bytes of `v`, most significant first.
pub open spec fn octets_of(v: nat, n: nat) -> Seq<u8>
    decreases n,
{
    if n == 0 {
        Seq::empty()
    } else {
        octets_of(v / 256, (n - 1) as nat).push((v % 256) as u8)
    }
}

pub proof fn lemma_octets_value_bound(g: Seq<u8>)
    ensures
        octets_value(g) < pow(256, g.len()),
    decreases g.len(),
{
    reveal(pow);
    if g.len() > 0 {
        let p = g.drop_last();
        lemma_octets_value_bound(p);
        let a = octets_value(p);
        let b = pow(256, p.len());
        let l = g.last() as int;
        assert(a * 256 + l < b * 256) by (nonlinear_arith)
            requires
                a < b,
                0 <= l < 256,
        ;
    }
}

pub proof fn lemma_octets_of_len(v: nat, n: nat)
    ensures
        octets_of(v, n).len() == n,
    decreases n,
{
    if n > 0 {
        lemma_octets_of_len(v / 256, (n - 1) as nat);
    }
}

/// The bytes of a value below `256^4`, read back, give the value.
pub proof fn lemma_octets_of_u32(v: u32)
    ensures
        octets_of(v as nat, 4).len() == 4,
        ((octets_of(v as nat, 4)[0] as nat * 256 + octets_of(v as nat, 4)[1]) * 256 + octets_of(
            v as nat,
            4,
        )[2]) * 256 + octets_of(v as nat, 4)[3] == v,
{
    lemma_octets_of_len(v as nat, 4);
    reveal_with_fuel(octets_of, 5);
    let x = v as nat;
    let o = octets_of(x, 4);
    let q1 = x / 256;
    let q2 = q1 / 256;
    let q3 = q2 / 256;
    assert(o[3] == x % 256);
    assert(o[2] == q1 % 256);
    assert(o[1] == q2 % 256);
    assert(o[0] == q3 % 256);
    assert(q3 < 256) by (nonlinear_arith)
        requires
            q1 == x / 256,
            q2 == q1 / 256,
            q3 == q2 / 256,
            x < 0x1_0000_0000,
    ;
    assert(((q3 % 256 * 256 + q2 % 256) * 256 + q1 % 256) * 256 + x % 256 == x) by (nonlinear_arith)
        requires
            q1 == x / 256,
            q2 == q1 / 256,
            q3 == q2 / 256,
            q3 < 256,
    ;
}

proof fn lemma_pow256_values()
    ensures
        pow(256, 4) == 0x1_0000_0000,
        pow(256, 16) == 0x1_0000_0000_0000_0000_0000_0000_0000_0000,
{
    reveal_with_fuel(pow, 17);
}

/// The sixteen bytes of a 128-bit value.
pub fn octets_u128(v: u128) -> (r: [u8; 16])
    ensures
        r@ == octets_of(v as nat, 16),
{
    let mut a: [u8; 16] = [0; 16];
    let mut x: u128 = v;
    let mut k: usize = 16;
    while k > 0
        invariant
            0 <= k <= 16,
            a@.len() == 16,
            octets_of(v as nat, 16) == octets_of(x as nat, k as nat) + a@.subrange(k as int, 16),
        decreases k,
    {
        let ghost old_a = a@;
        let ghost gx = octets_of(x as nat, k as nat);
        a[k - 1] = (x % 256) as u8;
        assert(gx == octets_of((x / 256) as nat, (k - 1) as nat).push((x % 256) as u8));
        assert(octets_of((x / 256) as nat, (k - 1) as nat) + a@.subrange(k - 1, 16) =~= gx
            + old_a.subrange(k as int, 16));
        x = x / 256;
        k = k - 1;
    }
    assert(octets_of(x as nat, 0) + a@.subrange(0, 16) =~= a@);
    a
}

/// The four bytes of a 32-bit value.
pub fn octets_u32(v: u32) -> (r: [u8; 4])
    ensures
        r@ == octets_of(v as nat, 4),
{
    let mut a: [u8; 4] = [0; 4];
    let mut x: u32 = v;
    let mut k: usize = 4;
    while k > 0
        invariant
            0 <= k <= 4,
            a@.len() == 4,
            octets_of(v as nat, 4) == octets_of(x as nat, k as nat) + a@.subrange(k as int, 4),
        decreases k,
    {
        let ghost old_a = a@;
        let ghost gx = octets_of(x as nat, k as nat);
        a[k - 1] = (x % 256) as u8;
        assert(gx == octets_of((x / 256) as nat, (k - 1) as nat).push((x % 256) as u8));
        assert(octets_of((x / 256) as nat, (k - 1) as nat) + a@.subrange(k - 1, 4) =~= gx
            + old_a.subrange(k as int, 4));
        x = x / 256;
        k = k - 1;
    }
    assert(octets_of(x as nat, 0) + a@.subrange(0, 4) =~= a@);
    a
}

/// `b` followed by zero bytes up to `n` bytes in all.
pub open spec fn pad_octets(b: Seq<u8>, n: nat) -> Seq<u8> {
    b + Seq::new((n - b.len()) as nat, |k: int| 0u8)
}

/// The value of at most sixteen bytes, most significant first, with zero bytes after them up to
/// sixteen.
pub fn value_of_octets_u128(b: &[u8]) -> (r: u128)
    requires
        b@.len() <= 16,
    ensures
        r == octets_value(pad_octets(b@, 16)),
{
    let ghost p = pad_octets(b@, 16);
    let mut acc: u128 = 0;
    let mut k: usize = 0;
    proof {
        lemma_octets_value_bound(p);
        lemma_pow256_values();
    }
    while k < 16
        invariant
            0 <= k <= 16,
            b@.len() <= 16,
            p == pad_octets(b@, 16),
            p.len() == 16,
            acc == octets_value(p.subrange(0, k as int)),
            octets_value(p) <= u128::MAX,
        decreases 16 - k,
    {
        let byte: u8 = if k < b.len() { b[k] } else { 0 };
        assert(byte == p[k as int]);
        let ghost next = p.subrange(0, k + 1);
        assert(next.drop_last() == p.subrange(0, k as int));
        proof {
            lemma_octets_value_prefix_le(p, k + 1);
        }
        acc = acc * 256 + byte as u128;
        k = k + 1;
    }
    assert(p.subrange(0, 16) == p);
    acc
}

/// The value of the first four bytes of `b`, most significant first.
pub fn value_of_octets_u32(b: &[u8]) -> (r: u32)
    requires
        b@.len() >= 4,
    ensures
        r == octets_value(b@.subrange(0, 4)),
{
    let ghost p = b@.subrange(0, 4);
    let mut acc: u32 = 0;
    let mut k: usize = 0;
    proof {
        lemma_octets_value_bound(p);
        lemma_pow256_values();
    }
    while k < 4
        invariant
            0 <= k <= 4,
            b@.len() >= 4,
            p == b@.subrange(0, 4),
            acc == octets_value(p.subrange(0, k as int)),
            octets_value(p) <= u32::MAX,
        decreases 4 - k,
    {
        let ghost next = p.subrange(0, k + 1);
        assert(next.drop_last() == p.subrange(0, k as int));
        proof {
            lemma_octets_value_prefix_le(p, k + 1);
        }
        acc = acc * 256 + b[k] as u32;
        k = k + 1;
    }
    assert(p.subrange(0, 4) == p);
    acc
}

/// A prefix of a sequence of bytes denotes at most what the whole sequence denotes.
pub proof fn lemma_octets_value_prefix_le(g: Seq<u8>, k: int)
    requires
        0 <= k <= g.len(),
    ensures
        octets_value(g.subrange(0, k)) <= octets_value(g),
    decreases g.len(),
{
    if k < g.len() {
        let p = g.drop_last();
        assert(p.subrange(0, k) == g.subrange(0, k));
        lemma_octets_value_prefix_le(p, k);
    } else {
        assert(g.subrange(0, k) == g);
    }
}

} // verus!
