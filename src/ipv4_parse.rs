//! The dotted-decimal grammar of 32-bit addresses: four decimal octets of one to three digits,
//! separated by dots, between 7 and 15 bytes in all.
use vstd::prelude::*;
use crate::ipv4_address::Ipv4Address;
use crate::errors::ParsingFailed;

verus! {

/// ASCII `0`.
pub const ZERO: u8 = 48;

/// ASCII `9`.
pub const NINE: u8 = 57;

/// ASCII `.`.
pub const DOT: u8 = 46;

pub open spec fn is_dec_byte(c: u8) -> bool {
    48 <= c <= 57
}

/// The number of decimal digits at `i` in `b`, at most three.
pub open spec fn dec_run_len(b: Seq<u8>, i: int) -> nat {
    if !(0 <= i < b.len() && is_dec_byte(b[i])) {
        0
    } else if !(i + 1 < b.len() && is_dec_byte(b[i + 1])) {
        1
    } else if !(i + 2 < b.len() && is_dec_byte(b[i + 2])) {
        2
    } else {
        3
    }
}

/// The number that a run of decimal digits denotes.
pub open spec fn dec_value(d: Seq<u8>) -> nat
    decreases d.len(),
{
    if d.len() == 0 {
        0
    } else {
        dec_value(d.drop_last()) * 10 + (d.last() - 48) as nat
    }
}

/// The octet at `i`: the decimal digits there, if there is at least one and they denote at most 255.
pub open spec fn octet_at(b: Seq<u8>, i: int) -> Option<(nat, nat)> {
    let n = dec_run_len(b, i);
    let v = dec_value(b.subrange(i, i + n));
    if n == 0 || v > 255 {
        None
    } else {
        Some((n, v))
    }
}

/// Reads the last `k` octets of an address at `i`, after octets that denote `acc`: each but the
/// last is followed by a dot, and the last ends the input.
pub open spec fn octets_from(b: Seq<u8>, i: int, k: nat, acc: nat) -> Option<nat>
    decreases k,
{
    match octet_at(b, i) {
        None => None,
        Some((n, v)) => if k <= 1 {
            if i + n == b.len() {
                Some(acc * 256 + v)
            } else {
                None
            }
        } else if i + n < b.len() && b[i + n] == 46 {
            octets_from(b, i + n + 1, (k - 1) as nat, acc * 256 + v)
        } else {
            None
        },
    }
}

/// The 32-bit value that the bytes of `b` from `start` to its end denote, if they are a dotted-decimal
/// address.
pub open spec fn ipv4_text_value(b: Seq<u8>, start: int) -> Option<nat> {
    if b.len() - start > 15 || b.len() - start < 7 {
        None
    } else {
        octets_from(b, start, 4, 0)
    }
}

/// The value that a whole byte string denotes as a dotted-decimal address.
pub open spec fn parse_ipv4_spec(b: Seq<u8>) -> Option<nat> {
    ipv4_text_value(b, 0)
}

proof fn lemma_dec_value_bound(d: Seq<u8>)
    requires
        forall|j: int| 0 <= j < d.len() ==> is_dec_byte(#[trigger] d[j]),
    ensures
        d.len() <= 3 ==> dec_value(d) < 1000,
        d.len() <= 2 ==> dec_value(d) < 100,
        d.len() <= 1 ==> dec_value(d) < 10,
    decreases d.len(),
{
    if d.len() > 0 {
        lemma_dec_value_bound(d.drop_last());
    }
}

spec fn pow256(k: nat) -> nat
    decreases k,
{
    if k == 0 {
        1
    } else {
        256 * pow256((k - 1) as nat)
    }
}

/// Check whether an ASCII character represents a decimal digit
fn is_decimal_digit(byte: u8) -> (r: bool)
    ensures
        r == is_dec_byte(byte),
{
    byte >= ZERO && byte <= NINE
}

/// Convert an ASCII character that represents a decimal into this digit
fn decimal_to_digit(byte: u8) -> (r: u8)
    requires
        is_dec_byte(byte),
    ensures
        r == byte - 48,
        r < 10,
{
    byte - ZERO
}

/// Reads the octet at `start`: how many digits it has and its value, or `(0, 0)` where there is no
/// digit there or the digits denote more than 255.
fn read_octet(bytes: &[u8], start: usize) -> (r: (usize, u8))
    requires
        start <= bytes@.len(),
    ensures
        match octet_at(bytes@, start as int) {
            None => r == (0usize, 0u8),
            Some((n, v)) => r.0 == n && r.1 == v,
        },
        start + r.0 <= bytes@.len(),
{
    let mut count: usize = 0;
    let mut res: u16 = 0;
    while count < 3 && count < bytes.len() - start && is_decimal_digit(bytes[start + count])
        invariant
            count <= 3,
            start + count <= bytes@.len(),
            forall|j: int| start <= j < start + count ==> is_dec_byte(#[trigger] bytes@[j]),
            res == dec_value(bytes@.subrange(start as int, start + count)),
        decreases 3 - count,
    {
        let ghost d = bytes@.subrange(start as int, start + count + 1);
        assert(d.drop_last() == bytes@.subrange(start as int, start + count));
        proof {
            lemma_dec_value_bound(bytes@.subrange(start as int, start + count));
        }
        res = res * 10 + decimal_to_digit(bytes[start + count]) as u16;
        count = count + 1;
    }
    assert(count == dec_run_len(bytes@, start as int));
    if count == 0 || res > 255 {
        return (0, 0);
    }
    (count, res as u8)
}

/// Parses the dotted-decimal address that runs from `start` to the end of `bytes`.
pub(crate) fn parse_ipv4_at(bytes: &[u8], start: usize) -> (r: Result<u32, ()>)
    requires
        start <= bytes@.len(),
    ensures
        match ipv4_text_value(bytes@, start as int) {
            None => r is Err,
            Some(v) => r == Ok::<u32, ()>(v as u32),
        },
        r is Ok ==> ipv4_text_value(bytes@, start as int) == Some(r->Ok_0 as nat),
{
    let len = bytes.len();
    if len - start > 15 || len - start < 7 {
        return Err(());
    }
    let mut address: u32 = 0;
    let mut offset: usize = start;
    let mut k: usize = 0;
    assert(pow256(4) == 0x1_0000_0000) by {
        reveal_with_fuel(pow256, 5);
    }
    loop
        invariant
            k < 4,
            start <= offset <= bytes@.len(),
            len == bytes@.len(),
            bytes@.len() - start <= 15,
            7 <= bytes@.len() - start,
            address < pow256(k as nat),
            pow256(4) == 0x1_0000_0000,
            octets_from(bytes@, start as int, 4, 0) == octets_from(
                bytes@,
                offset as int,
                (4 - k) as nat,
                address as nat,
            ),
        decreases 4 - k,
    {
        let (bytes_read, octet) = read_octet(bytes, offset);
        if bytes_read == 0 {
            return Err(());
        }
        proof {
            lemma_pow256_step(k as nat, address as nat, octet as nat);
        }
        let ghost before = address;
        address = address * 256 + octet as u32;
        offset = offset + bytes_read;
        if k == 3 {
            assert(octets_from(bytes@, start as int, 4, 0) == octets_from(bytes@, (offset - bytes_read) as int, 1, before as nat));
            assert(octet_at(bytes@, (offset - bytes_read) as int) == Some((bytes_read as nat, octet as nat)));
            assert(offset == len ==> octets_from(bytes@, (offset - bytes_read) as int, 1, before as nat) == Some(address as nat));
            if offset < bytes.len() {
                return Err(());
            }
            return Ok(address);
        }
        if offset >= bytes.len() || bytes[offset] != DOT {
            return Err(());
        }
        offset = offset + 1;
        k = k + 1;
    }
}

proof fn lemma_pow256_step(k: nat, a: nat, v: nat)
    requires
        k < 4,
        a < pow256(k),
        v < 256,
        pow256(4) == 0x1_0000_0000,
    ensures
        a * 256 + v < pow256(k + 1),
        pow256(k + 1) <= 0x1_0000_0000,
{
    reveal_with_fuel(pow256, 5);
}

impl Ipv4Address {
    /// Parses a dotted-decimal address, such as `192.168.0.1`, into its 32-bit value.
    pub(crate) fn parse(bytes: &[u8]) -> (r: Result<u32, ()>)
        ensures
            match parse_ipv4_spec(bytes@) {
                None => r is Err,
                Some(v) => r == Ok::<u32, ()>(v as u32),
            },
            r is Ok ==> parse_ipv4_spec(bytes@) == Some(r->Ok_0 as nat),
    {
        parse_ipv4_at(bytes, 0)
    }
}

} // verus!
