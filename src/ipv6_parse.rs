//! The textual grammar of 128-bit addresses: up to eight colon-separated groups of one to four
//! hexadecimal digits, one optional `::` for a run of zero groups, and an optional dotted-decimal
//! suffix for the last two groups.
use vstd::prelude::*;
use crate::errors::ParsingFailed;
use crate::groups::{groups_value, pack_groups, zeros, lemma_eight_groups_fit};
use crate::ipv4_parse::{ipv4_text_value, parse_ipv4_at, DOT};
use crate::ipv6_address::Ipv6Address;

verus! {

/// ASCII `:`.
pub const COLON: u8 = 58;

pub open spec fn is_hex_byte(c: u8) -> bool {
    (48 <= c <= 57) || (97 <= c <= 102) || (65 <= c <= 70)
}

/// The value of a hexadecimal digit.
pub open spec fn hex_byte_value(c: u8) -> nat {
    if 48 <= c <= 57 {
        (c - 48) as nat
    } else if 97 <= c <= 102 {
        (c - 87) as nat
    } else {
        (c - 55) as nat
    }
}

/// The number of hexadecimal digits at `i` in `b`, at most four.
pub open spec fn hex_run_len(b: Seq<u8>, i: int) -> nat {
    if !(0 <= i < b.len() && is_hex_byte(b[i])) {
        0
    } else if !(i + 1 < b.len() && is_hex_byte(b[i + 1])) {
        1
    } else if !(i + 2 < b.len() && is_hex_byte(b[i + 2])) {
        2
    } else if !(i + 3 < b.len() && is_hex_byte(b[i + 3])) {
        3
    } else {
        4
    }
}

/// The number that a run of hexadecimal digits denotes.
pub open spec fn hex_value(d: Seq<u8>) -> nat
    decreases d.len(),
{
    if d.len() == 0 {
        0
    } else {
        hex_value(d.drop_last()) * 16 + hex_byte_value(d.last())
    }
}

/// Reads groups from `i` on, after the groups `g` and with the zero-compression marker, if one was
/// seen, before group `ell`. Ends with the position reached, the groups and the marker, or fails.
pub open spec fn scan_groups(b: Seq<u8>, i: int, g: Seq<u16>, ell: Option<int>) -> Option<
    (int, Seq<u16>, Option<int>),
>
    decreases b.len() - i,
{
    if i < 0 || i >= b.len() {
        Some((i, g, ell))
    } else {
        let n = hex_run_len(b, i);
        if n == 0 {
            if b[i] == COLON && ell is None {
                scan_groups(b, i + 1, g, Some(g.len() as int))
            } else {
                None
            }
        } else {
            let h = hex_value(b.subrange(i, i + n)) as u16;
            let j = i + n;
            if g.len() + 1 >= 8 || j == b.len() {
                Some((j, g.push(h), ell))
            } else if b[j] == COLON {
                if j + 1 == b.len() {
                    None
                } else {
                    scan_groups(b, j + 1, g.push(h), ell)
                }
            } else if b[j] == DOT {
                match ipv4_text_value(b, i) {
                    Some(v) => Some(
                        (b.len() as int, g.push((v / 65536) as u16).push((v % 65536) as u16), ell),
                    ),
                    None => None,
                }
            } else {
                None
            }
        }
    }
}

/// The eight groups that the groups read stand for: the marker before group `e` stands for as many
/// zero groups as are missing.
pub open spec fn expand_groups(g: Seq<u16>, ell: Option<int>) -> Seq<u16> {
    match ell {
        None => g,
        Some(e) => g.subrange(0, e) + zeros((8 - g.len()) as nat) + g.subrange(e, g.len() as int),
    }
}

/// The value that the outcome of reading the groups of `b` gives: all of `b` must have been read,
/// and the marker must stand for at least one group, and be there if fewer than eight were read.
pub open spec fn finish_parse(b: Seq<u8>, scanned: Option<(int, Seq<u16>, Option<int>)>) -> Option<
    u128,
> {
    match scanned {
        None => None,
        Some((end, g, ell)) => if end < b.len() || (g.len() == 8 && ell is Some) || (g.len() < 8
            && ell is None) {
            None
        } else {
            Some(groups_value(expand_groups(g, ell)) as u128)
        },
    }
}

/// The 128-bit value that `b` denotes as a textual address, if it is one.
pub open spec fn parse_ipv6_spec(b: Seq<u8>) -> Option<u128> {
    if b.len() < 2 || b.len() > 46 {
        None
    } else if b[0] == COLON && b[1] != COLON {
        None
    } else if b[0] == COLON {
        finish_parse(b, scan_groups(b, 2, Seq::empty(), Some(0)))
    } else {
        finish_parse(b, scan_groups(b, 0, Seq::empty(), None))
    }
}

proof fn lemma_hex_value_bound(d: Seq<u8>)
    requires
        forall|j: int| 0 <= j < d.len() ==> is_hex_byte(#[trigger] d[j]),
    ensures
        d.len() <= 4 ==> hex_value(d) < 65536,
        d.len() <= 3 ==> hex_value(d) < 4096,
        d.len() <= 2 ==> hex_value(d) < 256,
        d.len() <= 1 ==> hex_value(d) < 16,
    decreases d.len(),
{
    if d.len() > 0 {
        lemma_hex_value_bound(d.drop_last());
    }
}

/// Check whether an ASCII character represents an hexadecimal digit
fn is_hex_digit(byte: u8) -> (r: bool)
    ensures
        r == is_hex_byte(byte),
{
    (byte >= 48 && byte <= 57) || (byte >= 97 && byte <= 102) || (byte >= 65 && byte <= 70)
}

/// Convert an ASCII character that represents an hexadecimal digit into this digit
fn hex_to_digit(byte: u8) -> (r: u8)
    requires
        is_hex_byte(byte),
    ensures
        r == hex_byte_value(byte),
        r < 16,
{
    if byte >= 48 && byte <= 57 {
        byte - 48
    } else if byte >= 97 && byte <= 102 {
        byte - 87
    } else {
        byte - 55
    }
}

/// Reads up to four hexadecimal digits at `start`: how many there are and their value.
fn read_hextet(bytes: &[u8], start: usize) -> (r: (usize, u16))
    requires
        start <= bytes@.len(),
    ensures
        r.0 == hex_run_len(bytes@, start as int),
        r.1 == hex_value(bytes@.subrange(start as int, start + r.0)),
        start + r.0 <= bytes@.len(),
{
    let mut count: usize = 0;
    let mut res: u16 = 0;
    while count < 4 && count < bytes.len() - start && is_hex_digit(bytes[start + count])
        invariant
            count <= 4,
            start + count <= bytes@.len(),
            forall|j: int| start <= j < start + count ==> is_hex_byte(#[trigger] bytes@[j]),
            res == hex_value(bytes@.subrange(start as int, start + count)),
        decreases 4 - count,
    {
        let ghost d = bytes@.subrange(start as int, start + count + 1);
        assert(d.drop_last() == bytes@.subrange(start as int, start + count));
        proof {
            lemma_hex_value_bound(bytes@.subrange(start as int, start + count));
        }
        res = res * 16 + hex_to_digit(bytes[start + count]) as u16;
        count = count + 1;
    }
    (count, res)
}

/// The position of the zero-compression marker, as an integer.
pub open spec fn marker_at(e: Option<usize>) -> Option<int> {
    match e {
        Some(x) => Some(x as int),
        None => None,
    }
}

/// Lays out the groups read into eight: the marker, if any, stands for the missing zero groups.
fn expand(address: &[u16; 8], count: usize, ellipsis: Option<usize>) -> (r: [u16; 8])
    requires
        count <= 8,
        ellipsis is Some ==> ellipsis->Some_0 <= count,
        ellipsis is None ==> count == 8,
    ensures
        r@ == expand_groups(
            address@.subrange(0, count as int),
            marker_at(ellipsis),
        ),
{
    let ghost g = address@.subrange(0, count as int);
    match ellipsis {
        None => {
            assert(address@.subrange(0, 8) == address@);
            *address
        },
        Some(e) => {
            let nb_zeros: usize = 8 - count;
            let ghost want = expand_groups(g, Some(e as int));
            assert(want.len() == 8);
            let mut out: [u16; 8] = [0; 8];
            let mut k: usize = 0;
            while k < 8
                invariant
                    k <= 8,
                    count <= 8,
                    e <= count,
                    nb_zeros == 8 - count,
                    out@.len() == 8,
                    want == g.subrange(0, e as int) + zeros(nb_zeros as nat) + g.subrange(
                        e as int,
                        count as int,
                    ),
                    g == address@.subrange(0, count as int),
                    forall|j: int| 0 <= j < k ==> out@[j] == want[j],
                decreases 8 - k,
            {
                if k < e {
                    out[k] = address[k];
                } else if k < e + nb_zeros {
                    out[k] = 0;
                } else {
                    out[k] = address[k - nb_zeros];
                }
                k = k + 1;
            }
            assert(out@ =~= want);
            out
        },
    }
}

impl Ipv6Address {
    /// Parses the textual form of a 128-bit address into its value.
    #[verifier::rlimit(50)]
    pub(crate) fn parse(bytes: &[u8]) -> (r: Result<u128, ()>)
        ensures
            match parse_ipv6_spec(bytes@) {
                None => r is Err,
                Some(v) => r == Ok::<u128, ()>(v),
            },
    {
        let len = bytes.len();
        if len > 46 || len < 2 {
            return Err(());
        }
        let mut offset: usize = 0;
        let mut ellipsis: Option<usize> = None;
        if bytes[0] == COLON {
            if bytes[1] == COLON {
                ellipsis = Some(0);
                offset = 2;
            } else {
                return Err(());
            }
        }
        let ghost start = offset as int;
        let ghost ell0: Option<int> = if bytes@[0] == COLON { Some(0) } else { None };
        let mut address: [u16; 8] = [0; 8];
        let mut hextet_index: usize = 0;
        assert(address@.subrange(0, 0) =~= Seq::<u16>::empty());
        assert(marker_at(ellipsis) == ell0);
        assert(parse_ipv6_spec(bytes@) == finish_parse(
            bytes@,
            scan_groups(bytes@, start, Seq::empty(), ell0),
        ));
        loop
            invariant_except_break
                hextet_index < 8,
                scan_groups(bytes@, start, Seq::empty(), ell0) == scan_groups(
                    bytes@,
                    offset as int,
                    address@.subrange(0, hextet_index as int),
                    marker_at(ellipsis),
                ),
            invariant
                len == bytes@.len(),
                2 <= len <= 46,
                parse_ipv6_spec(bytes@) == finish_parse(
                    bytes@,
                    scan_groups(bytes@, start, Seq::empty(), ell0),
                ),
                offset <= len,
                address@.len() == 8,
                ellipsis is Some ==> ellipsis->Some_0 <= hextet_index,
            ensures
                hextet_index <= 8,
                scan_groups(bytes@, start, Seq::empty(), ell0) == Some(
                    (offset as int, address@.subrange(0, hextet_index as int), marker_at(ellipsis)),
                ),
            decreases len - offset,
        {
            let ghost g = address@.subrange(0, hextet_index as int);
            let ghost off0 = offset as int;
            let ghost ell_0 = marker_at(ellipsis);
            let ghost cur = scan_groups(bytes@, off0, g, ell_0);
            if offset == len {
                break;
            }
            let (bytes_read, hextet) = read_hextet(bytes, offset);
            if bytes_read == 0 {
                if bytes[offset] == COLON {
                    if ellipsis.is_some() {
                        assert(cur is None);
                        return Err(());
                    }
                    ellipsis = Some(hextet_index);
                    offset = offset + 1;
                    assert(cur == scan_groups(bytes@, offset as int, g, marker_at(ellipsis)));
                    continue;
                } else {
                    assert(cur is None);
                    return Err(());
                }
            }
            address[hextet_index] = hextet;
            assert(address@.subrange(0, hextet_index + 1) == g.push(hextet));
            offset = offset + bytes_read;
            hextet_index = hextet_index + 1;
            if hextet_index == 8 || offset == len {
                break;
            }
            if bytes[offset] == COLON {
                offset = offset + 1;
                if offset == len {
                    assert(cur is None);
                    return Err(());
                }
            } else if bytes[offset] == DOT {
                let ipv4 = match parse_ipv4_at(bytes, offset - bytes_read) {
                    Ok(v) => v,
                    Err(()) => {
                        assert(cur is None);
                        return Err(());
                    },
                };
                address[hextet_index - 1] = (ipv4 / 65536) as u16;
                address[hextet_index] = (ipv4 % 65536) as u16;
                assert(address@.subrange(0, hextet_index + 1) == g.push((ipv4 / 65536) as u16).push(
                    (ipv4 % 65536) as u16));
                hextet_index = hextet_index + 1;
                offset = len;
                break;
            } else {
                assert(cur is None);
                return Err(());
            }
        }
        if offset < len {
            return Err(());
        }
        if hextet_index == 8 && ellipsis.is_some() {
            return Err(());
        }
        if hextet_index < 8 && ellipsis.is_none() {
            return Err(());
        }
        let groups = expand(&address, hextet_index, ellipsis);
        Ok(pack_groups(&groups))
    }
}

} // verus!
