//! What holds between the dotted-decimal parser and the text of 32-bit addresses.
use vstd::prelude::*;
use vstd::utf8::{encode_utf8, is_ascii_chars, is_ascii_chars_encode_utf8};
use crate::ipv4_address::{dec_char, dec_text, ipv4_text};
use crate::ipv4_parse::{dec_run_len, dec_value, is_dec_byte, octet_at, octets_from, parse_ipv4_spec, DOT};
use crate::ipv6_laws::ascii_bytes;
use crate::octets::{lemma_octets_of_u32, octets_of};

verus! {

proof fn lemma_dec_value_push(s: Seq<u8>, c: u8)
    ensures
        dec_value(s.push(c)) == dec_value(s) * 10 + (c - 48) as nat,
{
    assert(s.push(c).drop_last() =~= s);
}

proof fn lemma_dec_text_bytes(n: u8)
    ensures
        1 <= dec_text(n).len() <= 3,
        is_ascii_chars(dec_text(n)),
        forall|k: int|
            0 <= k < dec_text(n).len() ==> is_dec_byte(#[trigger] ascii_bytes(dec_text(n))[k]),
        dec_value(ascii_bytes(dec_text(n))) == n,
{
    let b = ascii_bytes(dec_text(n));
    let d2 = n as int / 100;
    let d1 = n as int / 10 % 10;
    let d0 = n as int % 10;
    let c2 = dec_char(d2) as u8;
    let c1 = dec_char(d1) as u8;
    let c0 = dec_char(d0) as u8;
    assert(c2 == 48 + d2 && c1 == 48 + d1 && c0 == 48 + d0);
    let e = Seq::<u8>::empty();
    lemma_dec_value_push(e, c2);
    lemma_dec_value_push(e.push(c2), c1);
    lemma_dec_value_push(e.push(c2).push(c1), c0);
    lemma_dec_value_push(e, c1);
    lemma_dec_value_push(e.push(c1), c0);
    lemma_dec_value_push(e, c0);
    assert(dec_value(e) == 0);
    if n >= 100 {
        assert(b =~= e.push(c2).push(c1).push(c0));
    } else if n >= 10 {
        assert(b =~= e.push(c1).push(c0));
    } else {
        assert(b =~= e.push(c0));
    }
}

/// The digits of `n` at `i`, followed by a dot or the end, are the octet `n`.
proof fn lemma_octet_at_text(b: Seq<u8>, i: int, n: u8)
    requires
        0 <= i,
        i + dec_text(n).len() <= b.len(),
        b.subrange(i, i + dec_text(n).len()) == ascii_bytes(dec_text(n)),
        i + dec_text(n).len() == b.len() || b[i + dec_text(n).len()] == DOT,
    ensures
        octet_at(b, i) == Some((dec_text(n).len(), n as nat)),
{
    let t = ascii_bytes(dec_text(n));
    let m = t.len() as int;
    lemma_dec_text_bytes(n);
    assert forall|k: int| 0 <= k < m implies is_dec_byte(#[trigger] b[i + k]) by {
        assert(b.subrange(i, i + m)[k] == t[k]);
        assert(is_dec_byte(t[k]));
    }
    if m >= 1 { assert(is_dec_byte(b[i + 0])); }
    if m >= 2 { assert(is_dec_byte(b[i + 1])); }
    if m >= 3 { assert(is_dec_byte(b[i + 2])); }
    assert(dec_run_len(b, i) == m);
}

/// Round trip: parsing the dotted-decimal text of any 32-bit value gives that value back.
pub proof fn lemma_ipv4_round_trip(v: u32)
    ensures
        parse_ipv4_spec(encode_utf8(ipv4_text(v))) == Some(v as nat),
{
    let o = octets_of(v as nat, 4);
    lemma_octets_of_u32(v);
    let t0 = ascii_bytes(dec_text(o[0]));
    let t1 = ascii_bytes(dec_text(o[1]));
    let t2 = ascii_bytes(dec_text(o[2]));
    let t3 = ascii_bytes(dec_text(o[3]));
    lemma_dec_text_bytes(o[0]);
    lemma_dec_text_bytes(o[1]);
    lemma_dec_text_bytes(o[2]);
    lemma_dec_text_bytes(o[3]);
    let text = ipv4_text(v);
    assert(is_ascii_chars(text)) by {
        assert forall|k: int| 0 <= k < text.len() implies '\0' <= #[trigger] text[k] <= '\u{7f}' by {
            let l0 = dec_text(o[0]).len() as int;
            let l1 = dec_text(o[1]).len() as int;
            let l2 = dec_text(o[2]).len() as int;
            if k < l0 {
                assert(text[k] == dec_text(o[0])[k]);
            } else if k == l0 {
            } else if k < l0 + 1 + l1 {
                assert(text[k] == dec_text(o[1])[k - l0 - 1]);
            } else if k == l0 + 1 + l1 {
            } else if k < l0 + l1 + l2 + 2 {
                assert(text[k] == dec_text(o[2])[k - l0 - l1 - 2]);
            } else if k == l0 + l1 + l2 + 2 {
            } else {
                assert(text[k] == dec_text(o[3])[k - l0 - l1 - l2 - 3]);
            }
        }
    }
    is_ascii_chars_encode_utf8(text);
    let b = encode_utf8(text);
    assert(b =~= ascii_bytes(text));
    assert(b =~= t0 + seq![DOT] + t1 + seq![DOT] + t2 + seq![DOT] + t3);
    let p1: int = t0.len() as int + 1;
    let p2: int = p1 + t1.len() as int + 1;
    let p3: int = p2 + t2.len() as int + 1;
    assert(b.subrange(0, t0.len() as int) =~= t0);
    assert(b.subrange(p1, p1 + t1.len() as int) =~= t1);
    assert(b.subrange(p2, p2 + t2.len() as int) =~= t2);
    assert(b.subrange(p3, p3 + t3.len() as int) =~= t3);
    lemma_octet_at_text(b, 0, o[0]);
    lemma_octet_at_text(b, p1, o[1]);
    lemma_octet_at_text(b, p2, o[2]);
    lemma_octet_at_text(b, p3, o[3]);
    let a1 = o[0] as nat;
    let a2: nat = a1 * 256 + o[1] as nat;
    let a3: nat = a2 * 256 + o[2] as nat;
    assert(octets_from(b, p3, 1, a3) == Some((a3 * 256 + o[3]) as nat));
    assert(octets_from(b, p2, 2, a2) == octets_from(b, p3, 1, a3));
    assert(octets_from(b, p1, 3, a1) == octets_from(b, p2, 2, a2));
    assert(octets_from(b, 0, 4, 0) == octets_from(b, p1, 3, a1));
}

} // verus!
