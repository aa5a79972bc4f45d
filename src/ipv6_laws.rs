//! What holds between the parser and the canonical formatter of 128-bit addresses.
use vstd::prelude::*;
use crate::groups::{groups_value, hextets_of, lemma_hextets_round_trip, zeros};
use crate::ipv6_format::{
    format_groups, group_text, hex_char, is_longest_zero_run, join_groups, zero_range,
};
use vstd::utf8::{encode_utf8, is_ascii_chars, is_ascii_chars_encode_utf8};
use crate::ipv6_address::format_canonical;
use crate::ipv6_parse::{
    expand_groups, hex_byte_value, hex_run_len, hex_value, is_hex_byte, parse_ipv6_spec, scan_groups, COLON,
};

verus! {

/// The bytes of a text made of ASCII characters.
pub open spec fn ascii_bytes(t: Seq<char>) -> Seq<u8> {
    t.map_values(|c: char| c as u8)
}

proof fn lemma_hex_char_byte(d: int)
    requires
        0 <= d < 16,
    ensures
        is_hex_byte(hex_char(d, false) as u8),
        hex_byte_value(hex_char(d, false) as u8) == d,
        (hex_char(d, false) as u8) != COLON,
{
}

proof fn lemma_group_text_bytes(g: u16)
    ensures
        1 <= group_text(g, false, false).len() <= 4,
        forall|k: int|
            0 <= k < group_text(g, false, false).len() ==> is_hex_byte(
                #[trigger] ascii_bytes(group_text(g, false, false))[k],
            ),
        hex_value(ascii_bytes(group_text(g, false, false))) == g,
{
    let t = group_text(g, false, false);
    let b = ascii_bytes(t);
    let d3 = g as int / 4096;
    let d2 = g as int / 256 % 16;
    let d1 = g as int / 16 % 16;
    let d0 = g as int % 16;
    lemma_hex_char_byte(d3);
    lemma_hex_char_byte(d2);
    lemma_hex_char_byte(d1);
    lemma_hex_char_byte(d0);
    assert(b.len() == t.len());
    let c3 = hex_char(d3, false) as u8;
    let c2 = hex_char(d2, false) as u8;
    let c1 = hex_char(d1, false) as u8;
    let c0 = hex_char(d0, false) as u8;
    let e = Seq::<u8>::empty();
    lemma_hex_value_push(e, c3);
    lemma_hex_value_push(e.push(c3), c2);
    lemma_hex_value_push(e.push(c3).push(c2), c1);
    lemma_hex_value_push(e.push(c3).push(c2).push(c1), c0);
    lemma_hex_value_push(e, c2);
    lemma_hex_value_push(e.push(c2), c1);
    lemma_hex_value_push(e.push(c2).push(c1), c0);
    lemma_hex_value_push(e, c1);
    lemma_hex_value_push(e.push(c1), c0);
    lemma_hex_value_push(e, c0);
    assert(hex_value(e) == 0);
    if g >= 4096 {
        assert(b =~= e.push(c3).push(c2).push(c1).push(c0));
        assert(((d3 * 16 + d2) * 16 + d1) * 16 + d0 == g) by (nonlinear_arith)
            requires
                d3 == g as int / 4096,
                d2 == g as int / 256 % 16,
                d1 == g as int / 16 % 16,
                d0 == g as int % 16,
        ;
    } else if g >= 256 {
        assert(b =~= e.push(c2).push(c1).push(c0));
        assert((d2 * 16 + d1) * 16 + d0 == g) by (nonlinear_arith)
            requires
                g < 4096,
                d2 == g as int / 256 % 16,
                d1 == g as int / 16 % 16,
                d0 == g as int % 16,
        ;
    } else if g >= 16 {
        assert(b =~= e.push(c1).push(c0));
        assert(d1 * 16 + d0 == g) by (nonlinear_arith)
            requires
                g < 256,
                d1 == g as int / 16 % 16,
                d0 == g as int % 16,
        ;
    } else {
        assert(b =~= e.push(c0));
    }
}

proof fn lemma_hex_value_push(s: Seq<u8>, c: u8)
    ensures
        hex_value(s.push(c)) == hex_value(s) * 16 + hex_byte_value(c),
{
    assert(s.push(c).drop_last() =~= s);
}

proof fn lemma_ascii_bytes_concat(a: Seq<char>, b: Seq<char>)
    ensures
        ascii_bytes(a + b) == ascii_bytes(a) + ascii_bytes(b),
{
    assert(ascii_bytes(a + b) =~= ascii_bytes(a) + ascii_bytes(b));
}

/// Joining groups, seen from the front: the first group, a colon, and the others joined.
proof fn lemma_join_front(gs: Seq<u16>, lead: bool, upper: bool)
    requires
        gs.len() >= 2,
    ensures
        join_groups(gs, lead, upper) == group_text(gs[0], lead, upper) + seq![':'] + join_groups(
            gs.drop_first(),
            lead,
            upper,
        ),
    decreases gs.len(),
{
    let rest = gs.drop_first();
    if gs.len() == 2 {
        assert(gs.drop_last() =~= seq![gs[0]]);
        assert(rest =~= seq![gs[1]]);
        assert(join_groups(gs.drop_last(), lead, upper) == group_text(gs[0], lead, upper));
        assert(join_groups(rest, lead, upper) == group_text(gs[1], lead, upper));
        assert(gs.last() == gs[1]);
        assert(join_groups(gs, lead, upper) =~= group_text(gs[0], lead, upper) + seq![':']
            + join_groups(rest, lead, upper));
    } else {
        let dl = gs.drop_last();
        lemma_join_front(dl, lead, upper);
        assert(dl.drop_first() =~= rest.drop_last());
        assert(dl[0] == gs[0]);
        assert(rest.last() == gs.last());
        assert(join_groups(gs, lead, upper) =~= group_text(gs[0], lead, upper) + seq![':']
            + join_groups(rest, lead, upper));
    }
}

/// The text of `n` groups without leading zeros has between `n` and `5n - 1` characters.
proof fn lemma_join_len(gs: Seq<u16>)
    ensures
        gs.len() == 0 ==> join_groups(gs, false, false).len() == 0,
        gs.len() >= 1 ==> gs.len() <= join_groups(gs, false, false).len() <= 5 * gs.len() - 1,
    decreases gs.len(),
{
    if gs.len() >= 1 {
        lemma_group_text_bytes(gs.last());
        lemma_group_text_bytes(gs[0]);
        if gs.len() >= 2 {
            lemma_join_len(gs.drop_last());
        }
    }
}

/// Reading the text of the groups `gs`, followed by the end or by a colon and more, adds them to
/// the groups read.
#[verifier::rlimit(80)]
proof fn lemma_scan_join(b: Seq<u8>, i: int, g: Seq<u16>, ell: Option<int>, gs: Seq<u16>)
    requires
        gs.len() >= 1,
        0 <= i,
        i + ascii_bytes(join_groups(gs, false, false)).len() <= b.len(),
        b.subrange(i, i + ascii_bytes(join_groups(gs, false, false)).len()) == ascii_bytes(
            join_groups(gs, false, false),
        ),
        i + ascii_bytes(join_groups(gs, false, false)).len() == b.len() ==> g.len() + gs.len()
            <= 8,
        i + ascii_bytes(join_groups(gs, false, false)).len() < b.len() ==> {
            &&& b[i + ascii_bytes(join_groups(gs, false, false)).len()] == COLON
            &&& i + ascii_bytes(join_groups(gs, false, false)).len() + 1 < b.len()
            &&& g.len() + gs.len() <= 7
        },
    ensures
        i + ascii_bytes(join_groups(gs, false, false)).len() == b.len() ==> scan_groups(
            b,
            i,
            g,
            ell,
        ) == Some((b.len() as int, g + gs, ell)),
        i + ascii_bytes(join_groups(gs, false, false)).len() < b.len() ==> scan_groups(
            b,
            i,
            g,
            ell,
        ) == scan_groups(b, i + ascii_bytes(join_groups(gs, false, false)).len() + 1, g + gs, ell),
    decreases gs.len(),
{
    let jt = join_groups(gs, false, false);
    let j = ascii_bytes(jt);
    let p = i + j.len();
    let t = ascii_bytes(group_text(gs[0], false, false));
    let n = t.len() as int;
    lemma_group_text_bytes(gs[0]);
    if gs.len() == 1 {
        assert(jt == group_text(gs[0], false, false));
    } else {
        lemma_join_front(gs, false, false);
        lemma_ascii_bytes_concat(group_text(gs[0], false, false) + seq![':'], join_groups(gs.drop_first(), false, false));
        lemma_ascii_bytes_concat(group_text(gs[0], false, false), seq![':']);
        lemma_join_len(gs.drop_first());
        assert(ascii_bytes(seq![':']) =~= seq![COLON]);
        assert(j[n] == COLON);
    }
    assert(forall|k: int| 0 <= k < n ==> b[i + k] == #[trigger] t[k]) by {
        assert forall|k: int| 0 <= k < n implies b[i + k] == #[trigger] t[k] by {
            assert(b.subrange(i, p)[k] == j[k]);
        }
    }
    assert(b.subrange(i, i + n) =~= t);
    assert(i + n == b.len() || b[i + n] == COLON) by {
        if i + n < b.len() {
            if gs.len() == 1 {
                assert(i + n == p);
            } else {
                assert(b.subrange(i, p)[n] == j[n]);
            }
        }
    }
    assert forall|k: int| 0 <= k < n implies is_hex_byte(#[trigger] b[i + k]) by {
        assert(is_hex_byte(t[k]));
    }
    if n >= 1 { assert(is_hex_byte(b[i + 0])); }
    if n >= 2 { assert(is_hex_byte(b[i + 1])); }
    if n >= 3 { assert(is_hex_byte(b[i + 2])); }
    if n >= 4 { assert(is_hex_byte(b[i + 3])); }
    assert(hex_run_len(b, i) == n);
    let g2 = g.push(gs[0]);
    assert(g2 + gs.drop_first() =~= g + gs);
    if gs.len() == 1 {
        assert(gs.drop_first() =~= Seq::<u16>::empty());
        assert(g2 =~= g + gs);
    } else {
        let rest = gs.drop_first();
        let jr = ascii_bytes(join_groups(rest, false, false));
        assert(j =~= t + seq![COLON] + jr);
        assert forall|k: int| 0 <= k < jr.len() implies b.subrange(i + n + 1, i + n + 1 + jr.len())[k] == jr[k] by {
            assert(b.subrange(i, p)[n + 1 + k] == j[n + 1 + k]);
        }
        assert(b.subrange(i + n + 1, i + n + 1 + jr.len()) =~= jr);
        lemma_scan_join(b, i + n + 1, g2, ell, rest);
    }
}

proof fn lemma_join_first_byte(gs: Seq<u16>)
    requires
        gs.len() >= 1,
    ensures
        ascii_bytes(join_groups(gs, false, false)).len() >= 1,
        is_hex_byte(ascii_bytes(join_groups(gs, false, false))[0]),
{
    lemma_group_text_bytes(gs[0]);
    let t = group_text(gs[0], false, false);
    assert(is_hex_byte(ascii_bytes(t)[0]));
    if gs.len() >= 2 {
        lemma_join_front(gs, false, false);
        assert(join_groups(gs, false, false)[0] == t[0]);
    }
}

/// The bytes of eight groups with the zero run `[s, e)` elided.
pub open spec fn elided_bytes(h: Seq<u16>, s: int, e: int) -> Seq<u8> {
    ascii_bytes(join_groups(h.subrange(0, s), false, false)) + seq![COLON, COLON] + ascii_bytes(
        join_groups(h.subrange(e, 8), false, false),
    )
}

proof fn lemma_elided_text_bytes(h: Seq<u16>, s: int, e: int)
    requires
        h.len() == 8,
        0 <= s <= e <= 8,
    ensures
        ascii_bytes(
            join_groups(h.subrange(0, s), false, false) + seq![':', ':'] + join_groups(
                h.subrange(e, 8),
                false,
                false,
            ),
        ) == elided_bytes(h, s, e),
{
    let tl = join_groups(h.subrange(0, s), false, false);
    let tr = join_groups(h.subrange(e, 8), false, false);
    lemma_ascii_bytes_concat(tl + seq![':', ':'], tr);
    lemma_ascii_bytes_concat(tl, seq![':', ':']);
    assert(ascii_bytes(seq![':', ':']) =~= seq![COLON, COLON]);
}

#[verifier::rlimit(50)]
proof fn lemma_parse_elided_front(h: Seq<u16>, e: int)
    requires
        h.len() == 8,
        zero_range(h, 0, e),
        2 <= e,
    ensures
        parse_ipv6_spec(elided_bytes(h, 0, e)) == Some(groups_value(h) as u128),
{
    let b = elided_bytes(h, 0, e);
    let left = h.subrange(0, 0);
    let right = h.subrange(e, 8);
    let jr = ascii_bytes(join_groups(right, false, false));
    lemma_join_len(left);
    lemma_join_len(right);
    assert(b =~= seq![COLON, COLON] + jr);
    assert(h =~= zeros(e as nat) + right);
    assert(b[0] == COLON && b[1] == COLON);
    if e == 8 {
        assert(b.len() == 2);
        assert(scan_groups(b, 2, Seq::empty(), Some(0)) == Some(
            (2int, Seq::<u16>::empty(), Some(0int)),
        ));
        assert(expand_groups(Seq::<u16>::empty(), Some(0)) =~= h);
    } else {
        assert(b.subrange(2, 2 + jr.len() as int) =~= jr);
        lemma_scan_join(b, 2, Seq::empty(), Some(0), right);
        assert(Seq::<u16>::empty() + right =~= right);
        assert(expand_groups(right, Some(0)) =~= h);
    }
}

#[verifier::rlimit(50)]
proof fn lemma_parse_elided_inner(h: Seq<u16>, s: int, e: int)
    requires
        h.len() == 8,
        zero_range(h, s, e),
        e - s >= 2,
        s > 0,
    ensures
        parse_ipv6_spec(elided_bytes(h, s, e)) == Some(groups_value(h) as u128),
{
    let b = elided_bytes(h, s, e);
    let left = h.subrange(0, s);
    let right = h.subrange(e, 8);
    let jl = ascii_bytes(join_groups(left, false, false));
    let jr = ascii_bytes(join_groups(right, false, false));
    lemma_join_len(left);
    lemma_join_len(right);
    assert(h =~= left + zeros((e - s) as nat) + right);
    lemma_join_first_byte(left);
    assert(b[0] == jl[0]);
    assert(b.subrange(0, jl.len() as int) =~= jl);
    let p = jl.len() as int;
    assert(b[p] == COLON && b[p + 1] == COLON);
    lemma_scan_join(b, 0, Seq::empty(), None, left);
    assert(Seq::<u16>::empty() + left =~= left);
    assert(hex_run_len(b, p + 1) == 0);
    assert(scan_groups(b, p + 1, left, None) == scan_groups(b, p + 2, left, Some(s)));
    if e == 8 {
        assert(b.len() == p + 2);
        assert(expand_groups(left, Some(s)) =~= h);
    } else {
        assert(b.subrange(p + 2, p + 2 + jr.len() as int) =~= jr);
        lemma_scan_join(b, p + 2, left, Some(s), right);
        assert((left + right).subrange(0, s) =~= left);
        assert((left + right).subrange(s, (left + right).len() as int) =~= right);
        assert(expand_groups(left + right, Some(s)) =~= h);
    }
}

/// The text of eight groups with the zero run `[s, e)` elided parses back to those groups.
proof fn lemma_parse_elided(h: Seq<u16>, s: int, e: int)
    requires
        h.len() == 8,
        zero_range(h, s, e),
        e - s >= 2,
    ensures
        parse_ipv6_spec(
            ascii_bytes(
                join_groups(h.subrange(0, s), false, false) + seq![':', ':'] + join_groups(
                    h.subrange(e, 8),
                    false,
                    false,
                ),
            ),
        ) == Some(groups_value(h) as u128),
{
    lemma_elided_text_bytes(h, s, e);
    if s == 0 {
        lemma_parse_elided_front(h, e);
    } else {
        lemma_parse_elided_inner(h, s, e);
    }
}

/// The text of eight groups, none elided, parses back to those groups.
proof fn lemma_parse_full(h: Seq<u16>)
    requires
        h.len() == 8,
    ensures
        parse_ipv6_spec(ascii_bytes(join_groups(h, false, false))) == Some(groups_value(h) as u128),
{
    let b = ascii_bytes(join_groups(h, false, false));
    lemma_join_len(h);
    lemma_join_first_byte(h);
    assert(b.subrange(0, b.len() as int) =~= b);
    lemma_scan_join(b, 0, Seq::empty(), None, h);
    assert(Seq::<u16>::empty() + h =~= h);
}

/// Parsing the canonical text of any 128-bit value gives that value back.
pub proof fn lemma_parse_format_round_trip(v: u128)
    ensures
        parse_ipv6_spec(ascii_bytes(format_canonical(v))) == Some(v),
{
    let h = hextets_of(v);
    lemma_hextets_round_trip(v);
    if exists|s: int, e: int| is_longest_zero_run(h, s, e) {
        let (s, e) = choose|s: int, e: int| is_longest_zero_run(h, s, e);
        lemma_parse_elided(h, s, e);
    } else {
        lemma_parse_full(h);
    }
}

proof fn lemma_join_ascii(gs: Seq<u16>, lead: bool, upper: bool)
    ensures
        is_ascii_chars(join_groups(gs, lead, upper)),
    decreases gs.len(),
{
    if gs.len() >= 1 {
        let t = group_text(gs.last(), lead, upper);
        assert(is_ascii_chars(t));
        if gs.len() >= 2 {
            lemma_join_ascii(gs.drop_last(), lead, upper);
        }
    }
}

/// The text of any formatter setting is ASCII, so its bytes are its characters.
pub proof fn lemma_format_bytes(h: Seq<u16>, elide: bool, lead: bool, upper: bool)
    ensures
        encode_utf8(format_groups(h, elide, lead, upper)) == ascii_bytes(
            format_groups(h, elide, lead, upper),
        ),
{
    let t = format_groups(h, elide, lead, upper);
    if elide && exists|s: int, e: int| is_longest_zero_run(h, s, e) {
        let (s, e) = choose|s: int, e: int| is_longest_zero_run(h, s, e);
        lemma_join_ascii(h.subrange(0, s), lead, upper);
        lemma_join_ascii(h.subrange(e, h.len() as int), lead, upper);
        let tl = join_groups(h.subrange(0, s), lead, upper);
        let tr = join_groups(h.subrange(e, h.len() as int), lead, upper);
        assert forall|i: int| 0 <= i < t.len() implies '\0' <= #[trigger] t[i] <= '\u{7f}' by {
            if i < tl.len() {
                assert(t[i] == tl[i]);
            } else if i >= tl.len() + 2 {
                assert(t[i] == tr[i - tl.len() - 2]);
            }
        }
    } else {
        lemma_join_ascii(h, lead, upper);
    }
    is_ascii_chars_encode_utf8(t);
    assert(encode_utf8(t) =~= ascii_bytes(t));
}

/// Round trip: parsing the canonical text of any 128-bit value gives that value back.
pub proof fn lemma_round_trip(v: u128)
    ensures
        parse_ipv6_spec(encode_utf8(format_canonical(v))) == Some(v),
{
    lemma_format_bytes(hextets_of(v), true, false, false);
    lemma_parse_format_round_trip(v);
}

/// Canonical uniqueness: no two values have the same canonical text, so the canonical text of `w`
/// parses to `v` only where it is the canonical text of `v`.
pub proof fn lemma_canonical_unique(v: u128, w: u128)
    ensures
        format_canonical(v) == format_canonical(w) <==> v == w,
        parse_ipv6_spec(encode_utf8(format_canonical(w))) == Some(v) ==> format_canonical(w)
            == format_canonical(v),
{
    lemma_round_trip(v);
    lemma_round_trip(w);
}

/// Idempotence: formatting what the canonical text parses to gives the same text again.
pub proof fn lemma_format_idempotent(v: u128)
    ensures
        parse_ipv6_spec(encode_utf8(format_canonical(v))) is Some,
        format_canonical(parse_ipv6_spec(encode_utf8(format_canonical(v)))->Some_0)
            == format_canonical(v),
{
    lemma_round_trip(v);
}

/// Tie-break: of two zero runs of the longest length, the text elides the leftmost.
pub proof fn lemma_leftmost_run_elided(h: Seq<u16>, s: int, e: int, s2: int, e2: int)
    requires
        is_longest_zero_run(h, s, e),
        zero_range(h, s2, e2),
        e2 - s2 == e - s,
    ensures
        s <= s2,
{
    if s2 < s {
        assert(zero_range(h, s2, s2 + (e - s)));
    }
}

/// A lower-case hexadecimal letter in upper case; any other character unchanged.
pub open spec fn upper_char(c: char) -> char {
    if c == 'a' { 'A' } else if c == 'b' { 'B' } else if c == 'c' { 'C' }
    else if c == 'd' { 'D' } else if c == 'e' { 'E' } else if c == 'f' { 'F' } else { c }
}

/// The text with its lower-case hexadecimal letters in upper case.
pub open spec fn upper_text(t: Seq<char>) -> Seq<char> {
    t.map_values(|c: char| upper_char(c))
}

proof fn lemma_upper_text_concat(a: Seq<char>, b: Seq<char>)
    ensures
        upper_text(a + b) == upper_text(a) + upper_text(b),
{
    assert(upper_text(a + b) =~= upper_text(a) + upper_text(b));
}

proof fn lemma_group_text_upper(v: u16, lead: bool)
    ensures
        group_text(v, lead, true) == upper_text(group_text(v, lead, false)),
{
    assert(group_text(v, lead, true) =~= upper_text(group_text(v, lead, false)));
}

proof fn lemma_join_upper(h: Seq<u16>, lead: bool)
    ensures
        join_groups(h, lead, true) == upper_text(join_groups(h, lead, false)),
    decreases h.len(),
{
    if h.len() == 1 {
        lemma_group_text_upper(h[0], lead);
    } else if h.len() >= 2 {
        lemma_join_upper(h.drop_last(), lead);
        lemma_group_text_upper(h.last(), lead);
        let a = join_groups(h.drop_last(), lead, false);
        let g = group_text(h.last(), lead, false);
        lemma_upper_text_concat(a + seq![':'], g);
        lemma_upper_text_concat(a, seq![':']);
        assert(upper_text(seq![':']) =~= seq![':']);
    } else {
        assert(upper_text(Seq::<char>::empty()) =~= Seq::<char>::empty());
    }
}

/// Upper case changes letters only: with it, the text is the lower-case text with its hexadecimal
/// letters in upper case, the same groups and the same elision.
pub proof fn lemma_upper_case_changes_letters_only(h: Seq<u16>, elide: bool, lead: bool)
    ensures
        format_groups(h, elide, lead, true) == upper_text(format_groups(h, elide, lead, false)),
{
    if elide && exists|s: int, e: int| is_longest_zero_run(h, s, e) {
        let (s, e) = choose|s: int, e: int| is_longest_zero_run(h, s, e);
        let l = h.subrange(0, s);
        let r = h.subrange(e, h.len() as int);
        lemma_join_upper(l, lead);
        lemma_join_upper(r, lead);
        let tl = join_groups(l, lead, false);
        let tr = join_groups(r, lead, false);
        lemma_upper_text_concat(tl + seq![':', ':'], tr);
        lemma_upper_text_concat(tl, seq![':', ':']);
        assert(upper_text(seq![':', ':']) =~= seq![':', ':']);
    } else {
        lemma_join_upper(h, lead);
    }
}

} // verus!
