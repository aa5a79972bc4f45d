//! Configurable rendering of a 128-bit address as text. By default the rendering is the canonical
//! one: lower case, no leading zeros, and the longest run of two or more zero groups (the leftmost
//! of equal ones) replaced by `::`.
use vstd::prelude::*;
use crate::text::push_char;

verus! {

/// A zero-valued stretch `[s, e)` of the groups.
pub open spec fn zero_range(h: Seq<u16>, s: int, e: int) -> bool {
    0 <= s <= e <= h.len() && forall|k: int| s <= k < e ==> h[k] == 0
}

/// `[s, e)` is the run of zero groups that the text elides: at least two groups long, no zero
/// stretch is longer, and none as long starts earlier.
pub open spec fn is_longest_zero_run(h: Seq<u16>, s: int, e: int) -> bool {
    &&& zero_range(h, s, e)
    &&& e - s >= 2
    &&& forall|s2: int, e2: int| #[trigger] zero_range(h, s2, e2) ==> e2 - s2 <= e - s
    &&& forall|s2: int| 0 <= s2 < s ==> !#[trigger] zero_range(h, s2, s2 + (e - s))
}

/// The character of the hexadecimal digit `d`.
pub open spec fn hex_char(d: int, upper: bool) -> char {
    if d == 0 { '0' } else if d == 1 { '1' } else if d == 2 { '2' } else if d == 3 { '3' }
    else if d == 4 { '4' } else if d == 5 { '5' } else if d == 6 { '6' } else if d == 7 { '7' }
    else if d == 8 { '8' } else if d == 9 { '9' }
    else if d == 10 { if upper { 'A' } else { 'a' } }
    else if d == 11 { if upper { 'B' } else { 'b' } }
    else if d == 12 { if upper { 'C' } else { 'c' } }
    else if d == 13 { if upper { 'D' } else { 'd' } }
    else if d == 14 { if upper { 'E' } else { 'e' } }
    else { if upper { 'F' } else { 'f' } }
}

/// A group in hexadecimal: four digits with `lead`, else as few as its value needs (one at least).
pub open spec fn group_text(v: u16, lead: bool, upper: bool) -> Seq<char> {
    let d3 = hex_char(v as int / 4096, upper);
    let d2 = hex_char(v as int / 256 % 16, upper);
    let d1 = hex_char(v as int / 16 % 16, upper);
    let d0 = hex_char(v as int % 16, upper);
    if lead || v >= 4096 {
        seq![d3, d2, d1, d0]
    } else if v >= 256 {
        seq![d2, d1, d0]
    } else if v >= 16 {
        seq![d1, d0]
    } else {
        seq![d0]
    }
}

/// The groups in hexadecimal, separated by colons.
pub open spec fn join_groups(h: Seq<u16>, lead: bool, upper: bool) -> Seq<char>
    decreases h.len(),
{
    if h.len() == 0 {
        Seq::empty()
    } else if h.len() == 1 {
        group_text(h[0], lead, upper)
    } else {
        join_groups(h.drop_last(), lead, upper) + seq![':'] + group_text(h.last(), lead, upper)
    }
}

/// The text of the groups `h`: with `elide`, the longest zero run, if any, is replaced by `::`.
pub open spec fn format_groups(h: Seq<u16>, elide: bool, lead: bool, upper: bool) -> Seq<char> {
    if elide && exists|s: int, e: int| is_longest_zero_run(h, s, e) {
        let (s, e) = choose|s: int, e: int| is_longest_zero_run(h, s, e);
        join_groups(h.subrange(0, s), lead, upper) + seq![':', ':'] + join_groups(
            h.subrange(e, h.len() as int),
            lead,
            upper,
        )
    } else {
        join_groups(h, lead, upper)
    }
}

/// There is at most one longest zero run.
pub proof fn lemma_longest_zero_run_unique(h: Seq<u16>, s: int, e: int, s2: int, e2: int)
    requires
        is_longest_zero_run(h, s, e),
        is_longest_zero_run(h, s2, e2),
    ensures
        s == s2 && e == e2,
{
    assert(zero_range(h, s, e));
    assert(zero_range(h, s2, e2));
    if s < s2 {
        assert(zero_range(h, s, s + (e2 - s2)));
    } else if s2 < s {
        assert(zero_range(h, s2, s2 + (e - s)));
    }
}

/// Configurable formatter of a 128-bit address, obtained from `Ipv6Address::formatter`. Its
/// output goes to a `String`, which cannot refuse a write.
#[derive(Copy, Clone, Debug)]
pub struct Ipv6Formatter {
    pub ellipsis: bool,
    pub leading_zeros: bool,
    pub upper_case: bool,
    pub hextets: [u16; 8],
}

impl Ipv6Formatter {
    /// The text that this formatter writes.
    pub open spec fn text(&self) -> Seq<char> {
        format_groups(self.hextets@, self.ellipsis, self.leading_zeros, self.upper_case)
    }

    /// A formatter of the given groups with the canonical settings.
    pub(crate) fn new(hextets: [u16; 8]) -> (r: Self)
        ensures
            r.hextets == hextets,
            r.ellipsis,
            !r.leading_zeros,
            !r.upper_case,
    {
        Ipv6Formatter { ellipsis: true, leading_zeros: false, upper_case: false, hextets }
    }

    /// The canonical settings (this is the default): elision, no leading zeros, lower case.
    pub fn rfc_5952(self) -> (r: Self)
        ensures
            r.hextets == self.hextets,
            r.ellipsis,
            !r.leading_zeros,
            !r.upper_case,
    {
        self.ellipsis(true).leading_zeros(false).upper_case(false)
    }

    /// The fully expanded form: no elision, and four digits to each group.
    pub fn expanded(self) -> (r: Self)
        ensures
            r.hextets == self.hextets,
            !r.ellipsis,
            r.leading_zeros,
            r.upper_case == self.upper_case,
    {
        self.ellipsis(false).leading_zeros(true)
    }

    /// Sets whether the longest run of zero groups is replaced by `::`.
    pub fn ellipsis(self, flag: bool) -> (r: Self)
        ensures
            r == (Ipv6Formatter { ellipsis: flag, ..self }),
    {
        let mut f = self;
        f.ellipsis = flag;
        f
    }

    /// Sets whether each group is written with four digits.
    pub fn leading_zeros(self, flag: bool) -> (r: Self)
        ensures
            r == (Ipv6Formatter { leading_zeros: flag, ..self }),
    {
        let mut f = self;
        f.leading_zeros = flag;
        f
    }

    /// Sets whether letter digits are upper case.
    pub fn upper_case(self, flag: bool) -> (r: Self)
        ensures
            r == (Ipv6Formatter { upper_case: flag, ..self }),
    {
        let mut f = self;
        f.upper_case = flag;
        f
    }

    /// The longest run of two or more zero groups, the leftmost of equal ones, as its first and last
    /// index; `None` where no two adjacent groups are zero.
    fn longest_zero_sequence(&self) -> (r: Option<(usize, usize)>)
        ensures
            match r {
                Some((s, e)) => is_longest_zero_run(self.hextets@, s as int, e + 1),
                None => forall|s: int, e: int| !is_longest_zero_run(self.hextets@, s, e),
            },
    {
        let ghost h = self.hextets@;
        let mut best_start: usize = 0;
        let mut best_len: usize = 0;
        let mut run_start: usize = 0;
        let mut i: usize = 0;
        while i <= 8
            invariant
                h == self.hextets@,
                h.len() == 8,
                run_start <= i <= 9,
                run_start <= 8,
                i <= 8 ==> zero_range(h, run_start as int, i as int),
                i <= 8 ==> (run_start == 0 || h[run_start - 1] != 0),
                best_len == 0 || best_len >= 2,
                best_len >= 2 ==> best_start + best_len <= run_start,
                best_len >= 2 ==> zero_range(h, best_start as int, best_start + best_len),
                forall|s2: int, e2: int|
                    #[trigger] zero_range(h, s2, e2) && e2 <= run_start ==> e2 - s2 <= best_len
                        || e2 - s2 <= 1,
                best_len >= 2 ==> forall|s2: int|
                    0 <= s2 < best_start ==> !#[trigger] zero_range(h, s2, s2 + best_len),
                i == 9 ==> forall|s2: int, e2: int|
                    #[trigger] zero_range(h, s2, e2) ==> e2 - s2 <= best_len || e2 - s2 <= 1,
            decreases 9 - i,
        {
            if i < 8 && self.hextets[i] == 0 {
                i = i + 1;
            } else {
                let len = i - run_start;
                let ghost old_len = best_len;
                let ghost old_start = best_start;
                if len >= 2 && len > best_len {
                    best_start = run_start;
                    best_len = len;
                    assert forall|s2: int| 0 <= s2 < best_start implies !#[trigger] zero_range(
                        h,
                        s2,
                        s2 + best_len,
                    ) by {
                        if zero_range(h, s2, s2 + best_len) {
                            if s2 + best_len <= run_start {
                                assert(zero_range(h, s2, s2 + best_len) && s2 + best_len <= run_start);
                            } else {
                                assert(h[run_start - 1] == 0);
                            }
                        }
                    }
                }
                assert forall|s2: int, e2: int| #[trigger]
                    zero_range(h, s2, e2) && e2 <= i + 1 implies e2 - s2 <= best_len || e2 - s2
                    <= 1 by {
                    if e2 > s2 && e2 == i + 1 && i < 8 {
                        assert(h[i as int] == 0);
                    }
                    if s2 < run_start && run_start < e2 {
                        assert(h[run_start - 1] == 0);
                    }
                    if s2 >= run_start && e2 <= i {
                        assert(e2 - s2 <= len);
                    }
                }
                i = i + 1;
                run_start = if i <= 8 { i } else { 8 };
            }
        }
        if best_len >= 2 {
            Some((best_start, best_start + best_len - 1))
        } else {
            assert forall|s: int, e: int| !is_longest_zero_run(h, s, e) by {
                if is_longest_zero_run(h, s, e) {
                    assert(zero_range(h, s, e));
                }
            }
            None
        }
    }

    /// Writes one group.
    fn write_hextet(&self, out: &mut String, hextet: u16)
        ensures
            final(out)@ == old(out)@ + group_text(hextet, self.leading_zeros, self.upper_case),
    {
        let upper = self.upper_case;
        if self.leading_zeros || hextet >= 4096 {
            push_char(out, hex_digit(hextet / 4096, upper));
        }
        if self.leading_zeros || hextet >= 256 {
            push_char(out, hex_digit(hextet / 256 % 16, upper));
        }
        if self.leading_zeros || hextet >= 16 {
            push_char(out, hex_digit(hextet / 16 % 16, upper));
        }
        push_char(out, hex_digit(hextet % 16, upper));
        assert(out@ =~= old(out)@ + group_text(hextet, self.leading_zeros, self.upper_case));
    }

    /// Writes the groups from `from` to before `to`, separated by colons.
    fn write_hextets(&self, out: &mut String, from: usize, to: usize)
        requires
            from <= to <= 8,
        ensures
            final(out)@ == old(out)@ + join_groups(
                self.hextets@.subrange(from as int, to as int),
                self.leading_zeros,
                self.upper_case,
            ),
    {
        let mut i: usize = from;
        assert(self.hextets@.subrange(from as int, from as int) =~= Seq::<u16>::empty());
        while i < to
            invariant
                from <= i <= to <= 8,
                out@ == old(out)@ + join_groups(
                    self.hextets@.subrange(from as int, i as int),
                    self.leading_zeros,
                    self.upper_case,
                ),
            decreases to - i,
        {
            let ghost pre = self.hextets@.subrange(from as int, i as int);
            let ghost next = self.hextets@.subrange(from as int, i + 1);
            assert(next.drop_last() =~= pre);
            if i > from {
                push_char(out, ':');
            }
            self.write_hextet(out, self.hextets[i]);
            assert(out@ =~= old(out)@ + join_groups(next, self.leading_zeros, self.upper_case));
            i = i + 1;
        }
    }

    /// Appends the text of the address, with the current settings, to `out`.
    pub fn write(&self, out: &mut String)
        ensures
            final(out)@ == old(out)@ + self.text(),
    {
        let ghost h = self.hextets@;
        if !self.ellipsis {
            self.write_hextets(out, 0, 8);
            assert(h.subrange(0, 8) == h);
        } else {
            match self.longest_zero_sequence() {
                Some((start, end)) => {
                    self.write_hextets(out, 0, start);
                    push_char(out, ':');
                    push_char(out, ':');
                    self.write_hextets(out, end + 1, 8);
                    proof {
                        let (s, e) = choose|s: int, e: int| is_longest_zero_run(h, s, e);
                        lemma_longest_zero_run_unique(h, s, e, start as int, end + 1);
                    }
                    assert(out@ =~= old(out)@ + self.text());
                },
                None => {
                    self.write_hextets(out, 0, 8);
                    assert(h.subrange(0, 8) == h);
                },
            }
        }
    }
}

/// The character of the hexadecimal digit `d`.
fn hex_digit(d: u16, upper: bool) -> (c: char)
    requires
        d < 16,
    ensures
        c == hex_char(d as int, upper),
{
    match d {
        0 => '0',
        1 => '1',
        2 => '2',
        3 => '3',
        4 => '4',
        5 => '5',
        6 => '6',
        7 => '7',
        8 => '8',
        9 => '9',
        10 => if upper { 'A' } else { 'a' },
        11 => if upper { 'B' } else { 'b' },
        12 => if upper { 'C' } else { 'c' },
        13 => if upper { 'D' } else { 'd' },
        14 => if upper { 'E' } else { 'e' },
        _ => if upper { 'F' } else { 'f' },
    }
}

} // verus!
