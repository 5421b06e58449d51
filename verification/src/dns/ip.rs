//! IP addresses in text form, and the names under which their PTR records
//! are queried.

use crate::text::{
    chars_of, decimal, decimal_string, digit_char, digit_of, join, lemma_join_avoids,
    lemma_join_of_split, lemma_split_of_join, split, split_chars, string_of, views_of,
};
use crate::error::{ErrorView, ReverDNSError};
use vstd::prelude::*;
use vstd::string::StringExecFns;

verus! {

/// The value of an ASCII decimal digit, or -1 for any other character.
pub open spec fn dec_value(c: char) -> int {
    let u = c as u32;
    if 48 <= u <= 57 {
        u - 48
    } else {
        -1
    }
}

/// The value of an ASCII hexadecimal digit of either case, or -1.
pub open spec fn hex_value(c: char) -> int {
    let u = c as u32;
    if 48 <= u <= 57 {
        u - 48
    } else if 65 <= u <= 70 {
        u - 55
    } else if 97 <= u <= 102 {
        u - 87
    } else {
        -1
    }
}

/// The number that a run of decimal digits denotes.
pub open spec fn decimal_number(t: Seq<char>) -> int
    decreases t.len(),
{
    if t.len() == 0 {
        0
    } else {
        decimal_number(t.drop_last()) * 10 + dec_value(t.last())
    }
}

/// The number that a run of hexadecimal digits denotes.
pub open spec fn hex_number(t: Seq<char>) -> int
    decreases t.len(),
{
    if t.len() == 0 {
        0
    } else {
        hex_number(t.drop_last()) * 16 + hex_value(t.last())
    }
}

/// One octet of a dotted IPv4 text: one to three decimal digits, no leading
/// zero before another digit, at most 255.
pub open spec fn is_decimal_octet(t: Seq<char>) -> bool {
    &&& 1 <= t.len() <= 3
    &&& forall|i: int| 0 <= i < t.len() ==> dec_value(#[trigger] t[i]) >= 0
    &&& (t.len() > 1 ==> t[0] != '0')
    &&& decimal_number(t) <= 255
}

/// One group of an IPv6 text: one to four hexadecimal digits.
pub open spec fn is_hex_group(t: Seq<char>) -> bool {
    &&& 1 <= t.len() <= 4
    &&& forall|i: int| 0 <= i < t.len() ==> hex_value(#[trigger] t[i]) >= 0
}

/// Dotted-quad IPv4 text: exactly four decimal octets between dots.
pub open spec fn is_ipv4_text(s: Seq<char>) -> bool {
    let p = split(s, '.');
    &&& p.len() == 4
    &&& forall|i: int| 0 <= i < 4 ==> is_decimal_octet(#[trigger] p[i])
}

/// The four octets that a dotted-quad text denotes.
pub open spec fn ipv4_octets(s: Seq<char>) -> Seq<u8> {
    let p = split(s, '.');
    Seq::new(4, |i: int| decimal_number(p[i]) as u8)
}

/// Every piece is a hexadecimal group.
pub open spec fn all_hex(run: Seq<Seq<char>>) -> bool {
    forall|i: int| 0 <= i < run.len() ==> is_hex_group(#[trigger] run[i])
}

/// The run ends in an embedded dotted-quad, where one is allowed.
pub open spec fn ends_in_v4(run: Seq<Seq<char>>, allow_v4: bool) -> bool {
    allow_v4 && run.len() > 0 && is_ipv4_text(run.last())
}

/// The pieces form a run of groups: hexadecimal groups, the last of which
/// may be an embedded dotted-quad where `allow_v4` holds.
pub open spec fn is_group_run(run: Seq<Seq<char>>, allow_v4: bool) -> bool {
    if ends_in_v4(run, allow_v4) {
        all_hex(run.drop_last())
    } else {
        all_hex(run)
    }
}

/// How many 16-bit groups a run stands for: an embedded dotted-quad counts
/// as two.
pub open spec fn run_width(run: Seq<Seq<char>>, allow_v4: bool) -> nat {
    if ends_in_v4(run, allow_v4) {
        run.len() + 1
    } else {
        run.len()
    }
}

/// The values of a run of hexadecimal groups.
pub open spec fn hex_values(run: Seq<Seq<char>>) -> Seq<u16> {
    Seq::new(run.len(), |i: int| hex_number(run[i]) as u16)
}

/// The two 16-bit groups of an embedded dotted-quad.
pub open spec fn v4_groups(t: Seq<char>) -> Seq<u16> {
    let o = ipv4_octets(t);
    seq![(o[0] as int * 256 + o[1] as int) as u16, (o[2] as int * 256 + o[3] as int) as u16]
}

/// The 16-bit groups that a run stands for.
pub open spec fn run_groups(run: Seq<Seq<char>>, allow_v4: bool) -> Seq<u16> {
    if ends_in_v4(run, allow_v4) {
        hex_values(run.drop_last()) + v4_groups(run.last())
    } else {
        hex_values(run)
    }
}

/// `n` zero groups.
pub open spec fn zero_groups(n: int) -> Seq<u16> {
    Seq::new(
        if n >= 0 {
            n as nat
        } else {
            0
        },
        |i: int| 0u16,
    )
}

/// The shape of an IPv6 text: the groups before a `::`, whether there is a
/// `::`, and the groups after it. Without a `::` all groups are in `head`.
pub struct Ipv6Form {
    pub head: Seq<Seq<char>>,
    pub gap: bool,
    pub tail: Seq<Seq<char>>,
}

impl Ipv6Form {
    /// The shape is that of an address: eight groups when written in full,
    /// at most seven around a `::`, and an embedded dotted-quad only at the
    /// very end.
    pub open spec fn wf(self) -> bool {
        if self.gap {
            &&& all_hex(self.head)
            &&& is_group_run(self.tail, true)
            &&& self.head.len() + run_width(self.tail, true) <= 7
        } else {
            &&& self.tail.len() == 0
            &&& is_group_run(self.head, true)
            &&& run_width(self.head, true) == 8
        }
    }

    /// The pieces between colons of the text with this shape. A `::` at
    /// either end leaves an empty piece beside the one that marks the gap.
    pub open spec fn pieces(self) -> Seq<Seq<char>> {
        if self.gap {
            let lead = if self.head.len() == 0 {
                seq![Seq::<char>::empty()]
            } else {
                self.head
            };
            let trail = if self.tail.len() == 0 {
                seq![Seq::<char>::empty()]
            } else {
                self.tail
            };
            lead + seq![Seq::<char>::empty()] + trail
        } else {
            self.head
        }
    }

    /// The eight groups of the address: a `::` stands for the zero groups
    /// that are missing.
    pub open spec fn groups(self) -> Seq<u16> {
        if self.gap {
            hex_values(self.head) + zero_groups(
                8 - self.head.len() - run_width(self.tail, true),
            ) + run_groups(self.tail, true)
        } else {
            run_groups(self.head, true)
        }
    }
}

/// IPv6 text: the pieces between its colons are those of a well-formed shape.
pub open spec fn is_ipv6_text(s: Seq<char>) -> bool {
    exists|f: Ipv6Form| f.wf() && f.pieces() == split(s, ':')
}

/// The shape of an IPv6 text.
pub open spec fn ipv6_form(s: Seq<char>) -> Ipv6Form {
    choose|f: Ipv6Form| f.wf() && f.pieces() == split(s, ':')
}

/// The eight groups that an IPv6 text denotes.
pub open spec fn ipv6_groups(s: Seq<char>) -> Seq<u16> {
    ipv6_form(s).groups()
}

/// The text is an IPv4 or an IPv6 address.
pub open spec fn is_ip_text(s: Seq<char>) -> bool {
    is_ipv4_text(s) || is_ipv6_text(s)
}

/// An IP address: four octets, or eight 16-bit groups.
#[derive(Debug, Clone, Copy, PartialEq, Eq)]
pub enum IpAddress {
    V4([u8; 4]),
    V6([u16; 8]),
}

/// The address that a text denotes; IPv4 is tried first.
pub open spec fn ip_of_text(s: Seq<char>) -> IpAddressView {
    if is_ipv4_text(s) {
        IpAddressView::V4(ipv4_octets(s))
    } else {
        IpAddressView::V6(ipv6_groups(s))
    }
}

/// The mathematical value of an [`IpAddress`].
pub enum IpAddressView {
    V4(Seq<u8>),
    V6(Seq<u16>),
}

impl View for IpAddress {
    type V = IpAddressView;

    open spec fn view(&self) -> IpAddressView {
        match self {
            IpAddress::V4(o) => IpAddressView::V4(o@),
            IpAddress::V6(g) => IpAddressView::V6(g@),
        }
    }
}

/// The lowercase hexadecimal digit for `d` in `0..16`.
pub open spec fn hex_digit_char(d: int) -> char {
    if d < 10 {
        digit_char(d)
    } else if d == 10 {
        'a'
    } else if d == 11 {
        'b'
    } else if d == 12 {
        'c'
    } else if d == 13 {
        'd'
    } else if d == 14 {
        'e'
    } else {
        'f'
    }
}

/// The `k`-th 4-bit nibble of eight groups, counted from the most
/// significant nibble of the first group.
pub open spec fn nibble(groups: Seq<u16>, k: int) -> int {
    let g = groups[k / 4] as int;
    let r = k % 4;
    if r == 0 {
        g / 4096
    } else if r == 1 {
        (g / 256) % 16
    } else if r == 2 {
        (g / 16) % 16
    } else {
        g % 16
    }
}

/// The first `count` labels of the reverse name of an IPv6 address, each
/// followed by a dot: the nibbles of the address, last one first.
pub open spec fn nibble_labels(groups: Seq<u16>, count: nat) -> Seq<char>
    decreases count,
{
    if count == 0 {
        Seq::<char>::empty()
    } else {
        nibble_labels(groups, (count - 1) as nat).push(
            hex_digit_char(nibble(groups, 32 - count)),
        ).push('.')
    }
}

/// The name under which the PTR record of an address is queried: the octets
/// in reverse under `in-addr.arpa`, or the nibbles in reverse under
/// `ip6.arpa`.
pub open spec fn reverse_name(ip: IpAddressView) -> Seq<char> {
    match ip {
        IpAddressView::V4(o) => decimal(o[3] as nat) + "."@ + decimal(o[2] as nat) + "."@
            + decimal(o[1] as nat) + "."@ + decimal(o[0] as nat) + ".in-addr.arpa"@,
        IpAddressView::V6(g) => nibble_labels(g, 32) + "ip6.arpa"@,
    }
}

/// The value of a decimal digit.
fn dec_digit(c: char) -> (r: Option<u8>)
    ensures
        match r {
            Some(d) => d == dec_value(c),
            None => dec_value(c) < 0,
        },
{
    let u: u32 = c as u32;
    if 48 <= u && u <= 57 {
        Some((u - 48) as u8)
    } else {
        None
    }
}

/// The value of a hexadecimal digit.
fn hex_digit(c: char) -> (r: Option<u16>)
    ensures
        match r {
            Some(d) => d == hex_value(c),
            None => hex_value(c) < 0,
        },
{
    let u: u32 = c as u32;
    if 48 <= u && u <= 57 {
        Some((u - 48) as u16)
    } else if 65 <= u && u <= 70 {
        Some((u - 55) as u16)
    } else if 97 <= u && u <= 102 {
        Some((u - 87) as u16)
    } else {
        None
    }
}

/// Reads one octet of a dotted-quad text.
fn parse_octet(t: &Vec<char>) -> (r: Option<u8>)
    ensures
        r is Some <==> is_decimal_octet(t@),
        r is Some ==> r.unwrap() == decimal_number(t@),
{
    let n = t.len();
    if n == 0 || n > 3 {
        return None;
    }
    let mut value: u32 = 0;
    let mut i: usize = 0;
    while i < n
        invariant
            n == t.len(),
            1 <= n <= 3,
            i <= n,
            forall|k: int| 0 <= k < i ==> dec_value(#[trigger] t@[k]) >= 0,
            value == decimal_number(t@.take(i as int)),
            i == 0 ==> value == 0,
            i == 1 ==> value <= 9,
            i == 2 ==> value <= 99,
            i == 3 ==> value <= 999,
        decreases n - i,
    {
        assert(t@.take(i + 1).drop_last() =~= t@.take(i as int));
        match dec_digit(t[i]) {
            None => {
                return None;
            },
            Some(d) => {
                value = value * 10 + d as u32;
            },
        }
        i += 1;
    }
    assert(t@.take(n as int) =~= t@);
    if n > 1 && t[0] == '0' {
        return None;
    }
    if value > 255 {
        return None;
    }
    Some(value as u8)
}

/// Reads one hexadecimal group of an IPv6 text.
fn parse_hex_group(t: &Vec<char>) -> (r: Option<u16>)
    ensures
        r is Some <==> is_hex_group(t@),
        r is Some ==> r.unwrap() == hex_number(t@),
{
    let n = t.len();
    if n == 0 || n > 4 {
        return None;
    }
    let mut value: u32 = 0;
    let mut i: usize = 0;
    while i < n
        invariant
            n == t.len(),
            1 <= n <= 4,
            i <= n,
            forall|k: int| 0 <= k < i ==> hex_value(#[trigger] t@[k]) >= 0,
            value == hex_number(t@.take(i as int)),
            i == 0 ==> value == 0,
            i == 1 ==> value <= 0xf,
            i == 2 ==> value <= 0xff,
            i == 3 ==> value <= 0xfff,
            i == 4 ==> value <= 0xffff,
        decreases n - i,
    {
        assert(t@.take(i + 1).drop_last() =~= t@.take(i as int));
        match hex_digit(t[i]) {
            None => {
                return None;
            },
            Some(d) => {
                value = value * 16 + d as u32;
            },
        }
        i += 1;
    }
    assert(t@.take(n as int) =~= t@);
    Some(value as u16)
}

/// Reads a dotted-quad IPv4 text.
pub fn parse_ipv4(s: &Vec<char>) -> (r: Option<[u8; 4]>)
    ensures
        r is Some <==> is_ipv4_text(s@),
        r is Some ==> r.unwrap()@ == ipv4_octets(s@),
{
    let parts = split_chars(s, '.');
    if parts.len() != 4 {
        return None;
    }
    let ghost p = split(s@, '.');
    let mut octets: [u8; 4] = [0, 0, 0, 0];
    let mut i: usize = 0;
    while i < 4
        invariant
            i <= 4,
            parts.len() == 4,
            views_of(parts@) == p,
            p == split(s@, '.'),
            forall|k: int| 0 <= k < i ==> is_decimal_octet(#[trigger] p[k]),
            forall|k: int| 0 <= k < i ==> octets@[k] == decimal_number(p[k]),
        decreases 4 - i,
    {
        assert(p[i as int] == parts@[i as int]@);
        match parse_octet(&parts[i]) {
            None => {
                return None;
            },
            Some(o) => {
                octets[i] = o;
            },
        }
        i += 1;
    }
    assert(octets@ =~= ipv4_octets(s@));
    Some(octets)
}

/// `g` is the index of the first empty piece, or the number of pieces where
/// none is empty.
pub open spec fn first_gap(p: Seq<Seq<char>>, g: int) -> bool {
    &&& 0 <= g <= p.len()
    &&& forall|i: int| 0 <= i < g ==> (#[trigger] p[i]).len() > 0
    &&& (g < p.len() ==> p[g].len() == 0)
}

/// Where the groups after a `::` start, given the index of the first empty
/// piece: a leading `::` leaves two empty pieces.
pub open spec fn tail_start(g: int) -> int {
    if g == 0 {
        2
    } else {
        g + 1
    }
}

/// The pieces are laid out as those of a shape: with an empty piece there is
/// at least one piece after the gap, and a leading empty piece is followed
/// by the one that marks the gap.
pub open spec fn layout_ok(p: Seq<Seq<char>>, g: int) -> bool {
    g < p.len() ==> {
        &&& p.len() > tail_start(g)
        &&& (g == 0 ==> p[1].len() == 0)
    }
}

/// The only shape whose pieces can be `p`, given the index `g` of the first
/// empty piece.
pub open spec fn form_of_pieces(p: Seq<Seq<char>>, g: int) -> Ipv6Form {
    let n = p.len() as int;
    if g >= n {
        Ipv6Form { head: p, gap: false, tail: Seq::empty() }
    } else {
        let start = tail_start(g);
        Ipv6Form {
            head: p.subrange(0, g),
            gap: true,
            tail: if n == start + 1 && p[start].len() == 0 {
                Seq::empty()
            } else {
                p.subrange(start, n)
            },
        }
    }
}

/// No piece of a run of groups is empty.
pub proof fn lemma_run_pieces_nonempty(run: Seq<Seq<char>>, allow_v4: bool)
    requires
        is_group_run(run, allow_v4),
    ensures
        forall|i: int| 0 <= i < run.len() ==> (#[trigger] run[i]).len() > 0,
{
    assert forall|i: int| 0 <= i < run.len() implies (#[trigger] run[i]).len() > 0 by {
        if ends_in_v4(run, allow_v4) {
            if i == run.len() - 1 {
                if run[i].len() == 0 {
                    assert(run[i] =~= Seq::<char>::empty());
                    assert(split(run[i], '.').len() == 1);
                }
            } else {
                assert(run.drop_last()[i] == run[i]);
                assert(is_hex_group(run.drop_last()[i]));
            }
        } else {
            assert(is_hex_group(run[i]));
        }
    }
}

/// A well-formed shape is determined by its pieces.
pub proof fn lemma_form_from_pieces(f: Ipv6Form, g: int)
    requires
        f.wf(),
        first_gap(f.pieces(), g),
    ensures
        layout_ok(f.pieces(), g),
        form_of_pieces(f.pieces(), g) == f,
{
    let p = f.pieces();
    let n = p.len() as int;
    let e = Seq::<char>::empty();
    if f.gap {
        lemma_run_pieces_nonempty(f.head, false);
        lemma_run_pieces_nonempty(f.tail, true);
        let h = f.head.len() as int;
        if h == 0 {
            let trail = if f.tail.len() == 0 {
                seq![e]
            } else {
                f.tail
            };
            assert(p =~= seq![e] + seq![e] + trail);
            assert(p[0] == e);
            assert(g == 0);
            assert(p[1] == e);
            assert(f.head =~= p.subrange(0, 0));
            if f.tail.len() == 0 {
                assert(n == 3);
                assert(p[2] == e);
            } else {
                assert(p.subrange(2, n) =~= f.tail);
                assert(p[2] == f.tail[0]);
            }
        } else {
            let trail = if f.tail.len() == 0 {
                seq![e]
            } else {
                f.tail
            };
            assert(p =~= f.head + seq![e] + trail);
            assert(forall|i: int| 0 <= i < h ==> p[i] == f.head[i]);
            assert(p[h] == e);
            if g < h {
                assert(p[g] == f.head[g]);
            }
            assert(g == h);
            assert(f.head =~= p.subrange(0, g));
            if f.tail.len() == 0 {
                assert(n == h + 2);
                assert(p[h + 1] == e);
            } else {
                assert(p.subrange(h + 1, n) =~= f.tail);
                assert(p[h + 1] == f.tail[0]);
            }
        }
    } else {
        lemma_run_pieces_nonempty(f.head, true);
        assert(g == n);
        assert(f.tail =~= Seq::<Seq<char>>::empty());
    }
    let c = form_of_pieces(p, g);
    assert(c.head =~= f.head);
    assert(c.tail =~= f.tail);
    assert(c.gap == f.gap);
}

/// The pieces of the shape that is read off a sequence of pieces are those
/// pieces.
pub proof fn lemma_pieces_of_form(p: Seq<Seq<char>>, g: int)
    requires
        first_gap(p, g),
        layout_ok(p, g),
    ensures
        form_of_pieces(p, g).pieces() == p,
{
    let n = p.len() as int;
    let f = form_of_pieces(p, g);
    let e = Seq::<char>::empty();
    if g < n {
        let start = tail_start(g);
        assert(p[g] =~= e);
        if g == 0 {
            assert(p[1] =~= e);
        }
        if n == start + 1 && p[start].len() == 0 {
            assert(p[start] =~= e);
        }
        assert(f.pieces() =~= p);
    }
}

/// Reads the pieces `from..to` as a run of groups.
fn parse_run(pieces: &Vec<Vec<char>>, from: usize, to: usize, allow_v4: bool) -> (r: Option<
    Vec<u16>,
>)
    requires
        from <= to <= pieces.len(),
    ensures
        r is Some <==> is_group_run(views_of(pieces@).subrange(from as int, to as int), allow_v4),
        r is Some ==> r.unwrap()@ == run_groups(
            views_of(pieces@).subrange(from as int, to as int),
            allow_v4,
        ),
        r is Some ==> r.unwrap()@.len() == run_width(
            views_of(pieces@).subrange(from as int, to as int),
            allow_v4,
        ),
{
    let ghost run = views_of(pieces@).subrange(from as int, to as int);
    let mut v4: Option<[u8; 4]> = None;
    let mut hex_end: usize = to;
    if allow_v4 && from < to {
        assert(run.last() == pieces@[to - 1]@);
        v4 = parse_ipv4(&pieces[to - 1]);
        if v4.is_some() {
            hex_end = to - 1;
        }
    }
    let ghost hex_part = run.subrange(0, hex_end - from);
    assert(ends_in_v4(run, allow_v4) <==> v4 is Some);
    assert(hex_part =~= if ends_in_v4(run, allow_v4) {
        run.drop_last()
    } else {
        run
    });
    assert(is_group_run(run, allow_v4) <==> all_hex(hex_part));
    let mut out: Vec<u16> = Vec::new();
    let mut i: usize = from;
    while i < hex_end
        invariant
            from <= i <= hex_end,
            hex_end <= to <= pieces.len(),
            run == views_of(pieces@).subrange(from as int, to as int),
            hex_part == run.subrange(0, hex_end - from),
            is_group_run(run, allow_v4) <==> all_hex(hex_part),
            out@ == hex_values(hex_part.take(i - from)),
            forall|k: int| 0 <= k < i - from ==> is_hex_group(#[trigger] hex_part[k]),
        decreases hex_end - i,
    {
        assert(hex_part[i - from] == pieces@[i as int]@);
        match parse_hex_group(&pieces[i]) {
            None => {
                return None;
            },
            Some(g) => {
                out.push(g);
                assert(out@ =~= hex_values(hex_part.take(i + 1 - from)));
            },
        }
        i += 1;
    }
    assert(hex_part.take(hex_end - from) =~= hex_part);
    match v4 {
        Some(o) => {
            let hi: u16 = (o[0] as u16) * 256 + (o[1] as u16);
            let lo: u16 = (o[2] as u16) * 256 + (o[3] as u16);
            out.push(hi);
            out.push(lo);
            assert(out@ =~= hex_values(run.drop_last()) + v4_groups(run.last()));
        },
        None => {},
    }
    Some(out)
}

/// Eight groups as an array.
fn groups_array(v: &Vec<u16>) -> (r: [u16; 8])
    requires
        v.len() == 8,
    ensures
        r@ == v@,
{
    let r: [u16; 8] = [v[0], v[1], v[2], v[3], v[4], v[5], v[6], v[7]];
    assert(r@ =~= v@);
    r
}

/// Reads an IPv6 text.
pub fn parse_ipv6(s: &Vec<char>) -> (r: Option<[u16; 8]>)
    ensures
        r is Some <==> is_ipv6_text(s@),
        r is Some ==> r.unwrap()@ == ipv6_groups(s@),
{
    let pieces = split_chars(s, ':');
    let n = pieces.len();
    let ghost p = split(s@, ':');
    let mut g: usize = 0;
    while g < n && pieces[g].len() > 0
        invariant
            n == pieces.len(),
            views_of(pieces@) == p,
            g <= n,
            forall|i: int| 0 <= i < g ==> (#[trigger] p[i]).len() > 0,
        decreases n - g,
    {
        assert(p[g as int] == pieces@[g as int]@);
        g += 1;
    }
    assert(g < n ==> p[g as int] == pieces@[g as int]@);
    assert(first_gap(p, g as int));
    let ghost cand = form_of_pieces(p, g as int);
    proof {
        // Any well-formed shape with these pieces is the candidate.
        assert forall|f: Ipv6Form| f.wf() && f.pieces() == p implies layout_ok(p, g as int)
            && cand == f by {
            lemma_form_from_pieces(f, g as int);
        }
    }
    let groups: Vec<u16>;
    if g == n {
        assert(p.subrange(0, n as int) =~= p);
        match parse_run(&pieces, 0, n, true) {
            None => {
                return None;
            },
            Some(all) => {
                if all.len() != 8 {
                    return None;
                }
                groups = all;
            },
        }
        proof {
            lemma_pieces_of_form(p, g as int);
        }
    } else {
        let start: usize = if g == 0 {
            2
        } else {
            g + 1
        };
        if g == 0 {
            if n < 2 {
                return None;
            }
            assert(p[1] == pieces@[1]@);
            if pieces[1].len() != 0 {
                return None;
            }
        }
        if n <= start {
            return None;
        }
        assert(layout_ok(p, g as int));
        assert(p[start as int] == pieces@[start as int]@);
        let tail_from: usize = if n == start + 1 && pieces[start].len() == 0 {
            n
        } else {
            start
        };
        assert(cand.head == p.subrange(0, g as int));
        assert(cand.tail =~= p.subrange(tail_from as int, n as int));
        let head = match parse_run(&pieces, 0, g, false) {
            None => {
                return None;
            },
            Some(h) => h,
        };
        let tail = match parse_run(&pieces, tail_from, n, true) {
            None => {
                return None;
            },
            Some(t) => t,
        };
        if head.len() > 7 || tail.len() > 7 - head.len() {
            return None;
        }
        let zeros: usize = 8 - head.len() - tail.len();
        let mut all: Vec<u16> = Vec::new();
        let mut i: usize = 0;
        while i < head.len()
            invariant
                i <= head.len(),
                all@ == head@.take(i as int),
            decreases head.len() - i,
        {
            all.push(head[i]);
            assert(all@ =~= head@.take(i + 1));
            i += 1;
        }
        assert(head@.take(head.len() as int) =~= head@);
        let mut z: usize = 0;
        while z < zeros
            invariant
                z <= zeros,
                all@ == head@ + zero_groups(z as int),
            decreases zeros - z,
        {
            all.push(0);
            assert(all@ =~= head@ + zero_groups(z + 1));
            z += 1;
        }
        let mut j: usize = 0;
        while j < tail.len()
            invariant
                j <= tail.len(),
                all@ == head@ + zero_groups(zeros as int) + tail@.take(j as int),
            decreases tail.len() - j,
        {
            all.push(tail[j]);
            assert(all@ =~= head@ + zero_groups(zeros as int) + tail@.take(j + 1));
            j += 1;
        }
        assert(tail@.take(tail.len() as int) =~= tail@);
        groups = all;
        proof {
            lemma_pieces_of_form(p, g as int);
        }
    }
    assert(cand.wf());
    assert(cand.pieces() == p);
    assert(groups@ == cand.groups());
    assert(ipv6_form(s@) == cand);
    Some(groups_array(&groups))
}

impl IpAddress {
    /// Reads an IPv4 or IPv6 address from its text; `None` for any other
    /// text.
    pub fn parse(s: &str) -> (r: Option<IpAddress>)
        ensures
            r is Some <==> is_ip_text(s@),
            r is Some ==> r.unwrap()@ == ip_of_text(s@),
    {
        let v = chars_of(s);
        match parse_ipv4(&v) {
            Some(o) => Some(IpAddress::V4(o)),
            None => match parse_ipv6(&v) {
                Some(g) => Some(IpAddress::V6(g)),
                None => None,
            },
        }
    }

    /// The name under which the PTR record of this address is queried.
    pub fn reverse_name(&self) -> (name: String)
        ensures
            name@ == reverse_name(self@),
    {
        match self {
            IpAddress::V4(o) => {
                let mut name = decimal_string(o[3] as u128);
                name.append(".");
                name.append(decimal_string(o[2] as u128).as_str());
                name.append(".");
                name.append(decimal_string(o[1] as u128).as_str());
                name.append(".");
                name.append(decimal_string(o[0] as u128).as_str());
                name.append(".in-addr.arpa");
                name
            },
            IpAddress::V6(g) => {
                let mut out: Vec<char> = Vec::new();
                let mut count: usize = 0;
                while count < 32
                    invariant
                        count <= 32,
                        out@ == nibble_labels(g@, count as nat),
                    decreases 32 - count,
                {
                    let k: usize = 31 - count;
                    let group: u16 = g[k / 4];
                    let r: usize = k % 4;
                    let value: u16 = if r == 0 {
                        group / 4096
                    } else if r == 1 {
                        (group / 256) % 16
                    } else if r == 2 {
                        (group / 16) % 16
                    } else {
                        group % 16
                    };
                    out.push(hex_digit_of(value as u8));
                    out.push('.');
                    count += 1;
                }
                let mut name = string_of(&out);
                name.append("ip6.arpa");
                name
            },
        }
    }
}

/// The lowercase hexadecimal digit for `d`.
fn hex_digit_of(d: u8) -> (c: char)
    requires
        d < 16,
    ensures
        c == hex_digit_char(d as int),
{
    if d < 10 {
        digit_of(d)
    } else if d == 10 {
        'a'
    } else if d == 11 {
        'b'
    } else if d == 12 {
        'c'
    } else if d == 13 {
        'd'
    } else if d == 14 {
        'e'
    } else {
        'f'
    }
}

/// The name under which the PTR record of the address with the text `ip`
/// is queried. Every IP address has such a name; any other text is
/// reported as `InvalidIpAddress`.
pub fn reverse_query_name(ip: &str) -> (r: Result<String, ReverDNSError>)
    ensures
        r is Ok <==> is_ip_text(ip@),
        r matches Ok(name) ==> name@ == reverse_name(ip_of_text(ip@)),
        r matches Err(e) ==> e@ == ErrorView::InvalidIpAddress(ip@),
{
    match IpAddress::parse(ip) {
        Some(address) => Ok(address.reverse_name()),
        None => Err(ReverDNSError::InvalidIpAddress(String::from_str(ip))),
    }
}

/// A decimal digit is the digit of its value.
pub proof fn lemma_digit_of_value(c: char)
    requires
        dec_value(c) >= 0,
    ensures
        digit_char(dec_value(c)) == c,
{
    let u = c as u32;
    if u == 48 {
        assert(c == '0');
    } else if u == 49 {
        assert(c == '1');
    } else if u == 50 {
        assert(c == '2');
    } else if u == 51 {
        assert(c == '3');
    } else if u == 52 {
        assert(c == '4');
    } else if u == 53 {
        assert(c == '5');
    } else if u == 54 {
        assert(c == '6');
    } else if u == 55 {
        assert(c == '7');
    } else if u == 56 {
        assert(c == '8');
    } else {
        assert(c == '9');
    }
}

/// The text of an octet is the decimal rendering of its value.
pub proof fn lemma_octet_text_is_decimal(t: Seq<char>)
    requires
        is_decimal_octet(t),
    ensures
        decimal(decimal_number(t) as nat) == t,
        0 <= decimal_number(t) <= 255,
{
    let d0 = dec_value(t[0]);
    assert(t.take(1).drop_last() =~= Seq::<char>::empty());
    assert(decimal_number(t.take(1).drop_last()) == 0);
    assert(decimal_number(t.take(1)) == d0);
    lemma_digit_of_value(t[0]);
    assert(decimal(d0 as nat) =~= t.take(1));
    if t.len() == 1 {
        assert(t.take(1) =~= t);
    } else {
        let d1 = dec_value(t[1]);
        assert(d0 >= 1);
        assert(t.take(2).drop_last() =~= t.take(1));
        assert(decimal_number(t.take(2)) == d0 * 10 + d1);
        lemma_digit_of_value(t[1]);
        assert(decimal((d0 * 10 + d1) as nat) =~= t.take(2));
        if t.len() == 2 {
            assert(t.take(2) =~= t);
        } else {
            let d2 = dec_value(t[2]);
            assert(t.take(3) =~= t);
            assert(t.drop_last() =~= t.take(2));
            assert(decimal_number(t) == (d0 * 10 + d1) * 10 + d2);
            lemma_digit_of_value(t[2]);
            assert(((d0 * 10 + d1) * 10 + d2) / 10 == d0 * 10 + d1);
            assert(decimal(((d0 * 10 + d1) * 10 + d2) as nat) =~= t);
        }
    }
}

/// The reverse name of an IPv4 address is made of the four octets of its
/// text, last one first, under `in-addr.arpa`.
pub proof fn lemma_reverse_name_of_ipv4_text(s: Seq<char>)
    requires
        is_ipv4_text(s),
    ensures
        ({
            let p = split(s, '.');
            reverse_name(ip_of_text(s)) == p[3] + "."@ + p[2] + "."@ + p[1] + "."@ + p[0]
                + ".in-addr.arpa"@
        }),
{
    let p = split(s, '.');
    let o = ipv4_octets(s);
    assert forall|i: int| 0 <= i < 4 implies decimal(o[i] as nat) == p[i] by {
        assert(is_decimal_octet(p[i]));
        lemma_octet_text_is_decimal(p[i]);
    }
}

/// The decimal rendering of a number up to 255 is the text of an octet, and
/// denotes that number.
pub proof fn lemma_decimal_is_octet_text(n: nat)
    requires
        n <= 255,
    ensures
        is_decimal_octet(decimal(n)),
        decimal_number(decimal(n)) == n,
        forall|j: int| 0 <= j < decimal(n).len() ==> dec_value(#[trigger] decimal(n)[j]) >= 0,
{
    let t = decimal(n);
    assert forall|d: int| 0 <= d <= 9 implies dec_value(#[trigger] digit_char(d)) == d by {}
    if n < 10 {
        assert(t =~= seq![digit_char(n as int)]);
        assert(t.drop_last() =~= Seq::<char>::empty());
        assert(decimal_number(t.drop_last()) == 0);
    } else if n < 100 {
        let hi = (n / 10) as int;
        let lo = (n % 10) as int;
        assert(decimal((n / 10) as nat) =~= seq![digit_char(hi)]);
        assert(t =~= seq![digit_char(hi), digit_char(lo)]);
        assert(t.drop_last() =~= seq![digit_char(hi)]);
        assert(t.drop_last().drop_last() =~= Seq::<char>::empty());
        assert(decimal_number(t.drop_last().drop_last()) == 0);
        assert(decimal_number(t.drop_last()) == hi);
        assert(t[0] != '0');
    } else {
        let d0 = (n / 100) as int;
        let d1 = ((n / 10) % 10) as int;
        let d2 = (n % 10) as int;
        assert(decimal((n / 100) as nat) =~= seq![digit_char(d0)]);
        assert((n / 10) / 10 == n / 100);
        assert(decimal((n / 10) as nat) =~= seq![digit_char(d0), digit_char(d1)]);
        assert(t =~= seq![digit_char(d0), digit_char(d1), digit_char(d2)]);
        let t2 = t.drop_last();
        let t1 = t2.drop_last();
        assert(t2 =~= seq![digit_char(d0), digit_char(d1)]);
        assert(t1 =~= seq![digit_char(d0)]);
        assert(t1.drop_last() =~= Seq::<char>::empty());
        assert(decimal_number(t1.drop_last()) == 0);
        assert(decimal_number(t1) == d0);
        assert(decimal_number(t2) == d0 * 10 + d1);
        assert(t[0] != '0');
    }
}

/// Every IPv4 address has a text: its four octets in decimal, joined by
/// dots. Reading that text gives the address back.
pub proof fn lemma_ipv4_text_of_octets(a: u8, b: u8, c: u8, d: u8)
    ensures
        ({
            let text = join(
                seq![decimal(a as nat), decimal(b as nat), decimal(c as nat), decimal(d as nat)],
                seq!['.'],
            );
            is_ipv4_text(text) && ipv4_octets(text) == seq![a, b, c, d]
        }),
{
    let parts = seq![decimal(a as nat), decimal(b as nat), decimal(c as nat), decimal(d as nat)];
    let octets = seq![a, b, c, d];
    assert forall|i: int, j: int| 0 <= i < parts.len() && 0 <= j < parts[i].len() implies parts[i][j]
        != '.' by {
        lemma_decimal_is_octet_text(octets[i] as nat);
        assert(dec_value(decimal(octets[i] as nat)[j]) >= 0);
    }
    lemma_split_of_join(parts, '.');
    let text = join(parts, seq!['.']);
    assert forall|i: int| 0 <= i < 4 implies is_decimal_octet(#[trigger] parts[i])
        && decimal_number(parts[i]) == octets[i] by {
        lemma_decimal_is_octet_text(octets[i] as nat);
    }
    assert(ipv4_octets(text) =~= octets);
}

/// No dotted-quad text holds a colon.
pub proof fn lemma_ipv4_text_has_no_colon(t: Seq<char>)
    requires
        is_ipv4_text(t),
    ensures
        forall|k: int| 0 <= k < t.len() ==> t[k] != ':',
{
    let parts = split(t, '.');
    lemma_join_of_split(t, '.');
    assert forall|i: int, j: int| 0 <= i < parts.len() && 0 <= j < parts[i].len() implies parts[i][j]
        != ':' by {
        assert(is_decimal_octet(parts[i]));
        assert(dec_value(parts[i][j]) >= 0);
    }
    lemma_join_avoids(parts, seq!['.'], ':');
}

/// The index of the first empty piece among the pieces of a well-formed
/// shape.
pub open spec fn gap_index(f: Ipv6Form) -> int {
    if f.gap {
        f.head.len() as int
    } else {
        f.pieces().len() as int
    }
}

/// The pieces of a well-formed shape have their first empty piece where the
/// head ends.
pub proof fn lemma_gap_index(f: Ipv6Form)
    requires
        f.wf(),
    ensures
        first_gap(f.pieces(), gap_index(f)),
{
    let p = f.pieces();
    let e = Seq::<char>::empty();
    if f.gap {
        lemma_run_pieces_nonempty(f.head, false);
        let trail = if f.tail.len() == 0 {
            seq![e]
        } else {
            f.tail
        };
        if f.head.len() == 0 {
            assert(p =~= seq![e] + seq![e] + trail);
            assert(p[0] == e);
        } else {
            assert(p =~= f.head + seq![e] + trail);
            assert(p[f.head.len() as int] == e);
            assert forall|i: int| 0 <= i < f.head.len() implies (#[trigger] p[i]).len() > 0 by {
                assert(p[i] == f.head[i]);
            }
        }
    } else {
        lemma_run_pieces_nonempty(f.head, true);
    }
}

/// Every well-formed shape has a text: its pieces joined by colons. That
/// text is an IPv6 text, and it denotes the groups of the shape.
pub proof fn lemma_ipv6_text_of_form(f: Ipv6Form)
    requires
        f.wf(),
    ensures
        is_ipv6_text(join(f.pieces(), seq![':'])),
        ipv6_groups(join(f.pieces(), seq![':'])) == f.groups(),
{
    let p = f.pieces();
    let e = Seq::<char>::empty();
    lemma_gap_index(f);
    assert(p.len() >= 1) by {
        if !f.gap {
            assert(run_width(f.head, true) == 8);
        }
    }
    assert forall|i: int, j: int| 0 <= i < p.len() && 0 <= j < p[i].len() implies p[i][j] != ':' by {
        lemma_piece_has_no_colon(f, i);
    }
    lemma_split_of_join(p, ':');
    let text = join(p, seq![':']);
    assert(f.wf() && f.pieces() == split(text, ':'));
    let chosen = ipv6_form(text);
    assert(chosen.wf() && chosen.pieces() == p);
    lemma_form_from_pieces(f, gap_index(f));
    lemma_form_from_pieces(chosen, gap_index(f));
}

/// No piece of a well-formed shape holds a colon.
pub proof fn lemma_piece_has_no_colon(f: Ipv6Form, i: int)
    requires
        f.wf(),
        0 <= i < f.pieces().len(),
    ensures
        forall|j: int| 0 <= j < f.pieces()[i].len() ==> f.pieces()[i][j] != ':',
{
    let p = f.pieces();
    let e = Seq::<char>::empty();
    let piece = p[i];
    // Every piece is empty, a hexadecimal group, or a dotted-quad.
    let lead = if f.gap && f.head.len() == 0 {
        seq![e]
    } else {
        f.head
    };
    let trail = if f.tail.len() == 0 {
        seq![e]
    } else {
        f.tail
    };
    if f.gap {
        assert(p =~= lead + seq![e] + trail);
    }
    assert(piece.len() == 0 || is_hex_group(piece) || is_ipv4_text(piece)) by {
        if f.gap {
            if i < lead.len() {
                assert(piece == lead[i]);
                if f.head.len() > 0 {
                    assert(is_hex_group(f.head[i]));
                }
            } else if i == lead.len() {
                assert(piece == e);
            } else {
                let k = i - lead.len() - 1;
                assert(piece == trail[k]);
                if f.tail.len() > 0 {
                    lemma_run_piece_kind(f.tail, true, k);
                }
            }
        } else {
            lemma_run_piece_kind(f.head, true, i);
        }
    }
    if is_ipv4_text(piece) {
        lemma_ipv4_text_has_no_colon(piece);
    } else if is_hex_group(piece) {
        assert forall|j: int| 0 <= j < piece.len() implies piece[j] != ':' by {
            assert(hex_value(piece[j]) >= 0);
        }
    }
}

/// Every piece of a run of groups is a hexadecimal group or a dotted-quad.
pub proof fn lemma_run_piece_kind(run: Seq<Seq<char>>, allow_v4: bool, k: int)
    requires
        is_group_run(run, allow_v4),
        0 <= k < run.len(),
    ensures
        is_hex_group(run[k]) || is_ipv4_text(run[k]),
{
    if ends_in_v4(run, allow_v4) {
        if k < run.len() - 1 {
            assert(run.drop_last()[k] == run[k]);
            assert(is_hex_group(run.drop_last()[k]));
        }
    } else {
        assert(is_hex_group(run[k]));
    }
}

} // verus!
