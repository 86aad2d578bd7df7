//! IP and socket addresses, and the text forms of both.

use vstd::prelude::*;
use vstd::slice::slice_subrange;
use crate::text;

verus! {

/// An IP address: the four octets of version 4, or the eight 16-bit groups of
/// version 6.
#[derive(Clone, Copy, Debug, PartialEq, Eq)]
pub enum IpAddress {
    V4([u8; 4]),
    V6([u16; 8]),
}

/// An IP address as sequences.
pub enum Ip {
    V4(Seq<u8>),
    V6(Seq<u16>),
}

impl View for IpAddress {
    type V = Ip;

    open spec fn view(&self) -> Ip {
        match *self {
            IpAddress::V4(octets) => Ip::V4(octets@),
            IpAddress::V6(groups) => Ip::V6(groups@),
        }
    }
}

impl Ip {
    /// A version 4 address has four octets, one of version 6 has eight groups.
    pub open spec fn wf(self) -> bool {
        match self {
            Ip::V4(octets) => octets.len() == 4,
            Ip::V6(groups) => groups.len() == 8,
        }
    }

    /// The address `0.0.0.0` or `::`.
    pub open spec fn unspecified(self) -> bool {
        match self {
            Ip::V4(octets) => octets == Seq::new(4, |i: int| 0u8),
            Ip::V6(groups) => groups == zeros(8),
        }
    }

    /// The octets in network order.
    pub open spec fn octets(self) -> Seq<u8> {
        match self {
            Ip::V4(octets) => octets,
            Ip::V6(groups) => Seq::new(
                2 * groups.len(),
                |i: int|
                    if i % 2 == 0 {
                        (groups[i / 2] / 256) as u8
                    } else {
                        (groups[i / 2] % 256) as u8
                    },
            ),
        }
    }
}

/// An IP address with a port.
#[derive(Clone, Copy, Debug, PartialEq, Eq)]
pub struct SocketAddress {
    pub ip: IpAddress,
    pub port: u16,
}

// The text forms.

/// One octet: a decimal number up to 255 without leading zeros.
pub open spec fn octet_text(s: Seq<char>) -> Option<nat> {
    if s.len() > 1 && s[0] == '0' {
        None
    } else {
        text::number(s, 10, 255)
    }
}

/// One group: one to four hexadecimal digits.
pub open spec fn group_text(s: Seq<char>) -> Option<nat> {
    if s.len() > 4 {
        None
    } else {
        text::number(s, 16, 0xffff)
    }
}

/// Four octets with dots between them.
pub open spec fn parse_v4(s: Seq<char>) -> Option<Seq<u8>> {
    let p = text::split(s, '.');
    if p.len() == 4 && octet_text(p[0]) is Some && octet_text(p[1]) is Some && octet_text(p[2]) is Some
        && octet_text(p[3]) is Some {
        Some(Seq::new(4, |i: int| octet_text(p[i]).unwrap() as u8))
    } else {
        None
    }
}

/// A group in each piece.
pub open spec fn parse_groups(pieces: Seq<Seq<char>>) -> Option<Seq<u16>>
    decreases pieces.len(),
{
    if pieces.len() == 0 {
        Some(seq![])
    } else {
        match (parse_groups(pieces.drop_last()), group_text(pieces.last())) {
            (Some(groups), Some(group)) => Some(groups.push(group as u16)),
            _ => None,
        }
    }
}

/// The two groups that four octets fill.
pub open spec fn v4_groups(octets: Seq<u8>) -> Seq<u16> {
    seq![(octets[0] * 256 + octets[1]) as u16, (octets[2] * 256 + octets[3]) as u16]
}

/// A group in each piece, but the last piece may be a version 4 address, which
/// fills two groups.
pub open spec fn parse_tail(pieces: Seq<Seq<char>>) -> Option<Seq<u16>> {
    if pieces.len() == 0 {
        Some(seq![])
    } else {
        match parse_v4(pieces.last()) {
            Some(octets) => match parse_groups(pieces.drop_last()) {
                Some(groups) => Some(groups + v4_groups(octets)),
                None => None,
            },
            None => parse_groups(pieces),
        }
    }
}

/// The pieces between the colons; none in an empty text.
pub open spec fn colon_pieces(s: Seq<char>) -> Seq<Seq<char>> {
    if s.len() == 0 {
        seq![]
    } else {
        text::split(s, ':')
    }
}

/// `n` zero groups.
pub open spec fn zeros(n: int) -> Seq<u16> {
    Seq::new(n as nat, |i: int| 0u16)
}

/// Eight groups with colons between them. Once, `::` may stand for one or more
/// zero groups. The last two groups may be written as a version 4 address.
#[verifier::opaque]
pub open spec fn parse_v6(s: Seq<char>) -> Option<Seq<u16>> {
    match text::find_pair(s, ':', ':') {
        Some(i) => match (
            parse_groups(colon_pieces(s.take(i))),
            parse_tail(colon_pieces(s.skip(i + 2))),
        ) {
            (Some(head), Some(tail)) if head.len() + tail.len() <= 7 => Some(
                head + zeros(8 - head.len() - tail.len()) + tail,
            ),
            _ => None,
        },
        None => match parse_tail(text::split(s, ':')) {
            Some(groups) if groups.len() == 8 => Some(groups),
            _ => None,
        },
    }
}

/// An address of either version.
pub open spec fn parse_ip(s: Seq<char>) -> Option<Ip> {
    match parse_v4(s) {
        Some(octets) => Some(Ip::V4(octets)),
        None => match parse_v6(s) {
            Some(groups) => Some(Ip::V6(groups)),
            None => None,
        },
    }
}

/// The inside of the brackets: a version 6 address, with a numeric scope after
/// a percent sign where there is one. The scope is no part of the address.
pub open spec fn parse_scoped_v6(s: Seq<char>) -> Option<Seq<u16>> {
    match text::find(s, '%') {
        Some(i) => if text::number(s.skip(i + 1), 10, 0xffff_ffff) is Some {
            parse_v6(s.take(i))
        } else {
            None
        },
        None => parse_v6(s),
    }
}

/// `address:port`, where a version 6 address is in brackets. The port has
/// decimal digits only.
pub open spec fn parse_socket(s: Seq<char>) -> Option<(Ip, nat)> {
    match text::rfind(s, ':') {
        Some(i) => {
            let host = s.take(i);
            match text::number(s.skip(i + 1), 10, 65535) {
                Some(port) => match parse_v4(host) {
                    Some(octets) => Some((Ip::V4(octets), port)),
                    None => if host.len() >= 2 && host[0] == '[' && host.last() == ']' {
                        match parse_scoped_v6(host.subrange(1, host.len() - 1)) {
                            Some(groups) => Some((Ip::V6(groups), port)),
                            None => None,
                        }
                    } else {
                        None
                    },
                },
                None => None,
            }
        },
        None => None,
    }
}

/// Four octets in dotted decimal.
pub open spec fn v4_text(octets: Seq<u8>) -> Seq<char> {
    text::join(octet_numerals(octets), '.')
}

/// Groups in lower-case hexadecimal with colons between them.
pub open spec fn groups_text(groups: Seq<u16>) -> Seq<char> {
    text::join(group_numerals(groups), ':')
}

/// How many zero groups follow one another from `i` on.
pub open spec fn zero_run(groups: Seq<u16>, i: int) -> nat
    decreases groups.len() - i,
{
    if i < 0 || i >= groups.len() || groups[i] != 0 {
        0
    } else {
        1 + zero_run(groups, i + 1)
    }
}

/// Where the longest run of zero groups from `i` on starts; of equally long ones
/// the first.
pub open spec fn longest_run(groups: Seq<u16>, i: int) -> int
    decreases groups.len() - i,
{
    if i >= groups.len() {
        groups.len() as int
    } else {
        let later = longest_run(groups, i + 1);
        if zero_run(groups, i) >= zero_run(groups, later) {
            i
        } else {
            later
        }
    }
}

/// An address that embeds one of version 4: `::ffff:a.b.c.d`.
pub open spec fn v4_mapped(groups: Seq<u16>) -> bool {
    &&& forall|i: int| 0 <= i < 5 ==> groups[i] == 0
    &&& groups[5] == 0xffff
}

/// The canonical text of a version 6 address: `::` stands for the longest run of
/// at least two zero groups, and an embedded version 4 address is in dotted
/// decimal.
#[verifier::opaque]
pub open spec fn v6_text(groups: Seq<u16>) -> Seq<char> {
    if v4_mapped(groups) {
        seq![':', ':', 'f', 'f', 'f', 'f', ':'] + v4_text(Ip::V6(groups.skip(6)).octets())
    } else {
        let start = longest_run(groups, 0);
        let run = zero_run(groups, start);
        if run >= 2 {
            groups_text(groups.take(start)) + seq![':', ':'] + groups_text(groups.skip(start + run))
        } else {
            groups_text(groups)
        }
    }
}

/// The canonical text of an address.
pub open spec fn ip_text(ip: Ip) -> Seq<char> {
    match ip {
        Ip::V4(octets) => v4_text(octets),
        Ip::V6(groups) => v6_text(groups),
    }
}

impl IpAddress {
    /// Whether this is the address `0.0.0.0` or `::`.
    pub fn is_unspecified(&self) -> (r: bool)
        ensures
            r == self@.unspecified(),
    {
        let mut i: usize = 0;
        match self {
            IpAddress::V4(octets) => {
                while i < 4
                    invariant
                        i <= 4,
                        self@ == Ip::V4(octets@),
                        forall|j: int| 0 <= j < i ==> octets@[j] == 0,
                    decreases 4 - i,
                {
                    if octets[i] != 0 {
                        assert(octets@[i as int] != Seq::new(4, |j: int| 0u8)[i as int]);
                        return false;
                    }
                    i = i + 1;
                }
                assert(octets@ == Seq::new(4, |j: int| 0u8));
            },
            IpAddress::V6(groups) => {
                while i < 8
                    invariant
                        i <= 8,
                        self@ == Ip::V6(groups@),
                        forall|j: int| 0 <= j < i ==> groups@[j] == 0,
                    decreases 8 - i,
                {
                    if groups[i] != 0 {
                        assert(groups@[i as int] != zeros(8)[i as int]);
                        return false;
                    }
                    i = i + 1;
                }
                assert(groups@ == zeros(8));
            },
        }
        true
    }

    /// Whether the address is of version 6.
    pub fn is_ipv6(&self) -> (r: bool)
        ensures
            r == (self@ is V6),
    {
        match self {
            IpAddress::V4(_) => false,
            IpAddress::V6(_) => true,
        }
    }

    /// Adds the octets in network order to `out`.
    pub fn push_octets(&self, out: &mut Vec<u8>)
        ensures
            final(out)@ == old(out)@ + self@.octets(),
    {
        match self {
            IpAddress::V4(o) => {
                let mut i: usize = 0;
                while i < 4
                    invariant
                        i <= 4,
                        out@ == old(out)@ + o@.take(i as int),
                    decreases 4 - i,
                {
                    out.push(o[i]);
                    i = i + 1;
                    assert(o@.take(i as int) == o@.take(i - 1).push(o@[i - 1]));
                }
                assert(o@.take(4) == o@);
            },
            IpAddress::V6(g) => {
                let ghost all = self@.octets();
                let mut i: usize = 0;
                while i < 8
                    invariant
                        i <= 8,
                        all == Ip::V6(g@).octets(),
                        out@ == old(out)@ + all.take(2 * i),
                    decreases 8 - i,
                {
                    out.push((g[i] / 256) as u8);
                    out.push((g[i] % 256) as u8);
                    i = i + 1;
                    assert(all.take(2 * i) == all.take(2 * (i - 1)).push(all[2 * (i - 1)]).push(
                        all[2 * (i - 1) + 1],
                    ));
                }
                assert(all.take(16) == all);
            },
        }
    }
}

/// Reads one octet.
fn octet_of(s: &[char]) -> (r: Option<u8>)
    ensures
        r matches Some(n) ==> octet_text(s@) == Some(n as nat),
        r is None ==> octet_text(s@) is None,
{
    if s.len() > 1 && s[0] == '0' {
        return None;
    }
    match text::number_of(s, 10, 255) {
        Some(n) => Some(n as u8),
        None => None,
    }
}

/// Reads one group.
fn group_of(s: &[char]) -> (r: Option<u16>)
    ensures
        r matches Some(n) ==> group_text(s@) == Some(n as nat),
        r is None ==> group_text(s@) is None,
{
    if s.len() > 4 {
        return None;
    }
    match text::number_of(s, 16, 0xffff) {
        Some(n) => Some(n as u16),
        None => None,
    }
}

/// Reads four octets.
fn v4_of(s: &[char]) -> (r: Option<[u8; 4]>)
    ensures
        r matches Some(octets) ==> parse_v4(s@) == Some(octets@),
        r is None ==> parse_v4(s@) is None,
{
    let p = text::split_at(s, '.');
    let ghost pieces = text::split(s@, '.');
    assert(text::pieces_view(p@) == pieces);
    if p.len() != 4 {
        return None;
    }
    assert(p@[0]@ == pieces[0] && p@[1]@ == pieces[1] && p@[2]@ == pieces[2] && p@[3]@ == pieces[3]);
    match (
        octet_of(p[0].as_slice()),
        octet_of(p[1].as_slice()),
        octet_of(p[2].as_slice()),
        octet_of(p[3].as_slice()),
    ) {
        (Some(a), Some(b), Some(c), Some(d)) => {
            let octets = [a, b, c, d];
            assert(octets@ == Seq::new(4, |i: int| octet_text(pieces[i]).unwrap() as u8));
            Some(octets)
        },
        _ => None,
    }
}

/// Reads a group in each of the first `n` pieces.
fn groups_of(pieces: &Vec<Vec<char>>, n: usize) -> (r: Option<Vec<u16>>)
    requires
        n <= pieces@.len(),
    ensures
        r matches Some(groups) ==> parse_groups(text::pieces_view(pieces@).take(n as int)) == Some(groups@),
        r is None ==> parse_groups(text::pieces_view(pieces@).take(n as int)) is None,
{
    let mut groups: Vec<u16> = Vec::new();
    let mut i: usize = 0;
    let ghost all = text::pieces_view(pieces@);
    while i < n
        invariant
            i <= n <= pieces@.len(),
            all == text::pieces_view(pieces@),
            parse_groups(all.take(i as int)) == Some(groups@),
        decreases n - i,
    {
        assert(all.take(i + 1).drop_last() == all.take(i as int));
        assert(all.take(i + 1).last() == pieces@[i as int]@);
        match group_of(pieces[i].as_slice()) {
            Some(group) => {
                groups.push(group);
            },
            None => {
                proof {
                    lemma_groups_prefix(all.take(n as int), i + 1);
                    assert(all.take(n as int).take(i + 1) == all.take(i + 1));
                }
                return None;
            },
        }
        i = i + 1;
    }
    Some(groups)
}

/// Reads a group in each piece, and a version 4 address in the last one.
fn tail_of(pieces: &Vec<Vec<char>>) -> (r: Option<Vec<u16>>)
    ensures
        r matches Some(groups) ==> parse_tail(text::pieces_view(pieces@)) == Some(groups@),
        r is None ==> parse_tail(text::pieces_view(pieces@)) is None,
{
    let ghost all = text::pieces_view(pieces@);
    let n: usize = pieces.len();
    if n == 0 {
        return Some(Vec::new());
    }
    assert(all.last() == pieces@[n - 1]@);
    match v4_of(pieces[n - 1].as_slice()) {
        Some(octets) => {
            assert(all.take(n - 1) == all.drop_last());
            match groups_of(pieces, n - 1) {
                Some(groups) => {
                    let mut groups = groups;
                    let ghost front = groups@;
                    groups.push((octets[0] as u16) * 256 + (octets[1] as u16));
                    groups.push((octets[2] as u16) * 256 + (octets[3] as u16));
                    assert(groups@ == front + v4_groups(octets@));
                    Some(groups)
                },
                None => None,
            }
        },
        None => {
            assert(all.take(n as int) == all);
            groups_of(pieces, n)
        },
    }
}

/// The pieces between the colons.
fn colon_split(s: &[char]) -> (r: Vec<Vec<char>>)
    ensures
        text::pieces_view(r@) == colon_pieces(s@),
{
    if s.len() == 0 {
        let r: Vec<Vec<char>> = Vec::new();
        assert(text::pieces_view(r@) == colon_pieces(s@));
        r
    } else {
        text::split_at(s, ':')
    }
}

/// Eight groups as an array.
fn eight(groups: &Vec<u16>) -> (r: [u16; 8])
    requires
        groups@.len() == 8,
    ensures
        r@ == groups@,
{
    let r = [
        groups[0],
        groups[1],
        groups[2],
        groups[3],
        groups[4],
        groups[5],
        groups[6],
        groups[7],
    ];
    assert(r@ == groups@);
    r
}

/// Reads a version 6 address.
fn v6_of(s: &[char]) -> (r: Option<[u16; 8]>)
    ensures
        r matches Some(groups) ==> parse_v6(s@) == Some(groups@),
        r is None ==> parse_v6(s@) is None,
{
    reveal(parse_v6);
    let n: usize = s.len();
    match text::find_two(s, ':', ':') {
        Some(i) => {
            let before = slice_subrange(s, 0, i);
            let after = slice_subrange(s, i + 2, n);
            assert(before@ == s@.take(i as int));
            assert(after@ == s@.skip(i + 2));
            let front = colon_split(before);
            let ghost all = text::pieces_view(front@);
            assert(all.take(front@.len() as int) == all);
            match (groups_of(&front, front.len()), tail_of(&colon_split(after))) {
                (Some(head), Some(tail)) => {
                    let h: usize = head.len();
                    let t: usize = tail.len();
                    if h > 7 || t > 7 - h {
                        return None;
                    }
                    let mut groups = head;
                    let mut k: usize = 0;
                    while k < 8 - h - t
                        invariant
                            h <= 7,
                            t <= 7 - h,
                            k <= 8 - h - t,
                            groups@ == head@ + zeros(k as int),
                        decreases 8 - h - t - k,
                    {
                        groups.push(0);
                        k = k + 1;
                        assert(zeros(k as int) == zeros(k - 1).push(0u16));
                    }
                    let ghost front = groups@;
                    let mut j: usize = 0;
                    while j < t
                        invariant
                            j <= t == tail@.len(),
                            groups@ == front + tail@.take(j as int),
                        decreases t - j,
                    {
                        groups.push(tail[j]);
                        j = j + 1;
                        assert(tail@.take(j as int) == tail@.take(j - 1).push(tail@[j - 1]));
                    }
                    assert(tail@.take(t as int) == tail@);
                    Some(eight(&groups))
                },
                _ => None,
            }
        },
        None => {
            let pieces = text::split_at(s, ':');
            match tail_of(&pieces) {
                Some(groups) => if groups.len() == 8 {
                    Some(eight(&groups))
                } else {
                    None
                },
                None => None,
            }
        },
    }
}

/// Reads an address of either version.
pub fn ip_of(s: &[char]) -> (r: Option<IpAddress>)
    ensures
        r matches Some(ip) ==> parse_ip(s@) == Some(ip@),
        r is None ==> parse_ip(s@) is None,
{
    match v4_of(s) {
        Some(octets) => Some(IpAddress::V4(octets)),
        None => match v6_of(s) {
            Some(groups) => Some(IpAddress::V6(groups)),
            None => None,
        },
    }
}

/// Reads an address with a port.
pub fn socket_of(s: &[char]) -> (r: Option<SocketAddress>)
    ensures
        r matches Some(a) ==> parse_socket(s@) == Some((a.ip@, a.port as nat)),
        r is None ==> parse_socket(s@) is None,
{
    let end: usize = s.len();
    let i: usize = match text::rfind_char(s, ':') {
        Some(i) => i,
        None => {
            return None;
        },
    };
    let host = slice_subrange(s, 0, i);
    let rest = slice_subrange(s, i + 1, end);
    assert(host@ == s@.take(i as int));
    assert(rest@ == s@.skip(i + 1));
    let port: u16 = match text::number_of(rest, 10, 65535) {
        Some(n) => n as u16,
        None => {
            return None;
        },
    };
    if let Some(octets) = v4_of(host) {
        return Some(SocketAddress { ip: IpAddress::V4(octets), port });
    }
    let n: usize = host.len();
    if n < 2 || host[0] != '[' || host[n - 1] != ']' {
        return None;
    }
    let inner = slice_subrange(host, 1, n - 1);
    match scoped_v6_of(inner) {
        Some(groups) => Some(SocketAddress { ip: IpAddress::V6(groups), port }),
        None => None,
    }
}

/// Reads what stands between the brackets.
fn scoped_v6_of(s: &[char]) -> (r: Option<[u16; 8]>)
    ensures
        r matches Some(groups) ==> parse_scoped_v6(s@) == Some(groups@),
        r is None ==> parse_scoped_v6(s@) is None,
{
    let n: usize = s.len();
    match text::find_char(s, '%') {
        Some(i) => {
            let address = slice_subrange(s, 0, i);
            let scope = slice_subrange(s, i + 1, n);
            assert(address@ == s@.take(i as int));
            assert(scope@ == s@.skip(i + 1));
            match text::number_of(scope, 10, 0xffff_ffff) {
                Some(_) => v6_of(address),
                None => None,
            }
        },
        None => v6_of(s),
    }
}

/// A wrong piece makes the whole wrong.
proof fn lemma_groups_prefix(pieces: Seq<Seq<char>>, n: int)
    requires
        0 <= n <= pieces.len(),
        parse_groups(pieces.take(n)) is None,
    ensures
        parse_groups(pieces) is None,
    decreases pieces.len(),
{
    if n == pieces.len() {
        assert(pieces.take(n) == pieces);
    } else {
        assert(pieces.drop_last().take(n) == pieces.take(n));
        lemma_groups_prefix(pieces.drop_last(), n);
    }
}

/// The numerals that `v4_text` joins.
pub open spec fn octet_numerals(octets: Seq<u8>) -> Seq<Seq<char>> {
    Seq::new(octets.len(), |i: int| text::numeral(octets[i] as nat, 10))
}

/// The numerals that `groups_text` joins.
pub open spec fn group_numerals(groups: Seq<u16>) -> Seq<Seq<char>> {
    Seq::new(groups.len(), |i: int| text::numeral(groups[i] as nat, 16))
}

/// Adds four octets in dotted decimal.
fn push_v4(out: &mut Vec<char>, octets: [u8; 4])
    ensures
        final(out)@ == old(out)@ + v4_text(octets@),
{
    let ghost parts = octet_numerals(octets@);
    let mut i: usize = 0;
    while i < 4
        invariant
            i <= 4,
            parts == octet_numerals(octets@),
            out@ == old(out)@ + text::join(parts.take(i as int), '.'),
        decreases 4 - i,
    {
        if i > 0 {
            out.push('.');
        }
        text::push_number(out, octets[i] as u64, 10);
        proof {
            assert(parts.take(i + 1).drop_last() == parts.take(i as int));
            assert(parts.take(i + 1).last() == text::numeral(octets@[i as int] as nat, 10));
            assert(out@ == old(out)@ + text::join(parts.take(i + 1), '.'));
        }
        i = i + 1;
    }
    assert(parts.take(4) == parts);
}

/// Adds the groups from `from` up to `to` in hexadecimal.
fn push_groups(out: &mut Vec<char>, groups: &[u16; 8], from: usize, to: usize)
    requires
        from <= to <= 8,
    ensures
        final(out)@ == old(out)@ + groups_text(groups@.subrange(from as int, to as int)),
{
    let ghost parts = group_numerals(groups@.subrange(from as int, to as int));
    let mut i: usize = from;
    while i < to
        invariant
            from <= i <= to <= 8,
            parts == group_numerals(groups@.subrange(from as int, to as int)),
            out@ == old(out)@ + text::join(parts.take(i - from), ':'),
        decreases to - i,
    {
        if i > from {
            out.push(':');
        }
        text::push_number(out, groups[i] as u64, 16);
        proof {
            assert(parts.take(i + 1 - from).drop_last() == parts.take(i - from));
            assert(parts.take(i + 1 - from).last() == text::numeral(groups@[i as int] as nat, 16));
            assert(out@ == old(out)@ + text::join(parts.take(i + 1 - from), ':'));
        }
        i = i + 1;
    }
    assert(parts.take(to - from) == parts);
}

impl IpAddress {
    /// The canonical text.
    pub fn to_text(&self) -> (r: String)
        ensures
            r@ == ip_text(self@),
    {
        let mut out: Vec<char> = Vec::new();
        match self {
            IpAddress::V4(octets) => {
                push_v4(&mut out, *octets);
                assert(out@ == v4_text(octets@));
            },
            IpAddress::V6(groups) => {
                push_v6(&mut out, groups);
                assert(out@ == v6_text(groups@));
            },
        }
        text::string_of(out.as_slice())
    }
}

/// Adds the canonical text of a version 6 address.
fn push_v6(out: &mut Vec<char>, groups: &[u16; 8])
    ensures
        final(out)@ == old(out)@ + v6_text(groups@),
{
    reveal(v6_text);
    let ghost gs = groups@;
    let mapped = groups[0] == 0 && groups[1] == 0 && groups[2] == 0 && groups[3] == 0 && groups[4] == 0
        && groups[5] == 0xffff;
    assert(mapped == v4_mapped(gs)) by {
        assert(mapped == (gs[0] == 0 && gs[1] == 0 && gs[2] == 0 && gs[3] == 0 && gs[4] == 0 && gs[5]
            == 0xffff));
    }
    if mapped {
        out.push(':');
        out.push(':');
        out.push('f');
        out.push('f');
        out.push('f');
        out.push('f');
        out.push(':');
        let octets = [
            (groups[6] / 256) as u8,
            (groups[6] % 256) as u8,
            (groups[7] / 256) as u8,
            (groups[7] % 256) as u8,
        ];
        assert(octets@ == Ip::V6(gs.skip(6)).octets());
        assert(out@ == old(out)@ + seq![':', ':', 'f', 'f', 'f', 'f', ':']);
        push_v4(out, octets);
        assert(out@ == old(out)@ + v6_text(gs));
        return ;
    }
    let mut i: usize = 8;
    let mut here: usize = 0;
    let mut start: usize = 8;
    let mut run: usize = 0;
    while i > 0
        invariant
            i <= 8,
            gs == groups@,
            here == zero_run(gs, i as int),
            here <= 8 - i,
            start == longest_run(gs, i as int),
            i <= start <= 8,
            run == zero_run(gs, start as int),
            start + run <= 8,
        decreases i,
    {
        i = i - 1;
        if groups[i] == 0 {
            here = here + 1;
        } else {
            here = 0;
        }
        if here >= run {
            start = i;
            run = here;
        }
    }
    if run >= 2 {
        push_groups(out, groups, 0, start);
        out.push(':');
        out.push(':');
        push_groups(out, groups, start + run, 8);
        assert(gs.subrange(0, start as int) == gs.take(start as int));
        assert(gs.subrange(start + run, 8) == gs.skip(start + run));
        assert(out@ == old(out)@ + v6_text(gs));
    } else {
        push_groups(out, groups, 0, 8);
        assert(gs.subrange(0, 8) == gs);
    }
}

} // verus!
