//! What the text forms of addresses guarantee.

use vstd::prelude::*;
use crate::ip;
use crate::ip::Ip;
use crate::text;
use crate::text_proofs;

verus! {

/// An address that was read is complete.
pub proof fn law_parsed_is_complete(s: Seq<char>)
    ensures
        ip::parse_ip(s) matches Some(a) ==> a.wf(),
        ip::parse_socket(s) matches Some((a, port)) ==> a.wf() && port <= 65535,
{
    reveal(ip::parse_v6);
}

/// Writing an address and reading it back gives the same address.
pub proof fn law_text_round_trip(a: Ip)
    requires
        a.wf(),
    ensures
        ip::parse_ip(ip::ip_text(a)) == Some(a),
{
    match a {
        Ip::V4(octets) => {
            lemma_v4_round_trip(octets);
        },
        Ip::V6(groups) => {
            lemma_v6_round_trip(groups);
            lemma_v6_is_not_v4(groups);
        },
    }
}

/// Four octets come back, and their text holds no colon.
pub proof fn lemma_v4_round_trip(octets: Seq<u8>)
    requires
        octets.len() == 4,
    ensures
        ip::parse_v4(ip::v4_text(octets)) == Some(octets),
        text_proofs::free_of(ip::v4_text(octets), ':'),
{
    let parts = ip::octet_numerals(octets);
    assert forall|i: int| 0 <= i < 4 implies text_proofs::free_of(#[trigger] parts[i], '.')
        && text_proofs::free_of(parts[i], ':') && ip::octet_text(parts[i]) == Some(octets[i] as nat) by {
        text_proofs::lemma_numeral(octets[i] as nat, 10);
    }
    text_proofs::lemma_split_join(parts, '.');
    text_proofs::lemma_join_free(parts, '.', ':');
    let p = text::split(ip::v4_text(octets), '.');
    assert(p == parts);
    assert(ip::octet_text(parts[0]) is Some && ip::octet_text(parts[1]) is Some && ip::octet_text(
        parts[2],
    ) is Some && ip::octet_text(parts[3]) is Some);
    assert(Seq::new(4, |i: int| ip::octet_text(p[i]).unwrap() as u8) == octets);
}

/// Each group's numeral is a group, without a dot or a colon.
proof fn lemma_group_numerals(groups: Seq<u16>)
    ensures
        forall|i: int|
            0 <= i < groups.len() ==> text_proofs::free_of(#[trigger] ip::group_numerals(groups)[i], '.')
                && text_proofs::free_of(ip::group_numerals(groups)[i], ':')
                && ip::group_numerals(groups)[i].len() > 0 && ip::group_text(
                ip::group_numerals(groups)[i],
            ) == Some(groups[i] as nat),
{
    let parts = ip::group_numerals(groups);
    assert forall|i: int| 0 <= i < groups.len() implies text_proofs::free_of(#[trigger] parts[i], '.')
        && text_proofs::free_of(parts[i], ':') && parts[i].len() > 0 && ip::group_text(parts[i])
        == Some(groups[i] as nat) by {
        text_proofs::lemma_numeral(groups[i] as nat, 16);
        text_proofs::lemma_hex_len(groups[i] as nat);
    }
}

/// The numerals are read as the groups.
proof fn lemma_groups_read(groups: Seq<u16>)
    ensures
        ip::parse_groups(ip::group_numerals(groups)) == Some(groups),
        ip::parse_tail(ip::group_numerals(groups)) == Some(groups),
    decreases groups.len(),
{
    let parts = ip::group_numerals(groups);
    if groups.len() == 0 {
        assert(groups == Seq::<u16>::empty());
    } else {
        let front = groups.drop_last();
        lemma_groups_read(front);
        lemma_group_numerals(groups);
        let last = parts[groups.len() - 1];
        assert(text_proofs::free_of(last, '.') && ip::group_text(last) == Some(groups.last() as nat));
        assert(parts.drop_last() == ip::group_numerals(front));
        assert(front.push(groups.last()) == groups);
        assert(ip::parse_groups(parts) == Some(groups));
        text_proofs::lemma_split_one(last, '.');
        assert(ip::parse_v4(last) is None);
    }
}

/// The pieces of the text are the numerals, and the text holds no `::`.
proof fn lemma_groups_text(groups: Seq<u16>)
    ensures
        ip::colon_pieces(ip::groups_text(groups)) == ip::group_numerals(groups),
        text::find_pair(ip::groups_text(groups), ':', ':') is None,
        ip::groups_text(groups).len() > 0 ==> ip::groups_text(groups).last() != ':',
        text_proofs::free_of(ip::groups_text(groups), '.'),
{
    let parts = ip::group_numerals(groups);
    let s = ip::groups_text(groups);
    lemma_group_numerals(groups);
    assert(forall|i: int|
        0 <= i < parts.len() ==> text_proofs::free_of(#[trigger] parts[i], ':') && parts[i].len() > 0);
    text_proofs::lemma_join_shape(parts, ':');
    text_proofs::lemma_no_pair(s, ':', ':');
    text_proofs::lemma_join_free(parts, ':', '.');
    if groups.len() > 0 {
        text_proofs::lemma_split_join(parts, ':');
    } else {
        assert(parts == Seq::<Seq<char>>::empty());
    }
}

/// A run consists of zero groups, inside the address.
proof fn lemma_run(groups: Seq<u16>, i: int)
    requires
        0 <= i <= groups.len(),
    ensures
        i + ip::zero_run(groups, i) <= groups.len(),
        forall|j: int| i <= j < i + ip::zero_run(groups, i) ==> groups[j] == 0,
    decreases groups.len() - i,
{
    if i < groups.len() && groups[i] == 0 {
        lemma_run(groups, i + 1);
    }
}

/// The longest run starts inside the address.
proof fn lemma_longest(groups: Seq<u16>, i: int)
    requires
        0 <= i <= groups.len(),
    ensures
        i <= ip::longest_run(groups, i) <= groups.len(),
    decreases groups.len() - i,
{
    if i < groups.len() {
        lemma_longest(groups, i + 1);
    }
}

/// Two octets make their group again.
proof fn lemma_mapped_groups(groups: Seq<u16>)
    requires
        groups.len() == 8,
    ensures
        ip::v4_groups(Ip::V6(groups.skip(6)).octets()) == groups.skip(6),
        Ip::V6(groups.skip(6)).octets().len() == 4,
{
    let octets = Ip::V6(groups.skip(6)).octets();
    assert(octets[0] == groups[6] / 256 && octets[1] == groups[6] % 256);
    assert(octets[2] == groups[7] / 256 && octets[3] == groups[7] % 256);
}

/// `ffff` is the group of all ones.
proof fn lemma_ffff()
    ensures
        ip::parse_groups(seq![seq!['f', 'f', 'f', 'f']]) == Some(seq![0xffffu16]),
{
    let x = seq!['f', 'f', 'f', 'f'];
    let x3 = x.drop_last();
    let x2 = x3.drop_last();
    let x1 = x2.drop_last();
    assert(x1.drop_last() == Seq::<char>::empty());
    assert(text::digits(x1.drop_last(), 16) == Some(0nat));
    assert(text::digits(x1, 16) == Some(15nat));
    assert(text::digits(x2, 16) == Some(255nat));
    assert(text::digits(x3, 16) == Some(4095nat));
    assert(text::digits(x, 16) == Some(65535nat));
    let pieces = seq![x];
    assert(pieces.drop_last() == Seq::<Seq<char>>::empty());
    assert(ip::parse_groups(pieces.drop_last()) == Some(Seq::<u16>::empty()));
    assert(Seq::<u16>::empty().push(0xffffu16) == seq![0xffffu16]);
}

/// `ffff` and a version 4 address are three groups.
proof fn lemma_mapped_tail(v4: Seq<char>, octets: Seq<u8>)
    requires
        ip::parse_v4(v4) == Some(octets),
        text_proofs::free_of(v4, ':'),
    ensures
        ip::parse_tail(ip::colon_pieces(seq!['f', 'f', 'f', 'f', ':'] + v4)) == Some(
            seq![0xffffu16] + ip::v4_groups(octets),
        ),
{
    let x = seq!['f', 'f', 'f', 'f'];
    assert(seq!['f', 'f', 'f', 'f', ':'] + v4 == x.push(':') + v4);
    text_proofs::lemma_split_append(x, v4, ':');
    text_proofs::lemma_split_one(x, ':');
    let pieces = seq![x].push(v4);
    assert(pieces.drop_last() == seq![x]);
    lemma_ffff();
}

/// What follows `::` is the end of the address.
proof fn lemma_leading_pair(rest: Seq<char>)
    ensures
        ip::parse_v6(seq![':', ':'] + rest) == (match ip::parse_tail(ip::colon_pieces(rest)) {
            Some(tail) if tail.len() <= 7 => Some(ip::zeros(8 - tail.len()) + tail),
            _ => None,
        }),
{
    reveal(ip::parse_v6);
    let none = Seq::<char>::empty();
    let s = seq![':', ':'] + rest;
    text_proofs::lemma_pair_after(none, rest, ':');
    assert(s == none + seq![':', ':'] + rest);
    assert(s.take(0) == none);
    assert(s.skip(2) == rest);
    assert(ip::parse_groups(ip::colon_pieces(none)) == Some(Seq::<u16>::empty()));
    if let Some(tail) = ip::parse_tail(ip::colon_pieces(rest)) {
        assert(Seq::<u16>::empty() + ip::zeros(8 - tail.len()) + tail == ip::zeros(8 - tail.len()) + tail);
    }
}

/// An embedded version 4 address comes back.
proof fn lemma_mapped_text(groups: Seq<u16>)
    requires
        groups.len() == 8,
        ip::v4_mapped(groups),
    ensures
        ip::parse_v6(ip::v6_text(groups)) == Some(groups),
{
    let octets = Ip::V6(groups.skip(6)).octets();
    let v4 = ip::v4_text(octets);
    let rest = seq!['f', 'f', 'f', 'f', ':'] + v4;
    lemma_mapped_groups(groups);
    lemma_v4_round_trip(octets);
    lemma_mapped_tail(v4, octets);
    lemma_leading_pair(rest);
    assert(ip::v6_text(groups) == seq![':', ':'] + rest) by {
        reveal(ip::v6_text);
    }
    assert(ip::zeros(5) + (seq![0xffffu16] + groups.skip(6)) == groups);
}

/// Groups with a run of zeros written as `::` come back.
proof fn lemma_compressed(head: Seq<u16>, run: int, tail: Seq<u16>)
    requires
        head.len() + run + tail.len() == 8,
        run >= 1,
    ensures
        ip::parse_v6(ip::groups_text(head) + seq![':', ':'] + ip::groups_text(tail)) == Some(
            head + ip::zeros(run) + tail,
        ),
{
    reveal(ip::parse_v6);
    let before = ip::groups_text(head);
    let after = ip::groups_text(tail);
    let s = before + seq![':', ':'] + after;
    assert(text::find_pair(s, ':', ':') == Some(before.len() as int)) by {
        lemma_groups_text(head);
        text_proofs::lemma_pair_after(before, after, ':');
    }
    assert(s.take(before.len() as int) == before);
    assert(s.skip(before.len() as int + 2) == after);
    assert(ip::parse_groups(ip::colon_pieces(before)) == Some(head)) by {
        lemma_groups_text(head);
        lemma_groups_read(head);
    }
    assert(ip::parse_tail(ip::colon_pieces(after)) == Some(tail)) by {
        lemma_groups_text(tail);
        lemma_groups_read(tail);
    }
}

/// Eight groups in full come back.
proof fn lemma_in_full(groups: Seq<u16>)
    requires
        groups.len() == 8,
    ensures
        ip::parse_v6(ip::groups_text(groups)) == Some(groups),
{
    reveal(ip::parse_v6);
    let s = ip::groups_text(groups);
    lemma_groups_text(groups);
    assert(ip::group_numerals(groups).len() == 8);
    assert(text::split(s, ':') == ip::group_numerals(groups));
    lemma_groups_read(groups);
}

/// Eight groups come back from their canonical text.
proof fn lemma_v6_round_trip(groups: Seq<u16>)
    requires
        groups.len() == 8,
    ensures
        ip::parse_v6(ip::v6_text(groups)) == Some(groups),
{
    if ip::v4_mapped(groups) {
        lemma_mapped_text(groups);
    } else {
        reveal(ip::v6_text);
        let start = ip::longest_run(groups, 0);
        let run = ip::zero_run(groups, start);
        lemma_longest(groups, 0);
        lemma_run(groups, start);
        if run >= 2 {
            let head = groups.take(start);
            let tail = groups.skip(start + run);
            lemma_compressed(head, run as int, tail);
            assert(head + ip::zeros(run as int) + tail == groups);
        } else {
            lemma_in_full(groups);
        }
    }
}

/// The text of a version 6 address is none of version 4.
proof fn lemma_v6_is_not_v4(groups: Seq<u16>)
    requires
        groups.len() == 8,
    ensures
        ip::parse_v4(ip::v6_text(groups)) is None,
{
    reveal(ip::v6_text);
    let s = ip::v6_text(groups);
    if ip::v4_mapped(groups) {
        text_proofs::lemma_split_first(s, '.');
        let first = text::split(s, '.')[0];
        text_proofs::lemma_digits_first(first, 10);
        assert(ip::octet_text(first) is None);
    } else {
        let start = ip::longest_run(groups, 0);
        let run = ip::zero_run(groups, start);
        lemma_groups_text(groups);
        lemma_groups_text(groups.take(start));
        lemma_groups_text(groups.skip(start + run));
        assert(text_proofs::free_of(s, '.'));
        text_proofs::lemma_split_one(s, '.');
    }
}

} // verus!
