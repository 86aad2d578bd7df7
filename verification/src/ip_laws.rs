//! What the text and the octets of addresses amount to.

use vstd::prelude::*;
use crate::ip;
use crate::ip::{Ip, IpAddress};
use crate::ip_proofs;
use crate::text;
use crate::text_laws;
use crate::text_proofs;

verus! {

/// Four decimal numbers with dots between them.
pub open spec fn dotted(o: Seq<u8>) -> Seq<char> {
    text::numeral(o[0] as nat, 10).push('.') + text::numeral(o[1] as nat, 10).push('.') + text::numeral(
        o[2] as nat,
        10,
    ).push('.') + text::numeral(o[3] as nat, 10)
}

/// A version 4 address is written as its octets in decimal with dots between them.
pub proof fn law_v4_text(o: Seq<u8>)
    requires
        o.len() == 4,
    ensures
        ip::ip_text(Ip::V4(o)) == dotted(o),
{
    let p = ip::octet_numerals(o);
    assert(p.drop_last().drop_last().drop_last() == seq![p[0]]);
    text_laws::law_join(seq![p[0]], seq![p[1]], p[0], '.');
    text_laws::law_join(seq![p[0], p[1]], seq![p[2]], p[1], '.');
    text_laws::law_join(seq![p[0], p[1], p[2]], seq![p[3]], p[2], '.');
    text_laws::law_join(seq![], seq![], p[3], '.');
    assert(seq![p[0]] + seq![p[1]] == seq![p[0], p[1]]);
    assert(seq![p[0], p[1]] + seq![p[2]] == seq![p[0], p[1], p[2]]);
    assert(seq![p[0], p[1], p[2]] + seq![p[3]] == p);
    let (a, b, c, d) = (p[0], p[1], p[2], p[3]);
    assert(((a.push('.') + b).push('.') + c).push('.') + d == a.push('.') + b.push('.') + c.push('.') + d);
}

/// A text is read as a version 4 address exactly if it is how that address is
/// written.
pub proof fn law_v4_is_read_as_written(s: Seq<char>, o: Seq<u8>)
    ensures
        ip::parse_v4(s) == Some(o) <==> o.len() == 4 && s == dotted(o),
{
    if o.len() == 4 && s == dotted(o) {
        law_v4_text(o);
        ip_proofs::lemma_v4_round_trip(o);
    }
    if ip::parse_v4(s) == Some(o) {
        let p = text::split(s, '.');
        let q = ip::octet_numerals(o);
        assert forall|i: int| 0 <= i < 4 implies p[i] == #[trigger] q[i] by {
            assert(ip::octet_text(p[i]) is Some);
            let v = ip::octet_text(p[i]).unwrap();
            assert(o[i] == v as u8);
            text_laws::law_number(p[i], 10, 255, v);
            text_laws::law_numeral_is_unique(p[i], v);
        }
        assert(p == q);
        text_laws::law_split_pieces(s, '.');
        law_v4_text(o);
    }
}

/// Texts of one to four hexadecimal digits each, and the groups that they stand for.
pub open spec fn group_row(texts: Seq<Seq<char>>, groups: Seq<u16>) -> bool {
    &&& texts.len() == groups.len()
    &&& forall|i: int|
        0 <= i < texts.len() ==> 1 <= (#[trigger] texts[i]).len() <= 4 && text::digits(texts[i], 16) == Some(
            groups[i] as nat,
        )
}

/// The same, but the last text is a version 4 address, which fills two groups.
pub open spec fn mixed_row(texts: Seq<Seq<char>>, groups: Seq<u16>) -> bool {
    &&& texts.len() >= 1
    &&& groups.len() == texts.len() + 1
    &&& group_row(texts.drop_last(), groups.take(groups.len() - 2))
    &&& embeds(texts.last(), groups[groups.len() - 2], groups[groups.len() - 1])
}

/// A version 4 address and the two groups that it fills.
pub open spec fn embeds(s: Seq<char>, high: u16, low: u16) -> bool {
    let o = seq![(high / 256) as u8, (high % 256) as u8, (low / 256) as u8, (low % 256) as u8];
    s == dotted(o)
}

/// The texts of a whole address, or of the part after `::`.
pub open spec fn tail_row(texts: Seq<Seq<char>>, groups: Seq<u16>) -> bool {
    group_row(texts, groups) || mixed_row(texts, groups)
}

/// Groups are read one by one.
proof fn lemma_groups(texts: Seq<Seq<char>>, groups: Seq<u16>)
    ensures
        ip::parse_groups(texts) == Some(groups) <==> group_row(texts, groups),
    decreases texts.len(),
{
    if texts.len() == 0 {
        if group_row(texts, groups) {
            assert(groups == Seq::<u16>::empty());
        }
    } else {
        let t = texts.drop_last();
        let last = texts[texts.len() - 1];
        if ip::parse_groups(texts) == Some(groups) {
            let front = ip::parse_groups(t).unwrap();
            lemma_groups(t, front);
            let v = ip::group_text(last).unwrap();
            text_laws::law_number(last, 16, 0xffff, v);
            assert(groups == front.push(v as u16));
            assert forall|i: int| 0 <= i < texts.len() implies 1 <= (#[trigger] texts[i]).len() <= 4
                && text::digits(texts[i], 16) == Some(groups[i] as nat) by {
                if i < t.len() {
                    assert(t[i] == texts[i]);
                }
            }
        }
        if group_row(texts, groups) {
            let front = groups.drop_last();
            assert forall|i: int| 0 <= i < t.len() implies 1 <= (#[trigger] t[i]).len() <= 4 && text::digits(
                t[i],
                16,
            ) == Some(front[i] as nat) by {
                assert(t[i] == texts[i]);
            }
            lemma_groups(t, front);
            assert(last.len() >= 1);
            assert(front.push(groups.last()) == groups);
            assert(ip::group_text(last) == Some(groups.last() as nat));
        }
    }
}

/// A group holds neither a dot nor a colon.
proof fn lemma_group_free(s: Seq<char>)
    requires
        text::digits(s, 16) is Some,
    ensures
        text_proofs::free_of(s, '.'),
        text_proofs::free_of(s, ':'),
        text_proofs::free_of(s, '%'),
        ip::parse_v4(s) is None,
{
    text_proofs::lemma_digits_free(s, 16, '.');
    text_proofs::lemma_digits_free(s, 16, ':');
    text_proofs::lemma_digits_free(s, 16, '%');
    text_proofs::lemma_split_one(s, '.');
}

/// The dotted form holds neither a colon nor a percent sign, and is not empty.
proof fn lemma_dotted_free(o: Seq<u8>)
    requires
        o.len() == 4,
    ensures
        text_proofs::free_of(dotted(o), ':'),
        text_proofs::free_of(dotted(o), '%'),
        dotted(o).len() > 0,
{
    let (a, b, c, d) = (
        text::numeral(o[0] as nat, 10),
        text::numeral(o[1] as nat, 10),
        text::numeral(o[2] as nat, 10),
        text::numeral(o[3] as nat, 10),
    );
    text_laws::law_numeral(o[0] as nat, 10);
    text_laws::law_numeral(o[1] as nat, 10);
    text_laws::law_numeral(o[2] as nat, 10);
    text_laws::law_numeral(o[3] as nat, 10);
    text_proofs::lemma_digits_free(a, 10, ':');
    text_proofs::lemma_digits_free(b, 10, ':');
    text_proofs::lemma_digits_free(c, 10, ':');
    text_proofs::lemma_digits_free(d, 10, ':');
    text_proofs::lemma_digits_free(a, 10, '%');
    text_proofs::lemma_digits_free(b, 10, '%');
    text_proofs::lemma_digits_free(c, 10, '%');
    text_proofs::lemma_digits_free(d, 10, '%');
}

/// The four octets of two groups, and the groups again.
proof fn lemma_embedded(o: Seq<u8>, high: u16, low: u16)
    ensures
        o.len() == 4 && seq![high, low] == ip::v4_groups(o) ==> o == seq![
            (high / 256) as u8,
            (high % 256) as u8,
            (low / 256) as u8,
            (low % 256) as u8,
        ],
        ip::v4_groups(
            seq![(high / 256) as u8, (high % 256) as u8, (low / 256) as u8, (low % 256) as u8],
        ) == seq![high, low],
{
    if o.len() == 4 && seq![high, low] == ip::v4_groups(o) {
        assert(seq![high, low][0] == high && seq![high, low][1] == low);
        assert(high == o[0] * 256 + o[1] && low == o[2] * 256 + o[3]);
    }
}

/// The part after `::` is read as its texts say.
proof fn lemma_tail(texts: Seq<Seq<char>>, groups: Seq<u16>)
    ensures
        ip::parse_tail(texts) == Some(groups) <==> tail_row(texts, groups),
{
    lemma_groups(texts, groups);
    if texts.len() > 0 {
        let last = texts[texts.len() - 1];
        let t = texts.drop_last();
        match ip::parse_v4(last) {
            Some(o) => {
                law_v4_is_read_as_written(last, o);
                if group_row(texts, groups) {
                    assert(last.len() >= 1);
                    lemma_group_free(last);
                }
                if ip::parse_tail(texts) == Some(groups) {
                    let front = ip::parse_groups(t).unwrap();
                    lemma_groups(t, front);
                    assert(groups == front + ip::v4_groups(o));
                    let n = groups.len();
                    assert(groups.take(n - 2) == front);
                    assert(seq![groups[n - 2], groups[n - 1]] == ip::v4_groups(o));
                    lemma_embedded(o, groups[n - 2], groups[n - 1]);
                }
                if mixed_row(texts, groups) {
                    let n = groups.len();
                    let e = seq![
                        (groups[n - 2] / 256) as u8,
                        (groups[n - 2] % 256) as u8,
                        (groups[n - 1] / 256) as u8,
                        (groups[n - 1] % 256) as u8,
                    ];
                    law_v4_is_read_as_written(last, e);
                    lemma_embedded(e, groups[n - 2], groups[n - 1]);
                    lemma_groups(t, groups.take(n - 2));
                    assert(groups.take(n - 2) + seq![groups[n - 2], groups[n - 1]] == groups);
                }
            },
            None => {
                if mixed_row(texts, groups) {
                    let n = groups.len();
                    let e = seq![
                        (groups[n - 2] / 256) as u8,
                        (groups[n - 2] % 256) as u8,
                        (groups[n - 1] / 256) as u8,
                        (groups[n - 1] % 256) as u8,
                    ];
                    law_v4_is_read_as_written(last, e);
                }
            },
        }
    } else if group_row(texts, groups) {
        assert(groups == Seq::<u16>::empty());
    }
}

/// The texts of an address are not empty and hold no colon and no percent sign.
proof fn lemma_row_free(texts: Seq<Seq<char>>, groups: Seq<u16>)
    requires
        tail_row(texts, groups),
    ensures
        forall|i: int|
            0 <= i < texts.len() ==> text_proofs::free_of(#[trigger] texts[i], ':') && texts[i].len() > 0
                && text_proofs::free_of(texts[i], '%'),
{
    assert forall|i: int| 0 <= i < texts.len() implies text_proofs::free_of(#[trigger] texts[i], ':')
        && texts[i].len() > 0 && text_proofs::free_of(texts[i], '%') by {
        if group_row(texts, groups) {
            lemma_group_free(texts[i]);
        } else if i < texts.len() - 1 {
            let t = texts.drop_last();
            assert(t[i] == texts[i]);
            lemma_group_free(t[i]);
        } else {
            let n = groups.len();
            lemma_dotted_free(
                seq![
                    (groups[n - 2] / 256) as u8,
                    (groups[n - 2] % 256) as u8,
                    (groups[n - 1] / 256) as u8,
                    (groups[n - 1] % 256) as u8,
                ],
            );
        }
    }
}

/// The joined texts of an address: their pieces are the texts again, and no two colons
/// stand side by side.
proof fn lemma_row_joined(texts: Seq<Seq<char>>, groups: Seq<u16>)
    requires
        tail_row(texts, groups),
    ensures
        ip::colon_pieces(text::join(texts, ':')) == texts,
        texts.len() > 0 ==> text::split(text::join(texts, ':'), ':') == texts,
        text::find_pair(text::join(texts, ':'), ':', ':') is None,
        text::join(texts, ':').len() > 0 ==> text::join(texts, ':').last() != ':',
        text_proofs::free_of(text::join(texts, ':'), '%'),
{
    lemma_row_free(texts, groups);
    text_proofs::lemma_join_shape(texts, ':');
    text_proofs::lemma_no_pair(text::join(texts, ':'), ':', ':');
    text_proofs::lemma_join_free(texts, ':', '%');
    if texts.len() > 0 {
        text_proofs::lemma_split_join(texts, ':');
    } else {
        assert(texts == Seq::<Seq<char>>::empty());
    }
}

/// Eight groups, in texts with colons between them, are read as these groups.
pub proof fn law_v6_in_full(texts: Seq<Seq<char>>, groups: Seq<u16>)
    requires
        groups.len() == 8,
        tail_row(texts, groups),
    ensures
        ip::parse_v6(text::join(texts, ':')) == Some(groups),
{
    reveal(ip::parse_v6);
    lemma_row_joined(texts, groups);
    lemma_tail(texts, groups);
}

/// Up to seven groups, with `::` somewhere, are read with zero groups in its place.
pub proof fn law_v6_compressed(
    before: Seq<Seq<char>>,
    head: Seq<u16>,
    after: Seq<Seq<char>>,
    tail: Seq<u16>,
    groups: Seq<u16>,
)
    requires
        group_row(before, head),
        tail_row(after, tail),
        head.len() + tail.len() <= 7,
        groups.len() == 8,
        groups.take(head.len() as int) == head,
        groups.skip(8 - tail.len()) == tail,
        forall|i: int| head.len() <= i < 8 - tail.len() ==> groups[i] == 0,
    ensures
        ip::parse_v6(text::join(before, ':') + seq![':', ':'] + text::join(after, ':')) == Some(groups),
{
    reveal(ip::parse_v6);
    let x = text::join(before, ':');
    let y = text::join(after, ':');
    let s = x + seq![':', ':'] + y;
    lemma_row_joined(before, head);
    lemma_row_joined(after, tail);
    text_proofs::lemma_pair_after(x, y, ':');
    assert(s.take(x.len() as int) == x);
    assert(s.skip(x.len() as int + 2) == y);
    lemma_groups(before, head);
    lemma_tail(after, tail);
    let z = ip::zeros(8 - head.len() - tail.len());
    assert forall|i: int| 0 <= i < 8 implies (head + z + tail)[i] == groups[i] by {
        if i < head.len() {
            assert(groups.take(head.len() as int)[i] == groups[i]);
        } else if i >= 8 - tail.len() {
            assert(groups.skip(8 - tail.len())[i - (8 - tail.len())] == groups[i]);
        }
    }
    assert(head + z + tail == groups);
}

/// The texts of an address in full.
pub open spec fn written_in_full(s: Seq<char>, texts: Seq<Seq<char>>, groups: Seq<u16>) -> bool {
    tail_row(texts, groups) && s == text::join(texts, ':')
}

/// The texts of an address with `::` in it: the groups before and after it.
pub open spec fn written_in_short(
    s: Seq<char>,
    before: Seq<Seq<char>>,
    after: Seq<Seq<char>>,
    groups: Seq<u16>,
    run: int,
) -> bool {
    let h = before.len() as int;
    &&& run >= 1
    &&& h + run <= 8
    &&& group_row(before, groups.take(h))
    &&& tail_row(after, groups.skip(h + run))
    &&& forall|i: int| h <= i < h + run ==> groups[i] == 0
    &&& s == text::join(before, ':') + seq![':', ':'] + text::join(after, ':')
}

/// The pieces between the colons make up the text.
proof fn lemma_colon_pieces(s: Seq<char>)
    ensures
        text::join(ip::colon_pieces(s), ':') == s,
{
    if s.len() > 0 {
        text_laws::law_split_pieces(s, ':');
    }
}

/// A text with `::` that is read is an address in short.
proof fn lemma_in_short(s: Seq<char>, groups: Seq<u16>, i: int)
    requires
        ip::parse_v6(s) == Some(groups),
        text::find_pair(s, ':', ':') == Some(i),
    ensures
        groups.len() == 8,
        exists|before: Seq<Seq<char>>, after: Seq<Seq<char>>, run: int| #[trigger]
            written_in_short(s, before, after, groups, run),
        text_proofs::free_of(s, '%'),
        0 <= i < s.len() && s[i] == ':',
{
    let x = s.take(i);
    let y = s.skip(i + 2);
    let before = ip::colon_pieces(x);
    let after = ip::colon_pieces(y);
    text_laws::law_find_pair(s, ':', ':', i);
    assert(text_laws::pair_at(s, ':', ':', i));
    assert(ip::parse_groups(before) is Some && ip::parse_tail(after) is Some) by {
        reveal(ip::parse_v6);
    }
    let head = ip::parse_groups(before).unwrap();
    let tail = ip::parse_tail(after).unwrap();
    let run = 8 - head.len() - tail.len();
    assert(run >= 1 && groups == head + ip::zeros(run) + tail) by {
        reveal(ip::parse_v6);
    }
    lemma_in_short_parts(s, groups, i, before, head, after, tail);
}

/// The parts of an address in short.
proof fn lemma_in_short_parts(
    s: Seq<char>,
    groups: Seq<u16>,
    i: int,
    before: Seq<Seq<char>>,
    head: Seq<u16>,
    after: Seq<Seq<char>>,
    tail: Seq<u16>,
)
    requires
        0 <= i && i + 1 < s.len() && s[i] == ':' && s[i + 1] == ':',
        before == ip::colon_pieces(s.take(i)),
        after == ip::colon_pieces(s.skip(i + 2)),
        ip::parse_groups(before) == Some(head),
        ip::parse_tail(after) == Some(tail),
        head.len() + tail.len() <= 7,
        groups == head + ip::zeros(8 - head.len() - tail.len()) + tail,
    ensures
        groups.len() == 8,
        written_in_short(s, before, after, groups, 8 - head.len() - tail.len()),
        text_proofs::free_of(s, '%'),
{
    let x = s.take(i);
    let y = s.skip(i + 2);
    let run = 8 - head.len() - tail.len();
    lemma_groups(before, head);
    lemma_tail(after, tail);
    lemma_colon_pieces(x);
    lemma_colon_pieces(y);
    lemma_row_joined(before, head);
    lemma_row_joined(after, tail);
    assert(s == x + seq![':', ':'] + y);
    assert(groups.take(before.len() as int) == head);
    assert(groups.skip(before.len() + run) == tail);
}

/// A text without `::` that is read is an address in full.
proof fn lemma_in_full(s: Seq<char>, groups: Seq<u16>)
    requires
        ip::parse_v6(s) == Some(groups),
        text::find_pair(s, ':', ':') is None,
    ensures
        groups.len() == 8,
        exists|texts: Seq<Seq<char>>| #[trigger] written_in_full(s, texts, groups),
        text_proofs::free_of(s, '%'),
        exists|i: int| 0 <= i < s.len() && s[i] == ':',
{
    let texts = text::split(s, ':');
    assert(ip::parse_tail(texts) == Some(groups) && groups.len() == 8) by {
        reveal(ip::parse_v6);
    }
    lemma_tail(texts, groups);
    text_laws::law_split_pieces(s, ':');
    lemma_row_joined(texts, groups);
    assert(written_in_full(s, texts, groups));
    if text_proofs::free_of(s, ':') {
        text_proofs::lemma_split_one(s, ':');
    }
}

/// Nothing else is read as a version 6 address.
pub proof fn law_v6_is_written_in_full_or_in_short(s: Seq<char>, groups: Seq<u16>)
    requires
        ip::parse_v6(s) == Some(groups),
    ensures
        groups.len() == 8,
        (exists|texts: Seq<Seq<char>>| #[trigger] written_in_full(s, texts, groups)) || (exists|
            before: Seq<Seq<char>>,
            after: Seq<Seq<char>>,
            run: int,
        | #[trigger]
            written_in_short(s, before, after, groups, run)),
        text_proofs::free_of(s, '%'),
        exists|i: int| 0 <= i < s.len() && s[i] == ':',
{
    match text::find_pair(s, ':', ':') {
        Some(i) => {
            lemma_in_short(s, groups, i);
        },
        None => {
            lemma_in_full(s, groups);
        },
    }
}

/// An address is of one version or the other, as its text is.
pub proof fn law_versions_do_not_overlap(s: Seq<char>, o: Seq<u8>, groups: Seq<u16>)
    ensures
        ip::parse_ip(s) == Some(Ip::V4(o)) <==> ip::parse_v4(s) == Some(o),
        ip::parse_ip(s) == Some(Ip::V6(groups)) <==> ip::parse_v6(s) == Some(groups),
{
    if ip::parse_v6(s) == Some(groups) {
        law_v6_is_written_in_full_or_in_short(s, groups);
        if let Some(p) = ip::parse_v4(s) {
            law_v4_is_read_as_written(s, p);
            lemma_dotted_free(p);
        }
    }
}

/// A decimal number up to `max`.
pub open spec fn writes(s: Seq<char>, n: nat, max: nat) -> bool {
    s.len() > 0 && n <= max && text::digits(s, 10) == Some(n)
}

/// A host in brackets: a version 6 address, which a percent sign and a scope may
/// follow.
pub open spec fn bracketed(host: Seq<char>, groups: Seq<u16>) -> bool {
    exists|inner: Seq<char>, scope: Option<(Seq<char>, nat)>| #[trigger]
        bracketed_as(host, groups, inner, scope)
}

/// The inside of the brackets, and the scope.
pub open spec fn bracketed_as(
    host: Seq<char>,
    groups: Seq<u16>,
    inner: Seq<char>,
    scope: Option<(Seq<char>, nat)>,
) -> bool {
    &&& ip::parse_v6(inner) == Some(groups)
    &&& match scope {
        None => host == seq!['['] + inner + seq![']'],
        Some((digits, n)) => writes(digits, n, 0xffff_ffff) && host == seq!['['] + inner + seq!['%'] + digits
            + seq![']'],
    }
}

/// A scoped address is read as the address.
proof fn lemma_scoped(s: Seq<char>, groups: Seq<u16>)
    ensures
        ip::parse_scoped_v6(s) == Some(groups) <==> bracketed(seq!['['] + s + seq![']'], groups),
{
    let host = seq!['['] + s + seq![']'];
    assert(host.subrange(1, host.len() - 1) == s);
    if ip::parse_scoped_v6(s) == Some(groups) {
        match text::find(s, '%') {
            Some(i) => {
                text_laws::law_find(s, '%', i);
                let digits = s.skip(i + 1);
                let n = text::number(digits, 10, 0xffff_ffff).unwrap();
                text_laws::law_number(digits, 10, 0xffff_ffff, n);
                assert(host == seq!['['] + s.take(i) + seq!['%'] + digits + seq![']']);
                assert(bracketed_as(host, groups, s.take(i), Some((digits, n))));
            },
            None => {
                assert(bracketed_as(host, groups, s, None));
            },
        }
    }
    if bracketed(host, groups) {
        let (inner, scope) = choose|inner: Seq<char>, scope: Option<(Seq<char>, nat)>| #[trigger]
            bracketed_as(host, groups, inner, scope);
        law_v6_is_written_in_full_or_in_short(inner, groups);
        match scope {
            None => {
                assert(host.subrange(1, host.len() - 1) == inner);
                text_proofs::lemma_find_none(inner, '%');
            },
            Some((digits, n)) => {
                assert(host.subrange(1, host.len() - 1) == inner + seq!['%'] + digits);
                let i = inner.len() as int;
                assert(s.take(i) == inner);
                assert(s.skip(i + 1) == digits);
                text_proofs::lemma_find_at(s, i, '%');
                text_laws::law_number(digits, 10, 0xffff_ffff, n);
            },
        }
    }
}

/// A socket address is an address of version 4, or one of version 6 in brackets, then a
/// colon and a decimal port; and nothing else is one.
pub proof fn law_socket_address(s: Seq<char>, host: Seq<char>, port: Seq<char>, a: Ip, n: nat)
    requires
        s == host.push(':') + port,
        text_proofs::free_of(port, ':'),
    ensures
        ip::parse_socket(s) == Some((a, n)) <==> writes(port, n, 65535) && match a {
            Ip::V4(o) => o.len() == 4 && host == dotted(o),
            Ip::V6(groups) => bracketed(host, groups),
        },
{
    let i = host.len() as int;
    assert(s.skip(i + 1) == port);
    assert(s.take(i) == host);
    text_proofs::lemma_rfind_at(s, i, ':');
    text_laws::law_number(port, 10, 65535, n);
    match a {
        Ip::V4(o) => {
            law_v4_is_read_as_written(host, o);
        },
        Ip::V6(groups) => {
            if host.len() >= 2 && host[0] == '[' && host.last() == ']' {
                let s = host.subrange(1, host.len() - 1);
                assert(seq!['['] + s + seq![']'] == host);
                lemma_scoped(s, groups);
                if let Some(o) = ip::parse_v4(host) {
                    lemma_v4_no_bracket(host, o);
                }
            }
            if let Some(o) = ip::parse_v4(host) {
                lemma_v4_no_bracket(host, o);
            }
        },
    }
}

/// The dotted form does not begin with a bracket.
proof fn lemma_v4_no_bracket(s: Seq<char>, o: Seq<u8>)
    requires
        ip::parse_v4(s) == Some(o),
    ensures
        s.len() > 0,
        s[0] != '[',
{
    law_v4_is_read_as_written(s, o);
    text_laws::law_numeral(o[0] as nat, 10);
    let a = text::numeral(o[0] as nat, 10);
    assert(text_laws::low_digit(a[0]));
    assert(s[0] == a[0]);
}

/// A text without a colon is no socket address.
pub proof fn law_a_socket_address_has_a_port(s: Seq<char>)
    requires
        text_proofs::free_of(s, ':'),
    ensures
        ip::parse_socket(s) is None,
{
    text_laws::law_rfind(s, ':', 0);
}

/// The octets of an address, in network order: the high byte of each group before the
/// low one.
pub proof fn law_octets(o: Seq<u8>, groups: Seq<u16>, i: int)
    ensures
        Ip::V4(o).octets() == o,
        Ip::V6(groups).octets().len() == 2 * groups.len(),
        0 <= i < groups.len() ==> Ip::V6(groups).octets()[2 * i] * 256 + Ip::V6(groups).octets()[2 * i + 1]
            == groups[i],
{
}

/// The unspecified addresses are those without a bit set.
pub proof fn law_unspecified(a: Ip)
    requires
        a.wf(),
    ensures
        a.unspecified() <==> forall|i: int| 0 <= i < a.octets().len() ==> a.octets()[i] == 0,
{
    match a {
        Ip::V4(o) => {
            if forall|i: int| 0 <= i < a.octets().len() ==> a.octets()[i] == 0 {
                assert forall|i: int| 0 <= i < 4 implies o[i] == 0 by {
                    assert(a.octets()[i] == 0);
                }
                assert(o == Seq::new(4, |i: int| 0u8));
            }
        },
        Ip::V6(groups) => {
            if forall|i: int| 0 <= i < a.octets().len() ==> a.octets()[i] == 0 {
                assert forall|i: int| 0 <= i < 8 implies groups[i] == 0 by {
                    assert(a.octets()[2 * i] == 0 && a.octets()[2 * i + 1] == 0);
                }
                assert(groups == ip::zeros(8));
            }
        },
    }
}

/// A complete address has four octets or eight groups.
pub proof fn law_complete(o: Seq<u8>, groups: Seq<u16>)
    ensures
        Ip::V4(o).wf() <==> o.len() == 4,
        Ip::V6(groups).wf() <==> groups.len() == 8,
{
}

/// An address is looked at as what it holds.
pub proof fn law_address_view(o: [u8; 4], groups: [u16; 8])
    ensures
        IpAddress::V4(o)@ == Ip::V4(o@),
        IpAddress::V6(groups)@ == Ip::V6(groups@),
{
}

/// The groups from `from` on, up to `to`, are zero.
pub open spec fn zero_between(groups: Seq<u16>, from: int, to: int) -> bool {
    0 <= from <= to <= groups.len() && forall|i: int| from <= i < to ==> groups[i] == 0
}

/// The hexadecimal numerals of groups, with colons between them.
pub open spec fn hex_groups(groups: Seq<u16>) -> Seq<char> {
    text::join(Seq::new(groups.len(), |i: int| text::numeral(groups[i] as nat, 16)), ':')
}

/// A run is as long as there are zero groups.
proof fn lemma_zero_run(groups: Seq<u16>, i: int, to: int)
    requires
        0 <= i <= groups.len(),
    ensures
        zero_between(groups, i, i + ip::zero_run(groups, i)),
        zero_between(groups, i, to) ==> to <= i + ip::zero_run(groups, i),
    decreases groups.len() - i,
{
    if i < groups.len() && groups[i] == 0 {
        lemma_zero_run(groups, i + 1, to);
        assert(zero_between(groups, i, to) && i < to ==> zero_between(groups, i + 1, to));
    }
}

/// No run from `i` on is longer than the longest, and none before it is as long.
proof fn lemma_longest_run(groups: Seq<u16>, i: int, k: int)
    requires
        0 <= i <= k <= groups.len(),
    ensures
        i <= ip::longest_run(groups, i) <= groups.len(),
        ip::zero_run(groups, k) <= ip::zero_run(groups, ip::longest_run(groups, i)),
        k < ip::longest_run(groups, i) ==> ip::zero_run(groups, k) < ip::zero_run(
            groups,
            ip::longest_run(groups, i),
        ),
    decreases groups.len() - i,
{
    if i < groups.len() {
        if k > i {
            lemma_longest_run(groups, i + 1, k);
        } else {
            lemma_longest_run(groups, i + 1, i + 1);
        }
    }
}

/// How a version 6 address is written: one that embeds an address of version 4 shows
/// it; else `::` stands for the longest run of zero groups, and of equally long ones
/// for the first, unless no two zero groups stand side by side.
pub proof fn law_v6_text(groups: Seq<u16>, start: int, to: int)
    requires
        groups.len() == 8,
    ensures
        ({
            let mapped = zero_between(groups, 0, 5) && groups[5] == 0xffff;
            let s = ip::ip_text(Ip::V6(groups));
            &&& mapped ==> s == seq![':', ':', 'f', 'f', 'f', 'f', ':'] + dotted(
                seq![
                    (groups[6] / 256) as u8,
                    (groups[6] % 256) as u8,
                    (groups[7] / 256) as u8,
                    (groups[7] % 256) as u8,
                ],
            )
            &&& !mapped && (forall|i: int| 0 <= i < 7 ==> !#[trigger] zero_between(groups, i, i + 2)) ==> s
                == hex_groups(groups)
            &&& !mapped && zero_between(groups, start, to) && to - start >= 2 && (forall|i: int, j: int| #[trigger]
                zero_between(groups, i, j) ==> j - i < to - start || (j - i == to - start && i >= start))
                ==> s == hex_groups(groups.take(start)) + seq![':', ':'] + hex_groups(groups.skip(to))
        }),
{
    reveal(ip::v6_text);
    let mapped = zero_between(groups, 0, 5) && groups[5] == 0xffff;
    assert(mapped <==> ip::v4_mapped(groups));
    if mapped {
        let o = Ip::V6(groups.skip(6)).octets();
        let e = seq![
            (groups[6] / 256) as u8,
            (groups[6] % 256) as u8,
            (groups[7] / 256) as u8,
            (groups[7] % 256) as u8,
        ];
        assert(o == e);
        law_v4_text(e);
    } else {
        let k = ip::longest_run(groups, 0);
        let run = ip::zero_run(groups, k);
        lemma_longest_run(groups, 0, 0);
        lemma_zero_run(groups, k, k);
        assert(zero_between(groups, k, k + run));
        assert(ip::groups_text(groups) == hex_groups(groups)) by {
            assert(ip::group_numerals(groups) == Seq::new(
                groups.len(),
                |i: int| text::numeral(groups[i] as nat, 16),
            ));
        }
        if forall|i: int| 0 <= i < 7 ==> !#[trigger] zero_between(groups, i, i + 2) {
            if run >= 2 {
                assert(zero_between(groups, k, k + 2));
            }
        }
        if zero_between(groups, start, to) && to - start >= 2 && (forall|i: int, j: int| #[trigger]
            zero_between(groups, i, j) ==> j - i < to - start || (j - i == to - start && i >= start)) {
            lemma_longest_run(groups, 0, start);
            lemma_zero_run(groups, start, to);
            lemma_zero_run(groups, start, start);
            assert(zero_between(groups, start, start + ip::zero_run(groups, start)));
            assert(k == start && run == to - start);
            let a = groups.take(start);
            let b = groups.skip(to);
            assert(ip::group_numerals(a) == Seq::new(a.len(), |i: int| text::numeral(a[i] as nat, 16)));
            assert(ip::group_numerals(b) == Seq::new(b.len(), |i: int| text::numeral(b[i] as nat, 16)));
        }
    }
}

} // verus!
