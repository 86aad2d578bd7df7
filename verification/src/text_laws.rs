//! What searching, splitting, trimming and reading numbers amount to.

use vstd::prelude::*;
use crate::text;
use crate::text_proofs;

verus! {

/// The first `c` is at `i` exactly if `c` is there and nowhere before.
pub proof fn law_find(s: Seq<char>, c: char, i: int)
    ensures
        text::find(s, c) == Some(i) <==> 0 <= i < s.len() && s[i] == c && forall|j: int|
            0 <= j < i ==> s[j] != c,
        text::find(s, c) is None <==> forall|j: int| 0 <= j < s.len() ==> s[j] != c,
    decreases s.len(),
{
    if s.len() > 0 {
        let t = s.drop_last();
        law_find(t, c, i);
        assert(forall|j: int| 0 <= j < t.len() ==> t[j] == s[j]);
        if let Some(k) = text::find(t, c) {
            law_find(t, c, k);
        }
        assert(s[s.len() - 1] == s.last());
        if 0 <= i < t.len() {
            assert(t[i] == s[i]);
        }
    }
}

/// The last `c` is at `i` exactly if `c` is there and nowhere after.
pub proof fn law_rfind(s: Seq<char>, c: char, i: int)
    ensures
        text::rfind(s, c) == Some(i) <==> 0 <= i < s.len() && s[i] == c && forall|j: int|
            i < j < s.len() ==> s[j] != c,
        text::rfind(s, c) is None <==> forall|j: int| 0 <= j < s.len() ==> s[j] != c,
    decreases s.len(),
{
    if s.len() > 0 {
        let t = s.drop_last();
        law_rfind(t, c, i);
        assert(forall|j: int| 0 <= j < t.len() ==> t[j] == s[j]);
        assert(s[s.len() - 1] == s.last());
    }
}

/// `a` is at `i`, and `b` right after it.
pub open spec fn pair_at(s: Seq<char>, a: char, b: char, i: int) -> bool {
    0 <= i && i + 1 < s.len() && s[i] == a && s[i + 1] == b
}

/// The first pair is at `i` exactly if it is there and nowhere before.
pub proof fn law_find_pair(s: Seq<char>, a: char, b: char, i: int)
    ensures
        text::find_pair(s, a, b) == Some(i) <==> pair_at(s, a, b, i) && forall|j: int|
            0 <= j < i ==> !#[trigger] pair_at(s, a, b, j),
        text::find_pair(s, a, b) is None <==> forall|j: int| !#[trigger] pair_at(s, a, b, j),
    decreases s.len(),
{
    if s.len() >= 2 {
        let t = s.drop_last();
        law_find_pair(t, a, b, i);
        assert forall|j: int| #[trigger] pair_at(s, a, b, j) <==> pair_at(t, a, b, j) || (j == s.len() - 2
            && pair_at(s, a, b, s.len() - 2)) by {
            if 0 <= j && j + 1 < t.len() {
                assert(t[j] == s[j] && t[j + 1] == s[j + 1]);
            }
        }
        assert(pair_at(s, a, b, s.len() - 2) <==> s[s.len() - 2] == a && s.last() == b);
        if let Some(k) = text::find_pair(t, a, b) {
            law_find_pair(t, a, b, k);
            assert(pair_at(t, a, b, k));
            assert(pair_at(s, a, b, k));
            if pair_at(s, a, b, i) && !pair_at(t, a, b, i) {
                assert(k < i);
            }
        } else {
            assert(forall|j: int| !pair_at(t, a, b, j));
        }
    }
}

/// The last pair is at `i` exactly if it is there and nowhere after.
pub proof fn law_rfind_pair(s: Seq<char>, a: char, b: char, i: int)
    ensures
        text::rfind_pair(s, a, b) == Some(i) <==> pair_at(s, a, b, i) && forall|j: int|
            j > i ==> !#[trigger] pair_at(s, a, b, j),
        text::rfind_pair(s, a, b) is None <==> forall|j: int| !#[trigger] pair_at(s, a, b, j),
    decreases s.len(),
{
    if s.len() >= 2 {
        let t = s.drop_last();
        law_rfind_pair(t, a, b, i);
        assert forall|j: int| #[trigger] pair_at(s, a, b, j) <==> pair_at(t, a, b, j) || (j == s.len() - 2
            && pair_at(s, a, b, s.len() - 2)) by {
            if 0 <= j && j + 1 < t.len() {
                assert(t[j] == s[j] && t[j + 1] == s[j + 1]);
            }
        }
        assert(pair_at(s, a, b, s.len() - 2) <==> s[s.len() - 2] == a && s.last() == b);
        assert forall|j: int| #[trigger] pair_at(t, a, b, j) implies pair_at(s, a, b, j) && j < s.len() - 2 by {
            assert(t[j] == s[j] && t[j + 1] == s[j + 1]);
        }
        if !pair_at(s, a, b, s.len() - 2) {
            assert(forall|j: int| #[trigger] pair_at(s, a, b, j) ==> pair_at(t, a, b, j));
        }
    }
}

/// A text without the separator is its own only piece, and the pieces of two texts
/// with a separator between them are those of the one and then those of the other.
pub proof fn law_split(x: Seq<char>, y: Seq<char>, sep: char)
    ensures
        text_proofs::free_of(x, sep) ==> text::split(x, sep) == seq![x],
        text::split(x.push(sep) + y, sep) == text::split(x, sep) + text::split(y, sep),
    decreases y.len(),
{
    if text_proofs::free_of(x, sep) {
        text_proofs::lemma_split_one(x, sep);
    }
    let s = x.push(sep) + y;
    let px = text::split(x, sep);
    if y.len() == 0 {
        assert(s == x.push(sep));
        assert(s.drop_last() == x);
        assert(px.push(seq![]) == px + text::split(y, sep));
    } else {
        let z = y.drop_last();
        law_split(x, z, sep);
        text_proofs::lemma_split_nonempty(z, sep);
        let pz = text::split(z, sep);
        assert(s.drop_last() == x.push(sep) + z);
        assert(s.last() == y.last());
        if y.last() == sep {
            assert((px + pz).push(seq![]) == px + pz.push(seq![]));
        } else {
            assert((px + pz).drop_last() == px + pz.drop_last());
            assert((px + pz).last() == pz.last());
            assert((px + pz.drop_last()).push(pz.last().push(y.last())) == px + pz.drop_last().push(
                pz.last().push(y.last()),
            ));
        }
    }
}

/// Pieces are joined by putting the separator between them.
pub proof fn law_join(x: Seq<Seq<char>>, y: Seq<Seq<char>>, piece: Seq<char>, sep: char)
    ensures
        text::join(seq![], sep) == Seq::<char>::empty(),
        text::join(seq![piece], sep) == piece,
        x.len() > 0 && y.len() > 0 ==> text::join(x + y, sep) == text::join(x, sep).push(sep) + text::join(
            y,
            sep,
        ),
    decreases y.len(),
{
    if x.len() > 0 && y.len() == 1 {
        assert((x + y).drop_last() == x);
        assert((x + y).last() == y[0]);
    } else if x.len() > 0 && y.len() > 1 {
        let z = y.drop_last();
        law_join(x, z, piece, sep);
        assert((x + y).drop_last() == x + z);
        assert((x + y).last() == y.last());
        assert(text::join(x + y, sep) == (text::join(x, sep).push(sep) + text::join(z, sep)).push(sep)
            + y.last());
        assert(text::join(x + y, sep) == text::join(x, sep).push(sep) + (text::join(z, sep).push(sep)
            + y.last()));
    }
}

/// The pieces of a text, joined, are the text, and none of them holds the separator.
pub proof fn law_split_pieces(s: Seq<char>, sep: char)
    ensures
        text::split(s, sep).len() > 0,
        text::join(text::split(s, sep), sep) == s,
        forall|i: int|
            0 <= i < text::split(s, sep).len() ==> text_proofs::free_of(#[trigger] text::split(s, sep)[i], sep),
    decreases s.len(),
{
    if s.len() == 0 {
        assert(text::split(s, sep) == seq![Seq::<char>::empty()]);
        assert(s == Seq::<char>::empty());
    } else {
        let t = s.drop_last();
        let p = text::split(t, sep);
        law_split_pieces(t, sep);
        let q = text::split(s, sep);
        assert(t.push(s.last()) == s);
        if s.last() == sep {
            assert(q.drop_last() == p);
            assert(t.push(sep) + Seq::<char>::empty() == s);
        } else {
            let last = p[p.len() - 1];
            assert(text_proofs::free_of(last, sep));
            assert(text_proofs::free_of(last.push(s.last()), sep));
            assert(q.drop_last() == p.drop_last());
            if p.len() > 1 {
                let f = text::join(p.drop_last(), sep);
                assert(t == f.push(sep) + last);
                assert(s == f.push(sep) + last.push(s.last()));
            }
        }
        assert forall|i: int| 0 <= i < q.len() implies text_proofs::free_of(#[trigger] q[i], sep) by {
            if i < p.len() - 1 {
                assert(q[i] == p[i]);
            } else if s.last() == sep && i == p.len() - 1 {
                assert(q[i] == p[i]);
            }
        }
    }
}

/// What trimming takes off at the start is `c`s, and all of them.
pub proof fn law_trim_start(s: Seq<char>, c: char)
    ensures
        ({
            let r = text::trim_start(s, c);
            let k = s.len() - r.len();
            &&& k >= 0
            &&& s.skip(k) == r
            &&& forall|i: int| 0 <= i < k ==> s[i] == c
            &&& r.len() > 0 ==> r[0] != c
        }),
    decreases s.len(),
{
    if s.len() > 0 && s[0] == c {
        let t = s.drop_first();
        law_trim_start(t, c);
        let r = text::trim_start(s, c);
        let k = s.len() - r.len();
        assert(t.skip(k - 1) == s.skip(k));
        assert forall|i: int| 0 <= i < k implies s[i] == c by {
            if i > 0 {
                assert(t[i - 1] == s[i]);
            }
        }
    } else {
        assert(s.skip(0) == s);
    }
}

/// What trimming takes off at the end is `c`s, and all of them.
pub proof fn law_trim_end(s: Seq<char>, c: char)
    ensures
        ({
            let r = text::trim_end(s, c);
            &&& r.len() <= s.len()
            &&& s.take(r.len() as int) == r
            &&& forall|i: int| r.len() <= i < s.len() ==> s[i] == c
            &&& r.len() > 0 ==> r.last() != c
        }),
    decreases s.len(),
{
    if s.len() > 0 && s.last() == c {
        let t = s.drop_last();
        law_trim_end(t, c);
        let r = text::trim_end(s, c);
        assert(t.take(r.len() as int) == s.take(r.len() as int));
        assert forall|i: int| r.len() <= i < s.len() implies s[i] == c by {
            if i < t.len() {
                assert(t[i] == s[i]);
            }
        }
    } else {
        assert(s.take(s.len() as int) == s);
    }
}

/// The decimal digits are the ten characters from `0` on; the hexadecimal ones go on
/// with the six from `a` on, or from `A` on.
pub proof fn law_digit(c: char, d: nat)
    ensures
        text::digit(c, 10) == Some(d) <==> d < 10 && c as int == 48 + d,
        text::digit(c, 16) == Some(d) <==> d < 16 && (if d < 10 {
            c as int == 48 + d
        } else {
            c as int == 87 + d || c as int == 55 + d
        }),
        text::digit(c, 10) is None <==> !(48 <= c as int <= 57),
        text::digit(c, 16) is None <==> !(48 <= c as int <= 57 || 65 <= c as int <= 70 || 97 <= c as int
            <= 102),
{
}

/// The number with these values of its digits, each weighed by its place.
pub open spec fn by_place(values: Seq<nat>, radix: nat) -> int
    decreases values.len(),
{
    if values.len() == 0 {
        0
    } else {
        values[0] * vstd::arithmetic::power::pow(radix as int, (values.len() - 1) as nat) + by_place(values.drop_first(), radix)
    }
}

/// One more place weighs all the others by the radix.
proof fn lemma_one_more_place(values: Seq<nat>, radix: nat)
    requires
        values.len() > 0,
    ensures
        by_place(values, radix) == by_place(values.drop_last(), radix) * radix + values.last(),
    decreases values.len(),
{
    reveal(vstd::arithmetic::power::pow);
    let n = values.len();
    if n == 1 {
        assert(values.drop_first() == Seq::<nat>::empty());
        assert(values.drop_last() == Seq::<nat>::empty());
        assert(values[0] * 1 == values[0]);
        assert(0 * radix == 0) by (nonlinear_arith);
        assert(vstd::arithmetic::power::pow(radix as int, 0) == 1);
    } else {
        let t = values.drop_first();
        lemma_one_more_place(t, radix);
        assert(values.drop_last().drop_first() == t.drop_last());
        let v = values[0] as int;
        let r = radix as int;
        let p = vstd::arithmetic::power::pow(r, (n - 2) as nat);
        let q = by_place(t.drop_last(), radix);
        assert(vstd::arithmetic::power::pow(r, (n - 1) as nat) == r * p);
        assert(v * (r * p) + (q * r + t.last()) == (v * p + q) * r + t.last()) by (nonlinear_arith);
    }
}

/// A row of digits stands for its digits weighed by their places.
pub proof fn law_digits_by_place(s: Seq<char>, values: Seq<nat>, radix: nat)
    requires
        values.len() == s.len(),
        forall|i: int| 0 <= i < s.len() ==> text::digit(#[trigger] s[i], radix) == Some(values[i]),
    ensures
        text::digits(s, radix) matches Some(n) && n == by_place(values, radix),
    decreases s.len(),
{
    if s.len() > 0 {
        let t = s.drop_last();
        let w = values.drop_last();
        assert forall|i: int| 0 <= i < t.len() implies text::digit(#[trigger] t[i], radix) == Some(w[i]) by {
            assert(t[i] == s[i]);
        }
        law_digits_by_place(t, w, radix);
        assert(text::digit(s[s.len() - 1], radix) == Some(values[s.len() - 1]));
        lemma_one_more_place(values, radix);
    }
}

/// A row with anything but digits in it stands for nothing.
pub proof fn law_only_digits(s: Seq<char>, radix: nat)
    ensures
        text::digits(s, radix) is Some <==> forall|i: int|
            0 <= i < s.len() ==> text::digit(#[trigger] s[i], radix) is Some,
    decreases s.len(),
{
    if s.len() > 0 {
        let t = s.drop_last();
        law_only_digits(t, radix);
        assert(forall|i: int| 0 <= i < t.len() ==> t[i] == s[i]);
        if text::digits(s, radix) is Some {
            assert forall|i: int| 0 <= i < s.len() implies text::digit(#[trigger] s[i], radix) is Some by {
                if i < t.len() {
                    assert(text::digit(t[i], radix) is Some);
                }
            }
        } else {
            assert(text::digit(s[s.len() - 1], radix) is None || text::digits(t, radix) is None);
            if text::digits(t, radix) is None {
                let i = choose|i: int| 0 <= i < t.len() && text::digit(#[trigger] t[i], radix) is None;
                assert(text::digit(s[i], radix) is None);
            }
        }
    }
}

/// A number is one or more digits, up to the limit.
pub proof fn law_number(s: Seq<char>, radix: nat, max: nat, n: nat)
    ensures
        text::number(s, radix, max) == Some(n) <==> s.len() > 0 && n <= max && text::digits(s, radix)
            == Some(n),
{
}

/// A port is a decimal number up to 65535, which a plus sign may precede.
pub proof fn law_port_number(s: Seq<char>, n: nat)
    ensures
        s.len() > 0 && n <= 65535 && text::digits(s, 10) == Some(n) ==> text::port_number(s) == Some(n)
            && text::port_number(seq!['+'] + s) == Some(n),
        text::port_number(s) == Some(n) ==> n <= 65535 && s.len() > 0 && (text::digits(s, 10) == Some(n) || (
        s.len() > 1 && s[0] == '+' && text::digits(s.skip(1), 10) == Some(n))),
{
    assert((seq!['+'] + s).drop_first() == s);
    if s.len() > 0 {
        assert(s.drop_first() == s.skip(1));
        if s[0] == '+' {
            text_proofs::lemma_digits_first(s, 10);
        }
    }
}

/// No port is found in anything else.
pub proof fn law_no_port(s: Seq<char>)
    ensures
        text::port_number(s) is None <==> !exists|n: nat| #[trigger] is_port(s, n),
{
    if let Some(n) = text::port_number(s) {
        law_port_number(s, n);
        assert(is_port(s, n));
    } else if exists|n: nat| #[trigger] is_port(s, n) {
        let n = choose|n: nat| #[trigger] is_port(s, n);
        if s[0] == '+' && s.len() > 1 && text::digits(s.skip(1), 10) == Some(n) {
            law_port_number(s.skip(1), n);
            assert(seq!['+'] + s.skip(1) == s);
        } else {
            law_port_number(s, n);
        }
    }
}

/// `s` writes the port `n`.
pub open spec fn is_port(s: Seq<char>, n: nat) -> bool {
    n <= 65535 && s.len() > 0 && (text::digits(s, 10) == Some(n) || (s.len() > 1 && s[0] == '+'
        && text::digits(s.skip(1), 10) == Some(n)))
}

/// A digit or a lower-case letter.
pub open spec fn low_digit(c: char) -> bool {
    48 <= c as int <= 57 || 97 <= c as int <= 102
}

/// The digits of a number stand for the number, in lower case and without zeros in
/// front.
pub proof fn law_numeral(n: nat, radix: nat)
    requires
        radix == 10 || radix == 16,
    ensures
        text::digits(text::numeral(n, radix), radix) == Some(n),
        forall|i: int|
            0 <= i < text::numeral(n, radix).len() ==> low_digit(#[trigger] text::numeral(n, radix)[i]),
        text::numeral(n, radix).len() > 0,
        text::numeral(n, radix)[0] == '0' ==> n == 0 && text::numeral(n, radix).len() == 1,
    decreases n,
{
    text_proofs::lemma_numeral(n, radix);
    let s = text::numeral(n, radix);
    if n >= radix {
        assert(n / radix < n) by (nonlinear_arith)
            requires
                2 <= radix <= n,
        ;
        law_numeral(n / radix, radix);
        let t = text::numeral(n / radix, radix);
        assert forall|i: int| 0 <= i < s.len() implies low_digit(#[trigger] s[i]) by {
            if i < t.len() {
                assert(low_digit(t[i]));
            }
        }
    }
}

/// Decimal digits without zeros in front are the digits of the number they stand
/// for.
pub proof fn law_numeral_is_unique(s: Seq<char>, n: nat)
    requires
        s.len() > 0,
        text::digits(s, 10) == Some(n),
        s[0] == '0' ==> s.len() == 1,
    ensures
        s == text::numeral(n, 10),
        s.len() > 1 ==> n >= 10,
        s[0] != '0' ==> n > 0,
    decreases s.len(),
{
    let t = s.drop_last();
    let d = text::digit(s.last(), 10).unwrap();
    law_digit(s.last(), d);
    assert(t.push(s.last()) == s);
    if s.len() == 1 {
        assert(t == Seq::<char>::empty());
        assert(text::digits(t, 10) == Some(0nat));
        assert(s == text::numeral(n, 10));
    } else {
        let high = text::digits(t, 10).unwrap();
        assert(t[0] == s[0]);
        law_numeral_is_unique(t, high);
        assert(n == high * 10 + d);
        assert(n / 10 == high && n % 10 == d);
        assert(s == text::numeral(n, 10));
    }
}

/// Two hexadecimal digits in lower case stand for the byte.
pub proof fn law_hex_byte(b: u8)
    ensures
        text::hex_byte(b).len() == 2,
        low_digit(text::hex_byte(b)[0]) && low_digit(text::hex_byte(b)[1]),
        text::digit(text::hex_byte(b)[0], 16) matches Some(high) && text::digit(text::hex_byte(b)[1], 16)
            matches Some(low) && 16 * high + low == b,
{
}

/// Pieces are looked at as what they hold.
pub proof fn law_pieces_view(pieces: Seq<Vec<char>>, i: int)
    ensures
        text::pieces_view(pieces).len() == pieces.len(),
        0 <= i < pieces.len() ==> text::pieces_view(pieces)[i] == pieces[i]@,
{
}

} // verus!
