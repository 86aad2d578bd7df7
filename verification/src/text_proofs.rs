//! Facts about searching, splitting and numbers.

use vstd::prelude::*;
use crate::text;

verus! {

/// No `c` in `s`.
pub open spec fn free_of(s: Seq<char>, c: char) -> bool {
    forall|i: int| 0 <= i < s.len() ==> s[i] != c
}

/// A text without the separator is one piece.
pub proof fn lemma_split_one(s: Seq<char>, sep: char)
    requires
        free_of(s, sep),
    ensures
        text::split(s, sep) == seq![s],
    decreases s.len(),
{
    if s.len() > 0 {
        assert(free_of(s.drop_last(), sep));
        lemma_split_one(s.drop_last(), sep);
        assert(s.drop_last().push(s.last()) == s);
        assert(text::split(s, sep) == seq![s]);
    } else {
        assert(s == Seq::<char>::empty());
    }
}

/// There is always a piece.
pub proof fn lemma_split_nonempty(s: Seq<char>, sep: char)
    ensures
        text::split(s, sep).len() > 0,
    decreases s.len(),
{
    if s.len() > 0 {
        lemma_split_nonempty(s.drop_last(), sep);
    }
}

/// What follows a separator, up to the end, is the last piece.
pub proof fn lemma_split_append(x: Seq<char>, y: Seq<char>, sep: char)
    requires
        free_of(y, sep),
    ensures
        text::split(x.push(sep) + y, sep) == text::split(x, sep).push(y),
    decreases y.len(),
{
    let s = x.push(sep) + y;
    if y.len() == 0 {
        assert(s == x.push(sep));
        assert(s.drop_last() == x);
        assert(y == Seq::<char>::empty());
    } else {
        assert(free_of(y.drop_last(), sep));
        assert(s.drop_last() == x.push(sep) + y.drop_last());
        assert(s.last() == y.last());
        lemma_split_append(x, y.drop_last(), sep);
        assert(y.drop_last().push(y.last()) == y);
        assert(text::split(x, sep).push(y.drop_last()).drop_last() == text::split(x, sep));
    }
}

/// Splitting what was joined gives the pieces back.
pub proof fn lemma_split_join(pieces: Seq<Seq<char>>, sep: char)
    requires
        pieces.len() > 0,
        forall|i: int| 0 <= i < pieces.len() ==> free_of(#[trigger] pieces[i], sep),
    ensures
        text::split(text::join(pieces, sep), sep) == pieces,
    decreases pieces.len(),
{
    if pieces.len() == 1 {
        assert(free_of(pieces[0], sep));
        lemma_split_one(pieces[0], sep);
        assert(pieces == seq![pieces[0]]);
    } else {
        let front = pieces.drop_last();
        assert forall|i: int| 0 <= i < front.len() implies free_of(#[trigger] front[i], sep) by {
            assert(free_of(pieces[i], sep));
        }
        lemma_split_join(front, sep);
        assert(free_of(pieces[pieces.len() - 1], sep));
        lemma_split_append(text::join(front, sep), pieces.last(), sep);
        assert(front.push(pieces.last()) == pieces);
    }
}

/// The first piece begins as the text does.
pub proof fn lemma_split_first(s: Seq<char>, sep: char)
    requires
        s.len() > 0,
        s[0] != sep,
    ensures
        text::split(s, sep)[0].len() > 0,
        text::split(s, sep)[0][0] == s[0],
    decreases s.len(),
{
    let pieces = text::split(s.drop_last(), sep);
    lemma_split_nonempty(s.drop_last(), sep);
    if s.len() == 1 {
        assert(s.drop_last() == Seq::<char>::empty());
        assert(text::split(s, sep)[0] == Seq::<char>::empty().push(s.last()));
    } else {
        lemma_split_first(s.drop_last(), sep);
        if s.last() == sep {
            assert(text::split(s, sep)[0] == pieces[0]);
        } else if pieces.len() == 1 {
            assert(text::split(s, sep)[0] == pieces[0].push(s.last()));
        } else {
            assert(text::split(s, sep)[0] == pieces[0]);
        }
    }
}

/// The joined text holds what its pieces hold, and the separator.
pub proof fn lemma_join_free(pieces: Seq<Seq<char>>, sep: char, c: char)
    requires
        c != sep,
        forall|i: int| 0 <= i < pieces.len() ==> free_of(#[trigger] pieces[i], c),
    ensures
        free_of(text::join(pieces, sep), c),
    decreases pieces.len(),
{
    if pieces.len() == 1 {
        assert(free_of(pieces[0], c));
    } else if pieces.len() > 1 {
        let front = pieces.drop_last();
        assert forall|i: int| 0 <= i < front.len() implies free_of(#[trigger] front[i], c) by {
            assert(free_of(pieces[i], c));
        }
        lemma_join_free(front, sep, c);
        assert(free_of(pieces[pieces.len() - 1], c));
    }
}

/// Where no `a` has a `b` after it, no pair is found.
pub proof fn lemma_no_pair(s: Seq<char>, a: char, b: char)
    requires
        forall|i: int| 0 <= i && i + 1 < s.len() ==> !(s[i] == a && #[trigger] s[i + 1] == b),
    ensures
        text::find_pair(s, a, b) is None,
    decreases s.len(),
{
    if s.len() >= 2 {
        let t = s.drop_last();
        assert forall|i: int| 0 <= i && i + 1 < t.len() implies !(t[i] == a && #[trigger] t[i + 1] == b) by {
            assert(s[i + 1] == t[i + 1]);
        }
        lemma_no_pair(t, a, b);
        assert(!(s[s.len() - 2] == a && s[s.len() - 2 + 1] == b));
    }
}

/// Pieces that are neither empty nor hold the separator never put two separators
/// side by side, nor one at either end.
pub proof fn lemma_join_shape(pieces: Seq<Seq<char>>, sep: char)
    requires
        forall|i: int| 0 <= i < pieces.len() ==> free_of(#[trigger] pieces[i], sep) && pieces[i].len() > 0,
    ensures
        pieces.len() > 0 ==> text::join(pieces, sep).len() > 0,
        text::join(pieces, sep).len() > 0 ==> text::join(pieces, sep)[0] != sep && text::join(pieces, sep).last() != sep,
        forall|i: int|
            0 <= i && i + 1 < text::join(pieces, sep).len() ==> !(text::join(pieces, sep)[i] == sep
                && #[trigger] text::join(pieces, sep)[i + 1] == sep),
    decreases pieces.len(),
{
    if pieces.len() == 1 {
        let p = pieces[0];
        assert(free_of(pieces[0], sep));
        assert(text::join(pieces, sep) == p);
    } else if pieces.len() > 1 {
        let front = pieces.drop_last();
        assert forall|i: int| 0 <= i < front.len() implies free_of(#[trigger] front[i], sep)
            && front[i].len() > 0 by {
            assert(free_of(pieces[i], sep));
        }
        lemma_join_shape(front, sep);
        let f = text::join(front, sep);
        let y = pieces[pieces.len() - 1];
        assert(free_of(y, sep) && y.len() > 0);
        let s = text::join(pieces, sep);
        assert(s == f.push(sep) + y);
        assert forall|i: int| 0 <= i && i + 1 < s.len() implies !(s[i] == sep && #[trigger] s[i + 1] == sep) by {
            if i + 1 < f.len() {
                assert(s[i] == f[i] && s[i + 1] == f[i + 1]);
            } else if i + 1 == f.len() {
                assert(s[i] == f.last());
            } else {
                assert(s[i + 1] == y[i + 1 - (f.len() + 1)]);
            }
        }
    }
}

/// The first pair in a prefix is the first pair.
pub proof fn lemma_find_pair_prefix(s: Seq<char>, n: int, a: char, b: char)
    requires
        0 <= n <= s.len(),
        text::find_pair(s.take(n), a, b) is Some,
    ensures
        text::find_pair(s, a, b) == text::find_pair(s.take(n), a, b),
    decreases s.len(),
{
    if n == s.len() {
        assert(s.take(n) == s);
    } else {
        assert(s.drop_last().take(n) == s.take(n));
        lemma_find_pair_prefix(s.drop_last(), n, a, b);
    }
}

/// A pair after a text without one, which does not end with its first character,
/// is the first pair.
pub proof fn lemma_pair_after(x: Seq<char>, y: Seq<char>, a: char)
    requires
        text::find_pair(x, a, a) is None,
        x.len() > 0 ==> x.last() != a,
    ensures
        text::find_pair(x + seq![a, a] + y, a, a) == Some(x.len() as int),
{
    let s = x + seq![a, a] + y;
    let n = x.len() + 2;
    let t = s.take(n as int);
    assert(t == x.push(a).push(a));
    assert(t.drop_last() == x.push(a));
    assert(x.push(a).drop_last() == x);
    assert(text::find_pair(x.push(a), a, a) is None);
    assert(text::find_pair(t, a, a) == Some(x.len() as int));
    lemma_find_pair_prefix(s, n as int, a, a);
}

/// The last `c` is where no other follows.
pub proof fn lemma_rfind_at(s: Seq<char>, i: int, c: char)
    requires
        0 <= i < s.len(),
        s[i] == c,
        free_of(s.skip(i + 1), c),
    ensures
        text::rfind(s, c) == Some(i),
    decreases s.len(),
{
    if i + 1 < s.len() {
        let t = s.drop_last();
        assert(s.skip(i + 1)[s.len() - i - 2] == s.last());
        assert(t.skip(i + 1) == s.skip(i + 1).drop_last());
        lemma_rfind_at(t, i, c);
    }
}

/// The first `c` is where none is before.
pub proof fn lemma_find_at(s: Seq<char>, i: int, c: char)
    requires
        0 <= i < s.len(),
        s[i] == c,
        free_of(s.take(i), c),
    ensures
        text::find(s, c) == Some(i),
    decreases s.len(),
{
    let t = s.drop_last();
    if i + 1 < s.len() {
        assert(t.take(i) == s.take(i));
        lemma_find_at(t, i, c);
    } else {
        assert(t == s.take(i));
        lemma_find_none(t, c);
    }
}

/// A text without `c` has no first `c`.
pub proof fn lemma_find_none(s: Seq<char>, c: char)
    requires
        free_of(s, c),
    ensures
        text::find(s, c) is None,
    decreases s.len(),
{
    if s.len() > 0 {
        lemma_find_none(s.drop_last(), c);
    }
}

/// The last pair is where no later character begins one.
pub proof fn lemma_rfind_pair_at(s: Seq<char>, i: int, a: char, b: char)
    requires
        0 <= i,
        i + 2 <= s.len(),
        s[i] == a,
        s[i + 1] == b,
        free_of(s.skip(i + 2), b),
        a != b,
    ensures
        text::rfind_pair(s, a, b) == Some(i),
    decreases s.len(),
{
    if i + 2 < s.len() {
        let t = s.drop_last();
        assert(s.skip(i + 2)[s.len() - i - 3] == s.last());
        assert(t.skip(i + 2) == s.skip(i + 2).drop_last());
        lemma_rfind_pair_at(t, i, a, b);
    }
}

/// A digit's character has the digit's value.
pub proof fn lemma_digit_char(d: nat, radix: nat)
    requires
        d < radix <= 16,
    ensures
        text::digit(text::digit_char(d), radix) == Some(d),
        d > 0 ==> text::digit_char(d) != '0',
        text::digit_char(d) != '.',
        text::digit_char(d) != ':',
{
}

/// A number's digits stand for the number.
pub proof fn lemma_numeral(n: nat, radix: nat)
    requires
        2 <= radix <= 16,
    ensures
        text::digits(text::numeral(n, radix), radix) == Some(n),
        text::numeral(n, radix).len() > 0,
        n > 0 ==> text::numeral(n, radix)[0] != '0',
        n == 0 ==> text::numeral(n, radix).len() == 1,
        free_of(text::numeral(n, radix), '.'),
        free_of(text::numeral(n, radix), ':'),
    decreases n,
{
    let s = text::numeral(n, radix);
    if n < radix {
        lemma_digit_char(n, radix);
        assert(s.drop_last() == Seq::<char>::empty());
        assert(text::digits(s.drop_last(), radix) == Some(0nat));
        assert(0 * radix == 0) by (nonlinear_arith);
    } else {
        assert(n / radix < n && n / radix > 0 && n % radix < radix && (n / radix) * radix + n % radix == n)
            by (nonlinear_arith)
            requires
                2 <= radix <= n,
        ;
        lemma_numeral(n / radix, radix);
        lemma_digit_char(n % radix, radix);
        assert(s.drop_last() == text::numeral(n / radix, radix));
        assert(s[0] == text::numeral(n / radix, radix)[0]);
    }
}

/// A row that begins with something else than a digit stands for no number.
pub proof fn lemma_digits_first(s: Seq<char>, radix: nat)
    requires
        s.len() > 0,
        text::digit(s[0], radix) is None,
    ensures
        text::digits(s, radix) is None,
    decreases s.len(),
{
    if s.len() > 1 {
        lemma_digits_first(s.drop_last(), radix);
    }
}

/// Sixteen bits take at most four hexadecimal digits.
pub proof fn lemma_hex_len(n: nat)
    requires
        n <= 0xffff,
    ensures
        text::numeral(n, 16).len() <= 4,
{
    reveal_with_fuel(text::numeral, 5);
}

/// Digits hold nothing that is no digit.
pub proof fn lemma_digits_free(s: Seq<char>, radix: nat, c: char)
    requires
        text::digits(s, radix) is Some,
        text::digit(c, radix) is None,
    ensures
        free_of(s, c),
    decreases s.len(),
{
    if s.len() > 0 {
        lemma_digits_free(s.drop_last(), radix, c);
        assert forall|i: int| 0 <= i < s.len() implies s[i] != c by {
            if i < s.len() - 1 {
                assert(s.drop_last()[i] == s[i]);
            }
        }
    }
}

/// A port number holds no colon.
pub proof fn lemma_port_free(s: Seq<char>)
    requires
        text::port_number(s) is Some,
    ensures
        free_of(s, ':'),
{
    if s.len() > 0 && s[0] == '+' {
        let rest = s.drop_first();
        lemma_digits_free(rest, 10, ':');
        assert forall|i: int| 0 <= i < s.len() implies s[i] != ':' by {
            if i > 0 {
                assert(rest[i - 1] == s[i]);
            }
        }
    } else {
        lemma_digits_free(s, 10, ':');
    }
}

} // verus!
