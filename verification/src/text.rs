//! Character-level text: searching, splitting, trimming and numbers.
//!
//! Texts are modelled as `Seq<char>` and handled as `&[char]`, so that every
//! index counts characters.

use vstd::prelude::*;
use vstd::slice::slice_subrange;
use vstd::string::*;
use crate::text_proofs;

verus! {

/// `String::push` adds one character at the end of the string.
pub assume_specification[ String::push ](s: &mut String, c: char)
    ensures
        final(s)@ == old(s)@.push(c),
;

/// The position of the first `c` in `s`.
pub open spec fn find(s: Seq<char>, c: char) -> Option<int>
    decreases s.len(),
{
    if s.len() == 0 {
        None
    } else {
        match find(s.drop_last(), c) {
            Some(i) => Some(i),
            None => if s.last() == c {
                Some(s.len() - 1)
            } else {
                None
            },
        }
    }
}

/// The position of the last `c` in `s`.
pub open spec fn rfind(s: Seq<char>, c: char) -> Option<int>
    decreases s.len(),
{
    if s.len() == 0 {
        None
    } else if s.last() == c {
        Some(s.len() - 1)
    } else {
        rfind(s.drop_last(), c)
    }
}

/// The position of the first `a` in `s` that a `b` follows.
pub open spec fn find_pair(s: Seq<char>, a: char, b: char) -> Option<int>
    decreases s.len(),
{
    if s.len() < 2 {
        None
    } else {
        match find_pair(s.drop_last(), a, b) {
            Some(i) => Some(i),
            None => if s[s.len() - 2] == a && s.last() == b {
                Some(s.len() - 2)
            } else {
                None
            },
        }
    }
}

/// The position of the last `a` in `s` that a `b` follows.
pub open spec fn rfind_pair(s: Seq<char>, a: char, b: char) -> Option<int>
    decreases s.len(),
{
    if s.len() < 2 {
        None
    } else if s[s.len() - 2] == a && s.last() == b {
        Some(s.len() - 2)
    } else {
        rfind_pair(s.drop_last(), a, b)
    }
}

/// The pieces of `s` between the occurrences of `sep`; there is always one more
/// piece than there are separators.
pub open spec fn split(s: Seq<char>, sep: char) -> Seq<Seq<char>>
    decreases s.len(),
{
    if s.len() == 0 {
        seq![seq![]]
    } else {
        let pieces = split(s.drop_last(), sep);
        if s.last() == sep {
            pieces.push(seq![])
        } else {
            pieces.drop_last().push(pieces.last().push(s.last()))
        }
    }
}

/// The pieces one after the other, with `sep` between them.
pub open spec fn join(pieces: Seq<Seq<char>>, sep: char) -> Seq<char>
    decreases pieces.len(),
{
    if pieces.len() == 0 {
        seq![]
    } else if pieces.len() == 1 {
        pieces[0]
    } else {
        join(pieces.drop_last(), sep).push(sep) + pieces.last()
    }
}

/// `s` without the `c`s that it begins with.
pub open spec fn trim_start(s: Seq<char>, c: char) -> Seq<char>
    decreases s.len(),
{
    if s.len() > 0 && s[0] == c {
        trim_start(s.drop_first(), c)
    } else {
        s
    }
}

/// `s` without the `c`s that it ends with.
pub open spec fn trim_end(s: Seq<char>, c: char) -> Seq<char>
    decreases s.len(),
{
    if s.len() > 0 && s.last() == c {
        trim_end(s.drop_last(), c)
    } else {
        s
    }
}

/// The value of a decimal or hexadecimal digit.
pub open spec fn digit(c: char, radix: nat) -> Option<nat> {
    let value = if '0' <= c <= '9' {
        (c as int - '0' as int) as nat
    } else if 'a' <= c <= 'f' {
        (c as int - 'a' as int + 10) as nat
    } else if 'A' <= c <= 'F' {
        (c as int - 'A' as int + 10) as nat
    } else {
        radix
    };
    if value < radix {
        Some(value)
    } else {
        None
    }
}

/// The number that a row of digits stands for; nothing for a row that holds
/// anything but digits. The empty row stands for zero.
pub open spec fn digits(s: Seq<char>, radix: nat) -> Option<nat>
    decreases s.len(),
{
    if s.len() == 0 {
        Some(0)
    } else {
        match (digits(s.drop_last(), radix), digit(s.last(), radix)) {
            (Some(high), Some(low)) => Some(high * radix + low),
            _ => None,
        }
    }
}

/// One or more digits whose value is at most `max`.
pub open spec fn number(s: Seq<char>, radix: nat, max: nat) -> Option<nat> {
    match digits(s, radix) {
        Some(value) if s.len() > 0 && value <= max => Some(value),
        _ => None,
    }
}

/// A port number as `u16` reads it: decimal digits, after an optional plus sign.
pub open spec fn port_number(s: Seq<char>) -> Option<nat> {
    if s.len() > 0 && s[0] == '+' {
        number(s.drop_first(), 10, 65535)
    } else {
        number(s, 10, 65535)
    }
}

/// The lower-case digit of value `d`.
pub open spec fn digit_char(d: nat) -> char {
    if d < 10 {
        ('0' as int + d) as char
    } else {
        ('a' as int + (d - 10)) as char
    }
}

/// The shortest row of digits for `n`.
pub open spec fn numeral(n: nat, radix: nat) -> Seq<char>
    decreases n,
    when radix >= 2
{
    if n < radix {
        seq![digit_char(n)]
    } else {
        proof {
            assert(n / radix < n) by (nonlinear_arith)
                requires
                    2 <= radix <= n,
            ;
        }
        numeral(n / radix, radix).push(digit_char(n % radix))
    }
}

/// A byte as two hexadecimal digits.
pub open spec fn hex_byte(b: u8) -> Seq<char> {
    seq![digit_char((b / 16) as nat), digit_char((b % 16) as nat)]
}

/// The characters of a string.
pub fn chars_of(s: &str) -> (v: Vec<char>)
    ensures
        v@ == s@,
{
    let mut v: Vec<char> = Vec::new();
    for c in it: s.chars()
        invariant
            it.seq() == s@,
            v@ == s@.take(it.index()),
    {
        v.push(c);
    }
    assert(s@.take(s@.len() as int) == s@);
    v
}

/// The string of the given characters.
pub fn string_of(s: &[char]) -> (r: String)
    ensures
        r@ == s@,
{
    let mut r = String::new();
    let mut i: usize = 0;
    while i < s.len()
        invariant
            i <= s@.len(),
            r@ == s@.take(i as int),
        decreases s@.len() - i,
    {
        r.push(s[i]);
        i = i + 1;
        assert(s@.take(i as int) == s@.take(i - 1).push(s@[i - 1]));
    }
    assert(s@.take(s@.len() as int) == s@);
    r
}

/// Where the first `c` is.
pub fn find_char(s: &[char], c: char) -> (r: Option<usize>)
    ensures
        r matches Some(i) ==> i < s@.len() && find(s@, c) == Some(i as int),
        r is None ==> find(s@, c) is None,
{
    let mut i: usize = 0;
    while i < s.len()
        invariant
            i <= s@.len(),
            find(s@.take(i as int), c) is None,
        decreases s@.len() - i,
    {
        assert(s@.take(i + 1).drop_last() == s@.take(i as int));
        if s[i] == c {
            proof {
                lemma_find_prefix(s@, i + 1, c);
            }
            return Some(i);
        }
        i = i + 1;
    }
    assert(s@.take(s@.len() as int) == s@);
    None
}

/// Where the last `c` is.
pub fn rfind_char(s: &[char], c: char) -> (r: Option<usize>)
    ensures
        r matches Some(i) ==> i < s@.len() && rfind(s@, c) == Some(i as int),
        r is None ==> rfind(s@, c) is None,
{
    let mut n: usize = s.len();
    assert(s@.take(n as int) == s@);
    while n > 0
        invariant
            n <= s@.len(),
            rfind(s@, c) == rfind(s@.take(n as int), c),
        decreases n,
    {
        assert(s@.take(n as int).drop_last() == s@.take(n - 1));
        if s[n - 1] == c {
            return Some(n - 1);
        }
        n = n - 1;
    }
    None
}

/// Where the first `a` followed by `b` is.
pub fn find_two(s: &[char], a: char, b: char) -> (r: Option<usize>)
    ensures
        r matches Some(i) ==> i + 2 <= s@.len() && find_pair(s@, a, b) == Some(i as int),
        r is None ==> find_pair(s@, a, b) is None,
{
    if s.len() < 2 {
        return None;
    }
    let mut i: usize = 1;
    while i < s.len()
        invariant
            1 <= i <= s@.len(),
            find_pair(s@.take(i as int), a, b) is None,
        decreases s@.len() - i,
    {
        assert(s@.take(i + 1).drop_last() == s@.take(i as int));
        if s[i - 1] == a && s[i] == b {
            proof {
                text_proofs::lemma_find_pair_prefix(s@, i + 1, a, b);
            }
            return Some(i - 1);
        }
        i = i + 1;
    }
    assert(s@.take(s@.len() as int) == s@);
    None
}

/// Where the last `a` followed by `b` is.
pub fn rfind_two(s: &[char], a: char, b: char) -> (r: Option<usize>)
    ensures
        r matches Some(i) ==> i + 2 <= s@.len() && rfind_pair(s@, a, b) == Some(i as int),
        r is None ==> rfind_pair(s@, a, b) is None,
{
    let mut n: usize = s.len();
    assert(s@.take(n as int) == s@);
    while n >= 2
        invariant
            n <= s@.len(),
            rfind_pair(s@, a, b) == rfind_pair(s@.take(n as int), a, b),
        decreases n,
    {
        assert(s@.take(n as int).drop_last() == s@.take(n - 1));
        if s[n - 2] == a && s[n - 1] == b {
            return Some(n - 2);
        }
        n = n - 1;
    }
    None
}

/// The pieces of a text, each as a vector of characters, by value.
pub open spec fn pieces_view(pieces: Seq<Vec<char>>) -> Seq<Seq<char>> {
    Seq::new(pieces.len(), |i: int| pieces[i]@)
}

/// The pieces between the separators.
pub fn split_at(s: &[char], sep: char) -> (r: Vec<Vec<char>>)
    ensures
        pieces_view(r@) == split(s@, sep),
        r@.len() > 0,
{
    let mut done: Vec<Vec<char>> = Vec::new();
    let mut current: Vec<char> = Vec::new();
    let mut i: usize = 0;
    assert(split(s@.take(0), sep) == seq![Seq::<char>::empty()]);
    while i < s.len()
        invariant
            i <= s@.len(),
            pieces_view(done@).push(current@) == split(s@.take(i as int), sep),
        decreases s@.len() - i,
    {
        let ghost before = split(s@.take(i as int), sep);
        assert(s@.take(i + 1).drop_last() == s@.take(i as int));
        assert(before.drop_last() == pieces_view(done@));
        assert(before.last() == current@);
        let c = s[i];
        if c == sep {
            done.push(current);
            current = Vec::new();
            assert(pieces_view(done@) == before);
        } else {
            current.push(c);
        }
        i = i + 1;
    }
    assert(s@.take(s@.len() as int) == s@);
    let ghost old_done = done@;
    let ghost last = current@;
    done.push(current);
    assert(pieces_view(done@) == pieces_view(old_done).push(last));
    done
}

/// How many `c`s the text begins with, as the position after them.
pub fn start_without(s: &[char], c: char) -> (i: usize)
    ensures
        i <= s@.len(),
        s@.skip(i as int) == trim_start(s@, c),
{
    let mut i: usize = 0;
    assert(s@.skip(0) == s@);
    while i < s.len() && s[i] == c
        invariant
            i <= s@.len(),
            trim_start(s@, c) == trim_start(s@.skip(i as int), c),
        decreases s@.len() - i,
    {
        assert(s@.skip(i as int).drop_first() == s@.skip(i + 1));
        i = i + 1;
    }
    i
}

/// Where the text ends when the `c`s at its end are left off.
pub fn end_without(s: &[char], c: char) -> (n: usize)
    ensures
        n <= s@.len(),
        s@.take(n as int) == trim_end(s@, c),
{
    let mut n: usize = s.len();
    assert(s@.take(n as int) == s@);
    while n > 0 && s[n - 1] == c
        invariant
            n <= s@.len(),
            trim_end(s@, c) == trim_end(s@.take(n as int), c),
        decreases n,
    {
        assert(s@.take(n as int).drop_last() == s@.take(n - 1));
        n = n - 1;
    }
    n
}

/// Whether two strings are the same.
pub fn same(a: &str, b: &str) -> (r: bool)
    ensures
        r == (a@ == b@),
{
    let x = chars_of(a);
    let y = chars_of(b);
    if x.len() != y.len() {
        return false;
    }
    let mut i: usize = 0;
    while i < x.len()
        invariant
            i <= x@.len() == y@.len(),
            x@ == a@,
            y@ == b@,
            forall|j: int| 0 <= j < i ==> x@[j] == y@[j],
        decreases x@.len() - i,
    {
        if x[i] != y[i] {
            assert(a@[i as int] != b@[i as int]);
            return false;
        }
        i = i + 1;
    }
    assert(a@ == b@);
    true
}

/// The value of a digit.
pub fn digit_of(c: char, radix: u32) -> (r: Option<u32>)
    requires
        2 <= radix <= 16,
    ensures
        r matches Some(d) ==> digit(c, radix as nat) == Some(d as nat) && d < radix,
        r is None ==> digit(c, radix as nat) is None,
{
    let code: u32 = c as u32;
    let value: u32 = if '0' <= c && c <= '9' {
        code - 48
    } else if 'a' <= c && c <= 'f' {
        code - 97 + 10
    } else if 'A' <= c && c <= 'F' {
        code - 65 + 10
    } else {
        radix
    };
    if value < radix {
        Some(value)
    } else {
        None
    }
}

/// The value of a row of digits, up to `max`.
pub fn number_of(s: &[char], radix: u32, max: u32) -> (r: Option<u32>)
    requires
        2 <= radix <= 16,
    ensures
        r matches Some(n) ==> number(s@, radix as nat, max as nat) == Some(n as nat) && n <= max,
        r is None ==> number(s@, radix as nat, max as nat) is None,
{
    if s.len() == 0 {
        return None;
    }
    let mut value: u64 = 0;
    let mut i: usize = 0;
    while i < s.len()
        invariant
            2 <= radix <= 16,
            i <= s@.len(),
            value <= max,
            digits(s@.take(i as int), radix as nat) == Some(value as nat),
        decreases s@.len() - i,
    {
        assert(s@.take(i + 1).drop_last() == s@.take(i as int));
        match digit_of(s[i], radix) {
            Some(d) => {
                proof {
                    assert(value * radix <= 0xffff_ffff * 16) by (nonlinear_arith)
                        requires
                            value <= 0xffff_ffff,
                            radix <= 16,
                    ;
                }
                let next: u64 = value * (radix as u64) + (d as u64);
                if next > max as u64 {
                    proof {
                        lemma_digits_grow(s@, i + 1, radix as nat);
                    }
                    return None;
                }
                value = next;
            },
            None => {
                proof {
                    lemma_digits_grow(s@, i + 1, radix as nat);
                }
                return None;
            },
        }
        i = i + 1;
    }
    assert(s@.take(s@.len() as int) == s@);
    Some(value as u32)
}

/// The port number that a text stands for.
pub fn port_of(s: &[char]) -> (r: Option<u16>)
    ensures
        r matches Some(p) ==> port_number(s@) == Some(p as nat),
        r is None ==> port_number(s@) is None,
{
    let rest = if s.len() > 0 && s[0] == '+' {
        let rest = slice_subrange(s, 1, s.len());
        assert(rest@ == s@.drop_first());
        rest
    } else {
        s
    };
    match number_of(rest, 10, 65535) {
        Some(n) => Some(n as u16),
        None => None,
    }
}

/// The digit of a value.
pub fn char_of_digit(d: u8) -> (c: char)
    requires
        d < 16,
    ensures
        c == digit_char(d as nat),
{
    if d < 10 {
        (48 + d) as char
    } else {
        (97 + (d - 10)) as char
    }
}

/// A text with a byte in hexadecimal after it.
pub fn with_hex(front: &str, b: u8) -> (r: String)
    ensures
        r@ == front@ + hex_byte(b),
{
    let mut r = front.to_owned();
    r.push(char_of_digit(b / 16));
    r.push(char_of_digit(b % 16));
    assert(r@ == front@ + hex_byte(b));
    r
}

/// Adds the digits of `n` to `out`.
pub fn push_number(out: &mut Vec<char>, n: u64, radix: u64)
    requires
        2 <= radix <= 16,
    ensures
        final(out)@ == old(out)@ + numeral(n as nat, radix as nat),
    decreases n,
{
    if n < radix {
        out.push(char_of_digit(n as u8));
        assert(out@ == old(out)@ + numeral(n as nat, radix as nat));
    } else {
        proof {
            assert(n / radix < n) by (nonlinear_arith)
                requires
                    2 <= radix <= n,
            ;
            assert(n % radix < radix) by (nonlinear_arith)
                requires
                    2 <= radix,
            ;
        }
        push_number(out, n / radix, radix);
        out.push(char_of_digit((n % radix) as u8));
        assert(out@ == old(out)@ + numeral(n as nat, radix as nat));
    }
}

/// Adds the characters of `s` to `out`.
pub fn push_chars(out: &mut Vec<char>, s: &[char])
    ensures
        final(out)@ == old(out)@ + s@,
{
    let mut i: usize = 0;
    while i < s.len()
        invariant
            i <= s@.len(),
            out@ == old(out)@ + s@.take(i as int),
        decreases s@.len() - i,
    {
        out.push(s[i]);
        i = i + 1;
        assert(s@.take(i as int) == s@.take(i - 1).push(s@[i - 1]));
    }
    assert(s@.take(s@.len() as int) == s@);
}

/// The first occurrence in a prefix is the first occurrence.
proof fn lemma_find_prefix(s: Seq<char>, n: int, c: char)
    requires
        0 <= n <= s.len(),
        find(s.take(n), c) is Some,
    ensures
        find(s, c) == find(s.take(n), c),
    decreases s.len(),
{
    if n == s.len() {
        assert(s.take(n) == s);
    } else {
        assert(s.drop_last().take(n) == s.take(n));
        lemma_find_prefix(s.drop_last(), n, c);
    }
}

/// More digits give no smaller number, and a row with a wrong digit stays wrong.
proof fn lemma_digits_grow(s: Seq<char>, n: int, radix: nat)
    requires
        0 <= n <= s.len(),
        radix >= 1,
    ensures
        digits(s.take(n), radix) is None ==> digits(s, radix) is None,
        digits(s.take(n), radix) matches Some(v) ==> (digits(s, radix) matches Some(w) ==> v <= w),
    decreases s.len(),
{
    if n == s.len() {
        assert(s.take(n) == s);
    } else {
        assert(s.drop_last().take(n) == s.take(n));
        lemma_digits_grow(s.drop_last(), n, radix);
        if let Some(high) = digits(s.drop_last(), radix) {
            assert(high <= high * radix) by (nonlinear_arith)
                requires
                    radix >= 1,
            ;
        }
    }
}

} // verus!
