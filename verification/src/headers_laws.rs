//! What headers are read for, and which of them are passed on.

use vstd::prelude::*;
use crate::headers;
use crate::headers::RequestError;
use crate::text;
use crate::text_laws;
use crate::text_proofs;

verus! {

/// Lower case differs from a text in its ASCII capitals alone.
pub proof fn law_lower(s: Seq<char>, i: int)
    ensures
        headers::lower(s).len() == s.len(),
        0 <= i < s.len() ==> headers::lower(s)[i] as int == (if 65 <= s[i] as int <= 90 {
            s[i] as int + 32
        } else {
            s[i] as int
        }),
{
}

/// The characters of a header name are the ASCII letters and digits and fifteen signs.
pub proof fn law_name_char(c: char)
    ensures
        headers::name_char(c) <==> (65 <= c as int <= 90 || 97 <= c as int <= 122 || 48 <= c as int <= 57
            || 35 <= c as int <= 39 || 94 <= c as int <= 96 || c as int == 33 || c as int == 42 || c as int
            == 43 || c as int == 45 || c as int == 46 || c as int == 124 || c as int == 126),
{
}

/// A header name has 1 to 65535 characters, each of which may stand in one.
pub proof fn law_header_name(s: Seq<char>)
    ensures
        headers::header_name(s) <==> 1 <= s.len() <= 65535 && forall|i: int|
            0 <= i < s.len() ==> headers::name_char(#[trigger] s[i]),
{
}

/// Bytes are text if they are ASCII without control characters but for tabs, and then
/// they are their own characters.
pub proof fn law_text(bytes: Seq<u8>, i: int)
    ensures
        headers::is_text(bytes) <==> forall|k: int|
            0 <= k < bytes.len() ==> 32 <= #[trigger] bytes[k] <= 126 || bytes[k] == 9,
        headers::text_of(bytes).len() == bytes.len(),
        0 <= i < bytes.len() ==> headers::text_of(bytes)[i] as int == bytes[i] as int,
{
    if forall|k: int| 0 <= k < bytes.len() ==> 32 <= #[trigger] bytes[k] <= 126 || bytes[k] == 9 {
        assert forall|k: int| 0 <= k < bytes.len() implies headers::text_byte(#[trigger] bytes[k]) by {}
    }
    if headers::is_text(bytes) {
        assert forall|k: int| 0 <= k < bytes.len() implies 32 <= #[trigger] bytes[k] <= 126 || bytes[k]
            == 9 by {
            assert(headers::text_byte(bytes[k]));
        }
    }
}

/// A session request carries the first value of each of its two headers, as it is; what
/// is missing or no text is refused, the protocol first.
pub proof fn law_session_request(entries: Map<Seq<char>, Seq<Seq<u8>>>)
    ensures
        ({
            let protocol = entries.dom().contains("proxy-protocol"@);
            let endpoint = entries.dom().contains("proxy-endpoint"@);
            let p = entries["proxy-protocol"@][0];
            let e = entries["proxy-endpoint"@][0];
            let r = headers::session_request(entries);
            &&& protocol && headers::is_text(p) && endpoint && headers::is_text(e) ==> r == Ok::<
                (Seq<char>, Seq<char>),
                RequestError,
            >((headers::text_of(p), headers::text_of(e)))
            &&& !protocol ==> r == Err::<(Seq<char>, Seq<char>), RequestError>(RequestError::MissingProtocol)
            &&& protocol && !headers::is_text(p) ==> r == Err::<(Seq<char>, Seq<char>), RequestError>(
                RequestError::ProtocolNotText,
            )
            &&& protocol && headers::is_text(p) && !endpoint ==> r == Err::<
                (Seq<char>, Seq<char>),
                RequestError,
            >(RequestError::MissingEndpoint)
            &&& protocol && headers::is_text(p) && endpoint && !headers::is_text(e) ==> r == Err::<
                (Seq<char>, Seq<char>),
                RequestError,
            >(RequestError::EndpointNotText)
        }),
{
}

/// One of the six headers that belong to one connection in any message.
pub open spec fn one_of_six(name: Seq<char>) -> bool {
    name == "connection"@ || name == "proxy-connection"@ || name == "keep-alive"@ || name
        == "transfer-encoding"@ || name == "upgrade"@ || name == "te"@
}

/// A response without a `Connection` header loses these six headers and no other; the
/// others keep their values.
pub proof fn law_six_headers_go(entries: Map<Seq<char>, Seq<Seq<u8>>>, name: Seq<char>)
    requires
        !entries.dom().contains("connection"@),
    ensures
        headers::sanitized(entries).dom().contains(name) <==> entries.dom().contains(name) && !(name
            == "proxy-connection"@ || name == "keep-alive"@ || name == "transfer-encoding"@ || name
            == "upgrade"@ || name == "te"@),
        headers::sanitized(entries).dom().contains(name) ==> headers::sanitized(entries)[name]
            == entries[name],
{
    assert(headers::values_of(entries, "connection"@) == Seq::<Seq<u8>>::empty());
    assert(!headers::named_by(headers::values_of(entries, "connection"@), name));
}

/// A space or a tab.
pub open spec fn space_or_tab(c: char) -> bool {
    c as int == 32 || c as int == 9
}

/// Between two commas, or a comma and an end, a text holds a header name with nothing
/// but blanks around it; in lower case it is `name`.
pub open spec fn lists(t: Seq<char>, name: Seq<char>, i: int, a: int, b: int, j: int) -> bool {
    &&& 0 <= i <= a <= b <= j <= t.len()
    &&& i == 0 || t[i - 1] == ','
    &&& j == t.len() || t[j] == ','
    &&& forall|k: int| i <= k < j ==> t[k] != ','
    &&& forall|k: int| i <= k < a ==> space_or_tab(#[trigger] t[k])
    &&& forall|k: int| b <= k < j ==> space_or_tab(#[trigger] t[k])
    &&& headers::header_name(t.subrange(a, b))
    &&& name == headers::lower(t.subrange(a, b))
}

/// A value of the `Connection` header is text and lists the name.
pub open spec fn value_lists(value: Seq<u8>, name: Seq<char>) -> bool {
    headers::is_text(value) && exists|i: int, a: int, b: int, j: int| #[trigger]
        lists(headers::text_of(value), name, i, a, b, j)
}

/// Where a piece stands in the text.
proof fn lemma_piece_place(s: Seq<char>, sep: char, k: int) -> (r: (int, int))
    requires
        0 <= k < text::split(s, sep).len(),
    ensures
        0 <= r.0 <= r.1 <= s.len(),
        s.subrange(r.0, r.1) == text::split(s, sep)[k],
        r.0 == 0 || s[r.0 - 1] == sep,
        k < text::split(s, sep).len() - 1 ==> r.1 < s.len() && s[r.1] == sep,
        k == text::split(s, sep).len() - 1 ==> r.1 == s.len(),
        forall|i: int| r.0 <= i < r.1 ==> s[i] != sep,
    decreases s.len(),
{
    let pieces = text::split(s, sep);
    if s.len() == 0 {
        assert(s.subrange(0, 0) == pieces[k]);
        (0, 0)
    } else {
        let t = s.drop_last();
        let before = text::split(t, sep);
        text_proofs::lemma_split_nonempty(t, sep);
        assert(forall|i: int| 0 <= i < t.len() ==> t[i] == s[i]);
        if s.last() == sep {
            if k == pieces.len() - 1 {
                let n = s.len() as int;
                assert(s.subrange(n, n) == pieces[k]);
                (n, n)
            } else {
                let (i, j) = lemma_piece_place(t, sep, k);
                assert(t.subrange(i, j) == s.subrange(i, j));
                assert(pieces[k] == before[k]);
                (i, j)
            }
        } else {
            let (i, j) = lemma_piece_place(t, sep, k);
            if k == pieces.len() - 1 {
                assert(pieces[k] == before[k].push(s.last()));
                assert(s.subrange(i, j + 1) == t.subrange(i, j).push(s.last()));
                (i, j + 1)
            } else {
                assert(t.subrange(i, j) == s.subrange(i, j));
                assert(pieces[k] == before[k]);
                (i, j)
            }
        }
    }
}

/// What stands between two separators, or a separator and an end, is a piece.
proof fn lemma_place_piece(s: Seq<char>, sep: char, i: int, j: int) -> (k: int)
    requires
        0 <= i <= j <= s.len(),
        i == 0 || s[i - 1] == sep,
        j == s.len() || s[j] == sep,
        forall|n: int| i <= n < j ==> s[n] != sep,
    ensures
        0 <= k < text::split(s, sep).len(),
        text::split(s, sep)[k] == s.subrange(i, j),
{
    let mid = s.subrange(i, j);
    assert(text_proofs::free_of(mid, sep));
    text_laws::law_split(mid, seq![], sep);
    let rest = s.skip(i);
    let k = if i == 0 {
        assert(rest == s);
        0
    } else {
        let x = s.take(i - 1);
        assert(s == x.push(sep) + rest);
        text_laws::law_split(x, rest, sep);
        text::split(x, sep).len() as int
    };
    if j == s.len() {
        assert(rest == mid);
        assert(text::split(rest, sep)[0] == mid);
    } else {
        let y = s.skip(j + 1);
        assert(rest == mid.push(sep) + y);
        text_laws::law_split(mid, y, sep);
        assert(text::split(rest, sep)[0] == mid);
    }
    k
}

/// What trimming blanks takes off.
proof fn lemma_trim_blank_start(s: Seq<char>) -> (a: int)
    ensures
        0 <= a <= s.len(),
        headers::trim_blank_start(s) == s.skip(a),
        forall|i: int| 0 <= i < a ==> space_or_tab(#[trigger] s[i]),
        a < s.len() ==> !space_or_tab(s[a]),
    decreases s.len(),
{
    if s.len() > 0 && headers::blank(s[0]) {
        let t = s.drop_first();
        let a = lemma_trim_blank_start(t);
        assert(t.skip(a) == s.skip(a + 1));
        assert forall|i: int| 0 <= i < a + 1 implies space_or_tab(#[trigger] s[i]) by {
            if i > 0 {
                assert(space_or_tab(t[i - 1]));
            }
        }
        a + 1
    } else {
        assert(s.skip(0) == s);
        0
    }
}

/// What trimming blanks takes off at the end.
proof fn lemma_trim_blank_end(s: Seq<char>) -> (b: int)
    ensures
        0 <= b <= s.len(),
        headers::trim_blank_end(s) == s.take(b),
        forall|i: int| b <= i < s.len() ==> space_or_tab(#[trigger] s[i]),
        b > 0 ==> !space_or_tab(s[b - 1]),
    decreases s.len(),
{
    if s.len() > 0 && headers::blank(s.last()) {
        let t = s.drop_last();
        let b = lemma_trim_blank_end(t);
        assert(t.take(b) == s.take(b));
        assert forall|i: int| b <= i < s.len() implies space_or_tab(#[trigger] s[i]) by {
            if i < t.len() {
                assert(space_or_tab(t[i]));
            }
        }
        b
    } else {
        assert(s.take(s.len() as int) == s);
        s.len() as int
    }
}

/// What trimming blanks leaves stands in the text with nothing but blanks around it.
proof fn lemma_trim_blank(s: Seq<char>) -> (r: (int, int))
    ensures
        0 <= r.0 <= r.1 <= s.len(),
        headers::trim_blank(s) == s.subrange(r.0, r.1),
        forall|i: int| 0 <= i < r.0 ==> space_or_tab(#[trigger] s[i]),
        forall|i: int| r.1 <= i < s.len() ==> space_or_tab(#[trigger] s[i]),
        r.0 < r.1 ==> !space_or_tab(s[r.0]) && !space_or_tab(s[r.1 - 1]),
{
    let a = lemma_trim_blank_start(s);
    let t = s.skip(a);
    let b = lemma_trim_blank_end(t);
    assert(t.take(b) == s.subrange(a, a + b));
    assert forall|i: int| a + b <= i < s.len() implies space_or_tab(#[trigger] s[i]) by {
        assert(space_or_tab(t[i - a]));
    }
    if b > 0 {
        assert(t[b - 1] == s[a + b - 1]);
    }
    (a, a + b)
}

/// A header name with nothing but blanks around it is what trimming leaves.
proof fn lemma_name_between_blanks(s: Seq<char>, a: int, b: int)
    requires
        0 <= a <= b <= s.len(),
        headers::header_name(s.subrange(a, b)),
        forall|i: int| 0 <= i < a ==> space_or_tab(#[trigger] s[i]),
        forall|i: int| b <= i < s.len() ==> space_or_tab(#[trigger] s[i]),
    ensures
        headers::trim_blank(s) == s.subrange(a, b),
{
    let name = s.subrange(a, b);
    assert forall|i: int| a <= i < b implies !space_or_tab(#[trigger] s[i]) by {
        assert(name[i - a] == s[i]);
        assert(headers::name_char(name[i - a]));
    }
    let (c, d) = lemma_trim_blank(s);
    assert(a < b);
    if c > a {
        assert(space_or_tab(s[a]));
    }
    if c < a {
        assert(space_or_tab(s[c]));
        if c < d {
            assert(false);
        }
        assert(space_or_tab(s[a]));
    }
    if d < b {
        assert(space_or_tab(s[b - 1]));
    }
    if d > b {
        assert(space_or_tab(s[d - 1]));
    }
}

/// A value names exactly the headers that it lists.
pub proof fn law_connection_value(value: Seq<u8>, name: Seq<char>)
    ensures
        headers::value_names(value, name) <==> value_lists(value, name),
{
    let t = headers::text_of(value);
    let pieces = text::split(t, ',');
    if headers::value_names(value, name) {
        let k = choose|k: int| #[trigger] headers::piece_names(t, k, name);
        let (i, j) = lemma_piece_place(t, ',', k);
        let m = pieces[k];
        let (a, b) = lemma_trim_blank(m);
        assert(m.subrange(a, b) == t.subrange(i + a, i + b));
        assert forall|n: int| i <= n < i + a implies space_or_tab(#[trigger] t[n]) by {
            assert(m[n - i] == t[n]);
            assert(space_or_tab(m[n - i]));
        }
        assert forall|n: int| i + b <= n < j implies space_or_tab(#[trigger] t[n]) by {
            assert(m[n - i] == t[n]);
            assert(space_or_tab(m[n - i]));
        }
        assert(lists(t, name, i, i + a, i + b, j));
    }
    if value_lists(value, name) {
        let (i, a, b, j) = choose|i: int, a: int, b: int, j: int| #[trigger] lists(t, name, i, a, b, j);
        let k = lemma_place_piece(t, ',', i, j);
        let m = pieces[k];
        assert(m.subrange(a - i, b - i) == t.subrange(a, b));
        assert forall|n: int| 0 <= n < a - i implies space_or_tab(#[trigger] m[n]) by {
            assert(space_or_tab(t[i + n]));
        }
        assert forall|n: int| b - i <= n < m.len() implies space_or_tab(#[trigger] m[n]) by {
            assert(space_or_tab(t[i + n]));
        }
        lemma_name_between_blanks(m, a - i, b - i);
        assert(headers::piece_names(t, k, name));
    }
}

/// What is passed on of any response: every header but the six and those that one of
/// the values of the `Connection` header lists, each with its values as they were.
pub proof fn law_what_is_passed_on(entries: Map<Seq<char>, Seq<Seq<u8>>>, name: Seq<char>)
    ensures
        ({
            let listed = entries.dom().contains("connection"@) && exists|v: int|
                0 <= v < entries["connection"@].len() && #[trigger] value_lists(
                    entries["connection"@][v],
                    name,
                );
            let kept = headers::sanitized(entries);
            &&& kept.dom().contains(name) <==> entries.dom().contains(name) && !one_of_six(name) && !listed
            &&& kept.dom().contains(name) ==> kept[name] == entries[name]
        }),
{
    let values = headers::values_of(entries, "connection"@);
    let listed = entries.dom().contains("connection"@) && exists|v: int|
        0 <= v < entries["connection"@].len() && #[trigger] value_lists(entries["connection"@][v], name);
    assert(headers::named_by(values, name) <==> listed) by {
        if headers::named_by(values, name) {
            let v = choose|v: int| 0 <= v < values.len() && #[trigger] headers::value_names(values[v], name);
            law_connection_value(values[v], name);
            assert(value_lists(entries["connection"@][v], name));
        }
        if listed {
            let v = choose|v: int|
                0 <= v < entries["connection"@].len() && #[trigger] value_lists(
                    entries["connection"@][v],
                    name,
                );
            law_connection_value(values[v], name);
            assert(headers::value_names(values[v], name));
        }
    }
}

} // verus!
