//! HTTP headers: what a session request must carry, and what a response must not.

use vstd::prelude::*;
use vstd::slice::slice_subrange;
use vstd::string::*;
use crate::text;

verus! {

/// A header multimap.
#[verifier::external_type_specification]
#[verifier::external_body]
#[verifier::reject_recursive_types(T)]
pub struct ExHeaderMap<T>(http::HeaderMap<T>);

/// A header value: a row of bytes.
#[verifier::external_type_specification]
#[verifier::external_body]
pub struct ExHeaderValue(http::HeaderValue);

/// The error of a header value that is no text, carried and never looked into.
#[verifier::external_type_specification]
#[verifier::external_body]
pub struct ExToStrError(http::header::ToStrError);

/// The contents of a header map: the values of each name, in the order in which
/// they were added. The names are in lower case, and each has a value.
pub uninterp spec fn header_entries(map: http::HeaderMap<http::HeaderValue>) -> Map<
    Seq<char>,
    Seq<Seq<u8>>,
>;

/// The bytes that a header value holds.
pub uninterp spec fn header_value_bytes(value: http::HeaderValue) -> Seq<u8>;

/// An ASCII letter in lower case.
pub open spec fn lower_char(c: char) -> char {
    if 'A' <= c <= 'Z' {
        ((c as int) + 32) as char
    } else {
        c
    }
}

/// A text with its ASCII letters in lower case.
pub open spec fn lower(s: Seq<char>) -> Seq<char> {
    s.map_values(|c: char| lower_char(c))
}

/// A character of a header name.
pub open spec fn name_char(c: char) -> bool {
    ||| '0' <= c <= '9'
    ||| 'a' <= c <= 'z'
    ||| 'A' <= c <= 'Z'
    ||| c == '!' || c == '#' || c == '$' || c == '%' || c == '&' || c == '\'' || c == '*' || c == '+' || c
        == '-' || c == '.' || c == '^' || c == '_' || c == '`' || c == '|' || c == '~'
}

/// A header name: 1 to 65535 of its characters.
pub open spec fn header_name(s: Seq<char>) -> bool {
    &&& 1 <= s.len() <= 65535
    &&& forall|i: int| 0 <= i < s.len() ==> name_char(#[trigger] s[i])
}

/// Visible ASCII, a space or a tab.
pub open spec fn text_byte(b: u8) -> bool {
    32 <= b < 127 || b == 9
}

/// Bytes that are text.
pub open spec fn is_text(bytes: Seq<u8>) -> bool {
    forall|i: int| 0 <= i < bytes.len() ==> text_byte(#[trigger] bytes[i])
}

/// The characters of bytes that are text.
pub open spec fn text_of(bytes: Seq<u8>) -> Seq<char> {
    bytes.map_values(|b: u8| b as char)
}

/// The values of a name; none for a name that is not there.
pub open spec fn values_of(entries: Map<Seq<char>, Seq<Seq<u8>>>, name: Seq<char>) -> Seq<Seq<u8>> {
    if entries.dom().contains(name) {
        entries[name]
    } else {
        seq![]
    }
}

/// `HeaderValue::to_str` gives the value as a string where all of its bytes are
/// visible ASCII, spaces or tabs, and fails otherwise.
pub assume_specification[ http::HeaderValue::to_str ](value: &http::HeaderValue) -> (r: Result<
    &str,
    http::header::ToStrError,
>)
    ensures
        match r {
            Ok(s) => is_text(header_value_bytes(*value)) && s@ == text_of(header_value_bytes(*value)),
            Err(_) => !is_text(header_value_bytes(*value)),
        },
;

/// `HeaderMap::get` finds the first value of a name. Names are looked up in lower
/// case.
#[verifier::external_body]
fn first_value<'a>(headers: &'a http::HeaderMap, name: &str) -> (r: Option<&'a http::HeaderValue>)
    requires
        header_name(name@),
    ensures
        match r {
            Some(value) => header_entries(*headers).dom().contains(lower(name@)) && header_entries(
                *headers,
            )[lower(name@)].len() > 0 && header_value_bytes(*value) == header_entries(*headers)[lower(
                name@,
            )][0],
            None => !header_entries(*headers).dom().contains(lower(name@)),
        },
{
    headers.get(name)
}

/// `HeaderMap::get_all` finds all the values of a name, in order. Names are looked
/// up in lower case.
#[verifier::external_body]
fn all_values<'a>(headers: &'a http::HeaderMap, name: &str) -> (values: Vec<&'a http::HeaderValue>)
    requires
        header_name(name@),
    ensures
        values@.map_values(|v: &http::HeaderValue| header_value_bytes(*v)) == values_of(
            header_entries(*headers),
            lower(name@),
        ),
{
    headers.get_all(name).iter().collect()
}

/// `HeaderMap::remove` takes a name out with all its values, and hands back the
/// first of them. Names are looked up in lower case.
#[verifier::external_body]
fn remove_header(headers: &mut http::HeaderMap, name: &str) -> (r: Option<http::HeaderValue>)
    requires
        header_name(name@),
    ensures
        header_entries(*final(headers)) == header_entries(*old(headers)).remove(lower(name@)),
        match r {
            Some(value) => header_entries(*old(headers)).dom().contains(lower(name@)) && header_entries(
                *old(headers),
            )[lower(name@)].len() > 0 && header_value_bytes(value) == header_entries(*old(headers))[lower(
                name@,
            )][0],
            None => !header_entries(*old(headers)).dom().contains(lower(name@)),
        },
{
    headers.remove(name)
}

/// `HeaderName::from_bytes`, on the bytes of a string, gives a header name in
/// lower case, and fails for what is no header name.
#[verifier::external_body]
fn normal_name(s: &str) -> (r: Option<String>)
    ensures
        match r {
            Some(name) => header_name(s@) && name@ == lower(s@),
            None => !header_name(s@),
        },
{
    http::HeaderName::from_bytes(s.as_bytes()).ok().map(|name| name.as_str().to_owned())
}

/// Why a session request was refused.
#[derive(Clone, Copy, Debug, PartialEq, Eq, Structural)]
pub enum RequestError {
    MissingProtocol,
    ProtocolNotText,
    MissingEndpoint,
    EndpointNotText,
}

/// What a refused request is reported as.
pub open spec fn request_message(e: RequestError) -> Seq<char> {
    match e {
        RequestError::MissingProtocol => "missing proxy-protocol header"@,
        RequestError::MissingEndpoint => "missing proxy-endpoint header"@,
        _ => "failed to convert header to a str"@,
    }
}

impl RequestError {
    /// The report of the error.
    pub fn message(&self) -> (r: String)
        ensures
            r@ == request_message(*self),
    {
        match *self {
            RequestError::MissingProtocol => "missing proxy-protocol header".to_owned(),
            RequestError::MissingEndpoint => "missing proxy-endpoint header".to_owned(),
            RequestError::ProtocolNotText => "failed to convert header to a str".to_owned(),
            RequestError::EndpointNotText => "failed to convert header to a str".to_owned(),
        }
    }
}

/// The header that names the protocol of a session.
pub open spec fn protocol_header() -> Seq<char> {
    "proxy-protocol"@
}

/// The header that names the target of a session.
pub open spec fn endpoint_header() -> Seq<char> {
    "proxy-endpoint"@
}

/// The protocol and the endpoint that a session request carries: the first value
/// of each header.
pub open spec fn session_request(entries: Map<Seq<char>, Seq<Seq<u8>>>) -> Result<
    (Seq<char>, Seq<char>),
    RequestError,
> {
    if !entries.dom().contains(protocol_header()) {
        Err(RequestError::MissingProtocol)
    } else if !is_text(entries[protocol_header()][0]) {
        Err(RequestError::ProtocolNotText)
    } else if !entries.dom().contains(endpoint_header()) {
        Err(RequestError::MissingEndpoint)
    } else if !is_text(entries[endpoint_header()][0]) {
        Err(RequestError::EndpointNotText)
    } else {
        Ok((text_of(entries[protocol_header()][0]), text_of(entries[endpoint_header()][0])))
    }
}

/// Reads the protocol and the endpoint of a session.
pub fn session_headers(headers: &http::HeaderMap) -> (r: Result<(String, String), RequestError>)
    ensures
        match r {
            Ok((protocol, endpoint)) => session_request(header_entries(*headers)) == Ok::<
                (Seq<char>, Seq<char>),
                RequestError,
            >((protocol@, endpoint@)),
            Err(e) => session_request(header_entries(*headers)) == Err::<
                (Seq<char>, Seq<char>),
                RequestError,
            >(e),
        },
{
    proof {
        lemma_literals();
    }
    let protocol = match first_value(headers, "proxy-protocol") {
        Some(value) => match value.to_str() {
            Ok(s) => s.to_owned(),
            Err(_) => {
                return Err(RequestError::ProtocolNotText);
            },
        },
        None => {
            return Err(RequestError::MissingProtocol);
        },
    };
    match first_value(headers, "proxy-endpoint") {
        Some(value) => match value.to_str() {
            Ok(s) => Ok((protocol, s.to_owned())),
            Err(_) => Err(RequestError::EndpointNotText),
        },
        None => Err(RequestError::MissingEndpoint),
    }
}

/// A space or a tab.
pub open spec fn blank(c: char) -> bool {
    c == ' ' || c == '\t'
}

/// A text without the blanks at its start.
pub open spec fn trim_blank_start(s: Seq<char>) -> Seq<char>
    decreases s.len(),
{
    if s.len() > 0 && blank(s[0]) {
        trim_blank_start(s.drop_first())
    } else {
        s
    }
}

/// A text without the blanks at its end.
pub open spec fn trim_blank_end(s: Seq<char>) -> Seq<char>
    decreases s.len(),
{
    if s.len() > 0 && blank(s.last()) {
        trim_blank_end(s.drop_last())
    } else {
        s
    }
}

/// A text without the blanks around it.
pub open spec fn trim_blank(s: Seq<char>) -> Seq<char> {
    trim_blank_end(trim_blank_start(s))
}

/// The piece at `i` of those that the commas of `value` separate is the header
/// name `name`, but for blanks around it and for capitals.
pub open spec fn piece_names(value: Seq<char>, i: int, name: Seq<char>) -> bool {
    let pieces = text::split(value, ',');
    &&& 0 <= i < pieces.len()
    &&& header_name(trim_blank(pieces[i]))
    &&& name == lower(trim_blank(pieces[i]))
}

/// A value of the `Connection` header names a header: the value is text, and one
/// of its pieces is the name.
pub open spec fn value_names(value: Seq<u8>, name: Seq<char>) -> bool {
    is_text(value) && exists|i: int| #[trigger] piece_names(text_of(value), i, name)
}

/// One of the values names the header.
pub open spec fn named_by(values: Seq<Seq<u8>>, name: Seq<char>) -> bool {
    exists|i: int| 0 <= i < values.len() && #[trigger] value_names(values[i], name)
}

/// The headers that belong to one connection, whatever the message.
pub open spec fn connection_specific(name: Seq<char>) -> bool {
    ||| name == "connection"@
    ||| name == "proxy-connection"@
    ||| name == "keep-alive"@
    ||| name == "transfer-encoding"@
    ||| name == "upgrade"@
    ||| name == "te"@
}

/// The headers that must not be passed on: the connection-specific ones, and those
/// that the `Connection` header names.
pub open spec fn hop_by_hop(entries: Map<Seq<char>, Seq<Seq<u8>>>, name: Seq<char>) -> bool {
    connection_specific(name) || named_by(values_of(entries, "connection"@), name)
}

/// The headers of a response that are passed on.
pub open spec fn sanitized(entries: Map<Seq<char>, Seq<Seq<u8>>>) -> Map<Seq<char>, Seq<Seq<u8>>> {
    entries.remove_keys(Set::new(|name: Seq<char>| hop_by_hop(entries, name)))
}

/// A text without the blanks around it.
fn blank_trimmed(s: &[char]) -> (r: &[char])
    ensures
        r@ == trim_blank(s@),
{
    let end: usize = s.len();
    let mut i: usize = 0;
    assert(s@.skip(0) == s@);
    while i < end && (s[i] == ' ' || s[i] == '\t')
        invariant
            i <= end == s@.len(),
            trim_blank_start(s@) == trim_blank_start(s@.skip(i as int)),
        decreases end - i,
    {
        assert(s@.skip(i as int).drop_first() == s@.skip(i + 1));
        i = i + 1;
    }
    let ghost t = s@.skip(i as int);
    let mut n: usize = end;
    assert(s@.subrange(i as int, n as int) == t);
    while n > i && (s[n - 1] == ' ' || s[n - 1] == '\t')
        invariant
            i <= n <= end == s@.len(),
            trim_blank_end(t) == trim_blank_end(s@.subrange(i as int, n as int)),
        decreases n,
    {
        assert(s@.subrange(i as int, n as int).drop_last() == s@.subrange(i as int, n - 1));
        n = n - 1;
    }
    slice_subrange(s, i, n)
}

/// The names in a list of names, by value.
pub open spec fn names_view(names: Seq<String>) -> Seq<Seq<char>> {
    names.map_values(|n: String| n@)
}

/// Adds the headers that one value names.
fn push_named(names: &mut Vec<String>, value: &str)
    ensures
        forall|n: Seq<char>| #[trigger]
            names_view(final(names)@).contains(n) <==> names_view(old(names)@).contains(n) || exists|i: int|
                #[trigger] piece_names(value@, i, n),
{
    let chars = text::chars_of(value);
    let pieces = text::split_at(chars.as_slice(), ',');
    let ghost all = text::split(value@, ',');
    assert(text::pieces_view(pieces@) == all);
    let mut i: usize = 0;
    while i < pieces.len()
        invariant
            i <= pieces@.len(),
            text::pieces_view(pieces@) == all,
            all == text::split(value@, ','),
            forall|n: Seq<char>| #[trigger]
                names_view(names@).contains(n) <==> names_view(old(names)@).contains(n) || exists|j: int|
                    0 <= j < i && #[trigger] piece_names(value@, j, n),
        decreases pieces@.len() - i,
    {
        assert(all[i as int] == pieces@[i as int]@);
        let token = text::string_of(blank_trimmed(pieces[i].as_slice()));
        let ghost before = names_view(names@);
        match normal_name(token.as_str()) {
            Some(name) => {
                let ghost added = name@;
                names.push(name);
                assert(names_view(names@) == before.push(added));
                assert(piece_names(value@, i as int, added));
                assert forall|n: Seq<char>| #[trigger]
                    names_view(names@).contains(n) <==> names_view(old(names)@).contains(n) || exists|j: int|
                        0 <= j < i + 1 && #[trigger] piece_names(value@, j, n) by {
                    lemma_push_contains(before, added, n);
                }
            },
            None => {
                assert forall|n: Seq<char>| !piece_names(value@, i as int, n) by {}
            },
        }
        i = i + 1;
    }
    assert forall|n: Seq<char>, j: int| #[trigger] piece_names(value@, j, n) implies 0 <= j < i by {}
}

/// The headers that the `Connection` header names.
fn named_headers(headers: &http::HeaderMap) -> (names: Vec<String>)
    ensures
        forall|n: Seq<char>| #[trigger]
            names_view(names@).contains(n) <==> named_by(
                values_of(header_entries(*headers), "connection"@),
                n,
            ),
{
    let mut names: Vec<String> = Vec::new();
    let ghost all = values_of(header_entries(*headers), "connection"@);
    proof {
        lemma_literals();
    }
    let values = all_values(headers, "connection");
    proof {
        assert(all == values@.map_values(|v: &http::HeaderValue| header_value_bytes(*v)));
    }
    let mut i: usize = 0;
    while i < values.len()
        invariant
            i <= values@.len(),
            all == values@.map_values(|v: &http::HeaderValue| header_value_bytes(*v)),
            forall|n: Seq<char>| #[trigger]
                names_view(names@).contains(n) <==> exists|j: int|
                    0 <= j < i && #[trigger] value_names(all[j], n),
        decreases values@.len() - i,
    {
        let value = values[i];
        assert(all[i as int] == header_value_bytes(*value));
        let ghost before = names_view(names@);
        match value.to_str() {
            Ok(s) => {
                push_named(&mut names, s);
                assert forall|n: Seq<char>| #[trigger]
                    names_view(names@).contains(n) <==> exists|j: int|
                        0 <= j < i + 1 && #[trigger] value_names(all[j], n) by {
                    if before.contains(n) {
                        let j = choose|j: int| 0 <= j < i && #[trigger] value_names(all[j], n);
                        assert(value_names(all[j], n));
                    }
                    if exists|k: int| #[trigger] piece_names(s@, k, n) {
                        assert(value_names(all[i as int], n));
                    }
                }
            },
            Err(_) => {
                assert(forall|n: Seq<char>| !value_names(all[i as int], n));
            },
        }
        i = i + 1;
    }
    names
}

/// What is in a list after one more name was added to it.
proof fn lemma_push_contains(s: Seq<Seq<char>>, x: Seq<char>, n: Seq<char>)
    ensures
        s.push(x).contains(n) <==> s.contains(n) || n == x,
{
    if s.contains(n) {
        let k = choose|k: int| 0 <= k < s.len() && s[k] == n;
        assert(s.push(x)[k] == n);
    }
    if n == x {
        assert(s.push(x)[s.len() as int] == n);
    }
    if s.push(x).contains(n) {
        let k = choose|k: int| 0 <= k < s.push(x).len() && s.push(x)[k] == n;
        if k < s.len() {
            assert(s[k] == n);
        }
    }
}

/// What a `Connection` header names is a header name in lower case.
proof fn lemma_named(values: Seq<Seq<u8>>, name: Seq<char>)
    requires
        named_by(values, name),
    ensures
        header_name(name),
        lower(name) == name,
{
    let i = choose|i: int| 0 <= i < values.len() && #[trigger] value_names(values[i], name);
    let value = text_of(values[i]);
    let k = choose|k: int| #[trigger] piece_names(value, k, name);
    lemma_lower(trim_blank(text::split(value, ',')[k]));
}

/// What is in lower case stays as it is, and a name in lower case is still a name.
proof fn lemma_lower(s: Seq<char>)
    ensures
        lower(lower(s)) == lower(s),
        header_name(s) ==> header_name(lower(s)),
{
}

/// The headers that are looked up by a literal are names in lower case.
proof fn lemma_literals()
    ensures
        header_name("proxy-protocol"@) && lower("proxy-protocol"@) == "proxy-protocol"@,
        header_name("proxy-endpoint"@) && lower("proxy-endpoint"@) == "proxy-endpoint"@,
        header_name("connection"@) && lower("connection"@) == "connection"@,
        header_name("proxy-connection"@) && lower("proxy-connection"@) == "proxy-connection"@,
        header_name("keep-alive"@) && lower("keep-alive"@) == "keep-alive"@,
        header_name("transfer-encoding"@) && lower("transfer-encoding"@) == "transfer-encoding"@,
        header_name("upgrade"@) && lower("upgrade"@) == "upgrade"@,
        header_name("te"@) && lower("te"@) == "te"@,
{
    reveal_strlit("proxy-protocol");
    reveal_strlit("proxy-endpoint");
    reveal_strlit("connection");
    reveal_strlit("proxy-connection");
    reveal_strlit("keep-alive");
    reveal_strlit("transfer-encoding");
    reveal_strlit("upgrade");
    reveal_strlit("te");
}

/// Takes the headers out of a response that belong to one connection.
pub fn sanitize_response_headers(headers: &mut http::HeaderMap)
    ensures
        header_entries(*final(headers)) == sanitized(header_entries(*old(headers))),
{
    let names = named_headers(headers);
    let ghost entries = header_entries(*headers);
    let ghost values = values_of(entries, "connection"@);
    let mut i: usize = 0;
    while i < names.len()
        invariant
            i <= names@.len(),
            values == values_of(entries, "connection"@),
            forall|n: Seq<char>| #[trigger]
                names_view(names@).contains(n) <==> named_by(values, n),
            header_entries(*headers) == entries.remove_keys(
                Set::new(|n: Seq<char>| names_view(names@).take(i as int).contains(n)),
            ),
        decreases names@.len() - i,
    {
        let ghost name = names@[i as int]@;
        proof {
            assert(names_view(names@)[i as int] == name);
            assert(names_view(names@).contains(name));
            lemma_named(values, name);
            let before = names_view(names@).take(i as int);
            assert(names_view(names@).take(i + 1) == before.push(name));
            assert forall|n: Seq<char>| before.push(name).contains(n) <==> before.contains(n) || n == name by {
                lemma_push_contains(before, name, n);
            }
        }
        let _ = remove_header(headers, names[i].as_str());
        i = i + 1;
    }
    assert(names_view(names@).take(i as int) == names_view(names@));
    proof {
        lemma_literals();
    }
    let _ = remove_header(headers, "connection");
    let _ = remove_header(headers, "proxy-connection");
    let _ = remove_header(headers, "keep-alive");
    let _ = remove_header(headers, "transfer-encoding");
    let _ = remove_header(headers, "upgrade");
    let _ = remove_header(headers, "te");
}

/// Nothing that belongs to one connection is passed on, and all the rest is, with
/// its values as they were.
pub proof fn law_only_hop_by_hop_headers_go(entries: Map<Seq<char>, Seq<Seq<u8>>>, name: Seq<char>)
    ensures
        hop_by_hop(entries, name) ==> !sanitized(entries).dom().contains(name),
        !hop_by_hop(entries, name) ==> (sanitized(entries).dom().contains(name)
            <==> entries.dom().contains(name)),
        sanitized(entries).dom().contains(name) ==> sanitized(entries)[name] == entries[name],
{
}

/// What was passed on once is passed on unchanged by the next server.
pub proof fn law_sanitizing_twice_is_sanitizing_once(entries: Map<Seq<char>, Seq<Seq<u8>>>)
    ensures
        sanitized(sanitized(entries)) == sanitized(entries),
{
    let once = sanitized(entries);
    assert(connection_specific("connection"@));
    assert(values_of(once, "connection"@) == Seq::<Seq<u8>>::empty());
    assert forall|name: Seq<char>| once.dom().contains(name) implies !hop_by_hop(once, name) by {}
    assert(sanitized(once) == once);
}

} // verus!
