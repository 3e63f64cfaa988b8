//! URIs that name a Unix domain socket.
//!
//! The path of the socket is written in hexadecimal and stands where a URI has its host. Behind it
//! stands the port zero, and then the path and query of the request. A path that does not start
//! with a slash, a question mark or a number sign goes on with the port, or moves the host.

use vstd::prelude::*;
use vstd::utf8::*;

use crate::connector::connect_target;
use crate::connector::ConnectErrorView;
use crate::hexcode::decimal;
use crate::hexcode::hex_bytes;
use crate::hexcode::hex_encode;
use crate::hexcode::hex_text;
use crate::hexcode::law_hex_round_trip;
use crate::hexcode::lemma_hex_text_chars;
use crate::hexcode::HexError;

verus! {

/// What a request's URI says about where to connect and what to ask for.
#[derive(Debug)]
pub struct Uri {
    /// The scheme, where the URI has one.
    pub scheme: Option<String>,
    /// The host, where the URI has one.
    pub host: Option<String>,
    /// The port, where the URI has one that is a number.
    pub port: Option<u16>,
    /// The path and the query that are asked for, where the URI has a place for them.
    pub path_and_query: Option<String>,
}

/// A text that is no URI.
#[derive(Debug)]
pub struct InvalidUri {
    /// What is wrong with the text.
    pub message: String,
}

/// The view of an optional string.
pub open spec fn optional_text(text: Option<String>) -> Option<Seq<char>> {
    match text {
        Some(text) => Some(text@),
        None => None,
    }
}

/// The views of a scheme, a host, a port, and a path and query.
pub open spec fn part_texts(
    parts: (Option<String>, Option<String>, Option<u16>, Option<String>),
) -> (Option<Seq<char>>, Option<Seq<char>>, Option<u16>, Option<Seq<char>>) {
    (optional_text(parts.0), optional_text(parts.1), parts.2, optional_text(parts.3))
}

/// The scheme, the host, the port, and the path and query that `hyper::Uri` finds in a text, or its
/// message on why the text is no URI.
pub uninterp spec fn parsed_uri(text: Seq<char>) -> Result<
    (Option<Seq<char>>, Option<Seq<char>>, Option<u16>, Option<Seq<char>>),
    Seq<char>,
>;

/// The characters before the first slash, question mark or number sign.
pub open spec fn before_path(text: Seq<char>) -> Seq<char>
    decreases text.len(),
{
    if text.len() == 0 || text[0] == '/' || text[0] == '?' || text[0] == '#' {
        Seq::empty()
    } else {
        seq![text[0]] + before_path(text.drop_first())
    }
}

/// The characters before the first `stop`.
pub open spec fn before_first(text: Seq<char>, stop: char) -> Seq<char>
    decreases text.len(),
{
    if text.len() == 0 || text[0] == stop {
        Seq::empty()
    } else {
        seq![text[0]] + before_first(text.drop_first(), stop)
    }
}

/// The characters after the last `stop`; all of them where there is none.
pub open spec fn after_last(text: Seq<char>, stop: char) -> Seq<char>
    decreases text.len(),
{
    if text.len() == 0 || text.last() == stop {
        Seq::empty()
    } else {
        after_last(text.drop_last(), stop).push(text.last())
    }
}

/// The host within an authority: what stands behind the user information, up to the port. An
/// address in brackets keeps its colons.
pub open spec fn authority_host(authority: Seq<char>) -> Seq<char> {
    let host_and_port = after_last(authority, '@');
    if host_and_port.len() > 0 && host_and_port[0] == '[' {
        before_first(host_and_port, ']').push(']')
    } else {
        before_first(host_and_port, ':')
    }
}

/// The number that decimal digits stand for; no digits stand for zero.
pub open spec fn decimal_value(digits: Seq<char>) -> Option<nat>
    decreases digits.len(),
{
    if digits.len() == 0 {
        Some(0)
    } else {
        match decimal_value(digits.drop_last()) {
            Some(value) => if '0' <= digits.last() <= '9' {
                Some((10 * value + (digits.last() as int - '0' as int)) as nat)
            } else {
                None
            },
            None => None,
        }
    }
}

/// The port that a text stands for: decimal digits, with a plus sign in front of them or not, for
/// a number of sixteen bits.
pub open spec fn port_value(text: Seq<char>) -> Option<u16> {
    let digits = if text.len() > 0 && text[0] == '+' {
        text.drop_first()
    } else {
        text
    };
    match decimal_value(digits) {
        Some(value) => if digits.len() > 0 && value <= u16::MAX {
            Some(value as u16)
        } else {
            None
        },
        None => None,
    }
}

/// The port within an authority: what stands behind the last colon, where that is a number.
pub open spec fn authority_port(authority: Seq<char>) -> Option<u16> {
    if authority.contains(':') {
        port_value(after_last(authority, ':'))
    } else {
        None
    }
}

/// The path and the query of a URI, given what stands behind its authority: everything up to a
/// fragment, and a slash where there is nothing.
pub open spec fn request_path(tail: Seq<char>) -> Seq<char> {
    let path = before_first(tail, '#');
    if path.len() == 0 {
        seq!['/']
    } else {
        path
    }
}

/// What stands behind the authority.
pub open spec fn behind_authority(text: Seq<char>) -> Seq<char> {
    text.skip(before_path(text).len() as int)
}

/// The URI with the given host and request path.
pub open spec fn unix_uri_text(host: Seq<char>, path: Seq<char>) -> Seq<char> {
    "unix://"@ + (host + (":0"@ + path))
}

/// A lower-case hexadecimal digit.
pub open spec fn is_hex_char(c: char) -> bool {
    '0' <= c <= '9' || 'a' <= c <= 'f'
}

/// A character that may stand anywhere in a path and in a query.
pub open spec fn is_path_char(c: char) -> bool {
    c == '!' || '$' <= c <= ';' || c == '=' || '?' <= c <= '_' || 'a' <= c <= 'z' || c == '|' || c
        == '~'
}

/// An empty text, or a path or a query of characters that need no escape.
pub open spec fn is_request_path(path: Seq<char>) -> bool {
    &&& path.len() == 0 || path[0] == '/' || path[0] == '?'
    &&& forall|i: int| 0 <= i < path.len() ==> is_path_char(#[trigger] path[i])
}

/// The most bytes that a URI may have.
pub const MAX_URI_LEN: usize = 65534;

/// The parts of a URI with the scheme `unix`: the scheme is kept as it is, the host and the port
/// are cut out of what stands before the first slash, question mark or number sign, and what follows
/// is the path and the query.
pub open spec fn has_unix_parts(
    text: Seq<char>,
    parts: (Option<Seq<char>>, Option<Seq<char>>, Option<u16>, Option<Seq<char>>),
) -> bool {
    forall|rest: Seq<char>|
        text == #[trigger] ("unix://"@ + rest) ==> {
            &&& parts.0 == Some("unix"@)
            &&& parts.1 == Some(authority_host(before_path(rest)))
            &&& parts.2 == authority_port(before_path(rest))
            &&& parts.3 == Some(request_path(behind_authority(rest)))
        }
}

/// A text of at most [`MAX_URI_LEN`] characters whose host is made of hexadecimal digits and whose
/// path needs no escape.
pub open spec fn is_plain_unix_uri(text: Seq<char>) -> bool {
    &&& text.len() <= MAX_URI_LEN
    &&& exists|host: Seq<char>, path: Seq<char>|
        text == #[trigger] unix_uri_text(host, path) && is_request_path(path) && forall|i: int|
            0 <= i < host.len() ==> is_hex_char(#[trigger] host[i])
}

/// Parses a text with the `FromStr` of `hyper::Uri` and reads the result with `scheme_str`, `host`,
/// `port_u16` and `path_and_query`; a refusal is told by the `Display` of its error. The outcome is
/// a function of the text.
///
/// Three facts about it are stated: a text of more than [`MAX_URI_LEN`] bytes is too long, what
/// the parts of a URI with the scheme `unix` are, and that a plain URI with that scheme parses.
#[verifier::external_body]
fn parse_uri(text: &str) -> (parsed: Result<
    (Option<String>, Option<String>, Option<u16>, Option<String>),
    String,
>)
    ensures
        match parsed {
            Ok(parts) => parsed_uri(text@) == Ok::<_, Seq<char>>(part_texts(parts)),
            Err(message) => parsed_uri(text@) == Err::<
                (Option<Seq<char>>, Option<Seq<char>>, Option<u16>, Option<Seq<char>>),
                _,
            >(message@),
        },
        encode_utf8(text@).len() > MAX_URI_LEN ==> parsed is Err && parsed->Err_0@
            == "uri too long"@,
        parsed matches Ok(parts) ==> has_unix_parts(text@, part_texts(parts)),
        is_plain_unix_uri(text@) ==> parsed is Ok,
{
    match text.parse::<hyper::Uri>() {
        Ok(uri) => Ok((
            uri.scheme_str().map(str::to_owned),
            uri.host().map(str::to_owned),
            uri.port_u16(),
            uri.path_and_query().map(|path| path.as_str().to_owned()),
        )),
        Err(err) => Err(err.to_string()),
    }
}

impl Uri {
    /// The scheme, the host, the port, and the path and query.
    pub open spec fn parts(self) -> (
        Option<Seq<char>>,
        Option<Seq<char>>,
        Option<u16>,
        Option<Seq<char>>,
    ) {
        part_texts((self.scheme, self.host, self.port, self.path_and_query))
    }

    /// The path of the socket that the URI names.
    pub open spec fn target(self) -> Result<Seq<char>, ConnectErrorView> {
        connect_target(self.parts().0, self.parts().1)
    }

    /// The URI, or the reason why there is none, that comes of parsing a text.
    pub fn from_parsed(
        parsed: Result<(Option<String>, Option<String>, Option<u16>, Option<String>), String>,
    ) -> (uri: Result<Uri, InvalidUri>)
        ensures
            uri == (match parsed {
                Ok((scheme, host, port, path_and_query)) => Ok(
                    Uri { scheme, host, port, path_and_query },
                ),
                Err(message) => Err(InvalidUri { message }),
            }),
    {
        match parsed {
            Ok((scheme, host, port, path_and_query)) => Ok(
                Uri { scheme, host, port, path_and_query },
            ),
            Err(message) => Err(InvalidUri { message }),
        }
    }

    /// Parses a URI.
    pub fn parse(text: &str) -> (uri: Result<Uri, InvalidUri>)
        ensures
            match uri {
                Ok(uri) => parsed_uri(text@) == Ok::<_, Seq<char>>(uri.parts()),
                Err(error) => parsed_uri(text@) == Err::<
                    (Option<Seq<char>>, Option<Seq<char>>, Option<u16>, Option<Seq<char>>),
                    _,
                >(error.message@),
            },
            encode_utf8(text@).len() > MAX_URI_LEN ==> uri is Err && uri->Err_0.message@
                == "uri too long"@,
            uri matches Ok(uri) ==> has_unix_parts(text@, uri.parts()),
            is_plain_unix_uri(text@) ==> uri is Ok,
    {
        Uri::from_parsed(parse_uri(text))
    }
}

/// The text of the URI for a request to the socket at `base`.
pub fn uri_text(base: &str, path: &str) -> (text: String)
    ensures
        text@ == unix_uri_text(hex_text(encode_utf8(base@)), path@),
        text@ == "unix://"@ + hex_text(encode_utf8(base@)) + ":0"@ + path@,
{
    let host = hex_encode(base.as_bytes());
    let mut text = String::new();
    text.append("unix://");
    text.append(host.as_str());
    text.append(":0");
    text.append(path);
    assert(text@ == unix_uri_text(hex_text(encode_utf8(base@)), path@));
    text
}

/// The host of the URI for a request to the socket at `base`, where the text of that URI is one.
pub open spec fn uri_host(base: Seq<char>, path: Seq<char>) -> Seq<char> {
    authority_host(before_path(hex_text(encode_utf8(base)) + (":0"@ + path)))
}

/// The port of the URI for a request for `path`: what the path has before its first slash, question
/// mark or number sign goes on with the port zero, or brings a port of its own.
pub open spec fn uri_port(path: Seq<char>) -> Option<u16> {
    let start = before_path(path);
    if start.contains(':') {
        port_value(after_last(start, ':'))
    } else {
        port_value(seq!['0'] + start)
    }
}

/// What comes before the first slash, question mark or number sign is not cut by them.
proof fn lemma_before_path_skips(prefix: Seq<char>, rest: Seq<char>)
    requires
        forall|i: int|
            0 <= i < prefix.len() ==> {
                let c = #[trigger] prefix[i];
                c != '/' && c != '?' && c != '#'
            },
    ensures
        before_path(prefix + rest) == prefix + before_path(rest),
    decreases prefix.len(),
{
    if prefix.len() == 0 {
        assert(prefix + rest == rest);
        assert(prefix + before_path(rest) == before_path(rest));
    } else {
        assert((prefix + rest).drop_first() == prefix.drop_first() + rest);
        lemma_before_path_skips(prefix.drop_first(), rest);
        assert(prefix + before_path(rest) == seq![prefix[0]] + (prefix.drop_first() + before_path(
            rest,
        )));
    }
}

/// A text that starts with a `stop`-free part and a `stop` is cut there.
proof fn lemma_before_first_found(prefix: Seq<char>, stop: char, rest: Seq<char>)
    requires
        !prefix.contains(stop),
        rest.len() > 0,
        rest[0] == stop,
    ensures
        before_first(prefix + rest, stop) == prefix,
    decreases prefix.len(),
{
    if prefix.len() == 0 {
        assert(prefix + rest == rest);
        assert(before_first(rest, stop) == prefix);
    } else {
        assert(prefix.contains(prefix[0]));
        assert((prefix + rest).drop_first() == prefix.drop_first() + rest);
        assert forall|i: int| 0 <= i < prefix.drop_first().len() implies prefix.drop_first()[i]
            != stop by {
            assert(prefix.contains(prefix[i + 1]));
        }
        lemma_before_first_found(prefix.drop_first(), stop, rest);
        assert(prefix == seq![prefix[0]] + prefix.drop_first());
    }
}

/// Without a `stop` the whole text comes after the last one.
proof fn lemma_after_last_missing(text: Seq<char>, stop: char)
    requires
        !text.contains(stop),
    ensures
        after_last(text, stop) == text,
    decreases text.len(),
{
    if text.len() > 0 {
        assert(text.contains(text.last()));
        assert forall|i: int| 0 <= i < text.drop_last().len() implies text.drop_last()[i]
            != stop by {
            assert(text.contains(text[i]));
        }
        lemma_after_last_missing(text.drop_last(), stop);
        assert(text == text.drop_last().push(text.last()));
    } else {
        assert(text == Seq::<char>::empty());
    }
}

/// What comes before some `stop` does not count for what comes after the last one.
proof fn lemma_after_last_found(prefix: Seq<char>, text: Seq<char>, stop: char)
    requires
        text.contains(stop),
    ensures
        after_last(prefix + text, stop) == after_last(text, stop),
    decreases text.len(),
{
    if text.last() != stop {
        let k = choose|k: int| 0 <= k < text.len() && text[k] == stop;
        assert(text.drop_last()[k] == stop);
        assert((prefix + text).drop_last() == prefix + text.drop_last());
        lemma_after_last_found(prefix, text.drop_last(), stop);
    }
}

/// How many characters and how many bytes a URI has.
proof fn lemma_uri_len(host: Seq<char>, path: Seq<char>)
    requires
        is_ascii_chars(host),
    ensures
        unix_uri_text(host, path).len() == host.len() + path.len() + 9,
        encode_utf8(unix_uri_text(host, path)).len() == host.len() + encode_utf8(path).len() + 9,
{
    reveal_strlit("unix://");
    reveal_strlit(":0");
    let prefix = "unix://"@ + host + ":0"@;
    assert(unix_uri_text(host, path) == prefix + path);
    lemma_ascii_prefix_len(prefix, path);
}

/// ASCII characters in front of a text add a byte each.
proof fn lemma_ascii_prefix_len(prefix: Seq<char>, text: Seq<char>)
    requires
        is_ascii_chars(prefix),
    ensures
        encode_utf8(prefix + text).len() == prefix.len() + encode_utf8(text).len(),
    decreases prefix.len(),
{
    if prefix.len() == 0 {
        assert(prefix + text == text);
    } else {
        assert((prefix + text).drop_first() == prefix.drop_first() + text);
        lemma_ascii_prefix_len(prefix.drop_first(), text);
        is_ascii_chars_encode_utf8(seq![prefix[0]]);
        assert(seq![prefix[0]].drop_first() == Seq::<char>::empty());
    }
}

/// The socket path in a URI survives the way there and back: the URI made for a socket at `base`
/// names the socket at `base`, whatever the path, unless the path writes an at sign before its
/// first slash, question mark or number sign. Then what stands before the at sign becomes user
/// information, and the host is what the path alone says.
pub proof fn law_uri_names_its_socket(base: Seq<char>, path: Seq<char>)
    ensures
        !before_path(path).contains('@') ==> {
            &&& uri_host(base, path) == hex_text(encode_utf8(base))
            &&& connect_target(Some("unix"@), Some(uri_host(base, path))) == Ok::<
                Seq<char>,
                ConnectErrorView,
            >(base)
        },
        before_path(path).contains('@') ==> uri_host(base, path) == authority_host(
            before_path(path),
        ),
{
    let host = hex_text(encode_utf8(base));
    lemma_hex_text_chars(encode_utf8(base));
    reveal_strlit(":0");
    let tail = ":0"@ + path;
    let authority = host + (":0"@ + before_path(path));
    lemma_before_path_skips(host, tail);
    lemma_before_path_skips(":0"@, path);
    assert(before_path(host + tail) == authority);
    if before_path(path).contains('@') {
        assert(authority == (host + ":0"@) + before_path(path));
        lemma_after_last_found(host + ":0"@, before_path(path), '@');
    } else {
        assert forall|i: int| 0 <= i < authority.len() implies authority[i] != '@' by {
            if i >= host.len() + 2 {
                assert(before_path(path).contains(before_path(path)[i - host.len() - 2]));
            } else if i >= host.len() {
                assert(authority[i] == ":0"@[i - host.len()]);
            }
        }
        lemma_after_last_missing(authority, '@');
        lemma_before_first_found(host, ':', ":0"@ + before_path(path));
        law_hex_round_trip(encode_utf8(base));
        encode_utf8_valid_utf8(base);
        encode_utf8_decode_utf8(base);
    }
}

/// What the URI made for a socket at `base` asks for depends on the path alone. A path that starts
/// with a slash or a question mark and has no fragment is asked for as it is.
pub proof fn law_uri_asks_for_its_path(base: Seq<char>, path: Seq<char>)
    ensures
        behind_authority(hex_text(encode_utf8(base)) + (":0"@ + path)) == behind_authority(path),
        path.len() > 0 && (path[0] == '/' || path[0] == '?') && !path.contains('#')
            ==> request_path(behind_authority(path)) == path,
{
    let host = hex_text(encode_utf8(base));
    lemma_hex_text_chars(encode_utf8(base));
    reveal_strlit(":0");
    lemma_before_path_skips(host, ":0"@ + path);
    lemma_before_path_skips(":0"@, path);
    lemma_before_path_len(path);
    assert(behind_authority(host + (":0"@ + path)) == behind_authority(path));
    if path.len() > 0 && (path[0] == '/' || path[0] == '?') && !path.contains('#') {
        assert(behind_authority(path) == path);
        lemma_before_first_missing(path, '#');
    }
}

/// A request is for what stands before the fragment, and for a slash where nothing does.
pub proof fn law_request_path(tail: Seq<char>)
    ensures
        tail.len() == 0 || tail[0] == '#' ==> request_path(tail) == seq!['/'],
        tail.len() > 0 && tail[0] != '#' ==> {
            let path = request_path(tail);
            &&& path.len() > 0
            &&& path.is_prefix_of(tail)
            &&& !path.contains('#')
            &&& path.len() < tail.len() ==> tail[path.len() as int] == '#'
        },
{
    law_before_first(tail, '#');
}

/// The port of the URI made for a socket depends on the path alone. It is zero where the path is
/// empty or starts with a slash, a question mark or a number sign.
pub proof fn law_uri_port(base: Seq<char>, path: Seq<char>)
    ensures
        authority_port(before_path(hex_text(encode_utf8(base)) + (":0"@ + path))) == uri_port(path),
        before_path(path).len() == 0 ==> uri_port(path) == Some(0u16),
{
    let host = hex_text(encode_utf8(base));
    let start = before_path(path);
    lemma_hex_text_chars(encode_utf8(base));
    reveal_strlit(":0");
    lemma_before_path_skips(host, ":0"@ + path);
    lemma_before_path_skips(":0"@, path);
    let authority = host + (":0"@ + start);
    assert(before_path(host + (":0"@ + path)) == authority);
    assert(authority[host.len() as int] == ':');
    if start.contains(':') {
        assert(authority == (host + ":0"@) + start);
        lemma_after_last_found(host + ":0"@, start, ':');
    } else {
        let number = seq!['0'] + start;
        assert(authority == host.push(':') + number);
        assert forall|i: int| 0 <= i < number.len() implies number[i] != ':' by {
            if i > 0 {
                assert(start.contains(start[i - 1]));
            }
        }
        lemma_after_last_at(host.push(':'), number, ':');
    }
    if start.len() == 0 {
        let number = seq!['0'] + start;
        assert(number == seq!['0']);
        assert(!start.contains(':'));
        assert(number.drop_last() == Seq::<char>::empty());
        assert(decimal_value(number) == Some(0nat));
    }
}

/// What comes after a `stop` and has none itself comes after the last one.
proof fn lemma_after_last_at(prefix: Seq<char>, text: Seq<char>, stop: char)
    requires
        prefix.len() > 0,
        prefix.last() == stop,
        forall|i: int| 0 <= i < text.len() ==> text[i] != stop,
    ensures
        after_last(prefix + text, stop) == text,
    decreases text.len(),
{
    if text.len() == 0 {
        assert(prefix + text == prefix);
        assert(after_last(prefix, stop) == text);
    } else {
        assert((prefix + text).drop_last() == prefix + text.drop_last());
        lemma_after_last_at(prefix, text.drop_last(), stop);
        assert(text == text.drop_last().push(text.last()));
    }
}

/// What comes before the path is part of the text.
proof fn lemma_before_path_len(text: Seq<char>)
    ensures
        before_path(text).len() <= text.len(),
    decreases text.len(),
{
    if text.len() > 0 {
        lemma_before_path_len(text.drop_first());
    }
}

/// Without a `stop` the whole text comes before the first one.
proof fn lemma_before_first_missing(text: Seq<char>, stop: char)
    requires
        !text.contains(stop),
    ensures
        before_first(text, stop) == text,
    decreases text.len(),
{
    if text.len() > 0 {
        assert(text.contains(text[0]));
        assert forall|i: int| 0 <= i < text.drop_first().len() implies text.drop_first()[i]
            != stop by {
            assert(text.contains(text[i + 1]));
        }
        lemma_before_first_missing(text.drop_first(), stop);
        assert(text == seq![text[0]] + text.drop_first());
    } else {
        assert(text == Seq::<char>::empty());
    }
}

/// The parts of a URI are what its fields hold.
pub proof fn law_parts(uri: Uri)
    ensures
        match uri.parts().0 {
            Some(text) => uri.scheme matches Some(scheme) && text == scheme@,
            None => uri.scheme is None,
        },
        match uri.parts().1 {
            Some(text) => uri.host matches Some(host) && text == host@,
            None => uri.host is None,
        },
        uri.parts().2 == uri.port,
        match uri.parts().3 {
            Some(text) => uri.path_and_query matches Some(path) && text == path@,
            None => uri.path_and_query is None,
        },
{
}

/// The text of a URI starts with the scheme. Then come the path of the socket in hexadecimal, which
/// can be decoded from there, the port zero, and the path of the request as it is, to the end.
pub proof fn law_uri_text(base: Seq<char>, path: Seq<char>)
    ensures
        ({
            let text = unix_uri_text(hex_text(encode_utf8(base)), path);
            let host_end = 7int + 2 * encode_utf8(base).len();
            &&& text.len() == host_end + 2 + path.len()
            &&& text.take(7) == "unix://"@
            &&& hex_bytes(encode_utf8(text.subrange(7, host_end))) == Ok::<
                Seq<u8>,
                HexError,
            >(encode_utf8(base))
            &&& text.subrange(host_end, host_end + 2) == ":0"@
            &&& text.skip(host_end + 2) == path
        }),
{
    let host = hex_text(encode_utf8(base));
    let text = unix_uri_text(host, path);
    reveal_strlit("unix://");
    reveal_strlit(":0");
    law_hex_round_trip(encode_utf8(base));
    assert(text.take(7) =~= "unix://"@);
    assert(text.subrange(7, 7int + host.len()) =~= host);
    assert(text.subrange(7int + host.len(), 9int + host.len()) =~= ":0"@);
    assert(text.skip(9int + host.len()) =~= path);
}

/// A text is cut before its first slash, question mark or number sign: what comes before has none
/// of them, and what comes behind is empty or starts with one.
pub proof fn law_before_path(text: Seq<char>)
    ensures
        ({
            let start = before_path(text);
            let rest = behind_authority(text);
            &&& start + rest == text
            &&& !start.contains('/') && !start.contains('?') && !start.contains('#')
            &&& rest.len() == 0 || rest[0] == '/' || rest[0] == '?' || rest[0] == '#'
        }),
    decreases text.len(),
{
    if text.len() > 0 && text[0] != '/' && text[0] != '?' && text[0] != '#' {
        let tail = text.drop_first();
        let start = before_path(tail);
        law_before_path(tail);
        lemma_before_path_len(tail);
        assert(before_path(text) == seq![text[0]] + start);
        assert(behind_authority(text) =~= behind_authority(tail));
        assert(seq![text[0]] + start + behind_authority(tail) =~= seq![text[0]] + tail) by {
            assert(start + behind_authority(tail) == tail);
            assert(seq![text[0]] + start + behind_authority(tail) =~= seq![text[0]] + (start
                + behind_authority(tail)));
        }
        assert(seq![text[0]] + tail =~= text);
        assert forall|i: int| 0 <= i < before_path(text).len() implies {
            let c = #[trigger] before_path(text)[i];
            c != '/' && c != '?' && c != '#'
        } by {
            if i > 0 {
                assert(start.contains(start[i - 1]));
            }
        }
    } else {
        assert(behind_authority(text) =~= text);
        assert(before_path(text) + text =~= text);
    }
}

/// A text is cut before the first `stop`: what comes before has none, and a `stop` follows unless
/// the text ends there.
pub proof fn law_before_first(text: Seq<char>, stop: char)
    ensures
        before_first(text, stop).is_prefix_of(text),
        !before_first(text, stop).contains(stop),
        before_first(text, stop).len() < text.len() ==> text[before_first(text, stop).len() as int]
            == stop,
    decreases text.len(),
{
    if text.len() > 0 && text[0] != stop {
        let tail = text.drop_first();
        law_before_first(tail, stop);
        let front = before_first(tail, stop);
        assert(before_first(text, stop) =~= text.take(front.len() + 1int)) by {
            assert(front =~= tail.take(front.len() as int));
        }
        assert forall|i: int| 0 <= i < front.len() + 1 implies before_first(text, stop)[i]
            != stop by {
            if i > 0 {
                assert(front.contains(front[i - 1]));
            }
        }
    }
}

/// A text is cut behind the last `stop`: what comes behind has none, and a `stop` stands before it
/// unless the text starts there.
pub proof fn law_after_last(text: Seq<char>, stop: char)
    ensures
        after_last(text, stop).is_suffix_of(text),
        !after_last(text, stop).contains(stop),
        after_last(text, stop).len() < text.len() ==> text[text.len() - after_last(
            text,
            stop,
        ).len() - 1] == stop,
    decreases text.len(),
{
    if text.len() > 0 && text.last() != stop {
        let front = text.drop_last();
        law_after_last(front, stop);
        let back = after_last(front, stop);
        assert(after_last(text, stop) == back.push(text.last()));
        assert(back =~= front.skip(front.len() - back.len()));
        assert(after_last(text, stop) =~= text.skip(text.len() - back.len() - 1));
        assert forall|i: int| 0 <= i < back.len() + 1 implies after_last(text, stop)[i]
            != stop by {
            if i < back.len() {
                assert(back.contains(back[i]));
            }
        }
    }
}

/// A number in decimal digits stands for a port where it has sixteen bits, with a plus sign in front
/// or not.
pub proof fn law_port_value(number: nat)
    ensures
        decimal_value(decimal(number)) == Some(number),
        port_value(decimal(number)) == (if number <= u16::MAX {
            Some(number as u16)
        } else {
            None
        }),
        port_value(seq!['+'] + decimal(number)) == port_value(decimal(number)),
{
    lemma_decimal(number);
    assert((seq!['+'] + decimal(number)).drop_first() =~= decimal(number));
}

/// The decimal digits of a number are digits, and stand for it.
proof fn lemma_decimal(number: nat)
    ensures
        decimal(number).len() > 0,
        '0' <= decimal(number)[0] <= '9',
        decimal_value(decimal(number)) == Some(number),
    decreases number,
{
    let digits = decimal(number);
    if number < 10 {
        assert(digits.drop_last() =~= Seq::<char>::empty());
        assert(decimal_value(Seq::<char>::empty()) == Some(0nat));
    } else {
        lemma_decimal(number / 10);
        assert(digits.drop_last() =~= decimal(number / 10));
        assert(10 * (number / 10) + number % 10 == number);
    }
}

/// Two URIs have the same text only where they are for the same socket and the same path.
pub proof fn law_uri_text_is_unique(
    base: Seq<char>,
    path: Seq<char>,
    other_base: Seq<char>,
    other_path: Seq<char>,
)
    requires
        unix_uri_text(hex_text(encode_utf8(base)), path) == unix_uri_text(
            hex_text(encode_utf8(other_base)),
            other_path,
        ),
    ensures
        base == other_base,
        path == other_path,
{
    let host = hex_text(encode_utf8(base));
    let other_host = hex_text(encode_utf8(other_base));
    let tail = ":0"@ + path;
    let other_tail = ":0"@ + other_path;
    reveal_strlit(":0");
    lemma_hex_text_chars(encode_utf8(base));
    lemma_hex_text_chars(encode_utf8(other_base));
    let text = unix_uri_text(host, path);
    let skipped = "unix://"@.len() as int;
    assert(text.skip(skipped) == host + tail);
    assert(text.skip(skipped) == other_host + other_tail);
    lemma_before_first_found(host, ':', tail);
    lemma_before_first_found(other_host, ':', other_tail);
    assert(host == other_host);
    assert((host + tail).skip(host.len() as int) == tail);
    assert((host + other_tail).skip(host.len() as int) == other_tail);
    assert(tail.skip(2) == path);
    assert(other_tail.skip(2) == other_path);
    law_hex_round_trip(encode_utf8(base));
    law_hex_round_trip(encode_utf8(other_base));
    encode_utf8_decode_utf8(base);
    encode_utf8_decode_utf8(other_base);
}

/// The URI for a request for `path` to the server that listens on the socket at `base`. It names
/// that socket, unless the path moves the host; see [`law_uri_names_its_socket`].
pub fn make_hyper_uri(base: &str, path: &str) -> (uri: Result<Uri, InvalidUri>)
    ensures
        ({
            let text = unix_uri_text(hex_text(encode_utf8(base@)), path@);
            match uri {
                Ok(uri) => parsed_uri(text) == Ok::<_, Seq<char>>(uri.parts()),
                Err(error) => parsed_uri(text) == Err::<
                    (Option<Seq<char>>, Option<Seq<char>>, Option<u16>, Option<Seq<char>>),
                    _,
                >(error.message@),
            }
        }),
        uri matches Ok(uri) ==> {
            &&& uri.parts() == (
                Some("unix"@),
                Some(uri_host(base@, path@)),
                uri_port(path@),
                Some(request_path(behind_authority(path@))),
            )
            &&& !before_path(path@).contains('@') ==> uri.target() == Ok::<
                Seq<char>,
                ConnectErrorView,
            >(base@)
        },
        is_request_path(path@) && 2 * encode_utf8(base@).len() + path@.len() + 9 <= MAX_URI_LEN
            ==> uri is Ok,
        2 * encode_utf8(base@).len() + encode_utf8(path@).len() + 9 > MAX_URI_LEN ==> uri is Err
            && uri->Err_0.message@ == "uri too long"@,
{
    proof {
        let host = hex_text(encode_utf8(base@));
        lemma_hex_text_chars(encode_utf8(base@));
        law_uri_names_its_socket(base@, path@);
        law_uri_asks_for_its_path(base@, path@);
        law_uri_port(base@, path@);
        lemma_uri_len(host, path@);
        assert(unix_uri_text(host, path@) == "unix://"@ + (host + (":0"@ + path@)));
    }
    Uri::parse(uri_text(base, path).as_str())
}

} // verus!
