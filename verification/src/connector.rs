//! From a request's URI to the socket to connect to.

use vstd::prelude::*;
use vstd::utf8::*;

use crate::hexcode::decimal;
use crate::hexcode::digit_value;
use crate::hexcode::hex_bytes;
use crate::hexcode::hex_decode;
use crate::hexcode::hex_digit;
use crate::hexcode::hex_error_message;
use crate::hexcode::hex_error_text;
use crate::hexcode::hex_text;
use crate::hexcode::is_plain_char;
use crate::hexcode::law_digit_value;
use crate::hexcode::law_hex_round_trip;
use crate::hexcode::lemma_first_bad_digit;
use crate::hexcode::lemma_hex_text_chars;
use crate::hexcode::lemma_same_digits;
use crate::hexcode::same_digits;
use crate::hexcode::HexError;
use crate::stream_error::ErrorKind;
use crate::uri::optional_text;
use crate::uri::Uri;

verus! {

/// Connects requests to the Unix domain sockets that their URIs name.
#[derive(Clone, Copy, Debug)]
pub struct UdsConnector;

/// Why a URI names no socket.
#[derive(Debug)]
pub enum ConnectError {
    /// The scheme is not `unix`.
    Scheme { scheme: Option<String> },
    /// The URI has no host.
    NoHost,
    /// The host is not hexadecimal.
    Hex { host: String, error: HexError },
    /// The host is the hexadecimal form of bytes that are not UTF-8, for the given
    /// reason.
    Utf8 { host: String, reason: String },
}

/// A [`ConnectError`] with the texts that it holds.
pub enum ConnectErrorView {
    Scheme(Option<Seq<char>>),
    NoHost,
    Hex(Seq<char>, HexError),
    Utf8(Seq<char>, Seq<char>),
}

impl View for ConnectError {
    type V = ConnectErrorView;

    open spec fn view(&self) -> ConnectErrorView {
        match *self {
            ConnectError::Scheme { scheme } => ConnectErrorView::Scheme(optional_text(scheme)),
            ConnectError::NoHost => ConnectErrorView::NoHost,
            ConnectError::Hex { host, error } => ConnectErrorView::Hex(host@, error),
            ConnectError::Utf8 { host, reason } => ConnectErrorView::Utf8(host@, reason@),
        }
    }
}

/// What the standard library says is wrong with bytes that are not UTF-8.
pub uninterp spec fn utf8_error_text(bytes: Seq<u8>) -> Seq<char>;

/// A string between quotation marks, with the escapes of the standard library's `Debug`.
pub uninterp spec fn quoted_text(text: Seq<char>) -> Seq<char>;

/// Calls `String::from_utf8`. It takes exactly the well-formed encodings and decodes them; a
/// refusal is told by the `Display` of its error, which depends on the bytes alone.
#[verifier::external_body]
fn string_from_utf8(bytes: Vec<u8>) -> (text: Result<String, String>)
    ensures
        match text {
            Ok(text) => valid_utf8(bytes@) && text@ == decode_utf8(bytes@),
            Err(error) => !valid_utf8(bytes@) && error@ == utf8_error_text(bytes@),
        },
{
    String::from_utf8(bytes).map_err(|err| err.to_string())
}

/// Formats a string with its `Debug`, which depends on the string alone. Printable ASCII characters
/// other than quotation marks, apostrophes and backslashes are kept as they are.
#[verifier::external_body]
fn quote(text: &str) -> (quoted: String)
    ensures
        quoted@ == quoted_text(text@),
        (forall|i: int| 0 <= i < text@.len() ==> is_plain_char(#[trigger] text@[i])) ==> quoted@
            == seq!['"'] + text@ + seq!['"'],
{
    format!("{:?}", text)
}

/// The path of the socket that a URI with this scheme and this host names.
pub open spec fn connect_target(
    scheme: Option<Seq<char>>,
    host: Option<Seq<char>>,
) -> Result<Seq<char>, ConnectErrorView> {
    if scheme != Some("unix"@) {
        Err(ConnectErrorView::Scheme(scheme))
    } else {
        match host {
            None => Err(ConnectErrorView::NoHost),
            Some(host) => match hex_bytes(encode_utf8(host)) {
                Err(error) => Err(ConnectErrorView::Hex(host, error)),
                Ok(bytes) => if valid_utf8(bytes) {
                    Ok(decode_utf8(bytes))
                } else {
                    Err(ConnectErrorView::Utf8(host, utf8_error_text(bytes)))
                },
            },
        }
    }
}

impl ConnectErrorView {
    /// The scheme or the host that the error is about.
    pub open spec fn subject(self) -> Seq<char> {
        match self {
            ConnectErrorView::Scheme(Some(scheme)) => scheme,
            ConnectErrorView::Scheme(None) => ""@,
            ConnectErrorView::NoHost => ""@,
            ConnectErrorView::Hex(host, _) => host,
            ConnectErrorView::Utf8(host, _) => host,
        }
    }

    /// The scheme or the host that the error is about needs no escape between quotation marks.
    pub open spec fn has_plain_subject(self) -> bool {
        forall|i: int| 0 <= i < self.subject().len() ==> is_plain_char(#[trigger] self.subject()[i])
    }

    /// The scheme or the host that the error is about, in quotation marks.
    pub open spec fn quoted_subject(self) -> Seq<char> {
        match self {
            ConnectErrorView::Scheme(Some(scheme)) => quoted_text(scheme),
            ConnectErrorView::Scheme(None) => ""@,
            ConnectErrorView::NoHost => ""@,
            ConnectErrorView::Hex(host, _) => quoted_text(host),
            ConnectErrorView::Utf8(host, _) => quoted_text(host),
        }
    }

    /// What is wrong with the host, where it was looked into.
    pub open spec fn cause(self) -> Seq<char> {
        match self {
            ConnectErrorView::Scheme(_) => ""@,
            ConnectErrorView::NoHost => ""@,
            ConnectErrorView::Hex(_, error) => hex_error_text(error),
            ConnectErrorView::Utf8(_, reason) => reason,
        }
    }

    /// The cause, with a bad character that needs no escape written out.
    pub open spec fn plain_cause(self) -> Seq<char> {
        match self {
            ConnectErrorView::Hex(_, HexError::InvalidHexCharacter { c, index }) => {
                if is_plain_char(c) {
                    "Invalid character "@ + seq!['\'', c, '\''] + " at position "@ + decimal(
                        index as nat,
                    )
                } else {
                    self.cause()
                }
            },
            _ => self.cause(),
        }
    }

    /// The message, given the subject in quotation marks and the cause.
    pub open spec fn message(self, quoted: Seq<char>, cause: Seq<char>) -> Seq<char> {
        match self {
            ConnectErrorView::Scheme(Some(_)) => {
                "expected req to have \"unix\" scheme but it has Some("@ + quoted + ")"@
            },
            ConnectErrorView::Scheme(None) => {
                "expected req to have \"unix\" scheme but it has None"@
            },
            ConnectErrorView::NoHost => "could not decode UDS path from req host None"@,
            ConnectErrorView::Hex(_, _) => {
                "could not decode UDS path from req host "@ + quoted + ": "@ + cause
            },
            ConnectErrorView::Utf8(_, _) => {
                "could not decode UDS path from req host Some("@ + quoted + "): "@ + cause
            },
        }
    }
}

impl ConnectError {
    /// The kind of the error.
    pub fn kind(&self) -> (kind: ErrorKind)
        ensures
            kind == ErrorKind::Other,
    {
        ErrorKind::Other
    }

    /// The message, given the subject in quotation marks and the cause.
    pub fn message_with(&self, quoted: &str, cause: &str) -> (message: String)
        ensures
            message@ == self@.message(quoted@, cause@),
    {
        let mut message = String::new();
        match self {
            ConnectError::Scheme { scheme: Some(_) } => {
                message.append("expected req to have \"unix\" scheme but it has Some(");
                message.append(quoted);
                message.append(")");
            },
            ConnectError::Scheme { scheme: None } => {
                message.append("expected req to have \"unix\" scheme but it has None");
            },
            ConnectError::NoHost => {
                message.append("could not decode UDS path from req host None");
            },
            ConnectError::Hex { .. } => {
                message.append("could not decode UDS path from req host ");
                message.append(quoted);
                message.append(": ");
                message.append(cause);
            },
            ConnectError::Utf8 { .. } => {
                message.append("could not decode UDS path from req host Some(");
                message.append(quoted);
                message.append("): ");
                message.append(cause);
            },
        }
        assert(message@ == self@.message(quoted@, cause@));
        message
    }

    /// The message for people to read.
    pub fn message(&self) -> (message: String)
        ensures
            message@ == self@.message(self@.quoted_subject(), self@.cause()),
            self@.has_plain_subject() ==> message@ == self@.message(
                seq!['"'] + self@.subject() + seq!['"'],
                self@.plain_cause(),
            ),
    {
        match self {
            ConnectError::Scheme { scheme: Some(scheme) } => {
                let quoted = quote(scheme.as_str());
                self.message_with(quoted.as_str(), "")
            },
            ConnectError::Scheme { scheme: None } => self.message_with("", ""),
            ConnectError::NoHost => self.message_with("", ""),
            ConnectError::Hex { host, error } => {
                let quoted = quote(host.as_str());
                let cause = hex_error_message(error);
                self.message_with(quoted.as_str(), cause.as_str())
            },
            ConnectError::Utf8 { host, reason } => {
                let quoted = quote(host.as_str());
                self.message_with(quoted.as_str(), reason.as_str())
            },
        }
    }
}

/// The path of the socket, once the bytes of the host have been decoded.
pub fn decoded_path(host: &str, decoded: Result<String, String>) -> (path: Result<
    String,
    ConnectError,
>)
    ensures
        match (decoded, path) {
            (Ok(text), Ok(path)) => path == text,
            (Err(reason), Err(error)) => error@ == ConnectErrorView::Utf8(host@, reason@),
            _ => false,
        },
{
    match decoded {
        Ok(text) => Ok(text),
        Err(reason) => Err(ConnectError::Utf8 { host: host.to_owned(), reason }),
    }
}

impl Default for UdsConnector {
    fn default() -> (connector: UdsConnector)
        ensures
            connector == UdsConnector,
    {
        UdsConnector
    }
}

impl UdsConnector {
    /// A connector.
    pub fn new() -> (connector: UdsConnector)
        ensures
            connector == UdsConnector,
    {
        Default::default()
    }

    /// The path of the socket to connect to for a request with the URI `req`.
    pub fn call(&self, req: &Uri) -> (path: Result<String, ConnectError>)
        ensures
            match path {
                Ok(path) => req.target() == Ok::<Seq<char>, ConnectErrorView>(path@),
                Err(error) => req.target() == Err::<Seq<char>, ConnectErrorView>(error@),
            },
    {
        let is_unix = match &req.scheme {
            Some(scheme) => *scheme == "unix".to_owned(),
            None => false,
        };
        if !is_unix {
            return Err(ConnectError::Scheme { scheme: req.scheme.clone() });
        }
        match &req.host {
            None => Err(ConnectError::NoHost),
            Some(host) => match hex_decode(host.as_str()) {
                Err(error) => Err(ConnectError::Hex { host: host.clone(), error }),
                Ok(bytes) => decoded_path(host.as_str(), string_from_utf8(bytes)),
            },
        }
    }
}

/// Two texts that differ at most in the case of ASCII letters.
pub open spec fn same_but_for_case(text: Seq<char>, other: Seq<char>) -> bool {
    &&& text.len() == other.len()
    &&& forall|i: int|
        0 <= i < text.len() ==> {
            let c = #[trigger] text[i];
            ||| c == other[i]
            ||| 'A' <= c <= 'Z' && other[i] as int == c as int + 32
            ||| 'a' <= c <= 'z' && other[i] as int == c as int - 32
        }
}

/// Whether a URI names a socket, and which one, depends on its scheme and its host alone, and not on
/// the case of the host's letters. Where two URIs have the same scheme and host, they are refused
/// with the same error.
pub proof fn law_target_ignores_host_case(req: Uri, other: Uri)
    requires
        req.parts().0 == other.parts().0,
        match (req.parts().1, other.parts().1) {
            (Some(host), Some(other_host)) => same_but_for_case(host, other_host),
            (None, None) => true,
            _ => false,
        },
    ensures
        req.target() is Ok <==> other.target() is Ok,
        req.target() is Ok ==> other.target() == req.target(),
        req.parts().1 == other.parts().1 ==> other.target() == req.target(),
{
    if let (Some(host), Some(other_host)) = (req.parts().1, other.parts().1) {
        lemma_case_keeps_digits(host, other_host);
        lemma_same_digits(encode_utf8(host), encode_utf8(other_host));
    }
}

/// A URI names the socket at a path exactly where its scheme is `unix` and its host is the
/// hexadecimal form of the path, in digits of either case.
pub proof fn law_target(req: Uri, path: Seq<char>)
    ensures
        req.target() == Ok::<Seq<char>, ConnectErrorView>(path) <==> {
            &&& req.scheme matches Some(scheme) && scheme@ == "unix"@
            &&& req.host matches Some(host) && same_but_for_case(
                host@,
                hex_text(encode_utf8(path)),
            )
        },
{
    if let Some(host) = req.parts().1 {
        let bytes = encode_utf8(path);
        encode_utf8_valid_utf8(path);
        encode_utf8_decode_utf8(path);
        law_hex_round_trip(bytes);
        if same_but_for_case(host, hex_text(bytes)) {
            lemma_case_keeps_digits(host, hex_text(bytes));
            lemma_same_digits(encode_utf8(host), encode_utf8(hex_text(bytes)));
        }
        if req.target() == Ok::<Seq<char>, ConnectErrorView>(path) {
            let decoded = hex_bytes(encode_utf8(host))->Ok_0;
            decode_utf8_encode_utf8(decoded);
            lemma_host_is_hex_text(host);
        }
    }
}

/// A host that can be decoded is the hexadecimal form of what it decodes to, but for case.
proof fn lemma_host_is_hex_text(host: Seq<char>)
    requires
        hex_bytes(encode_utf8(host)) is Ok,
    ensures
        same_but_for_case(host, hex_text(hex_bytes(encode_utf8(host))->Ok_0)),
{
    let text = encode_utf8(host);
    let bytes = hex_bytes(text)->Ok_0;
    lemma_first_bad_digit(text, 0);
    let chars = Seq::new(text.len(), |i: int| text[i] as char);
    assert(is_ascii_chars(chars)) by {
        assert forall|i: int| 0 <= i < chars.len() implies '\0' <= #[trigger] chars[i]
            <= '\u{7f}' by {
            assert(digit_value(text[i]) is Some);
        }
    }
    is_ascii_chars_encode_utf8(chars);
    assert(encode_utf8(chars) =~= text) by {
        assert forall|i: int| 0 <= i < text.len() implies encode_utf8(chars)[i] == text[i] by {
            assert(digit_value(text[i]) is Some);
            assert(chars[i] as u8 == encode_utf8(chars)[i]);
        }
    }
    encode_utf8_decode_utf8(chars);
    encode_utf8_decode_utf8(host);
    assert(host == chars);
    let form = hex_text(bytes);
    assert forall|i: int| 0 <= i < host.len() implies {
        let c = #[trigger] host[i];
        ||| c == form[i]
        ||| 'A' <= c <= 'Z' && form[i] as int == c as int + 32
        ||| 'a' <= c <= 'z' && form[i] as int == c as int - 32
    } by {
        assert(host[i] == text[i] as char);
        let value = digit_value(text[i])->0;
        law_digit_value(value, text[i]);
        let high = digit_value(text[2 * (i / 2)])->0;
        let low = digit_value(text[2 * (i / 2) + 1])->0;
        law_digit_value(high, text[2 * (i / 2)]);
        law_digit_value(low, text[2 * (i / 2) + 1]);
        assert(bytes[i / 2] as int == 16 * high + low);
        assert(form[i] == hex_digit(value));
    }
}

/// What a URI is refused for comes in this order: another scheme than `unix`, no host, a host that
/// is not hexadecimal, and a host that stands for bytes that are not UTF-8. Each refusal tells what
/// it is about.
pub proof fn law_target_refused(req: Uri)
    ensures
        match req.target() {
            Ok(_) => true,
            Err(ConnectErrorView::Scheme(None)) => req.scheme is None,
            Err(ConnectErrorView::Scheme(Some(text))) => req.scheme matches Some(scheme) && scheme@
                == text && text != "unix"@,
            Err(ConnectErrorView::NoHost) => {
                &&& req.scheme matches Some(scheme) && scheme@ == "unix"@
                &&& req.host is None
            },
            Err(ConnectErrorView::Hex(text, error)) => {
                &&& req.scheme matches Some(scheme) && scheme@ == "unix"@
                &&& req.host matches Some(host) && host@ == text
                &&& hex_bytes(encode_utf8(text)) == Err::<Seq<u8>, HexError>(error)
            },
            Err(ConnectErrorView::Utf8(text, reason)) => {
                &&& req.scheme matches Some(scheme) && scheme@ == "unix"@
                &&& req.host matches Some(host) && host@ == text
                &&& hex_bytes(encode_utf8(text)) matches Ok(bytes) && !valid_utf8(bytes) && reason
                    == utf8_error_text(bytes)
            },
        },
{
}

/// What an error is seen as is what its fields hold.
pub proof fn law_error_view(error: ConnectError)
    ensures
        match error@ {
            ConnectErrorView::Scheme(text) => error matches ConnectError::Scheme { scheme } && (
            match scheme {
                Some(scheme) => text == Some(scheme@),
                None => text is None,
            }),
            ConnectErrorView::NoHost => error is NoHost,
            ConnectErrorView::Hex(text, why) => error matches ConnectError::Hex { host, error }
                && text == host@ && why == error,
            ConnectErrorView::Utf8(text, why) => error matches ConnectError::Utf8 { host, reason }
                && text == host@ && why == reason@,
        },
{
}

/// A message names its subject and its cause once each, as they are, in fixed words that depend on
/// the kind of the error alone.
pub proof fn law_message(
    error: ConnectErrorView,
    quoted: Seq<char>,
    cause: Seq<char>,
)
    ensures
        match error {
            ConnectErrorView::Scheme(scheme) => if scheme is Some {
                let words = "expected req to have \"unix\" scheme but it has Some()"@;
                let at = words.len() - 1;
                error.message(quoted, cause) == words.take(at) + quoted + words.skip(at)
            } else {
                error.message(quoted, cause)
                    == "expected req to have \"unix\" scheme but it has None"@
            },
            ConnectErrorView::NoHost => error.message(quoted, cause)
                == "could not decode UDS path from req host None"@,
            ConnectErrorView::Hex(_, _) => {
                let words = "could not decode UDS path from req host : "@;
                let at = words.len() - 2;
                error.message(quoted, cause) == words.take(at) + quoted + words.skip(at) + cause
            },
            ConnectErrorView::Utf8(_, _) => {
                let words = "could not decode UDS path from req host Some(): "@;
                let at = words.len() - 3;
                error.message(quoted, cause) == words.take(at) + quoted + words.skip(at) + cause
            },
        },
{
    reveal_strlit("expected req to have \"unix\" scheme but it has Some()");
    reveal_strlit("expected req to have \"unix\" scheme but it has Some(");
    reveal_strlit(")");
    reveal_strlit("could not decode UDS path from req host : ");
    reveal_strlit("could not decode UDS path from req host ");
    reveal_strlit(": ");
    reveal_strlit("could not decode UDS path from req host Some(): ");
    reveal_strlit("could not decode UDS path from req host Some(");
    reveal_strlit("): ");
}

/// The subject of a message is the text that the error holds, and so is the cause, which is told in
/// the words for what is wrong with the host.
pub proof fn law_message_parts(error: ConnectErrorView)
    ensures
        match error {
            ConnectErrorView::Scheme(Some(text)) => error.subject() == text
                && error.quoted_subject() == quoted_text(text),
            ConnectErrorView::Hex(text, why) => {
                &&& error.subject() == text
                &&& error.quoted_subject() == quoted_text(text)
                &&& error.cause() == hex_error_text(why)
            },
            ConnectErrorView::Utf8(text, reason) => {
                &&& error.subject() == text
                &&& error.quoted_subject() == quoted_text(text)
                &&& error.cause() == reason
            },
            _ => true,
        },
        match error {
            ConnectErrorView::Hex(_, HexError::InvalidHexCharacter { c, index }) => {
                let words = "Invalid character '' at position "@;
                is_plain_char(c) ==> error.plain_cause() == words.take(19) + seq![c] + words.skip(
                    19,
                ) + decimal(index as nat)
            },
            _ => error.plain_cause() == error.cause(),
        },
{
    reveal_strlit("Invalid character '' at position ");
    reveal_strlit("Invalid character ");
    reveal_strlit(" at position ");
    if let ConnectErrorView::Hex(_, HexError::InvalidHexCharacter { c, index }) = error {
        let words = "Invalid character '' at position "@;
        assert(words.take(19) + seq![c] + words.skip(19) =~= "Invalid character "@ + seq![
            '\'',
            c,
            '\'',
        ] + " at position "@);
    }
}

/// The case of letters does not matter for the hexadecimal digits of a text.
proof fn lemma_case_keeps_digits(text: Seq<char>, other: Seq<char>)
    requires
        same_but_for_case(text, other),
    ensures
        same_digits(encode_utf8(text), encode_utf8(other)),
    decreases text.len(),
{
    if text.len() > 0 {
        let rest = text.drop_first();
        let other_rest = other.drop_first();
        assert forall|i: int| 0 <= i < rest.len() implies {
            let c = #[trigger] rest[i];
            ||| c == other_rest[i]
            ||| 'A' <= c <= 'Z' && other_rest[i] as int == c as int + 32
            ||| 'a' <= c <= 'z' && other_rest[i] as int == c as int - 32
        } by {
            assert(rest[i] == text[i + 1]);
        }
        lemma_case_keeps_digits(rest, other_rest);
        let first = encode_scalar(text[0] as u32);
        let other_first = encode_scalar(other[0] as u32);
        assert(same_digits(first, other_first)) by {
            if text[0] != other[0] {
                is_ascii_chars_encode_utf8(seq![text[0]]);
                is_ascii_chars_encode_utf8(seq![other[0]]);
                assert(seq![text[0]].drop_first() == Seq::<char>::empty());
                assert(seq![other[0]].drop_first() == Seq::<char>::empty());
                assert(encode_utf8(seq![text[0]]) == first);
                assert(encode_utf8(seq![other[0]]) == other_first);
                assert(first[0] == seq![text[0]][0] as u8);
                assert(other_first[0] == seq![other[0]][0] as u8);
            }
        }
        assert(encode_utf8(text) == first + encode_utf8(rest));
        assert(encode_utf8(other) == other_first + encode_utf8(other_rest));
    }
}

} // verus!
