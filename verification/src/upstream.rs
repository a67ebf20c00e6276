//! What is asked of the ranking service, and what is made of its failures.

use crate::key::GameMode;
use crate::name::{is_name_char, is_valid_name};
use crate::record::text_of;
use vstd::prelude::*;
use vstd::utf8::{encode_utf8, is_ascii_chars_encode_utf8};

verus! {

/// After how many seconds a request to the ranking service is given up.
pub const UPSTREAM_TIMEOUT_SECS: u64 = 10;

/// The tag by which this client makes itself known to the ranking service.
pub fn client_tag() -> (r: &'static str)
    ensures
        r@ == "MKWorld-Overlay/1.0"@,
{
    "MKWorld-Overlay/1.0"
}

/// Whether a byte stands for itself in a URL component: an ASCII letter or
/// digit, a hyphen, a dot, an underscore or a tilde.
pub open spec fn is_unreserved(b: u8) -> bool {
    ||| 0x30 <= b <= 0x39
    ||| 0x41 <= b <= 0x5a
    ||| 0x61 <= b <= 0x7a
    ||| b == 0x2d
    ||| b == 0x2e
    ||| b == 0x5f
    ||| b == 0x7e
}

/// The hexadecimal digit, in upper case, of a value below sixteen.
pub open spec fn hex_digit(n: u8) -> char {
    if n < 10 {
        ((0x30 + n) as u8) as char
    } else {
        ((0x41 + n - 10) as u8) as char
    }
}

/// How one byte is written in a URL component: as itself if unreserved,
/// else as a percent sign and its two hexadecimal digits, the high half of
/// the byte first.
pub open spec fn escaped(b: u8) -> Seq<char> {
    if is_unreserved(b) {
        seq![b as char]
    } else {
        seq!['%', hex_digit(b / 16), hex_digit(b % 16)]
    }
}

/// How a sequence of bytes is written in a URL component.
pub open spec fn percent_encoded(bytes: Seq<u8>) -> Seq<char> {
    bytes.map_values(|b: u8| escaped(b)).flatten()
}

/// Calls `urlencoding::encode` on `s`, which writes each byte of the UTF-8
/// form of `s` as itself if it is unreserved and as `%` with two upper-case
/// hexadecimal digits if not.
#[verifier::external_body]
fn encode_component(s: &str) -> (r: String)
    ensures
        r@ == percent_encoded(encode_utf8(s@)),
{
    urlencoding::encode(s).into_owned()
}

/// The address at which the ranking service reports on `name` in `mode`.
pub open spec fn details_url_of(name: Seq<char>, mode: GameMode) -> Seq<char> {
    "https://lounge.mkcentral.com/api/player/details?name="@ + percent_encoded(encode_utf8(name))
        + "&game="@ + mode.tag_text()
}

/// The address at which the ranking service reports on `name` in `mode`.
pub fn details_url(name: &str, mode: GameMode) -> (url: String)
    ensures
        url@ == details_url_of(name@, mode),
{
    let mut url = "https://lounge.mkcentral.com/api/player/details?name=".to_owned();
    let component = encode_component(name);
    url.append(component.as_str());
    url.append("&game=");
    url.append(mode.tag());
    url
}

/// How a character of a legal name is written in a URL component: a space as
/// `%20`, any other as itself.
pub open spec fn escaped_name_char(c: char) -> Seq<char> {
    if c == ' ' {
        seq!['%', '2', '0']
    } else {
        seq![c]
    }
}

/// In the address for a legal name only the spaces are escaped.
pub proof fn lemma_valid_name_encoding(name: Seq<char>)
    requires
        is_valid_name(name),
    ensures
        percent_encoded(encode_utf8(name)) == name.map_values(|c: char| escaped_name_char(c))
            .flatten(),
{
    assert forall|i: int| 0 <= i < name.len() implies '\0' <= #[trigger] name[i] <= '\u{7f}' by {
        assert(is_name_char(name[i]));
    }
    is_ascii_chars_encode_utf8(name);
    let bytes = encode_utf8(name);
    let a = bytes.map_values(|b: u8| escaped(b));
    let b = name.map_values(|c: char| escaped_name_char(c));
    assert forall|i: int| 0 <= i < name.len() implies a[i] == b[i] by {
        let c = name[i];
        assert(is_name_char(c));
        assert(bytes[i] == c as u8);
        if c == ' ' {
            assert(escaped(0x20u8) =~= seq!['%', '2', '0']);
        } else {
            assert(is_unreserved(c as u8));
            assert((c as u8) as char == c);
        }
    }
    assert(a =~= b);
}

/// Whether an HTTP status reports success.
pub open spec fn is_success_status(status: u16) -> bool {
    200 <= status < 300
}

/// Whether an HTTP status reports success.
pub fn is_success(status: u16) -> (r: bool)
    ensures
        r == is_success_status(status),
{
    200 <= status && status < 300
}

/// The character of a decimal digit.
pub open spec fn digit_char(d: nat) -> char
    recommends
        d < 10,
{
    ((0x30 + d) as u8) as char
}

/// The decimal numeral of `n`, without leading zeros.
pub open spec fn decimal(n: nat) -> Seq<char>
    decreases n,
{
    if n < 10 {
        seq![digit_char(n)]
    } else {
        decimal(n / 10).push(digit_char(n % 10))
    }
}

/// Appends the decimal numeral of `n` to `out`.
pub fn push_decimal(out: &mut String, n: u16)
    ensures
        final(out)@ == old(out)@ + decimal(n as nat),
    decreases n,
{
    if n >= 10 {
        push_decimal(out, n / 10);
    }
    let d: u8 = (n % 10) as u8;
    let c: char = (0x30 + d) as char;
    out.push(c);
    assert(out@ =~= old(out)@ + decimal(n as nat));
}

/// What `StatusCode::canonical_reason` returns for the status `code`: the
/// reason phrase that the `http` crate lists for it. `None` where it lists
/// none, and where `code` is no status code at all.
pub uninterp spec fn reason_phrase(code: u16) -> Option<Seq<char>>;

/// The characters of an optional phrase.
pub open spec fn phrase_text(phrase: Option<&str>) -> Option<Seq<char>> {
    match phrase {
        Some(p) => Some(p@),
        None => None,
    }
}

/// Makes a `StatusCode` of `code` with `StatusCode::from_u16` and asks it for
/// its `canonical_reason`. The phrase is a function of the code alone and is
/// known to the proofs only by name.
#[verifier::external_body]
fn canonical_reason(code: u16) -> (r: Option<&'static str>)
    ensures
        phrase_text(r) == reason_phrase(code),
{
    match reqwest::StatusCode::from_u16(code) {
        Ok(status) => status.canonical_reason(),
        Err(_) => None,
    }
}

/// How a status is written out, given its reason phrase: the number, a
/// space, and the phrase or a placeholder for it.
pub open spec fn status_line_with(status: u16, phrase: Option<Seq<char>>) -> Seq<char> {
    decimal(status as nat) + " "@ + match phrase {
        Some(p) => p,
        None => "<unknown status code>"@,
    }
}

/// How a status is written out.
pub open spec fn status_line(status: u16) -> Seq<char> {
    status_line_with(status, reason_phrase(status))
}

/// Writes out a status whose reason phrase is `phrase`.
pub fn write_status(status: u16, phrase: Option<&str>) -> (r: String)
    ensures
        r@ == status_line_with(status, phrase_text(phrase)),
{
    let mut line = String::new();
    push_decimal(&mut line, status);
    line.append(" ");
    match phrase {
        Some(p) => line.append(p),
        None => line.append("<unknown status code>"),
    }
    assert(line@ =~= status_line_with(status, phrase_text(phrase)));
    line
}

/// Why the ranking service gave no record.
#[derive(Debug, PartialEq, Eq)]
pub enum UpstreamFailure {
    /// No response came: the request timed out, the host was not found, the
    /// connection was refused. `cause` is the transport's account of it.
    Network { cause: String },
    /// The response had a status other than success. `body` is its text, if
    /// that could be read.
    Status { status: u16, body: Option<String> },
    /// The response did not hold a record. `cause` is the decoder's account.
    Decode { cause: String },
}

impl UpstreamFailure {
    /// The message that reports this failure.
    pub open spec fn text(self) -> Seq<char> {
        match self {
            UpstreamFailure::Network { cause } => "Network error: "@ + cause@,
            UpstreamFailure::Status { status, body } => "API error "@ + status_line(status) + ": "@
                + match text_of(body) {
                Some(b) => b,
                None => "Unknown error"@,
            },
            UpstreamFailure::Decode { cause } => "JSON parse error: "@ + cause@,
        }
    }

    /// The message that reports this failure.
    pub fn message(&self) -> (r: String)
        ensures
            r@ == self.text(),
    {
        match self {
            UpstreamFailure::Network { cause } => {
                let mut m = "Network error: ".to_owned();
                m.append(cause.as_str());
                m
            },
            UpstreamFailure::Status { status, body } => {
                let mut m = "API error ".to_owned();
                let line = write_status(*status, canonical_reason(*status));
                m.append(line.as_str());
                m.append(": ");
                match body {
                    Some(b) => m.append(b.as_str()),
                    None => m.append("Unknown error"),
                }
                m
            },
            UpstreamFailure::Decode { cause } => {
                let mut m = "JSON parse error: ".to_owned();
                m.append(cause.as_str());
                m
            },
        }
    }
}

} // verus!
