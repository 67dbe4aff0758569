//! URL facts the browser reads, obtained from the `url` crate (WHATWG URL
//! parsing) and held as plain values.
use vstd::prelude::*;
use vstd::utf8::encode_utf8;

verus! {

/// The components of a parsed URL that the browser reads.
pub struct UrlParts {
    pub scheme: String,
    pub host: Option<String>,
    pub path: String,
    pub query: Option<String>,
    pub port: Option<u16>,
}

/// Mathematical model of [`UrlParts`].
pub struct UrlPartsView {
    pub scheme: Seq<char>,
    pub host: Option<Seq<char>>,
    pub path: Seq<char>,
    pub query: Option<Seq<char>>,
    pub port: Option<u16>,
}

pub open spec fn opt_view(o: Option<String>) -> Option<Seq<char>> {
    match o {
        Some(s) => Some(s@),
        None => None,
    }
}

impl View for UrlParts {
    type V = UrlPartsView;

    open spec fn view(&self) -> UrlPartsView {
        UrlPartsView {
            scheme: self.scheme@,
            host: opt_view(self.host),
            path: self.path@,
            query: opt_view(self.query),
            port: self.port,
        }
    }
}

/// What WHATWG URL parsing (`url::Url::parse`) makes of a text: `None` when
/// the text is not a URL, otherwise its scheme, host (`host_str`), path,
/// query and port (`port_or_known_default`).
pub uninterp spec fn whatwg_parse(raw: Seq<char>) -> Option<UrlPartsView>;

/// Calls `url::Url::parse` and copies out `scheme()`, `host_str()`, `path()`,
/// `query()` and `port_or_known_default()`. The contract claims only that the
/// outcome is the parse of the given text, whatever that parse is.
#[verifier::external_body]
pub(crate) fn parse_url(raw: &str) -> (r: Option<UrlParts>)
    ensures
        match r {
            Some(p) => whatwg_parse(raw@) == Some(p@),
            None => whatwg_parse(raw@) is None,
        },
{
    let u = url::Url::parse(raw).ok()?;
    Some(UrlParts {
        scheme: u.scheme().to_owned(),
        host: u.host_str().map(str::to_owned),
        path: u.path().to_owned(),
        query: u.query().map(str::to_owned),
        port: u.port_or_known_default(),
    })
}

/// Bytes that `application/x-www-form-urlencoded` serialization keeps as they are.
pub open spec fn form_unchanged(b: u8) -> bool {
    ||| b == 0x2a
    ||| b == 0x2d
    ||| b == 0x2e
    ||| b == 0x5f
    ||| 0x30 <= b <= 0x39
    ||| 0x41 <= b <= 0x5a
    ||| 0x61 <= b <= 0x7a
}

/// Upper-case hexadecimal digit for `d < 16`.
pub open spec fn hex_upper(d: u8) -> char {
    if d < 10 {
        (48 + d) as char
    } else {
        (55 + d) as char
    }
}

/// The serialization of one byte.
pub open spec fn form_byte(b: u8) -> Seq<char> {
    if form_unchanged(b) {
        seq![b as char]
    } else if b == 0x20 {
        seq!['+']
    } else {
        seq!['%', hex_upper(b / 16), hex_upper(b % 16)]
    }
}

/// `application/x-www-form-urlencoded` serialization of a byte sequence.
pub open spec fn form_serialize(bytes: Seq<u8>) -> Seq<char>
    decreases bytes.len(),
{
    if bytes.len() == 0 {
        Seq::empty()
    } else {
        form_byte(bytes[0]) + form_serialize(bytes.drop_first())
    }
}

/// Calls `url::form_urlencoded::byte_serialize` on the UTF-8 bytes of the
/// text; its source keeps `*-._`, ASCII letters and digits, writes a space as
/// `+` and every other byte as `%` and two upper-case hex digits.
#[verifier::external_body]
pub(crate) fn form_urlencode(value: &str) -> (r: String)
    ensures
        r@ == form_serialize(encode_utf8(value@)),
{
    url::form_urlencoded::byte_serialize(value.as_bytes()).collect()
}

} // verus!
