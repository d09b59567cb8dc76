//! What goes over the wire to an Icecast server: the requests, and the answers to them.
use vstd::prelude::*;
use vstd::utf8::encode_utf8;
use base64::engine::general_purpose::STANDARD;
use base64::Engine;
use crate::text::{chars_of, has_text, push_decimal, trim_text};
use crate::text::{all_digits, all_white_space, contained_text_has_surroundings, contains_text};
use crate::text::{decimal, decimal_reads_back, digits_value, trimmed, trimming_takes_white_space};

verus! {

/// Where the server is, and how to log in to it.
#[derive(Clone, Debug)]
pub struct IcecastConfig {
    pub host: String,
    pub port: u16,
    pub mount: String,
    pub password: String,
}

/// What is being played, and whether that has changed since it was last announced.
#[derive(Clone, Debug)]
pub struct TrackMetadata {
    pub artist: String,
    pub title: String,
    pub changed: bool,
}

impl Default for TrackMetadata {
    fn default() -> (r: Self)
        ensures
            r.artist@.len() == 0,
            r.title@.len() == 0,
            !r.changed,
    {
        TrackMetadata { artist: String::new(), title: String::new(), changed: false }
    }
}

/// "Artist - Title", or the title alone where there is no artist.
pub open spec fn song_text(artist: Seq<char>, title: Seq<char>) -> Seq<char> {
    if artist.len() == 0 {
        title
    } else {
        artist + " - "@ + title
    }
}

impl TrackMetadata {
    /// Format as "Artist - Title", or just the title if artist is empty.
    pub fn display_string(&self) -> (r: String)
        ensures
            r@ == song_text(self.artist@, self.title@),
    {
        if self.artist.as_str().is_empty() {
            self.title.clone()
        } else {
            let mut out = self.artist.clone();
            out.append(" - ");
            out.append(self.title.as_str());
            out
        }
    }
}

/// No song is shown exactly where there is neither an artist nor a title.
pub proof fn song_text_empty(artist: Seq<char>, title: Seq<char>)
    ensures
        song_text(artist, title).len() == 0 <==> artist.len() == 0 && title.len() == 0,
{
    reveal_strlit(" - ");
}

// Percent encoding.

/// The characters that stand for themselves in a query.
pub open spec fn is_unreserved(c: char) -> bool {
    ||| 'A' <= c <= 'Z'
    ||| 'a' <= c <= 'z'
    ||| '0' <= c <= '9'
    ||| c == '-'
    ||| c == '_'
    ||| c == '.'
    ||| c == '~'
}

/// The hexadecimal digit of a number below 16, in upper case.
pub open spec fn hex_digit(n: int) -> char {
    if n < 10 {
        (48 + n) as char
    } else {
        (55 + n) as char
    }
}

/// A byte as a percent sign and two hexadecimal digits.
pub open spec fn percent_byte(b: u8) -> Seq<char> {
    seq!['%', hex_digit(b as int / 16), hex_digit(b as int % 16)]
}

/// Each of the bytes as a percent sign and two hexadecimal digits.
pub open spec fn percent_bytes(bytes: Seq<u8>) -> Seq<char>
    decreases bytes.len(),
{
    if bytes.len() == 0 {
        Seq::empty()
    } else {
        percent_byte(bytes[0]) + percent_bytes(bytes.drop_first())
    }
}

/// A character of a query: itself, a plus sign for a space, or the bytes of its UTF-8 encoding.
pub open spec fn url_char(c: char) -> Seq<char> {
    if is_unreserved(c) {
        seq![c]
    } else if c == ' ' {
        seq!['+']
    } else {
        percent_bytes(encode_utf8(seq![c]))
    }
}

/// A text as it stands in a query.
pub open spec fn url_text(s: Seq<char>) -> Seq<char>
    decreases s.len(),
{
    if s.len() == 0 {
        Seq::empty()
    } else {
        url_char(s[0]) + url_text(s.drop_first())
    }
}

proof fn lemma_percent_push(bytes: Seq<u8>, b: u8)
    ensures
        percent_bytes(bytes.push(b)) == percent_bytes(bytes) + percent_byte(b),
    decreases bytes.len(),
{
    let all = bytes.push(b);
    if bytes.len() == 0 {
        assert(all.drop_first() =~= Seq::<u8>::empty());
        assert(percent_bytes(all.drop_first()) =~= Seq::<char>::empty());
        assert(percent_bytes(all) =~= percent_bytes(bytes) + percent_byte(b));
    } else {
        lemma_percent_push(bytes.drop_first(), b);
        assert(all.drop_first() =~= bytes.drop_first().push(b));
        assert(percent_bytes(all) =~= percent_bytes(bytes) + percent_byte(b));
    }
}

proof fn lemma_url_push(s: Seq<char>, c: char)
    ensures
        url_text(s.push(c)) == url_text(s) + url_char(c),
    decreases s.len(),
{
    let all = s.push(c);
    if s.len() == 0 {
        assert(all.drop_first() =~= Seq::<char>::empty());
        assert(url_text(all.drop_first()) =~= Seq::<char>::empty());
        assert(url_text(all) =~= url_text(s) + url_char(c));
    } else {
        lemma_url_push(s.drop_first(), c);
        assert(all.drop_first() =~= s.drop_first().push(c));
        assert(url_text(all) =~= url_text(s) + url_char(c));
    }
}

fn hex_char(n: u8) -> (r: char)
    requires
        n < 16,
    ensures
        r == hex_digit(n as int),
{
    if n < 10 {
        (48 + n) as char
    } else {
        (55 + n) as char
    }
}

fn push_percent(out: &mut String, c: char)
    ensures
        final(out)@ == old(out)@ + percent_bytes(encode_utf8(seq![c])),
{
    let mut one = String::new();
    one.push(c);
    assert(one@ =~= seq![c]);
    let bytes = one.as_str().as_bytes();
    let n = bytes.len();
    for i in 0..n
        invariant
            n == bytes@.len(),
            out@ == old(out)@ + percent_bytes(bytes@.take(i as int)),
    {
        let b = bytes[i];
        proof {
            assert(bytes@.take(i + 1) =~= bytes@.take(i as int).push(b));
            lemma_percent_push(bytes@.take(i as int), b);
        }
        let ghost before = out@;
        out.push('%');
        out.push(hex_char(b / 16));
        out.push(hex_char(b % 16));
        assert(out@ =~= before + percent_byte(b));
    }
    assert(bytes@.take(n as int) =~= bytes@);
}

/// Encodes a text for a query.
pub fn url_encode(s: &str) -> (r: String)
    ensures
        r@ == url_text(s@),
{
    let chars = chars_of(s);
    let n = chars.len();
    let mut out = String::new();
    for i in 0..n
        invariant
            n == chars@.len(),
            out@ == url_text(chars@.take(i as int)),
    {
        let c = chars[i];
        proof {
            assert(chars@.take(i + 1) =~= chars@.take(i as int).push(c));
            lemma_url_push(chars@.take(i as int), c);
        }
        let ghost before = out@;
        if ('A' <= c && c <= 'Z') || ('a' <= c && c <= 'z') || ('0' <= c && c <= '9') || c == '-'
            || c == '_' || c == '.' || c == '~' {
            out.push(c);
        } else if c == ' ' {
            out.push('+');
        } else {
            push_percent(&mut out, c);
        }
        assert(out@ =~= before + url_char(c));
    }
    assert(chars@.take(n as int) =~= s@);
    out
}

/// The value of a hexadecimal digit in upper case.
pub open spec fn hex_value(c: char) -> int {
    if c <= '9' {
        c as int - 48
    } else {
        c as int - 55
    }
}

/// The bytes that a server reads from a query: a plus sign is a space, a percent sign and two
/// digits are a byte, any other character is its own.
pub open spec fn url_decoded(t: Seq<char>) -> Seq<u8>
    decreases t.len(),
{
    if t.len() == 0 {
        Seq::empty()
    } else if t[0] == '%' && t.len() >= 3 {
        seq![(hex_value(t[1]) * 16 + hex_value(t[2])) as u8] + url_decoded(t.skip(3))
    } else if t[0] == '+' {
        seq![32u8] + url_decoded(t.skip(1))
    } else {
        seq![t[0] as u8] + url_decoded(t.skip(1))
    }
}

proof fn lemma_decode_percent(bytes: Seq<u8>, rest: Seq<char>)
    ensures
        url_decoded(percent_bytes(bytes) + rest) == bytes + url_decoded(rest),
    decreases bytes.len(),
{
    if bytes.len() == 0 {
        assert(percent_bytes(bytes) + rest =~= rest);
        assert(bytes + url_decoded(rest) =~= url_decoded(rest));
    } else {
        let b = bytes[0];
        let tail = percent_bytes(bytes.drop_first());
        let t = percent_bytes(bytes) + rest;
        lemma_decode_percent(bytes.drop_first(), rest);
        assert(t =~= percent_byte(b) + (tail + rest));
        assert(t.skip(3) =~= tail + rest);
        assert(t[0] == '%');
        assert(hex_value(t[1]) == b as int / 16);
        assert(hex_value(t[2]) == b as int % 16);
        assert(url_decoded(t) =~= bytes + url_decoded(rest));
    }
}

proof fn lemma_encode_ascii(c: char)
    requires
        (c as u32) < 128,
    ensures
        encode_utf8(seq![c]) == seq![c as u8],
{
    vstd::utf8::is_ascii_chars_encode_utf8(seq![c]);
    assert(encode_utf8(seq![c]) =~= seq![c as u8]);
}

/// What a server reads from an encoded text is the text.
pub proof fn url_decodes_to_text(s: Seq<char>)
    ensures
        url_decoded(url_text(s)) == encode_utf8(s),
    decreases s.len(),
{
    if s.len() > 0 {
        let c = s[0];
        let rest = url_text(s.drop_first());
        let t = url_text(s);
        url_decodes_to_text(s.drop_first());
        assert(seq![c].drop_first() =~= Seq::<char>::empty());
        assert(encode_utf8(seq![c].drop_first()) =~= Seq::<u8>::empty());
        assert(encode_utf8(seq![c]) =~= vstd::utf8::encode_scalar(c as u32));
        if is_unreserved(c) || c == ' ' {
            lemma_encode_ascii(c);
            assert(t.skip(1) =~= rest);
        } else {
            lemma_decode_percent(encode_utf8(seq![c]), rest);
        }
        assert(url_decoded(t) =~= encode_utf8(seq![c]) + encode_utf8(s.drop_first()));
    }
}

/// Whether a character may stand in an encoded text.
pub open spec fn is_url_safe(c: char) -> bool {
    is_unreserved(c) || c == '+' || c == '%'
}

proof fn lemma_percent_safe(bytes: Seq<u8>)
    ensures
        forall|i: int| 0 <= i < percent_bytes(bytes).len() ==> is_url_safe(#[trigger] percent_bytes(bytes)[i]),
    decreases bytes.len(),
{
    if bytes.len() > 0 {
        lemma_percent_safe(bytes.drop_first());
        let tail = percent_bytes(bytes.drop_first());
        assert forall|i: int| 0 <= i < percent_bytes(bytes).len() implies is_url_safe(
            #[trigger] percent_bytes(bytes)[i],
        ) by {
            if i >= 3 {
                assert(percent_bytes(bytes)[i] == tail[i - 3]);
            }
        }
    }
}

/// An encoded text has no character that ends a parameter, a request line or a header.
pub proof fn url_text_is_safe(s: Seq<char>)
    ensures
        forall|i: int| 0 <= i < url_text(s).len() ==> is_url_safe(#[trigger] url_text(s)[i]),
    decreases s.len(),
{
    if s.len() > 0 {
        let head = url_char(s[0]);
        let tail = url_text(s.drop_first());
        url_text_is_safe(s.drop_first());
        lemma_percent_safe(encode_utf8(seq![s[0]]));
        assert forall|i: int| 0 <= i < url_text(s).len() implies is_url_safe(
            #[trigger] url_text(s)[i],
        ) by {
            if i < head.len() {
                assert(url_text(s)[i] == head[i]);
            } else {
                assert(url_text(s)[i] == tail[i - head.len()]);
            }
        }
    }
}

// Requests.

/// The symbol of a number below 64 in the standard base64 alphabet.
pub open spec fn base64_symbol(n: int) -> char {
    if n < 26 {
        (65 + n) as char
    } else if n < 52 {
        (71 + n) as char
    } else if n < 62 {
        (n - 4) as char
    } else if n == 62 {
        '+'
    } else {
        '/'
    }
}

/// The standard base64 encoding of bytes: four symbols of six bits each for three bytes, the last
/// one or two bytes filled up with zero bits to two or three symbols and with padding to four.
pub open spec fn base64_text(bytes: Seq<u8>) -> Seq<char>
    decreases bytes.len(),
{
    let (a, b, c) = (bytes[0] as int, bytes[1] as int, bytes[2] as int);
    if bytes.len() == 0 {
        Seq::empty()
    } else if bytes.len() == 1 {
        seq![base64_symbol(a / 4), base64_symbol(a % 4 * 16), '=', '=']
    } else if bytes.len() == 2 {
        seq![
            base64_symbol(a / 4),
            base64_symbol(a % 4 * 16 + b / 16),
            base64_symbol(b % 16 * 4),
            '=',
        ]
    } else {
        seq![
            base64_symbol(a / 4),
            base64_symbol(a % 4 * 16 + b / 16),
            base64_symbol(b % 16 * 4 + c / 64),
            base64_symbol(c % 64),
        ] + base64_text(bytes.skip(3))
    }
}

/// How many characters the base64 encoding of so many bytes has: four for each three bytes that are
/// begun.
pub open spec fn base64_len(bytes: int) -> int {
    (bytes + 2) / 3 * 4
}

/// `Engine::encode` of the engine `STANDARD`: the standard base64 encoding of the bytes, with
/// padding. It panics where a vector cannot have the length of the result: hence the bound.
#[verifier::external_body]
fn base64_encode(bytes: &[u8]) -> (r: String)
    requires
        base64_len(bytes@.len() as int) <= isize::MAX,
    ensures
        r@ == base64_text(bytes@),
{
    STANDARD.encode(bytes)
}

/// The characters of the standard base64 alphabet, and the padding.
pub open spec fn is_base64_char(c: char) -> bool {
    ||| 'A' <= c <= 'Z'
    ||| 'a' <= c <= 'z'
    ||| '0' <= c <= '9'
    ||| c == '+'
    ||| c == '/'
    ||| c == '='
}

/// A base64 encoding has four characters for each three bytes that are begun, all of the alphabet or
/// padding: none that ends a header.
pub proof fn base64_text_is_safe(bytes: Seq<u8>)
    ensures
        base64_text(bytes).len() == base64_len(bytes.len() as int),
        forall|i: int|
            0 <= i < base64_text(bytes).len() ==> is_base64_char(#[trigger] base64_text(bytes)[i]),
    decreases bytes.len(),
{
    if bytes.len() >= 3 {
        base64_text_is_safe(bytes.skip(3));
        let t = base64_text(bytes);
        let tail = base64_text(bytes.skip(3));
        assert forall|i: int| 0 <= i < t.len() implies is_base64_char(#[trigger] t[i]) by {
            if i >= 4 {
                assert(t[i] == tail[i - 4]);
            }
        }
    }
}

/// The number that a symbol of the standard base64 alphabet stands for.
pub open spec fn base64_value(c: char) -> int {
    if 'A' <= c <= 'Z' {
        c as int - 65
    } else if 'a' <= c <= 'z' {
        c as int - 71
    } else if '0' <= c <= '9' {
        c as int + 4
    } else if c == '+' {
        62
    } else {
        63
    }
}

/// The bytes that a server reads from a base64 encoding: three for each four symbols, less where
/// there is padding.
pub open spec fn base64_decoded(t: Seq<char>) -> Seq<u8>
    decreases t.len(),
{
    if t.len() < 4 {
        Seq::empty()
    } else {
        let (a, b, c, d) = (
            base64_value(t[0]),
            base64_value(t[1]),
            base64_value(t[2]),
            base64_value(t[3]),
        );
        let first = (a * 4 + b / 16) as u8;
        let second = (b % 16 * 16 + c / 4) as u8;
        let third = (c % 4 * 64 + d) as u8;
        if t[2] == '=' {
            seq![first]
        } else if t[3] == '=' {
            seq![first, second]
        } else {
            seq![first, second, third] + base64_decoded(t.skip(4))
        }
    }
}

proof fn lemma_symbol_value(n: int)
    requires
        0 <= n < 64,
    ensures
        base64_value(base64_symbol(n)) == n,
        base64_symbol(n) != '=',
{
}

/// What a server reads from encoded credentials is the credentials.
pub proof fn base64_decodes_to_bytes(bytes: Seq<u8>)
    ensures
        base64_decoded(base64_text(bytes)) == bytes,
    decreases bytes.len(),
{
    let t = base64_text(bytes);
    if bytes.len() == 0 {
        assert(base64_decoded(t) =~= bytes);
    } else {
        let a = bytes[0] as int;
        lemma_symbol_value(a / 4);
        if bytes.len() == 1 {
            lemma_symbol_value(a % 4 * 16);
            assert(base64_decoded(t) =~= bytes);
        } else {
            let b = bytes[1] as int;
            lemma_symbol_value(a % 4 * 16 + b / 16);
            if bytes.len() == 2 {
                lemma_symbol_value(b % 16 * 4);
                assert(base64_decoded(t) =~= bytes);
            } else {
                let c = bytes[2] as int;
                lemma_symbol_value(b % 16 * 4 + c / 64);
                lemma_symbol_value(c % 64);
                base64_decodes_to_bytes(bytes.skip(3));
                assert(t.skip(4) =~= base64_text(bytes.skip(3)));
                assert(base64_decoded(t) =~= seq![bytes[0], bytes[1], bytes[2]] + bytes.skip(3));
                assert(seq![bytes[0], bytes[1], bytes[2]] + bytes.skip(3) =~= bytes);
            }
        }
    }
}

/// The credentials of a source with this password, as bytes.
pub open spec fn credentials(password: Seq<char>) -> Seq<u8> {
    encode_utf8("source:"@ + password)
}

/// The address of the server: host and port.
pub open spec fn address_text(host: Seq<char>, port: u16) -> Seq<char> {
    host + ":"@ + decimal(port as nat)
}

/// The request that opens a stream.
pub open spec fn source_request_text(
    host: Seq<char>,
    port: u16,
    mount: Seq<char>,
    auth: Seq<char>,
) -> Seq<char> {
    "SOURCE "@ + mount + " HTTP/1.0\r\nHost: "@ + address_text(host, port)
        + "\r\nAuthorization: Basic "@ + auth
        + "\r\nUser-Agent: RUMP/0.1\r\nContent-Type: application/ogg\r\nice-name: RUMP Stream\r\nice-public: 0\r\n\r\n"@
}

/// The request that announces a song.
pub open spec fn metadata_request_text(
    host: Seq<char>,
    port: u16,
    mount: Seq<char>,
    auth: Seq<char>,
    song: Seq<char>,
) -> Seq<char> {
    "GET /admin/metadata?mount="@ + mount + "&mode=updinfo&song="@ + url_text(song)
        + " HTTP/1.0\r\nHost: "@ + address_text(host, port) + "\r\nAuthorization: Basic "@ + auth
        + "\r\nUser-Agent: RUMP/0.1\r\n\r\n"@
}

impl IcecastConfig {
    /// Whether a text can have the length of the encoded credentials.
    pub open spec fn spec_credentials_fit(&self) -> bool {
        base64_len(credentials(self.password@).len() as int) <= isize::MAX
    }

    /// Whether a text can have the length of the encoded credentials.
    pub fn credentials_fit(&self) -> (r: bool)
        ensures
            r == self.spec_credentials_fit(),
    {
        let mut plain = String::new();
        plain.append("source:");
        plain.append(self.password.as_str());
        assert(plain@ =~= "source:"@ + self.password@);
        let n: usize = plain.as_str().as_bytes().len();
        let begun: usize = if n % 3 == 0 {
            n / 3
        } else {
            n / 3 + 1
        };
        begun <= isize::MAX as usize / 4
    }

    /// Host and port.
    pub fn address(&self) -> (r: String)
        ensures
            r@ == address_text(self.host@, self.port),
    {
        let mut out = self.host.clone();
        out.append(":");
        push_decimal(&mut out, self.port as u64);
        out
    }

    /// The encoded credentials.
    pub fn authorization(&self) -> (r: String)
        requires
            self.spec_credentials_fit(),
        ensures
            r@ == base64_text(credentials(self.password@)),
            r@.len() == base64_len(credentials(self.password@).len() as int),
            forall|i: int| 0 <= i < r@.len() ==> is_base64_char(#[trigger] r@[i]),
    {
        let mut plain = String::new();
        plain.append("source:");
        plain.append(self.password.as_str());
        assert(plain@ =~= "source:"@ + self.password@);
        proof {
            base64_text_is_safe(credentials(self.password@));
        }
        base64_encode(plain.as_str().as_bytes())
    }

    /// The request that opens a stream, with credentials that are encoded already.
    pub fn source_request_with(&self, auth: &str) -> (r: String)
        ensures
            r@ == source_request_text(self.host@, self.port, self.mount@, auth@),
    {
        let mut out = String::new();
        out.append("SOURCE ");
        out.append(self.mount.as_str());
        out.append(" HTTP/1.0\r\nHost: ");
        let address = self.address();
        out.append(address.as_str());
        out.append("\r\nAuthorization: Basic ");
        out.append(auth);
        out.append(
            "\r\nUser-Agent: RUMP/0.1\r\nContent-Type: application/ogg\r\nice-name: RUMP Stream\r\nice-public: 0\r\n\r\n",
        );
        assert(out@ =~= source_request_text(self.host@, self.port, self.mount@, auth@));
        out
    }

    /// The request that opens a stream.
    pub fn source_request(&self) -> (r: String)
        requires
            self.spec_credentials_fit(),
        ensures
            r@ == source_request_text(
                self.host@,
                self.port,
                self.mount@,
                base64_text(credentials(self.password@)),
            ),
    {
        let auth = self.authorization();
        self.source_request_with(auth.as_str())
    }

    /// The request that announces a song, with credentials that are encoded already, where there
    /// is a song.
    pub fn metadata_request_with(&self, meta: &TrackMetadata, auth: &str) -> (r: Option<String>)
        ensures
            ({
                let song = song_text(meta.artist@, meta.title@);
                match r {
                    Some(t) => song.len() > 0 && t@ == metadata_request_text(
                        self.host@,
                        self.port,
                        self.mount@,
                        auth@,
                        song,
                    ),
                    None => song.len() == 0,
                }
            }),
    {
        let song = meta.display_string();
        if song.as_str().is_empty() {
            return None;
        }
        let mut out = String::new();
        out.append("GET /admin/metadata?mount=");
        out.append(self.mount.as_str());
        out.append("&mode=updinfo&song=");
        let query = url_encode(song.as_str());
        out.append(query.as_str());
        out.append(" HTTP/1.0\r\nHost: ");
        let address = self.address();
        out.append(address.as_str());
        out.append("\r\nAuthorization: Basic ");
        out.append(auth);
        out.append("\r\nUser-Agent: RUMP/0.1\r\n\r\n");
        assert(out@ =~= metadata_request_text(
            self.host@,
            self.port,
            self.mount@,
            auth@,
            song@,
        ));
        Some(out)
    }

    /// The request that announces a song, where there is one.
    pub fn metadata_request(&self, meta: &TrackMetadata) -> (r: Option<String>)
        requires
            self.spec_credentials_fit(),
        ensures
            ({
                let song = song_text(meta.artist@, meta.title@);
                match r {
                    Some(t) => song.len() > 0 && t@ == metadata_request_text(
                        self.host@,
                        self.port,
                        self.mount@,
                        base64_text(credentials(self.password@)),
                        song,
                    ),
                    None => song.len() == 0,
                }
            }),
    {
        let auth = self.authorization();
        self.metadata_request_with(meta, auth.as_str())
    }
}

// Answers.

proof fn lemma_has_ok(line: Seq<char>)
    ensures
        contains_text(line, "200"@) <==> exists|i: int|
            0 <= i && i + 3 <= line.len() && (#[trigger] line[i]) == '2' && line[i + 1] == '0'
                && line[i + 2] == '0',
{
    reveal_strlit("200");
    if exists|i: int|
        0 <= i && i + 3 <= line.len() && (#[trigger] line[i]) == '2' && line[i + 1] == '0' && line[i
            + 2] == '0' {
        let i = choose|i: int|
            0 <= i && i + 3 <= line.len() && (#[trigger] line[i]) == '2' && line[i + 1] == '0'
                && line[i + 2] == '0';
        let (before, after) = (line.take(i), line.skip(i + 3));
        assert(line =~= before + "200"@ + after);
    }
    contained_text_has_surroundings(line, "200"@);
    if contains_text(line, "200"@) {
        let (before, after) = choose|before: Seq<char>, after: Seq<char>|
            line == #[trigger] (before + "200"@ + after);
        assert(line[before.len() as int] == '2');
    }
}

/// Reads the status line of the answer to the request that opens a stream: the stream is open
/// where the line has "200" in it. Otherwise the error says what the server wrote.
pub fn check_status(line: &str) -> (r: Result<(), String>)
    ensures
        (match r {
            Ok(()) => contains_text(line@, "200"@),
            Err(message) => !contains_text(line@, "200"@) && message@
                == "Icecast rejected connection: "@ + trimmed(line@),
        }),
        r is Ok <==> exists|i: int|
            0 <= i && i + 3 <= line@.len() && (#[trigger] line@[i]) == '2' && line@[i + 1] == '0'
                && line@[i + 2] == '0',
{
    proof {
        lemma_has_ok(line@);
    }
    if has_text(line, "200") {
        Ok(())
    } else {
        let mut message = String::new();
        message.append("Icecast rejected connection: ");
        let said = trim_text(line);
        message.append(said.as_str());
        assert(message@ =~= "Icecast rejected connection: "@ + trimmed(line@));
        Err(message)
    }
}

/// Whether the headers of the answer end with this line. `None` stands for the end of the input,
/// or for a line that could not be read.
pub fn headers_end(line: Option<&str>) -> (r: bool)
    ensures
        r == (line matches Some(l) ==> trimmed(l@).len() == 0),
        r == (line matches Some(l) ==> all_white_space(l@)),
{
    proof {
        if let Some(l) = line {
            trimming_takes_white_space(l@);
        }
    }
    match line {
        Some(l) => trim_text(l).as_str().is_empty(),
        None => true,
    }
}

// What holds of requests and answers.

/// A text is encoded character by character, each on its own.
pub proof fn queries_are_encoded_apart(a: Seq<char>, b: Seq<char>)
    ensures
        url_text(a + b) == url_text(a) + url_text(b),
    decreases a.len(),
{
    if a.len() == 0 {
        assert(a + b =~= b);
        assert(url_text(a) + url_text(b) =~= url_text(b));
    } else {
        queries_are_encoded_apart(a.drop_first(), b);
        assert((a + b).drop_first() =~= a.drop_first() + b);
        assert(url_text(a + b) =~= url_text(a) + url_text(b));
    }
}

/// Letters and digits, a hyphen, a low line, a full stop and a tilde stand for themselves, a plus
/// sign stands for a space, and nothing else does either: other characters begin with a percent
/// sign.
pub proof fn few_characters_stand_for_themselves(c: char)
    ensures
        ({
            let kept = 'A' <= c <= 'Z' || 'a' <= c <= 'z' || '0' <= c <= '9' || c == '-' || c == '_'
                || c == '.' || c == '~';
            &&& kept ==> url_text(seq![c]) == seq![c]
            &&& c == ' ' ==> url_text(seq![c]) == seq!['+']
            &&& !kept && c != ' ' ==> url_text(seq![c]).len() >= 3 && url_text(seq![c])[0] == '%'
        }),
{
    let one = seq![c];
    let none = Seq::<char>::empty();
    assert(one.drop_first() =~= none);
    assert(url_text(none) =~= none);
    assert(url_char(c) + none =~= url_char(c));
    assert(url_text(one) == url_char(c));
    assert(encode_utf8(one.drop_first()) =~= Seq::<u8>::empty());
    assert(encode_utf8(one) =~= vstd::utf8::encode_scalar(c as u32));
    assert(encode_utf8(one).len() >= 1);
}

/// A song is its artist, a hyphen between spaces and its title, and only the title where it has no
/// artist.
pub proof fn songs_name_artist_and_title(artist: Seq<char>, title: Seq<char>)
    ensures
        artist.len() == 0 ==> song_text(artist, title) == title,
        artist.len() > 0 ==> song_text(artist, title) == artist + seq![' ', '-', ' '] + title,
{
    reveal_strlit(" - ");
    assert(" - "@ =~= seq![' ', '-', ' ']);
}

/// An address is the host, a colon and digits that read as the port.
pub proof fn addresses_name_host_and_port(host: Seq<char>, port: u16)
    ensures
        ({
            let t = address_text(host, port);
            let digits = t.skip(host.len() as int + 1);
            &&& t.len() > host.len() + 1
            &&& t.take(host.len() as int) == host
            &&& t[host.len() as int] == ':'
            &&& all_digits(digits)
            &&& digits_value(digits) == port
        }),
{
    reveal_strlit(":");
    decimal_reads_back(port as nat);
    let t = address_text(host, port);
    assert(t.skip(host.len() as int + 1) =~= decimal(port as nat));
    assert(t.take(host.len() as int) =~= host);
}

/// The line of a request that an end of line behind it makes.
pub open spec fn ended(line: Seq<char>) -> Seq<char> {
    line + seq!['\r', '\n']
}

/// The request that opens a stream is a request line with the mount, a header for the address, one
/// for the credentials and four more, each on a line of its own, and an empty line at the end.
pub proof fn source_requests_have_lines(
    host: Seq<char>,
    port: u16,
    mount: Seq<char>,
    auth: Seq<char>,
)
    ensures
        source_request_text(host, port, mount, auth) == ended("SOURCE "@ + mount + " HTTP/1.0"@)
            + ended("Host: "@ + address_text(host, port)) + ended("Authorization: Basic "@ + auth)
            + ended("User-Agent: RUMP/0.1"@) + ended("Content-Type: application/ogg"@) + ended(
            "ice-name: RUMP Stream"@,
        ) + ended("ice-public: 0"@) + ended(Seq::empty()),
{
    lemma_head_lines();
    lemma_auth_line();
    lemma_source_lines();
    assert(source_request_text(host, port, mount, auth) =~= ended(
        "SOURCE "@ + mount + " HTTP/1.0"@,
    ) + ended("Host: "@ + address_text(host, port)) + ended("Authorization: Basic "@ + auth)
        + ended("User-Agent: RUMP/0.1"@) + ended("Content-Type: application/ogg"@) + ended(
        "ice-name: RUMP Stream"@,
    ) + ended("ice-public: 0"@) + ended(Seq::empty()));
}

proof fn lemma_head_lines()
    ensures
        " HTTP/1.0\r\nHost: "@ == ended(" HTTP/1.0"@) + "Host: "@,
{
    reveal_strlit(" HTTP/1.0\r\nHost: ");
    reveal_strlit(" HTTP/1.0");
    reveal_strlit("Host: ");
    assert(" HTTP/1.0\r\nHost: "@ =~= ended(" HTTP/1.0"@) + "Host: "@);
}

proof fn lemma_auth_line()
    ensures
        "\r\nAuthorization: Basic "@ == ended(Seq::empty()) + "Authorization: Basic "@,
{
    reveal_strlit("\r\nAuthorization: Basic ");
    reveal_strlit("Authorization: Basic ");
    assert("\r\nAuthorization: Basic "@ =~= ended(Seq::empty()) + "Authorization: Basic "@);
}

proof fn lemma_source_lines()
    ensures
        "\r\nUser-Agent: RUMP/0.1\r\nContent-Type: application/ogg\r\nice-name: RUMP Stream\r\nice-public: 0\r\n\r\n"@
            == ended(Seq::empty()) + ended("User-Agent: RUMP/0.1"@) + ended(
            "Content-Type: application/ogg"@,
        ) + ended("ice-name: RUMP Stream"@) + ended("ice-public: 0"@) + ended(Seq::empty()),
{
    reveal_strlit(
        "\r\nUser-Agent: RUMP/0.1\r\nContent-Type: application/ogg\r\nice-name: RUMP Stream\r\nice-public: 0\r\n\r\n",
    );
    reveal_strlit("User-Agent: RUMP/0.1");
    reveal_strlit("Content-Type: application/ogg");
    reveal_strlit("ice-name: RUMP Stream");
    reveal_strlit("ice-public: 0");
    assert("\r\nUser-Agent: RUMP/0.1\r\nContent-Type: application/ogg\r\nice-name: RUMP Stream\r\nice-public: 0\r\n\r\n"@
        =~= ended(Seq::empty()) + ended("User-Agent: RUMP/0.1"@) + ended(
        "Content-Type: application/ogg"@,
    ) + ended("ice-name: RUMP Stream"@) + ended("ice-public: 0"@) + ended(Seq::empty()));
}

/// The request that announces a song is a request line with the mount and the encoded song, a header
/// for the address, one for the credentials and one more, each on a line of its own, and an empty
/// line at the end.
pub proof fn metadata_requests_have_lines(
    host: Seq<char>,
    port: u16,
    mount: Seq<char>,
    auth: Seq<char>,
    song: Seq<char>,
)
    ensures
        metadata_request_text(host, port, mount, auth, song) == ended(
            "GET /admin/metadata?mount="@ + mount + "&mode=updinfo&song="@ + url_text(song)
                + " HTTP/1.0"@,
        ) + ended("Host: "@ + address_text(host, port)) + ended("Authorization: Basic "@ + auth)
            + ended("User-Agent: RUMP/0.1"@) + ended(Seq::empty()),
{
    lemma_head_lines();
    lemma_auth_line();
    reveal_strlit("\r\nUser-Agent: RUMP/0.1\r\n\r\n");
    reveal_strlit("User-Agent: RUMP/0.1");
    assert("\r\nUser-Agent: RUMP/0.1\r\n\r\n"@ =~= ended(Seq::empty()) + ended(
        "User-Agent: RUMP/0.1"@,
    ) + ended(Seq::empty()));
    assert(metadata_request_text(host, port, mount, auth, song) =~= ended(
        "GET /admin/metadata?mount="@ + mount + "&mode=updinfo&song="@ + url_text(song)
            + " HTTP/1.0"@,
    ) + ended("Host: "@ + address_text(host, port)) + ended("Authorization: Basic "@ + auth)
        + ended("User-Agent: RUMP/0.1"@) + ended(Seq::empty()));
}

} // verus!
