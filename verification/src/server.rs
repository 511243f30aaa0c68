//! Decisions of the loopback live viewer: request routing, the checks a
//! `POST /api/scene` must pass (bearer token, content type, body size and
//! encoding), the JSON reply bodies, publishing with a monotonic version, and
//! the token's text form. The socket, the lock and the disk stay with the
//! caller; each step here takes the facts it decides on as plain values.

use vstd::prelude::*;
use vstd::string::StrSliceExecFns;
use vstd::utf8::{decode_utf8, encode_utf8, encode_utf8_decode_utf8, valid_utf8};
use crate::strings::{
    chars_of, decimal, decimal_string, eq_ascii_ci, equals_ignore_ascii_case, push_all, push_char,
};

verus! {

/// Largest accepted request body, in bytes (1 MiB).
pub const MAX_BODY: usize = 1024 * 1024;

/// An HTTP reply: status code and body text.
#[derive(Debug, Clone, PartialEq)]
pub struct HttpReply {
    pub status: u16,
    pub body: String,
}

/// The request methods the viewer distinguishes.
#[derive(Debug, Clone, Copy, PartialEq, Eq)]
pub enum HttpMethod {
    Get,
    Post,
    Other,
}

/// What a request is routed to.
#[derive(Debug, Clone, Copy, PartialEq, Eq)]
pub enum Route {
    /// `GET /`: the live viewer page.
    Viewer,
    /// `GET /api/version`: the current scene version.
    Version,
    /// `GET /api/scene.png`: the current scene as PNG.
    ScenePng,
    /// `GET /api/scene.svg`: the current scene as SVG.
    SceneSvg,
    /// `POST /api/scene`: replace the scene.
    PostScene,
    /// Anything else.
    NotFound,
}

/// The characters of `s` before the first occurrence of `c` (all of `s` when
/// `c` does not occur): what `s.split(c).next()` yields.
pub open spec fn before_char(s: Seq<char>, c: char) -> Seq<char>
    decreases s.len(),
{
    if s.len() == 0 || s[0] == c {
        Seq::empty()
    } else {
        seq![s[0]] + before_char(s.drop_first(), c)
    }
}

proof fn lemma_before_char(s: Seq<char>, c: char, k: int)
    requires
        0 <= k <= s.len(),
        forall|i: int| 0 <= i < k ==> s[i] != c,
        k == s.len() || s[k] == c,
    ensures
        before_char(s, c) == s.take(k),
    decreases k,
{
    if k > 0 {
        lemma_before_char(s.drop_first(), c, k - 1);
        assert(s.take(k) =~= seq![s[0]] + s.drop_first().take(k - 1));
    } else {
        assert(s.take(0) =~= Seq::<char>::empty());
    }
}

/// The prefix of `s` before the first `c`.
fn prefix_before(s: &str, c: char) -> (r: &str)
    ensures
        r@ == before_char(s@, c),
{
    let v = chars_of(s);
    let mut k: usize = 0;
    while k < v.len() && v[k] != c
        invariant
            k <= v@.len(),
            v@ == s@,
            forall|i: int| 0 <= i < k ==> v@[i] != c,
        decreases v@.len() - k,
    {
        k += 1;
    }
    proof {
        lemma_before_char(s@, c, k as int);
    }
    s.substring_char(0, k)
}

/// Strip a query string (`?...`) and return just the path of a URL.
pub fn path_of(url: &str) -> (r: &str)
    ensures
        r@ == before_char(url@, '?'),
{
    prefix_before(url, '?')
}

/// `c` has the Unicode `White_Space` property (what `char::is_whitespace`
/// tests): tab through carriage return, space, next line, no-break space,
/// ogham space mark, the spaces U+2000 to U+200A, the line and paragraph
/// separators, narrow no-break space, medium mathematical space and
/// ideographic space.
pub open spec fn white_space(c: char) -> bool {
    let u = c as u32;
    ||| 0x09 <= u && u <= 0x0d
    ||| u == 0x20
    ||| u == 0x85
    ||| u == 0xa0
    ||| u == 0x1680
    ||| 0x2000 <= u && u <= 0x200a
    ||| u == 0x2028
    ||| u == 0x2029
    ||| u == 0x202f
    ||| u == 0x205f
    ||| u == 0x3000
}

/// Whether `c` is white space.
fn is_white_space(c: char) -> (r: bool)
    ensures
        r == white_space(c),
{
    let u = c as u32;
    (0x09 <= u && u <= 0x0d) || u == 0x20 || u == 0x85 || u == 0xa0 || u == 0x1680 || (0x2000 <= u
        && u <= 0x200a) || u == 0x2028 || u == 0x2029 || u == 0x202f || u == 0x205f || u == 0x3000
}

/// Number of leading white-space characters.
pub open spec fn lead_ws(s: Seq<char>) -> nat
    decreases s.len(),
{
    if s.len() > 0 && white_space(s[0]) {
        1 + lead_ws(s.drop_first())
    } else {
        0
    }
}

/// Number of trailing white-space characters.
pub open spec fn trail_ws(s: Seq<char>) -> nat
    decreases s.len(),
{
    if s.len() > 0 && white_space(s.last()) {
        1 + trail_ws(s.drop_last())
    } else {
        0
    }
}

/// `s` without leading and trailing white space (what `str::trim` yields).
pub open spec fn trimmed(s: Seq<char>) -> Seq<char> {
    let t = s.skip(lead_ws(s) as int);
    t.take(t.len() - trail_ws(t))
}

proof fn lemma_lead_ws(s: Seq<char>, k: int)
    requires
        0 <= k <= s.len(),
        forall|i: int| 0 <= i < k ==> white_space(s[i]),
        k == s.len() || !white_space(s[k]),
    ensures
        lead_ws(s) == k,
    decreases k,
{
    if k > 0 {
        lemma_lead_ws(s.drop_first(), k - 1);
    }
}

proof fn lemma_trail_ws(s: Seq<char>, k: int)
    requires
        0 <= k <= s.len(),
        forall|i: int| s.len() - k <= i < s.len() ==> white_space(s[i]),
        k == s.len() || !white_space(s[s.len() - 1 - k]),
    ensures
        trail_ws(s) == k,
    decreases k,
{
    if k > 0 {
        lemma_trail_ws(s.drop_last(), k - 1);
    }
}

/// `s` without leading and trailing white space.
fn trim_ws(s: &str) -> (r: &str)
    ensures
        r@ == trimmed(s@),
{
    let v = chars_of(s);
    let mut lo: usize = 0;
    while lo < v.len() && is_white_space(v[lo])
        invariant
            lo <= v@.len(),
            v@ == s@,
            forall|i: int| 0 <= i < lo ==> white_space(v@[i]),
        decreases v@.len() - lo,
    {
        lo += 1;
    }
    proof {
        lemma_lead_ws(s@, lo as int);
    }
    let mut hi: usize = v.len();
    while hi > lo && is_white_space(v[hi - 1])
        invariant
            lo <= hi <= v@.len(),
            v@ == s@,
            forall|i: int| hi <= i < v@.len() ==> white_space(v@[i]),
        decreases hi,
    {
        hi -= 1;
    }
    proof {
        let t = s@.skip(lo as int);
        let k = (v@.len() - hi) as int;
        assert forall|i: int| t.len() - k <= i < t.len() implies white_space(t[i]) by {
            assert(t[i] == v@[i + lo]);
        }
        if k < t.len() {
            assert(t[t.len() - 1 - k] == v@[hi - 1]);
        }
        lemma_trail_ws(t, k);
        assert(s@.subrange(lo as int, hi as int) =~= t.take(t.len() - k));
    }
    s.substring_char(lo, hi)
}

/// The value of the first header whose name equals `name` up to ASCII case.
pub open spec fn header_value(headers: Seq<(String, String)>, name: Seq<char>) -> Option<Seq<char>>
    decreases headers.len(),
{
    if headers.len() == 0 {
        None
    } else if eq_ascii_ci(headers[0].0@, name) {
        Some(headers[0].1@)
    } else {
        header_value(headers.drop_first(), name)
    }
}

/// The value of the first header named `name` (ASCII case ignored).
pub fn find_header<'a>(headers: &'a Vec<(String, String)>, name: &str) -> (r: Option<&'a str>)
    ensures
        match r {
            Some(v) => header_value(headers@, name@) == Some(v@),
            None => header_value(headers@, name@) is None,
        },
{
    let mut i: usize = 0;
    proof {
        assert(headers@.skip(0) =~= headers@);
    }
    while i < headers.len()
        invariant
            i <= headers@.len(),
            header_value(headers@, name@) == header_value(headers@.skip(i as int), name@),
        decreases headers@.len() - i,
    {
        proof {
            assert(headers@.skip(i as int).drop_first() =~= headers@.skip(i + 1));
            assert(headers@.skip(i as int)[0] == headers@[i as int]);
        }
        if equals_ignore_ascii_case(headers[i].0.as_str(), name) {
            return Some(headers[i].1.as_str());
        }
        i += 1;
    }
    None
}

/// The characters of `Bearer `.
pub open spec fn bearer_prefix() -> Seq<char> {
    seq!['B', 'e', 'a', 'r', 'e', 'r', ' ']
}

/// The token presented in an `Authorization` value: what follows `Bearer `,
/// trimmed; empty when the value does not start with `Bearer `.
pub open spec fn presented_token(auth: Seq<char>) -> Seq<char> {
    if auth.len() >= 7 && auth.take(7) == bearer_prefix() {
        trimmed(auth.skip(7))
    } else {
        Seq::empty()
    }
}

/// The token presented in an `Authorization` header value.
fn bearer_token(auth: &str) -> (r: &str)
    ensures
        r@ == presented_token(auth@),
{
    let v = chars_of(auth);
    if v.len() >= 7 && v[0] == 'B' && v[1] == 'e' && v[2] == 'a' && v[3] == 'r' && v[4] == 'e'
        && v[5] == 'r' && v[6] == ' ' {
        proof {
            assert(auth@.take(7) =~= bearer_prefix());
        }
        let rest = auth.substring_char(7, v.len());
        proof {
            assert(rest@ =~= auth@.skip(7));
        }
        trim_ws(rest)
    } else {
        proof {
            if auth@.len() >= 7 && auth@.take(7) == bearer_prefix() {
                assert(auth@.take(7)[0] == 'B' && auth@.take(7)[6] == ' ');
            }
        }
        let empty = auth.substring_char(0, 0);
        proof {
            assert(empty@ =~= Seq::<char>::empty());
        }
        empty
    }
}

/// Constant-time comparison of two strings (all bytes are visited whatever
/// they hold), so the token cannot be recovered from response timing.
pub fn token_eq(a: &str, b: &str) -> (r: bool)
    ensures
        r == (a@ == b@),
{
    let x = a.as_bytes();
    let y = b.as_bytes();
    proof {
        encode_utf8_decode_utf8(a@);
        encode_utf8_decode_utf8(b@);
    }
    if x.len() != y.len() {
        return false;
    }
    let mut acc: u8 = 0;
    let mut i: usize = 0;
    while i < x.len()
        invariant
            i <= x@.len(),
            x@.len() == y@.len(),
            (acc == 0) <==> (forall|k: int| 0 <= k < i ==> x@[k] == y@[k]),
        decreases x@.len() - i,
    {
        let (p, q) = (x[i], y[i]);
        let next = acc | (p ^ q);
        proof {
            assert((acc | (p ^ q)) == 0u8 <==> (acc == 0u8 && p == q)) by (bit_vector);
        }
        acc = next;
        i += 1;
    }
    proof {
        if acc == 0 {
            assert(x@ =~= y@);
        }
    }
    acc == 0
}

/// The JSON escape of one character, as `serde_json` writes it: `"` and `\`
/// and the control characters below U+0020 are escaped (the short forms
/// `\b`, `\t`, `\n`, `\f`, `\r` where JSON has them, `\u00xx` with
/// lower-case hex otherwise); every other character stands for itself.
pub open spec fn json_escape_char(c: char) -> Seq<char> {
    let u = c as u32;
    if c == '"' {
        seq!['\\', '"']
    } else if c == '\\' {
        seq!['\\', '\\']
    } else if u == 0x08 {
        seq!['\\', 'b']
    } else if u == 0x09 {
        seq!['\\', 't']
    } else if u == 0x0a {
        seq!['\\', 'n']
    } else if u == 0x0c {
        seq!['\\', 'f']
    } else if u == 0x0d {
        seq!['\\', 'r']
    } else if u < 0x20 {
        seq!['\\', 'u', '0', '0', hex_digit_char((u / 16) as nat), hex_digit_char((u % 16) as nat)]
    } else {
        seq![c]
    }
}

/// Every character of `s` escaped for a JSON string.
pub open spec fn json_escaped(s: Seq<char>) -> Seq<char>
    decreases s.len(),
{
    if s.len() == 0 {
        Seq::empty()
    } else {
        json_escaped(s.drop_last()) + json_escape_char(s.last())
    }
}

/// The JSON string literal for `s`: its escaped characters in double quotes.
pub open spec fn json_quoted(s: Seq<char>) -> Seq<char> {
    seq!['"'] + json_escaped(s) + seq!['"']
}

/// `serde_json::to_string` on a string slice: the JSON string literal for
/// `s` (its characters escaped as [`json_escape_char`] says, in double
/// quotes). Serializing a `str` into memory cannot fail (the writer is a
/// `Vec<u8>`), so the call always yields a string.
#[verifier::external_body]
fn json_string(s: &str) -> (r: String)
    ensures
        r@ == json_quoted(s@),
{
    serde_json::to_string(s).unwrap()
}

/// The body of a JSON error reply: `{"error":<message as a JSON string>}`.
pub open spec fn error_body(msg: Seq<char>) -> Seq<char> {
    seq!['{', '"', 'e', 'r', 'r', 'o', 'r', '"', ':'] + json_quoted(msg) + seq!['}']
}

/// A JSON error reply with the given status.
pub fn json_error(status: u16, msg: &str) -> (r: HttpReply)
    ensures
        r.status == status,
        r.body@ == error_body(msg@),
{
    let mut body = String::new();
    push_char(&mut body, '{');
    push_char(&mut body, '"');
    push_char(&mut body, 'e');
    push_char(&mut body, 'r');
    push_char(&mut body, 'r');
    push_char(&mut body, 'o');
    push_char(&mut body, 'r');
    push_char(&mut body, '"');
    push_char(&mut body, ':');
    let quoted = json_string(msg);
    push_all(&mut body, quoted.as_str());
    push_char(&mut body, '}');
    proof {
        assert(body@ =~= error_body(msg@));
    }
    HttpReply { status, body }
}

/// What a request is routed to, by method and path.
pub open spec fn route_of(method: HttpMethod, path: Seq<char>) -> Route {
    if method == HttpMethod::Get && path == "/"@ {
        Route::Viewer
    } else if method == HttpMethod::Get && path == "/api/version"@ {
        Route::Version
    } else if method == HttpMethod::Get && path == "/api/scene.png"@ {
        Route::ScenePng
    } else if method == HttpMethod::Get && path == "/api/scene.svg"@ {
        Route::SceneSvg
    } else if method == HttpMethod::Post && path == "/api/scene"@ {
        Route::PostScene
    } else {
        Route::NotFound
    }
}

/// Route a request by method and the path part of its URL.
pub fn route(method: HttpMethod, url: &str) -> (r: Route)
    ensures
        r == route_of(method, before_char(url@, '?')),
{
    let path = path_of(url);
    match method {
        HttpMethod::Get => {
            if crate::strings::str_equals(path, "/") {
                Route::Viewer
            } else if crate::strings::str_equals(path, "/api/version") {
                Route::Version
            } else if crate::strings::str_equals(path, "/api/scene.png") {
                Route::ScenePng
            } else if crate::strings::str_equals(path, "/api/scene.svg") {
                Route::SceneSvg
            } else {
                Route::NotFound
            }
        },
        HttpMethod::Post => {
            if crate::strings::str_equals(path, "/api/scene") {
                Route::PostScene
            } else {
                Route::NotFound
            }
        },
        HttpMethod::Other => Route::NotFound,
    }
}

/// The reply to a request routed nowhere.
pub fn not_found() -> (r: HttpReply)
    ensures
        r.status == 404,
        r.body@ == error_body("not found"@),
{
    json_error(404, "not found")
}

/// The `Content-Type` value names JSON: its media type (before any `;`
/// parameters), trimmed, is `application/json` up to ASCII case.
pub open spec fn is_json_type(ct: Seq<char>) -> bool {
    eq_ascii_ci(trimmed(before_char(ct, ';')), "application/json"@)
}

/// The header checks of `POST /api/scene`, in order: a non-empty bearer token
/// equal to `token` (else 401), a JSON content type (else 415), and a declared
/// length within [`MAX_BODY`] (else 413).
pub open spec fn post_header_issue(
    headers: Seq<(String, String)>,
    declared_len: Option<usize>,
    token: Seq<char>,
) -> Option<(u16, Seq<char>)> {
    let auth = match header_value(headers, "Authorization"@) {
        Some(v) => v,
        None => Seq::empty(),
    };
    let ct = match header_value(headers, "Content-Type"@) {
        Some(v) => v,
        None => Seq::empty(),
    };
    let presented = presented_token(auth);
    if presented.len() == 0 || presented != token {
        Some((401u16, "missing or invalid bearer token"@))
    } else if !is_json_type(ct) {
        Some((415u16, "Content-Type must be application/json"@))
    } else if declared_len matches Some(n) && n > MAX_BODY {
        Some((413u16, "body too large"@))
    } else {
        None
    }
}

/// A header check outcome against the problem it is meant to report.
pub open spec fn replies(r: Result<(), HttpReply>, issue: Option<(u16, Seq<char>)>) -> bool {
    match r {
        Ok(_) => issue is None,
        Err(reply) => (issue matches Some((status, msg)) && reply.status == status && reply.body@
            == error_body(msg)),
    }
}

/// Check the headers of `POST /api/scene` before the body is read. An absent
/// or empty token is refused outright.
pub fn check_post_headers(headers: &Vec<(String, String)>, declared_len: Option<usize>, token: &str) -> (r: Result<
    (),
    HttpReply,
>)
    ensures
        replies(r, post_header_issue(headers@, declared_len, token@)),
{
    let auth = match find_header(headers, "Authorization") {
        Some(v) => v,
        None => "",
    };
    let presented = bearer_token(auth);
    if presented.is_empty() || !token_eq(presented, token) {
        return Err(json_error(401, "missing or invalid bearer token"));
    }
    let ct = match find_header(headers, "Content-Type") {
        Some(v) => v,
        None => "",
    };
    let media = trim_ws(prefix_before(ct, ';'));
    proof {
        reveal_strlit("");
        assert(presented@ == token@);
        assert(ct@ == match header_value(headers@, "Content-Type"@) {
            Some(v) => v,
            None => Seq::<char>::empty(),
        });
        assert(media@ == trimmed(before_char(ct@, ';')));
    }
    if !equals_ignore_ascii_case(media, "application/json") {
        return Err(json_error(415, "Content-Type must be application/json"));
    }
    if let Some(n) = declared_len {
        if n > MAX_BODY {
            return Err(json_error(413, "body too large"));
        }
    }
    Ok(())
}

/// `String::from_utf8`: the text of `bytes` when they are valid UTF-8
/// (decoded as UTF-8 decodes), `None` otherwise.
#[verifier::external_body]
fn utf8_text(bytes: Vec<u8>) -> (r: Option<String>)
    ensures
        r is Some <==> valid_utf8(bytes@),
        r matches Some(s) ==> s@ == decode_utf8(bytes@),
{
    String::from_utf8(bytes).ok()
}

/// Check a request body that was read (capped at one byte past
/// [`MAX_BODY`]): too long is 413, not UTF-8 is 400, otherwise its text.
pub fn check_body(body: Vec<u8>) -> (r: Result<String, HttpReply>)
    ensures
        body@.len() > MAX_BODY ==> (r matches Err(reply) && reply.status == 413 && reply.body@
            == error_body("body too large"@)),
        body@.len() <= MAX_BODY && !valid_utf8(body@) ==> (r matches Err(reply) && reply.status
            == 400 && reply.body@ == error_body("body is not valid UTF-8"@)),
        body@.len() <= MAX_BODY && valid_utf8(body@) ==> (r matches Ok(t) && t@ == decode_utf8(
            body@,
        )),
{
    if body.len() > MAX_BODY {
        return Err(json_error(413, "body too large"));
    }
    let ghost bytes = body@;
    match utf8_text(body) {
        Some(t) => Ok(t),
        None => Err(json_error(400, "body is not valid UTF-8")),
    }
}

/// The published scene: its version and rendered bytes.
pub struct Published<S, P> {
    pub version: u64,
    pub svg: S,
    pub png: P,
}

impl<S, P> Published<S, P> {
    /// The first published scene, at version 1.
    pub fn initial(svg: S, png: P) -> (r: Self)
        ensures
            r.version == 1,
            r.svg == svg,
            r.png == png,
    {
        Published { version: 1, svg, png }
    }

    /// Publish a new rendering: the version goes up by one and the rendered
    /// bytes are replaced. Returns the new version.
    pub fn publish(&mut self, svg: S, png: P) -> (v: u64)
        requires
            old(self).version < u64::MAX,
        ensures
            final(self).version == old(self).version + 1,
            final(self).svg == svg,
            final(self).png == png,
            v == final(self).version,
    {
        self.version = self.version + 1;
        self.svg = svg;
        self.png = png;
        self.version
    }
}

/// The body of the reply to an accepted scene: `{"version":N}`.
pub open spec fn version_body(v: u64) -> Seq<char> {
    seq!['{', '"', 'v', 'e', 'r', 's', 'i', 'o', 'n', '"', ':'] + decimal(v as nat) + seq!['}']
}

/// The reply to an accepted scene.
pub fn version_reply(v: u64) -> (r: HttpReply)
    ensures
        r.status == 200,
        r.body@ == version_body(v),
{
    let mut body = String::new();
    push_char(&mut body, '{');
    push_char(&mut body, '"');
    push_char(&mut body, 'v');
    push_char(&mut body, 'e');
    push_char(&mut body, 'r');
    push_char(&mut body, 's');
    push_char(&mut body, 'i');
    push_char(&mut body, 'o');
    push_char(&mut body, 'n');
    push_char(&mut body, '"');
    push_char(&mut body, ':');
    let digits = decimal_string(v);
    push_all(&mut body, digits.as_str());
    push_char(&mut body, '}');
    proof {
        assert(body@ =~= version_body(v));
    }
    HttpReply { status: 200, body }
}

/// The lower-case hex digit for `d < 16`.
pub open spec fn hex_digit_char(d: nat) -> char {
    if d < 10 {
        (('0' as u32) + d) as char
    } else {
        (('a' as u32) + d - 10) as char
    }
}

/// Two lower-case hex digits per byte, most significant first (the
/// `{:02x}` rendering of each byte).
pub open spec fn hex_text(bytes: Seq<u8>) -> Seq<char>
    decreases bytes.len(),
{
    if bytes.len() == 0 {
        Seq::empty()
    } else {
        hex_text(bytes.drop_last()) + seq![
            hex_digit_char(bytes.last() as nat / 16),
            hex_digit_char(bytes.last() as nat % 16),
        ]
    }
}

fn hex_char(d: u8) -> (c: char)
    requires
        d < 16,
    ensures
        c == hex_digit_char(d as nat),
{
    if d < 10 {
        ((('0' as u32) + (d as u32)) as u8) as char
    } else {
        ((('a' as u32) + (d as u32) - 10) as u8) as char
    }
}

/// A lower-case hexadecimal digit.
pub open spec fn is_lower_hex(c: char) -> bool {
    ('0' <= c && c <= '9') || ('a' <= c && c <= 'f')
}

/// Hex text has two digits per byte, each `0-9` or `a-f`.
pub proof fn lemma_hex_text_shape(bytes: Seq<u8>)
    ensures
        hex_text(bytes).len() == 2 * bytes.len(),
        forall|i: int| 0 <= i < hex_text(bytes).len() ==> is_lower_hex(#[trigger] hex_text(bytes)[i]),
    decreases bytes.len(),
{
    if bytes.len() > 0 {
        lemma_hex_text_shape(bytes.drop_last());
        let prev = hex_text(bytes.drop_last());
        let b = bytes.last() as nat;
        assert forall|i: int| 0 <= i < hex_text(bytes).len() implies is_lower_hex(
            #[trigger] hex_text(bytes)[i],
        ) by {
            if i < prev.len() {
                assert(hex_text(bytes)[i] == prev[i]);
            } else if i == prev.len() {
                assert(hex_text(bytes)[i] == hex_digit_char(b / 16));
            } else {
                assert(hex_text(bytes)[i] == hex_digit_char(b % 16));
            }
        }
    }
}

/// The text form of a token: its bytes in lower-case hex, two digits per
/// byte.
pub fn hex_token(bytes: &[u8]) -> (r: String)
    ensures
        r@ == hex_text(bytes@),
        r@.len() == 2 * bytes@.len(),
        forall|i: int| 0 <= i < r@.len() ==> is_lower_hex(#[trigger] r@[i]),
{
    proof {
        lemma_hex_text_shape(bytes@);
    }
    let mut out = String::new();
    let mut i: usize = 0;
    while i < bytes.len()
        invariant
            i <= bytes@.len(),
            out@ == hex_text(bytes@.take(i as int)),
        decreases bytes@.len() - i,
    {
        let b = bytes[i];
        push_char(&mut out, hex_char(b / 16));
        push_char(&mut out, hex_char(b % 16));
        proof {
            assert(bytes@.take(i + 1).drop_last() =~= bytes@.take(i as int));
        }
        i += 1;
    }
    proof {
        assert(bytes@.take(bytes@.len() as int) =~= bytes@);
    }
    out
}


/// One step of the xorshift generator that mixes the fallback token.
pub open spec fn xorshift(x: u128) -> u128 {
    let a = x ^ (x << 13u128);
    let b = a ^ (a >> 7u128);
    b ^ (b << 17u128)
}

/// `k` token bytes mixed from state `x`: each byte is the low eight bits of
/// the next generator state.
pub open spec fn mixed_bytes(x: u128, k: nat) -> Seq<u8>
    decreases k,
{
    if k == 0 {
        Seq::empty()
    } else {
        let y = xorshift(x);
        seq![(y & 0xffu128) as u8] + mixed_bytes(y, (k - 1) as nat)
    }
}

/// The seed of the fallback token: the time in nanoseconds, the process id in
/// the high half, and a fixed odd constant, combined by exclusive or.
pub open spec fn fallback_seed(nanos: u128, pid: u32) -> u128 {
    nanos ^ ((pid as u128) << 64u128) ^ 0x9e37_79b9_7f4a_7c15_9e37_79b9_7f4a_7c15u128
}

/// The sixteen token bytes used when no entropy source can be read: weak and
/// predictable, but different per run.
pub fn fallback_token_bytes(nanos: u128, pid: u32) -> (r: Vec<u8>)
    ensures
        r@ == mixed_bytes(fallback_seed(nanos, pid), 16),
{
    let mut x: u128 = nanos ^ ((pid as u128) << 64u128) ^ 0x9e37_79b9_7f4a_7c15_9e37_79b9_7f4a_7c15u128;
    let ghost start = x;
    let mut out: Vec<u8> = Vec::new();
    let mut i: usize = 0;
    while i < 16
        invariant
            i <= 16,
            start == fallback_seed(nanos, pid),
            mixed_bytes(start, 16) == out@ + mixed_bytes(x, (16 - i) as nat),
        decreases 16 - i,
    {
        let ghost before = x;
        x = x ^ (x << 13u128);
        x = x ^ (x >> 7u128);
        x = x ^ (x << 17u128);
        out.push((x & 0xffu128) as u8);
        proof {
            assert(x == xorshift(before));
            assert(mixed_bytes(before, (16 - i) as nat) == seq![(x & 0xffu128) as u8] + mixed_bytes(
                x,
                (16 - i - 1) as nat,
            ));
            assert(out@ + mixed_bytes(x, (16 - (i + 1)) as nat) =~= out@.drop_last() + (seq![
                (x & 0xffu128) as u8,
            ] + mixed_bytes(x, (16 - i - 1) as nat)));
        }
        i += 1;
    }
    proof {
        assert(out@ + mixed_bytes(x, 0) =~= out@);
    }
    out
}


/// What happened at the last step of a scene upload.
pub enum PostEvent {
    /// The header checks ran ([`check_post_headers`]).
    Headers(Result<(), HttpReply>),
    /// The body was read, capped at one byte past [`MAX_BODY`] (`None`: the
    /// read failed).
    Body(Option<Vec<u8>>),
    /// The scene text was resolved (`Err` holds the resolver's message).
    Resolved(Result<(), String>),
    /// The scene was rendered (`Err` holds the renderer's message).
    Rendered(Result<(), String>),
    /// The rendering was published under this version.
    Published(u64),
}

/// What to do next for a scene upload.
pub enum PostAction {
    ReadBody,
    /// Resolve this scene text.
    Resolve(String),
    Render,
    Publish,
    /// Answer the request and stop.
    Reply(HttpReply),
}

/// A [`PostAction`] with its strings as characters.
pub enum PostActionView {
    ReadBody,
    Resolve(Seq<char>),
    Render,
    Publish,
    Reply(u16, Seq<char>),
}

impl View for PostAction {
    type V = PostActionView;

    open spec fn view(&self) -> PostActionView {
        match self {
            PostAction::ReadBody => PostActionView::ReadBody,
            PostAction::Resolve(t) => PostActionView::Resolve(t@),
            PostAction::Render => PostActionView::Render,
            PostAction::Publish => PostActionView::Publish,
            PostAction::Reply(r) => PostActionView::Reply(r.status, r.body@),
        }
    }
}

/// The next action of a scene upload after `e`: a refused header check is
/// answered as it was refused; a failed read is a 400; the body is checked
/// as [`check_body`] does (413 when too long, 400 when not UTF-8) and its
/// text resolved; a scene the resolver refuses is a 400 `invalid scene: ...`;
/// a failed rendering is a 500 `render failed: ...`; a rendering is
/// published; a publication is answered with its version.
pub open spec fn post_action(e: PostEvent) -> PostActionView {
    match e {
        PostEvent::Headers(Err(reply)) => PostActionView::Reply(reply.status, reply.body@),
        PostEvent::Headers(Ok(_)) => PostActionView::ReadBody,
        PostEvent::Body(None) => PostActionView::Reply(400, error_body("failed to read body"@)),
        PostEvent::Body(Some(b)) => if b@.len() > MAX_BODY {
            PostActionView::Reply(413, error_body("body too large"@))
        } else if !valid_utf8(b@) {
            PostActionView::Reply(400, error_body("body is not valid UTF-8"@))
        } else {
            PostActionView::Resolve(decode_utf8(b@))
        },
        PostEvent::Resolved(Err(m)) => PostActionView::Reply(
            400,
            error_body("invalid scene: "@ + m@),
        ),
        PostEvent::Resolved(Ok(_)) => PostActionView::Render,
        PostEvent::Rendered(Err(m)) => PostActionView::Reply(
            500,
            error_body("render failed: "@ + m@),
        ),
        PostEvent::Rendered(Ok(_)) => PostActionView::Publish,
        PostEvent::Published(v) => PostActionView::Reply(200, version_body(v)),
    }
}

/// Decide the next step of a scene upload. The header checks come first,
/// then the body, the resolution, the rendering and the publication; any
/// failure is answered and ends the upload, leaving the published scene as
/// it was.
pub fn post_step(e: PostEvent) -> (r: PostAction)
    ensures
        r@ == post_action(e),
{
    match e {
        PostEvent::Headers(Err(reply)) => PostAction::Reply(reply),
        PostEvent::Headers(Ok(_)) => PostAction::ReadBody,
        PostEvent::Body(None) => PostAction::Reply(json_error(400, "failed to read body")),
        PostEvent::Body(Some(b)) => match check_body(b) {
            Ok(text) => PostAction::Resolve(text),
            Err(reply) => PostAction::Reply(reply),
        },
        PostEvent::Resolved(Err(m)) => {
            let mut msg = String::new();
            push_all(&mut msg, "invalid scene: ");
            push_all(&mut msg, m.as_str());
            PostAction::Reply(json_error(400, msg.as_str()))
        },
        PostEvent::Resolved(Ok(_)) => PostAction::Render,
        PostEvent::Rendered(Err(m)) => {
            let mut msg = String::new();
            push_all(&mut msg, "render failed: ");
            push_all(&mut msg, m.as_str());
            PostAction::Reply(json_error(500, msg.as_str()))
        },
        PostEvent::Rendered(Ok(_)) => PostAction::Publish,
        PostEvent::Published(v) => PostAction::Reply(version_reply(v)),
    }
}

} // verus!
