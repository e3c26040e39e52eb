//! HTTP framing for the renderer's control server: request reading, header
//! lookup, routing and the plain-text response format.
use vstd::prelude::*;
use vstd::utf8::{encode_scalar, encode_utf8, valid_utf8, decode_utf8};
use crate::text::{
    chars_of, decimal, eq_str, find, find_bytes, find_str, first_line, lines, lowercase_chars,
    opt_int, parse_unsigned, parse_unsigned_chars, push_decimal, skip_chars, slice_chars,
    spec_to_lowercase, split_lines, split_whitespace, starts_with, starts_with_chars,
    starts_with_str, string_of, token_or, tokens, trim, trim_chars, views, nth_or,
    lemma_find_from, find_from, matches_at, spec_is_whitespace, trim_start, trim_end,
};

verus! {

/// The byte length `str::len` reports for a string with these characters.
pub open spec fn str_len(s: Seq<char>) -> usize {
    encode_utf8(s).len() as usize
}

/// The response `HTTP/1.1 {status}` with the given content type and body and a
/// `Content-Length` equal to the body's byte length.
pub open spec fn http_response_text(status: Seq<char>, content_type: Seq<char>, body: Seq<char>) -> Seq<
    char,
> {
    "HTTP/1.1 "@ + status + "\r\nContent-Type: "@ + content_type + "\r\nContent-Length: "@
        + decimal(str_len(body) as nat) + "\r\nConnection: close\r\n\r\n"@ + body
}

/// A complete HTTP response with `Connection: close`.
pub fn http_response(status: &str, content_type: &str, body: &str) -> (r: String)
    ensures
        r@ == http_response_text(status@, content_type@, body@),
{
    let mut out = String::new();
    out.append("HTTP/1.1 ");
    out.append(status);
    out.append("\r\nContent-Type: ");
    out.append(content_type);
    out.append("\r\nContent-Length: ");
    push_decimal(&mut out, body.len() as u64);
    out.append("\r\nConnection: close\r\n\r\n");
    out.append(body);
    out
}

// ---------------------------------------------------------------------------
// Reading a request.
// ---------------------------------------------------------------------------

/// What `String::from_utf8_lossy` returns for these bytes.
pub uninterp spec fn spec_utf8_lossy(b: Seq<u8>) -> Seq<char>;

/// Calls `String::from_utf8_lossy`: valid UTF-8 is decoded as is; other input
/// gets replacement characters, which the contract only names.
#[verifier::external_body]
pub(crate) fn utf8_lossy(b: &[u8]) -> (r: String)
    ensures
        r@ == spec_utf8_lossy(b@),
        valid_utf8(b@) ==> r@ == decode_utf8(b@),
{
    String::from_utf8_lossy(b).to_string()
}

/// The index of the first blank line separator `\r\n\r\n` in a request buffer.
pub fn find_header_end(buf: &[u8]) -> (r: Option<usize>)
    ensures
        opt_int(r) == find(buf@, seq![13u8, 10u8, 13u8, 10u8]),
{
    let pat: [u8; 4] = [13u8, 10u8, 13u8, 10u8];
    let ps: &[u8] = &pat;
    assert(ps@ =~= seq![13u8, 10u8, 13u8, 10u8]);
    find_bytes(buf, ps)
}

/// The field that `str::split(':').nth(1)` gives: the text between the first
/// and the second `:` (or the end).
pub open spec fn second_colon_field(l: Seq<char>) -> Option<Seq<char>> {
    match find(l, ":"@) {
        None => None,
        Some(i) => {
            let rest = l.skip(i + 1);
            match find(rest, ":"@) {
                Some(j) => Some(rest.take(j)),
                None => Some(rest),
            }
        },
    }
}

/// The value of the first `Content-Length` line among `ls` (0 when absent or
/// not a number).
pub open spec fn content_length_in(ls: Seq<Seq<char>>) -> nat
    decreases ls.len(),
{
    if ls.len() == 0 {
        0
    } else if starts_with(spec_to_lowercase(ls[0]), "content-length:"@) {
        match second_colon_field(ls[0]) {
            Some(v) => match parse_unsigned(trim(v), usize::MAX as nat) {
                Some(n) => n,
                None => 0,
            },
            None => content_length_in(ls.drop_first()),
        }
    } else {
        content_length_in(ls.drop_first())
    }
}

/// `split(':').nth(1)` of a line (characters).
fn second_colon_field_chars(l: &Vec<char>) -> (r: Option<Vec<char>>)
    ensures
        match r {
            Some(v) => second_colon_field(l@) == Some(v@),
            None => second_colon_field(l@) is None,
        },
{
    match find_str(l, ":", 0) {
        None => None,
        Some(i) => {
            proof {
                lemma_find_from(l@, ":"@, 0);
                reveal_strlit(":");
            }
            assert(i < l.len());
            let rest = skip_chars(l, i + 1);
            match find_str(&rest, ":", 0) {
                Some(j) => {
                    proof {
                        lemma_find_from(rest@, ":"@, 0);
                    }
                    Some(slice_chars(&rest, 0, j))
                },
                None => Some(rest),
            }
        },
    }
}

/// The `Content-Length` of a request header (0 when absent or malformed).
pub fn parse_content_length(header: &str) -> (r: usize)
    ensures
        r as nat == content_length_in(lines(header@)),
{
    let h = chars_of(header);
    let ls = split_lines(&h);
    let mut i: usize = 0;
    proof {
        assert(views(ls@).skip(0) =~= views(ls@));
    }
    while i < ls.len()
        invariant
            i <= ls.len(),
            views(ls@) == lines(header@),
            content_length_in(lines(header@)) == content_length_in(views(ls@).skip(i as int)),
        decreases ls.len() - i,
    {
        let ghost rest = views(ls@).skip(i as int);
        proof {
            assert(rest[0] == ls@[i as int]@);
            assert(rest.drop_first() =~= views(ls@).skip(i + 1));
        }
        let lower = lowercase_chars(&ls[i]);
        if starts_with_str(&lower, "content-length:") {
            match second_colon_field_chars(&ls[i]) {
                Some(v) => {
                    let tv = trim_chars(&v);
                    return match parse_unsigned_chars(&tv, usize::MAX as u64) {
                        Some(n) => n as usize,
                        None => 0,
                    };
                },
                None => {},
            }
        }
        i = i + 1;
    }
    proof {
        assert(views(ls@).skip(i as int) =~= Seq::<Seq<char>>::empty());
    }
    0
}

/// The value `extract_header`/`extract_header_val` find among the lines `ls` for
/// the lowercased name `lname`: the trimmed text after the first `:` of the first
/// line whose lowercase starts with `lname` and that holds a `:`, cut from the
/// line as it was sent; the search stops at the first empty line.
pub open spec fn header_value_in(ls: Seq<Seq<char>>, lname: Seq<char>) -> Option<Seq<char>>
    decreases ls.len(),
{
    if ls.len() == 0 {
        None
    } else {
        let ll = spec_to_lowercase(ls[0]);
        if starts_with(ll, lname) && find(ls[0], ":"@) is Some {
            Some(trim(ls[0].skip(find(ls[0], ":"@)->0 + 1)))
        } else if ls[0].len() == 0 {
            None
        } else {
            header_value_in(ls.drop_first(), lname)
        }
    }
}

/// The header value of `name` in `request` (name matched case-insensitively
/// through `str::to_lowercase`; the value is returned as sent).
pub open spec fn header_value(request: Seq<char>, name: Seq<char>) -> Option<Seq<char>> {
    header_value_in(lines(request), spec_to_lowercase(name))
}

fn header_value_chars(request: &str, name: &str) -> (r: Option<Vec<char>>)
    ensures
        match r {
            Some(v) => header_value(request@, name@) == Some(v@),
            None => header_value(request@, name@) is None,
        },
{
    let nv = chars_of(name);
    let lname = lowercase_chars(&nv);
    let h = chars_of(request);
    let ls = split_lines(&h);
    let mut i: usize = 0;
    proof {
        assert(views(ls@).skip(0) =~= views(ls@));
    }
    while i < ls.len()
        invariant
            i <= ls.len(),
            views(ls@) == lines(request@),
            lname@ == spec_to_lowercase(name@),
            header_value(request@, name@) == header_value_in(views(ls@).skip(i as int), lname@),
        decreases ls.len() - i,
    {
        let ghost rest = views(ls@).skip(i as int);
        proof {
            assert(rest[0] == ls@[i as int]@);
            assert(rest.drop_first() =~= views(ls@).skip(i + 1));
        }
        let ll = lowercase_chars(&ls[i]);
        if starts_with_chars(&ll, &lname) {
            match find_str(&ls[i], ":", 0) {
                Some(c) => {
                    proof {
                        lemma_find_from(ls@[i as int]@, ":"@, 0);
                        reveal_strlit(":");
                    }
                    let v = skip_chars(&ls[i], c + 1);
                    return Some(trim_chars(&v));
                },
                None => {},
            }
        }
        if ls[i].len() == 0 {
            return None;
        }
        i = i + 1;
    }
    proof {
        assert(views(ls@).skip(i as int) =~= Seq::<Seq<char>>::empty());
    }
    None
}

/// The value of header `name` in `request`, if a header line carries it.
pub fn extract_header_val(request: &str, name: &str) -> (r: Option<String>)
    ensures
        match r {
            Some(v) => header_value(request@, name@) == Some(v@),
            None => header_value(request@, name@) is None,
        },
{
    match header_value_chars(request, name) {
        Some(v) => Some(string_of(&v)),
        None => None,
    }
}

/// The value of header `name` in `request`, or the empty string.
pub fn extract_header(request: &str, name: &str) -> (r: String)
    ensures
        r@ == (match header_value(request@, name@) {
            Some(v) => v,
            None => Seq::empty(),
        }),
{
    match header_value_chars(request, name) {
        Some(v) => string_of(&v),
        None => String::new(),
    }
}

// ---------------------------------------------------------------------------
// Incremental request reading.
// ---------------------------------------------------------------------------

/// How the `Content-Length` of a buffered header is read.
#[derive(Clone, Copy, PartialEq, Eq, Structural)]
pub enum LengthRule {
    /// The renderer's rule (`parse_content_length`).
    FirstField,
    /// The remote-play rule: the first line whose lowercase starts with
    /// `content-length:` and whose rest parses.
    AnyParsable,
}

/// The `Content-Length` the remote-play server reads from header lines.
pub open spec fn remote_length_in(ls: Seq<Seq<char>>) -> nat
    decreases ls.len(),
{
    if ls.len() == 0 {
        0
    } else {
        let ll = spec_to_lowercase(ls[0]);
        if starts_with(ll, "content-length:"@) && parse_unsigned(
            trim(ll.skip(15)),
            usize::MAX as nat,
        ) is Some {
            parse_unsigned(trim(ll.skip(15)), usize::MAX as nat)->0
        } else {
            remote_length_in(ls.drop_first())
        }
    }
}

/// The `Content-Length` read from header text under a rule.
pub open spec fn length_by_rule(rule: LengthRule, header: Seq<char>) -> nat {
    match rule {
        LengthRule::FirstField => content_length_in(lines(header)),
        LengthRule::AnyParsable => remote_length_in(lines(header)),
    }
}

/// The remote-play server's `Content-Length` rule on header text.
pub fn remote_content_length(header: &str) -> (r: usize)
    ensures
        r as nat == remote_length_in(lines(header@)),
{
    let h = chars_of(header);
    let ls = split_lines(&h);
    let mut i: usize = 0;
    proof {
        assert(views(ls@).skip(0) =~= views(ls@));
    }
    while i < ls.len()
        invariant
            i <= ls.len(),
            views(ls@) == lines(header@),
            remote_length_in(lines(header@)) == remote_length_in(views(ls@).skip(i as int)),
        decreases ls.len() - i,
    {
        let ghost rest = views(ls@).skip(i as int);
        proof {
            assert(rest[0] == ls@[i as int]@);
            assert(rest.drop_first() =~= views(ls@).skip(i + 1));
            reveal_strlit("content-length:");
        }
        let ll = lowercase_chars(&ls[i]);
        if starts_with_str(&ll, "content-length:") {
            let v = skip_chars(&ll, 15);
            let tv = trim_chars(&v);
            match parse_unsigned_chars(&tv, usize::MAX as u64) {
                Some(n) => {
                    return n as usize;
                },
                None => {},
            }
        }
        i = i + 1;
    }
    proof {
        assert(views(ls@).skip(i as int) =~= Seq::<Seq<char>>::empty());
    }
    0
}

/// The model of a request being read: the bytes so far and, once the header is
/// complete, the total length to reach.
pub struct RequestBuffer {
    buf: Vec<u8>,
    target: Option<u128>,
    rule: LengthRule,
    limit: usize,
}

/// One step of reading: the bytes after appending `chunk`, the new target, and
/// whether reading is over (a zero-length chunk is end of stream).
pub open spec fn read_step(
    buf: Seq<u8>,
    target: Option<int>,
    rule: LengthRule,
    limit: usize,
    chunk: Seq<u8>,
) -> (Seq<u8>, Option<int>, bool) {
    if chunk.len() == 0 {
        (buf, target, true)
    } else {
        let b = buf + chunk;
        match target {
            Some(t) => (b, target, b.len() >= t),
            None => match find(b, seq![13u8, 10u8, 13u8, 10u8]) {
                Some(idx) => {
                    let cl = length_by_rule(rule, spec_utf8_lossy(b.take(idx)));
                    let t = idx + 4 + cl;
                    (b, Some(t), b.len() >= t)
                },
                None => (b, None, b.len() > limit),
            },
        }
    }
}

impl RequestBuffer {
    /// The bytes read so far.
    pub closed spec fn bytes(&self) -> Seq<u8> {
        self.buf@
    }

    /// The total length to read once the header is complete.
    pub closed spec fn goal(&self) -> Option<int> {
        match self.target {
            Some(t) => Some(t as int),
            None => None,
        }
    }

    pub closed spec fn length_rule(&self) -> LengthRule {
        self.rule
    }

    pub closed spec fn size_limit(&self) -> usize {
        self.limit
    }

    /// An empty buffer reading with `rule`, giving up on a header longer than
    /// `limit` bytes.
    pub fn new(rule: LengthRule, limit: usize) -> (r: Self)
        ensures
            r.bytes() == Seq::<u8>::empty(),
            r.goal() is None,
            r.length_rule() == rule,
            r.size_limit() == limit,
    {
        RequestBuffer { buf: Vec::new(), target: None, rule, limit }
    }

    /// Appends what one read returned; `true` when reading is over. Once the
    /// header end is at `idx`, reading goes on until `idx + 4 + Content-Length`
    /// bytes are in (or the stream ends); before that it stops when more than
    /// `limit` bytes hold no header end.
    pub fn feed(&mut self, chunk: &[u8]) -> (done: bool)
        ensures
            final(self).length_rule() == old(self).length_rule(),
            final(self).size_limit() == old(self).size_limit(),
            (final(self).bytes(), final(self).goal(), done) == read_step(
                old(self).bytes(),
                old(self).goal(),
                old(self).length_rule(),
                old(self).size_limit(),
                chunk@,
            ),
    {
        if chunk.len() == 0 {
            return true;
        }
        let mut k: usize = 0;
        let ghost b0 = self.buf@;
        while k < chunk.len()
            invariant
                k <= chunk.len(),
                self.buf@ == b0 + chunk@.take(k as int),
                self.target == old(self).target,
                self.rule == old(self).rule,
                self.limit == old(self).limit,
                b0 == old(self).buf@,
            decreases chunk.len() - k,
        {
            self.buf.push(chunk[k]);
            proof {
                assert(chunk@.take(k + 1) =~= chunk@.take(k as int).push(chunk@[k as int]));
            }
            k = k + 1;
        }
        proof {
            assert(chunk@.take(chunk.len() as int) =~= chunk@);
        }
        match self.target {
            Some(t) => (self.buf.len() as u128) >= t,
            None => {
                match find_header_end(self.buf.as_slice()) {
                    Some(idx) => {
                        proof {
                            lemma_find_from(self.buf@, seq![13u8, 10u8, 13u8, 10u8], 0);
                        }
                        let head = slice_bytes(&self.buf, idx);
                        let text = utf8_lossy(head.as_slice());
                        let cl = match self.rule {
                            LengthRule::FirstField => parse_content_length(text.as_str()),
                            LengthRule::AnyParsable => remote_content_length(text.as_str()),
                        };
                        let t: u128 = (idx as u128) + 4 + (cl as u128);
                        self.target = Some(t);
                        (self.buf.len() as u128) >= t
                    },
                    None => self.buf.len() > self.limit,
                }
            },
        }
    }

    /// The request text read so far (`String::from_utf8_lossy`).
    pub fn request_text(&self) -> (r: String)
        ensures
            r@ == spec_utf8_lossy(self.bytes()),
    {
        utf8_lossy(self.buf.as_slice())
    }
}

/// The first `n` bytes of a buffer.
fn slice_bytes(b: &Vec<u8>, n: usize) -> (r: Vec<u8>)
    requires
        n <= b.len(),
    ensures
        r@ == b@.take(n as int),
{
    let mut r: Vec<u8> = Vec::new();
    let mut i: usize = 0;
    while i < n
        invariant
            i <= n <= b.len(),
            r@ == b@.take(i as int),
        decreases n - i,
    {
        r.push(b[i]);
        proof {
            assert(b@.take(i + 1) =~= b@.take(i as int).push(b@[i as int]));
        }
        i = i + 1;
    }
    r
}

// ---------------------------------------------------------------------------
// Routing.
// ---------------------------------------------------------------------------

/// What the renderer's HTTP server does with a request.
#[derive(Clone, Copy, PartialEq, Eq, Structural, Debug)]
pub enum DlnaRoute {
    /// Nothing was read: no reply.
    Empty,
    Icon,
    Description,
    AvtScpd,
    RcScpd,
    CmScpd,
    AvtControl,
    RcControl,
    CmControl,
    Subscribe,
    Unsubscribe,
    Root,
    NotFound,
}

/// Where a request goes, from its request line (`METHOD PATH ...`).
pub open spec fn route_of(request: Seq<char>) -> DlnaRoute {
    let line = first_line(request);
    let method = token_or(line, 0, Seq::empty());
    let path = token_or(line, 1, Seq::empty());
    if request.len() == 0 {
        DlnaRoute::Empty
    } else if path == "/icon.png"@ {
        DlnaRoute::Icon
    } else if method == "GET"@ && (path == "/description.xml"@ || path == "/device.xml"@) {
        DlnaRoute::Description
    } else if method == "GET"@ && path == "/upnp/scpd/AVTransport.xml"@ {
        DlnaRoute::AvtScpd
    } else if method == "GET"@ && path == "/upnp/scpd/RenderingControl.xml"@ {
        DlnaRoute::RcScpd
    } else if method == "GET"@ && path == "/upnp/scpd/ConnectionManager.xml"@ {
        DlnaRoute::CmScpd
    } else if method == "POST"@ && path == "/upnp/control/AVTransport"@ {
        DlnaRoute::AvtControl
    } else if method == "POST"@ && path == "/upnp/control/RenderingControl"@ {
        DlnaRoute::RcControl
    } else if method == "POST"@ && path == "/upnp/control/ConnectionManager"@ {
        DlnaRoute::CmControl
    } else if method == "SUBSCRIBE"@ && starts_with(path, "/upnp/event/"@) {
        DlnaRoute::Subscribe
    } else if method == "UNSUBSCRIBE"@ && starts_with(path, "/upnp/event/"@) {
        DlnaRoute::Unsubscribe
    } else if method == "GET"@ && path == "/"@ {
        DlnaRoute::Root
    } else {
        DlnaRoute::NotFound
    }
}

/// The request line of a request, split into tokens.
pub(crate) fn request_line_tokens(request: &Vec<char>) -> (r: Vec<Vec<char>>)
    ensures
        views(r@) == tokens(first_line(request@)),
{
    let ls = split_lines(request);
    if ls.len() > 0 {
        let t = split_whitespace(&ls[0]);
        t
    } else {
        let e: Vec<char> = Vec::new();
        proof {
            assert(first_line(request@) =~= e@);
        }
        split_whitespace(&e)
    }
}

/// Routes a request the way the renderer's connection handler does: the icon
/// by path alone, everything else by method and path.
pub fn route_request(request: &str) -> (r: DlnaRoute)
    ensures
        r == route_of(request@),
{
    let req = chars_of(request);
    let toks = request_line_tokens(&req);
    let method = nth_or(&toks, 0, "");
    let path = nth_or(&toks, 1, "");
    proof {
        reveal_strlit("");
        let line = first_line(request@);
        assert(method@ == token_or(line, 0, Seq::empty()));
        assert(path@ == token_or(line, 1, Seq::empty()));
    }
    if req.len() == 0 {
        DlnaRoute::Empty
    } else if eq_str(&path, "/icon.png") {
        DlnaRoute::Icon
    } else if eq_str(&method, "GET") && (eq_str(&path, "/description.xml") || eq_str(
        &path,
        "/device.xml",
    )) {
        DlnaRoute::Description
    } else if eq_str(&method, "GET") && eq_str(&path, "/upnp/scpd/AVTransport.xml") {
        DlnaRoute::AvtScpd
    } else if eq_str(&method, "GET") && eq_str(&path, "/upnp/scpd/RenderingControl.xml") {
        DlnaRoute::RcScpd
    } else if eq_str(&method, "GET") && eq_str(&path, "/upnp/scpd/ConnectionManager.xml") {
        DlnaRoute::CmScpd
    } else if eq_str(&method, "POST") && eq_str(&path, "/upnp/control/AVTransport") {
        DlnaRoute::AvtControl
    } else if eq_str(&method, "POST") && eq_str(&path, "/upnp/control/RenderingControl") {
        DlnaRoute::RcControl
    } else if eq_str(&method, "POST") && eq_str(&path, "/upnp/control/ConnectionManager") {
        DlnaRoute::CmControl
    } else if eq_str(&method, "SUBSCRIBE") && starts_with_str(&path, "/upnp/event/") {
        DlnaRoute::Subscribe
    } else if eq_str(&method, "UNSUBSCRIBE") && starts_with_str(&path, "/upnp/event/") {
        DlnaRoute::Unsubscribe
    } else if eq_str(&method, "GET") && eq_str(&path, "/") {
        DlnaRoute::Root
    } else {
        DlnaRoute::NotFound
    }
}

/// The body of a request: everything after the first `\r\n\r\n` (empty when the
/// header is not terminated).
pub open spec fn request_body_of(request: Seq<char>) -> Seq<char> {
    match find(request, "\r\n\r\n"@) {
        Some(i) => request.skip(i + 4),
        None => Seq::empty(),
    }
}

/// The body of a request.
pub fn request_body(request: &str) -> (r: String)
    ensures
        r@ == request_body_of(request@),
{
    let req = chars_of(request);
    match find_str(&req, "\r\n\r\n", 0) {
        Some(i) => {
            proof {
                reveal_strlit("\r\n\r\n");
                assert("\r\n\r\n"@.len() == 4);
                lemma_find_from(req@, "\r\n\r\n"@, 0);
                assert(i + 4 <= req.len());
            }
            let b = skip_chars(&req, i + 4);
            string_of(&b)
        },
        None => String::new(),
    }
}

// ---------------------------------------------------------------------------
// Framing of the responses.
// ---------------------------------------------------------------------------

/// Searching one element later in a sequence is searching its tail.
proof fn lemma_find_from_tail<A>(s: Seq<A>, p: Seq<A>, i: int)
    requires
        s.len() > 0,
        i >= 0,
    ensures
        find_from(s, p, i + 1) == (match find_from(s.drop_first(), p, i) {
            Some(k) => Some(k + 1),
            None => None,
        }),
    decreases s.len() - i,
{
    let t = s.drop_first();
    if i + p.len() > t.len() {
    } else {
        assert(matches_at(s, p, i + 1) == matches_at(t, p, i)) by {
            if matches_at(t, p, i) {
                assert forall|k: int| 0 <= k < p.len() implies #[trigger] s[(i + 1) + k] == p[k] by {
                    assert(t[i + k] == p[k]);
                }
            }
            if matches_at(s, p, i + 1) {
                assert forall|k: int| 0 <= k < p.len() implies #[trigger] t[i + k] == p[k] by {
                    assert(s[(i + 1) + k] == p[k]);
                }
            }
        }
        if !matches_at(t, p, i) {
            lemma_find_from_tail(s, p, i + 1);
        }
    }
}

/// The first occurrence of `p` in `x + y`, where `x` never holds `p`'s first
/// element, is the first one in `y`, shifted.
proof fn lemma_find_after_plain<A>(x: Seq<A>, y: Seq<A>, p: Seq<A>)
    requires
        p.len() > 0,
        forall|k: int| 0 <= k < x.len() ==> #[trigger] x[k] != p[0],
    ensures
        find(x + y, p) == (match find(y, p) {
            Some(k) => Some(k + x.len()),
            None => None,
        }),
    decreases x.len(),
{
    if x.len() == 0 {
        assert(x + y =~= y);
    } else {
        let s = x + y;
        assert(s[0] == x[0]);
        assert(!matches_at(s, p, 0)) by {
            if matches_at(s, p, 0) {
                assert(s[0int + 0int] == p[0]);
            }
        }
        lemma_find_from_tail(s, p, 0);
        assert(s.drop_first() =~= x.drop_first() + y);
        lemma_find_after_plain(x.drop_first(), y, p);
    }
}

/// Where `y` does not begin with `p`, the first occurrence of `p` in `y` is the
/// first one in its tail, shifted.
proof fn lemma_find_past_start<A>(y: Seq<A>, p: Seq<A>)
    requires
        y.len() > 0,
        !matches_at(y, p, 0),
    ensures
        find(y, p) == (match find(y.drop_first(), p) {
            Some(k) => Some(k + 1),
            None => None,
        }),
{
    lemma_find_from_tail(y, p, 0);
}

/// The header of a response: status line and fields, without the blank line.
pub open spec fn response_head(status: Seq<char>, content_type: Seq<char>, body: Seq<char>) -> Seq<
    char,
> {
    "HTTP/1.1 "@ + status + "\r\nContent-Type: "@ + content_type + "\r\nContent-Length: "@
        + decimal(str_len(body) as nat) + "\r\nConnection: close"@
}

/// No carriage return or line feed occurs in `s`.
pub open spec fn single_line(s: Seq<char>) -> bool {
    forall|k: int| 0 <= k < s.len() ==> #[trigger] s[k] != '\r' && s[k] != '\n'
}

/// A response frames its body: when the status and content type are single
/// lines, the first blank line ends the header, what follows it is exactly the
/// body, and the `Content-Length` field's value parses back to the body's byte
/// length.
pub proof fn law_response_framing(status: Seq<char>, content_type: Seq<char>, body: Seq<char>)
    requires
        single_line(status),
        single_line(content_type),
    ensures
        http_response_text(status, content_type, body) == response_head(status, content_type, body)
            + "\r\n\r\n"@ + body,
        find(http_response_text(status, content_type, body), "\r\n\r\n"@) == Some(
            response_head(status, content_type, body).len() as int,
        ),
        request_body_of(http_response_text(status, content_type, body)) == body,
        parse_unsigned(trim(" "@ + decimal(str_len(body) as nat)), usize::MAX as nat) == Some(
            str_len(body) as nat,
        ),
{
    reveal_strlit("HTTP/1.1 ");
    reveal_strlit("\r\nContent-Type: ");
    reveal_strlit("\r\nContent-Length: ");
    reveal_strlit("\r\nConnection: close\r\n\r\n");
    reveal_strlit("\r\nConnection: close");
    reveal_strlit("\r\n\r\n");
    reveal_strlit(" ");
    reveal_strlit("\nContent-Type: ");
    reveal_strlit("\nContent-Length: ");
    reveal_strlit("\nConnection: close");
    let p = "\r\n\r\n"@;
    let n = str_len(body) as nat;
    let dec = decimal(n);
    crate::text::lemma_decimal_shape(n);
    crate::text::lemma_decimal_parses(n, usize::MAX as nat);
    let full = http_response_text(status, content_type, body);
    let head = response_head(status, content_type, body);
    assert(full =~= head + p + body);
    // Walk through the pieces of the header.
    let x1 = "HTTP/1.1 "@ + status;
    let y1 = "\r\nContent-Type: "@ + content_type + "\r\nContent-Length: "@ + dec
        + "\r\nConnection: close\r\n\r\n"@ + body;
    assert(full =~= x1 + y1);
    assert forall|k: int| 0 <= k < x1.len() implies #[trigger] x1[k] != p[0] by {
        if k >= 9 {
            assert(x1[k] == status[k - 9]);
        }
    }
    lemma_find_after_plain(x1, y1, p);
    assert(!matches_at(y1, p, 0)) by {
        assert(y1[2] == 'C');
        if matches_at(y1, p, 0) {
            assert(y1[0int + 2int] == p[2]);
        }
    }
    lemma_find_past_start(y1, p);
    let x2 = "\nContent-Type: "@ + content_type;
    let y2 = "\r\nContent-Length: "@ + dec + "\r\nConnection: close\r\n\r\n"@ + body;
    assert(y1.drop_first() =~= x2 + y2);
    assert forall|k: int| 0 <= k < x2.len() implies #[trigger] x2[k] != p[0] by {
        if k >= 15 {
            assert(x2[k] == content_type[k - 15]);
        }
    }
    lemma_find_after_plain(x2, y2, p);
    assert(!matches_at(y2, p, 0)) by {
        assert(y2[2] == 'C');
        if matches_at(y2, p, 0) {
            assert(y2[0int + 2int] == p[2]);
        }
    }
    lemma_find_past_start(y2, p);
    let x3 = "\nContent-Length: "@ + dec;
    let y3 = "\r\nConnection: close\r\n\r\n"@ + body;
    assert(y2.drop_first() =~= x3 + y3);
    assert forall|k: int| 0 <= k < x3.len() implies #[trigger] x3[k] != p[0] by {
        if k >= 17 {
            assert(x3[k] == dec[k - 17]);
            assert(crate::text::is_digit(dec[k - 17]));
        }
    }
    lemma_find_after_plain(x3, y3, p);
    assert(!matches_at(y3, p, 0)) by {
        assert(y3[2] == 'C');
        if matches_at(y3, p, 0) {
            assert(y3[0int + 2int] == p[2]);
        }
    }
    lemma_find_past_start(y3, p);
    let x4 = "\nConnection: close"@;
    let y4 = p + body;
    assert(y3.drop_first() =~= x4 + y4);
    lemma_find_after_plain(x4, y4, p);
    assert(matches_at(y4, p, 0));
    assert(find(y4, p) == Some(0int));
    assert(head.len() == x1.len() + 1 + x2.len() + 1 + x3.len() + 1 + x4.len());
    assert(full.skip(head.len() + 4int) =~= body);
    // The field value.
    let v = " "@ + dec;
    assert(spec_is_whitespace(v[0]));
    assert(v.drop_first() =~= dec);
    assert(trim_start(dec) == dec) by {
        assert(crate::text::is_digit(dec[0]));
    }
    assert(trim_start(v) == dec);
    assert(trim_end(dec) == dec) by {
        assert(crate::text::is_digit(dec.last()));
    }
}

/// UTF-8 encoding distributes over concatenation.
proof fn lemma_encode_concat(x: Seq<char>, y: Seq<char>)
    ensures
        encode_utf8(x + y) == encode_utf8(x) + encode_utf8(y),
    decreases x.len(),
{
    if x.len() == 0 {
        assert(x + y =~= y);
        assert(encode_utf8(x) =~= Seq::<u8>::empty());
        assert(encode_utf8(x) + encode_utf8(y) =~= encode_utf8(y));
    } else {
        assert((x + y)[0] == x[0]);
        assert((x + y).drop_first() =~= x.drop_first() + y);
        lemma_encode_concat(x.drop_first(), y);
        assert(encode_utf8(x + y) =~= encode_utf8(x) + encode_utf8(y));
    }
}

/// An ASCII character is encoded as its own byte.
proof fn lemma_encode_ascii(c: char)
    requires
        (c as u32) < 0x80,
    ensures
        encode_scalar(c as u32) == seq![(c as u32) as u8],
{
    let v = c as u32;
    assert(((v & 0x7F) as u8) == (v as u8)) by (bit_vector)
        requires
            v < 0x80,
    ;
}

/// No byte of a character's encoding is a carriage return unless the
/// character is one.
proof fn lemma_encode_scalar_no_cr(c: char)
    requires
        c != '\r',
    ensures
        forall|j: int| 0 <= j < encode_scalar(c as u32).len() ==> #[trigger] encode_scalar(c as u32)[j]
            != 13u8,
        encode_scalar(c as u32).len() >= 1,
{
    let v = c as u32;
    assert(v != 13);
    assert(v <= 0x7F ==> ((v & 0x7F) as u8) != 13u8) by (bit_vector)
        requires
            v != 13,
    ;
    assert(forall|x: u8| #![auto] (0x80u8 | x) != 13u8) by (bit_vector);
    assert(forall|x: u8| #![auto] (0xC0u8 | x) != 13u8) by (bit_vector);
    assert(forall|x: u8| #![auto] (0xE0u8 | x) != 13u8) by (bit_vector);
    assert(forall|x: u8| #![auto] (0xF0u8 | x) != 13u8) by (bit_vector);
}

/// The encoding of a text without carriage returns holds no byte 13, and has
/// at least as many bytes as the text has characters.
proof fn lemma_encode_no_cr(x: Seq<char>)
    requires
        forall|k: int| 0 <= k < x.len() ==> #[trigger] x[k] != '\r',
    ensures
        forall|j: int| 0 <= j < encode_utf8(x).len() ==> #[trigger] encode_utf8(x)[j] != 13u8,
        encode_utf8(x).len() >= x.len(),
    decreases x.len(),
{
    if x.len() > 0 {
        let t = x.drop_first();
        assert forall|k: int| 0 <= k < t.len() implies #[trigger] t[k] != '\r' by {
            assert(t[k] == x[k + 1]);
        }
        lemma_encode_no_cr(t);
        assert(x[0] != '\r');
        lemma_encode_scalar_no_cr(x[0]);
        let e = encode_scalar(x[0] as u32);
        assert(encode_utf8(x) == e + encode_utf8(t));
        assert forall|j: int| 0 <= j < encode_utf8(x).len() implies #[trigger] encode_utf8(x)[j]
            != 13u8 by {
            if j < e.len() {
                assert(encode_utf8(x)[j] == e[j]);
            } else {
                assert(encode_utf8(x)[j] == encode_utf8(t)[j - e.len()]);
            }
        }
    }
}

/// A text that starts with a carriage return followed by at least two
/// characters that are not: its encoding starts with byte 13, the rest is the
/// encoding of the rest, and it does not start with the blank-line bytes.
proof fn lemma_encode_cr_start(y: Seq<char>, x: Seq<char>, z: Seq<char>)
    requires
        y == seq!['\r'] + x + z,
        x.len() >= 2,
        forall|k: int| 0 <= k < x.len() ==> #[trigger] x[k] != '\r',
    ensures
        encode_utf8(y).len() > 0,
        encode_utf8(y).drop_first() == encode_utf8(x) + encode_utf8(z),
        !matches_at(encode_utf8(y), seq![13u8, 10u8, 13u8, 10u8], 0),
{
    lemma_encode_ascii('\r');
    assert(y[0] == '\r');
    assert(y.drop_first() =~= x + z);
    lemma_encode_concat(x, z);
    assert(encode_utf8(y) == seq![13u8] + encode_utf8(x + z));
    assert(encode_utf8(y).drop_first() =~= encode_utf8(x + z));
    lemma_encode_no_cr(x);
    let p = seq![13u8, 10u8, 13u8, 10u8];
    if matches_at(encode_utf8(y), p, 0) {
        assert(encode_utf8(y)[0int + 2int] == p[2]);
        assert(encode_utf8(y)[2] == encode_utf8(x)[1]);
    }
}

/// The blank line's bytes, then the body's.
proof fn lemma_encode_blank(body: Seq<char>)
    ensures
        encode_utf8("\r\n\r\n"@ + body) == seq![13u8, 10u8, 13u8, 10u8] + encode_utf8(body),
{
    reveal_strlit("\r\n\r\n");
    let blank = "\r\n\r\n"@;
    lemma_encode_ascii('\r');
    lemma_encode_ascii('\n');
    assert(blank =~= seq!['\r', '\n', '\r', '\n']);
    reveal_with_fuel(encode_utf8, 5);
    assert(encode_utf8(blank) =~= seq![13u8, 10u8, 13u8, 10u8]);
    lemma_encode_concat(blank, body);
}

/// A carriage return, then `x`, then `y`: the first blank line in the
/// encoding comes after `x`'s bytes and the first one in `y`'s.
proof fn lemma_find_cr_step(x: Seq<char>, y: Seq<char>, k: int)
    requires
        x.len() >= 2,
        forall|j: int| 0 <= j < x.len() ==> #[trigger] x[j] != '\r',
        find(encode_utf8(y), seq![13u8, 10u8, 13u8, 10u8]) == Some(k),
    ensures
        find(encode_utf8(seq!['\r'] + x + y), seq![13u8, 10u8, 13u8, 10u8]) == Some(
            1 + encode_utf8(x).len() + k,
        ),
{
    let p = seq![13u8, 10u8, 13u8, 10u8];
    let w = seq!['\r'] + x + y;
    lemma_encode_cr_start(w, x, y);
    lemma_find_past_start(encode_utf8(w), p);
    lemma_encode_no_cr(x);
    lemma_find_after_plain(encode_utf8(x), encode_utf8(y), p);
}

/// The header's pieces around its line breaks.
pub open spec fn crlf_joined(x1: Seq<char>, x2: Seq<char>, x3: Seq<char>, x4: Seq<char>) -> Seq<char> {
    x1 + (seq!['\r'] + x2) + (seq!['\r'] + x3) + (seq!['\r'] + x4)
}

proof fn lemma_encode_joined_len(x1: Seq<char>, x2: Seq<char>, x3: Seq<char>, x4: Seq<char>)
    ensures
        encode_utf8(crlf_joined(x1, x2, x3, x4)).len() == encode_utf8(x1).len() + 1
            + encode_utf8(x2).len() + 1 + encode_utf8(x3).len() + 1 + encode_utf8(x4).len(),
{
    lemma_encode_ascii('\r');
    let cr = seq!['\r'];
    assert(cr[0] == '\r');
    assert(cr.drop_first() =~= Seq::<char>::empty());
    assert(encode_utf8(Seq::<char>::empty()) =~= Seq::<u8>::empty());
    assert(encode_utf8(cr) == encode_scalar(cr[0] as u32) + encode_utf8(cr.drop_first()));
    assert(encode_utf8(cr) =~= seq![13u8]);
    lemma_encode_concat(seq!['\r'], x2);
    lemma_encode_concat(seq!['\r'], x3);
    lemma_encode_concat(seq!['\r'], x4);
    lemma_encode_concat(x1, seq!['\r'] + x2);
    lemma_encode_concat(x1 + (seq!['\r'] + x2), seq!['\r'] + x3);
    lemma_encode_concat(x1 + (seq!['\r'] + x2) + (seq!['\r'] + x3), seq!['\r'] + x4);
}

/// Framing over bytes for a header made of four single-line pieces.
proof fn lemma_framing_pieces(x1: Seq<char>, x2: Seq<char>, x3: Seq<char>, x4: Seq<char>, body: Seq<char>)
    requires
        x2.len() >= 2,
        x3.len() >= 2,
        x4.len() >= 2,
        forall|j: int| 0 <= j < x1.len() ==> #[trigger] x1[j] != '\r',
        forall|j: int| 0 <= j < x2.len() ==> #[trigger] x2[j] != '\r',
        forall|j: int| 0 <= j < x3.len() ==> #[trigger] x3[j] != '\r',
        forall|j: int| 0 <= j < x4.len() ==> #[trigger] x4[j] != '\r',
    ensures
        ({
            let h = crlf_joined(x1, x2, x3, x4);
            let bytes = encode_utf8(h + "\r\n\r\n"@ + body);
            &&& find(bytes, seq![13u8, 10u8, 13u8, 10u8]) == Some(encode_utf8(h).len() as int)
            &&& bytes.take(encode_utf8(h).len() as int) == encode_utf8(h)
            &&& bytes.skip(encode_utf8(h).len() + 4int) == encode_utf8(body)
        }),
{
    let p = seq![13u8, 10u8, 13u8, 10u8];
    let y4 = "\r\n\r\n"@ + body;
    lemma_encode_blank(body);
    assert(matches_at(encode_utf8(y4), p, 0));
    assert(find(encode_utf8(y4), p) == Some(0int));
    lemma_find_cr_step(x4, y4, 0);
    let y3 = seq!['\r'] + x4 + y4;
    lemma_find_cr_step(x3, y3, 1 + encode_utf8(x4).len() as int);
    let y2 = seq!['\r'] + x3 + y3;
    lemma_find_cr_step(x2, y2, 1 + encode_utf8(x3).len() as int + 1 + encode_utf8(x4).len() as int);
    let y1 = seq!['\r'] + x2 + y2;
    lemma_encode_no_cr(x1);
    lemma_find_after_plain(encode_utf8(x1), encode_utf8(y1), p);
    lemma_encode_concat(x1, y1);
    let h = crlf_joined(x1, x2, x3, x4);
    let full = h + y4;
    assert(full =~= x1 + y1);
    assert(h + "\r\n\r\n"@ + body =~= full);
    lemma_encode_joined_len(x1, x2, x3, x4);
    lemma_encode_concat(h, y4);
    assert(encode_utf8(full).take(encode_utf8(h).len() as int) =~= encode_utf8(h));
    assert(encode_utf8(full).skip(encode_utf8(h).len() + 4int) =~= encode_utf8(body));
}

/// A response frames its body over bytes as well: the first blank line of
/// its UTF-8 encoding (what `find_header_end` looks for) ends the header,
/// the bytes before it encode the header, and the bytes after it are exactly the
/// body's encoding.
pub proof fn law_response_framing_bytes(status: Seq<char>, content_type: Seq<char>, body: Seq<char>)
    requires
        single_line(status),
        single_line(content_type),
    ensures
        ({
            let bytes = encode_utf8(http_response_text(status, content_type, body));
            let head = encode_utf8(response_head(status, content_type, body));
            &&& find(bytes, seq![13u8, 10u8, 13u8, 10u8]) == Some(head.len() as int)
            &&& bytes.take(head.len() as int) == head
            &&& bytes.skip(head.len() + 4int) == encode_utf8(body)
        }),
{
    reveal_strlit("HTTP/1.1 ");
    reveal_strlit("\r\nContent-Type: ");
    reveal_strlit("\r\nContent-Length: ");
    reveal_strlit("\r\nConnection: close\r\n\r\n");
    reveal_strlit("\r\nConnection: close");
    reveal_strlit("\r\n\r\n");
    reveal_strlit("\nContent-Type: ");
    reveal_strlit("\nContent-Length: ");
    reveal_strlit("\nConnection: close");
    let n = str_len(body) as nat;
    let dec = decimal(n);
    crate::text::lemma_decimal_shape(n);
    let x1 = "HTTP/1.1 "@ + status;
    let x2 = "\nContent-Type: "@ + content_type;
    let x3 = "\nContent-Length: "@ + dec;
    let x4 = "\nConnection: close"@;
    assert(response_head(status, content_type, body) =~= crlf_joined(x1, x2, x3, x4));
    assert(http_response_text(status, content_type, body) =~= crlf_joined(x1, x2, x3, x4)
        + "\r\n\r\n"@ + body);
    assert forall|k: int| 0 <= k < x1.len() implies #[trigger] x1[k] != '\r' by {
        if k >= 9 {
            assert(x1[k] == status[k - 9]);
        }
    }
    assert forall|k: int| 0 <= k < x2.len() implies #[trigger] x2[k] != '\r' by {
        if k >= 15 {
            assert(x2[k] == content_type[k - 15]);
        }
    }
    assert forall|k: int| 0 <= k < x3.len() implies #[trigger] x3[k] != '\r' by {
        if k >= 17 {
            assert(x3[k] == dec[k - 17]);
            assert(crate::text::is_digit(dec[k - 17]));
        }
    }
    assert forall|k: int| 0 <= k < x4.len() implies #[trigger] x4[k] != '\r' by {}
    lemma_framing_pieces(x1, x2, x3, x4, body);
}

/// GENA requests are routed by method and path prefix: every SUBSCRIBE whose
/// path lies under `/upnp/event/` goes to the subscription handler, and every
/// UNSUBSCRIBE under it to the unsubscription handler, whichever service the
/// path names (so each `eventSubURL` of the device description is served).
pub proof fn law_event_routes(request: Seq<char>)
    ensures
        ({
            let line = first_line(request);
            let method = token_or(line, 0, Seq::empty());
            let path = token_or(line, 1, Seq::empty());
            &&& method == "SUBSCRIBE"@ && starts_with(path, "/upnp/event/"@) ==> route_of(request)
                == DlnaRoute::Subscribe
            &&& method == "UNSUBSCRIBE"@ && starts_with(path, "/upnp/event/"@) ==> route_of(request)
                == DlnaRoute::Unsubscribe
        }),
{
    reveal_strlit("SUBSCRIBE");
    reveal_strlit("UNSUBSCRIBE");
    reveal_strlit("GET");
    reveal_strlit("POST");
    reveal_strlit("/icon.png");
    reveal_strlit("/upnp/event/");
    let line = first_line(request);
    let method = token_or(line, 0, Seq::empty());
    let path = token_or(line, 1, Seq::empty());
    if request.len() == 0 {
        assert(lines(request) =~= Seq::<Seq<char>>::empty());
        assert(line =~= Seq::<char>::empty());
        assert(tokens(line) =~= Seq::<Seq<char>>::empty());
        assert(method =~= Seq::<char>::empty());
    }
    if starts_with(path, "/upnp/event/"@) {
        assert(path[0int + 1int] == 'u');
        assert(path != "/icon.png"@) by {
            assert("/icon.png"@[1] == 'i');
        }
    }
    assert("SUBSCRIBE"@ != "GET"@) by {
        assert("SUBSCRIBE"@.len() != "GET"@.len());
    }
    assert("SUBSCRIBE"@ != "POST"@) by {
        assert("SUBSCRIBE"@.len() != "POST"@.len());
    }
    assert("UNSUBSCRIBE"@ != "GET"@) by {
        assert("UNSUBSCRIBE"@.len() != "GET"@.len());
    }
    assert("UNSUBSCRIBE"@ != "POST"@) by {
        assert("UNSUBSCRIBE"@.len() != "POST"@.len());
    }
    assert("UNSUBSCRIBE"@ != "SUBSCRIBE"@) by {
        assert("UNSUBSCRIBE"@.len() != "SUBSCRIBE"@.len());
    }
}

} // verus!
