//! The remote-play web service: a page a phone on the LAN opens to send a
//! network video URL to the desktop player.
use vstd::prelude::*;
use crate::text::{
    chars_of, decimal, eq_str, first_line, nth_or, push_decimal, starts_with, starts_with_str,
    string_of, token_or,
};
use crate::dlna_renderer::http::{http_response_text, request_body, request_body_of, request_line_tokens};

verus! {

/// Where the remote-play service listens, and the address shown to the user.
pub struct RemoteInfo {
    pub ip: String,
    pub port: u16,
    pub url: String,
}

impl RemoteInfo {
    /// The info as `(ip, port, url)`.
    pub open spec fn model(&self) -> (Seq<char>, u16, Seq<char>) {
        (self.ip@, self.port, self.url@)
    }

    /// A copy of the info.
    pub fn duplicate(&self) -> (r: Self)
        ensures
            r.model() == self.model(),
    {
        RemoteInfo { ip: self.ip.clone(), port: self.port, url: self.url.clone() }
    }
}

/// The address of the service: `http://{ip}:{port}/`.
pub open spec fn service_url_of(ip: Seq<char>, port: u16) -> Seq<char> {
    "http://"@ + ip + ":"@ + decimal(port as nat) + "/"@
}

/// The LAN address shown as a link and QR code.
pub fn service_url(ip: &str, port: u16) -> (r: String)
    ensures
        r@ == service_url_of(ip@, port),
{
    let mut s = String::new();
    s.append("http://");
    s.append(ip);
    s.append(":");
    push_decimal(&mut s, port as u64);
    s.append("/");
    s
}

/// A complete HTTP response with `Connection: close` (the same format the
/// renderer uses).
pub fn http_response(status: &str, content_type: &str, body: &str) -> (r: String)
    ensures
        r@ == http_response_text(status@, content_type@, body@),
{
    crate::dlna_renderer::http::http_response(status, content_type, body)
}

/// The control page up to the service address in its footer.
pub const CONTROL_PAGE_HEAD: &'static str = "<!DOCTYPE html>\n<html lang=\"zh\">\n<head>\n<meta charset=\"utf-8\">\n<meta name=\"viewport\" content=\"width=device-width, initial-scale=1\">\n<title>投屏助手 · 网络视频播放</title>\n<style>\nbody{font-family:-apple-system,'Segoe UI',sans-serif;background:#0f1117;color:#eaeaea;margin:0;padding:24px;display:flex;flex-direction:column;min-height:100vh;box-sizing:border-box}\nh2{margin:0 0 6px;font-size:22px;color:#818cf8}\np.desc{margin:0 0 20px;color:#a0a0b0;font-size:14px}\ninput{width:100%;box-sizing:border-box;padding:14px;border-radius:10px;border:1px solid #3a3f4d;background:#1a1d27;color:#eaeaea;font-size:16px;outline:none}\ninput:focus{border-color:#6366f1}\nbutton{margin-top:14px;width:100%;padding:14px;border:none;border-radius:10px;background:#6366f1;color:#fff;font-size:16px;cursor:pointer}\nbutton:active{opacity:.85}\n#s{margin-top:14px;font-size:14px;min-height:20px;color:#a0a0b0;word-break:break-all}\n.foot{margin-top:auto;padding-top:20px;font-size:12px;color:#6b7280;text-align:center}\n</style>\n</head>\n<body>\n<h2>投屏助手</h2>\n<p class=\"desc\">输入网络视频 URL（http/https），点击播放后电脑端自动播放</p>\n<input id=\"u\" type=\"url\" placeholder=\"https://example.com/video.mp4\" autocomplete=\"off\">\n<button id=\"b\">播 放</button>\n<div id=\"s\"></div>\n<div class=\"foot\">服务地址：";

/// The control page after the service address.
pub const CONTROL_PAGE_TAIL: &'static str = "</div>\n<script>\nfunction go() {\n  var u = document.getElementById('u').value.trim();\n  var s = document.getElementById('s');\n  if (!u) { s.textContent = '请输入 URL'; return; }\n  if (!/^https?:\\/\\//i.test(u)) { s.textContent = 'URL 需以 http:// 或 https:// 开头'; return; }\n  s.textContent = '发送中…';\n  fetch('/play', {\n    method: 'POST',\n    headers: {'Content-Type': 'application/json'},\n    body: JSON.stringify({url: u})\n  }).then(function(r) { return r.json(); }).then(function(j) {\n    s.textContent = j.ok ? '已发送，电脑端开始播放' : ('发送失败：' + (j.error || ''));\n  }).catch(function(e) { s.textContent = '发送失败：' + e; });\n}\ndocument.getElementById('b').onclick = go;\ndocument.getElementById('u').addEventListener('keydown', function(e) { if (e.key === 'Enter') go(); });\n</script>\n</body>\n</html>";

/// The phone-side control page, showing the service address.
pub open spec fn control_page_of(ip: Seq<char>, port: u16) -> Seq<char> {
    CONTROL_PAGE_HEAD@ + service_url_of(ip, port) + CONTROL_PAGE_TAIL@
}

/// The phone-side control page (HTML).
pub fn control_page(ip: &str, port: u16) -> (r: String)
    ensures
        r@ == control_page_of(ip@, port),
{
    let mut s = String::new();
    s.append(CONTROL_PAGE_HEAD);
    s.append(service_url(ip, port).as_str());
    s.append(CONTROL_PAGE_TAIL);
    s
}

// ---------------------------------------------------------------------------
// Service state.
// ---------------------------------------------------------------------------

/// The service's state: `None` until it has started.
pub struct RemoteState(pub Option<RemoteInfo>);

/// What starting the service does in a state: reuse the running service's
/// info, or bind a new listener.
pub open spec fn start_reuse_of(m: Option<(Seq<char>, u16, Seq<char>)>) -> Option<
    (Seq<char>, u16, Seq<char>),
> {
    m
}

/// The info recorded once the listener is bound on `port` and `ip` is the
/// LAN address.
pub open spec fn started_info(ip: Seq<char>, port: u16) -> (Seq<char>, u16, Seq<char>) {
    (ip, port, service_url_of(ip, port))
}

impl RemoteState {
    /// The recorded info, if the service runs.
    pub open spec fn model(&self) -> Option<(Seq<char>, u16, Seq<char>)> {
        match self.0 {
            Some(i) => Some(i.model()),
            None => None,
        }
    }

    /// Not started.
    pub fn new() -> (r: Self)
        ensures
            r.model() is None,
    {
        RemoteState(None)
    }

    /// The running service's info, which starting again hands back
    /// unchanged; `None` when a listener must be bound first.
    pub fn reuse(&self) -> (r: Option<RemoteInfo>)
        ensures
            match r {
                Some(i) => start_reuse_of(self.model()) == Some(i.model()),
                None => start_reuse_of(self.model()) is None,
            },
    {
        match &self.0 {
            Some(i) => Some(i.duplicate()),
            None => None,
        }
    }

    /// Records the service as started on `port`, announced at `ip`, and
    /// returns its info.
    pub fn record(&mut self, ip: String, port: u16) -> (r: RemoteInfo)
        ensures
            r.model() == started_info(ip@, port),
            final(self).model() == Some(started_info(ip@, port)),
    {
        let url = service_url(ip.as_str(), port);
        let info = RemoteInfo { ip: ip.clone(), port, url: url.clone() };
        self.0 = Some(RemoteInfo { ip, port, url });
        info
    }

    /// The address the control page shows: the recorded one, else
    /// `127.0.0.1` and port 0.
    pub fn page_address(&self) -> (r: (String, u16))
        ensures
            (r.0@, r.1) == page_address_of(self.model()),
    {
        match &self.0 {
            Some(i) => (i.ip.clone(), i.port),
            None => (String::from_str("127.0.0.1"), 0),
        }
    }
}

/// The address the control page shows for a service state.
pub open spec fn page_address_of(m: Option<(Seq<char>, u16, Seq<char>)>) -> (Seq<char>, u16) {
    match m {
        Some(i) => (i.0, i.1),
        None => ("127.0.0.1"@, 0),
    }
}

/// Once started, starting again reuses the same service: the info handed back
/// is the one recorded.
pub proof fn law_start_reuses(ip: Seq<char>, port: u16)
    ensures
        start_reuse_of(Some(started_info(ip, port))) == Some(started_info(ip, port)),
        start_reuse_of(Some(started_info(ip, port))).unwrap().2 == service_url_of(ip, port),
        page_address_of(Some(started_info(ip, port))) == (ip, port),
{
}

// ---------------------------------------------------------------------------
// Requests.
// ---------------------------------------------------------------------------

/// The routes of the remote-play service.
#[derive(Clone, Copy, PartialEq, Eq, Structural, Debug)]
pub enum RemoteRoute {
    /// `GET /`: the control page.
    Page,
    /// `POST /play`: a URL to play.
    Play,
    NotFound,
}

/// Where a request goes: method and path from the request line (a missing
/// path counts as `/`).
pub open spec fn remote_route_of(request: Seq<char>) -> RemoteRoute {
    let line = first_line(request);
    let method = token_or(line, 0, Seq::empty());
    let path = token_or(line, 1, "/"@);
    if method == "GET"@ && path == "/"@ {
        RemoteRoute::Page
    } else if method == "POST"@ && path == "/play"@ {
        RemoteRoute::Play
    } else {
        RemoteRoute::NotFound
    }
}

/// Routes a request.
pub fn remote_route(request: &str) -> (r: RemoteRoute)
    ensures
        r == remote_route_of(request@),
{
    let req = chars_of(request);
    let toks = request_line_tokens(&req);
    let method = nth_or(&toks, 0, "");
    let path = nth_or(&toks, 1, "/");
    proof {
        reveal_strlit("");
        let line = first_line(request@);
        assert(method@ == token_or(line, 0, Seq::empty()));
        assert(path@ == token_or(line, 1, "/"@));
    }
    if eq_str(&method, "GET") && eq_str(&path, "/") {
        RemoteRoute::Page
    } else if eq_str(&method, "POST") && eq_str(&path, "/play") {
        RemoteRoute::Play
    } else {
        RemoteRoute::NotFound
    }
}

/// What `serde_json` finds as the string field `url` of a JSON text: parsed
/// as a `serde_json::Value`, then `get("url")` and `as_str()`; `None` when the
/// text is not JSON or has no such string field.
pub uninterp spec fn spec_json_url(body: Seq<char>) -> Option<Seq<char>>;

/// Parses `body` with `serde_json::from_str::<serde_json::Value>` and reads its
/// `url` string field; the contract only names the result.
#[verifier::external_body]
fn json_url(body: &str) -> (r: Option<String>)
    ensures
        match r {
            Some(u) => spec_json_url(body@) == Some(u@),
            None => spec_json_url(body@) is None,
        },
{
    match serde_json::from_str::<serde_json::Value>(body) {
        Ok(v) => match v.get("url") {
            Some(u) => match u.as_str() {
                Some(s) => Some(s.to_string()),
                None => None,
            },
            None => None,
        },
        Err(_) => None,
    }
}

/// The body of the refusal of a URL that is not `http(s)`.
pub const PLAY_REFUSED_JSON: &'static str = "{\"ok\":false,\"error\":\"URL 需以 http:// 或 https:// 开头\"}";

/// The body of an accepted play request.
pub const PLAY_ACCEPTED_JSON: &'static str = "{\"ok\":true}";

/// A URL the service accepts: non-empty, starting with `http://` or
/// `https://`.
pub open spec fn playable_url(url: Seq<char>) -> bool {
    url.len() > 0 && (starts_with(url, "http://"@) || starts_with(url, "https://"@))
}

/// The service's answer to a request, and the URL to hand to the player.
pub struct RemoteReply {
    pub response: String,
    pub play: Option<String>,
}

impl RemoteReply {
    /// The reply as `(response, URL to play)`.
    pub open spec fn model(&self) -> (Seq<char>, Option<Seq<char>>) {
        (
            self.response@,
            match self.play {
                Some(u) => Some(u@),
                None => None,
            },
        )
    }
}

/// The answer to a play request carrying `url` (empty when none was found).
pub open spec fn play_reply_of(url: Seq<char>) -> (Seq<char>, Option<Seq<char>>) {
    if playable_url(url) {
        (http_response_text("200 OK"@, "application/json"@, PLAY_ACCEPTED_JSON@), Some(url))
    } else {
        (http_response_text("400 Bad Request"@, "application/json"@, PLAY_REFUSED_JSON@), None)
    }
}

/// Answers a play request whose JSON body held `url`: accepted and handed to
/// the player when it is an `http(s)` URL, refused with 400 otherwise.
pub fn play_reply(url: &str) -> (r: RemoteReply)
    ensures
        r.model() == play_reply_of(url@),
{
    let u = chars_of(url);
    if u.len() > 0 && (starts_with_str(&u, "http://") || starts_with_str(&u, "https://")) {
        RemoteReply {
            response: http_response("200 OK", "application/json", PLAY_ACCEPTED_JSON),
            play: Some(string_of(&u)),
        }
    } else {
        RemoteReply {
            response: http_response("400 Bad Request", "application/json", PLAY_REFUSED_JSON),
            play: None,
        }
    }
}

/// The URL a play request carries: the JSON body's `url` string, or empty.
pub open spec fn play_url_of(request: Seq<char>) -> Seq<char> {
    match spec_json_url(request_body_of(request)) {
        Some(u) => u,
        None => Seq::empty(),
    }
}

/// The answer to a request, given the service's state.
pub open spec fn remote_reply_of(request: Seq<char>, m: Option<(Seq<char>, u16, Seq<char>)>) -> (
    Seq<char>,
    Option<Seq<char>>,
) {
    match remote_route_of(request) {
        RemoteRoute::Page => (
            http_response_text(
                "200 OK"@,
                "text/html; charset=\"utf-8\""@,
                control_page_of(page_address_of(m).0, page_address_of(m).1),
            ),
            None,
        ),
        RemoteRoute::Play => play_reply_of(play_url_of(request)),
        RemoteRoute::NotFound => (
            http_response_text("404 Not Found"@, "text/plain"@, "404 Not Found"@),
            None,
        ),
    }
}

/// Answers one request read from a connection.
pub fn handle_request(request: &str, state: &RemoteState) -> (r: RemoteReply)
    ensures
        r.model() == remote_reply_of(request@, state.model()),
{
    match remote_route(request) {
        RemoteRoute::Page => {
            let (ip, port) = state.page_address();
            let page = control_page(ip.as_str(), port);
            RemoteReply {
                response: http_response("200 OK", "text/html; charset=\"utf-8\"", page.as_str()),
                play: None,
            }
        },
        RemoteRoute::Play => {
            let body = request_body(request);
            let url = match json_url(body.as_str()) {
                Some(u) => u,
                None => String::new(),
            };
            play_reply(url.as_str())
        },
        RemoteRoute::NotFound => RemoteReply {
            response: http_response("404 Not Found", "text/plain", "404 Not Found"),
            play: None,
        },
    }
}

} // verus!
