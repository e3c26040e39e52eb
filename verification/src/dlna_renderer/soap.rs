//! SOAP control messages: reading the action and its parameters from a request
//! body, and the response and fault envelopes.
use vstd::prelude::*;
use crate::text::{
    chars_of, find, find_chars, find_str, lemma_find_from, opt_int, push_pad2, pad2,
    skip_chars, slice_chars, spec_is_alphanumeric, is_alphanumeric, string_of, trim, trim_chars,
    eq_str, eq_ignore_ascii_case, eq_ignore_ascii_case_str,
};
use super::http::{http_response, http_response_text};
use super::xml::{xml_escape, xml_escaped, xml_unescape, xml_unescaped};

verus! {

/// The AVTransport service type.
pub const SERVICE_AVT: &'static str = "urn:schemas-upnp-org:service:AVTransport:1";

/// The RenderingControl service type.
pub const SERVICE_RC: &'static str = "urn:schemas-upnp-org:service:RenderingControl:1";

/// The ConnectionManager service type.
pub const SERVICE_CM: &'static str = "urn:schemas-upnp-org:service:ConnectionManager:1";

// ---------------------------------------------------------------------------
// Reading the action.
// ---------------------------------------------------------------------------

/// A character that ends an element name after its prefix.
pub open spec fn is_name_end(c: char) -> bool {
    c == ' ' || c == '>' || c == ':' || c == '/'
}

/// The first index `>= i` holding a name-ending character.
pub open spec fn name_end_from(s: Seq<char>, i: int) -> Option<int>
    decreases s.len() - i,
{
    if i < 0 || i >= s.len() {
        None
    } else if is_name_end(s[i]) {
        Some(i)
    } else {
        name_end_from(s, i + 1)
    }
}

/// Every character is alphanumeric (`char::is_alphanumeric`).
pub open spec fn all_alphanumeric(s: Seq<char>) -> bool {
    forall|i: int| 0 <= i < s.len() ==> #[trigger] spec_is_alphanumeric(s[i])
}

/// The action name found after the first occurrence of `prefix`, if that name is
/// non-empty and alphanumeric. The name runs to the first ` `, `>`, `:` or `/`;
/// with none of them it is empty.
pub open spec fn action_after(body: Seq<char>, prefix: Seq<char>) -> Option<Seq<char>> {
    match find(body, prefix) {
        None => None,
        Some(idx) => {
            let rest = body.skip(idx + prefix.len());
            let end = match name_end_from(rest, 0) {
                Some(e) => e,
                None => 0,
            };
            let name = rest.take(end);
            if name.len() > 0 && all_alphanumeric(name) {
                Some(name)
            } else {
                None
            }
        },
    }
}

/// The SOAP action of a request body: tried after `<u:`, then `<`, then `<ns0:`;
/// empty when none gives a name.
pub open spec fn action_name(body: Seq<char>) -> Seq<char> {
    match action_after(body, "<u:"@) {
        Some(n) => n,
        None => match action_after(body, "<"@) {
            Some(n) => n,
            None => match action_after(body, "<ns0:"@) {
                Some(n) => n,
                None => Seq::empty(),
            },
        },
    }
}

fn name_end_index(s: &Vec<char>) -> (r: Option<usize>)
    ensures
        opt_int(r) == name_end_from(s@, 0),
{
    let mut i: usize = 0;
    while i < s.len()
        invariant
            i <= s.len(),
            name_end_from(s@, 0) == name_end_from(s@, i as int),
        decreases s.len() - i,
    {
        let c = s[i];
        if c == ' ' || c == '>' || c == ':' || c == '/' {
            return Some(i);
        }
        i = i + 1;
    }
    None
}

fn all_alphanumeric_chars(s: &Vec<char>) -> (r: bool)
    ensures
        r == all_alphanumeric(s@),
{
    let mut i: usize = 0;
    while i < s.len()
        invariant
            i <= s.len(),
            forall|k: int| 0 <= k < i ==> #[trigger] spec_is_alphanumeric(s@[k]),
        decreases s.len() - i,
    {
        if !is_alphanumeric(s[i]) {
            return false;
        }
        i = i + 1;
    }
    true
}

fn action_after_chars(body: &Vec<char>, prefix: &str) -> (r: Option<Vec<char>>)
    ensures
        match r {
            Some(n) => action_after(body@, prefix@) == Some(n@),
            None => action_after(body@, prefix@) is None,
        },
{
    match find_str(body, prefix, 0) {
        None => None,
        Some(idx) => {
            proof {
                lemma_find_from(body@, prefix@, 0);
            }
            let pv = chars_of(prefix);
            assert(idx + pv@.len() <= body@.len());
            assert(pv.len() == pv@.len());
            assert(body.len() == body@.len());
            assert(idx as int + pv.len() as int <= body.len() as int);
            let rest = skip_chars(body, idx + pv.len());
            let end = match name_end_index(&rest) {
                Some(e) => e,
                None => 0,
            };
            proof {
                if end > 0 {
                    lemma_name_end_bound(rest@, 0);
                }
            }
            let name = slice_chars(&rest, 0, end);
            if name.len() > 0 && all_alphanumeric_chars(&name) {
                Some(name)
            } else {
                None
            }
        },
    }
}

proof fn lemma_name_end_bound(s: Seq<char>, i: int)
    requires
        0 <= i,
    ensures
        name_end_from(s, i) matches Some(e) ==> i <= e < s.len(),
    decreases s.len() - i,
{
    if i < s.len() && !is_name_end(s[i]) {
        lemma_name_end_bound(s, i + 1);
    }
}

fn action_chars(body: &Vec<char>) -> (r: Vec<char>)
    ensures
        r@ == action_name(body@),
{
    match action_after_chars(body, "<u:") {
        Some(n) => n,
        None => match action_after_chars(body, "<") {
            Some(n) => n,
            None => match action_after_chars(body, "<ns0:") {
                Some(n) => n,
                None => Vec::new(),
            },
        },
    }
}

/// The SOAP action named in a request body (e.g. `Play` in `<u:Play ...>`).
pub fn extract_action(body: &str) -> (r: String)
    ensures
        r@ == action_name(body@),
{
    let b = chars_of(body);
    let a = action_chars(&b);
    string_of(&a)
}

// ---------------------------------------------------------------------------
// Reading a parameter.
// ---------------------------------------------------------------------------

/// The trimmed, non-empty content of element `name`, looked up through one form
/// of opening tag: `<name>` or, with attributes, `<name ` up to its `>`.
pub open spec fn param_candidate(body: Seq<char>, name: Seq<char>, with_attrs: bool) -> Option<
    Seq<char>,
> {
    let close = "</"@ + name + ">"@;
    let open = if with_attrs {
        "<"@ + name + " "@
    } else {
        "<"@ + name + ">"@
    };
    match find(body, open) {
        None => None,
        Some(s) => {
            let content_start = if with_attrs {
                match find(body.skip(s), ">"@) {
                    Some(gt) => Some(s + gt + 1),
                    None => None,
                }
            } else {
                Some(s + open.len())
            };
            match content_start {
                None => None,
                Some(c) => match find(body.skip(c), close) {
                    None => None,
                    Some(e) => {
                        let v = trim(body.subrange(c, c + e));
                        if v.len() > 0 {
                            Some(v)
                        } else {
                            None
                        }
                    },
                },
            }
        },
    }
}

/// The value of parameter `name` in a SOAP body: through `<name>` first, then
/// through `<name ...>`.
pub open spec fn param_value(body: Seq<char>, name: Seq<char>) -> Option<Seq<char>> {
    match param_candidate(body, name, false) {
        Some(v) => Some(v),
        None => param_candidate(body, name, true),
    }
}

fn concat3(a: &str, b: &Vec<char>, c: &str) -> (r: Vec<char>)
    ensures
        r@ == a@ + b@ + c@,
{
    let mut r = chars_of(a);
    let mut i: usize = 0;
    let ghost r0 = r@;
    while i < b.len()
        invariant
            i <= b.len(),
            r@ == r0 + b@.take(i as int),
        decreases b.len() - i,
    {
        r.push(b[i]);
        proof {
            assert(b@.take(i + 1) =~= b@.take(i as int).push(b@[i as int]));
        }
        i = i + 1;
    }
    let cv = chars_of(c);
    let mut j: usize = 0;
    let ghost r1 = r@;
    while j < cv.len()
        invariant
            j <= cv.len(),
            r@ == r1 + cv@.take(j as int),
        decreases cv.len() - j,
    {
        r.push(cv[j]);
        proof {
            assert(cv@.take(j + 1) =~= cv@.take(j as int).push(cv@[j as int]));
        }
        j = j + 1;
    }
    proof {
        assert(b@.take(b.len() as int) =~= b@);
        assert(cv@.take(cv.len() as int) =~= cv@);
        assert(r@ =~= a@ + b@ + c@);
    }
    r
}

fn param_candidate_chars(body: &Vec<char>, name: &Vec<char>, with_attrs: bool) -> (r: Option<
    Vec<char>,
>)
    ensures
        match r {
            Some(v) => param_candidate(body@, name@, with_attrs) == Some(v@),
            None => param_candidate(body@, name@, with_attrs) is None,
        },
{
    let close = concat3("</", name, ">");
    let open = if with_attrs {
        concat3("<", name, " ")
    } else {
        concat3("<", name, ">")
    };
    let s = match find_chars(body, &open, 0) {
        None => {
            return None;
        },
        Some(s) => s,
    };
    proof {
        lemma_find_from(body@, open@, 0);
    }
    let content_start = if with_attrs {
        let from_s = skip_chars(body, s);
        match find_str(&from_s, ">", 0) {
            Some(gt) => {
                proof {
                    reveal_strlit(">");
                    lemma_find_from(from_s@, ">"@, 0);
                    assert(gt + 1 <= from_s@.len());
                    assert(s <= body@.len());
                    assert(from_s.len() == from_s@.len());
                    assert(body.len() == body@.len());
                    assert(from_s@.len() == body@.len() - s);
                }
                s + gt + 1
            },
            None => {
                return None;
            },
        }
    } else {
        assert(s + open@.len() <= body@.len());
        assert(open.len() == open@.len());
        assert(body.len() == body@.len());
        s + open.len()
    };
    let tail = skip_chars(body, content_start);
    match find_chars(&tail, &close, 0) {
        None => None,
        Some(e) => {
            proof {
                lemma_find_from(tail@, close@, 0);
                assert(tail@.take(e as int) =~= body@.subrange(
                    content_start as int,
                    content_start + e,
                ));
            }
            let raw = slice_chars(&tail, 0, e);
            let v = trim_chars(&raw);
            if v.len() > 0 {
                Some(v)
            } else {
                None
            }
        },
    }
}

fn param_chars(body: &Vec<char>, name: &str) -> (r: Option<Vec<char>>)
    ensures
        match r {
            Some(v) => param_value(body@, name@) == Some(v@),
            None => param_value(body@, name@) is None,
        },
{
    let nv = chars_of(name);
    match param_candidate_chars(body, &nv, false) {
        Some(v) => Some(v),
        None => param_candidate_chars(body, &nv, true),
    }
}

/// The value of element `name` in a SOAP body, e.g. `CurrentURI`.
pub fn extract_param(body: &str, name: &str) -> (r: Option<String>)
    ensures
        match r {
            Some(v) => param_value(body@, name@) == Some(v@),
            None => param_value(body@, name@) is None,
        },
{
    let b = chars_of(body);
    match param_chars(&b, name) {
        Some(v) => Some(string_of(&v)),
        None => None,
    }
}

// ---------------------------------------------------------------------------
// Envelopes.
// ---------------------------------------------------------------------------

/// The SOAP envelope of a successful `{action}Response` of `service`.
pub open spec fn soap_body(action: Seq<char>, service: Seq<char>, inner: Seq<char>) -> Seq<char> {
    "<?xml version=\"1.0\" encoding=\"utf-8\"?>\n<s:Envelope xmlns:s=\"http://schemas.xmlsoap.org/soap/envelope/\" s:encodingStyle=\"http://schemas.xmlsoap.org/soap/encoding/\">\n<s:Body><u:"@
        + action + "Response xmlns:u=\""@ + service + "\">"@ + inner + "</u:"@ + action
        + "Response></s:Body></s:Envelope>"@
}

/// The HTTP response carrying a successful SOAP action response.
pub open spec fn soap_response_text(action: Seq<char>, service: Seq<char>, inner: Seq<char>) -> Seq<
    char,
> {
    http_response_text("200 OK"@, "text/xml; charset=\"utf-8\""@, soap_body(action, service, inner))
}

/// A successful SOAP response for `action` of `service` with result elements
/// `inner`.
pub fn soap_response(action: &str, service: &str, inner: &str) -> (r: String)
    ensures
        r@ == soap_response_text(action@, service@, inner@),
{
    let mut body = String::new();
    body.append(
        "<?xml version=\"1.0\" encoding=\"utf-8\"?>\n<s:Envelope xmlns:s=\"http://schemas.xmlsoap.org/soap/envelope/\" s:encodingStyle=\"http://schemas.xmlsoap.org/soap/encoding/\">\n<s:Body><u:",
    );
    body.append(action);
    body.append("Response xmlns:u=\"");
    body.append(service);
    body.append("\">");
    body.append(inner);
    body.append("</u:");
    body.append(action);
    body.append("Response></s:Body></s:Envelope>");
    http_response("200 OK", "text/xml; charset=\"utf-8\"", body.as_str())
}

/// The SOAP fault envelope of a UPnP error.
pub open spec fn soap_fault_body(code: Seq<char>, desc: Seq<char>) -> Seq<char> {
    "<?xml version=\"1.0\" encoding=\"utf-8\"?>\n<s:Envelope xmlns:s=\"http://schemas.xmlsoap.org/soap/envelope/\">\n<s:Body><s:Fault><faultcode>s:Client</faultcode><faultstring>UPnPError</faultstring>\n<detail><UPnPError xmlns=\"urn:schemas-upnp-org:control-1-0\"><errorCode>"@
        + code + "</errorCode><errorDescription>"@ + desc
        + "</errorDescription></UPnPError></detail>\n</s:Fault></s:Body></s:Envelope>"@
}

/// The HTTP 500 response carrying a UPnP error.
pub open spec fn soap_error_text(code: Seq<char>, desc: Seq<char>) -> Seq<char> {
    http_response_text(
        "500 Internal Server Error"@,
        "text/xml; charset=\"utf-8\""@,
        soap_fault_body(code, desc),
    )
}

/// A SOAP fault response with UPnP error `code` and description `desc`.
pub fn soap_error(code: &str, desc: &str) -> (r: String)
    ensures
        r@ == soap_error_text(code@, desc@),
{
    let mut body = String::new();
    body.append(
        "<?xml version=\"1.0\" encoding=\"utf-8\"?>\n<s:Envelope xmlns:s=\"http://schemas.xmlsoap.org/soap/envelope/\">\n<s:Body><s:Fault><faultcode>s:Client</faultcode><faultstring>UPnPError</faultstring>\n<detail><UPnPError xmlns=\"urn:schemas-upnp-org:control-1-0\"><errorCode>",
    );
    body.append(code);
    body.append("</errorCode><errorDescription>");
    body.append(desc);
    body.append("</errorDescription></UPnPError></detail>\n</s:Fault></s:Body></s:Envelope>");
    http_response("500 Internal Server Error", "text/xml; charset=\"utf-8\"", body.as_str())
}

/// The fault answered to an action a service does not implement.
pub open spec fn invalid_action_text() -> Seq<char> {
    soap_error_text("401"@, "Invalid Action"@)
}

// ---------------------------------------------------------------------------
// ConnectionManager.
// ---------------------------------------------------------------------------

/// The sink protocols the renderer accepts.
pub const SINK_PROTOCOLS: &'static str = "<Source></Source><Sink>http-get:*:video/mp4:*,http-get:*:video/x-matroska:*,http-get:*:video/mp2t:*,http-get:*:video/quicktime:*,http-get:*:application/vnd.apple.mpegurl:*,http-get:*:audio/mpeg:*,http-get:*:audio/mp4:*</Sink>";

/// The single connection the renderer reports.
pub const CONNECTION_INFO: &'static str = "<RcsID>0</RcsID><AVTransportID>0</AVTransportID><ProtocolInfo>http-get:*:video/mp4:*</ProtocolInfo><PeerConnectionManager></PeerConnectionManager><PeerConnectionID>-1</PeerConnectionID><Direction>Input</Direction><Status>OK</Status>";

/// The ConnectionManager's answer to a control request body.
pub open spec fn cm_response_of(body: Seq<char>) -> Seq<char> {
    let a = action_name(body);
    if a == "GetProtocolInfo"@ {
        soap_response_text("GetProtocolInfo"@, SERVICE_CM@, SINK_PROTOCOLS@)
    } else if a == "GetCurrentConnectionIDs"@ {
        soap_response_text("GetCurrentConnectionIDs"@, SERVICE_CM@, "<ConnectionIDs>0</ConnectionIDs>"@)
    } else if a == "GetCurrentConnectionInfo"@ {
        soap_response_text("GetCurrentConnectionInfo"@, SERVICE_CM@, CONNECTION_INFO@)
    } else {
        invalid_action_text()
    }
}

/// Answers a ConnectionManager control request.
pub fn handle_cm(body: &str) -> (r: String)
    ensures
        r@ == cm_response_of(body@),
{
    let b = chars_of(body);
    let a = action_chars(&b);
    if eq_str(&a, "GetProtocolInfo") {
        soap_response("GetProtocolInfo", SERVICE_CM, SINK_PROTOCOLS)
    } else if eq_str(&a, "GetCurrentConnectionIDs") {
        soap_response("GetCurrentConnectionIDs", SERVICE_CM, "<ConnectionIDs>0</ConnectionIDs>")
    } else if eq_str(&a, "GetCurrentConnectionInfo") {
        soap_response("GetCurrentConnectionInfo", SERVICE_CM, CONNECTION_INFO)
    } else {
        soap_error("401", "Invalid Action")
    }
}

/// The ConnectionManager answers each action it lists (`GetProtocolInfo`,
/// `GetCurrentConnectionIDs`, `GetCurrentConnectionInfo`) with the SOAP
/// response named after that action, and every other action with the 401
/// "Invalid Action" fault.
pub proof fn law_cm_actions(body: Seq<char>)
    ensures
        ({
            let a = action_name(body);
            let r = cm_response_of(body);
            &&& a == "GetProtocolInfo"@ ==> r == soap_response_text("GetProtocolInfo"@, SERVICE_CM@, SINK_PROTOCOLS@)
            &&& a == "GetCurrentConnectionIDs"@ ==> r == soap_response_text("GetCurrentConnectionIDs"@, SERVICE_CM@, "<ConnectionIDs>0</ConnectionIDs>"@)
            &&& a == "GetCurrentConnectionInfo"@ ==> r == soap_response_text("GetCurrentConnectionInfo"@, SERVICE_CM@, CONNECTION_INFO@)
            &&& (a != "GetProtocolInfo"@ && a != "GetCurrentConnectionIDs"@ && a != "GetCurrentConnectionInfo"@) ==> r == invalid_action_text()
        }),
{
    let a = action_name(body);
    reveal_strlit("GetProtocolInfo");
    reveal_strlit("GetCurrentConnectionIDs");
    reveal_strlit("GetCurrentConnectionInfo");
    if a == "GetProtocolInfo"@ {
    }
    if a == "GetCurrentConnectionIDs"@ {
        assert("GetCurrentConnectionIDs"@.len() != "GetProtocolInfo"@.len());
    }
    if a == "GetCurrentConnectionInfo"@ {
        assert("GetCurrentConnectionInfo"@.len() != "GetProtocolInfo"@.len());
        assert("GetCurrentConnectionInfo"@.len() != "GetCurrentConnectionIDs"@.len());
    }
}

} // verus!
