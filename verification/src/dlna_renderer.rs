//! The DLNA/UPnP media renderer: protocol logic and service state.
use vstd::prelude::*;
use vstd::utf8::encode_utf8;
use crate::text::{
    chars_of, contains_seq, contains_str, decimal, find, find_str, lemma_find_from, lowercase_chars,
    push_decimal, skip_chars, slice_chars, spec_to_lowercase, string_of, trim, trim_chars,
};
use crate::dlna_renderer::http::{
    http_response, http_response_text, request_body, request_body_of, route_of, route_request,
    DlnaRoute,
};
use crate::dlna_renderer::description::{
    avt_scpd, cm_scpd, description_xml, device_description, rc_scpd, xml_document_response,
    avt_scpd_xml, CM_SCPD_XML, RC_SCPD_XML,
};
use crate::dlna_renderer::soap::{cm_response_of, handle_cm};
use crate::dlna_renderer::control::{session_after, AvtAction};

pub mod http;
pub mod xml;
pub mod soap;
pub mod control;
pub mod description;
pub mod events;
pub mod ssdp;

verus! {

/// A lowercase hexadecimal digit.
pub open spec fn is_lower_hex(c: char) -> bool {
    ('0' <= c <= '9') || ('a' <= c <= 'f')
}

/// The hyphenated lowercase text of a version-4 UUID:
/// `xxxxxxxx-xxxx-4xxx-xxxx-xxxxxxxxxxxx`.
pub open spec fn is_uuid_text(s: Seq<char>) -> bool {
    &&& s.len() == 36
    &&& forall|i: int|
        0 <= i < 36 ==> if i == 8 || i == 13 || i == 18 || i == 23 {
            #[trigger] s[i] == '-'
        } else {
            is_lower_hex(s[i])
        }
    &&& s[14] == '4'
}

/// Calls `uuid::Uuid::new_v4` and renders the UUID with `to_string`, which the
/// crate writes hyphenated in lowercase hex with version digit 4. The value is
/// random: nothing else is stated of it.
#[verifier::external_body]
pub(crate) fn new_uuid() -> (r: String)
    ensures
        is_uuid_text(r@),
{
    uuid::Uuid::new_v4().to_string()
}

// ---------------------------------------------------------------------------
// Service state.
// ---------------------------------------------------------------------------

/// The single cast session: the URI last pushed by a controller.
pub struct DlnaSession(pub String);

impl DlnaSession {
    /// A session with no URI yet.
    pub fn new() -> (r: Self)
        ensures
            r.0@ == Seq::<char>::empty(),
    {
        DlnaSession(String::new())
    }

    /// Replaces the session URI.
    pub fn set_uri(&mut self, uri: String)
        ensures
            final(self).0@ == uri@,
    {
        self.0 = uri;
    }

    /// Records what an AVTransport request does to the session: a
    /// `SetAVTransportURI` that carries a URI replaces it.
    pub fn apply(&mut self, a: &AvtAction)
        ensures
            final(self).0@ == session_after(old(self).0@, a@),
    {
        match a {
            AvtAction::SetUri(Some(u)) => {
                self.0 = u.clone();
            },
            _ => {},
        }
    }

    /// The session URI.
    pub fn current_uri(&self) -> (r: String)
        ensures
            r@ == self.0@,
    {
        self.0.clone()
    }
}

/// Where the renderer listens: the announced address and HTTP port.
pub struct DlnaStatus {
    pub ip: String,
    pub port: u16,
}

impl DlnaStatus {
    /// A copy of the status.
    pub fn duplicate(&self) -> (r: Self)
        ensures
            r.ip@ == self.ip@,
            r.port == self.port,
    {
        DlnaStatus { ip: self.ip.clone(), port: self.port }
    }
}

/// The renderer's status, once it has started.
pub struct DlnaStatusState(pub Option<DlnaStatus>);

impl DlnaStatusState {
    /// Not started.
    pub fn new() -> (r: Self)
        ensures
            r.0 is None,
    {
        DlnaStatusState(None)
    }

    /// Records the address and port the renderer serves on.
    pub fn record(&mut self, ip: String, port: u16)
        ensures
            final(self).0 matches Some(s) && s.ip@ == ip@ && s.port == port,
    {
        self.0 = Some(DlnaStatus { ip, port });
    }

    /// The recorded status.
    pub fn current(&self) -> (r: Option<DlnaStatus>)
        ensures
            match (r, self.0) {
                (Some(a), Some(b)) => a.ip@ == b.ip@ && a.port == b.port,
                (None, None) => true,
                _ => false,
            },
    {
        match &self.0 {
            Some(s) => Some(s.duplicate()),
            None => None,
        }
    }
}

/// Whether the renderer runs, and the identity its goodbye announcement uses.
pub struct DlnaService {
    running: bool,
    byebye: Option<(String, u16)>,
}

/// The model of the service: `(running, byebye record)`.
pub type ServiceModel = (bool, Option<(Seq<char>, u16)>);

/// What stopping does to the service model: nothing when it is not running;
/// otherwise it stops, clears the record, and hands the record out for the
/// `ssdp:byebye` announcement.
pub open spec fn stop_model(m: ServiceModel) -> (ServiceModel, Option<(Seq<char>, u16)>) {
    if !m.0 {
        (m, None)
    } else {
        ((false, None), m.1)
    }
}

/// What starting does to the service model: it runs, with the record kept.
pub open spec fn begin_model(m: ServiceModel) -> ServiceModel {
    (true, m.1)
}

/// What recording the goodbye identity does to the service model.
pub open spec fn record_model(m: ServiceModel, uuid: Seq<char>, port: u16) -> ServiceModel {
    (m.0, Some((uuid, port)))
}

impl DlnaService {
    /// The service model.
    pub closed spec fn model(&self) -> ServiceModel {
        (
            self.running,
            match self.byebye {
                Some(b) => Some((b.0@, b.1)),
                None => None,
            },
        )
    }

    /// A stopped service with nothing to withdraw.
    pub fn new() -> (r: Self)
        ensures
            r.model() == (false, None::<(Seq<char>, u16)>),
    {
        DlnaService { running: false, byebye: None }
    }

    /// Marks the service running (done first when starting).
    pub fn begin(&mut self)
        ensures
            final(self).model() == begin_model(old(self).model()),
    {
        self.running = true;
    }

    /// Records the UUID and HTTP port the goodbye announcement will carry.
    pub fn record_byebye(&mut self, uuid: String, port: u16)
        ensures
            final(self).model() == record_model(old(self).model(), uuid@, port),
    {
        self.byebye = Some((uuid, port));
    }

    /// Whether the service runs.
    pub fn is_running(&self) -> (r: bool)
        ensures
            r == self.model().0,
    {
        self.running
    }

    /// The identity the goodbye announcement uses, when recorded.
    pub fn byebye_state(&self) -> (r: Option<(String, u16)>)
        ensures
            match (r, self.model().1) {
                (Some(a), Some(b)) => a.0@ == b.0 && a.1 == b.1,
                (None, None) => true,
                _ => false,
            },
    {
        match &self.byebye {
            Some(b) => Some((b.0.clone(), b.1)),
            None => None,
        }
    }

    /// Stops the service: returns what to announce `ssdp:byebye` for (nothing
    /// when it was not running).
    pub fn stop(&mut self) -> (r: Option<(String, u16)>)
        ensures
            final(self).model() == stop_model(old(self).model()).0,
            match (r, stop_model(old(self).model()).1) {
                (Some(a), Some(b)) => a.0@ == b.0 && a.1 == b.1,
                (None, None) => true,
                _ => false,
            },
    {
        if !self.running {
            return None;
        }
        self.running = false;
        let b = self.byebye.take();
        b
    }
}

/// Stopping twice announces nothing the second time and leaves the service
/// stopped with nothing recorded.
pub proof fn law_stop_idempotent(m: ServiceModel)
    ensures
        stop_model(stop_model(m).0).1 is None,
        !stop_model(m).0.0,
        stop_model(stop_model(m).0).0 == stop_model(m).0,
        m.0 ==> stop_model(m).0.1 is None,
{
}

/// Whatever the state before, starting the service and recording its UUID and
/// port, then stopping it, announces `ssdp:byebye` for exactly that UUID and
/// port and leaves the service stopped with nothing recorded.
pub proof fn law_start_stop(m: ServiceModel, uuid: Seq<char>, port: u16)
    ensures
        stop_model(record_model(begin_model(m), uuid, port)) == (
            (false, None::<(Seq<char>, u16)>),
            Some((uuid, port)),
        ),
{
}

/// The address to announce when the user chose one: the override when its
/// trimmed text is non-empty.
pub open spec fn announce_override_of(ip_override: Option<Seq<char>>) -> Option<Seq<char>> {
    match ip_override {
        Some(ip) => if trim(ip).len() > 0 {
            Some(ip)
        } else {
            None
        },
        None => None,
    }
}

/// The user-chosen address to announce, if any (otherwise the automatic one is
/// used).
pub fn announce_override(ip_override: &Option<String>) -> (r: Option<String>)
    ensures
        match r {
            Some(s) => announce_override_of(
                match ip_override {
                    Some(i) => Some(i@),
                    None => None,
                },
            ) == Some(s@),
            None => announce_override_of(
                match ip_override {
                    Some(i) => Some(i@),
                    None => None,
                },
            ) is None,
        },
{
    match ip_override {
        Some(ip) => {
            let v = chars_of(ip.as_str());
            let t = trim_chars(&v);
            if t.len() > 0 {
                Some(ip.clone())
            } else {
                None
            }
        },
        None => None,
    }
}

// ---------------------------------------------------------------------------
// Network interfaces.
// ---------------------------------------------------------------------------

/// A network interface with an IPv4 address.
pub struct NetIface {
    pub name: String,
    pub octets: (u8, u8, u8, u8),
}

/// An interface offered for casting, with its address as text.
pub struct DlnaIface {
    pub name: String,
    pub ip: String,
}

/// An IPv4 address in dotted decimal (`Ipv4Addr`'s `Display`).
pub open spec fn ipv4_text(o: (u8, u8, u8, u8)) -> Seq<char> {
    decimal(o.0 as nat) + "."@ + decimal(o.1 as nat) + "."@ + decimal(o.2 as nat) + "."@ + decimal(
        o.3 as nat,
    )
}

/// Dotted decimal text of an IPv4 address.
pub fn ipv4_string(o: (u8, u8, u8, u8)) -> (r: String)
    ensures
        r@ == ipv4_text(o),
{
    let mut s = String::new();
    push_decimal(&mut s, o.0 as u64);
    s.append(".");
    push_decimal(&mut s, o.1 as u64);
    s.append(".");
    push_decimal(&mut s, o.2 as u64);
    s.append(".");
    push_decimal(&mut s, o.3 as u64);
    s
}

/// A lowercased interface name that belongs to a virtual adapter (Tailscale,
/// ZeroTier, VMware, VirtualBox, Hyper-V, Docker, WSL, TUN/TAP, ...).
pub open spec fn virtual_name(n: Seq<char>) -> bool {
    ||| contains_seq(n, "tailscale"@)
    ||| contains_seq(n, "wintun"@)
    ||| contains_seq(n, "zerotier"@)
    ||| contains_seq(n, "vmnet"@)
    ||| contains_seq(n, "vmware"@)
    ||| contains_seq(n, "virtualbox"@)
    ||| contains_seq(n, "vethernet"@)
    ||| contains_seq(n, "hyper-v"@)
    ||| contains_seq(n, "docker"@)
    ||| contains_seq(n, "wsl"@)
    ||| contains_seq(n, "tun"@)
    ||| contains_seq(n, "tap"@)
    ||| contains_seq(n, "本地连接*"@)
    ||| contains_seq(n, "loopback"@)
}

/// An interface a phone on the LAN can reach: not loopback (127/8), not
/// unspecified (0.0.0.0), not link-local (169.254/16), not a virtual adapter.
pub open spec fn useful_iface(name: Seq<char>, o: (u8, u8, u8, u8)) -> bool {
    &&& o.0 != 127
    &&& !(o.0 == 0 && o.1 == 0 && o.2 == 0 && o.3 == 0)
    &&& !(o.0 == 169 && o.1 == 254)
    &&& !virtual_name(spec_to_lowercase(name))
}

/// Whether an interface can be used for casting.
pub fn is_useful_iface(name: &str, o: (u8, u8, u8, u8)) -> (r: bool)
    ensures
        r == useful_iface(name@, o),
{
    if o.0 == 127 {
        return false;
    }
    if o.0 == 0 && o.1 == 0 && o.2 == 0 && o.3 == 0 {
        return false;
    }
    if o.0 == 169 && o.1 == 254 {
        return false;
    }
    let n = lowercase_chars(&chars_of(name));
    !(contains_str(&n, "tailscale") || contains_str(&n, "wintun") || contains_str(&n, "zerotier")
        || contains_str(&n, "vmnet") || contains_str(&n, "vmware") || contains_str(&n, "virtualbox")
        || contains_str(&n, "vethernet") || contains_str(&n, "hyper-v") || contains_str(&n, "docker")
        || contains_str(&n, "wsl") || contains_str(&n, "tun") || contains_str(&n, "tap")
        || contains_str(&n, "本地连接*") || contains_str(&n, "loopback"))
}

/// A lowercased interface name that is a wireless adapter.
pub open spec fn wireless_name(n: Seq<char>) -> bool {
    ||| contains_seq(n, "wlan"@)
    ||| contains_seq(n, "wireless"@)
    ||| contains_seq(n, "wi-fi"@)
    ||| contains_seq(n, "无线"@)
}

/// The interfaces viewed as `(name, address)`.
pub open spec fn iface_views(v: Seq<NetIface>) -> Seq<(Seq<char>, (u8, u8, u8, u8))> {
    v.map_values(|i: NetIface| (i.name@, i.octets))
}

/// The first usable wireless interface from index `k` on.
pub open spec fn first_wireless_from(s: Seq<(Seq<char>, (u8, u8, u8, u8))>, k: int) -> Option<int>
    decreases s.len() - k,
{
    if k < 0 || k >= s.len() {
        None
    } else if useful_iface(s[k].0, s[k].1) && wireless_name(spec_to_lowercase(s[k].0)) {
        Some(k)
    } else {
        first_wireless_from(s, k + 1)
    }
}

/// The first usable interface from index `k` on.
pub open spec fn first_useful_from(s: Seq<(Seq<char>, (u8, u8, u8, u8))>, k: int) -> Option<int>
    decreases s.len() - k,
{
    if k < 0 || k >= s.len() {
        None
    } else if useful_iface(s[k].0, s[k].1) {
        Some(k)
    } else {
        first_useful_from(s, k + 1)
    }
}

/// The LAN address to announce: the first usable wireless interface, else the
/// first usable one.
pub open spec fn lan_ip_of(s: Seq<(Seq<char>, (u8, u8, u8, u8))>) -> Option<Seq<char>> {
    match first_wireless_from(s, 0) {
        Some(i) => Some(ipv4_text(s[i].1)),
        None => match first_useful_from(s, 0) {
            Some(j) => Some(ipv4_text(s[j].1)),
            None => None,
        },
    }
}

proof fn lemma_first_from_bounds(s: Seq<(Seq<char>, (u8, u8, u8, u8))>, k: int)
    requires
        0 <= k,
    ensures
        first_wireless_from(s, k) matches Some(i) ==> k <= i < s.len(),
        first_useful_from(s, k) matches Some(i) ==> k <= i < s.len(),
    decreases s.len() - k,
{
    if k < s.len() {
        lemma_first_from_bounds(s, k + 1);
    }
}

/// Picks the LAN address to announce among the machine's interfaces (wireless
/// first); `None` when no interface is usable.
pub fn pick_lan_ip(ifaces: &Vec<NetIface>) -> (r: Option<String>)
    ensures
        match r {
            Some(s) => lan_ip_of(iface_views(ifaces@)) == Some(s@),
            None => lan_ip_of(iface_views(ifaces@)) is None,
        },
{
    let ghost s = iface_views(ifaces@);
    let mut wired: Option<usize> = None;
    let mut i: usize = 0;
    while i < ifaces.len()
        invariant
            i <= ifaces.len(),
            s == iface_views(ifaces@),
            first_wireless_from(s, 0) == first_wireless_from(s, i as int),
            match wired {
                Some(w) => first_useful_from(s, 0) == Some(w as int) && w < i,
                None => first_useful_from(s, 0) == first_useful_from(s, i as int),
            },
        decreases ifaces.len() - i,
    {
        let it = &ifaces[i];
        proof {
            assert(s[i as int] == (it.name@, it.octets));
        }
        if is_useful_iface(it.name.as_str(), it.octets) {
            let n = lowercase_chars(&chars_of(it.name.as_str()));
            if contains_str(&n, "wlan") || contains_str(&n, "wireless") || contains_str(&n, "wi-fi")
                || contains_str(&n, "无线") {
                proof {
                    lemma_first_from_bounds(s, 0);
                }
                return Some(ipv4_string(it.octets));
            }
            if wired.is_none() {
                wired = Some(i);
            }
        }
        i = i + 1;
    }
    match wired {
        Some(w) => Some(ipv4_string(ifaces[w].octets)),
        None => None,
    }
}

/// The usable interfaces, in order, with their addresses as text.
pub open spec fn dlna_ifaces_of(s: Seq<(Seq<char>, (u8, u8, u8, u8))>) -> Seq<(Seq<char>, Seq<char>)>
    decreases s.len(),
{
    if s.len() == 0 {
        Seq::empty()
    } else if useful_iface(s.last().0, s.last().1) {
        dlna_ifaces_of(s.drop_last()).push((s.last().0, ipv4_text(s.last().1)))
    } else {
        dlna_ifaces_of(s.drop_last())
    }
}

/// The interfaces offered for casting: the usable ones (see `useful_iface`).
pub fn list_dlna_ifaces(ifaces: &Vec<NetIface>) -> (r: Vec<DlnaIface>)
    ensures
        r@.map_values(|d: DlnaIface| (d.name@, d.ip@)) == dlna_ifaces_of(iface_views(ifaces@)),
{
    let ghost s = iface_views(ifaces@);
    let mut out: Vec<DlnaIface> = Vec::new();
    let mut i: usize = 0;
    while i < ifaces.len()
        invariant
            i <= ifaces.len(),
            s == iface_views(ifaces@),
            out@.map_values(|d: DlnaIface| (d.name@, d.ip@)) == dlna_ifaces_of(s.take(i as int)),
        decreases ifaces.len() - i,
    {
        let it = &ifaces[i];
        proof {
            assert(s.take(i + 1).drop_last() =~= s.take(i as int));
            assert(s.take(i + 1).last() == (it.name@, it.octets));
        }
        if is_useful_iface(it.name.as_str(), it.octets) {
            let ghost before = out@;
            let d = DlnaIface { name: it.name.clone(), ip: ipv4_string(it.octets) };
            out.push(d);
            proof {
                assert(out@.map_values(|d: DlnaIface| (d.name@, d.ip@)) =~= before.map_values(
                    |d: DlnaIface| (d.name@, d.ip@),
                ).push((it.name@, ipv4_text(it.octets))));
            }
        }
        i = i + 1;
    }
    proof {
        assert(s.take(ifaces.len() as int) =~= s);
    }
    out
}

/// The text of the interface address the user chose for discovery: the
/// override, trimmed, when that is non-empty.
pub open spec fn override_text_of(ip_override: Option<Seq<char>>) -> Option<Seq<char>> {
    match ip_override {
        Some(ip) => if trim(ip).len() > 0 {
            Some(trim(ip))
        } else {
            None
        },
        None => None,
    }
}

/// The trimmed address text to use for discovery when the user chose one
/// (the caller parses it as an IPv4 address and falls back to all usable
/// interfaces when that fails).
pub fn override_text(ip_override: &Option<String>) -> (r: Option<String>)
    ensures
        match r {
            Some(t) => override_text_of(
                match ip_override {
                    Some(i) => Some(i@),
                    None => None,
                },
            ) == Some(t@),
            None => override_text_of(
                match ip_override {
                    Some(i) => Some(i@),
                    None => None,
                },
            ) is None,
        },
{
    match ip_override {
        Some(ip) => {
            let t = trim_chars(&chars_of(ip.as_str()));
            if t.len() > 0 {
                Some(string_of(&t))
            } else {
                None
            }
        },
        None => None,
    }
}

// ---------------------------------------------------------------------------
// Stream request headers.
// ---------------------------------------------------------------------------

/// The host of a stream URI, lowercased: the text after the first `://` (up to
/// a following `://`), cut at the first `/`, `:` or `?`.
pub open spec fn stream_host_of(uri: Seq<char>) -> Seq<char> {
    let after = match find(uri, "://"@) {
        None => Seq::empty(),
        Some(i) => {
            let rest = uri.skip(i + 3);
            match find(rest, "://"@) {
                Some(j) => rest.take(j),
                None => rest,
            }
        },
    };
    spec_to_lowercase(after.take(host_len(after) as int))
}

/// Length of the leading run without `/`, `:` or `?`.
pub open spec fn host_len(s: Seq<char>) -> nat
    decreases s.len(),
{
    if s.len() == 0 || s[0] == '/' || s[0] == ':' || s[0] == '?' {
        0
    } else {
        1 + host_len(s.drop_first())
    }
}

proof fn lemma_host_len(s: Seq<char>)
    ensures
        host_len(s) <= s.len(),
    decreases s.len(),
{
    if s.len() > 0 && s[0] != '/' && s[0] != ':' && s[0] != '?' {
        lemma_host_len(s.drop_first());
    }
}

/// The lowercased host of a stream URI.
pub fn stream_host(uri: &str) -> (r: String)
    ensures
        r@ == stream_host_of(uri@),
{
    let u = chars_of(uri);
    proof {
        reveal_strlit("://");
    }
    let after: Vec<char> = match find_str(&u, "://", 0) {
        None => Vec::new(),
        Some(i) => {
            proof {
                lemma_find_from(u@, "://"@, 0);
            }
            let rest = skip_chars(&u, i + 3);
            match find_str(&rest, "://", 0) {
                Some(j) => {
                    proof {
                        lemma_find_from(rest@, "://"@, 0);
                    }
                    slice_chars(&rest, 0, j)
                },
                None => rest,
            }
        },
    };
    let mut k: usize = 0;
    proof {
        lemma_host_len(after@);
        assert(after@.skip(0) =~= after@);
    }
    while k < after.len() && after[k] != '/' && after[k] != ':' && after[k] != '?'
        invariant
            k <= after.len(),
            host_len(after@) == k + host_len(after@.skip(k as int)),
        decreases after.len() - k,
    {
        proof {
            assert(after@.skip(k as int).drop_first() =~= after@.skip(k + 1));
        }
        k = k + 1;
    }
    proof {
        assert(host_len(after@.skip(k as int)) == 0);
    }
    let host = slice_chars(&after, 0, k);
    string_of(&lowercase_chars(&host))
}

/// The `Referer` a video platform's CDN expects for a stream host.
pub open spec fn referer_for_host(host: Seq<char>) -> Option<Seq<char>> {
    if contains_seq(host, "bilibili.com"@) || contains_seq(host, "b23.tv"@) {
        Some("https://www.bilibili.com/"@)
    } else if contains_seq(host, "iqiyi.com"@) || contains_seq(host, "qiyi.com"@) {
        Some("https://www.iqiyi.com/"@)
    } else if contains_seq(host, "v.qq.com"@) || contains_seq(host, "qq.com"@) || contains_seq(
        host,
        "tencent.com"@,
    ) {
        Some("https://v.qq.com/"@)
    } else if contains_seq(host, "youku.com"@) {
        Some("https://www.youku.com/"@)
    } else if contains_seq(host, "mgtv.com"@) {
        Some("https://www.mgtv.com/"@)
    } else {
        None
    }
}

/// The `Referer` to send for a stream URI, if its host needs one.
pub fn stream_referer(uri: &str) -> (r: Option<&'static str>)
    ensures
        match r {
            Some(s) => referer_for_host(stream_host_of(uri@)) == Some(s@),
            None => referer_for_host(stream_host_of(uri@)) is None,
        },
{
    let h = chars_of(stream_host(uri).as_str());
    if contains_str(&h, "bilibili.com") || contains_str(&h, "b23.tv") {
        Some("https://www.bilibili.com/")
    } else if contains_str(&h, "iqiyi.com") || contains_str(&h, "qiyi.com") {
        Some("https://www.iqiyi.com/")
    } else if contains_str(&h, "v.qq.com") || contains_str(&h, "qq.com") || contains_str(
        &h,
        "tencent.com",
    ) {
        Some("https://v.qq.com/")
    } else if contains_str(&h, "youku.com") {
        Some("https://www.youku.com/")
    } else if contains_str(&h, "mgtv.com") {
        Some("https://www.mgtv.com/")
    } else {
        None
    }
}

/// The browser identification sent with every stream request.
pub const STREAM_USER_AGENT: &'static str = "User-Agent: Mozilla/5.0 (Windows NT 10.0; Win64; x64)";

/// The HTTP header fields the player sends for a stream: the user agent, and a
/// `Referer` when the host needs one.
pub open spec fn stream_header_fields_of(uri: Seq<char>) -> Seq<Seq<char>> {
    match referer_for_host(stream_host_of(uri)) {
        Some(r) => seq![STREAM_USER_AGENT@, "Referer: "@ + r],
        None => seq![STREAM_USER_AGENT@],
    }
}

/// The header fields for the player's `http-header-fields` property.
pub fn stream_header_fields(uri: &str) -> (r: Vec<String>)
    ensures
        r@.map_values(|s: String| s@) == stream_header_fields_of(uri@),
{
    let mut v: Vec<String> = Vec::new();
    let mut ua = String::new();
    ua.append(STREAM_USER_AGENT);
    v.push(ua);
    match stream_referer(uri) {
        Some(r) => {
            let mut h = String::new();
            h.append("Referer: ");
            h.append(r);
            v.push(h);
        },
        None => {},
    }
    proof {
        assert(v@.map_values(|s: String| s@) =~= stream_header_fields_of(uri@));
    }
    v
}

// ---------------------------------------------------------------------------
// Device icon.
// ---------------------------------------------------------------------------

/// The 48x48 PNG device icon, base64-encoded (standard alphabet, padded).
pub const ICON_PNG_B64: &'static str = "iVBORw0KGgoAAAANSUhEUgAAADAAAAAwCAYAAABXAvmHAAAAAXNSR0IArs4c6QAAAARnQU1BAACxjwv8YQUAAAAJcEhZcwAADsMAAA7DAcdvqGQAAAFcSURBVGhD7ZYxDsIwDEW5F+fhImwcgSuwcIkOvUJ3RmYQosKoSEiJnVDX/iWLI72ldaU859fKZru/0SqcR8rW8JA1ADb8AYwQ0BECVUJARwhUCQEdIVAlBHSEQJUQ0LGewJ8IgdaEQGtCoDUh0JoQaE0ItMYocKfTNb9s6m+bD+qzD190OvIaPUaBG+26V7YNopEOhToBv2Zfn7TjNQswC2yPT7rkW6H+XKhjHIbl3/zCLmCKEY+P8tR+4BAwxIjHZ1Z4HpfA0hih4zPhE1gSIyE7c1pKnAL6GPG6S3cXNRbcArKzpWjwk/LN/hS/gNhcobtc0jn7UwACMh58g/y9EHQAERAdziLCT6j8j1jBCIhNJl3mcrUpZQQkIGPyjRF/Ln9wHzAB0elPjPjJYOMzgRMoxWgYV43PBFBAxiVfuNmfAhWQMUoWcPanYAUKMfou5OxPAQvUYrROfCbeuJBkKXsDPz8AAAAASUVORK5CYII=";

/// What base64's `STANDARD` engine decodes these bytes to (`None` when the
/// input is not valid padded standard base64).
pub uninterp spec fn spec_base64_decode(input: Seq<u8>) -> Option<Seq<u8>>;

/// Calls `base64::Engine::decode` on `general_purpose::STANDARD`; the contract
/// only names the result.
#[verifier::external_body]
fn base64_decode(input: &[u8]) -> (r: Option<Vec<u8>>)
    ensures
        match r {
            Some(v) => spec_base64_decode(input@) == Some(v@),
            None => spec_base64_decode(input@) is None,
        },
{
    match base64::Engine::decode(&base64::engine::general_purpose::STANDARD, input) {
        Ok(v) => Some(v),
        Err(_) => None,
    }
}

/// The icon's PNG bytes (empty if the embedded text did not decode).
pub open spec fn icon_png() -> Seq<u8> {
    match spec_base64_decode(encode_utf8(ICON_PNG_B64@)) {
        Some(b) => b,
        None => Seq::empty(),
    }
}

/// The header of the icon response for a PNG of `len` bytes.
pub open spec fn icon_header_text(len: nat) -> Seq<char> {
    "HTTP/1.1 200 OK\r\nContent-Type: image/png\r\nContent-Length: "@ + decimal(len)
        + "\r\nConnection: close\r\n\r\n"@
}

/// The complete binary response serving a PNG image.
pub fn icon_response_for(png: &Vec<u8>) -> (r: Vec<u8>)
    ensures
        r@ == encode_utf8(icon_header_text(png@.len())) + png@,
{
    let mut header = String::new();
    header.append("HTTP/1.1 200 OK\r\nContent-Type: image/png\r\nContent-Length: ");
    push_decimal(&mut header, png.len() as u64);
    header.append("\r\nConnection: close\r\n\r\n");
    let mut out = vstd::slice::slice_to_vec(header.as_str().as_bytes());
    let mut body = vstd::slice::slice_to_vec(png.as_slice());
    out.append(&mut body);
    out
}

/// The response to `GET /icon.png`: the decoded device icon.
pub fn icon_response() -> (r: Vec<u8>)
    ensures
        r@ == encode_utf8(icon_header_text(icon_png().len())) + icon_png(),
{
    let png = match base64_decode(ICON_PNG_B64.as_bytes()) {
        Some(v) => v,
        None => Vec::new(),
    };
    icon_response_for(&png)
}

// ---------------------------------------------------------------------------
// Request dispatch.
// ---------------------------------------------------------------------------

/// The page served at `/`.
pub const ROOT_PAGE: &'static str = "<html><body>ScreenCast Receiver DLNA</body></html>";

/// The reply to a request whose answer depends only on the request and the
/// renderer's identity (`None` for the routes that need the player, the event
/// subscriptions, the binary icon, or an empty read).
pub open spec fn fixed_reply_of(
    request: Seq<char>,
    uuid: Seq<char>,
    port: u16,
    device_name: Seq<char>,
    announce_ip: Seq<char>,
) -> Option<Seq<char>> {
    match route_of(request) {
        DlnaRoute::Description => Some(
            xml_document_response(description_xml(uuid, port, device_name, announce_ip)),
        ),
        DlnaRoute::AvtScpd => Some(xml_document_response(avt_scpd_xml())),
        DlnaRoute::RcScpd => Some(xml_document_response(RC_SCPD_XML@)),
        DlnaRoute::CmScpd => Some(xml_document_response(CM_SCPD_XML@)),
        DlnaRoute::CmControl => Some(cm_response_of(request_body_of(request))),
        DlnaRoute::Root => Some(http_response_text("200 OK"@, "text/html"@, ROOT_PAGE@)),
        DlnaRoute::NotFound => Some(
            http_response_text("404 Not Found"@, "text/plain"@, "Not Found"@),
        ),
        _ => None,
    }
}

/// Answers the requests that need no player or subscription state.
pub fn dispatch(request: &str, uuid: &str, port: u16, device_name: &str, announce_ip: &str) -> (r:
    Option<String>)
    ensures
        match r {
            Some(s) => fixed_reply_of(request@, uuid@, port, device_name@, announce_ip@) == Some(s@),
            None => fixed_reply_of(request@, uuid@, port, device_name@, announce_ip@) is None,
        },
{
    match route_request(request) {
        DlnaRoute::Description => Some(device_description(uuid, port, device_name, announce_ip)),
        DlnaRoute::AvtScpd => Some(avt_scpd()),
        DlnaRoute::RcScpd => Some(rc_scpd()),
        DlnaRoute::CmScpd => Some(cm_scpd()),
        DlnaRoute::CmControl => {
            let body = request_body(request);
            Some(handle_cm(body.as_str()))
        },
        DlnaRoute::Root => Some(http_response("200 OK", "text/html", ROOT_PAGE)),
        DlnaRoute::NotFound => Some(http_response("404 Not Found", "text/plain", "Not Found")),
        _ => None,
    }
}

/// The first usable wireless interface from `k` on is the one at `i` when none
/// lies between.
proof fn lemma_first_wireless_at(s: Seq<(Seq<char>, (u8, u8, u8, u8))>, k: int, i: int)
    requires
        0 <= k <= i < s.len(),
        useful_iface(s[i].0, s[i].1) && wireless_name(spec_to_lowercase(s[i].0)),
        forall|j: int|
            k <= j < i ==> !(useful_iface(s[j].0, s[j].1) && #[trigger] wireless_name(
                spec_to_lowercase(s[j].0),
            )),
    ensures
        first_wireless_from(s, k) == Some(i),
    decreases i - k,
{
    if k < i {
        lemma_first_wireless_at(s, k + 1, i);
    }
}

proof fn lemma_no_wireless_from(s: Seq<(Seq<char>, (u8, u8, u8, u8))>, k: int)
    requires
        0 <= k <= s.len(),
        forall|j: int|
            k <= j < s.len() ==> !(useful_iface(s[j].0, s[j].1) && #[trigger] wireless_name(
                spec_to_lowercase(s[j].0),
            )),
    ensures
        first_wireless_from(s, k) is None,
    decreases s.len() - k,
{
    if k < s.len() {
        lemma_no_wireless_from(s, k + 1);
    }
}

proof fn lemma_first_useful_at(s: Seq<(Seq<char>, (u8, u8, u8, u8))>, k: int, i: int)
    requires
        0 <= k <= i <= s.len(),
        i < s.len() ==> useful_iface(s[i].0, s[i].1),
        forall|j: int| k <= j < i ==> !#[trigger] useful_iface(s[j].0, s[j].1),
    ensures
        first_useful_from(s, k) == (if i < s.len() {
            Some(i)
        } else {
            None::<int>
        }),
    decreases i - k,
{
    if k < i {
        lemma_first_useful_at(s, k + 1, i);
    }
}

/// A usable interface whose lowercased name holds `wlan`, `wireless`, `wi-fi`
/// or `无线`: a wireless adapter, which the renderer prefers.
pub open spec fn usable_wireless(e: (Seq<char>, (u8, u8, u8, u8))) -> bool {
    &&& useful_iface(e.0, e.1)
    &&& {
        let n = spec_to_lowercase(e.0);
        ||| contains_seq(n, "wlan"@)
        ||| contains_seq(n, "wireless"@)
        ||| contains_seq(n, "wi-fi"@)
        ||| contains_seq(n, "无线"@)
    }
}

/// The address announced on the LAN: the first usable wireless interface (see
/// `usable_wireless`) wins; without one, the first usable interface; without
/// any usable interface, none.
pub proof fn law_wireless_first(s: Seq<(Seq<char>, (u8, u8, u8, u8))>, i: int)
    requires
        0 <= i <= s.len(),
    ensures
        i < s.len() && usable_wireless(s[i]) && (forall|j: int| 0 <= j < i ==> !usable_wireless(
            #[trigger] s[j],
        )) ==> lan_ip_of(s) == Some(ipv4_text(s[i].1)),
        (forall|j: int| 0 <= j < s.len() ==> !usable_wireless(#[trigger] s[j])) && i < s.len()
            && useful_iface(s[i].0, s[i].1) && (forall|j: int|
            0 <= j < i ==> !useful_iface(#[trigger] s[j].0, s[j].1)) ==> lan_ip_of(s) == Some(
            ipv4_text(s[i].1),
        ),
        (forall|j: int| 0 <= j < s.len() ==> !useful_iface(#[trigger] s[j].0, s[j].1)) ==> lan_ip_of(
            s,
        ) is None,
{
    assert forall|j: int| #![trigger s[j]] usable_wireless(s[j]) == (useful_iface(s[j].0, s[j].1)
        && wireless_name(spec_to_lowercase(s[j].0))) by {}
    if i < s.len() && usable_wireless(s[i]) && (forall|j: int|
        0 <= j < i ==> !usable_wireless(#[trigger] s[j])) {
        lemma_first_wireless_at(s, 0, i);
    }
    if forall|j: int| 0 <= j < s.len() ==> !usable_wireless(#[trigger] s[j]) {
        lemma_no_wireless_from(s, 0);
        if i < s.len() && useful_iface(s[i].0, s[i].1) && (forall|j: int|
            0 <= j < i ==> !useful_iface(#[trigger] s[j].0, s[j].1)) {
            lemma_first_useful_at(s, 0, i);
        }
    }
    if forall|j: int| 0 <= j < s.len() ==> !useful_iface(#[trigger] s[j].0, s[j].1) {
        lemma_no_wireless_from(s, 0);
        lemma_first_useful_at(s, 0, s.len() as int);
    }
}

} // verus!
