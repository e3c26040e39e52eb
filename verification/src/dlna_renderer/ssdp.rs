//! SSDP discovery messages: which M-SEARCH requests are answered, the search
//! target and USN of each reply, and the NOTIFY announcements.
use vstd::prelude::*;
use crate::text::{
    lemma_contains_subrange, lemma_contains_trans, lemma_lines_within,
    lemma_trim_end_within, lemma_trim_start_within,
    chars_of, contains_seq, contains_str, decimal, eq_ignore_ascii_case, eq_ignore_ascii_case_str,
    lines, push_decimal, skip_chars, slice_chars, split_lines, starts_with, starts_with_str,
    string_of, trim, trim_chars, trim_start, trim_start_chars, views,
};
use super::description::{DEVICE_TYPE, DEVICE_TYPE_2};
use super::soap::{SERVICE_AVT, SERVICE_CM, SERVICE_RC};
use super::http::{spec_utf8_lossy, utf8_lossy};

verus! {

/// The SSDP multicast port.
pub const SSDP_PORT: u16 = 1900;

/// The `ST` value among M-SEARCH lines: the first line whose start (after
/// leading whitespace) is `st:` in any ASCII case and whose trimmed rest is
/// non-empty.
pub open spec fn st_in(ls: Seq<Seq<char>>) -> Option<Seq<char>>
    decreases ls.len(),
{
    if ls.len() == 0 {
        None
    } else {
        let l = trim_start(ls[0]);
        if l.len() >= 3 && eq_ignore_ascii_case(l.take(3), "st:"@) && trim(l.skip(3)).len() > 0 {
            Some(trim(l.skip(3)))
        } else {
            st_in(ls.drop_first())
        }
    }
}

/// The search target (`ST` header) of an M-SEARCH request.
pub fn extract_st(msg: &str) -> (r: Option<String>)
    ensures
        match r {
            Some(v) => st_in(lines(msg@)) == Some(v@),
            None => st_in(lines(msg@)) is None,
        },
{
    let m = chars_of(msg);
    let ls = split_lines(&m);
    let mut i: usize = 0;
    proof {
        assert(views(ls@).skip(0) =~= views(ls@));
    }
    while i < ls.len()
        invariant
            i <= ls.len(),
            views(ls@) == lines(msg@),
            st_in(lines(msg@)) == st_in(views(ls@).skip(i as int)),
        decreases ls.len() - i,
    {
        proof {
            let rest = views(ls@).skip(i as int);
            assert(rest[0] == ls@[i as int]@);
            assert(rest.drop_first() =~= views(ls@).skip(i + 1));
        }
        let l = trim_start_chars(&ls[i]);
        if l.len() >= 3 {
            let head = slice_chars(&l, 0, 3);
            proof {
                assert(head@ =~= l@.take(3));
            }
            if eq_ignore_ascii_case_str(&head, "st:") {
                let tail = skip_chars(&l, 3);
                let v = trim_chars(&tail);
                if v.len() > 0 {
                    return Some(string_of(&v));
                }
            }
        }
        i = i + 1;
    }
    proof {
        assert(views(ls@).skip(i as int) =~= Seq::<Seq<char>>::empty());
    }
    None
}

/// An M-SEARCH that the renderer answers: it mentions one of the renderer's
/// device types, `ssdp:all`, `upnp:rootdevice`, its `uuid:`, or one of its
/// services.
pub open spec fn msearch_matches(msg: Seq<char>, uuid: Seq<char>) -> bool {
    &&& contains_seq(msg, "M-SEARCH"@)
    &&& {
        ||| contains_seq(msg, DEVICE_TYPE@)
        ||| contains_seq(msg, DEVICE_TYPE_2@)
        ||| contains_seq(msg, "ssdp:all"@)
        ||| contains_seq(msg, "upnp:rootdevice"@)
        ||| contains_seq(msg, "uuid:"@ + uuid)
        ||| contains_seq(msg, SERVICE_AVT@)
        ||| contains_seq(msg, SERVICE_RC@)
        ||| contains_seq(msg, SERVICE_CM@)
    }
}

/// Whether a received datagram is an M-SEARCH the renderer answers.
pub fn msearch_wants_reply(msg: &str, uuid: &str) -> (r: bool)
    ensures
        r == msearch_matches(msg@, uuid@),
{
    let m = chars_of(msg);
    if !contains_str(&m, "M-SEARCH") {
        return false;
    }
    let mut u = chars_of("uuid:");
    let uv = chars_of(uuid);
    let mut i: usize = 0;
    let ghost u0 = u@;
    while i < uv.len()
        invariant
            i <= uv.len(),
            u@ == u0 + uv@.take(i as int),
        decreases uv.len() - i,
    {
        u.push(uv[i]);
        proof {
            assert(uv@.take(i + 1) =~= uv@.take(i as int).push(uv@[i as int]));
        }
        i = i + 1;
    }
    proof {
        assert(uv@.take(uv.len() as int) =~= uv@);
    }
    contains_str(&m, DEVICE_TYPE) || contains_str(&m, DEVICE_TYPE_2) || contains_str(
        &m,
        "ssdp:all",
    ) || contains_str(&m, "upnp:rootdevice") || crate::text::contains_chars(&m, &u)
        || contains_str(&m, SERVICE_AVT) || contains_str(&m, SERVICE_RC) || contains_str(
        &m,
        SERVICE_CM,
    )
}

/// The search target a reply echoes: the request's `ST`, or the first device
/// type when it has none.
pub open spec fn reply_st(msg: Seq<char>) -> Seq<char> {
    match st_in(lines(msg)) {
        Some(st) => st,
        None => DEVICE_TYPE@,
    }
}

/// The search target a reply echoes.
pub fn reply_search_target(msg: &str) -> (r: String)
    ensures
        r@ == reply_st(msg@),
{
    match extract_st(msg) {
        Some(st) => st,
        None => {
            let mut s = String::new();
            s.append(DEVICE_TYPE);
            s
        },
    }
}

/// The USN that answers search target `target` for device `uuid`.
pub open spec fn usn_for(uuid: Seq<char>, target: Seq<char>) -> Seq<char> {
    if eq_ignore_ascii_case(target, "upnp:rootdevice"@) {
        "uuid:"@ + uuid + "::upnp:rootdevice"@
    } else if starts_with(target, "uuid:"@) {
        target
    } else if eq_ignore_ascii_case(target, DEVICE_TYPE_2@) {
        "uuid:"@ + uuid + "::"@ + DEVICE_TYPE_2@
    } else {
        "uuid:"@ + uuid + "::"@ + target
    }
}

fn usn_string(uuid: &str, target: &Vec<char>) -> (r: String)
    ensures
        r@ == usn_for(uuid@, target@),
{
    if eq_ignore_ascii_case_str(target, "upnp:rootdevice") {
        let mut s = String::new();
        s.append("uuid:");
        s.append(uuid);
        s.append("::upnp:rootdevice");
        s
    } else if starts_with_str(target, "uuid:") {
        string_of(target)
    } else if eq_ignore_ascii_case_str(target, DEVICE_TYPE_2) {
        let mut s = String::new();
        s.append("uuid:");
        s.append(uuid);
        s.append("::");
        s.append(DEVICE_TYPE_2);
        s
    } else {
        let mut s = String::new();
        s.append("uuid:");
        s.append(uuid);
        s.append("::");
        crate::text::push_chars(&mut s, target);
        s
    }
}

/// The `(ST, USN)` pairs answering search target `st`: all four of the
/// renderer's targets for `ssdp:all`, else `st` itself.
pub open spec fn reply_targets_of(uuid: Seq<char>, st: Seq<char>) -> Seq<(Seq<char>, Seq<char>)> {
    if eq_ignore_ascii_case(st, "ssdp:all"@) {
        seq![
            ("upnp:rootdevice"@, usn_for(uuid, "upnp:rootdevice"@)),
            (DEVICE_TYPE@, usn_for(uuid, DEVICE_TYPE@)),
            (DEVICE_TYPE_2@, usn_for(uuid, DEVICE_TYPE_2@)),
            ("uuid:"@ + uuid, "uuid:"@ + uuid),
        ]
    } else {
        seq![(st, usn_for(uuid, st))]
    }
}

/// A pair list viewed as character sequences.
pub open spec fn pair_views(v: Seq<(String, String)>) -> Seq<(Seq<char>, Seq<char>)> {
    v.map_values(|p: (String, String)| (p.0@, p.1@))
}

/// The `(ST, USN)` pairs a search reply carries.
pub fn msearch_reply_targets(uuid: &str, st: &str) -> (r: Vec<(String, String)>)
    ensures
        pair_views(r@) == reply_targets_of(uuid@, st@),
{
    let stv = chars_of(st);
    let mut r: Vec<(String, String)> = Vec::new();
    if eq_ignore_ascii_case_str(&stv, "ssdp:all") {
        let root = chars_of("upnp:rootdevice");
        let dt = chars_of(DEVICE_TYPE);
        let dt2 = chars_of(DEVICE_TYPE_2);
        let mut u = String::new();
        u.append("uuid:");
        u.append(uuid);
        let u2 = u.clone();
        let mut root_s = String::new();
        root_s.append("upnp:rootdevice");
        let mut dt_s = String::new();
        dt_s.append(DEVICE_TYPE);
        let mut dt2_s = String::new();
        dt2_s.append(DEVICE_TYPE_2);
        r.push((root_s, usn_string(uuid, &root)));
        r.push((dt_s, usn_string(uuid, &dt)));
        r.push((dt2_s, usn_string(uuid, &dt2)));
        r.push((u, u2));
        proof {
            assert(pair_views(r@) =~= reply_targets_of(uuid@, st@));
        }
    } else {
        r.push((string_of(&stv), usn_string(uuid, &stv)));
        proof {
            assert(pair_views(r@) =~= reply_targets_of(uuid@, st@));
        }
    }
    r
}

/// The server identification the renderer sends.
pub const SERVER_ID: &'static str = "Windows/10 UPnP/1.0 DLNADOC/1.50 ScreenCastReceiver/1.2";

/// A unicast reply to an M-SEARCH.
pub open spec fn msearch_response_text(
    date: Seq<char>,
    ip: Seq<char>,
    port: u16,
    st: Seq<char>,
    usn: Seq<char>,
) -> Seq<char> {
    "HTTP/1.1 200 OK\r\nCACHE-CONTROL: max-age=1800\r\nDATE: "@ + date + "\r\nEXT:\r\nLOCATION: http://"@
        + ip + ":"@ + decimal(port as nat) + "/description.xml\r\nSERVER: "@ + SERVER_ID@
        + "\r\nST: "@ + st + "\r\nUSN: "@ + usn
        + "\r\nBOOTID.UPNP.ORG: 1\r\nCONFIGID.UPNP.ORG: 1\r\nSEARCHPORT.UPNP.ORG: 1900\r\n\r\n"@
}

/// The reply to an M-SEARCH sent from interface `ip`.
pub fn msearch_response(date: &str, ip: &str, port: u16, st: &str, usn: &str) -> (r: String)
    ensures
        r@ == msearch_response_text(date@, ip@, port, st@, usn@),
{
    let mut s = String::new();
    s.append("HTTP/1.1 200 OK\r\nCACHE-CONTROL: max-age=1800\r\nDATE: ");
    s.append(date);
    s.append("\r\nEXT:\r\nLOCATION: http://");
    s.append(ip);
    s.append(":");
    push_decimal(&mut s, port as u64);
    s.append("/description.xml\r\nSERVER: ");
    s.append(SERVER_ID);
    s.append("\r\nST: ");
    s.append(st);
    s.append("\r\nUSN: ");
    s.append(usn);
    s.append("\r\nBOOTID.UPNP.ORG: 1\r\nCONFIGID.UPNP.ORG: 1\r\nSEARCHPORT.UPNP.ORG: 1900\r\n\r\n");
    s
}

/// The `(NT, USN)` announcements of device `uuid`: the first device type, the
/// second (when `with_type2`), the root device, and the bare `uuid:`.
pub open spec fn announcements_of(uuid: Seq<char>, with_type2: bool) -> Seq<(Seq<char>, Seq<char>)> {
    let first = seq![(DEVICE_TYPE@, "uuid:"@ + uuid + "::"@ + DEVICE_TYPE@)];
    let second = if with_type2 {
        seq![(DEVICE_TYPE_2@, "uuid:"@ + uuid + "::"@ + DEVICE_TYPE_2@)]
    } else {
        Seq::empty()
    };
    first + second + seq![
        ("upnp:rootdevice"@, "uuid:"@ + uuid + "::upnp:rootdevice"@),
        ("uuid:"@ + uuid, "uuid:"@ + uuid),
    ]
}

fn uuid_usn(uuid: &str, suffix: &str) -> (r: String)
    ensures
        r@ == "uuid:"@ + uuid@ + "::"@ + suffix@,
{
    let mut s = String::new();
    s.append("uuid:");
    s.append(uuid);
    s.append("::");
    s.append(suffix);
    s
}

/// The announcements sent in NOTIFY messages.
pub fn announcements(uuid: &str, with_type2: bool) -> (r: Vec<(String, String)>)
    ensures
        pair_views(r@) == announcements_of(uuid@, with_type2),
{
    let mut r: Vec<(String, String)> = Vec::new();
    let mut dt = String::new();
    dt.append(DEVICE_TYPE);
    r.push((dt, uuid_usn(uuid, DEVICE_TYPE)));
    if with_type2 {
        let mut dt2 = String::new();
        dt2.append(DEVICE_TYPE_2);
        r.push((dt2, uuid_usn(uuid, DEVICE_TYPE_2)));
    }
    let mut root = String::new();
    root.append("upnp:rootdevice");
    let mut root_usn = String::new();
    root_usn.append("uuid:");
    root_usn.append(uuid);
    root_usn.append("::upnp:rootdevice");
    r.push((root, root_usn));
    let mut u = String::new();
    u.append("uuid:");
    u.append(uuid);
    let u2 = u.clone();
    r.push((u, u2));
    proof {
        assert(pair_views(r@) =~= announcements_of(uuid@, with_type2));
    }
    r
}

/// A multicast (or unicast) NOTIFY: `ssdp:alive` when `alive`, else
/// `ssdp:byebye`; the periodic multicast announcement also carries
/// `SEARCHPORT.UPNP.ORG`.
pub open spec fn notify_text(
    date: Seq<char>,
    ip: Seq<char>,
    port: u16,
    nt: Seq<char>,
    usn: Seq<char>,
    alive: bool,
    searchport: bool,
) -> Seq<char> {
    "NOTIFY * HTTP/1.1\r\nHOST: 239.255.255.250:1900\r\nCACHE-CONTROL: max-age=1800\r\nDATE: "@ + date
        + "\r\nLOCATION: http://"@ + ip + ":"@ + decimal(port as nat) + "/description.xml\r\nNT: "@
        + nt + "\r\nNTS: "@ + (if alive {
        "ssdp:alive"@
    } else {
        "ssdp:byebye"@
    }) + "\r\nSERVER: "@ + SERVER_ID@ + "\r\nUSN: "@ + usn
        + "\r\nBOOTID.UPNP.ORG: 1\r\nCONFIGID.UPNP.ORG: 1\r\n"@ + (if searchport {
        "SEARCHPORT.UPNP.ORG: 1900\r\n"@
    } else {
        ""@
    }) + "\r\n"@
}

/// An SSDP NOTIFY message announcing (or withdrawing) the device at `ip:port`.
pub fn ssdp_notify(
    date: &str,
    ip: &str,
    port: u16,
    nt: &str,
    usn: &str,
    alive: bool,
    searchport: bool,
) -> (r: String)
    ensures
        r@ == notify_text(date@, ip@, port, nt@, usn@, alive, searchport),
{
    let mut s = String::new();
    s.append("NOTIFY * HTTP/1.1\r\nHOST: 239.255.255.250:1900\r\nCACHE-CONTROL: max-age=1800\r\nDATE: ");
    s.append(date);
    s.append("\r\nLOCATION: http://");
    s.append(ip);
    s.append(":");
    push_decimal(&mut s, port as u64);
    s.append("/description.xml\r\nNT: ");
    s.append(nt);
    s.append("\r\nNTS: ");
    if alive {
        s.append("ssdp:alive");
    } else {
        s.append("ssdp:byebye");
    }
    s.append("\r\nSERVER: ");
    s.append(SERVER_ID);
    s.append("\r\nUSN: ");
    s.append(usn);
    s.append("\r\nBOOTID.UPNP.ORG: 1\r\nCONFIGID.UPNP.ORG: 1\r\n");
    if searchport {
        s.append("SEARCHPORT.UPNP.ORG: 1900\r\n");
    } else {
        s.append("");
    }
    s.append("\r\n");
    s
}

/// A search reply echoes the request's search target: a request with an `ST`
/// other than `ssdp:all` is answered with exactly that target (and its USN),
/// one without `ST` with the first device type, and `ssdp:all` with the four
/// targets of the device.
pub proof fn law_reply_echoes_st(msg: Seq<char>, uuid: Seq<char>)
    ensures
        match st_in(lines(msg)) {
            Some(st) => if eq_ignore_ascii_case(st, "ssdp:all"@) {
                &&& reply_targets_of(uuid, reply_st(msg)).len() == 4
                &&& reply_targets_of(uuid, reply_st(msg))[3] == ("uuid:"@ + uuid, "uuid:"@ + uuid)
            } else {
                reply_targets_of(uuid, reply_st(msg)) == seq![(st, usn_for(uuid, st))]
            },
            None => reply_st(msg) == DEVICE_TYPE@,
        },
{
}

// ---------------------------------------------------------------------------
// The discovery loop's timers.
// ---------------------------------------------------------------------------

/// How often the device re-announces itself with `ssdp:alive` (30 s).
pub const ALIVE_PERIOD_MS: u64 = 30_000;

/// How often the interface list is read again, when it is not fixed by the
/// user (5 s).
pub const IFACE_CHECK_MS: u64 = 5_000;

/// The discovery loop's state: when it last announced, when it last looked at
/// the interfaces, and the interface addresses it serves.
pub struct SsdpLoopState {
    pub last_alive_ms: u64,
    pub last_check_ms: u64,
    pub ifaces: Vec<(u8, u8, u8, u8)>,
}

/// At least `period` milliseconds lie between `since` and `now`.
pub open spec fn elapsed_at_least(now: u64, since: u64, period: u64) -> bool {
    now as int - since as int >= period as int
}

/// The interfaces are read again: they are not fixed by the user and the
/// check period has passed.
pub open spec fn scan_due_of(last_check_ms: u64, now_ms: u64, tracks_ifaces: bool) -> bool {
    tracks_ifaces && elapsed_at_least(now_ms, last_check_ms, IFACE_CHECK_MS)
}

/// The interface list changed: a scan was due and its result differs from the
/// list served.
pub open spec fn ifaces_changed_of(
    last_check_ms: u64,
    served: Seq<(u8, u8, u8, u8)>,
    now_ms: u64,
    tracks_ifaces: bool,
    current: Option<Seq<(u8, u8, u8, u8)>>,
) -> bool {
    scan_due_of(last_check_ms, now_ms, tracks_ifaces) && match current {
        Some(c) => c != served,
        None => false,
    }
}

impl SsdpLoopState {
    /// The state right after the first announcement at `now_ms`, serving
    /// `ifaces`.
    pub fn new(now_ms: u64, ifaces: Vec<(u8, u8, u8, u8)>) -> (r: Self)
        ensures
            r.last_alive_ms == now_ms,
            r.last_check_ms == now_ms,
            r.ifaces@ == ifaces@,
    {
        SsdpLoopState { last_alive_ms: now_ms, last_check_ms: now_ms, ifaces }
    }
}

/// Whether the loop must read the interface list at `now_ms` (and pass it to
/// `ssdp_tick`).
pub fn ssdp_scan_due(st: &SsdpLoopState, now_ms: u64, tracks_ifaces: bool) -> (r: bool)
    ensures
        r == scan_due_of(st.last_check_ms, now_ms, tracks_ifaces),
{
    tracks_ifaces && now_ms >= st.last_check_ms && now_ms - st.last_check_ms >= IFACE_CHECK_MS
}

/// Whether two interface lists are equal.
fn same_ifaces(a: &Vec<(u8, u8, u8, u8)>, b: &Vec<(u8, u8, u8, u8)>) -> (r: bool)
    ensures
        r == (a@ == b@),
{
    if a.len() != b.len() {
        return false;
    }
    let mut i: usize = 0;
    while i < a.len()
        invariant
            i <= a.len(),
            a.len() == b.len(),
            forall|k: int| 0 <= k < i ==> a@[k] == b@[k],
        decreases a.len() - i,
    {
        let x = a[i];
        let y = b[i];
        if !(x.0 == y.0 && x.1 == y.1 && x.2 == y.2 && x.3 == y.3) {
            assert(a@[i as int] != b@[i as int]);
            return false;
        }
        i = i + 1;
    }
    assert(a@ =~= b@);
    true
}

/// One turn of the discovery loop at `now_ms`, given the interface list read
/// now (`current`, read when `ssdp_scan_due` says so). Returns whether the
/// periodic `ssdp:alive` round is due (every 30 s, sent on the interfaces
/// served so far), and whether the interfaces changed (the list is compared
/// every 5 s unless the user fixed the interface; on a change the multicast
/// group is joined on each again, the sending sockets are rebuilt and a
/// further `ssdp:alive` round is sent on them). When both fall in one turn,
/// both rounds are sent, the periodic one first.
pub fn ssdp_tick(
    st: &mut SsdpLoopState,
    now_ms: u64,
    tracks_ifaces: bool,
    current: Option<Vec<(u8, u8, u8, u8)>>,
) -> (a: (bool, bool))
    ensures
        ({
            let changed = ifaces_changed_of(
                old(st).last_check_ms,
                old(st).ifaces@,
                now_ms,
                tracks_ifaces,
                match current {
                    Some(c) => Some(c@),
                    None => None,
                },
            );
            let alive_due = elapsed_at_least(now_ms, old(st).last_alive_ms, ALIVE_PERIOD_MS);
            &&& a.0 == alive_due
            &&& a.1 == changed
            &&& final(st).last_alive_ms == (if alive_due {
                now_ms
            } else {
                old(st).last_alive_ms
            })
            &&& final(st).last_check_ms == (if elapsed_at_least(
                now_ms,
                old(st).last_check_ms,
                IFACE_CHECK_MS,
            ) {
                now_ms
            } else {
                old(st).last_check_ms
            })
            &&& final(st).ifaces@ == (if changed {
                current.unwrap()@
            } else {
                old(st).ifaces@
            })
        }),
{
    let alive_due = now_ms >= st.last_alive_ms && now_ms - st.last_alive_ms >= ALIVE_PERIOD_MS;
    let check_due = now_ms >= st.last_check_ms && now_ms - st.last_check_ms >= IFACE_CHECK_MS;
    let mut changed = false;
    if check_due && tracks_ifaces {
        match current {
            Some(c) => {
                if !same_ifaces(&st.ifaces, &c) {
                    st.ifaces = c;
                    changed = true;
                }
            },
            None => {},
        }
    }
    if alive_due {
        st.last_alive_ms = now_ms;
    }
    if check_due {
        st.last_check_ms = now_ms;
    }
    (alive_due, changed)
}

/// What a received datagram (decoded as lossy UTF-8) asks of the renderer: the
/// search target to answer when it is an M-SEARCH the renderer answers.
pub open spec fn datagram_reply_st(datagram: Seq<u8>, uuid: Seq<char>) -> Option<Seq<char>> {
    let msg = spec_utf8_lossy(datagram);
    if msearch_matches(msg, uuid) {
        Some(reply_st(msg))
    } else {
        None
    }
}

/// The search target to answer for a received datagram, if it is an M-SEARCH
/// the renderer answers.
pub fn msearch_reply_st(datagram: &[u8], uuid: &str) -> (r: Option<String>)
    ensures
        match r {
            Some(st) => datagram_reply_st(datagram@, uuid@) == Some(st@),
            None => datagram_reply_st(datagram@, uuid@) is None,
        },
{
    let msg = utf8_lossy(datagram);
    if msearch_wants_reply(msg.as_str(), uuid) {
        Some(reply_search_target(msg.as_str()))
    } else {
        None
    }
}

/// A search target the device answers to by its own account: the target of
/// one of its announcements (both device types, `upnp:rootdevice`, its
/// `uuid:`), one of its service types, or `ssdp:all`.
pub open spec fn own_search_target(uuid: Seq<char>, t: Seq<char>) -> bool {
    ||| exists|i: int| 0 <= i < announcements_of(uuid, true).len() && #[trigger] announcements_of(uuid, true)[i].0 == t
    ||| t == SERVICE_AVT@
    ||| t == SERVICE_RC@
    ||| t == SERVICE_CM@
    ||| t == "ssdp:all"@
}

/// The `ST` value found among lines occurs in one of them.
proof fn lemma_st_within(ls: Seq<Seq<char>>) -> (i: int)
    ensures
        st_in(ls) is Some ==> 0 <= i < ls.len() && contains_seq(ls[i], st_in(ls)->0),
    decreases ls.len(),
{
    if ls.len() == 0 {
        0
    } else {
        let l = trim_start(ls[0]);
        if l.len() >= 3 && eq_ignore_ascii_case(l.take(3), "st:"@) && trim(l.skip(3)).len() > 0 {
            let v = l.skip(3);
            lemma_trim_start_within(ls[0]);
            lemma_contains_subrange(l, 3, l.len() as int);
            assert(l.subrange(3, l.len() as int) =~= v);
            lemma_trim_start_within(v);
            lemma_trim_end_within(trim_start(v));
            lemma_contains_trans(ls[0], l, v);
            lemma_contains_trans(ls[0], v, trim_start(v));
            lemma_contains_trans(ls[0], trim_start(v), trim(v));
            0
        } else {
            let j = lemma_st_within(ls.drop_first());
            j + 1
        }
    }
}

/// Whatever the device announces itself as, it can be found by: a search
/// naming one of its own targets (see `own_search_target`) is answered, both
/// when the target stands in the request's `ST` header and wherever else the
/// request's text holds it.
pub proof fn law_own_targets_answered(msg: Seq<char>, uuid: Seq<char>)
    ensures
        forall|t: Seq<char>|
            contains_seq(msg, "M-SEARCH"@) && #[trigger] contains_seq(msg, t) && own_search_target(uuid, t)
                ==> msearch_matches(msg, uuid),
        match st_in(lines(msg)) {
            Some(st) => contains_seq(msg, "M-SEARCH"@) && own_search_target(uuid, st) ==> msearch_matches(
                msg,
                uuid,
            ),
            None => true,
        },
{
    let an = announcements_of(uuid, true);
    assert(an.len() == 4);
    assert(an[0].0 == DEVICE_TYPE@);
    assert(an[1].0 == DEVICE_TYPE_2@);
    assert(an[2].0 == "upnp:rootdevice"@);
    assert(an[3].0 == "uuid:"@ + uuid);
    assert forall|t: Seq<char>|
        contains_seq(msg, "M-SEARCH"@) && #[trigger] contains_seq(msg, t) && own_search_target(uuid, t)
            implies msearch_matches(msg, uuid) by {
        if exists|i: int| 0 <= i < an.len() && #[trigger] an[i].0 == t {
            let i = choose|i: int| 0 <= i < an.len() && #[trigger] an[i].0 == t;
            assert(i == 0 || i == 1 || i == 2 || i == 3);
        }
    }
    let ls = lines(msg);
    if st_in(ls) is Some {
        let i = lemma_st_within(ls);
        let st = st_in(ls)->0;
        lemma_lines_within(msg, i);
        lemma_contains_trans(msg, ls[i], st);
    }
}

} // verus!
