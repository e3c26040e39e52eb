//! GENA eventing: the subscriber table, SUBSCRIBE/UNSUBSCRIBE handling and the
//! `LastChange` notification a subscriber is sent.
use vstd::prelude::*;
use crate::text::{
    chars_of, decimal, eq_ignore_ascii_case, eq_ignore_ascii_case_str, find, find_str,
    lemma_find_from, opt_int, parse_unsigned, parse_unsigned_chars, push_decimal, skip_chars,
    slice_chars, starts_with, starts_with_str, string_of, trim, trim_char, trim_char_chars,
    trim_chars,
};
use super::http::{extract_header_val, header_value, http_response, http_response_text, str_len};
use super::xml::{xml_escape, xml_escaped};
use super::{is_uuid_text, new_uuid};

verus! {

/// A GENA subscriber: its subscription id and callback URL.
pub struct EventSubscriber {
    pub sid: String,
    pub callback: String,
}

impl View for EventSubscriber {
    /// `(sid, callback)`.
    type V = (Seq<char>, Seq<char>);

    open spec fn view(&self) -> (Seq<char>, Seq<char>) {
        (self.sid@, self.callback@)
    }
}

/// The subscriber table, in subscription order.
pub struct EventSubs {
    subs: Vec<EventSubscriber>,
}

/// The entries whose callback is not `cb`, in order.
pub open spec fn drop_callback(s: Seq<(Seq<char>, Seq<char>)>, cb: Seq<char>) -> Seq<
    (Seq<char>, Seq<char>),
>
    decreases s.len(),
{
    if s.len() == 0 {
        s
    } else if s.last().1 == cb {
        drop_callback(s.drop_last(), cb)
    } else {
        drop_callback(s.drop_last(), cb).push(s.last())
    }
}

/// The entries whose subscription id is not `sid`, in order.
pub open spec fn drop_sid(s: Seq<(Seq<char>, Seq<char>)>, sid: Seq<char>) -> Seq<
    (Seq<char>, Seq<char>),
>
    decreases s.len(),
{
    if s.len() == 0 {
        s
    } else if s.last().0 == sid {
        drop_sid(s.drop_last(), sid)
    } else {
        drop_sid(s.drop_last(), sid).push(s.last())
    }
}

/// No two entries share a callback URL.
pub open spec fn unique_callbacks(s: Seq<(Seq<char>, Seq<char>)>) -> bool {
    forall|i: int, j: int| 0 <= i < s.len() && 0 <= j < s.len() && i != j ==> s[i].1 != s[j].1
}

/// Some entry has subscription id `sid`.
pub open spec fn has_sid(s: Seq<(Seq<char>, Seq<char>)>, sid: Seq<char>) -> bool {
    exists|i: int| 0 <= i < s.len() && s[i].0 == sid
}

/// Every entry of `drop_callback(s, cb)` is an entry of `s` without callback `cb`.
proof fn lemma_drop_callback_members(s: Seq<(Seq<char>, Seq<char>)>, cb: Seq<char>)
    ensures
        forall|i: int|
            0 <= i < drop_callback(s, cb).len() ==> (exists|j: int|
                0 <= j < s.len() && s[j] == #[trigger] drop_callback(s, cb)[i]) && drop_callback(
                s,
                cb,
            )[i].1 != cb,
    decreases s.len(),
{
    if s.len() > 0 {
        let t = s.drop_last();
        lemma_drop_callback_members(t, cb);
        assert forall|i: int| 0 <= i < drop_callback(s, cb).len() implies (exists|j: int|
            0 <= j < s.len() && s[j] == #[trigger] drop_callback(s, cb)[i]) && drop_callback(
            s,
            cb,
        )[i].1 != cb by {
            if s.last().1 == cb {
                let j = choose|j: int| 0 <= j < t.len() && t[j] == drop_callback(t, cb)[i];
                assert(s[j] == t[j]);
            } else if i < drop_callback(t, cb).len() {
                let j = choose|j: int| 0 <= j < t.len() && t[j] == drop_callback(t, cb)[i];
                assert(s[j] == t[j]);
            } else {
                assert(s[s.len() - 1] == drop_callback(s, cb)[i]);
            }
        }
    }
}

/// Every entry of `drop_sid(s, sid)` is an entry of `s` without id `sid`.
proof fn lemma_drop_sid_members(s: Seq<(Seq<char>, Seq<char>)>, sid: Seq<char>)
    ensures
        forall|i: int|
            0 <= i < drop_sid(s, sid).len() ==> (exists|j: int|
                0 <= j < s.len() && s[j] == #[trigger] drop_sid(s, sid)[i]) && drop_sid(s, sid)[i].0
                != sid,
    decreases s.len(),
{
    if s.len() > 0 {
        let t = s.drop_last();
        lemma_drop_sid_members(t, sid);
        assert forall|i: int| 0 <= i < drop_sid(s, sid).len() implies (exists|j: int|
            0 <= j < s.len() && s[j] == #[trigger] drop_sid(s, sid)[i]) && drop_sid(s, sid)[i].0
            != sid by {
            if s.last().0 == sid {
                let j = choose|j: int| 0 <= j < t.len() && t[j] == drop_sid(t, sid)[i];
                assert(s[j] == t[j]);
            } else if i < drop_sid(t, sid).len() {
                let j = choose|j: int| 0 <= j < t.len() && t[j] == drop_sid(t, sid)[i];
                assert(s[j] == t[j]);
            } else {
                assert(s[s.len() - 1] == drop_sid(s, sid)[i]);
            }
        }
    }
}

/// Dropping entries keeps callbacks unique.
proof fn lemma_drop_callback_unique(s: Seq<(Seq<char>, Seq<char>)>, cb: Seq<char>)
    requires
        unique_callbacks(s),
    ensures
        unique_callbacks(drop_callback(s, cb)),
    decreases s.len(),
{
    if s.len() > 0 {
        let t = s.drop_last();
        assert(unique_callbacks(t)) by {
            assert forall|i: int, j: int|
                0 <= i < t.len() && 0 <= j < t.len() && i != j implies t[i].1 != t[j].1 by {
                assert(t[i] == s[i] && t[j] == s[j]);
            }
        }
        lemma_drop_callback_unique(t, cb);
        lemma_drop_callback_members(t, cb);
        if s.last().1 != cb {
            let d = drop_callback(t, cb);
            let n = d.push(s.last());
            assert forall|i: int, j: int|
                0 <= i < n.len() && 0 <= j < n.len() && i != j implies n[i].1 != n[j].1 by {
                if i < d.len() && j < d.len() {
                    assert(n[i] == d[i] && n[j] == d[j]);
                } else if i < d.len() {
                    let k = choose|k: int| 0 <= k < t.len() && t[k] == d[i];
                    assert(s[k] == t[k]);
                    assert(n[j] == s[s.len() - 1]);
                } else if j < d.len() {
                    let k = choose|k: int| 0 <= k < t.len() && t[k] == d[j];
                    assert(s[k] == t[k]);
                    assert(n[i] == s[s.len() - 1]);
                }
            }
        }
    }
}

/// Dropping entries keeps callbacks unique.
proof fn lemma_drop_sid_unique(s: Seq<(Seq<char>, Seq<char>)>, sid: Seq<char>)
    requires
        unique_callbacks(s),
    ensures
        unique_callbacks(drop_sid(s, sid)),
    decreases s.len(),
{
    if s.len() > 0 {
        let t = s.drop_last();
        assert(unique_callbacks(t)) by {
            assert forall|i: int, j: int|
                0 <= i < t.len() && 0 <= j < t.len() && i != j implies t[i].1 != t[j].1 by {
                assert(t[i] == s[i] && t[j] == s[j]);
            }
        }
        lemma_drop_sid_unique(t, sid);
        lemma_drop_sid_members(t, sid);
        if s.last().0 != sid {
            let d = drop_sid(t, sid);
            let n = d.push(s.last());
            assert forall|i: int, j: int|
                0 <= i < n.len() && 0 <= j < n.len() && i != j implies n[i].1 != n[j].1 by {
                if i < d.len() && j < d.len() {
                    assert(n[i] == d[i] && n[j] == d[j]);
                } else if i < d.len() {
                    let k = choose|k: int| 0 <= k < t.len() && t[k] == d[i];
                    assert(s[k] == t[k]);
                    assert(n[j] == s[s.len() - 1]);
                } else if j < d.len() {
                    let k = choose|k: int| 0 <= k < t.len() && t[k] == d[j];
                    assert(s[k] == t[k]);
                    assert(n[i] == s[s.len() - 1]);
                }
            }
        }
    }
}

/// Without an entry of id `sid`, dropping `sid` changes nothing.
proof fn lemma_drop_sid_absent(s: Seq<(Seq<char>, Seq<char>)>, sid: Seq<char>)
    requires
        !has_sid(s, sid),
    ensures
        drop_sid(s, sid) == s,
    decreases s.len(),
{
    if s.len() > 0 {
        let t = s.drop_last();
        assert(!has_sid(t, sid)) by {
            if has_sid(t, sid) {
                let i = choose|i: int| 0 <= i < t.len() && t[i].0 == sid;
                assert(s[i] == t[i]);
            }
        }
        lemma_drop_sid_absent(t, sid);
        assert(s[s.len() - 1].0 != sid);
        assert(t.push(s.last()) =~= s);
    }
}

impl EventSubs {
    /// The table as `(sid, callback)` pairs in subscription order.
    pub closed spec fn entries(&self) -> Seq<(Seq<char>, Seq<char>)> {
        self.subs@.map_values(|e: EventSubscriber| e@)
    }

    /// The table's invariant: one subscription per callback URL.
    pub open spec fn wf(&self) -> bool {
        unique_callbacks(self.entries())
    }

    /// An empty table.
    pub fn new() -> (r: Self)
        ensures
            r.entries() == Seq::<(Seq<char>, Seq<char>)>::empty(),
            r.wf(),
    {
        let r = EventSubs { subs: Vec::new() };
        assert(r.entries() =~= Seq::<(Seq<char>, Seq<char>)>::empty());
        r
    }

    /// Number of subscriptions.
    pub fn len(&self) -> (r: usize)
        ensures
            r == self.entries().len(),
    {
        self.subs.len()
    }

    /// Registers `callback` under `sid`, replacing an earlier subscription of the
    /// same callback; the new subscription comes last.
    pub fn subscribe(&mut self, callback: String, sid: String)
        ensures
            final(self).entries() == drop_callback(old(self).entries(), callback@).push(
                (sid@, callback@),
            ),
            old(self).wf() ==> final(self).wf(),
    {
        let ghost old_entries = self.entries();
        let mut kept: Vec<EventSubscriber> = Vec::new();
        let mut i: usize = 0;
        let cbv = chars_of(callback.as_str());
        while i < self.subs.len()
            invariant
                i <= self.subs.len(),
                cbv@ == callback@,
                self.entries() == old_entries,
                kept@.map_values(|e: EventSubscriber| e@) == drop_callback(
                    old_entries.take(i as int),
                    callback@,
                ),
            decreases self.subs.len() - i,
        {
            let ghost prefix = old_entries.take(i as int + 1);
            proof {
                assert(prefix.drop_last() =~= old_entries.take(i as int));
                assert(prefix.last() == self.subs@[i as int]@);
            }
            let c = chars_of(self.subs[i].callback.as_str());
            if !crate::text::eq_chars(&c, &cbv) {
                let e = EventSubscriber {
                    sid: self.subs[i].sid.clone(),
                    callback: self.subs[i].callback.clone(),
                };
                let ghost before = kept@;
                kept.push(e);
                proof {
                    assert(kept@.map_values(|e: EventSubscriber| e@) =~= before.map_values(
                        |e: EventSubscriber| e@,
                    ).push(prefix.last()));
                }
            }
            i = i + 1;
        }
        proof {
            assert(old_entries.take(self.subs.len() as int) =~= old_entries);
        }
        let ghost dropped = kept@.map_values(|e: EventSubscriber| e@);
        kept.push(EventSubscriber { sid, callback });
        self.subs = kept;
        proof {
            assert(self.entries() =~= dropped.push((sid@, callback@)));
            if unique_callbacks(old_entries) {
                lemma_drop_callback_unique(old_entries, callback@);
                lemma_drop_callback_members(old_entries, callback@);
                let n = self.entries();
                assert forall|i: int, j: int|
                    0 <= i < n.len() && 0 <= j < n.len() && i != j implies n[i].1 != n[j].1 by {
                    if i < dropped.len() && j < dropped.len() {
                        assert(n[i] == dropped[i] && n[j] == dropped[j]);
                    } else if i < dropped.len() {
                        assert(n[i] == dropped[i]);
                    } else if j < dropped.len() {
                        assert(n[j] == dropped[j]);
                    }
                }
            }
        }
    }

    /// Removes every subscription with id `sid`.
    pub fn unsubscribe(&mut self, sid: &str)
        ensures
            final(self).entries() == drop_sid(old(self).entries(), sid@),
            old(self).wf() ==> final(self).wf(),
    {
        let ghost old_entries = self.entries();
        let mut kept: Vec<EventSubscriber> = Vec::new();
        let mut i: usize = 0;
        let sv = chars_of(sid);
        while i < self.subs.len()
            invariant
                i <= self.subs.len(),
                sv@ == sid@,
                self.entries() == old_entries,
                kept@.map_values(|e: EventSubscriber| e@) == drop_sid(
                    old_entries.take(i as int),
                    sid@,
                ),
            decreases self.subs.len() - i,
        {
            let ghost prefix = old_entries.take(i as int + 1);
            proof {
                assert(prefix.drop_last() =~= old_entries.take(i as int));
                assert(prefix.last() == self.subs@[i as int]@);
            }
            let c = chars_of(self.subs[i].sid.as_str());
            if !crate::text::eq_chars(&c, &sv) {
                let e = EventSubscriber {
                    sid: self.subs[i].sid.clone(),
                    callback: self.subs[i].callback.clone(),
                };
                let ghost before = kept@;
                kept.push(e);
                proof {
                    assert(kept@.map_values(|e: EventSubscriber| e@) =~= before.map_values(
                        |e: EventSubscriber| e@,
                    ).push(prefix.last()));
                }
            }
            i = i + 1;
        }
        proof {
            assert(old_entries.take(self.subs.len() as int) =~= old_entries);
        }
        self.subs = kept;
        proof {
            if unique_callbacks(old_entries) {
                lemma_drop_sid_unique(old_entries, sid@);
            }
        }
    }

    /// The `(callback, sid)` pairs to notify, in subscription order.
    pub fn targets(&self) -> (r: Vec<(String, String)>)
        ensures
            r@.len() == self.entries().len(),
            forall|i: int|
                0 <= i < r@.len() ==> (#[trigger] r@[i]).0@ == self.entries()[i].1 && r@[i].1@
                    == self.entries()[i].0,
    {
        let mut r: Vec<(String, String)> = Vec::new();
        let mut i: usize = 0;
        while i < self.subs.len()
            invariant
                i <= self.subs.len(),
                r@.len() == i,
                forall|k: int|
                    0 <= k < i ==> (#[trigger] r@[k]).0@ == self.entries()[k].1 && r@[k].1@
                        == self.entries()[k].0,
            decreases self.subs.len() - i,
        {
            r.push((self.subs[i].callback.clone(), self.subs[i].sid.clone()));
            i = i + 1;
        }
        r
    }
}

/// Subscribing a callback and then unsubscribing the id it was given leaves the
/// table as it was with that callback's earlier subscription removed, provided
/// the id was not in use.
pub proof fn law_subscribe_unsubscribe(
    s: Seq<(Seq<char>, Seq<char>)>,
    callback: Seq<char>,
    sid: Seq<char>,
)
    requires
        !has_sid(s, sid),
    ensures
        drop_sid(drop_callback(s, callback).push((sid, callback)), sid) == drop_callback(s, callback),
{
    let d = drop_callback(s, callback);
    let n = d.push((sid, callback));
    assert(n.drop_last() =~= d);
    lemma_drop_callback_members(s, callback);
    assert(!has_sid(d, sid)) by {
        if has_sid(d, sid) {
            let i = choose|i: int| 0 <= i < d.len() && d[i].0 == sid;
            let j = choose|j: int| 0 <= j < s.len() && s[j] == d[i];
            assert(s[j].0 == sid);
        }
    }
    lemma_drop_sid_absent(d, sid);
}

/// After a subscription, the callback has exactly one entry: the new one.
pub proof fn law_subscribe_single(s: Seq<(Seq<char>, Seq<char>)>, callback: Seq<char>, sid: Seq<char>)
    ensures
        ({
            let n = drop_callback(s, callback).push((sid, callback));
            forall|i: int| 0 <= i < n.len() && (#[trigger] n[i]).1 == callback ==> i == n.len() - 1
                && n[i].0 == sid
        }),
{
    lemma_drop_callback_members(s, callback);
    let d = drop_callback(s, callback);
    let n = d.push((sid, callback));
    assert forall|i: int| 0 <= i < n.len() && (#[trigger] n[i]).1 == callback implies i == n.len()
        - 1 && n[i].0 == sid by {
        if i < d.len() {
            assert(n[i] == d[i]);
        }
    }
}

// ---------------------------------------------------------------------------
// SUBSCRIBE / UNSUBSCRIBE.
// ---------------------------------------------------------------------------

/// A header's value, or the empty sequence when absent.
pub open spec fn header_or_empty(request: Seq<char>, name: Seq<char>) -> Seq<char> {
    match header_value(request, name) {
        Some(v) => v,
        None => Seq::empty(),
    }
}

/// The callback URL of a SUBSCRIBE request (the `CALLBACK` header without its
/// angle brackets), when the request is acceptable: a non-empty callback and
/// `NT: upnp:event`.
pub open spec fn subscription_callback_of(request: Seq<char>) -> Option<Seq<char>> {
    let callback = trim_char(trim_char(header_or_empty(request, "CALLBACK"@), '<'), '>');
    let nt = header_or_empty(request, "NT"@);
    if callback.len() == 0 || !eq_ignore_ascii_case(nt, "upnp:event"@) {
        None
    } else {
        Some(callback)
    }
}

/// The answer to an unacceptable SUBSCRIBE.
pub open spec fn precondition_failed_text() -> Seq<char> {
    http_response_text("412 Precondition Failed"@, "text/plain"@, "Missing CALLBACK or NT"@)
}

/// The answer to an accepted SUBSCRIBE.
pub open spec fn subscribed_text(sid: Seq<char>) -> Seq<char> {
    "HTTP/1.1 200 OK\r\nSID: "@ + sid
        + "\r\nTIMEOUT: Second-1800\r\nContent-Length: 0\r\nConnection: close\r\n\r\n"@
}

/// The validated callback URL of a SUBSCRIBE request.
pub fn subscription_callback(request: &str) -> (r: Option<String>)
    ensures
        match r {
            Some(c) => subscription_callback_of(request@) == Some(c@),
            None => subscription_callback_of(request@) is None,
        },
{
    let raw = match extract_header_val(request, "CALLBACK") {
        Some(v) => chars_of(v.as_str()),
        None => Vec::new(),
    };
    let a = trim_char_chars(&raw, '<');
    let callback = trim_char_chars(&a, '>');
    let nt = match extract_header_val(request, "NT") {
        Some(v) => chars_of(v.as_str()),
        None => Vec::new(),
    };
    if callback.len() == 0 || !eq_ignore_ascii_case_str(&nt, "upnp:event") {
        None
    } else {
        Some(string_of(&callback))
    }
}

/// What a SUBSCRIBE produced: the HTTP answer and, when accepted, the
/// subscriber to send the current state to.
pub struct SubscribeReply {
    pub response: String,
    pub notify: Option<EventSubscriber>,
}

/// Accepts a subscription of `callback` under `sid`: records it and answers
/// with the SID and a 1800-second timeout.
pub fn accept_subscription(subs: &mut EventSubs, callback: String, sid: String) -> (r:
    SubscribeReply)
    ensures
        final(subs).entries() == drop_callback(old(subs).entries(), callback@).push(
            (sid@, callback@),
        ),
        old(subs).wf() ==> final(subs).wf(),
        r.response@ == subscribed_text(sid@),
        r.notify matches Some(n) && n@ == (sid@, callback@),
{
    let mut response = String::new();
    response.append("HTTP/1.1 200 OK\r\nSID: ");
    response.append(sid.as_str());
    response.append("\r\nTIMEOUT: Second-1800\r\nContent-Length: 0\r\nConnection: close\r\n\r\n");
    let notify = EventSubscriber { sid: sid.clone(), callback: callback.clone() };
    subs.subscribe(callback, sid);
    SubscribeReply { response, notify: Some(notify) }
}

/// Handles a SUBSCRIBE request: a refused request leaves the table unchanged and
/// is answered 412; an accepted one gets a fresh `uuid:` subscription id.
pub fn handle_event_subscribe(subs: &mut EventSubs, request: &str) -> (r: SubscribeReply)
    ensures
        old(subs).wf() ==> final(subs).wf(),
        match subscription_callback_of(request@) {
            None => {
                &&& final(subs).entries() == old(subs).entries()
                &&& r.response@ == precondition_failed_text()
                &&& r.notify is None
            },
            Some(cb) => exists|u: Seq<char>|
                #![trigger is_uuid_text(u)]
                {
                    let sid = "uuid:"@ + u;
                    &&& is_uuid_text(u)
                    &&& final(subs).entries() == drop_callback(old(subs).entries(), cb).push((sid, cb))
                    &&& r.response@ == subscribed_text(sid)
                    &&& r.notify matches Some(n) && n@ == (sid, cb)
                },
        },
{
    match subscription_callback(request) {
        None => SubscribeReply {
            response: http_response("412 Precondition Failed", "text/plain", "Missing CALLBACK or NT"),
            notify: None,
        },
        Some(callback) => {
            let u = new_uuid();
            let mut sid = String::new();
            sid.append("uuid:");
            sid.append(u.as_str());
            let ghost cb = callback@;
            let ghost s = sid@;
            let r = accept_subscription(subs, callback, sid);
            assert(s == "uuid:"@ + u@);
            assert(is_uuid_text(u@));
            r
        },
    }
}

/// The answer to an UNSUBSCRIBE.
pub open spec fn unsubscribed_text() -> Seq<char> {
    http_response_text("200 OK"@, "text/plain"@, ""@)
}

/// Handles an UNSUBSCRIBE request: removes the subscription named by its `SID`
/// header.
pub fn handle_event_unsubscribe(subs: &mut EventSubs, request: &str) -> (r: String)
    ensures
        final(subs).entries() == drop_sid(old(subs).entries(), header_or_empty(request@, "SID"@)),
        old(subs).wf() ==> final(subs).wf(),
        r@ == unsubscribed_text(),
{
    let sid = match extract_header_val(request, "SID") {
        Some(v) => v,
        None => String::new(),
    };
    subs.unsubscribe(sid.as_str());
    http_response("200 OK", "text/plain", "")
}

// ---------------------------------------------------------------------------
// NOTIFY.
// ---------------------------------------------------------------------------

/// The AVTransport `LastChange` event document for the player's state.
pub open spec fn last_change_text(paused: bool) -> Seq<char> {
    "<Event xmlns=\"urn:schemas-upnp-org:metadata-1-0/AVT/\"><InstanceID val=\"0\"><TransportState val=\""@
        + (if paused {
        "PAUSED_PLAYBACK"@
    } else {
        "PLAYING"@
    }) + "\"/></InstanceID></Event>"@
}

/// The `LastChange` event document.
pub fn last_change_xml(paused: bool) -> (r: String)
    ensures
        r@ == last_change_text(paused),
{
    let mut s = String::new();
    s.append(
        "<Event xmlns=\"urn:schemas-upnp-org:metadata-1-0/AVT/\"><InstanceID val=\"0\"><TransportState val=\"",
    );
    if paused {
        s.append("PAUSED_PLAYBACK");
    } else {
        s.append("PLAYING");
    }
    s.append("\"/></InstanceID></Event>");
    s
}

/// Where a NOTIFY goes: host, port and path of a callback URL.
pub struct CallbackTarget {
    pub host: String,
    pub port: u16,
    pub path: String,
}

/// The last index of `c` in `s`.
pub open spec fn last_index_of(s: Seq<char>, c: char) -> Option<int>
    decreases s.len(),
{
    if s.len() == 0 {
        None
    } else if s.last() == c {
        Some(s.len() - 1)
    } else {
        last_index_of(s.drop_last(), c)
    }
}

/// The host, port and path of an `http://` callback URL (after trimming): the
/// path starts at the first `/` after the scheme (`/` when there is none); the
/// port follows the last `:` of the host part (80 when absent or not a number).
pub open spec fn callback_target_of(callback: Seq<char>) -> Option<(Seq<char>, u16, Seq<char>)> {
    let url = trim(callback);
    if !starts_with(url, "http://"@) {
        None
    } else {
        let rest = url.skip(7);
        let (host_port, path) = match find(rest, "/"@) {
            Some(i) => (rest.take(i), rest.skip(i)),
            None => (rest, "/"@),
        };
        match last_index_of(host_port, ':') {
            Some(k) => Some(
                (
                    host_port.take(k),
                    match parse_unsigned(host_port.skip(k + 1), u16::MAX as nat) {
                        Some(p) => p as u16,
                        None => 80u16,
                    },
                    path,
                ),
            ),
            None => Some((host_port, 80u16, path)),
        }
    }
}

fn last_index_of_chars(s: &Vec<char>, c: char) -> (r: Option<usize>)
    ensures
        opt_int(r) == last_index_of(s@, c),
{
    let mut i = s.len();
    proof {
        assert(s@.take(s.len() as int) =~= s@);
    }
    while i > 0
        invariant
            i <= s.len(),
            last_index_of(s@, c) == last_index_of(s@.take(i as int), c),
        decreases i,
    {
        proof {
            assert(s@.take(i as int).drop_last() =~= s@.take(i - 1));
        }
        if s[i - 1] == c {
            return Some(i - 1);
        }
        i = i - 1;
    }
    None
}

/// Parses a callback URL into where to send the NOTIFY.
pub fn callback_target(callback: &str) -> (r: Option<CallbackTarget>)
    ensures
        match r {
            Some(t) => callback_target_of(callback@) == Some((t.host@, t.port, t.path@)),
            None => callback_target_of(callback@) is None,
        },
{
    let raw = chars_of(callback);
    let url = trim_chars(&raw);
    if !starts_with_str(&url, "http://") {
        return None;
    }
    proof {
        reveal_strlit("http://");
        reveal_strlit("/");
    }
    let rest = skip_chars(&url, 7);
    let (host_port, path) = match find_str(&rest, "/", 0) {
        Some(i) => {
            proof {
                lemma_find_from(rest@, "/"@, 0);
            }
            (slice_chars(&rest, 0, i), skip_chars(&rest, i))
        },
        None => (rest, chars_of("/")),
    };
    match last_index_of_chars(&host_port, ':') {
        Some(k) => {
            proof {
                lemma_last_index_bound(host_port@, ':');
            }
            let host = slice_chars(&host_port, 0, k);
            let port_text = skip_chars(&host_port, k + 1);
            let port: u16 = match parse_unsigned_chars(&port_text, u16::MAX as u64) {
                Some(p) => p as u16,
                None => 80,
            };
            Some(CallbackTarget { host: string_of(&host), port, path: string_of(&path) })
        },
        None => Some(CallbackTarget { host: string_of(&host_port), port: 80, path: string_of(&path) }),
    }
}

proof fn lemma_last_index_bound(s: Seq<char>, c: char)
    ensures
        last_index_of(s, c) matches Some(k) ==> 0 <= k < s.len(),
    decreases s.len(),
{
    if s.len() > 0 && s.last() != c {
        lemma_last_index_bound(s.drop_last(), c);
    }
}

/// The property-set body of a `LastChange` NOTIFY.
pub open spec fn propertyset_text(paused: bool) -> Seq<char> {
    "<?xml version=\"1.0\" encoding=\"utf-8\"?>\n<e:propertyset xmlns:e=\"urn:schemas-upnp-org:event-1-0\"><e:property><LastChange>"@
        + xml_escaped(last_change_text(paused)) + "</LastChange></e:property></e:propertyset>"@
}

/// The NOTIFY request sent to a subscriber.
pub open spec fn notify_request_text(
    path: Seq<char>,
    host: Seq<char>,
    port: u16,
    sid: Seq<char>,
    paused: bool,
) -> Seq<char> {
    let body = propertyset_text(paused);
    "NOTIFY "@ + path + " HTTP/1.1\r\nHOST: "@ + host + ":"@ + decimal(port as nat)
        + "\r\nCONTENT-TYPE: text/xml; charset=\"utf-8\"\r\nNT: upnp:event\r\nNTS: upnp:propchange\r\nSID: "@
        + sid + "\r\nSEQ: 0\r\nCONTENT-LENGTH: "@ + decimal(str_len(body) as nat)
        + "\r\nCONNECTION: close\r\n\r\n"@ + body
}

/// The `LastChange` NOTIFY request for a subscriber at `target`.
pub fn notify_request(target: &CallbackTarget, sid: &str, paused: bool) -> (r: String)
    ensures
        r@ == notify_request_text(target.path@, target.host@, target.port, sid@, paused),
{
    let mut body = String::new();
    body.append(
        "<?xml version=\"1.0\" encoding=\"utf-8\"?>\n<e:propertyset xmlns:e=\"urn:schemas-upnp-org:event-1-0\"><e:property><LastChange>",
    );
    body.append(xml_escape(last_change_xml(paused).as_str()).as_str());
    body.append("</LastChange></e:property></e:propertyset>");
    let mut msg = String::new();
    msg.append("NOTIFY ");
    msg.append(target.path.as_str());
    msg.append(" HTTP/1.1\r\nHOST: ");
    msg.append(target.host.as_str());
    msg.append(":");
    push_decimal(&mut msg, target.port as u64);
    msg.append(
        "\r\nCONTENT-TYPE: text/xml; charset=\"utf-8\"\r\nNT: upnp:event\r\nNTS: upnp:propchange\r\nSID: ",
    );
    msg.append(sid);
    msg.append("\r\nSEQ: 0\r\nCONTENT-LENGTH: ");
    push_decimal(&mut msg, body.as_str().len() as u64);
    msg.append("\r\nCONNECTION: close\r\n\r\n");
    msg.append(body.as_str());
    msg
}

} // verus!
