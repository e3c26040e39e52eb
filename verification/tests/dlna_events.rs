use screencast_receiver::dlna_renderer::events::{
    accept_subscription, callback_target, handle_event_subscribe, handle_event_unsubscribe, last_change_xml,
    notify_request, subscription_callback, EventSubs,
};

fn subscribe_request(callback: &str) -> String {
    format!(
        "SUBSCRIBE /upnp/event/AVTransport HTTP/1.1\r\nHOST: 10.0.0.2:8080\r\nCALLBACK: <{}>\r\nNT: upnp:event\r\nTIMEOUT: Second-1800\r\n\r\n",
        callback
    )
}

fn is_uuid(s: &str) -> bool {
    s.len() == 36
        && s.chars().enumerate().all(|(i, c)| {
            if i == 8 || i == 13 || i == 18 || i == 23 {
                c == '-'
            } else {
                c.is_ascii_digit() || ('a'..='f').contains(&c)
            }
        })
        && s.as_bytes()[14] == b'4'
}

#[test]
fn subscriber_table_replaces_a_callback() {
    let mut subs = EventSubs::new();
    subs.subscribe("http://a/cb".to_string(), "uuid:1".to_string());
    subs.subscribe("http://b/cb".to_string(), "uuid:2".to_string());
    subs.subscribe("http://a/cb".to_string(), "uuid:3".to_string());
    assert_eq!(subs.len(), 2);
    assert_eq!(
        subs.targets(),
        vec![
            ("http://b/cb".to_string(), "uuid:2".to_string()),
            ("http://a/cb".to_string(), "uuid:3".to_string())
        ]
    );
}

#[test]
fn subscribe_then_unsubscribe_restores_table() {
    let mut subs = EventSubs::new();
    subs.subscribe("http://a/cb".to_string(), "uuid:1".to_string());
    subs.subscribe("http://b/cb".to_string(), "uuid:2".to_string());
    let before = subs.targets();
    subs.subscribe("http://c/cb".to_string(), "uuid:9".to_string());
    subs.unsubscribe("uuid:9");
    assert_eq!(subs.targets(), before);
    subs.unsubscribe("uuid:unknown");
    assert_eq!(subs.targets(), before);
}

#[test]
fn subscription_needs_callback_and_nt() {
    assert_eq!(subscription_callback(&subscribe_request("http://10.0.0.9:49152/avt")), Some("http://10.0.0.9:49152/avt".to_string()));
    assert_eq!(
        subscription_callback("SUBSCRIBE /upnp/event/AVTransport HTTP/1.1\r\nCALLBACK: <http://x/>\r\n\r\n"),
        None
    );
    assert_eq!(
        subscription_callback("SUBSCRIBE /upnp/event/AVTransport HTTP/1.1\r\nNT: upnp:event\r\nCALLBACK: <>\r\n\r\n"),
        None
    );
}

#[test]
fn accepted_subscription_gets_uuid_sid() {
    let mut subs = EventSubs::new();
    let reply = handle_event_subscribe(&mut subs, &subscribe_request("http://10.0.0.9:49152/avt"));
    let sid = reply.response["HTTP/1.1 200 OK\r\nSID: ".len()..]
        .split("\r\n")
        .next()
        .unwrap()
        .to_string();
    assert!(sid.starts_with("uuid:"));
    assert!(is_uuid(&sid[5..]));
    assert_eq!(
        reply.response,
        format!("HTTP/1.1 200 OK\r\nSID: {}\r\nTIMEOUT: Second-1800\r\nContent-Length: 0\r\nConnection: close\r\n\r\n", sid)
    );
    let n = reply.notify.unwrap();
    assert_eq!(n.sid, sid);
    assert_eq!(n.callback, "http://10.0.0.9:49152/avt");
    assert_eq!(subs.targets(), vec![("http://10.0.0.9:49152/avt".to_string(), sid.clone())]);
    let again = handle_event_subscribe(&mut subs, &subscribe_request("http://10.0.0.9:49152/avt"));
    assert_eq!(subs.len(), 1);
    assert_ne!(again.notify.unwrap().sid, sid);
}

#[test]
fn refused_subscription_is_412() {
    let mut subs = EventSubs::new();
    let reply = handle_event_subscribe(&mut subs, "SUBSCRIBE /upnp/event/AVTransport HTTP/1.1\r\nNT: upnp:event\r\n\r\n");
    assert_eq!(
        reply.response,
        "HTTP/1.1 412 Precondition Failed\r\nContent-Type: text/plain\r\nContent-Length: 22\r\nConnection: close\r\n\r\nMissing CALLBACK or NT"
    );
    assert!(reply.notify.is_none());
    assert_eq!(subs.len(), 0);
}

#[test]
fn unsubscribe_by_sid_header() {
    let mut subs = EventSubs::new();
    let r = accept_subscription(&mut subs, "http://a/cb".to_string(), "uuid:abc".to_string());
    assert!(r.response.contains("SID: uuid:abc\r\n"));
    let resp = handle_event_unsubscribe(&mut subs, "UNSUBSCRIBE /upnp/event/AVTransport HTTP/1.1\r\nSID: uuid:abc\r\n\r\n");
    assert_eq!(resp, "HTTP/1.1 200 OK\r\nContent-Type: text/plain\r\nContent-Length: 0\r\nConnection: close\r\n\r\n");
    assert_eq!(subs.len(), 0);
}

#[test]
fn callback_targets() {
    let t = callback_target(" http://192.168.1.9:49152/upnp/event ").unwrap();
    assert_eq!((t.host.as_str(), t.port, t.path.as_str()), ("192.168.1.9", 49152, "/upnp/event"));
    let t = callback_target("http://host").unwrap();
    assert_eq!((t.host.as_str(), t.port, t.path.as_str()), ("host", 80, "/"));
    let t = callback_target("http://h:abc/x").unwrap();
    assert_eq!((t.host.as_str(), t.port, t.path.as_str()), ("h", 80, "/x"));
    let t = callback_target("http://h:70000/x").unwrap();
    assert_eq!(t.port, 80);
    assert!(callback_target("https://h/x").is_none());
}

#[test]
fn last_change_documents() {
    assert_eq!(
        last_change_xml(true),
        "<Event xmlns=\"urn:schemas-upnp-org:metadata-1-0/AVT/\"><InstanceID val=\"0\"><TransportState val=\"PAUSED_PLAYBACK\"/></InstanceID></Event>"
    );
    assert!(last_change_xml(false).contains("<TransportState val=\"PLAYING\"/>"));
}

#[test]
fn notify_request_format() {
    let t = callback_target("http://192.168.1.9:49152/evt").unwrap();
    let body = format!(
        "<?xml version=\"1.0\" encoding=\"utf-8\"?>\n<e:propertyset xmlns:e=\"urn:schemas-upnp-org:event-1-0\"><e:property><LastChange>{}</LastChange></e:property></e:propertyset>",
        "&lt;Event xmlns=&quot;urn:schemas-upnp-org:metadata-1-0/AVT/&quot;&gt;&lt;InstanceID val=&quot;0&quot;&gt;&lt;TransportState val=&quot;PLAYING&quot;/&gt;&lt;/InstanceID&gt;&lt;/Event&gt;"
    );
    let expected = format!(
        "NOTIFY /evt HTTP/1.1\r\nHOST: 192.168.1.9:49152\r\nCONTENT-TYPE: text/xml; charset=\"utf-8\"\r\nNT: upnp:event\r\nNTS: upnp:propchange\r\nSID: uuid:s1\r\nSEQ: 0\r\nCONTENT-LENGTH: {}\r\nCONNECTION: close\r\n\r\n{}",
        body.len(),
        body
    );
    assert_eq!(notify_request(&t, "uuid:s1", false), expected);
}
