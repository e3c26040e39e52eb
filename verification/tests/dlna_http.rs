use screencast_receiver::dlna_renderer::description::{avt_scpd, cm_scpd, device_description, rc_scpd, DEVICE_TYPE};
use screencast_receiver::dlna_renderer::http::{
    extract_header, extract_header_val, find_header_end, parse_content_length, remote_content_length,
    request_body, route_request, DlnaRoute, LengthRule, RequestBuffer,
};
use screencast_receiver::dlna_renderer::{dispatch, icon_response, icon_response_for};

#[test]
fn header_end_position() {
    assert_eq!(find_header_end(b"GET / HTTP/1.1\r\nA: b\r\n\r\nbody"), Some(20));
    assert_eq!(find_header_end(b"GET / HTTP/1.1\r\n"), None);
    assert_eq!(find_header_end(b""), None);
}

#[test]
fn content_length_first_field() {
    assert_eq!(parse_content_length("POST /x HTTP/1.1\r\nHost: a\r\nContent-Length: 12\r\n"), 12);
    assert_eq!(parse_content_length("POST /x HTTP/1.1\r\nCONTENT-LENGTH:  7 "), 7);
    assert_eq!(parse_content_length("POST /x HTTP/1.1\r\nContent-Length: x\r\ncontent-length: 5"), 0);
    assert_eq!(parse_content_length("GET / HTTP/1.1"), 0);
}

#[test]
fn content_length_first_parsable_field() {
    assert_eq!(remote_content_length("POST /x HTTP/1.1\r\nContent-Length: x\r\ncontent-length: 5"), 5);
    assert_eq!(remote_content_length("POST /x HTTP/1.1\r\nContent-Length: 9"), 9);
    assert_eq!(remote_content_length("GET / HTTP/1.1"), 0);
}

#[test]
fn header_lookup_matches_name_in_any_case() {
    let req = "SUBSCRIBE /upnp/event/AVTransport HTTP/1.1\r\nCALLBACK: <http://192.168.1.9:49152/Notify>\r\nNT: upnp:event\r\n\r\nUser-Agent: ignored";
    assert_eq!(
        extract_header_val(req, "callback"),
        Some("<http://192.168.1.9:49152/Notify>".to_string())
    );
    assert_eq!(extract_header_val(req, "User-Agent"), None);
    assert_eq!(extract_header("GET / HTTP/1.1\r\nUser-Agent:  Bubble UPnP \r\n\r\n", "User-Agent"), "Bubble UPnP");
    assert_eq!(extract_header("GET / HTTP/1.1\r\n\r\n", "User-Agent"), "");
}

#[test]
fn reading_a_request_until_its_body_is_complete() {
    let mut rb = RequestBuffer::new(LengthRule::FirstField, 200_000);
    assert!(!rb.feed(b"POST /upnp/control/AVTransport HTTP/1.1\r\nContent-Length: 4\r\n\r\nab"));
    assert!(rb.feed(b"cd"));
    assert_eq!(
        rb.request_text(),
        "POST /upnp/control/AVTransport HTTP/1.1\r\nContent-Length: 4\r\n\r\nabcd"
    );
}

#[test]
fn reading_stops_at_end_of_stream_and_at_the_limit() {
    let mut rb = RequestBuffer::new(LengthRule::FirstField, 200_000);
    assert!(!rb.feed(b"GET / HT"));
    assert!(rb.feed(b""));
    let mut small = RequestBuffer::new(LengthRule::AnyParsable, 10);
    assert!(!small.feed(b"0123456789"));
    assert!(small.feed(b"a"));
}

#[test]
fn request_without_body_is_complete_at_header_end() {
    let mut rb = RequestBuffer::new(LengthRule::AnyParsable, 100_000);
    assert!(rb.feed(b"GET / HTTP/1.1\r\nHost: x\r\n\r\n"));
}

#[test]
fn routes() {
    assert_eq!(route_request(""), DlnaRoute::Empty);
    assert_eq!(route_request("HEAD /icon.png HTTP/1.1\r\n"), DlnaRoute::Icon);
    assert_eq!(route_request("GET /description.xml HTTP/1.1\r\n"), DlnaRoute::Description);
    assert_eq!(route_request("GET /device.xml HTTP/1.1\r\n"), DlnaRoute::Description);
    assert_eq!(route_request("GET /upnp/scpd/AVTransport.xml HTTP/1.1"), DlnaRoute::AvtScpd);
    assert_eq!(route_request("GET /upnp/scpd/RenderingControl.xml HTTP/1.1"), DlnaRoute::RcScpd);
    assert_eq!(route_request("GET /upnp/scpd/ConnectionManager.xml HTTP/1.1"), DlnaRoute::CmScpd);
    assert_eq!(route_request("POST /upnp/control/AVTransport HTTP/1.1"), DlnaRoute::AvtControl);
    assert_eq!(route_request("POST /upnp/control/RenderingControl HTTP/1.1"), DlnaRoute::RcControl);
    assert_eq!(route_request("POST /upnp/control/ConnectionManager HTTP/1.1"), DlnaRoute::CmControl);
    assert_eq!(route_request("SUBSCRIBE /upnp/event/AVTransport HTTP/1.1"), DlnaRoute::Subscribe);
    assert_eq!(route_request("UNSUBSCRIBE /upnp/event/RenderingControl HTTP/1.1"), DlnaRoute::Unsubscribe);
    assert_eq!(route_request("GET / HTTP/1.1"), DlnaRoute::Root);
    assert_eq!(route_request("PUT / HTTP/1.1"), DlnaRoute::NotFound);
    assert_eq!(route_request("SUBSCRIBE /other HTTP/1.1"), DlnaRoute::NotFound);
}

#[test]
fn body_after_blank_line() {
    assert_eq!(request_body("POST / HTTP/1.1\r\nA: b\r\n\r\n<x/>\r\n\r\nmore"), "<x/>\r\n\r\nmore");
    assert_eq!(request_body("POST / HTTP/1.1\r\n"), "");
}

#[test]
fn description_document() {
    let uuid = "0f8fad5b-d9cb-469f-a165-70867728950e";
    let d = device_description(uuid, 8080, "A&B <TV>", "192.168.1.5");
    assert!(d.starts_with("HTTP/1.1 200 OK\r\nContent-Type: text/xml; charset=\"utf-8\"\r\nContent-Length: "));
    assert!(d.contains("<friendlyName>A&amp;B &lt;TV&gt;</friendlyName>"));
    assert!(d.contains(&format!("<UDN>uuid:{}</UDN>", uuid)));
    assert!(d.contains("<manufacturerURL>http://192.168.1.5:8080</manufacturerURL>"));
    assert!(d.contains(DEVICE_TYPE));
    let body = &d[d.find("\r\n\r\n").unwrap() + 4..];
    assert!(d.contains(&format!("Content-Length: {}\r\n", body.len())));
}

#[test]
fn scpd_documents() {
    for (doc, action) in [(avt_scpd(), "SetAVTransportURI"), (rc_scpd(), "GetVolume"), (cm_scpd(), "GetProtocolInfo")] {
        assert!(doc.starts_with("HTTP/1.1 200 OK\r\nContent-Type: text/xml; charset=\"utf-8\"\r\n"));
        assert!(doc.contains(action));
    }
}

#[test]
fn dispatch_fixed_routes() {
    let uuid = "0f8fad5b-d9cb-469f-a165-70867728950e";
    assert_eq!(
        dispatch("GET /description.xml HTTP/1.1\r\n\r\n", uuid, 8080, "TV", "10.0.0.2"),
        Some(device_description(uuid, 8080, "TV", "10.0.0.2"))
    );
    assert_eq!(
        dispatch("GET / HTTP/1.1\r\n\r\n", uuid, 8080, "TV", "10.0.0.2"),
        Some("HTTP/1.1 200 OK\r\nContent-Type: text/html\r\nContent-Length: 50\r\nConnection: close\r\n\r\n<html><body>ScreenCast Receiver DLNA</body></html>".to_string())
    );
    assert_eq!(
        dispatch("GET /nothing HTTP/1.1\r\n\r\n", uuid, 8080, "TV", "10.0.0.2"),
        Some("HTTP/1.1 404 Not Found\r\nContent-Type: text/plain\r\nContent-Length: 9\r\nConnection: close\r\n\r\nNot Found".to_string())
    );
    assert_eq!(dispatch("POST /upnp/control/AVTransport HTTP/1.1\r\n\r\n", uuid, 8080, "TV", "10.0.0.2"), None);
    assert_eq!(dispatch("GET /icon.png HTTP/1.1\r\n\r\n", uuid, 8080, "TV", "10.0.0.2"), None);
    let cm = dispatch(
        "POST /upnp/control/ConnectionManager HTTP/1.1\r\n\r\n<u:GetCurrentConnectionIDs xmlns:u=\"x\"/>",
        uuid,
        8080,
        "TV",
        "10.0.0.2",
    )
    .unwrap();
    assert!(cm.contains("<ConnectionIDs>0</ConnectionIDs>"));
}

#[test]
fn icon_is_a_png_response() {
    let r = icon_response();
    let header_end = r.windows(4).position(|w| w == b"\r\n\r\n").unwrap() + 4;
    let header = String::from_utf8(r[..header_end].to_vec()).unwrap();
    let png = &r[header_end..];
    assert!(png.len() > 8);
    assert_eq!(&png[..4], &[0x89u8, b'P', b'N', b'G']);
    assert_eq!(
        header,
        format!("HTTP/1.1 200 OK\r\nContent-Type: image/png\r\nContent-Length: {}\r\nConnection: close\r\n\r\n", png.len())
    );
}

#[test]
fn icon_response_framing() {
    let r = icon_response_for(&vec![1u8, 2, 3]);
    let mut expected = b"HTTP/1.1 200 OK\r\nContent-Type: image/png\r\nContent-Length: 3\r\nConnection: close\r\n\r\n".to_vec();
    expected.extend_from_slice(&[1, 2, 3]);
    assert_eq!(r, expected);
}

#[test]
fn header_value_keeps_its_case() {
    assert_eq!(
        extract_header_val(
            "SUBSCRIBE /upnp/event/AVTransport HTTP/1.1\r\nCALLBACK: <http://192.168.1.9:8080/Ev/AVT>\r\nNT: upnp:event\r\n\r\n",
            "CALLBACK"
        ),
        Some("<http://192.168.1.9:8080/Ev/AVT>".to_string())
    );
}

#[test]
fn response_frames_its_body() {
    let body = "héllo\r\n\r\nworld";
    let r = screencast_receiver::dlna_renderer::http::http_response("200 OK", "text/plain", body);
    let i = find_header_end(r.as_bytes()).unwrap();
    assert_eq!(&r[i + 4..], body);
    assert_eq!(parse_content_length(&r[..i]), body.len());
    assert_eq!(request_body(&r), body);
}

#[test]
fn avt_scpd_lists_the_answered_actions() {
    let doc = avt_scpd();
    let list = &doc[doc.find("<actionList>").unwrap()..doc.find("</actionList>").unwrap()];
    let names: Vec<&str> = list
        .split("<name>")
        .skip(1)
        .map(|p| &p[..p.find("</name>").unwrap()])
        .collect();
    assert_eq!(
        names,
        vec![
            "SetAVTransportURI",
            "SetNextAVTransportURI",
            "Play",
            "Pause",
            "Stop",
            "Seek",
            "Next",
            "Previous",
            "GetMediaInfo",
            "GetPositionInfo",
            "GetTransportInfo",
            "GetTransportSettings",
            "GetDeviceCapabilities"
        ]
    );
    for n in names {
        let body = format!("<u:{} xmlns:u=\"x\"></u:{}>", n, n);
        assert!(!matches!(
            screencast_receiver::dlna_renderer::control::parse_avt(&body),
            screencast_receiver::dlna_renderer::control::AvtAction::Invalid
        ));
    }
    assert!(doc.ends_with("</scpd>"));
}
