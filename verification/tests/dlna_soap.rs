use screencast_receiver::dlna_renderer::control::{
    avt_notifies, avt_response, fmt_duration, parse_avt, parse_rc, rc_notifies, rc_response, AvtAction,
    PlayerReadings, RcAction,
};
use screencast_receiver::dlna_renderer::http::http_response;
use screencast_receiver::dlna_renderer::soap::{
    extract_action, extract_param, handle_cm, soap_error, soap_response, SERVICE_AVT, SERVICE_CM, SERVICE_RC,
};
use screencast_receiver::dlna_renderer::xml::{xml_escape, xml_unescape};

fn envelope(action: &str, inner: &str) -> String {
    format!(
        "<?xml version=\"1.0\"?><s:Envelope xmlns:s=\"http://schemas.xmlsoap.org/soap/envelope/\"><s:Body><u:{a} xmlns:u=\"{svc}\">{inner}</u:{a}></s:Body></s:Envelope>",
        a = action,
        svc = SERVICE_AVT,
        inner = inner
    )
}

fn expected_soap(action: &str, service: &str, inner: &str) -> String {
    let body = format!(
        "<?xml version=\"1.0\" encoding=\"utf-8\"?>\n<s:Envelope xmlns:s=\"http://schemas.xmlsoap.org/soap/envelope/\" s:encodingStyle=\"http://schemas.xmlsoap.org/soap/encoding/\">\n<s:Body><u:{}Response xmlns:u=\"{}\">{}</u:{}Response></s:Body></s:Envelope>",
        action, service, inner, action
    );
    format!(
        "HTTP/1.1 200 OK\r\nContent-Type: text/xml; charset=\"utf-8\"\r\nContent-Length: {}\r\nConnection: close\r\n\r\n{}",
        body.len(),
        body
    )
}

fn expected_invalid_action() -> String {
    let body = "<?xml version=\"1.0\" encoding=\"utf-8\"?>\n<s:Envelope xmlns:s=\"http://schemas.xmlsoap.org/soap/envelope/\">\n<s:Body><s:Fault><faultcode>s:Client</faultcode><faultstring>UPnPError</faultstring>\n<detail><UPnPError xmlns=\"urn:schemas-upnp-org:control-1-0\"><errorCode>401</errorCode><errorDescription>Invalid Action</errorDescription></UPnPError></detail>\n</s:Fault></s:Body></s:Envelope>";
    format!(
        "HTTP/1.1 500 Internal Server Error\r\nContent-Type: text/xml; charset=\"utf-8\"\r\nContent-Length: {}\r\nConnection: close\r\n\r\n{}",
        body.len(),
        body
    )
}

fn readings() -> PlayerReadings {
    PlayerReadings { duration_secs: 3725, position_secs: 61, paused: true, volume: 35, muted: true }
}

#[test]
fn http_response_counts_bytes() {
    assert_eq!(
        http_response("200 OK", "text/plain", "héllo"),
        "HTTP/1.1 200 OK\r\nContent-Type: text/plain\r\nContent-Length: 6\r\nConnection: close\r\n\r\nhéllo"
    );
}

#[test]
fn action_name_with_u_prefix() {
    assert_eq!(extract_action(&envelope("Pause", "<InstanceID>0</InstanceID>")), "Pause");
}

#[test]
fn action_name_with_ns0_prefix() {
    let body = "<?xml version=\"1.0\"?><ns0:Seek xmlns:ns0=\"x\"><Target>00:01:00</Target></ns0:Seek>";
    assert_eq!(extract_action(body), "Seek");
}

#[test]
fn action_name_plain_tag_and_none() {
    assert_eq!(extract_action("<Play><InstanceID>0</InstanceID></Play>"), "Play");
    assert_eq!(extract_action("no tags here"), "");
    assert_eq!(extract_action("<?xml?>"), "");
}

#[test]
fn param_values() {
    let b = "<CurrentURI> http://a/v.mp4?x=1&amp;y=2 </CurrentURI>";
    assert_eq!(extract_param(b, "CurrentURI"), Some("http://a/v.mp4?x=1&amp;y=2".to_string()));
    let b = "<DesiredVolume dt=\"ui2\">30</DesiredVolume>";
    assert_eq!(extract_param(b, "DesiredVolume"), Some("30".to_string()));
    assert_eq!(extract_param("<Target>  </Target>", "Target"), None);
    assert_eq!(extract_param("<Other>1</Other>", "Target"), None);
}

#[test]
fn soap_response_format() {
    assert_eq!(soap_response("Play", SERVICE_AVT, ""), expected_soap("Play", SERVICE_AVT, ""));
}

#[test]
fn soap_error_format() {
    assert_eq!(soap_error("401", "Invalid Action"), expected_invalid_action());
}

#[test]
fn set_uri_is_unescaped() {
    let body = envelope("SetAVTransportURI", "<InstanceID>0</InstanceID><CurrentURI>http://cdn/v.m3u8?a=1&amp;b=2</CurrentURI><CurrentURIMetaData></CurrentURIMetaData>");
    match parse_avt(&body) {
        AvtAction::SetUri(Some(u)) => assert_eq!(u, "http://cdn/v.m3u8?a=1&b=2"),
        _ => panic!("expected SetUri"),
    }
}

#[test]
fn set_uri_without_uri() {
    let a = parse_avt(&envelope("SetAVTransportURI", "<InstanceID>0</InstanceID>"));
    assert!(matches!(a, AvtAction::SetUri(None)));
    assert!(avt_notifies(&a));
}

#[test]
fn seek_target_and_skip_names() {
    match parse_avt(&envelope("Seek", "<Unit>REL_TIME</Unit><Target>00:10:00</Target>")) {
        AvtAction::Seek(t) => assert_eq!(t, "00:10:00"),
        _ => panic!("expected Seek"),
    }
    match parse_avt(&envelope("Previous", "")) {
        AvtAction::Skip(n) => assert_eq!(n, "Previous"),
        _ => panic!("expected Skip"),
    }
    assert!(matches!(parse_avt(&envelope("Record", "")), AvtAction::Invalid));
}

#[test]
fn query_actions_do_not_notify() {
    assert!(!avt_notifies(&parse_avt(&envelope("GetTransportInfo", ""))));
    assert!(avt_notifies(&parse_avt(&envelope("Stop", ""))));
}

#[test]
fn duration_formatting() {
    assert_eq!(fmt_duration(0), "00:00:00");
    assert_eq!(fmt_duration(3725), "01:02:05");
    assert_eq!(fmt_duration(360000), "100:00:00");
}

#[test]
fn position_info_answer() {
    let inner = format!(
        "<Track>1</Track><TrackDuration>01:02:05</TrackDuration><TrackMetaData></TrackMetaData><TrackURI>{}</TrackURI><RelTime>00:01:01</RelTime><AbsTime>00:01:01</AbsTime><RelCount>0</RelCount><AbsCount>0</AbsCount>",
        "http://a/?x=1&amp;y=&lt;2&gt;"
    );
    let a = parse_avt(&envelope("GetPositionInfo", ""));
    assert_eq!(
        avt_response(&a, &readings(), "http://a/?x=1&y=<2>"),
        expected_soap("GetPositionInfo", SERVICE_AVT, &inner)
    );
}

#[test]
fn media_and_transport_info_answers() {
    let a = parse_avt(&envelope("GetMediaInfo", ""));
    let inner = "<NrTracks>1</NrTracks><MediaDuration>01:02:05</MediaDuration><CurrentURI>u</CurrentURI><CurrentURIMetaData></CurrentURIMetaData><NextURI></NextURI><NextURIMetaData></NextURIMetaData><PlayMedium>NETWORK</PlayMedium><RecordMedium>NONE</RecordMedium><WriteStatus>NOT_WRITABLE</WriteStatus>";
    assert_eq!(avt_response(&a, &readings(), "u"), expected_soap("GetMediaInfo", SERVICE_AVT, inner));
    let t = parse_avt(&envelope("GetTransportInfo", ""));
    let inner = "<CurrentTransportState>PAUSED_PLAYBACK</CurrentTransportState><CurrentTransportStatus>OK</CurrentTransportStatus><CurrentSpeed>1</CurrentSpeed>";
    assert_eq!(avt_response(&t, &readings(), ""), expected_soap("GetTransportInfo", SERVICE_AVT, inner));
    let mut playing = readings();
    playing.paused = false;
    assert!(avt_response(&t, &playing, "").contains("<CurrentTransportState>PLAYING</CurrentTransportState>"));
}

#[test]
fn invalid_avt_action_is_401() {
    let a = parse_avt(&envelope("Record", ""));
    assert_eq!(avt_response(&a, &readings(), ""), expected_invalid_action());
}

#[test]
fn rendering_control_requests() {
    match parse_rc(&envelope("SetVolume", "<DesiredVolume>42</DesiredVolume>")) {
        RcAction::SetVolume(Some(v)) => assert_eq!(v, "42"),
        _ => panic!("expected SetVolume"),
    }
    assert!(matches!(parse_rc(&envelope("SetMute", "<DesiredMute>TRUE</DesiredMute>")), RcAction::SetMute(true)));
    assert!(matches!(parse_rc(&envelope("SetMute", "<DesiredMute>1</DesiredMute>")), RcAction::SetMute(true)));
    assert!(matches!(parse_rc(&envelope("SetMute", "<DesiredMute>0</DesiredMute>")), RcAction::SetMute(false)));
    assert!(matches!(parse_rc(&envelope("Play", "")), RcAction::Invalid));
    assert!(rc_notifies(&parse_rc(&envelope("SetMute", ""))));
    assert!(!rc_notifies(&parse_rc(&envelope("GetVolume", ""))));
}

#[test]
fn rendering_control_answers() {
    let v = parse_rc(&envelope("GetVolume", ""));
    assert_eq!(rc_response(&v, &readings()), expected_soap("GetVolume", SERVICE_RC, "<CurrentVolume>35</CurrentVolume>"));
    let m = parse_rc(&envelope("GetMute", ""));
    assert_eq!(rc_response(&m, &readings()), expected_soap("GetMute", SERVICE_RC, "<CurrentMute>1</CurrentMute>"));
    let s = parse_rc(&envelope("SetVolume", "<DesiredVolume>1</DesiredVolume>"));
    assert_eq!(rc_response(&s, &readings()), expected_soap("SetVolume", SERVICE_RC, ""));
}

#[test]
fn connection_manager_answers() {
    let sink = "<Source></Source><Sink>http-get:*:video/mp4:*,http-get:*:video/x-matroska:*,http-get:*:video/mp2t:*,http-get:*:video/quicktime:*,http-get:*:application/vnd.apple.mpegurl:*,http-get:*:audio/mpeg:*,http-get:*:audio/mp4:*</Sink>";
    assert_eq!(handle_cm(&envelope("GetProtocolInfo", "")), expected_soap("GetProtocolInfo", SERVICE_CM, sink));
    assert_eq!(
        handle_cm(&envelope("GetCurrentConnectionIDs", "")),
        expected_soap("GetCurrentConnectionIDs", SERVICE_CM, "<ConnectionIDs>0</ConnectionIDs>")
    );
    assert_eq!(handle_cm(&envelope("Nope", "")), expected_invalid_action());
}

#[test]
fn xml_escaping() {
    assert_eq!(xml_escape("a&b<c>\"d'"), "a&amp;b&lt;c&gt;&quot;d'");
    assert_eq!(xml_unescape("&lt;a&gt;&amp;&quot;&apos;"), "<a>&\"'");
}

#[test]
fn unescape_undoes_escape() {
    for s in ["", "plain", "<tag attr=\"v\">", "'quoted' > \"double\"", "R&D", "&amp;", "&lt;", "&gt;&quot;&apos;", "a=1&b=2"] {
        assert_eq!(xml_unescape(&xml_escape(s)), s);
    }
}

#[test]
fn unescape_decodes_ampersand_last() {
    assert_eq!(xml_unescape("&amp;lt;"), "&lt;");
    assert_eq!(xml_unescape("&amp;amp;"), "&amp;");
}

#[test]
fn position_info_reports_the_uri_just_set() {
    let mut session = screencast_receiver::dlna_renderer::DlnaSession::new();
    session.set_uri("http://old/v.mp4".to_string());
    let set = parse_avt(&envelope("SetAVTransportURI", "<CurrentURI>http://cdn/v.mp4?a=1&amp;b=2</CurrentURI>"));
    session.apply(&set);
    assert_eq!(session.current_uri(), "http://cdn/v.mp4?a=1&b=2");
    session.apply(&parse_avt(&envelope("Play", "")));
    assert_eq!(session.current_uri(), "http://cdn/v.mp4?a=1&b=2");
    let r = avt_response(&parse_avt(&envelope("GetPositionInfo", "")), &readings(), &session.current_uri());
    assert!(r.contains("<TrackURI>http://cdn/v.mp4?a=1&amp;b=2</TrackURI>"));
    assert!(r.contains("<RelTime>00:01:01</RelTime><AbsTime>00:01:01</AbsTime>"));
}
