use screencast_receiver::dlna_renderer::description::{DEVICE_TYPE, DEVICE_TYPE_2};
use screencast_receiver::dlna_renderer::soap::SERVICE_AVT;
use screencast_receiver::dlna_renderer::ssdp::{
    announcements, extract_st, msearch_reply_targets, msearch_response, msearch_wants_reply, reply_search_target,
    ssdp_notify, SERVER_ID, SSDP_PORT,
};

const UUID: &str = "0f8fad5b-d9cb-469f-a165-70867728950e";

fn pairs(v: &[(&str, String)]) -> Vec<(String, String)> {
    v.iter().map(|(a, b)| (a.to_string(), b.clone())).collect()
}

#[test]
fn search_target_header() {
    assert_eq!(extract_st("M-SEARCH * HTTP/1.1\r\n  st: ssdp:all \r\nMX: 2\r\n"), Some("ssdp:all".to_string()));
    assert_eq!(extract_st("M-SEARCH * HTTP/1.1\r\nST:\r\nST: upnp:rootdevice\r\n"), Some("upnp:rootdevice".to_string()));
    assert_eq!(extract_st("M-SEARCH * HTTP/1.1\r\nMX: 2\r\n"), None);
    assert_eq!(extract_st("ST"), None);
}

#[test]
fn which_searches_are_answered() {
    assert!(msearch_wants_reply("M-SEARCH * HTTP/1.1\r\nST: ssdp:all\r\n", UUID));
    assert!(msearch_wants_reply(&format!("M-SEARCH * HTTP/1.1\r\nST: uuid:{}\r\n", UUID), UUID));
    assert!(msearch_wants_reply(&format!("M-SEARCH * HTTP/1.1\r\nST: {}\r\n", SERVICE_AVT), UUID));
    assert!(!msearch_wants_reply("M-SEARCH * HTTP/1.1\r\nST: urn:schemas-upnp-org:device:Printer:1\r\n", UUID));
    assert!(!msearch_wants_reply("NOTIFY * HTTP/1.1\r\nNT: ssdp:all\r\n", UUID));
}

#[test]
fn reply_target_defaults_to_device_type() {
    assert_eq!(reply_search_target("M-SEARCH * HTTP/1.1\r\nMAN: \"ssdp:discover\"\r\n"), DEVICE_TYPE);
    assert_eq!(reply_search_target("M-SEARCH * HTTP/1.1\r\nST: ssdp:all\r\n"), "ssdp:all");
}

#[test]
fn reply_targets_for_all() {
    let u = format!("uuid:{}", UUID);
    assert_eq!(
        msearch_reply_targets(UUID, "SSDP:ALL"),
        pairs(&[
            ("upnp:rootdevice", format!("{}::upnp:rootdevice", u)),
            (DEVICE_TYPE, format!("{}::{}", u, DEVICE_TYPE)),
            (DEVICE_TYPE_2, format!("{}::{}", u, DEVICE_TYPE_2)),
            (u.as_str(), u.clone()),
        ])
    );
}

#[test]
fn reply_targets_for_one_target() {
    let u = format!("uuid:{}", UUID);
    assert_eq!(
        msearch_reply_targets(UUID, "UPnP:RootDevice"),
        pairs(&[("UPnP:RootDevice", format!("{}::upnp:rootdevice", u))])
    );
    assert_eq!(msearch_reply_targets(UUID, "uuid:other"), pairs(&[("uuid:other", "uuid:other".to_string())]));
    assert_eq!(
        msearch_reply_targets(UUID, &DEVICE_TYPE_2.to_uppercase()),
        pairs(&[(DEVICE_TYPE_2.to_uppercase().as_str(), format!("{}::{}", u, DEVICE_TYPE_2))])
    );
    assert_eq!(
        msearch_reply_targets(UUID, SERVICE_AVT),
        pairs(&[(SERVICE_AVT, format!("{}::{}", u, SERVICE_AVT))])
    );
}

#[test]
fn search_response_format() {
    assert_eq!(SSDP_PORT, 1900);
    let date = "Thu, 01 Jan 1970 00:00:00 GMT";
    assert_eq!(
        msearch_response(date, "192.168.1.5", 8080, "ssdp:all", "uuid:x"),
        format!(
            "HTTP/1.1 200 OK\r\nCACHE-CONTROL: max-age=1800\r\nDATE: {}\r\nEXT:\r\nLOCATION: http://192.168.1.5:8080/description.xml\r\nSERVER: {}\r\nST: ssdp:all\r\nUSN: uuid:x\r\nBOOTID.UPNP.ORG: 1\r\nCONFIGID.UPNP.ORG: 1\r\nSEARCHPORT.UPNP.ORG: 1900\r\n\r\n",
            date, SERVER_ID
        )
    );
}

#[test]
fn notify_formats() {
    let date = "Thu, 01 Jan 1970 00:00:00 GMT";
    assert_eq!(
        ssdp_notify(date, "10.0.0.2", 9000, "upnp:rootdevice", "uuid:x::upnp:rootdevice", false, false),
        format!(
            "NOTIFY * HTTP/1.1\r\nHOST: 239.255.255.250:1900\r\nCACHE-CONTROL: max-age=1800\r\nDATE: {}\r\nLOCATION: http://10.0.0.2:9000/description.xml\r\nNT: upnp:rootdevice\r\nNTS: ssdp:byebye\r\nSERVER: Windows/10 UPnP/1.0 DLNADOC/1.50 ScreenCastReceiver/1.2\r\nUSN: uuid:x::upnp:rootdevice\r\nBOOTID.UPNP.ORG: 1\r\nCONFIGID.UPNP.ORG: 1\r\n\r\n",
            date
        )
    );
    let alive = ssdp_notify(date, "10.0.0.2", 9000, "upnp:rootdevice", "u", true, true);
    assert!(alive.contains("\r\nNTS: ssdp:alive\r\n"));
    assert!(alive.ends_with("CONFIGID.UPNP.ORG: 1\r\nSEARCHPORT.UPNP.ORG: 1900\r\n\r\n"));
}

#[test]
fn announcement_lists() {
    let u = format!("uuid:{}", UUID);
    assert_eq!(
        announcements(UUID, false),
        pairs(&[
            (DEVICE_TYPE, format!("{}::{}", u, DEVICE_TYPE)),
            ("upnp:rootdevice", format!("{}::upnp:rootdevice", u)),
            (u.as_str(), u.clone()),
        ])
    );
    let with2 = announcements(UUID, true);
    assert_eq!(with2.len(), 4);
    assert_eq!(with2[1], (DEVICE_TYPE_2.to_string(), format!("{}::{}", u, DEVICE_TYPE_2)));
}

use screencast_receiver::dlna_renderer::ssdp::{msearch_reply_st, ssdp_scan_due, ssdp_tick, SsdpLoopState};

#[test]
fn loop_announces_every_thirty_seconds() {
    let mut st = SsdpLoopState::new(1000, vec![(192, 168, 1, 5)]);
    assert_eq!(ssdp_tick(&mut st, 30_999, false, None), (false, false));
    assert_eq!(ssdp_tick(&mut st, 31_000, false, None), (true, false));
    assert_eq!(st.last_alive_ms, 31_000);
    assert_eq!(ssdp_tick(&mut st, 40_000, false, None), (false, false));
}

#[test]
fn loop_checks_interfaces_every_five_seconds() {
    let mut st = SsdpLoopState::new(0, vec![(192, 168, 1, 5)]);
    assert!(!ssdp_scan_due(&st, 4_999, true));
    assert!(ssdp_scan_due(&st, 5_000, true));
    assert!(!ssdp_scan_due(&st, 5_000, false));
    assert_eq!(ssdp_tick(&mut st, 5_000, true, Some(vec![(192, 168, 1, 5)])), (false, false));
    assert_eq!(st.last_check_ms, 5_000);
    assert_eq!(ssdp_tick(&mut st, 10_000, true, Some(vec![(10, 0, 0, 2)])), (false, true));
    assert_eq!(st.ifaces, vec![(10, 0, 0, 2)]);
    assert_eq!(ssdp_tick(&mut st, 12_000, true, Some(vec![(10, 0, 0, 3)])), (false, false));
    assert_eq!(st.ifaces, vec![(10, 0, 0, 2)]);
    assert_eq!(ssdp_tick(&mut st, 20_000, false, Some(vec![(10, 0, 0, 3)])), (false, false));
    assert_eq!(st.last_check_ms, 20_000);
    assert_eq!(ssdp_tick(&mut st, 30_000, true, Some(vec![(10, 0, 0, 9)])), (true, true));
    assert_eq!(st.last_alive_ms, 30_000);
}

#[test]
fn datagram_search_target() {
    let mut d = b"M-SEARCH * HTTP/1.1\r\nST: ssdp:all\r\n".to_vec();
    assert_eq!(msearch_reply_st(&d, UUID), Some("ssdp:all".to_string()));
    d.push(0xff);
    assert_eq!(msearch_reply_st(&d, UUID), Some("ssdp:all".to_string()));
    assert_eq!(msearch_reply_st(b"NOTIFY * HTTP/1.1\r\n", UUID), None);
}
