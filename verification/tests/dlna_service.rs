use screencast_receiver::dlna_renderer::{
    announce_override, ipv4_string, is_useful_iface, list_dlna_ifaces, override_text, pick_lan_ip, stream_header_fields,
    stream_host, stream_referer, DlnaIface, DlnaService, DlnaSession, DlnaStatusState, NetIface,
};

fn iface(name: &str, o: (u8, u8, u8, u8)) -> NetIface {
    NetIface { name: name.to_string(), octets: o }
}

#[test]
fn session_keeps_last_uri() {
    let mut s = DlnaSession::new();
    assert_eq!(s.current_uri(), "");
    s.set_uri("http://a/1.mp4".to_string());
    s.set_uri("http://a/2.mp4".to_string());
    assert_eq!(s.current_uri(), "http://a/2.mp4");
}

#[test]
fn status_records_address() {
    let mut st = DlnaStatusState::new();
    assert!(st.current().is_none());
    st.record("192.168.1.5".to_string(), 8080);
    let c = st.current().unwrap();
    assert_eq!((c.ip.as_str(), c.port), ("192.168.1.5", 8080));
}

#[test]
fn stop_announces_byebye_once() {
    let mut svc = DlnaService::new();
    assert!(!svc.is_running());
    assert_eq!(svc.stop(), None);
    svc.begin();
    svc.record_byebye("uuid-1".to_string(), 8080);
    assert!(svc.is_running());
    assert_eq!(svc.byebye_state(), Some(("uuid-1".to_string(), 8080)));
    assert_eq!(svc.stop(), Some(("uuid-1".to_string(), 8080)));
    assert!(!svc.is_running());
    assert_eq!(svc.byebye_state(), None);
    assert_eq!(svc.stop(), None);
}

#[test]
fn override_address() {
    assert_eq!(announce_override(&None), None);
    assert_eq!(announce_override(&Some("   ".to_string())), None);
    assert_eq!(announce_override(&Some(" 10.0.0.2 ".to_string())), Some(" 10.0.0.2 ".to_string()));
    assert_eq!(override_text(&Some(" 10.0.0.2 ".to_string())), Some("10.0.0.2".to_string()));
    assert_eq!(override_text(&Some("\t".to_string())), None);
    assert_eq!(override_text(&None), None);
}

#[test]
fn dotted_quad() {
    assert_eq!(ipv4_string((192, 168, 1, 5)), "192.168.1.5");
    assert_eq!(ipv4_string((0, 0, 0, 0)), "0.0.0.0");
    assert_eq!(ipv4_string((255, 255, 255, 255)), "255.255.255.255");
}

#[test]
fn usable_interfaces() {
    assert!(is_useful_iface("以太网", (192, 168, 1, 5)));
    assert!(!is_useful_iface("Loopback Pseudo-Interface 1", (127, 0, 0, 1)));
    assert!(!is_useful_iface("eth0", (127, 0, 0, 1)));
    assert!(!is_useful_iface("eth0", (0, 0, 0, 0)));
    assert!(!is_useful_iface("eth0", (169, 254, 3, 4)));
    assert!(!is_useful_iface("Tailscale", (100, 64, 0, 1)));
    assert!(!is_useful_iface("vEthernet (WSL)", (172, 20, 0, 1)));
    assert!(!is_useful_iface("本地连接* 2", (192, 168, 137, 1)));
    assert!(!is_useful_iface("utun3", (10, 0, 0, 1)));
}

#[test]
fn wireless_interface_preferred() {
    let ifaces = vec![
        iface("vEthernet (Default Switch)", (172, 17, 0, 1)),
        iface("Ethernet", (192, 168, 1, 5)),
        iface("WLAN", (192, 168, 1, 9)),
    ];
    assert_eq!(pick_lan_ip(&ifaces), Some("192.168.1.9".to_string()));
}

#[test]
fn first_wired_interface_otherwise() {
    let ifaces = vec![
        iface("lo", (127, 0, 0, 1)),
        iface("Ethernet", (192, 168, 1, 5)),
        iface("Ethernet 2", (10, 0, 0, 3)),
    ];
    assert_eq!(pick_lan_ip(&ifaces), Some("192.168.1.5".to_string()));
    assert_eq!(pick_lan_ip(&vec![iface("lo", (127, 0, 0, 1))]), None);
    assert_eq!(pick_lan_ip(&vec![]), None);
}

#[test]
fn listed_interfaces_are_the_usable_ones() {
    let ifaces = vec![
        iface("Ethernet", (192, 168, 1, 5)),
        iface("ZeroTier One", (10, 147, 0, 2)),
        iface("Wi-Fi", (192, 168, 0, 7)),
    ];
    let l: Vec<(String, String)> = list_dlna_ifaces(&ifaces).into_iter().map(|d: DlnaIface| (d.name, d.ip)).collect();
    assert_eq!(
        l,
        vec![
            ("Ethernet".to_string(), "192.168.1.5".to_string()),
            ("Wi-Fi".to_string(), "192.168.0.7".to_string())
        ]
    );
}

#[test]
fn stream_hosts() {
    assert_eq!(stream_host("https://Upos-SZ.BiliVideo.com:443/x?y=1"), "upos-sz.bilivideo.com");
    assert_eq!(stream_host("http://a.b/c://d"), "a.b");
    assert_eq!(stream_host("no scheme"), "");
    assert_eq!(stream_host("http://host?q"), "host");
}

#[test]
fn referers_by_host() {
    assert_eq!(stream_referer("https://www.bilibili.com/video/BV1"), Some("https://www.bilibili.com/"));
    assert_eq!(stream_referer("https://b23.tv/x"), Some("https://www.bilibili.com/"));
    assert_eq!(stream_referer("http://data.video.iqiyi.com/v"), Some("https://www.iqiyi.com/"));
    assert_eq!(stream_referer("http://apd-vlive.apdcdn.tc.qq.com/v"), Some("https://v.qq.com/"));
    assert_eq!(stream_referer("http://x.youku.com/v"), Some("https://www.youku.com/"));
    assert_eq!(stream_referer("http://pcvideo.mgtv.com/v"), Some("https://www.mgtv.com/"));
    assert_eq!(stream_referer("http://example.com/bilibili.com/v"), None);
}

#[test]
fn header_fields_for_player() {
    assert_eq!(
        stream_header_fields("https://www.bilibili.com/v"),
        vec![
            "User-Agent: Mozilla/5.0 (Windows NT 10.0; Win64; x64)".to_string(),
            "Referer: https://www.bilibili.com/".to_string()
        ]
    );
    assert_eq!(
        stream_header_fields("http://example.com/v.mp4"),
        vec!["User-Agent: Mozilla/5.0 (Windows NT 10.0; Win64; x64)".to_string()]
    );
}
