use screencast_receiver::commands::{add_firewall_rule_result, check_firewall_rule, firewall_args, get_firewall_command};
use screencast_receiver::db::{get_or_create_device_uuid, progress_decision, ProgressDecision, HISTORY_LIMIT};
use screencast_receiver::remote_play::{
    control_page, handle_request, http_response, play_reply, remote_route, service_url, RemoteRoute, RemoteState,
};
use screencast_receiver::tray::{menu_action, toggle_action, WindowAction};
use screencast_receiver::{close_to_tray, device_name, dlna_enabled, greet};

fn post_play(body: &str) -> String {
    format!(
        "POST /play HTTP/1.1\r\nHost: 10.0.0.2\r\nContent-Type: application/json\r\nContent-Length: {}\r\n\r\n{}",
        body.len(),
        body
    )
}

const REFUSED: &str = "HTTP/1.1 400 Bad Request\r\nContent-Type: application/json\r\nContent-Length: 61\r\nConnection: close\r\n\r\n{\"ok\":false,\"error\":\"URL 需以 http:// 或 https:// 开头\"}";
const ACCEPTED: &str = "HTTP/1.1 200 OK\r\nContent-Type: application/json\r\nContent-Length: 11\r\nConnection: close\r\n\r\n{\"ok\":true}";

#[test]
fn service_address() {
    assert_eq!(service_url("192.168.1.5", 8080), "http://192.168.1.5:8080/");
    assert_eq!(service_url("127.0.0.1", 0), "http://127.0.0.1:0/");
}

#[test]
fn remote_http_response_format() {
    assert_eq!(
        http_response("404 Not Found", "text/plain", "404 Not Found"),
        "HTTP/1.1 404 Not Found\r\nContent-Type: text/plain\r\nContent-Length: 13\r\nConnection: close\r\n\r\n404 Not Found"
    );
}

#[test]
fn control_page_shows_address() {
    let p = control_page("192.168.1.5", 8080);
    assert!(p.starts_with("<!DOCTYPE html>\n<html lang=\"zh\">"));
    assert!(p.contains("<div class=\"foot\">服务地址：http://192.168.1.5:8080/</div>"));
    assert!(p.contains("body{font-family:-apple-system"));
    assert!(p.contains("function go() {\n"));
    assert!(p.ends_with("</html>"));
    assert!(!p.contains("{{"));
}

#[test]
fn remote_state_reuses_running_service() {
    let mut st = RemoteState::new();
    assert!(st.reuse().is_none());
    assert_eq!(st.page_address(), ("127.0.0.1".to_string(), 0));
    let info = st.record("192.168.1.5".to_string(), 40123);
    assert_eq!(info.url, "http://192.168.1.5:40123/");
    let again = st.reuse().unwrap();
    assert_eq!((again.ip, again.port, again.url), ("192.168.1.5".to_string(), 40123, "http://192.168.1.5:40123/".to_string()));
    assert_eq!(st.page_address(), ("192.168.1.5".to_string(), 40123));
}

#[test]
fn remote_routes() {
    assert_eq!(remote_route("GET / HTTP/1.1\r\n"), RemoteRoute::Page);
    assert_eq!(remote_route("GET"), RemoteRoute::Page);
    assert_eq!(remote_route("POST /play HTTP/1.1"), RemoteRoute::Play);
    assert_eq!(remote_route("GET /play HTTP/1.1"), RemoteRoute::NotFound);
    assert_eq!(remote_route(""), RemoteRoute::NotFound);
}

#[test]
fn page_request_serves_control_page() {
    let mut st = RemoteState::new();
    st.record("192.168.1.5".to_string(), 8080);
    let r = handle_request("GET / HTTP/1.1\r\n\r\n", &st);
    let page = control_page("192.168.1.5", 8080);
    assert_eq!(
        r.response,
        format!(
            "HTTP/1.1 200 OK\r\nContent-Type: text/html; charset=\"utf-8\"\r\nContent-Length: {}\r\nConnection: close\r\n\r\n{}",
            page.len(),
            page
        )
    );
    assert!(r.play.is_none());
    let fresh = handle_request("GET / HTTP/1.1\r\n\r\n", &RemoteState::new());
    assert!(fresh.response.contains("服务地址：http://127.0.0.1:0/"));
}

#[test]
fn play_request_accepted() {
    let r = handle_request(&post_play("{\"url\":\"https://cdn.example.com/v.mp4\"}"), &RemoteState::new());
    assert_eq!(r.response, ACCEPTED);
    assert_eq!(r.play, Some("https://cdn.example.com/v.mp4".to_string()));
}

#[test]
fn play_request_json_is_decoded() {
    let r = handle_request(&post_play("{ \"url\" : \"http:\\/\\/a\\/b.m3u8\", \"x\": 1 }"), &RemoteState::new());
    assert_eq!(r.play, Some("http://a/b.m3u8".to_string()));
}

#[test]
fn play_request_refused() {
    for body in ["{\"url\":\"ftp://x/v.mp4\"}", "{\"url\":\"\"}", "{\"link\":\"http://x\"}", "not json", "{\"url\":5}"] {
        let r = handle_request(&post_play(body), &RemoteState::new());
        assert_eq!(r.response, REFUSED, "body {}", body);
        assert!(r.play.is_none());
    }
}

#[test]
fn play_reply_decisions() {
    assert_eq!(play_reply("http://a").play, Some("http://a".to_string()));
    assert_eq!(play_reply("https://a").response, ACCEPTED);
    assert_eq!(play_reply("HTTP://a").response, REFUSED);
    assert!(play_reply("").play.is_none());
}

#[test]
fn unknown_remote_path_is_404() {
    let r = handle_request("GET /favicon.ico HTTP/1.1\r\n\r\n", &RemoteState::new());
    assert_eq!(r.response, "HTTP/1.1 404 Not Found\r\nContent-Type: text/plain\r\nContent-Length: 13\r\nConnection: close\r\n\r\n404 Not Found");
}

#[test]
fn firewall_command_text() {
    assert_eq!(
        get_firewall_command("C:\\Program Files\\ScreenCast\\app.exe"),
        "netsh advfirewall firewall add rule name=\"投屏助手\" dir=in action=allow program=\"C:\\Program Files\\ScreenCast\\app.exe\" enable=yes"
    );
    assert_eq!(
        firewall_args("a.exe"),
        "advfirewall firewall add rule name=\"投屏助手\" dir=in action=allow program=\"a.exe\" enable=yes"
    );
}

#[test]
fn firewall_rule_detection() {
    assert!(check_firewall_rule("规则名称:  投屏助手\r\n操作:  允许\r\n".as_bytes()));
    assert!(check_firewall_rule("Rule Name: 投屏助手\r\nAction: ALLOW\r\n".as_bytes()));
    assert!(!check_firewall_rule("Rule Name: 投屏助手\r\nAction: Block\r\n".as_bytes()));
    assert!(!check_firewall_rule("No rules match the specified criteria.\r\n".as_bytes()));
    let mut bytes = vec![0xffu8];
    bytes.extend_from_slice("投屏助手 Allow".as_bytes());
    assert!(check_firewall_rule(&bytes));
}

#[test]
fn firewall_launch_result() {
    assert_eq!(add_firewall_rule_result(42), Ok(()));
    assert_eq!(add_firewall_rule_result(33), Ok(()));
    assert_eq!(
        add_firewall_rule_result(32),
        Err("未能启动管理员授权（可能被取消）。请复制下方命令，以管理员身份手动执行。".to_string())
    );
    assert!(add_firewall_rule_result(0).is_err());
}

#[test]
fn device_uuid_reused_or_created() {
    assert_eq!(get_or_create_device_uuid(Some("abc".to_string())), ("abc".to_string(), false));
    let (u, fresh) = get_or_create_device_uuid(Some("   ".to_string()));
    assert!(fresh);
    assert_eq!(u.len(), 36);
    let (v, fresh) = get_or_create_device_uuid(None);
    assert!(fresh);
    assert_ne!(u, v);
}

#[test]
fn progress_decisions() {
    assert_eq!(progress_decision(true, false), ProgressDecision::ClearAndRestart);
    assert_eq!(progress_decision(true, true), ProgressDecision::ClearAndRestart);
    assert_eq!(progress_decision(false, true), ProgressDecision::ClearAndRestart);
    assert_eq!(progress_decision(false, false), ProgressDecision::Resume);
    assert_eq!(HISTORY_LIMIT, 100);
}

#[test]
fn greeting() {
    assert_eq!(greet("Tauri"), "Hello, Tauri! You've been greeted from Rust!");
}

#[test]
fn startup_settings() {
    assert!(dlna_enabled(&None));
    assert!(dlna_enabled(&Some("true".to_string())));
    assert!(!dlna_enabled(&Some("false".to_string())));
    assert!(!dlna_enabled(&Some("TRUE".to_string())));
    assert_eq!(device_name(None), "投屏助手");
    assert_eq!(device_name(Some(String::new())), "投屏助手");
    assert_eq!(device_name(Some("客厅".to_string())), "客厅");
    assert!(close_to_tray(&None));
    assert!(close_to_tray(&Some("true".to_string())));
    assert!(!close_to_tray(&Some("false".to_string())));
}

#[test]
fn tray_actions() {
    assert_eq!(toggle_action(Some(true)), WindowAction::Hide);
    assert_eq!(toggle_action(Some(false)), WindowAction::Show);
    assert_eq!(toggle_action(None), WindowAction::Show);
    assert_eq!(menu_action("show"), WindowAction::Show);
    assert_eq!(menu_action("quit"), WindowAction::Quit);
    assert_eq!(menu_action("other"), WindowAction::Nothing);
}

#[test]
fn created_device_uuid_is_reused() {
    let (u, fresh) = get_or_create_device_uuid(None);
    assert!(fresh);
    assert_eq!(get_or_create_device_uuid(Some(u.clone())), (u, false));
}
