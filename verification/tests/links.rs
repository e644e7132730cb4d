use get_proxy::proto::{data_lines, parse_line, line_is_readable, read_line, LineOutcome, vmess_node, vmess_json_is_usable, parse_yaml_proxy, is_yaml_source};
use get_proxy::json::{Json, JsonMap};

fn line_node(line: &str) -> Option<get_proxy::node::Node> {
    let line = String::from(line);
    let url = String::from("https://example.org/list");
    assert!(line_is_readable(&line, &url));
    match parse_line(&line, &url) {
        LineOutcome::Found(n) => Some(n),
        _ => None,
    }
}

#[test]
fn vless_link_gives_a_node() {
    let n = line_node("vless://uuid-1@example.com:443?type=ws&security=tls&path=%2Fws#my%20node").unwrap();
    assert_eq!(n.proto, "vless");
    assert_eq!(n.uuid, "uuid-1");
    assert_eq!(n.ip, "example.com");
    assert_eq!(n.port, 443);
    assert_eq!(n.alias, "mynode");
    assert_eq!(n.param.get("type").as_str(), Some(String::from("ws")));
    assert_eq!(n.param.get("security").as_str(), Some(String::from("tls")));
    assert_eq!(n.param.get("path").as_str(), Some(String::from("/ws")));
    assert_eq!(n.source, "https://example.org/list");
    assert_eq!(n.score_unit, "ms");
}

#[test]
fn vless_link_defaults_and_ipv6() {
    let n = line_node("vless://u@[2001:db8::1]:8443?type=tcp").unwrap();
    assert_eq!(n.ip, "2001:db8::1");
    assert_eq!(n.param.get("path").as_str(), Some(String::from("/")));
    assert_eq!(n.param.get("security").as_str(), Some(String::from("none")));
}

#[test]
fn vless_link_without_type_is_skipped() {
    let line = String::from("vless://u@h.com:1?security=tls");
    let url = String::from("x");
    assert!(matches!(parse_line(&line, &url), LineOutcome::Invalid));
}

#[test]
fn trojan_link_gives_a_node() {
    let n = line_node("trojan://secret@1.2.3.4:8443?sni=a.com&amp;type=tcp#t%201").unwrap();
    assert_eq!(n.proto, "trojan");
    assert_eq!(n.uuid, "");
    assert_eq!(n.ip, "1.2.3.4");
    assert_eq!(n.port, 8443);
    assert_eq!(n.alias, "t1");
    assert_eq!(n.param.get("password").as_str(), Some(String::from("secret")));
    assert_eq!(n.param.get("sni").as_str(), Some(String::from("a.com")));
    assert_eq!(n.param.get("type").as_str(), Some(String::from("tcp")));
}

#[test]
fn ss_link_with_encoded_user_info() {
    // YWVzLTEyOC1nY206cGFzcw is base64 of aes-128-gcm:pass
    let n = line_node("ss://YWVzLTEyOC1nY206cGFzcw@5.6.7.8:8388#s").unwrap();
    assert_eq!(n.proto, "ss");
    assert_eq!(n.ip, "5.6.7.8");
    assert_eq!(n.port, 8388);
    assert_eq!(n.param.get("method").as_str(), Some(String::from("aes-128-gcm")));
    assert_eq!(n.param.get("password").as_str(), Some(String::from("pass")));
}

#[test]
fn ss_link_with_password_only_gets_a_method() {
    // OnNob3J0 is base64 of :short
    let n = line_node("ss://OnNob3J0@5.6.7.8:1#x").unwrap();
    assert_eq!(n.param.get("method").as_str(), Some(String::from("aes-256-gcm")));
    assert_eq!(n.param.get("password").as_str(), Some(String::from("short")));
}

#[test]
fn unknown_scheme_and_no_url() {
    let url = String::from("x");
    assert!(matches!(parse_line(&String::from("http://a.com/"), &url), LineOutcome::Unsupported));
    assert!(matches!(parse_line(&String::from("no link here"), &url), LineOutcome::Invalid));
}

#[test]
fn vmess_link_gives_json_then_node() {
    // eyJhZGQiOiIxLjEuMS4xIiwicG9ydCI6IjQ0MyIsImlkIjoiYWJjIiwicHMiOiJ2IDEifQ is base64 of
    // {"add":"1.1.1.1","port":"443","id":"abc","ps":"v 1"}
    let line = String::from("vmess://eyJhZGQiOiIxLjEuMS4xIiwicG9ydCI6IjQ0MyIsImlkIjoiYWJjIiwicHMiOiJ2IDEifQ");
    let url = String::from("src");
    let text = match parse_line(&line, &url) {
        LineOutcome::VmessJson(t) => t,
        _ => panic!("expected the JSON text of a vmess link"),
    };
    assert_eq!(text, "{\"add\":\"1.1.1.1\",\"port\":\"443\",\"id\":\"abc\",\"ps\":\"v 1\"}");
    let mut m = JsonMap::new();
    m.insert(String::from("add"), Json::string("1.1.1.1"));
    m.insert(String::from("port"), Json::string("443"));
    m.insert(String::from("id"), Json::string("abc"));
    m.insert(String::from("ps"), Json::string("v 1"));
    let x = Json::object(m);
    assert!(vmess_json_is_usable(&x));
    let n = vmess_node(x, &line, &url).unwrap();
    assert_eq!(n.proto, "vmess");
    assert_eq!(n.ip, "1.1.1.1");
    assert_eq!(n.uuid, "abc");
    assert_eq!(n.port, 443);
    assert_eq!(n.alias, "v1");
    assert_eq!(n.param.get("path").as_str(), Some(String::from("/")));
    assert_eq!(n.param.get("host").as_str(), Some(String::new()));
}

#[test]
fn vmess_json_with_port_zero_gives_nothing() {
    let mut m = JsonMap::new();
    m.insert(String::from("add"), Json::string("1.1.1.1"));
    m.insert(String::from("port"), Json::unsigned(0));
    let x = Json::object(m);
    assert!(vmess_json_is_usable(&x));
    assert!(vmess_node(x, &String::from("l"), &String::from("u")).is_none());
    assert!(vmess_node(Json::null(), &String::from("l"), &String::from("u")).is_none());
}

#[test]
fn data_lines_of_plain_and_encoded_lists() {
    let plain = String::from("a\r\n\n  \nb\n");
    assert_eq!(data_lines(&plain, &String::from("u")), vec![String::from("a"), String::from("b")]);
    // YQpiCg== is base64 of "a\nb\n"
    let enc = String::from("YQpiCg==\n");
    assert_eq!(data_lines(&enc, &String::from("u")), vec![String::from("a"), String::from("b")]);
}

#[test]
fn yaml_sources_by_suffix() {
    assert!(is_yaml_source("https://x/clash.yaml"));
    assert!(is_yaml_source("https://x/a.yml"));
    assert!(!is_yaml_source("https://x/list.txt"));
}

#[test]
fn yaml_trojan_proxy() {
    let mut m = JsonMap::new();
    m.insert(String::from("type"), Json::string("trojan"));
    m.insert(String::from("server"), Json::string("t.example"));
    m.insert(String::from("port"), Json::unsigned(443));
    m.insert(String::from("password"), Json::string("pw"));
    m.insert(String::from("name"), Json::string("my trojan"));
    let p = Json::object(m);
    let n = parse_yaml_proxy(&p, String::from("raw"), &String::from("u.yaml"));
    let n = n.unwrap();
    assert_eq!(n.proto, "trojan");
    assert_eq!(n.ip, "t.example");
    assert_eq!(n.port, 443);
    assert_eq!(n.raw, "raw");
    assert_eq!(n.source, "u.yaml");
    assert_eq!(n.alias, "mytrojan");
    assert_eq!(n.param.get("password").as_str(), Some(String::from("pw")));
    assert_eq!(n.param.get("allowInsecure").as_bool(), Some(true));
    assert_eq!(n.param.get("path").as_str(), Some(String::from("/")));
}

#[test]
fn yaml_proxy_of_a_skipped_type() {
    let mut m = JsonMap::new();
    m.insert(String::from("type"), Json::string("hysteria2"));
    m.insert(String::from("server"), Json::string("h.example"));
    let p = Json::object(m);
    assert!(parse_yaml_proxy(&p, String::new(), &String::from("u.yaml")).is_none());
    let mut m2 = JsonMap::new();
    m2.insert(String::from("server"), Json::string("h.example"));
    assert!(parse_yaml_proxy(&Json::object(m2), String::new(), &String::from("u.yaml")).is_none());
}

#[test]
fn ss_link_with_everything_encoded_in_the_host() {
    // the host is base64 of aes-256-gcm:pw@5.6.7.8:8388
    let n = line_node("ss://YWVzLTI1Ni1nY206cHdANS42LjcuODo4Mzg4#pk").unwrap();
    assert_eq!(n.ip, "5.6.7.8");
    assert_eq!(n.port, 8388);
    assert_eq!(n.alias, "pk");
    assert_eq!(n.param.get("method").as_str(), Some(String::from("aes-256-gcm")));
    assert_eq!(n.param.get("password").as_str(), Some(String::from("pw")));
}

#[test]
fn read_line_gives_the_outcome() {
    let url = String::from("x");
    match read_line(&String::from("trojan://pw@h.com:443#t"), &url) {
        Some(LineOutcome::Found(n)) => {
            assert_eq!(n.ip, "h.com");
            assert_eq!(n.param.get("password").as_str(), Some(String::from("pw")));
        }
        _ => panic!("expected a node"),
    }
    assert!(matches!(read_line(&String::from("http://a.com/"), &url), Some(LineOutcome::Unsupported)));
}
