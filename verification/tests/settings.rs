use get_proxy::json::{Json, JsonMap};
use get_proxy::node::{Node, create_proxy_conf, proxy_conf_is_buildable};
use get_proxy::conf::{config_is_adjustable, adjust_config, lan_ip_is_applicable, follow_lan_ip, proxy_port};
use get_proxy::launcher::{launcher_proxy, is_launchable, conf_file_path, port_range, header_pairs};
use get_proxy::pac::{pac_proxy_port, pac_listen_address};

fn obj(pairs: Vec<(&str, Json)>) -> Json {
    let mut m = JsonMap::new();
    for (k, v) in pairs {
        m.insert(String::from(k), v);
    }
    Json::object(m)
}

fn inbound(tag: &str, with_account: bool) -> Json {
    let mut pairs = vec![("tag", Json::string(tag)), ("listen", Json::string("")), ("port", Json::unsigned(0))];
    if with_account {
        let acc = obj(vec![("user", Json::string("")), ("pass", Json::string(""))]);
        pairs.push(("settings", obj(vec![("accounts", Json::array(vec![acc]))])));
    }
    obj(pairs)
}

fn sample_conf() -> Json {
    obj(vec![
        ("conf_tpl", obj(vec![("log", obj(vec![]))])),
        ("inboundsSetting", Json::array(vec![
            inbound("http", true),
            inbound("socks", true),
            inbound("http_noauth", false),
            inbound("socks_noauth", false),
        ])),
        ("outboundsSetting_trojan", Json::array(vec![obj(vec![
            ("settings", obj(vec![("servers", Json::array(vec![obj(vec![])]))])),
            ("streamSettings", obj(vec![("tlsSettings", obj(vec![]))])),
        ])])),
        ("proxy_port", Json::unsigned(8080)),
        ("proxy_socks_port", Json::unsigned(1080)),
        ("proxy_user", Json::string("user")),
        ("proxy_pass", Json::string("pass")),
        ("v2ray_path_linux", Json::string("/usr/bin/v2ray")),
        ("v2ray_path_win", Json::string("C:\\v2ray.exe")),
        ("conf_basepath_linux", Json::string("/tmp/")),
        ("conf_basepath_win", Json::string("C:\\tmp\\")),
        ("port_range", Json::array(vec![Json::unsigned(20000), Json::unsigned(20009)])),
        ("headers", obj(vec![("User-Agent", Json::string("ua")), ("X-N", Json::unsigned(1))])),
        ("pac_server_port", Json::unsigned(8000)),
    ])
}

fn trojan_node(ip: &str) -> Node {
    let mut n = Node::new();
    n.proto = String::from("trojan");
    n.ip = String::from(ip);
    n.real_ip = String::from("9.9.9.9");
    n.port = 443;
    n.param = obj(vec![("password", Json::string("pw"))]);
    n
}

#[test]
fn config_is_filled_in() {
    let c = sample_conf();
    assert!(config_is_adjustable(&c, "192.168.1.5", false));
    let a = adjust_config(&c, "192.168.1.5", false);
    assert_eq!(a.get("proxy_host").as_str(), Some(String::from("192.168.1.5")));
    let inb = a.get("inboundsSetting");
    assert_eq!(inb.at(0).get("listen").as_str(), Some(String::from("192.168.1.5")));
    assert_eq!(inb.at(0).get("port").as_u64(), Some(8080));
    assert_eq!(inb.at(0).get("settings").get("accounts").at(0).get("user").as_str(), Some(String::from("user")));
    assert_eq!(inb.at(1).get("port").as_u64(), Some(1080));
    assert_eq!(inb.at(1).get("settings").get("accounts").at(0).get("pass").as_str(), Some(String::from("pass")));
    assert_eq!(inb.at(2).get("port").as_u64(), Some(8081));
    assert_eq!(inb.at(3).get("port").as_u64(), Some(1081));
    assert_eq!(inb.at(3).get("listen").as_str(), Some(String::from("192.168.1.5")));
    assert_eq!(a.get("proxies").get("http://").as_str(), Some(String::from("http://192.168.1.5:8080/")));
    assert_eq!(a.get("v2ray_path").as_str(), Some(String::from("/usr/bin/v2ray")));
    assert_eq!(a.get("conf_basepath").as_str(), Some(String::from("/tmp/")));
    assert!(a.get("qqwry_path").is_null());
    let w = adjust_config(&c, "10.0.0.1", true);
    assert_eq!(w.get("v2ray_path").as_str(), Some(String::from("C:\\v2ray.exe")));
}

#[test]
fn config_with_wrong_inbounds_is_refused() {
    let c = obj(vec![("inboundsSetting", Json::array(vec![inbound("socks", true)]))]);
    assert!(!config_is_adjustable(&c, "1.1.1.1", false));
    assert!(!config_is_adjustable(&Json::null(), "1.1.1.1", false));
}

#[test]
fn config_follows_a_new_address() {
    let c = adjust_config(&sample_conf(), "192.168.1.5", false);
    assert_eq!(proxy_port(&c), 8080);
    assert!(lan_ip_is_applicable(&c, "10.1.1.1", 8080));
    let d = follow_lan_ip(&c, "10.1.1.1", 8080);
    assert_eq!(d.get("proxy_host").as_str(), Some(String::from("10.1.1.1")));
    assert_eq!(d.get("inboundsSetting").at(2).get("listen").as_str(), Some(String::from("10.1.1.1")));
    assert_eq!(d.get("proxies").get("http://").as_str(), Some(String::from("http://10.1.1.1:8080/")));
    assert_eq!(d.get("inboundsSetting").at(2).get("port").as_u64(), Some(8081));
}

#[test]
fn measure_setting_for_a_trojan_node() {
    let c = adjust_config(&sample_conf(), "192.168.1.5", false);
    let n = trojan_node("t.example");
    assert!(proxy_conf_is_buildable(&n, &c, 20001, true));
    let s = create_proxy_conf("w", &n, &c, 20001, true).unwrap();
    let inb = s.get("inbounds");
    assert_eq!(inb.at(0).get("tag").as_str(), Some(String::from("http_noauth")));
    assert_eq!(inb.at(0).get("listen").as_str(), Some(String::from("127.0.0.1")));
    assert_eq!(inb.at(0).get("port").as_u64(), Some(20001));
    assert!(inb.at(1).is_null());
    let server = s.get("outbounds").at(0).get("settings").get("servers").at(0);
    assert_eq!(server.get("address").as_str(), Some(String::from("9.9.9.9")));
    assert_eq!(server.get("port").as_u64(), Some(443));
    assert_eq!(server.get("password").as_str(), Some(String::from("pw")));
    assert_eq!(s.get("routing").get("domainStrategy").as_str(), Some(String::from("AsIs")));
}

#[test]
fn unsupported_protocol_gives_no_setting() {
    let c = adjust_config(&sample_conf(), "192.168.1.5", false);
    let mut n = trojan_node("t.example");
    n.proto = String::from("hysteria");
    assert!(proxy_conf_is_buildable(&n, &c, 20001, true));
    assert!(create_proxy_conf("w", &n, &c, 20001, true).is_none());
}

#[test]
fn launch_plans_for_trial_and_service() {
    let c = adjust_config(&sample_conf(), "192.168.1.5", false);
    let n = trojan_node("2001:db8::1");
    assert!(is_launchable(&n, &c, 20001, true));
    let trial = launcher_proxy("w", &n, &c, 20001, true).unwrap();
    assert_eq!(trial.program, "/usr/bin/v2ray");
    assert!(trial.conf_file.is_none());
    assert_eq!(trial.wait_ms, 1000);
    assert!(is_launchable(&n, &c, 8080, false));
    let real = launcher_proxy("w", &n, &c, 8080, false).unwrap();
    assert_eq!(real.conf_file, Some(String::from("/tmp/trojan_2001_db8__1.json")));
    assert_eq!(real.wait_ms, 5000);
    assert_eq!(conf_file_path(&c, &n), "/tmp/trojan_2001_db8__1.json");
}

#[test]
fn measure_ports_and_headers() {
    let c = sample_conf();
    assert_eq!(port_range(&c), Some((20000, 20009)));
    let bad = obj(vec![("port_range", Json::array(vec![Json::unsigned(5), Json::unsigned(4)]))]);
    assert_eq!(port_range(&bad), None);
    let h = header_pairs(&c).unwrap();
    assert_eq!(h.len(), 2);
    assert!(h.contains(&(String::from("User-Agent"), String::from("ua"))));
    assert!(h.contains(&(String::from("X-N"), String::new())));
    assert!(header_pairs(&Json::null()).is_none());
}

#[test]
fn pac_port_and_address() {
    let c = sample_conf();
    assert_eq!(pac_proxy_port(&c), 8081);
    assert_eq!(pac_listen_address("10.0.0.2", &c), "10.0.0.2:8000");
    let s = obj(vec![("pac_server_port", Json::string("8000"))]);
    assert_eq!(pac_listen_address("h", &s), "h:\"8000\"");
    let o = obj(vec![("pac_server_port", obj(vec![("b", Json::unsigned(1)), ("a", Json::null())]))]);
    assert_eq!(pac_listen_address("h", &o), "h:{\"a\":null,\"b\":1}");
    assert_eq!(pac_listen_address("h", &Json::null()), "h:null");
}

#[test]
fn vmess_setting_reads_a_text_port_as_a_number() {
    let mut c = sample_conf();
    if let Json::Object(m) = &mut c {
        let user = obj(vec![]);
        let vnext = obj(vec![("users", Json::array(vec![user]))]);
        let ob = obj(vec![
            ("settings", obj(vec![("vnext", Json::array(vec![vnext]))])),
            ("streamSettings", obj(vec![("wsSettings", obj(vec![]))])),
        ]);
        m.insert(String::from("outboundsSetting_vmess"), Json::array(vec![ob]));
    }
    let c = adjust_config(&c, "192.168.1.5", false);
    let mut n = Node::new();
    n.proto = String::from("vmess");
    n.ip = String::from("v.example");
    n.param = obj(vec![
        ("add", Json::string("v.example")),
        ("port", Json::string("443")),
        ("id", Json::string("abc")),
        ("path", Json::string("/ws")),
        ("host", Json::string("h.example")),
    ]);
    assert!(proxy_conf_is_buildable(&n, &c, 20002, true));
    let s = create_proxy_conf("w", &n, &c, 20002, true).unwrap();
    let ob = s.get("outbounds").at(0);
    let vnext = ob.get("settings").get("vnext").at(0);
    assert_eq!(vnext.get("address").as_str(), Some(String::from("v.example")));
    assert_eq!(vnext.get("port").as_u64(), Some(443));
    assert_eq!(vnext.get("users").at(0).get("id").as_str(), Some(String::from("abc")));
    assert_eq!(vnext.get("users").at(0).get("alterId").as_u64(), Some(64));
    assert_eq!(ob.get("streamSettings").get("wsSettings").get("path").as_str(), Some(String::from("/ws")));
    assert_eq!(ob.get("streamSettings").get("wsSettings").get("Host").as_str(), Some(String::from("h.example")));
    assert_eq!(ob.get("streamSettings").get("security").as_str(), Some(String::from("none")));
}

#[test]
fn vless_setting_with_a_listed_transport() {
    let mut c = sample_conf();
    if let Json::Object(m) = &mut c {
        let user = obj(vec![]);
        let vnext = obj(vec![("users", Json::array(vec![user]))]);
        let ob = obj(vec![
            ("settings", obj(vec![("vnext", Json::array(vec![vnext]))])),
            ("streamSettings", obj(vec![])),
        ]);
        m.insert(String::from("outboundsSetting_vless"), Json::array(vec![ob]));
    }
    let c = adjust_config(&c, "192.168.1.5", false);
    let mut n = Node::new();
    n.proto = String::from("vless");
    n.ip = String::from("l.example");
    n.port = 443;
    n.uuid = String::from("id-1");
    n.param = obj(vec![
        ("type", Json::array(vec![Json::string("ws")])),
        ("security", Json::string("none")),
    ]);
    assert!(proxy_conf_is_buildable(&n, &c, 20003, true));
    let s = create_proxy_conf("w", &n, &c, 20003, true).unwrap();
    let stream = s.get("outbounds").at(0).get("streamSettings");
    assert_eq!(stream.get("network").as_str(), Some(String::from("[\"ws\"]")));
    assert!(stream.get("security").is_null());
    let vnext = s.get("outbounds").at(0).get("settings").get("vnext").at(0);
    assert_eq!(vnext.get("address").as_str(), Some(String::from("l.example")));
    assert_eq!(vnext.get("users").at(0).get("id").as_str(), Some(String::from("id-1")));
}
