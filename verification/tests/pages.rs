use get_proxy::feeds::{
    get_tolinkshare_data, get_vpnnet_data, get_shareclash_url, get_v2rayclashnode_url, mibei_latest_post, get_mibei_url,
    get_sharkdoor_url, get_distributor_id, TOLINKSHARE_README, VPNNET_README,
};
use get_proxy::sources::{subscription_urls, sharkdoor_list_url, CalendarDate, is_valid_date, previous_day_or_default};
use get_proxy::pac::{pac_content, pac_reply, pac_request_is_answerable, request_text};

#[test]
fn tolinkshare_block_after_heading() {
    let readme = "# x\n```\nnot this\n```\n## 免费v2rayN节点列表\n```\nvmess://a\ntrojan://b\n```\n```\nlater\n```";
    let (u, d) = get_tolinkshare_data(readme).unwrap();
    assert_eq!(u, TOLINKSHARE_README);
    assert_eq!(d, "\nvmess://a\ntrojan://b\n");
    let (_, none) = get_tolinkshare_data("no heading").unwrap();
    assert_eq!(none, "");
}

#[test]
fn vpnnet_block_after_heading() {
    let (u, d) = get_vpnnet_data("免费节点\n```ss://x```").unwrap();
    assert_eq!(u, VPNNET_README);
    assert_eq!(d, "ss://x");
}

#[test]
fn listed_subscriptions() {
    let readme = "- https://a.com/early.txt\n### V2ray订阅链接\n- https://a.com/1.txt\n-   https://b.com/x/2.txt\n* https://c.com/3.txt\n";
    let v = get_shareclash_url(readme).unwrap();
    assert_eq!(v, vec![String::from("https://a.com/1.txt"), String::from("https://b.com/x/2.txt")]);
    let w = get_v2rayclashnode_url(readme).unwrap();
    assert_eq!(w, v);
    assert_eq!(get_shareclash_url("nothing").unwrap(), Vec::<String>::new());
}

#[test]
fn mibei_pages() {
    let front = "<article class=\"blog-post hentry index-post post-0\"><div class=\"entry-header\"><h2 class=\"entry-title\"><a href=\"https://www.mibei77.com/p/1.html\">t</a></h2></div></article>";
    assert_eq!(mibei_latest_post(front), "https://www.mibei77.com/p/1.html");
    assert_eq!(mibei_latest_post("<p>none</p>"), "");
    let post = "v2ray: http://mm.mibei77.com/2024/a.txt and http://mm.mibei77.com/b.txt";
    assert_eq!(get_mibei_url(post), Some(String::from("http://mm.mibei77.com/2024/a.txt")));
    assert_eq!(get_mibei_url("nothing"), Some(String::new()));
}

#[test]
fn sharkdoor_links_from_table() {
    let content = "|a|trojan://early|\n|序号|链接|\n|1|trojan://p@h:443#x|\n|2|vmess://no|\n|3|trojan://q@g:8443|\n";
    let v = get_sharkdoor_url("U", content).unwrap();
    assert_eq!(
        v,
        vec![
            (String::from("U"), String::from("trojan://p@h:443#x")),
            (String::from("U"), String::from("trojan://q@g:8443")),
        ]
    );
}

#[test]
fn distributor_id_from_os_release() {
    assert_eq!(get_distributor_id("NAME=\"Ubuntu\"\nID=ubuntu\nID_LIKE=debian\n"), "ubuntu");
    assert_eq!(get_distributor_id("NAME=x\n"), "");
}

#[test]
fn calendar_days() {
    let d = CalendarDate { year: 2024, month: 3, day: 1 };
    assert!(is_valid_date(d));
    let p = previous_day_or_default(d);
    assert_eq!((p.year, p.month, p.day), (2024, 2, 29));
    let q = previous_day_or_default(CalendarDate { year: 2023, month: 1, day: 1 });
    assert_eq!((q.year, q.month, q.day), (2022, 12, 31));
    assert!(!is_valid_date(CalendarDate { year: 2023, month: 2, day: 29 }));
    assert!(!is_valid_date(CalendarDate { year: 2023, month: 13, day: 1 }));
}

#[test]
fn subscription_list_for_a_day() {
    let v = subscription_urls(CalendarDate { year: 2024, month: 3, day: 1 });
    assert_eq!(v.len(), 139);
    assert_eq!(v[0], "https://nodefree.org/dy/2024/03/20240301.txt");
    assert_eq!(v[1], "https://nodefree.org/dy/2024/02/20240229.txt");
    assert_eq!(v[2], "https://nodefree.org/dy/2024/02/20240228.txt");
    assert_eq!(v[3], "https://clashgithub.com/wp-content/uploads/rss/20240301.txt");
    assert_eq!(v[5], "https://freeclash.org/wp-content/uploads/2024/03/0301.txt");
    assert_eq!(v[7], "https://nodebird.net/wp-content/uploads/2024/3/20240301.txt");
    assert_eq!(v[9], "https://mirror.ghproxy.com/https://raw.githubusercontent.com/umelabs/node.umelabs.dev/master/Subscribe/v2ray.md");
    assert_eq!(v[25], "https://node.onenode.cc/2024/03/20240301.txt");
    assert_eq!(v[33], "https://mirror.ghproxy.com/https://raw.githubusercontent.com/w1770946466/Auto_proxy/main/sub/2402/20240228.txt");
    assert_eq!(v[67], "https://tglaoshiji.github.io/nodeshare/2024/3/20240301.txt");
    assert_eq!(v[115], "https://good.john1959.com/v2ray@a/2024-2-29-list-1.txt");
    assert_eq!(v[118], "https://good.john1959.com/v2ray@b/2024-3-01-list-2.txt");
    assert_eq!(v[138], "https://mirror.ghproxy.com/https://raw.githubusercontent.com/nyeinkokoaung404/V2ray-Configs/main/Sub8.txt");
}

#[test]
fn sharkdoor_list_address() {
    let u = sharkdoor_list_url(CalendarDate { year: 2024, month: 11, day: 5 }, 7);
    assert_eq!(
        u,
        "https://mirror.ghproxy.com/https://raw.githubusercontent.com/sharkDoor/vpn-free-nodes/refs/heads/master/node-list/2024-11/05日07时30分.md"
    );
}

#[test]
fn pac_template_and_replies() {
    let t = pac_content("PROXY {proxy_host}:{proxy_port}; x {proxy_host}", "10.0.0.2", 8081);
    assert_eq!(t, "PROXY 10.0.0.2:8081; x 10.0.0.2");
    assert!(pac_request_is_answerable("GET / HTTP/1.1\r\nHost: x\r\n\r\n"));
    assert_eq!(pac_reply("GET / HTTP/1.1\r\nHost: x\r\n\r\n", "αb"), "HTTP/1.1 200 OK\r\nContent-Type: text/plain\r\nContent-Length: 3\r\n\r\nαb");
    assert_eq!(
        pac_reply("GET /favicon.ico HTTP/1.1\r\n", "x"),
        "HTTP/1.1 200 OK\r\nContent_type: text/plain\r\nContent-Length: 0\r\n\r\n"
    );
    assert_eq!(pac_reply("", "x"), "HTTP/1.1 200 OK\r\nContent-Type: text/plain\r\nContent-Length: 1\r\n\r\nx");
    assert_eq!(pac_reply("POST /a HTTP/1.1", "x"), "HTTP/1.1 200 OK\r\nContent-Type: text/plain\r\nContent-Length: 1\r\n\r\nx");
    assert!(!pac_request_is_answerable("GET    \r\n"));
    assert_eq!(request_text(vec![0x47, 0x45, 0x54]), "GET");
    assert_eq!(request_text(vec![0xFF]), "");
}
