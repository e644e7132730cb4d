//! The program's configuration: what is filled in after it is read, and
//! what changes when the machine's address changes.

use vstd::prelude::*;
use crate::json::{Json, JsonV, StepV, PathStep, index_key, index_pos, u64_of, set_path, path_view, key, get_path, apply_writes,
    law_last_write_wins, lemma_diverge_at, diverge};
use crate::node::{put, opt_view, st, num, put_exec, top_exec};
use crate::decimal::{decimal, push_decimal};
use crate::text::{str_eq, push_str};

verus! {

/// `value["inboundsSetting"][i][k]`.
pub open spec fn inbound_path(i: int, k: Seq<char>) -> Seq<StepV> {
    seq![StepV::Key("inboundsSetting"@), StepV::Pos(i), StepV::Key(k)]
}

/// `value["inboundsSetting"][i]["settings"]["accounts"][0][k]`.
pub open spec fn account_path(i: int, k: Seq<char>) -> Seq<StepV> {
    seq![
        StepV::Key("inboundsSetting"@),
        StepV::Pos(i),
        StepV::Key("settings"@),
        StepV::Key("accounts"@),
        StepV::Pos(0),
        StepV::Key(k),
    ]
}

pub open spec fn proxies_path() -> Seq<StepV> {
    seq![StepV::Key("proxies"@), StepV::Key("http://"@)]
}

fn inbound_exec(i: usize, k: &str) -> (r: Vec<PathStep>)
    ensures
        path_view(r@) == inbound_path(i as int, k@),
{
    let mut r: Vec<PathStep> = Vec::new();
    r.push(key("inboundsSetting"));
    r.push(PathStep::Pos(i));
    r.push(key(k));
    assert(path_view(r@) =~= inbound_path(i as int, k@));
    r
}

fn account_exec(i: usize, k: &str) -> (r: Vec<PathStep>)
    ensures
        path_view(r@) == account_path(i as int, k@),
{
    let mut r: Vec<PathStep> = Vec::new();
    r.push(key("inboundsSetting"));
    r.push(PathStep::Pos(i));
    r.push(key("settings"));
    r.push(key("accounts"));
    r.push(PathStep::Pos(0));
    r.push(key(k));
    assert(path_view(r@) =~= account_path(i as int, k@));
    r
}

fn proxies_exec() -> (r: Vec<PathStep>)
    ensures
        path_view(r@) == proxies_path(),
{
    let mut r: Vec<PathStep> = Vec::new();
    r.push(key("proxies"));
    r.push(key("http://"));
    assert(path_view(r@) =~= proxies_path());
    r
}

/// The `tag` of inbound `i`.
pub open spec fn inbound_tag(c: JsonV, i: int) -> JsonV {
    index_key(index_pos(index_key(c, "inboundsSetting"@), i), "tag"@)
}

/// The four inbounds are, in order, the authenticated HTTP and SOCKS ones
/// and the open HTTP and SOCKS ones.
pub open spec fn inbound_tags_ok(c: JsonV) -> bool {
    &&& inbound_tag(c, 0) == st("http"@)
    &&& inbound_tag(c, 1) == st("socks"@)
    &&& inbound_tag(c, 2) == st("http_noauth"@)
    &&& inbound_tag(c, 3) == st("socks_noauth"@)
}

pub open spec fn u64_or_zero(j: JsonV) -> u64 {
    match u64_of(j) {
        Some(v) => v,
        None => 0,
    }
}

/// The open inbounds listen one port above the authenticated ones.
pub open spec fn next_port(j: JsonV) -> JsonV {
    num((u64_or_zero(j) + 1) as u64)
}

/// The proxy address that other tools are given.
pub open spec fn proxy_address(host: Seq<char>, port: u64) -> Seq<char> {
    "http://"@ + host + seq![':'] + decimal(port as nat) + seq!['/']
}

/// The settings that are picked by the kind of system.
pub open spec fn system_paths(o: Option<JsonV>, c: JsonV, windows: bool) -> Option<JsonV> {
    let sfx = if windows { "_win"@ } else { "_linux"@ };
    let o = put(o, seq![StepV::Key("v2ray_path"@)], index_key(c, "v2ray_path"@ + sfx));
    let o = put(o, seq![StepV::Key("conf_basepath"@)], index_key(c, "conf_basepath"@ + sfx));
    let o = put(o, seq![StepV::Key("qqwry_path"@)], index_key(c, "qqwry_path"@ + sfx));
    let o = put(o, seq![StepV::Key("pac_server_file"@)], index_key(c, "pac_server_file"@ + sfx));
    put(o, seq![StepV::Key("proxy_output_file"@)], index_key(c, "proxy_output_file"@ + sfx))
}

/// The configuration as it is used, from the configuration as read and the
/// machine's address `ip`: the proxy host is the address; the four inbounds
/// listen on it, the authenticated ones on the configured ports with the
/// configured user and password, the open ones one port above; the proxy
/// address is noted; and the paths for the kind of system are picked.
/// `None` where the inbounds are not the four expected ones, a port is the
/// largest `u64`, or a member cannot be set (there the program fails).
pub open spec fn adjusted_config(c: JsonV, ip: Seq<char>, windows: bool) -> Option<JsonV> {
    if !inbound_tags_ok(c) || u64_of(index_key(c, "proxy_port"@)) == Some(u64::MAX) || u64_of(
        index_key(c, "proxy_socks_port"@),
    ) == Some(u64::MAX) {
        None
    } else {
        let host = st(ip);
        let o = set_path(c, seq![StepV::Key("proxy_host"@)], host);
        let o = put(o, inbound_path(0, "listen"@), host);
        let o = put(o, inbound_path(0, "port"@), index_key(c, "proxy_port"@));
        let o = put(o, account_path(0, "user"@), index_key(c, "proxy_user"@));
        let o = put(o, account_path(0, "pass"@), index_key(c, "proxy_pass"@));
        let o = put(o, inbound_path(1, "listen"@), host);
        let o = put(o, inbound_path(1, "port"@), index_key(c, "proxy_socks_port"@));
        let o = put(o, account_path(1, "user"@), index_key(c, "proxy_user"@));
        let o = put(o, account_path(1, "pass"@), index_key(c, "proxy_pass"@));
        let o = put(o, inbound_path(2, "listen"@), host);
        let o = put(o, inbound_path(2, "port"@), next_port(index_key(c, "proxy_port"@)));
        let o = put(o, inbound_path(3, "listen"@), host);
        let o = put(o, inbound_path(3, "port"@), next_port(index_key(c, "proxy_socks_port"@)));
        let o = put(o, proxies_path(), st(proxy_address(ip, u64_or_zero(index_key(c, "proxy_port"@)))));
        system_paths(o, c, windows)
    }
}

fn tag_is(c: &Json, i: usize, tag: &str) -> (r: bool)
    ensures
        r == (inbound_tag(c@, i as int) == st(tag@)),
{
    let t = c.get("inboundsSetting").at(i).get("tag");
    match t.as_str() {
        Some(s) => str_eq(s.as_str(), tag),
        None => false,
    }
}

fn address_exec(host: &str, port: u64) -> (r: String)
    ensures
        r@ == proxy_address(host@, port),
{
    let mut s = String::new();
    push_str(&mut s, "http://");
    push_str(&mut s, host);
    crate::text::string_push(&mut s, ':');
    push_decimal(&mut s, port);
    crate::text::string_push(&mut s, '/');
    assert(s@ =~= proxy_address(host@, port));
    s
}

fn system_paths_exec(o: Option<Json>, c: &Json, windows: bool) -> (r: Option<Json>)
    ensures
        opt_view(r) == system_paths(opt_view(o), c@, windows),
{
    proof {
        reveal_strlit("_win");
        reveal_strlit("_linux");
        reveal_strlit("v2ray_path");
        reveal_strlit("v2ray_path_win");
        reveal_strlit("v2ray_path_linux");
        reveal_strlit("conf_basepath");
        reveal_strlit("conf_basepath_win");
        reveal_strlit("conf_basepath_linux");
        reveal_strlit("qqwry_path");
        reveal_strlit("qqwry_path_win");
        reveal_strlit("qqwry_path_linux");
        reveal_strlit("pac_server_file");
        reveal_strlit("pac_server_file_win");
        reveal_strlit("pac_server_file_linux");
        reveal_strlit("proxy_output_file");
        reveal_strlit("proxy_output_file_win");
        reveal_strlit("proxy_output_file_linux");
    }
    let o = put_exec(o, top_exec("v2ray_path"), c.get(if windows { "v2ray_path_win" } else { "v2ray_path_linux" }));
    assert(("v2ray_path"@ + "_win"@) =~= "v2ray_path_win"@);
    assert(("v2ray_path"@ + "_linux"@) =~= "v2ray_path_linux"@);
    let o = put_exec(o, top_exec("conf_basepath"), c.get(if windows { "conf_basepath_win" } else { "conf_basepath_linux" }));
    assert(("conf_basepath"@ + "_win"@) =~= "conf_basepath_win"@);
    assert(("conf_basepath"@ + "_linux"@) =~= "conf_basepath_linux"@);
    let o = put_exec(o, top_exec("qqwry_path"), c.get(if windows { "qqwry_path_win" } else { "qqwry_path_linux" }));
    assert(("qqwry_path"@ + "_win"@) =~= "qqwry_path_win"@);
    assert(("qqwry_path"@ + "_linux"@) =~= "qqwry_path_linux"@);
    let o = put_exec(o, top_exec("pac_server_file"), c.get(if windows { "pac_server_file_win" } else { "pac_server_file_linux" }));
    assert(("pac_server_file"@ + "_win"@) =~= "pac_server_file_win"@);
    assert(("pac_server_file"@ + "_linux"@) =~= "pac_server_file_linux"@);
    let o = put_exec(o, top_exec("proxy_output_file"), c.get(if windows { "proxy_output_file_win" } else { "proxy_output_file_linux" }));
    assert(("proxy_output_file"@ + "_win"@) =~= "proxy_output_file_win"@);
    assert(("proxy_output_file"@ + "_linux"@) =~= "proxy_output_file_linux"@);
    o
}

fn adjusted_exec(c: &Json, ip: &str, windows: bool) -> (r: Option<Json>)
    ensures
        opt_view(r) == adjusted_config(c@, ip@, windows),
{
    if !(tag_is(c, 0, "http") && tag_is(c, 1, "socks") && tag_is(c, 2, "http_noauth") && tag_is(c, 3, "socks_noauth")) {
        return None;
    }
    let port = c.get("proxy_port");
    let socks = c.get("proxy_socks_port");
    let port_n: u64 = match port.as_u64() {
        Some(v) => v,
        None => 0,
    };
    let socks_n: u64 = match socks.as_u64() {
        Some(v) => v,
        None => 0,
    };
    if port.as_u64() == Some(u64::MAX) || socks.as_u64() == Some(u64::MAX) {
        return None;
    }
    let o = put_exec(Some(c.deep_clone()), top_exec("proxy_host"), Json::string(ip));
    let o = put_exec(o, inbound_exec(0, "listen"), Json::string(ip));
    let o = put_exec(o, inbound_exec(0, "port"), c.get("proxy_port"));
    let o = put_exec(o, account_exec(0, "user"), c.get("proxy_user"));
    let o = put_exec(o, account_exec(0, "pass"), c.get("proxy_pass"));
    let o = put_exec(o, inbound_exec(1, "listen"), Json::string(ip));
    let o = put_exec(o, inbound_exec(1, "port"), c.get("proxy_socks_port"));
    let o = put_exec(o, account_exec(1, "user"), c.get("proxy_user"));
    let o = put_exec(o, account_exec(1, "pass"), c.get("proxy_pass"));
    let o = put_exec(o, inbound_exec(2, "listen"), Json::string(ip));
    let o = put_exec(o, inbound_exec(2, "port"), Json::unsigned(port_n + 1));
    let o = put_exec(o, inbound_exec(3, "listen"), Json::string(ip));
    let o = put_exec(o, inbound_exec(3, "port"), Json::unsigned(socks_n + 1));
    let o = put_exec(o, proxies_exec(), Json::string(address_exec(ip, port_n).as_str()));
    system_paths_exec(o, c, windows)
}

/// Whether [`adjust_config`] can fill in the configuration without failing.
pub fn config_is_adjustable(conf: &Json, ip: &str, windows: bool) -> (r: bool)
    ensures
        r == (adjusted_config(conf@, ip@, windows) is Some),
{
    adjusted_exec(conf, ip, windows).is_some()
}

/// Fills in the configuration as read (see [`adjusted_config`]); `ip` is
/// the machine's address on the local network, `windows` whether the
/// Windows paths are used.
pub fn adjust_config(conf: &Json, ip: &str, windows: bool) -> (r: Json)
    requires
        adjusted_config(conf@, ip@, windows) is Some,
    ensures
        adjusted_config(conf@, ip@, windows) == Some(r@),
{
    match adjusted_exec(conf, ip, windows) {
        Some(v) => v,
        None => Json::null(),
    }
}

/// The configuration after the machine's address changed to `ip`: the
/// proxy host, the four inbounds' listening address and the noted proxy
/// address (with `port`) follow it. `None` where a member cannot be set.
pub open spec fn with_lan_ip(c: JsonV, ip: Seq<char>, port: u64) -> Option<JsonV> {
    let host = st(ip);
    let o = set_path(c, seq![StepV::Key("proxy_host"@)], host);
    let o = put(o, inbound_path(0, "listen"@), host);
    let o = put(o, inbound_path(1, "listen"@), host);
    let o = put(o, inbound_path(2, "listen"@), host);
    let o = put(o, inbound_path(3, "listen"@), host);
    put(o, proxies_path(), st(proxy_address(ip, port)))
}

fn with_lan_ip_exec(c: &Json, ip: &str, port: u64) -> (r: Option<Json>)
    ensures
        opt_view(r) == with_lan_ip(c@, ip@, port),
{
    let o = put_exec(Some(c.deep_clone()), top_exec("proxy_host"), Json::string(ip));
    let o = put_exec(o, inbound_exec(0, "listen"), Json::string(ip));
    let o = put_exec(o, inbound_exec(1, "listen"), Json::string(ip));
    let o = put_exec(o, inbound_exec(2, "listen"), Json::string(ip));
    let o = put_exec(o, inbound_exec(3, "listen"), Json::string(ip));
    put_exec(o, proxies_exec(), Json::string(address_exec(ip, port).as_str()))
}

/// Whether [`follow_lan_ip`] can update the configuration without failing.
pub fn lan_ip_is_applicable(conf: &Json, ip: &str, port: u64) -> (r: bool)
    ensures
        r == (with_lan_ip(conf@, ip@, port) is Some),
{
    with_lan_ip_exec(conf, ip, port).is_some()
}

/// Updates the configuration for the machine's new address `ip` (see
/// [`with_lan_ip`]); `port` is the proxy's port.
pub fn follow_lan_ip(conf: &Json, ip: &str, port: u64) -> (r: Json)
    requires
        with_lan_ip(conf@, ip@, port) is Some,
    ensures
        with_lan_ip(conf@, ip@, port) == Some(r@),
{
    match with_lan_ip_exec(conf, ip, port) {
        Some(v) => v,
        None => Json::null(),
    }
}

/// The proxy's port as the service reads it: the configured number, else 0.
pub fn proxy_port(conf: &Json) -> (r: u64)
    ensures
        r == u64_or_zero(index_key(conf@, "proxy_port"@)),
{
    match conf.get("proxy_port").as_u64() {
        Some(v) => v,
        None => 0,
    }
}


/// The inbound that write `t` of [`config_write`] changes (4 for none).
pub open spec fn written_inbound(t: int) -> int {
    if 1 <= t <= 4 {
        0
    } else if 5 <= t <= 8 {
        1
    } else if 9 <= t <= 10 {
        2
    } else if 11 <= t <= 12 {
        3
    } else {
        4
    }
}

/// Write `t` of the nineteen that [`adjusted_config`] makes, in order.
pub open spec fn config_write(c: JsonV, ip: Seq<char>, windows: bool, t: int) -> (Seq<StepV>, JsonV) {
    let host = st(ip);
    let sfx = if windows { "_win"@ } else { "_linux"@ };
    if t == 0 {
        (seq![StepV::Key("proxy_host"@)], host)
    } else if t == 1 {
        (inbound_path(0, "listen"@), host)
    } else if t == 2 {
        (inbound_path(0, "port"@), index_key(c, "proxy_port"@))
    } else if t == 3 {
        (account_path(0, "user"@), index_key(c, "proxy_user"@))
    } else if t == 4 {
        (account_path(0, "pass"@), index_key(c, "proxy_pass"@))
    } else if t == 5 {
        (inbound_path(1, "listen"@), host)
    } else if t == 6 {
        (inbound_path(1, "port"@), index_key(c, "proxy_socks_port"@))
    } else if t == 7 {
        (account_path(1, "user"@), index_key(c, "proxy_user"@))
    } else if t == 8 {
        (account_path(1, "pass"@), index_key(c, "proxy_pass"@))
    } else if t == 9 {
        (inbound_path(2, "listen"@), host)
    } else if t == 10 {
        (inbound_path(2, "port"@), next_port(index_key(c, "proxy_port"@)))
    } else if t == 11 {
        (inbound_path(3, "listen"@), host)
    } else if t == 12 {
        (inbound_path(3, "port"@), next_port(index_key(c, "proxy_socks_port"@)))
    } else if t == 13 {
        (proxies_path(), st(proxy_address(ip, u64_or_zero(index_key(c, "proxy_port"@)))))
    } else if t == 14 {
        (seq![StepV::Key("v2ray_path"@)], index_key(c, "v2ray_path"@ + sfx))
    } else if t == 15 {
        (seq![StepV::Key("conf_basepath"@)], index_key(c, "conf_basepath"@ + sfx))
    } else if t == 16 {
        (seq![StepV::Key("qqwry_path"@)], index_key(c, "qqwry_path"@ + sfx))
    } else if t == 17 {
        (seq![StepV::Key("pac_server_file"@)], index_key(c, "pac_server_file"@ + sfx))
    } else {
        (seq![StepV::Key("proxy_output_file"@)], index_key(c, "proxy_output_file"@ + sfx))
    }
}

pub open spec fn config_writes(c: JsonV, ip: Seq<char>, windows: bool) -> Seq<(Seq<StepV>, JsonV)> {
    Seq::new(19, |t: int| config_write(c, ip, windows, t))
}

proof fn lemma_adjusted_as_writes(c: JsonV, ip: Seq<char>, windows: bool)
    requires
        adjusted_config(c, ip, windows) is Some,
    ensures
        adjusted_config(c, ip, windows) == apply_writes(Some(c), config_writes(c, ip, windows), 19),
{
    reveal_with_fuel(apply_writes, 20);
}

proof fn lemma_keys_differ()
    ensures
        StepV::Key("proxies"@) != StepV::Key("inboundsSetting"@),
        StepV::Key("v2ray_path"@) != StepV::Key("inboundsSetting"@),
        StepV::Key("conf_basepath"@) != StepV::Key("inboundsSetting"@),
        StepV::Key("qqwry_path"@) != StepV::Key("inboundsSetting"@),
        StepV::Key("pac_server_file"@) != StepV::Key("inboundsSetting"@),
        StepV::Key("proxy_output_file"@) != StepV::Key("inboundsSetting"@),
        StepV::Key("proxies"@) != StepV::Key("proxy_host"@),
        StepV::Key("v2ray_path"@) != StepV::Key("proxy_host"@),
        StepV::Key("conf_basepath"@) != StepV::Key("proxy_host"@),
        StepV::Key("qqwry_path"@) != StepV::Key("proxy_host"@),
        StepV::Key("pac_server_file"@) != StepV::Key("proxy_host"@),
        StepV::Key("proxy_output_file"@) != StepV::Key("proxy_host"@),
        StepV::Key("inboundsSetting"@) != StepV::Key("proxy_host"@),
        StepV::Key("settings"@) != StepV::Key("listen"@),
        StepV::Key("settings"@) != StepV::Key("port"@),
        StepV::Key("listen"@) != StepV::Key("port"@),
{
    reveal_strlit("proxy_host");
    reveal_strlit("inboundsSetting");
    reveal_strlit("proxies");
    reveal_strlit("v2ray_path");
    reveal_strlit("conf_basepath");
    reveal_strlit("qqwry_path");
    reveal_strlit("pac_server_file");
    reveal_strlit("proxy_output_file");
    reveal_strlit("settings");
    reveal_strlit("listen");
    reveal_strlit("port");
    assert("proxies"@.len() != "inboundsSetting"@.len());
    assert("v2ray_path"@.len() != "inboundsSetting"@.len());
    assert("conf_basepath"@.len() != "inboundsSetting"@.len());
    assert("qqwry_path"@.len() != "inboundsSetting"@.len());
    assert("pac_server_file"@[0] != "inboundsSetting"@[0]);
    assert("proxy_output_file"@.len() != "inboundsSetting"@.len());
    assert("proxies"@.len() != "proxy_host"@.len());
    assert("v2ray_path"@[0] != "proxy_host"@[0]);
    assert("conf_basepath"@.len() != "proxy_host"@.len());
    assert("qqwry_path"@[0] != "proxy_host"@[0]);
    assert("pac_server_file"@.len() != "proxy_host"@.len());
    assert("proxy_output_file"@.len() != "proxy_host"@.len());
    assert("inboundsSetting"@.len() != "proxy_host"@.len());
    assert("settings"@.len() != "listen"@.len());
    assert("settings"@.len() != "port"@.len());
    assert("listen"@.len() != "port"@.len());
}

proof fn lemma_inbound_writes_diverge(c: JsonV, ip: Seq<char>, windows: bool, k: int, i: int, key: Seq<char>)
    requires
        0 <= i < 4,
        key == "listen"@ || key == "port"@,
        0 <= k < 19,
        config_write(c, ip, windows, k).0 == inbound_path(i, key),
    ensures
        forall|t: int| k < t < 19 ==> diverge(#[trigger] config_writes(c, ip, windows)[t].0, inbound_path(i, key)),
{
    reveal_strlit("listen");
    reveal_strlit("port");
    reveal_strlit("settings");
    reveal_strlit("inboundsSetting");
    reveal_strlit("proxies");
    reveal_strlit("v2ray_path");
    reveal_strlit("conf_basepath");
    reveal_strlit("qqwry_path");
    reveal_strlit("pac_server_file");
    reveal_strlit("proxy_output_file");
    lemma_keys_differ();
    let q = inbound_path(i, key);
    assert forall|t: int| k < t < 19 implies diverge(#[trigger] config_writes(c, ip, windows)[t].0, q) by {
        let p = config_write(c, ip, windows, t).0;
        assert(config_writes(c, ip, windows)[t] == config_write(c, ip, windows, t));
        if t >= 13 {
            if t == 13 {
                assert(p[0] == StepV::Key("proxies"@));
            } else if t == 14 {
                assert(p[0] == StepV::Key("v2ray_path"@));
            } else if t == 15 {
                assert(p[0] == StepV::Key("conf_basepath"@));
            } else if t == 16 {
                assert(p[0] == StepV::Key("qqwry_path"@));
            } else if t == 17 {
                assert(p[0] == StepV::Key("pac_server_file"@));
            } else {
                assert(p[0] == StepV::Key("proxy_output_file"@));
            }
            assert(q[0] == StepV::Key("inboundsSetting"@));
            lemma_diverge_at(p, q, 0);
        } else if written_inbound(t) != i {
            assert(p[1] == StepV::Pos(written_inbound(t)));
            lemma_diverge_at(p, q, 1);
        } else {
            assert(p[1] == q[1]);
            assert(p[2] != q[2]);
            lemma_diverge_at(p, q, 2);
        }
    }
}

/// Once filled in, the configuration has the machine's address as the
/// proxy host, and the four inbounds listen on it: the authenticated ones
/// on the configured HTTP and SOCKS ports, the open ones a port above each.
pub proof fn law_config_listens_on_lan_ip(c: JsonV, ip: Seq<char>, windows: bool)
    requires
        adjusted_config(c, ip, windows) is Some,
    ensures
        get_path(adjusted_config(c, ip, windows)->Some_0, seq![StepV::Key("proxy_host"@)]) == st(ip),
        forall|i: int| 0 <= i < 4 ==> get_path(adjusted_config(c, ip, windows)->Some_0, #[trigger] inbound_path(i, "listen"@)) == st(ip),
        get_path(adjusted_config(c, ip, windows)->Some_0, inbound_path(0, "port"@)) == index_key(c, "proxy_port"@),
        get_path(adjusted_config(c, ip, windows)->Some_0, inbound_path(1, "port"@)) == index_key(c, "proxy_socks_port"@),
        get_path(adjusted_config(c, ip, windows)->Some_0, inbound_path(2, "port"@)) == next_port(index_key(c, "proxy_port"@)),
        get_path(adjusted_config(c, ip, windows)->Some_0, inbound_path(3, "port"@)) == next_port(index_key(c, "proxy_socks_port"@)),
{
    let ws = config_writes(c, ip, windows);
    lemma_adjusted_as_writes(c, ip, windows);
    reveal_strlit("proxy_host");
    reveal_strlit("inboundsSetting");
    reveal_strlit("proxies");
    reveal_strlit("v2ray_path");
    reveal_strlit("conf_basepath");
    reveal_strlit("qqwry_path");
    reveal_strlit("pac_server_file");
    reveal_strlit("proxy_output_file");
    lemma_keys_differ();
    let host_path = seq![StepV::Key("proxy_host"@)];
    assert forall|t: int| 0 < t < 19 implies diverge(#[trigger] ws[t].0, host_path) by {
        let p = config_write(c, ip, windows, t).0;
        assert(ws[t] == config_write(c, ip, windows, t));
        if t <= 12 {
            assert(p[0] == StepV::Key("inboundsSetting"@));
        } else if t == 13 {
            assert(p[0] == StepV::Key("proxies"@));
        } else if t == 14 {
            assert(p[0] == StepV::Key("v2ray_path"@));
        } else if t == 15 {
            assert(p[0] == StepV::Key("conf_basepath"@));
        } else if t == 16 {
            assert(p[0] == StepV::Key("qqwry_path"@));
        } else if t == 17 {
            assert(p[0] == StepV::Key("pac_server_file"@));
        } else {
            assert(p[0] == StepV::Key("proxy_output_file"@));
        }
        lemma_diverge_at(p, host_path, 0);
    }
    law_last_write_wins(c, ws, 19, 0, host_path);
    assert forall|i: int| 0 <= i < 4 implies get_path(adjusted_config(c, ip, windows)->Some_0, #[trigger] inbound_path(i, "listen"@)) == st(ip) by {
        let k = if i == 0 { 1int } else if i == 1 { 5int } else if i == 2 { 9int } else { 11int };
        assert(ws[k] == config_write(c, ip, windows, k));
        lemma_inbound_writes_diverge(c, ip, windows, k, i, "listen"@);
        law_last_write_wins(c, ws, 19, k, inbound_path(i, "listen"@));
    }
    assert(ws[2] == config_write(c, ip, windows, 2));
    lemma_inbound_writes_diverge(c, ip, windows, 2, 0, "port"@);
    law_last_write_wins(c, ws, 19, 2, inbound_path(0, "port"@));
    assert(ws[6] == config_write(c, ip, windows, 6));
    lemma_inbound_writes_diverge(c, ip, windows, 6, 1, "port"@);
    law_last_write_wins(c, ws, 19, 6, inbound_path(1, "port"@));
    assert(ws[10] == config_write(c, ip, windows, 10));
    lemma_inbound_writes_diverge(c, ip, windows, 10, 2, "port"@);
    law_last_write_wins(c, ws, 19, 10, inbound_path(2, "port"@));
    assert(ws[12] == config_write(c, ip, windows, 12));
    lemma_inbound_writes_diverge(c, ip, windows, 12, 3, "port"@);
    law_last_write_wins(c, ws, 19, 12, inbound_path(3, "port"@));
}


proof fn lemma_account_writes_diverge(c: JsonV, ip: Seq<char>, windows: bool, k: int, i: int, key: Seq<char>)
    requires
        (k == 3 && i == 0 && key == "user"@) || (k == 4 && i == 0 && key == "pass"@) || (k == 7 && i == 1 && key
            == "user"@) || (k == 8 && i == 1 && key == "pass"@),
    ensures
        config_write(c, ip, windows, k).0 == account_path(i, key),
        forall|t: int| k < t < 19 ==> diverge(#[trigger] config_writes(c, ip, windows)[t].0, account_path(i, key)),
{
    reveal_strlit("listen");
    reveal_strlit("port");
    reveal_strlit("settings");
    reveal_strlit("user");
    reveal_strlit("pass");
    lemma_keys_differ();
    assert("user"@[0] != "pass"@[0]);
    assert("listen"@.len() != "settings"@.len() && "port"@.len() != "settings"@.len());
    let q = account_path(i, key);
    assert forall|t: int| k < t < 19 implies diverge(#[trigger] config_writes(c, ip, windows)[t].0, q) by {
        let p = config_write(c, ip, windows, t).0;
        assert(config_writes(c, ip, windows)[t] == config_write(c, ip, windows, t));
        if t >= 13 {
            if t == 13 {
                assert(p[0] == StepV::Key("proxies"@));
            } else if t == 14 {
                assert(p[0] == StepV::Key("v2ray_path"@));
            } else if t == 15 {
                assert(p[0] == StepV::Key("conf_basepath"@));
            } else if t == 16 {
                assert(p[0] == StepV::Key("qqwry_path"@));
            } else if t == 17 {
                assert(p[0] == StepV::Key("pac_server_file"@));
            } else {
                assert(p[0] == StepV::Key("proxy_output_file"@));
            }
            assert(q[0] == StepV::Key("inboundsSetting"@));
            lemma_diverge_at(p, q, 0);
        } else if written_inbound(t) != i {
            assert(p[1] == StepV::Pos(written_inbound(t)));
            lemma_diverge_at(p, q, 1);
        } else {
            // the password write that follows the user write of the same inbound
            assert(t == k + 1 && key == "user"@);
            assert(p == account_path(i, "pass"@));
            assert(p[5] != q[5]);
            lemma_diverge_at(p, q, 5);
        }
    }
}

/// Once filled in, the two authenticated inbounds hold the configured user
/// name and password in their first account.
pub proof fn law_config_accounts(c: JsonV, ip: Seq<char>, windows: bool)
    requires
        adjusted_config(c, ip, windows) is Some,
    ensures
        get_path(adjusted_config(c, ip, windows)->Some_0, account_path(0, "user"@)) == index_key(c, "proxy_user"@),
        get_path(adjusted_config(c, ip, windows)->Some_0, account_path(0, "pass"@)) == index_key(c, "proxy_pass"@),
        get_path(adjusted_config(c, ip, windows)->Some_0, account_path(1, "user"@)) == index_key(c, "proxy_user"@),
        get_path(adjusted_config(c, ip, windows)->Some_0, account_path(1, "pass"@)) == index_key(c, "proxy_pass"@),
{
    let ws = config_writes(c, ip, windows);
    lemma_adjusted_as_writes(c, ip, windows);
    lemma_account_writes_diverge(c, ip, windows, 3, 0, "user"@);
    assert(ws[3] == config_write(c, ip, windows, 3));
    law_last_write_wins(c, ws, 19, 3, account_path(0, "user"@));
    lemma_account_writes_diverge(c, ip, windows, 4, 0, "pass"@);
    assert(ws[4] == config_write(c, ip, windows, 4));
    law_last_write_wins(c, ws, 19, 4, account_path(0, "pass"@));
    lemma_account_writes_diverge(c, ip, windows, 7, 1, "user"@);
    assert(ws[7] == config_write(c, ip, windows, 7));
    law_last_write_wins(c, ws, 19, 7, account_path(1, "user"@));
    lemma_account_writes_diverge(c, ip, windows, 8, 1, "pass"@);
    assert(ws[8] == config_write(c, ip, windows, 8));
    law_last_write_wins(c, ws, 19, 8, account_path(1, "pass"@));
}

/// Write `t` of the six that [`with_lan_ip`] makes, in order.
pub open spec fn lan_ip_write(ip: Seq<char>, port: u64, t: int) -> (Seq<StepV>, JsonV) {
    if t == 0 {
        (seq![StepV::Key("proxy_host"@)], st(ip))
    } else if t <= 4 {
        (inbound_path(t - 1, "listen"@), st(ip))
    } else {
        (proxies_path(), st(proxy_address(ip, port)))
    }
}

/// After the configuration follows a new address, the proxy host is that
/// address and the four inbounds listen on it.
pub proof fn law_follow_lan_ip(c: JsonV, ip: Seq<char>, port: u64)
    requires
        with_lan_ip(c, ip, port) is Some,
    ensures
        get_path(with_lan_ip(c, ip, port)->Some_0, seq![StepV::Key("proxy_host"@)]) == st(ip),
        forall|i: int| 0 <= i < 4 ==> get_path(with_lan_ip(c, ip, port)->Some_0, #[trigger] inbound_path(i, "listen"@)) == st(ip),
{
    let ws = Seq::new(6, |t: int| lan_ip_write(ip, port, t));
    assert(with_lan_ip(c, ip, port) == apply_writes(Some(c), ws, 6)) by {
        reveal_with_fuel(apply_writes, 7);
    }
    lemma_keys_differ();
    let host_path = seq![StepV::Key("proxy_host"@)];
    assert forall|t: int| 0 < t < 6 implies diverge(#[trigger] ws[t].0, host_path) by {
        let p = ws[t].0;
        if t <= 4 {
            assert(p[0] == StepV::Key("inboundsSetting"@));
        } else {
            assert(p[0] == StepV::Key("proxies"@));
        }
        lemma_diverge_at(p, host_path, 0);
    }
    law_last_write_wins(c, ws, 6, 0, host_path);
    assert forall|i: int| 0 <= i < 4 implies get_path(with_lan_ip(c, ip, port)->Some_0, #[trigger] inbound_path(i, "listen"@)) == st(ip) by {
        let q = inbound_path(i, "listen"@);
        assert forall|t: int| i + 1 < t < 6 implies diverge(#[trigger] ws[t].0, q) by {
            let p = ws[t].0;
            if t <= 4 {
                assert(p[1] == StepV::Pos(t - 1));
                lemma_diverge_at(p, q, 1);
            } else {
                assert(p[0] == StepV::Key("proxies"@));
                lemma_diverge_at(p, q, 0);
            }
        }
        law_last_write_wins(c, ws, 6, i + 1, q);
    }
}

} // verus!
