//! Proxy nodes and the v2ray configuration built for one.

use vstd::prelude::*;
use crate::json::{Json, JsonV, JsonMap, NumberV, StepV, PathStep, index_key, index_pos, str_of, u64_of, set_path, get_path, diverge, law_set_then_get, law_set_keeps_elsewhere, lemma_diverge_at, path_view, key, scalar_text, scalar_to_text, json_number_text, number_from_str, set_at};
use crate::codecs::{unquote_plus, unquoted_plus};
use crate::json::json_escape;
use crate::json_text::{json_text, value_text};
use crate::text::{chars_of, split_on, split_char, string_from_chars, str_eq};

verus! {

/// A proxy node found in a subscription list.
pub struct Node {
    pub proto: String,
    pub uuid: String,
    pub ip: String,
    pub port: u32,
    pub param: Json,
    pub alias: String,
    pub real_ip: String,
    pub area: String,
    pub score: u32,
    pub score_unit: String,
    pub source: String,
    pub raw: String,
}

pub struct NodeView {
    pub proto: Seq<char>,
    pub uuid: Seq<char>,
    pub ip: Seq<char>,
    pub port: u32,
    pub param: JsonV,
    pub alias: Seq<char>,
    pub real_ip: Seq<char>,
    pub area: Seq<char>,
    pub score: u32,
    pub score_unit: Seq<char>,
    pub source: Seq<char>,
    pub raw: Seq<char>,
}

impl View for Node {
    type V = NodeView;

    open spec fn view(&self) -> NodeView {
        NodeView {
            proto: self.proto@,
            uuid: self.uuid@,
            ip: self.ip@,
            port: self.port,
            param: self.param@,
            alias: self.alias@,
            real_ip: self.real_ip@,
            area: self.area@,
            score: self.score,
            score_unit: self.score_unit@,
            source: self.source@,
            raw: self.raw@,
        }
    }
}

/// A node as the link parsers make it: no resolved address or area yet,
/// score 0 in `ms`.
pub open spec fn fresh_node(
    proto: Seq<char>,
    uuid: Seq<char>,
    ip: Seq<char>,
    port: u32,
    param: JsonV,
    alias: Seq<char>,
    source: Seq<char>,
    raw: Seq<char>,
) -> NodeView {
    NodeView {
        proto,
        uuid,
        ip,
        port,
        param,
        alias,
        real_ip: Seq::empty(),
        area: Seq::empty(),
        score: 0,
        score_unit: seq!['m', 's'],
        source,
        raw,
    }
}

/// A node with the given fields, as [`fresh_node`] describes it.
pub fn make_node(
    proto: String,
    uuid: String,
    ip: String,
    port: u32,
    param: Json,
    alias: String,
    source: String,
    raw: String,
) -> (r: Node)
    ensures
        r@ == fresh_node(proto@, uuid@, ip@, port, param@, alias@, source@, raw@),
{
    Node {
        proto,
        uuid,
        ip,
        port,
        param,
        alias,
        real_ip: String::new(),
        area: String::new(),
        score: 0,
        score_unit: string_from_chars(&['m', 's']),
        source,
        raw,
    }
}

impl Default for Node {
    /// The same node as [`Node::new`].
    fn default() -> (r: Node)
        ensures
            r.proto@.len() == 0,
            r.uuid@.len() == 0,
            r.ip@.len() == 0,
            r.port == 0,
            r.param@ == JsonV::Null,
            r.alias@.len() == 0,
            r.real_ip@.len() == 0,
            r.area@.len() == 0,
            r.score == 0,
            r.score_unit@ == seq!['m', 's'],
            r.source@.len() == 0,
            r.raw@.len() == 0,
    {
        Node::new()
    }
}

impl Node {
    /// A node with empty texts, port and score 0, null parameters, and the
    /// score unit `ms`.
    pub fn new() -> (r: Node)
        ensures
            r.proto@.len() == 0,
            r.uuid@.len() == 0,
            r.ip@.len() == 0,
            r.port == 0,
            r.param@ == JsonV::Null,
            r.alias@.len() == 0,
            r.real_ip@.len() == 0,
            r.area@.len() == 0,
            r.score == 0,
            r.score_unit@ == seq!['m', 's'],
            r.source@.len() == 0,
            r.raw@.len() == 0,
    {
        Node {
            proto: String::new(),
            uuid: String::new(),
            ip: String::new(),
            port: 0,
            param: Json::null(),
            alias: String::new(),
            real_ip: String::new(),
            area: String::new(),
            score: 0,
            score_unit: string_from_chars(&['m', 's']),
            source: String::new(),
            raw: String::new(),
        }
    }

    /// The fields that tell nodes apart: address, port, user id and the text
    /// of the parameters when they are a string.
    pub fn dedup_key(&self) -> (r: (String, u32, String, Option<String>))
        ensures
            r.0@ == self.ip@,
            r.1 == self.port,
            r.2@ == self.uuid@,
            r.3 matches Some(t) ==> str_of(self.param@) == Some(t@),
            r.3 is None ==> str_of(self.param@) is None,
    {
        (self.ip.clone(), self.port, self.uuid.clone(), self.param.as_str())
    }

    /// Whether [`Node::describe`] can write the node (see [`proto_short`]).
    pub fn is_describable(&self) -> (r: bool)
        ensures
            r == (proto_short(self.proto@) is Some),
    {
        let p = chars_of(self.proto.as_str());
        proto_short_exec(&p).is_some()
    }

    /// `<N pp:ip:port>`, `pp` being the first two bytes of the protocol.
    pub fn describe(&self) -> (r: String)
        requires
            proto_short(self.proto@) is Some,
        ensures
            r@ == describe_text(proto_short(self.proto@)->Some_0, self.ip@, self.port),
    {
        let p = chars_of(self.proto.as_str());
        let short = match proto_short_exec(&p) {
            Some(t) => t,
            None => Vec::new(),
        };
        let mut out = string_from_chars(&['<', 'N', ' ']);
        let mut i: usize = 0;
        while i < short.len()
            invariant
                i <= short@.len(),
                out@ == seq!['<', 'N', ' '] + short@.take(i as int),
            decreases short.len() - i,
        {
            crate::text::string_push(&mut out, short[i]);
            assert(short@.take(i + 1) =~= short@.take(i as int).push(short@[i as int]));
            i = i + 1;
        }
        assert(short@.take(short@.len() as int) =~= short@);
        crate::text::string_push(&mut out, ':');
        let ip = chars_of(self.ip.as_str());
        let mut j: usize = 0;
        while j < ip.len()
            invariant
                j <= ip@.len(),
                out@ == seq!['<', 'N', ' '] + short@ + seq![':'] + ip@.take(j as int),
            decreases ip.len() - j,
        {
            crate::text::string_push(&mut out, ip[j]);
            assert(ip@.take(j + 1) =~= ip@.take(j as int).push(ip@[j as int]));
            j = j + 1;
        }
        crate::text::string_push(&mut out, ':');
        crate::decimal::push_decimal(&mut out, self.port as u64);
        crate::text::string_push(&mut out, '>');
        assert(ip@.take(ip@.len() as int) =~= ip@);
        assert(out@ =~= describe_text(short@, self.ip@, self.port));
        out
    }
}

/// The number of bytes that UTF-8 takes for a character.
pub open spec fn utf8_width(c: char) -> int {
    if '\u{80}' > c {
        1
    } else if '\u{800}' > c {
        2
    } else if '\u{10000}' > c {
        3
    } else {
        4
    }
}

/// `&p[..2]` when the protocol takes at least two bytes in UTF-8, else the
/// whole protocol; `None` where byte 2 falls inside a character (there the
/// slice fails).
pub open spec fn proto_short(p: Seq<char>) -> Option<Seq<char>> {
    if p.len() == 0 {
        Some(p)
    } else if utf8_width(p[0]) == 1 {
        if p.len() == 1 {
            Some(p)
        } else if utf8_width(p[1]) == 1 {
            Some(p.take(2))
        } else {
            None
        }
    } else if utf8_width(p[0]) == 2 {
        Some(p.take(1))
    } else {
        None
    }
}

fn proto_short_exec(p: &Vec<char>) -> (r: Option<Vec<char>>)
    ensures
        r matches Some(t) ==> proto_short(p@) == Some(t@),
        r is None ==> proto_short(p@) is None,
{
    if p.len() == 0 {
        return Some(Vec::new());
    }
    let c0 = p[0];
    if '\u{80}' > c0 {
        if p.len() == 1 {
            let mut v: Vec<char> = Vec::new();
            v.push(c0);
            assert(v@ =~= p@);
            return Some(v);
        }
        let c1 = p[1];
        if '\u{80}' > c1 {
            let mut v: Vec<char> = Vec::new();
            v.push(c0);
            v.push(c1);
            assert(v@ =~= p@.take(2));
            Some(v)
        } else {
            None
        }
    } else if '\u{800}' > c0 {
        let mut v: Vec<char> = Vec::new();
        v.push(c0);
        assert(v@ =~= p@.take(1));
        Some(v)
    } else {
        None
    }
}

/// The short description of a node: `<N `, the short protocol, `:`, the
/// address, `:`, the port and `>`.
pub open spec fn describe_text(short: Seq<char>, ip: Seq<char>, port: u32) -> Seq<char> {
    seq!['<', 'N', ' '] + short + seq![':'] + ip + seq![':'] + crate::decimal::decimal(port as nat) + seq!['>']
}


pub open spec fn opt_view(o: Option<Json>) -> Option<JsonV> {
    match o {
        Some(j) => Some(j@),
        None => None,
    }
}

/// `j[path] = x` when `j` is there.
pub open spec fn put(o: Option<JsonV>, path: Seq<StepV>, x: JsonV) -> Option<JsonV> {
    match o {
        Some(j) => set_path(j, path, x),
        None => None,
    }
}

pub(crate) fn put_exec(o: Option<Json>, path: Vec<PathStep>, x: Json) -> (r: Option<Json>)
    ensures
        opt_view(r) == put(opt_view(o), path_view(path@), x@),
{
    match o {
        Some(j) => set_at(j, path.as_slice(), x),
        None => None,
    }
}

/// The member `k`, when there.
pub open spec fn member(m: Map<Seq<char>, JsonV>, k: Seq<char>) -> Option<JsonV> {
    if m.contains_key(k) { Some(m[k]) } else { None }
}

pub open spec fn or_else(o: Option<JsonV>, d: JsonV) -> JsonV {
    match o {
        Some(v) => v,
        None => d,
    }
}

/// `as_str().unwrap_or_default()`.
pub open spec fn str_or_empty(j: JsonV) -> Seq<char> {
    match str_of(j) {
        Some(s) => s,
        None => Seq::empty(),
    }
}

/// `get(k).map_or(String::new(), |o| o.to_string())`, the quotes around a
/// string taken off.
pub open spec fn member_text(m: Map<Seq<char>, JsonV>, k: Seq<char>) -> Seq<char> {
    match member(m, k) {
        None => Seq::empty(),
        Some(v) => match v {
            JsonV::Str(s) => json_escape(s),
            _ => json_text(v),
        },
    }
}

pub open spec fn st(s: Seq<char>) -> JsonV {
    JsonV::Str(s)
}

pub open spec fn num(v: u64) -> JsonV {
    JsonV::Number(NumberV::PosInt(v))
}

pub open spec fn vnext_path(x: Seq<char>) -> Seq<StepV> {
    seq![StepV::Pos(0), StepV::Key("settings"@), StepV::Key("vnext"@), StepV::Pos(0), StepV::Key(x)]
}

pub open spec fn user_path(x: Seq<char>) -> Seq<StepV> {
    seq![StepV::Pos(0), StepV::Key("settings"@), StepV::Key("vnext"@), StepV::Pos(0), StepV::Key("users"@), StepV::Pos(0), StepV::Key(x)]
}

pub open spec fn server_path(x: Seq<char>) -> Seq<StepV> {
    seq![StepV::Pos(0), StepV::Key("settings"@), StepV::Key("servers"@), StepV::Pos(0), StepV::Key(x)]
}

pub open spec fn stream_path(x: Seq<char>) -> Seq<StepV> {
    seq![StepV::Pos(0), StepV::Key("streamSettings"@), StepV::Key(x)]
}

pub open spec fn stream_sub_path(a: Seq<char>, b: Seq<char>) -> Seq<StepV> {
    seq![StepV::Pos(0), StepV::Key("streamSettings"@), StepV::Key(a), StepV::Key(b)]
}

fn vnext_exec(x: &str) -> (r: Vec<PathStep>)
    ensures
        path_view(r@) == vnext_path(x@),
{
    let mut r: Vec<PathStep> = Vec::new();
    r.push(PathStep::Pos(0));
    r.push(key("settings"));
    r.push(key("vnext"));
    r.push(PathStep::Pos(0));
    r.push(key(x));
    assert(path_view(r@) =~= vnext_path(x@));
    r
}

fn user_exec(x: &str) -> (r: Vec<PathStep>)
    ensures
        path_view(r@) == user_path(x@),
{
    let mut r: Vec<PathStep> = Vec::new();
    r.push(PathStep::Pos(0));
    r.push(key("settings"));
    r.push(key("vnext"));
    r.push(PathStep::Pos(0));
    r.push(key("users"));
    r.push(PathStep::Pos(0));
    r.push(key(x));
    assert(path_view(r@) =~= user_path(x@));
    r
}

fn server_exec(x: &str) -> (r: Vec<PathStep>)
    ensures
        path_view(r@) == server_path(x@),
{
    let mut r: Vec<PathStep> = Vec::new();
    r.push(PathStep::Pos(0));
    r.push(key("settings"));
    r.push(key("servers"));
    r.push(PathStep::Pos(0));
    r.push(key(x));
    assert(path_view(r@) =~= server_path(x@));
    r
}

fn stream_exec(x: &str) -> (r: Vec<PathStep>)
    ensures
        path_view(r@) == stream_path(x@),
{
    let mut r: Vec<PathStep> = Vec::new();
    r.push(PathStep::Pos(0));
    r.push(key("streamSettings"));
    r.push(key(x));
    assert(path_view(r@) =~= stream_path(x@));
    r
}

fn stream_sub_exec(a: &str, b: &str) -> (r: Vec<PathStep>)
    ensures
        path_view(r@) == stream_sub_path(a@, b@),
{
    let mut r: Vec<PathStep> = Vec::new();
    r.push(PathStep::Pos(0));
    r.push(key("streamSettings"));
    r.push(key(a));
    r.push(key(b));
    assert(path_view(r@) =~= stream_sub_path(a@, b@));
    r
}

pub(crate) fn top_exec(x: &str) -> (r: Vec<PathStep>)
    ensures
        path_view(r@) == seq![StepV::Key(x@)],
{
    let mut r: Vec<PathStep> = Vec::new();
    r.push(key(x));
    assert(path_view(r@) =~= seq![StepV::Key(x@)]);
    r
}

fn member_exec(m: &JsonMap, k: &str) -> (r: Option<Json>)
    ensures
        opt_view(r) == member(m@, k@),
{
    m.get(k)
}

fn or_else_exec(o: Option<Json>, d: Json) -> (r: Json)
    ensures
        r@ == or_else(opt_view(o), d@),
{
    match o {
        Some(v) => v,
        None => d,
    }
}

pub(crate) fn str_or_empty_exec(j: &Json) -> (r: String)
    ensures
        r@ == str_or_empty(j@),
{
    match j.as_str() {
        Some(s) => s,
        None => String::new(),
    }
}

fn member_text_exec(m: &JsonMap, k: &str) -> (r: String)
    ensures
        r@ == member_text(m@, k@),
{
    match m.get(k) {
        None => String::new(),
        Some(v) => {
            proof {
                crate::json::lemma_json_view(v);
            }
            match v {
                Json::Str(_) => match scalar_to_text(&v) {
                    Some(t) => t,
                    None => String::new(),
                },
                _ => value_text(&v),
            }
        },
    }
}

/// The vmess outbounds: the `outboundsSetting_vmess` template with the
/// server address (`add`, else the node's address, else its resolved
/// address), port (a number, or the number that a text holds, else 0), user
/// id, alter id (0 when `aid` is given, else 64), websocket path and host,
/// and the `tls` security (`none` when empty or absent). `None` where a
/// required member (`port`, `id`, `path`, `host`) is missing or a template
/// step fails.
pub open spec fn vmess_outbound(ip: Seq<char>, real_ip: Seq<char>, arg: Map<Seq<char>, JsonV>, conf: JsonV) -> Option<JsonV> {
    let ob = Some(index_key(conf, "outboundsSetting_vmess"@));
    let ob = put(ob, vnext_path("address"@), vmess_address(ip, real_ip, arg));
    if !arg.contains_key("port"@) || !arg.contains_key("id"@) || !arg.contains_key("path"@) || !arg.contains_key("host"@) {
        None
    } else {
        let ob = put(ob, vnext_path("port"@), vmess_port(arg["port"@]));
        let ob = put(ob, user_path("id"@), arg["id"@]);
        let ob = put(ob, user_path("alterId"@), vmess_alter_id(arg));
        let ob = put(ob, stream_sub_path("wsSettings"@, "path"@), arg["path"@]);
        let ob = if str_or_empty(arg["host"@]).len() != 0 {
            put(ob, stream_sub_path("wsSettings"@, "Host"@), arg["host"@])
        } else {
            ob
        };
        put(ob, stream_path("security"@), vmess_security(arg))
    }
}

/// The server address of a vmess outbound: `add`, else the node's address,
/// else its resolved address.
pub open spec fn vmess_address(ip: Seq<char>, real_ip: Seq<char>, arg: Map<Seq<char>, JsonV>) -> JsonV {
    if arg.contains_key("add"@) {
        arg["add"@]
    } else if ip.len() != 0 {
        st(ip)
    } else {
        st(real_ip)
    }
}

/// The port of a vmess outbound: a number as it is, the number that a text
/// holds, else 0.
pub open spec fn vmess_port(pv: JsonV) -> JsonV {
    match pv {
        JsonV::Number(n) => JsonV::Number(n),
        _ => match json_number_text(str_or_empty(pv)) {
            Some(n) => JsonV::Number(n),
            None => num(0),
        },
    }
}

/// The alter id of a vmess outbound: 64 without `aid`, 0 for an empty one,
/// else its number (0 when it is none).
pub open spec fn vmess_alter_id(arg: Map<Seq<char>, JsonV>) -> JsonV {
    if arg.contains_key("aid"@) {
        if str_or_empty(arg["aid"@]).len() == 0 {
            num(0)
        } else {
            num(
                match u64_of(arg["aid"@]) {
                    Some(v) => v,
                    None => 0,
                },
            )
        }
    } else {
        num(64)
    }
}

/// The security of a vmess outbound: `tls` when it is given and not empty,
/// else `none`.
pub open spec fn vmess_security(arg: Map<Seq<char>, JsonV>) -> JsonV {
    match member(arg, "tls"@) {
        Some(o) => if str_or_empty(o).len() != 0 { o } else { st("none"@) },
        None => st("none"@),
    }
}

fn vmess_outbound_exec(ip: &String, real_ip: &String, arg: &JsonMap, conf: &Json) -> (r: Option<Json>)
    ensures
        opt_view(r) == vmess_outbound(ip@, real_ip@, arg@, conf@),
{
    let ob = Some(conf.get("outboundsSetting_vmess"));
    let addr = if arg.contains_key("add") {
        or_else_exec(arg.get("add"), Json::null())
    } else if !ip.as_str().is_empty() {
        Json::string(ip.as_str())
    } else {
        Json::string(real_ip.as_str())
    };
    let ob = put_exec(ob, vnext_exec("address"), addr);
    if !arg.contains_key("port") || !arg.contains_key("id") || !arg.contains_key("path") || !arg.contains_key("host") {
        return None;
    }
    let pv = or_else_exec(arg.get("port"), Json::null());
    proof {
        crate::json::lemma_json_view(pv);
    }
    let port = match pv {
        Json::Number(n) => Json::Number(n),
        _ => match number_from_str(str_or_empty_exec(&pv).as_str()) {
            Some(n) => {
                let r = Json::Number(n);
                proof {
                    crate::json::lemma_json_view(r);
                }
                r
            },
            None => Json::unsigned(0),
        },
    };
    proof {
        crate::json::lemma_json_view(port);
    }
    let ob = put_exec(ob, vnext_exec("port"), port);
    let ob = put_exec(ob, user_exec("id"), or_else_exec(arg.get("id"), Json::null()));
    let aid = if arg.contains_key("aid") {
        let a = or_else_exec(arg.get("aid"), Json::null());
        if str_or_empty_exec(&a).as_str().is_empty() {
            Json::unsigned(0)
        } else {
            Json::unsigned(
                match a.as_u64() {
                    Some(v) => v,
                    None => 0,
                },
            )
        }
    } else {
        Json::unsigned(64)
    };
    let ob = put_exec(ob, user_exec("alterId"), aid);
    let ob = put_exec(ob, stream_sub_exec("wsSettings", "path"), or_else_exec(arg.get("path"), Json::null()));
    let host = or_else_exec(arg.get("host"), Json::null());
    let ob = if !str_or_empty_exec(&host).as_str().is_empty() {
        put_exec(ob, stream_sub_exec("wsSettings", "Host"), host)
    } else {
        ob
    };
    let sec = match member_exec(arg, "tls") {
        Some(o) => if !str_or_empty_exec(&o).as_str().is_empty() {
            o
        } else {
            Json::string("none")
        },
        None => Json::string("none"),
    };
    put_exec(ob, stream_exec("security"), sec)
}


fn obj_insert(m: &mut JsonMap, k: &str, v: Json)
    ensures
        final(m)@ == old(m)@.insert(k@, v@),
{
    m.insert(k.to_owned(), v);
}

/// Removes the member `k` from `j[0]["streamSettings"]` when that is an object.
pub open spec fn remove_stream_member(o: Option<JsonV>, k: Seq<char>) -> Option<JsonV> {
    match o {
        None => None,
        Some(j) => match index_key(index_pos(j, 0), "streamSettings"@) {
            JsonV::Object(m) => set_path(
                j,
                seq![StepV::Pos(0), StepV::Key("streamSettings"@)],
                JsonV::Object(m.remove(k)),
            ),
            _ => Some(j),
        },
    }
}

fn remove_stream_member_exec(o: Option<Json>, k: &str) -> (r: Option<Json>)
    ensures
        opt_view(r) == remove_stream_member(opt_view(o), k@),
{
    match o {
        None => None,
        Some(j) => {
            let ss = j.at(0).get("streamSettings");
            proof {
                crate::json::lemma_json_view(ss);
            }
            match ss {
                Json::Object(mut m) => {
                    m.remove(k);
                    let mut p: Vec<PathStep> = Vec::new();
                    p.push(PathStep::Pos(0));
                    p.push(key("streamSettings"));
                    assert(path_view(p@) =~= seq![StepV::Pos(0), StepV::Key("streamSettings"@)]);
                    set_at(j, p.as_slice(), Json::object(m))
                },
                _ => Some(j),
            }
        },
    }
}

pub open spec fn is_none_word(s: Seq<char>) -> bool {
    s == Seq::<char>::empty() || s == "none"@ || s == "None"@ || s == "null"@ || s == "Null"@
}

fn is_none_word_exec(s: &str) -> (r: bool)
    ensures
        r == is_none_word(s@),
{
    if s.is_empty() {
        assert(s@ =~= Seq::<char>::empty());
        return true;
    }
    str_eq(s, "none") || str_eq(s, "None") || str_eq(s, "null") || str_eq(s, "Null")
}

/// The TLS settings of a vless node: server name (`sni`, else the node's
/// address), no insecure connections, and a fingerprint (`fp`, else
/// `chrome`).
pub open spec fn vless_tls_settings(ip: Seq<char>, arg: Map<Seq<char>, JsonV>) -> JsonV {
    JsonV::Object(
        Map::empty().insert("serverName"@, or_else(member(arg, "sni"@), st(ip))).insert(
            "allowInsecure"@,
            JsonV::Bool(false),
        ).insert("show"@, JsonV::Bool(false)).insert("fingerprint"@, or_else(member(arg, "fp"@), st("chrome"@))),
    )
}

/// The strings between the commas of the unquoted `alpn` member, or none
/// when it does not unquote.
pub open spec fn alpn_list(arg: Map<Seq<char>, JsonV>) -> JsonV {
    match unquoted_plus(str_or_empty(arg["alpn"@])) {
        Some(o) => JsonV::Array(split_char(o, ',').map_values(|p: Seq<char>| JsonV::Str(p))),
        None => JsonV::Array(Seq::empty()),
    }
}

pub open spec fn unquoted_or_empty(s: Seq<char>) -> Seq<char> {
    match unquoted_plus(s) {
        Some(t) => t,
        None => Seq::empty(),
    }
}

pub open spec fn member_str_or_empty(arg: Map<Seq<char>, JsonV>, k: Seq<char>) -> Seq<char> {
    match member(arg, k) {
        Some(o) => str_or_empty(o),
        None => Seq::empty(),
    }
}

/// The REALITY settings of a vless node.
pub open spec fn vless_reality_settings(ip: Seq<char>, arg: Map<Seq<char>, JsonV>) -> JsonV {
    JsonV::Object(
        Map::empty().insert(
            "fingerprint"@,
            or_else(member(arg, "fingerprint"@), or_else(member(arg, "fp"@), st("chrome"@))),
        ).insert("serverName"@, or_else(member(arg, "sni"@), st(ip))).insert("show"@, JsonV::Bool(false)).insert(
            "publicKey"@,
            or_else(member(arg, "public-key"@), or_else(member(arg, "pbk"@), st(Seq::empty()))),
        ).insert(
            "shortId"@,
            or_else(member(arg, "short-id"@), or_else(member(arg, "sid"@), st(Seq::empty()))),
        ).insert("spiderX"@, st(unquoted_or_empty(member_str_or_empty(arg, "spx"@)))),
    )
}

pub open spec fn grpc_settings(arg: Map<Seq<char>, JsonV>) -> JsonV {
    JsonV::Object(
        Map::empty().insert("serviceName"@, st(unquoted_or_empty(member_str_or_empty(arg, "serviceName"@)))).insert(
            "multiMode"@,
            JsonV::Bool(
                match member(arg, "mode"@) {
                    Some(o) => str_or_empty(o) == "multi"@,
                    None => false,
                },
            ),
        ).insert("idle_timeout"@, num(60)).insert("health_check_timeout"@, num(20)).insert(
            "permit_without_stream"@,
            JsonV::Bool(false),
        ).insert("initial_windows_size"@, num(0)),
    )
}

/// The vless outbounds: the `outboundsSetting_vless` template with the
/// node's address, port and id, alter id 0, a fixed e-mail, the encryption
/// (`none` when empty or absent) and flow, the transport (`type`, or
/// `network` where `type` says `vless`) and security, and the settings that
/// these call for. `None` where a template step fails, or where the `ws`
/// transport finds no `path`.
pub open spec fn vless_outbound(ip: Seq<char>, port: u32, uuid: Seq<char>, arg: Map<Seq<char>, JsonV>, conf: JsonV) -> Option<JsonV> {
    let ob = Some(index_key(conf, "outboundsSetting_vless"@));
    let ob = put(ob, vnext_path("address"@), st(ip));
    let ob = put(ob, vnext_path("port"@), num(port as u64));
    let ob = put(ob, user_path("id"@), st(uuid));
    let ob = put(ob, user_path("alterId"@), num(0));
    let ob = put(ob, user_path("email"@), st("wd4mxs@mx.com"@));
    let enc = match member(arg, "encryption"@) {
        Some(o) => if str_or_empty(o).len() > 0 { o } else { st("none"@) },
        None => st("none"@),
    };
    let ob = put(ob, user_path("encryption"@), enc);
    let ob = put(ob, user_path("flow"@), or_else(member(arg, "flow"@), st(Seq::empty())));
    {
        {
            let t = member_text(arg, "type"@);
            let nw = member_text(arg, "network"@);
            let security = member_text(arg, "security"@);
            let network = if t == "vless"@ { nw } else { t };
            let ob = put(ob, stream_path("network"@), st(network));
            let ob = put(ob, stream_path("security"@), st(security));
            let ob = if security == "tls"@ {
                let ob = put(ob, stream_path("tlsSettings"@), vless_tls_settings(ip, arg));
                if arg.contains_key("alpn"@) {
                    put(ob, stream_sub_path("tlsSettings"@, "alpn"@), alpn_list(arg))
                } else {
                    ob
                }
            } else if security == "reality"@ {
                put(ob, stream_path("realitySettings"@), vless_reality_settings(ip, arg))
            } else if is_none_word(security) {
                remove_stream_member(ob, "security"@)
            } else {
                ob
            };
            if network == "tcp"@ {
                ob
            } else if network == "ws"@ {
                if !arg.contains_key("path"@) {
                    None
                } else {
                    let ob = put(ob, stream_path("tlsSettings"@), JsonV::Object(Map::empty().insert("serverName"@, or_else(member(arg, "sni"@), st(ip)))));
                    put(
                        ob,
                        stream_path("wsSettings"@),
                        JsonV::Object(
                            Map::empty().insert("path"@, arg["path"@]).insert("Host"@, or_else(member(arg, "host"@), st(Seq::empty()))).insert(
                                "headers"@,
                                JsonV::Object(Map::empty()),
                            ),
                        ),
                    )
                }
            } else if network == "httpupgrade"@ {
                put(
                    ob,
                    stream_path("httpupgradeSettings"@),
                    JsonV::Object(
                        Map::empty().insert("host"@, or_else(member(arg, "host"@), st(Seq::empty()))).insert(
                            "path"@,
                            or_else(member(arg, "path"@), JsonV::Null),
                        ),
                    ),
                )
            } else if network == "xhttp"@ {
                put(ob, stream_path("xhttpSettings"@), JsonV::Object(Map::empty().insert("path"@, or_else(member(arg, "path"@), JsonV::Null))))
            } else if network == "grpc"@ {
                put(ob, stream_path("grpcSettings"@), grpc_settings(arg))
            } else if is_none_word(network) {
                remove_stream_member(ob, "network"@)
            } else {
                ob
            }
        }
    }
}

fn unquoted_or_empty_exec(s: &str) -> (r: String)
    ensures
        r@ == unquoted_or_empty(s@),
{
    match unquote_plus(s) {
        Some(t) => t,
        None => String::new(),
    }
}

fn member_str_or_empty_exec(arg: &JsonMap, k: &str) -> (r: String)
    ensures
        r@ == member_str_or_empty(arg@, k@),
{
    match member_exec(arg, k) {
        Some(o) => str_or_empty_exec(&o),
        None => String::new(),
    }
}

fn vless_tls_exec(ip: &String, arg: &JsonMap) -> (r: Json)
    ensures
        r@ == vless_tls_settings(ip@, arg@),
{
    let mut m = JsonMap::new();
    obj_insert(&mut m, "serverName", or_else_exec(member_exec(arg, "sni"), Json::string(ip.as_str())));
    obj_insert(&mut m, "allowInsecure", Json::boolean(false));
    obj_insert(&mut m, "show", Json::boolean(false));
    obj_insert(&mut m, "fingerprint", or_else_exec(member_exec(arg, "fp"), Json::string("chrome")));
    Json::object(m)
}

fn alpn_exec(arg: &JsonMap) -> (r: Json)
    requires
        arg@.contains_key("alpn"@),
    ensures
        r@ == alpn_list(arg@),
{
    let a = or_else_exec(member_exec(arg, "alpn"), Json::null());
    match unquote_plus(str_or_empty_exec(&a).as_str()) {
        Some(o) => {
            let cs = chars_of(o.as_str());
            let parts = split_on(cs.as_slice(), ',');
            let mut items: Vec<Json> = Vec::new();
            let mut i: usize = 0;
            while i < parts.len()
                invariant
                    i <= parts@.len(),
                    items@.len() == i,
                    forall|j: int| 0 <= j < i ==> #[trigger] items@[j]@ == JsonV::Str(parts@[j]@),
                decreases parts@.len() - i,
            {
                items.push(Json::string(string_from_chars(parts[i].as_slice()).as_str()));
                i = i + 1;
            }
            let r = Json::array(items);
            assert(r@->Array_0 =~= split_char(o@, ',').map_values(|p: Seq<char>| JsonV::Str(p)));
            r
        },
        None => {
            let r = Json::array(Vec::new());
            assert(r@->Array_0 =~= Seq::<JsonV>::empty());
            r
        },
    }
}

fn vless_reality_exec(ip: &String, arg: &JsonMap) -> (r: Json)
    ensures
        r@ == vless_reality_settings(ip@, arg@),
{
    proof {
        reveal_strlit("");
        assert(""@ =~= Seq::<char>::empty());
    }
    let mut m = JsonMap::new();
    obj_insert(
        &mut m,
        "fingerprint",
        or_else_exec(member_exec(arg, "fingerprint"), or_else_exec(member_exec(arg, "fp"), Json::string("chrome"))),
    );
    obj_insert(&mut m, "serverName", or_else_exec(member_exec(arg, "sni"), Json::string(ip.as_str())));
    obj_insert(&mut m, "show", Json::boolean(false));
    obj_insert(
        &mut m,
        "publicKey",
        or_else_exec(member_exec(arg, "public-key"), or_else_exec(member_exec(arg, "pbk"), Json::string(""))),
    );
    obj_insert(
        &mut m,
        "shortId",
        or_else_exec(member_exec(arg, "short-id"), or_else_exec(member_exec(arg, "sid"), Json::string(""))),
    );
    let spx = member_str_or_empty_exec(arg, "spx");
    obj_insert(&mut m, "spiderX", Json::string(unquoted_or_empty_exec(spx.as_str()).as_str()));
    Json::object(m)
}

fn grpc_exec(arg: &JsonMap) -> (r: Json)
    ensures
        r@ == grpc_settings(arg@),
{
    let mut m = JsonMap::new();
    let sn = member_str_or_empty_exec(arg, "serviceName");
    obj_insert(&mut m, "serviceName", Json::string(unquoted_or_empty_exec(sn.as_str()).as_str()));
    let multi = match member_exec(arg, "mode") {
        Some(o) => str_eq(str_or_empty_exec(&o).as_str(), "multi"),
        None => false,
    };
    obj_insert(&mut m, "multiMode", Json::boolean(multi));
    obj_insert(&mut m, "idle_timeout", Json::unsigned(60));
    obj_insert(&mut m, "health_check_timeout", Json::unsigned(20));
    obj_insert(&mut m, "permit_without_stream", Json::boolean(false));
    obj_insert(&mut m, "initial_windows_size", Json::unsigned(0));
    Json::object(m)
}

fn vless_outbound_exec(ip: &String, port: u32, uuid: &String, arg: &JsonMap, conf: &Json) -> (r: Option<Json>)
    ensures
        opt_view(r) == vless_outbound(ip@, port, uuid@, arg@, conf@),
{
    proof {
        reveal_strlit("");
        assert(""@ =~= Seq::<char>::empty());
    }
    let ob = Some(conf.get("outboundsSetting_vless"));
    let ob = put_exec(ob, vnext_exec("address"), Json::string(ip.as_str()));
    let ob = put_exec(ob, vnext_exec("port"), Json::unsigned(port as u64));
    let ob = put_exec(ob, user_exec("id"), Json::string(uuid.as_str()));
    let ob = put_exec(ob, user_exec("alterId"), Json::unsigned(0));
    let ob = put_exec(ob, user_exec("email"), Json::string("wd4mxs@mx.com"));
    let enc = match member_exec(arg, "encryption") {
        Some(o) => if !str_or_empty_exec(&o).as_str().is_empty() {
            o
        } else {
            Json::string("none")
        },
        None => Json::string("none"),
    };
    let ob = put_exec(ob, user_exec("encryption"), enc);
    let ob = put_exec(ob, user_exec("flow"), or_else_exec(member_exec(arg, "flow"), Json::string("")));
    let t = member_text_exec(arg, "type");
    let nw = member_text_exec(arg, "network");
    let security = member_text_exec(arg, "security");
    let network = if str_eq(t.as_str(), "vless") { nw } else { t };
    let ob = put_exec(ob, stream_exec("network"), Json::string(network.as_str()));
    let ob = put_exec(ob, stream_exec("security"), Json::string(security.as_str()));
    let ob = if str_eq(security.as_str(), "tls") {
        let ob = put_exec(ob, stream_exec("tlsSettings"), vless_tls_exec(ip, arg));
        if arg.contains_key("alpn") {
            put_exec(ob, stream_sub_exec("tlsSettings", "alpn"), alpn_exec(arg))
        } else {
            ob
        }
    } else if str_eq(security.as_str(), "reality") {
        put_exec(ob, stream_exec("realitySettings"), vless_reality_exec(ip, arg))
    } else if is_none_word_exec(security.as_str()) {
        remove_stream_member_exec(ob, "security")
    } else {
        ob
    };
    if str_eq(network.as_str(), "tcp") {
        ob
    } else if str_eq(network.as_str(), "ws") {
        if !arg.contains_key("path") {
            return None;
        }
        let mut tls = JsonMap::new();
        obj_insert(&mut tls, "serverName", or_else_exec(member_exec(arg, "sni"), Json::string(ip.as_str())));
        let ob = put_exec(ob, stream_exec("tlsSettings"), Json::object(tls));
        let mut ws = JsonMap::new();
        obj_insert(&mut ws, "path", or_else_exec(member_exec(arg, "path"), Json::null()));
        obj_insert(&mut ws, "Host", or_else_exec(member_exec(arg, "host"), Json::string("")));
        obj_insert(&mut ws, "headers", Json::object(JsonMap::new()));
        put_exec(ob, stream_exec("wsSettings"), Json::object(ws))
    } else if str_eq(network.as_str(), "httpupgrade") {
        let mut h = JsonMap::new();
        obj_insert(&mut h, "host", or_else_exec(member_exec(arg, "host"), Json::string("")));
        obj_insert(&mut h, "path", or_else_exec(member_exec(arg, "path"), Json::null()));
        put_exec(ob, stream_exec("httpupgradeSettings"), Json::object(h))
    } else if str_eq(network.as_str(), "xhttp") {
        let mut h = JsonMap::new();
        obj_insert(&mut h, "path", or_else_exec(member_exec(arg, "path"), Json::null()));
        put_exec(ob, stream_exec("xhttpSettings"), Json::object(h))
    } else if str_eq(network.as_str(), "grpc") {
        put_exec(ob, stream_exec("grpcSettings"), grpc_exec(arg))
    } else if is_none_word_exec(network.as_str()) {
        remove_stream_member_exec(ob, "network")
    } else {
        ob
    }
}


/// The trojan outbounds: the `outboundsSetting_trojan` template with the
/// node's resolved address, port and password, and, when `allowInsecure` is
/// given, whether it says `1`, `true` or `True`. `None` where `password` is
/// missing or a template step fails.
pub open spec fn trojan_outbound(real_ip: Seq<char>, port: u32, arg: Map<Seq<char>, JsonV>, conf: JsonV) -> Option<JsonV> {
    let ob = Some(index_key(conf, "outboundsSetting_trojan"@));
    let ob = put(ob, server_path("address"@), st(real_ip));
    let ob = put(ob, server_path("port"@), num(port as u64));
    if !arg.contains_key("password"@) {
        None
    } else {
        let ob = put(ob, server_path("password"@), arg["password"@]);
        if arg.contains_key("allowInsecure"@) {
            let v = match str_of(arg["allowInsecure"@]) {
                Some(t) => t == "1"@ || t == "true"@ || t == "True"@,
                None => false,
            };
            put(ob, stream_sub_path("tlsSettings"@, "allowInsecure"@), JsonV::Bool(v))
        } else {
            ob
        }
    }
}

fn trojan_outbound_exec(real_ip: &String, port: u32, arg: &JsonMap, conf: &Json) -> (r: Option<Json>)
    ensures
        opt_view(r) == trojan_outbound(real_ip@, port, arg@, conf@),
{
    let ob = Some(conf.get("outboundsSetting_trojan"));
    let ob = put_exec(ob, server_exec("address"), Json::string(real_ip.as_str()));
    let ob = put_exec(ob, server_exec("port"), Json::unsigned(port as u64));
    if !arg.contains_key("password") {
        return None;
    }
    let ob = put_exec(ob, server_exec("password"), or_else_exec(member_exec(arg, "password"), Json::null()));
    if arg.contains_key("allowInsecure") {
        let a = or_else_exec(member_exec(arg, "allowInsecure"), Json::null());
        let v = match a.as_str() {
            Some(t) => str_eq(t.as_str(), "1") || str_eq(t.as_str(), "true") || str_eq(t.as_str(), "True"),
            None => false,
        };
        put_exec(ob, stream_sub_exec("tlsSettings", "allowInsecure"), Json::boolean(v))
    } else {
        ob
    }
}

/// The shadowsocks outbounds: the `outboundsSetting_ss` template with the
/// node's address, method, password and port. `None` where `method` or
/// `password` is missing or a template step fails.
pub open spec fn ss_outbound(ip: Seq<char>, port: u32, arg: Map<Seq<char>, JsonV>, conf: JsonV) -> Option<JsonV> {
    let ob = Some(index_key(conf, "outboundsSetting_ss"@));
    let ob = put(ob, server_path("address"@), st(ip));
    if !arg.contains_key("method"@) || !arg.contains_key("password"@) {
        None
    } else {
        let ob = put(ob, server_path("method"@), arg["method"@]);
        let ob = put(ob, server_path("password"@), arg["password"@]);
        put(ob, server_path("port"@), num(port as u64))
    }
}

fn ss_outbound_exec(ip: &String, port: u32, arg: &JsonMap, conf: &Json) -> (r: Option<Json>)
    ensures
        opt_view(r) == ss_outbound(ip@, port, arg@, conf@),
{
    let ob = Some(conf.get("outboundsSetting_ss"));
    let ob = put_exec(ob, server_exec("address"), Json::string(ip.as_str()));
    if !arg.contains_key("method") || !arg.contains_key("password") {
        return None;
    }
    let ob = put_exec(ob, server_exec("method"), or_else_exec(member_exec(arg, "method"), Json::null()));
    let ob = put_exec(ob, server_exec("password"), or_else_exec(member_exec(arg, "password"), Json::null()));
    put_exec(ob, server_exec("port"), Json::unsigned(port as u64))
}

/// `value["inbounds"][0][k]`.
pub open spec fn inbound0_path(k: Seq<char>) -> Seq<StepV> {
    seq![StepV::Key("inbounds"@), StepV::Pos(0), StepV::Key(k)]
}

/// The inbounds kept for a measurement: of `[a, b, c, d, ...]`, what two
/// `swap_remove(0)` and one `remove(1)` leave.
pub open spec fn measure_inbounds(o: Seq<JsonV>) -> Seq<JsonV> {
    let o1 = o.update(0, o.last()).drop_last();
    let o2 = o1.update(0, o1.last()).drop_last();
    o2.remove(1)
}

pub open spec fn routing_settings() -> JsonV {
    JsonV::Object(
        Map::empty().insert("domainStrategy"@, st("AsIs"@)).insert("domainMatcher"@, st("mph"@)).insert(
            "rules"@,
            JsonV::Array(Seq::empty()),
        ).insert("balancers"@, JsonV::Array(Seq::empty())),
    )
}

/// The last adjustments of a configuration. For a measurement, when the
/// inbounds are an array: only the third is kept, listening on 127.0.0.1 at
/// `port`, and the routing is reset (fewer than four inbounds fail). Else,
/// when `proxy_output_file` is set, the log goes there.
pub open spec fn finish_setting(setting: Option<JsonV>, conf: JsonV, port: u64, measure_mode: bool) -> Option<JsonV> {
    match setting {
        None => None,
        Some(s) => if measure_mode {
            match index_key(s, "inbounds"@) {
                JsonV::Array(o) => if o.len() < 4 {
                    None
                } else {
                    let kept = put(Some(JsonV::Array(measure_inbounds(o))), seq![StepV::Pos(0), StepV::Key("listen"@)], st("127.0.0.1"@));
                    let kept = put(kept, seq![StepV::Pos(0), StepV::Key("port"@)], num(port));
                    match kept {
                        None => None,
                        Some(k) => put(put(Some(s), seq![StepV::Key("inbounds"@)], k), seq![StepV::Key("routing"@)], routing_settings()),
                    }
                },
                _ => Some(s),
            }
        } else if !(index_key(conf, "proxy_output_file"@) is Null) {
            let pof = index_key(conf, "proxy_output_file"@);
            let s1 = put(Some(s), seq![StepV::Key("log"@), StepV::Key("access"@)], pof);
            let s2 = put(s1, seq![StepV::Key("log"@), StepV::Key("error"@)], pof);
            put(s2, seq![StepV::Key("log"@), StepV::Key("loglevel"@)], index_key(conf, "proxy_output_file_loglevel"@))
        } else {
            Some(s)
        },
    }
}

pub open spec fn is_supported_proto(p: Seq<char>) -> bool {
    p == "vmess"@ || p == "vless"@ || p == "trojan"@ || p == "ss"@
}

/// The v2ray configuration for a node: `Some(None)` where none is made (an
/// unsupported protocol, or parameters that are not an object); else the
/// `conf_tpl` template with the configured inbounds, the node's outbounds
/// and the last adjustments. `None` where a step fails (see the outbound
/// functions and [`finish_setting`]).
pub open spec fn proxy_setting(node: &Node, conf: JsonV, port: u64, measure_mode: bool) -> Option<Option<JsonV>> {
    let p = node.proto@;
    if !is_supported_proto(p) {
        Some(None)
    } else {
        match node.param@ {
            JsonV::Object(arg) => {
                let ob = if p == "vmess"@ {
                    vmess_outbound(node.ip@, node.real_ip@, arg, conf)
                } else if p == "vless"@ {
                    vless_outbound(node.ip@, node.port, node.uuid@, arg, conf)
                } else if p == "trojan"@ {
                    trojan_outbound(node.real_ip@, node.port, arg, conf)
                } else {
                    ss_outbound(node.ip@, node.port, arg, conf)
                };
                match ob {
                    None => None,
                    Some(o) => {
                        let setting = put(Some(index_key(conf, "conf_tpl"@)), seq![StepV::Key("inbounds"@)], index_key(conf, "inboundsSetting"@));
                        let setting = put(setting, seq![StepV::Key("outbounds"@)], o);
                        match finish_setting(setting, conf, port, measure_mode) {
                            Some(v) => Some(Some(v)),
                            None => None,
                        }
                    },
                }
            },
            _ => Some(None),
        }
    }
}

fn finish_exec(setting: Option<Json>, conf: &Json, port: u64, measure_mode: bool) -> (r: Option<Json>)
    ensures
        opt_view(r) == finish_setting(opt_view(setting), conf@, port, measure_mode),
{
    let s = match setting {
        None => return None,
        Some(s) => s,
    };
    if measure_mode {
        let inb = s.get("inbounds");
        proof {
            crate::json::lemma_json_view(inb);
        }
        match inb {
            Json::Array(mut o) => {
                let ghost ov = inb@->Array_0;
                if o.len() < 4 {
                    return None;
                }
                let ghost before = o@;
                o.swap_remove(0);
                o.swap_remove(0);
                o.remove(1);
                let arr = Json::array(o);
                proof {
                    assert(arr@->Array_0 =~= measure_inbounds(ov)) by {
                        let o1 = ov.update(0, ov.last()).drop_last();
                        let o2 = o1.update(0, o1.last()).drop_last();
                        let b1 = before.update(0, before.last()).drop_last();
                        let b2 = b1.update(0, b1.last()).drop_last();
                        assert forall|i: int| 0 <= i < b2.remove(1).len() implies #[trigger] b2.remove(1)[i]@ == o2.remove(1)[i] by {
                            assert(b1.len() == o1.len());
                            assert forall|j: int| 0 <= j < b1.len() implies #[trigger] b1[j]@ == o1[j] by {}
                            assert forall|j: int| 0 <= j < b2.len() implies #[trigger] b2[j]@ == o2[j] by {}
                        }
                    }
                }
                let mut p1: Vec<PathStep> = Vec::new();
                p1.push(PathStep::Pos(0));
                p1.push(key("listen"));
                assert(path_view(p1@) =~= seq![StepV::Pos(0), StepV::Key("listen"@)]);
                let kept = put_exec(Some(arr), p1, Json::string("127.0.0.1"));
                let mut p2: Vec<PathStep> = Vec::new();
                p2.push(PathStep::Pos(0));
                p2.push(key("port"));
                assert(path_view(p2@) =~= seq![StepV::Pos(0), StepV::Key("port"@)]);
                let kept = put_exec(kept, p2, Json::unsigned(port));
                match kept {
                    None => None,
                    Some(k) => {
                        let mut routing = JsonMap::new();
                        obj_insert(&mut routing, "domainStrategy", Json::string("AsIs"));
                        obj_insert(&mut routing, "domainMatcher", Json::string("mph"));
                        let e1 = Json::array(Vec::new());
                        assert(e1@->Array_0 =~= Seq::<JsonV>::empty());
                        obj_insert(&mut routing, "rules", e1);
                        let e2 = Json::array(Vec::new());
                        assert(e2@->Array_0 =~= Seq::<JsonV>::empty());
                        obj_insert(&mut routing, "balancers", e2);
                        let s1 = put_exec(Some(s), top_exec("inbounds"), k);
                        put_exec(s1, top_exec("routing"), Json::object(routing))
                    },
                }
            },
            _ => Some(s),
        }
    } else {
        let pof = conf.get("proxy_output_file");
        if !pof.is_null() {
            let mut pa: Vec<PathStep> = Vec::new();
            pa.push(key("log"));
            pa.push(key("access"));
            assert(path_view(pa@) =~= seq![StepV::Key("log"@), StepV::Key("access"@)]);
            let s1 = put_exec(Some(s), pa, pof.deep_clone());
            let mut pe: Vec<PathStep> = Vec::new();
            pe.push(key("log"));
            pe.push(key("error"));
            assert(path_view(pe@) =~= seq![StepV::Key("log"@), StepV::Key("error"@)]);
            let s2 = put_exec(s1, pe, pof);
            let mut pl: Vec<PathStep> = Vec::new();
            pl.push(key("log"));
            pl.push(key("loglevel"));
            assert(path_view(pl@) =~= seq![StepV::Key("log"@), StepV::Key("loglevel"@)]);
            put_exec(s2, pl, conf.get("proxy_output_file_loglevel"))
        } else {
            Some(s)
        }
    }
}

fn proxy_setting_exec(node: &Node, conf: &Json, port: u64, measure_mode: bool) -> (r: Option<Option<Json>>)
    ensures
        match r {
            None => proxy_setting(node, conf@, port, measure_mode) is None,
            Some(o) => proxy_setting(node, conf@, port, measure_mode) == Some(opt_view(o)),
        },
{
    let p = node.proto.as_str();
    let is_vmess = str_eq(p, "vmess");
    let is_vless = str_eq(p, "vless");
    let is_trojan = str_eq(p, "trojan");
    let is_ss = str_eq(p, "ss");
    if !(is_vmess || is_vless || is_trojan || is_ss) {
        return Some(None);
    }
    proof {
        crate::json::lemma_json_view(node.param);
    }
    let arg = match &node.param {
        Json::Object(m) => m,
        _ => return Some(None),
    };
    let ob = if is_vmess {
        vmess_outbound_exec(&node.ip, &node.real_ip, arg, conf)
    } else if is_vless {
        vless_outbound_exec(&node.ip, node.port, &node.uuid, arg, conf)
    } else if is_trojan {
        trojan_outbound_exec(&node.real_ip, node.port, arg, conf)
    } else {
        ss_outbound_exec(&node.ip, node.port, arg, conf)
    };
    let o = match ob {
        None => return None,
        Some(o) => o,
    };
    let setting = put_exec(Some(conf.get("conf_tpl")), top_exec("inbounds"), conf.get("inboundsSetting"));
    let setting = put_exec(setting, top_exec("outbounds"), o);
    match finish_exec(setting, conf, port, measure_mode) {
        Some(v) => Some(Some(v)),
        None => None,
    }
}

/// Whether [`create_proxy_conf`] can build the configuration without failing.
pub fn proxy_conf_is_buildable(node: &Node, conf: &Json, port: u64, measure_mode: bool) -> (r: bool)
    ensures
        r == (proxy_setting(node, conf@, port, measure_mode) is Some),
{
    proxy_setting_exec(node, conf, port, measure_mode).is_some()
}

/// Builds the v2ray configuration that runs `node` (see [`proxy_setting`]);
/// `port` is the local port of a measurement. `None` for an unsupported
/// protocol or parameters that are not an object. `worker_name` only serves
/// the caller's logging.
pub fn create_proxy_conf(worker_name: &str, node: &Node, conf: &Json, port: u64, measure_mode: bool) -> (r: Option<Json>)
    requires
        proxy_setting(node, conf@, port, measure_mode) is Some,
    ensures
        Some(opt_view(r)) == proxy_setting(node, conf@, port, measure_mode),
{
    match proxy_setting_exec(node, conf, port, measure_mode) {
        Some(o) => o,
        None => None,
    }
}


/// A measured proxy listens only on the loopback address, at the port of
/// the measurement.
pub proof fn law_measure_listens_on_loopback(setting: JsonV, conf: JsonV, port: u64)
    requires
        finish_setting(Some(setting), conf, port, true) is Some,
        index_key(setting, "inbounds"@) is Array,
    ensures
        get_path(finish_setting(Some(setting), conf, port, true)->Some_0, inbound0_path("listen"@)) == st(
            "127.0.0.1"@,
        ),
        get_path(finish_setting(Some(setting), conf, port, true)->Some_0, inbound0_path("port"@)) == num(port),
{
    let o = index_key(setting, "inbounds"@)->Array_0;
    let arr = JsonV::Array(measure_inbounds(o));
    let pl = seq![StepV::Pos(0), StepV::Key("listen"@)];
    let pp = seq![StepV::Pos(0), StepV::Key("port"@)];
    let k1 = set_path(arr, pl, st("127.0.0.1"@))->Some_0;
    let k = set_path(k1, pp, num(port))->Some_0;
    let r1 = set_path(setting, seq![StepV::Key("inbounds"@)], k)->Some_0;
    let r = set_path(r1, seq![StepV::Key("routing"@)], routing_settings())->Some_0;
    reveal_strlit("listen");
    reveal_strlit("port");
    reveal_strlit("routing");
    reveal_strlit("inbounds");
    law_set_then_get(arr, pl, st("127.0.0.1"@));
    law_set_then_get(k1, pp, num(port));
    assert("listen"@.len() == 6 && "port"@.len() == 4);
    assert(pp.drop_first()[0] == StepV::Key("port"@));
    assert(pl.drop_first()[0] == StepV::Key("listen"@));
    assert(pp.drop_first()[0] != pl.drop_first()[0]);
    assert(diverge(pp.drop_first(), pl.drop_first()));
    assert(diverge(pp, pl));
    law_set_keeps_elsewhere(k1, pp, pl, num(port));
    law_set_then_get(setting, seq![StepV::Key("inbounds"@)], k);
    assert(seq![StepV::Key("inbounds"@)].drop_first() =~= Seq::<StepV>::empty());
    assert(get_path(index_key(r1, "inbounds"@), Seq::<StepV>::empty()) == index_key(r1, "inbounds"@));
    assert(index_key(r1, "inbounds"@) == k);
    assert("routing"@.len() == 7 && "inbounds"@.len() == 8);
    assert(StepV::Key("routing"@) != StepV::Key("inbounds"@));
    assert(diverge(seq![StepV::Key("routing"@)], inbound0_path("listen"@)));
    assert(diverge(seq![StepV::Key("routing"@)], inbound0_path("port"@)));
    law_set_keeps_elsewhere(r1, seq![StepV::Key("routing"@)], inbound0_path("listen"@), routing_settings());
    law_set_keeps_elsewhere(r1, seq![StepV::Key("routing"@)], inbound0_path("port"@), routing_settings());
    assert(inbound0_path("listen"@).drop_first() =~= pl);
    assert(inbound0_path("port"@).drop_first() =~= pp);
}


/// A vmess outbound, once built, holds the server address, the user id, the
/// websocket path and the security that the link gave.
pub proof fn law_vmess_outbound_members(ip: Seq<char>, real_ip: Seq<char>, arg: Map<Seq<char>, JsonV>, conf: JsonV)
    requires
        vmess_outbound(ip, real_ip, arg, conf) is Some,
    ensures
        get_path(vmess_outbound(ip, real_ip, arg, conf)->Some_0, vnext_path("address"@)) == vmess_address(
            ip,
            real_ip,
            arg,
        ),
        get_path(vmess_outbound(ip, real_ip, arg, conf)->Some_0, user_path("id"@)) == arg["id"@],
        get_path(vmess_outbound(ip, real_ip, arg, conf)->Some_0, stream_sub_path("wsSettings"@, "path"@))
            == arg["path"@],
        get_path(vmess_outbound(ip, real_ip, arg, conf)->Some_0, stream_path("security"@)) == vmess_security(arg),
{
    reveal_strlit("address");
    reveal_strlit("port");
    reveal_strlit("users");
    reveal_strlit("settings");
    reveal_strlit("streamSettings");
    reveal_strlit("id");
    reveal_strlit("alterId");
    reveal_strlit("wsSettings");
    reveal_strlit("path");
    reveal_strlit("Host");
    reveal_strlit("security");
    let pa = vnext_path("address"@);
    let pp = vnext_path("port"@);
    let pi = user_path("id"@);
    let pz = user_path("alterId"@);
    let pw = stream_sub_path("wsSettings"@, "path"@);
    let ph = stream_sub_path("wsSettings"@, "Host"@);
    let ps = stream_path("security"@);
    let o0 = index_key(conf, "outboundsSetting_vmess"@);
    let o1 = set_path(o0, pa, vmess_address(ip, real_ip, arg));
    assert(o1 is Some);
    let o2 = set_path(o1->Some_0, pp, vmess_port(arg["port"@]));
    assert(o2 is Some);
    let o3 = set_path(o2->Some_0, pi, arg["id"@]);
    assert(o3 is Some);
    let o4 = set_path(o3->Some_0, pz, vmess_alter_id(arg));
    assert(o4 is Some);
    let o5 = set_path(o4->Some_0, pw, arg["path"@]);
    assert(o5 is Some);
    let host = str_or_empty(arg["host"@]).len() != 0;
    let o6 = if host { set_path(o5->Some_0, ph, arg["host"@]) } else { o5 };
    assert(o6 is Some);
    let o7 = set_path(o6->Some_0, ps, vmess_security(arg));
    assert(o7 == vmess_outbound(ip, real_ip, arg, conf));
    // where the paths part ways
    assert("port"@.len() == 4 && "address"@.len() == 7 && "users"@.len() == 5 && "id"@.len() == 2
        && "alterId"@.len() == 7 && "settings"@.len() == 8 && "streamSettings"@.len() == 14
        && "wsSettings"@.len() == 10 && "security"@.len() == 8);
    assert(pp[4] != pa[4]);
    lemma_diverge_at(pp, pa, 4);
    assert(pi[4] != pa[4]);
    lemma_diverge_at(pi, pa, 4);
    assert(pz[4] != pa[4]);
    lemma_diverge_at(pz, pa, 4);
    assert(pz[6] != pi[6]);
    lemma_diverge_at(pz, pi, 6);
    assert(pw[1] != pa[1] && pw[1] != pi[1]);
    lemma_diverge_at(pw, pa, 1);
    lemma_diverge_at(pw, pi, 1);
    assert(ph[1] != pa[1] && ph[1] != pi[1]);
    lemma_diverge_at(ph, pa, 1);
    lemma_diverge_at(ph, pi, 1);
    assert("Host"@[0] != "path"@[0]);
    assert(ph[3] != pw[3]);
    lemma_diverge_at(ph, pw, 3);
    assert(ps[1] != pa[1] && ps[1] != pi[1]);
    lemma_diverge_at(ps, pa, 1);
    lemma_diverge_at(ps, pi, 1);
    assert(ps[2] != pw[2]);
    lemma_diverge_at(ps, pw, 2);
    // the address
    law_set_then_get(o0, pa, vmess_address(ip, real_ip, arg));
    law_set_keeps_elsewhere(o1->Some_0, pp, pa, vmess_port(arg["port"@]));
    law_set_keeps_elsewhere(o2->Some_0, pi, pa, arg["id"@]);
    law_set_keeps_elsewhere(o3->Some_0, pz, pa, vmess_alter_id(arg));
    law_set_keeps_elsewhere(o4->Some_0, pw, pa, arg["path"@]);
    if host {
        law_set_keeps_elsewhere(o5->Some_0, ph, pa, arg["host"@]);
    }
    law_set_keeps_elsewhere(o6->Some_0, ps, pa, vmess_security(arg));
    // the user id
    law_set_then_get(o2->Some_0, pi, arg["id"@]);
    law_set_keeps_elsewhere(o3->Some_0, pz, pi, vmess_alter_id(arg));
    law_set_keeps_elsewhere(o4->Some_0, pw, pi, arg["path"@]);
    if host {
        law_set_keeps_elsewhere(o5->Some_0, ph, pi, arg["host"@]);
    }
    law_set_keeps_elsewhere(o6->Some_0, ps, pi, vmess_security(arg));
    // the path
    law_set_then_get(o4->Some_0, pw, arg["path"@]);
    if host {
        law_set_keeps_elsewhere(o5->Some_0, ph, pw, arg["host"@]);
    }
    law_set_keeps_elsewhere(o6->Some_0, ps, pw, vmess_security(arg));
    // the security
    law_set_then_get(o6->Some_0, ps, vmess_security(arg));
}


proof fn lemma_get_path_append(j: JsonV, p: Seq<StepV>, q: Seq<StepV>)
    ensures
        get_path(j, p + q) == get_path(get_path(j, p), q),
    decreases p.len(),
{
    if p.len() > 0 {
        assert((p + q).drop_first() =~= p.drop_first() + q);
        assert((p + q)[0] == p[0]);
        match p[0] {
            StepV::Key(k) => lemma_get_path_append(index_key(j, k), p.drop_first(), q),
            StepV::Pos(n) => lemma_get_path_append(index_pos(j, n), p.drop_first(), q),
        }
    } else {
        assert(p + q =~= q);
    }
}

/// The last adjustments leave the outbounds as they were.
proof fn lemma_finish_keeps_outbounds(s: JsonV, conf: JsonV, port: u64, measure_mode: bool, q: Seq<StepV>)
    requires
        finish_setting(Some(s), conf, port, measure_mode) is Some,
        q.len() > 0,
        q[0] == StepV::Key("outbounds"@),
    ensures
        get_path(finish_setting(Some(s), conf, port, measure_mode)->Some_0, q) == get_path(s, q),
{
    reveal_strlit("outbounds");
    reveal_strlit("inbounds");
    reveal_strlit("routing");
    reveal_strlit("log");
    assert("outbounds"@.len() == 9 && "inbounds"@.len() == 8 && "routing"@.len() == 7 && "log"@.len() == 3);
    let pi = seq![StepV::Key("inbounds"@)];
    let pr = seq![StepV::Key("routing"@)];
    let pa = seq![StepV::Key("log"@), StepV::Key("access"@)];
    let pe = seq![StepV::Key("log"@), StepV::Key("error"@)];
    let pl = seq![StepV::Key("log"@), StepV::Key("loglevel"@)];
    lemma_diverge_at(pi, q, 0);
    lemma_diverge_at(pr, q, 0);
    lemma_diverge_at(pa, q, 0);
    lemma_diverge_at(pe, q, 0);
    lemma_diverge_at(pl, q, 0);
    if measure_mode {
        match index_key(s, "inbounds"@) {
            JsonV::Array(o) => {
                let kept = put(Some(JsonV::Array(measure_inbounds(o))), seq![StepV::Pos(0), StepV::Key("listen"@)], st("127.0.0.1"@));
                let kept = put(kept, seq![StepV::Pos(0), StepV::Key("port"@)], num(port));
                let k = kept->Some_0;
                let s1 = set_path(s, pi, k);
                law_set_keeps_elsewhere(s, pi, q, k);
                law_set_keeps_elsewhere(s1->Some_0, pr, q, routing_settings());
            },
            _ => {},
        }
    } else if !(index_key(conf, "proxy_output_file"@) is Null) {
        let pof = index_key(conf, "proxy_output_file"@);
        let s1 = set_path(s, pa, pof);
        let s2 = set_path(s1->Some_0, pe, pof);
        law_set_keeps_elsewhere(s, pa, q, pof);
        law_set_keeps_elsewhere(s1->Some_0, pe, q, pof);
        law_set_keeps_elsewhere(s2->Some_0, pl, q, index_key(conf, "proxy_output_file_loglevel"@));
    }
}

/// The outbounds that a node's configuration is built with.
pub open spec fn node_outbounds(node: &Node, conf: JsonV) -> Option<JsonV> {
    let p = node.proto@;
    let arg = node.param@->Object_0;
    if p == "vmess"@ {
        vmess_outbound(node.ip@, node.real_ip@, arg, conf)
    } else if p == "vless"@ {
        vless_outbound(node.ip@, node.port, node.uuid@, arg, conf)
    } else if p == "trojan"@ {
        trojan_outbound(node.real_ip@, node.port, arg, conf)
    } else {
        ss_outbound(node.ip@, node.port, arg, conf)
    }
}

/// A built configuration reads, under `outbounds`, what the node's outbounds
/// hold.
proof fn lemma_conf_outbounds(node: &Node, conf: JsonV, port: u64, measure_mode: bool, p: Seq<StepV>)
    requires
        proxy_setting(node, conf, port, measure_mode) matches Some(Some(_)),
    ensures
        node_outbounds(node, conf) is Some,
        get_path(proxy_setting(node, conf, port, measure_mode)->Some_0->Some_0, seq![StepV::Key("outbounds"@)] + p)
            == get_path(node_outbounds(node, conf)->Some_0, p),
{
    reveal_strlit("outbounds");
    reveal_strlit("inbounds");
    assert("outbounds"@.len() == 9 && "inbounds"@.len() == 8);
    let o = node_outbounds(node, conf)->Some_0;
    let po = seq![StepV::Key("outbounds"@)];
    let s0 = set_path(index_key(conf, "conf_tpl"@), seq![StepV::Key("inbounds"@)], index_key(conf, "inboundsSetting"@));
    let s1 = set_path(s0->Some_0, po, o);
    law_set_then_get(s0->Some_0, po, o);
    lemma_get_path_append(s1->Some_0, po, p);
    assert((po + p)[0] == StepV::Key("outbounds"@));
    lemma_finish_keeps_outbounds(s1->Some_0, conf, port, measure_mode, po + p);
}

/// The configuration of a shadowsocks node connects to the node's address
/// and port with the method and password that its parameters give.
pub proof fn law_ss_conf_server(node: &Node, conf: JsonV, port: u64, measure_mode: bool)
    requires
        node.proto@ == "ss"@,
        node.param@ is Object,
        proxy_setting(node, conf, port, measure_mode) matches Some(Some(_)),
    ensures
        ({
            let v = proxy_setting(node, conf, port, measure_mode)->Some_0->Some_0;
            let arg = node.param@->Object_0;
            &&& get_path(v, seq![StepV::Key("outbounds"@)] + server_path("address"@)) == st(node.ip@)
            &&& get_path(v, seq![StepV::Key("outbounds"@)] + server_path("method"@)) == arg["method"@]
            &&& get_path(v, seq![StepV::Key("outbounds"@)] + server_path("password"@)) == arg["password"@]
            &&& get_path(v, seq![StepV::Key("outbounds"@)] + server_path("port"@)) == num(node.port as u64)
        }),
{
    reveal_strlit("ss");
    reveal_strlit("vmess");
    reveal_strlit("vless");
    reveal_strlit("trojan");
    reveal_strlit("address");
    reveal_strlit("method");
    reveal_strlit("password");
    reveal_strlit("port");
    assert("ss"@.len() == 2 && "vmess"@.len() == 5 && "vless"@.len() == 5 && "trojan"@.len() == 6);
    assert("address"@.len() == 7 && "method"@.len() == 6 && "password"@.len() == 8 && "port"@.len() == 4);
    let arg = node.param@->Object_0;
    let conf_ob = index_key(conf, "outboundsSetting_ss"@);
    let pa = server_path("address"@);
    let pm = server_path("method"@);
    let pw = server_path("password"@);
    let pp = server_path("port"@);
    lemma_conf_outbounds(node, conf, port, measure_mode, pa);
    lemma_conf_outbounds(node, conf, port, measure_mode, pm);
    lemma_conf_outbounds(node, conf, port, measure_mode, pw);
    lemma_conf_outbounds(node, conf, port, measure_mode, pp);
    assert(node_outbounds(node, conf) == ss_outbound(node.ip@, node.port, arg, conf));
    let o1 = set_path(conf_ob, pa, st(node.ip@));
    let o2 = set_path(o1->Some_0, pm, arg["method"@]);
    let o3 = set_path(o2->Some_0, pw, arg["password"@]);
    let o4 = set_path(o3->Some_0, pp, num(node.port as u64));
    assert(o4 == ss_outbound(node.ip@, node.port, arg, conf));
    assert(pm[4] != pa[4] && pw[4] != pa[4] && pp[4] != pa[4] && pw[4] != pm[4] && pp[4] != pm[4] && pp[4] != pw[4]);
    lemma_diverge_at(pm, pa, 4);
    lemma_diverge_at(pw, pa, 4);
    lemma_diverge_at(pp, pa, 4);
    lemma_diverge_at(pw, pm, 4);
    lemma_diverge_at(pp, pm, 4);
    lemma_diverge_at(pp, pw, 4);
    law_set_then_get(conf_ob, pa, st(node.ip@));
    law_set_keeps_elsewhere(o1->Some_0, pm, pa, arg["method"@]);
    law_set_keeps_elsewhere(o2->Some_0, pw, pa, arg["password"@]);
    law_set_keeps_elsewhere(o3->Some_0, pp, pa, num(node.port as u64));
    law_set_then_get(o1->Some_0, pm, arg["method"@]);
    law_set_keeps_elsewhere(o2->Some_0, pw, pm, arg["password"@]);
    law_set_keeps_elsewhere(o3->Some_0, pp, pm, num(node.port as u64));
    law_set_then_get(o2->Some_0, pw, arg["password"@]);
    law_set_keeps_elsewhere(o3->Some_0, pp, pw, num(node.port as u64));
    law_set_then_get(o3->Some_0, pp, num(node.port as u64));
}

} // verus!
