//! How a proxy process is started for a node: the program, the settings it
//! is given, where they are written, and how long its start is awaited.

use vstd::prelude::*;
use crate::json::{Json, JsonV, index_key, index_pos, str_of, u64_of};
use crate::node::{Node, proxy_setting, create_proxy_conf, str_or_empty, str_or_empty_exec};
use crate::conf::u64_or_zero;
use crate::text::{push_str, replace_exec, replace_all};

verus! {

/// The file that holds the settings of a proxy in real use: the configured
/// folder, then the protocol and the address (colons turned into
/// underscores) joined by an underscore, then `.json`.
pub open spec fn conf_file_text(conf: JsonV, proto: Seq<char>, ip: Seq<char>) -> Seq<char> {
    str_or_empty(index_key(conf, "conf_basepath"@)) + proto + seq!['_'] + replace_all(ip, seq![':'], seq!['_'])
        + ".json"@
}

/// The settings file of the proxy that runs `node` in real use.
pub fn conf_file_path(conf: &Json, node: &Node) -> (r: String)
    ensures
        r@ == conf_file_text(conf@, node.proto@, node.ip@),
{
    let mut s = str_or_empty_exec(&conf.get("conf_basepath"));
    push_str(&mut s, node.proto.as_str());
    crate::text::string_push(&mut s, '_');
    proof {
        reveal_strlit(":");
        reveal_strlit("_");
    }
    let ip = replace_exec(node.ip.as_str(), ":", "_");
    assert(":"@ =~= seq![':']);
    assert("_"@ =~= seq!['_']);
    push_str(&mut s, ip.as_str());
    push_str(&mut s, ".json");
    s
}

/// The proxy's configured port (0 where none is configured); a proxy on any
/// other port is one being measured.
pub open spec fn service_port(conf: JsonV) -> u64 {
    u64_or_zero(index_key(conf, "proxy_port"@))
}

/// How a proxy is started.
pub struct LaunchPlan {
    /// The v2ray program.
    pub program: String,
    /// The settings it runs with.
    pub setting: Json,
    /// Where the settings are written for real use; `None` for a proxy
    /// being measured, which reads them from its standard input.
    pub conf_file: Option<String>,
    /// How long to wait for each line of its output while it starts, in
    /// milliseconds.
    pub wait_ms: u64,
}

pub struct LaunchPlanV {
    pub program: Seq<char>,
    pub setting: JsonV,
    pub conf_file: Option<Seq<char>>,
    pub wait_ms: u64,
}

impl View for LaunchPlan {
    type V = LaunchPlanV;

    open spec fn view(&self) -> LaunchPlanV {
        LaunchPlanV {
            program: self.program@,
            setting: self.setting@,
            conf_file: crate::web::opt_text(self.conf_file),
            wait_ms: self.wait_ms,
        }
    }
}

/// The wait for a measured proxy: the configured milliseconds, else one
/// second.
pub open spec fn trial_wait(conf: JsonV) -> u64 {
    match u64_of(index_key(conf, "test_wait_milliseconds"@)) {
        Some(v) => v,
        None => 1000,
    }
}

/// How the proxy for `node` on `port` is started, when a configuration can
/// be built for it: the configured v2ray program with that configuration,
/// read from standard input with the configured wait when `port` is not the
/// service's port, else written to [`conf_file_text`] with a five-second
/// wait.
pub open spec fn launch_plan(node: &Node, conf: JsonV, port: u64, measure_mode: bool, setting: JsonV) -> LaunchPlanV {
    if port != service_port(conf) {
        LaunchPlanV {
            program: str_or_empty(index_key(conf, "v2ray_path"@)),
            setting,
            conf_file: None,
            wait_ms: trial_wait(conf),
        }
    } else {
        LaunchPlanV {
            program: str_or_empty(index_key(conf, "v2ray_path"@)),
            setting,
            conf_file: Some(conf_file_text(conf, node.proto@, node.ip@)),
            wait_ms: 5000,
        }
    }
}

/// Whether [`launcher_proxy`] can plan the start without failing: the
/// configuration can be built, and where it is, a v2ray program is named.
pub open spec fn launchable(node: &Node, conf: JsonV, port: u64, measure_mode: bool) -> bool {
    &&& proxy_setting(node, conf, port, measure_mode) is Some
    &&& (proxy_setting(node, conf, port, measure_mode) matches Some(Some(_)) ==> str_of(
        index_key(conf, "v2ray_path"@),
    ) is Some)
}

/// Whether [`launcher_proxy`] can plan the start for these values.
pub fn is_launchable(node: &Node, conf: &Json, port: u64, measure_mode: bool) -> (r: bool)
    ensures
        r == launchable(node, conf@, port, measure_mode),
{
    if !crate::node::proxy_conf_is_buildable(node, conf, port, measure_mode) {
        return false;
    }
    match create_proxy_conf("", node, conf, port, measure_mode) {
        Some(_) => conf.get("v2ray_path").as_str().is_some(),
        None => true,
    }
}

/// Plans the start of the proxy that runs `node` on local port `port` (see
/// [`launch_plan`]); `None` where no configuration can be built for the
/// node. `worker_name` only serves the caller's logging.
pub fn launcher_proxy(worker_name: &str, node: &Node, conf: &Json, port: u64, measure_mode: bool) -> (r: Option<LaunchPlan>)
    requires
        launchable(node, conf@, port, measure_mode),
    ensures
        match proxy_setting(node, conf@, port, measure_mode) {
            Some(Some(s)) => r matches Some(p) && p@ == launch_plan(node, conf@, port, measure_mode, s),
            _ => r is None,
        },
{
    let setting = match create_proxy_conf(worker_name, node, conf, port, measure_mode) {
        Some(s) => s,
        None => return None,
    };
    let program = str_or_empty_exec(&conf.get("v2ray_path"));
    let configured = match conf.get("proxy_port").as_u64() {
        Some(v) => v,
        None => 0,
    };
    if port != configured {
        let wait_ms = match conf.get("test_wait_milliseconds").as_u64() {
            Some(v) => v,
            None => 1000,
        };
        Some(LaunchPlan { program, setting, conf_file: None, wait_ms })
    } else {
        Some(LaunchPlan { program, setting, conf_file: Some(conf_file_path(conf, node)), wait_ms: 5000 })
    }
}

/// The local ports on which nodes are measured, first and last: the
/// configured `port_range` (0 for a missing bound). `None` where the range
/// is empty or holds every port number (the count of ports does not fit).
pub open spec fn measure_ports(conf: JsonV) -> Option<(u64, u64)> {
    let r = index_key(conf, "port_range"@);
    let a = u64_or_zero(index_pos(r, 0));
    let b = u64_or_zero(index_pos(r, 1));
    if b < a || (a == 0 && b == u64::MAX) {
        None
    } else {
        Some((a, b))
    }
}

/// The range of local ports for measurements (see [`measure_ports`]).
pub fn port_range(conf: &Json) -> (r: Option<(u64, u64)>)
    ensures
        r == measure_ports(conf@),
        r matches Some(p) ==> p.0 <= p.1 && p.1 - p.0 < u64::MAX,
{
    let r = conf.get("port_range");
    let a = match r.at(0).as_u64() {
        Some(v) => v,
        None => 0,
    };
    let b = match r.at(1).as_u64() {
        Some(v) => v,
        None => 0,
    };
    if b < a || (a == 0 && b == u64::MAX) {
        None
    } else {
        Some((a, b))
    }
}

/// `v` lists each member of `m` once, with its text.
pub open spec fn headers_listed(m: Map<Seq<char>, JsonV>, v: Seq<(String, String)>) -> bool {
    &&& forall|i: int| 0 <= i < v.len() ==> #[trigger] m.contains_key(v[i].0@) && v[i].1@ == str_or_empty(m[v[i].0@])
    &&& forall|k: Seq<char>| #[trigger] m.contains_key(k) ==> exists|i: int| 0 <= i < v.len() && v[i].0@ == k
    &&& forall|i: int, j: int| 0 <= i < j < v.len() ==> v[i].0@ != v[j].0@
}

/// The default request headers: the members of the configured `headers`
/// object, each with its text (empty for a value that is not text), each
/// member once; `None` where `headers` is not an object.
pub fn header_pairs(conf: &Json) -> (r: Option<Vec<(String, String)>>)
    ensures
        r is Some <==> index_key(conf@, "headers"@) is Object,
        r matches Some(v) ==> headers_listed(index_key(conf@, "headers"@)->Object_0, v@),
{
    let h = conf.get("headers");
    proof {
        crate::json::lemma_json_view(h);
    }
    match h {
        Json::Object(m) => {
            let n = m.len();
            let mut v: Vec<(String, String)> = Vec::new();
            let mut i: usize = 0;
            while i < n
                invariant
                    i <= n,
                    n == m@.dom().len(),
                    forall|k: Seq<char>| #[trigger] m@.contains_key(k) ==> exists|j: int| 0 <= j < n && m.key_at(j) == k,
                    v@.len() == i,
                    forall|j: int| 0 <= j < i ==> #[trigger] v@[j].0@ == m.key_at(j),
                    forall|j: int| 0 <= j < i ==> #[trigger] m@.contains_key(v@[j].0@) && v@[j].1@ == str_or_empty(
                        m@[v@[j].0@],
                    ),
                    forall|a: int, b: int| 0 <= a < b < i ==> v@[a].0@ != v@[b].0@,
                decreases n - i,
            {
                let (k, x) = m.entry_at(i);
                let t = str_or_empty_exec(&x);
                let ghost prev = v@;
                let ghost kv = k@;
                assert(kv == m.key_at(i as int));
                v.push((k, t));
                assert(v@ == prev.push(v@[i as int]));
                assert forall|j: int| 0 <= j < i + 1 implies #[trigger] v@[j].0@ == m.key_at(j) by {
                    if j < i {
                        assert(v@[j] == prev[j]);
                        assert(prev[j].0@ == m.key_at(j));
                    }
                }
                assert forall|j: int| 0 <= j < i + 1 implies #[trigger] m@.contains_key(v@[j].0@) && v@[j].1@
                    == str_or_empty(m@[v@[j].0@]) by {
                    if j < i {
                        assert(v@[j] == prev[j]);
                        assert(m@.contains_key(prev[j].0@));
                    }
                }
                assert forall|a: int, b: int| 0 <= a < b < i + 1 implies v@[a].0@ != v@[b].0@ by {
                    assert(v@[a].0@ == m.key_at(a));
                    assert(v@[b].0@ == m.key_at(b));
                    if b == i {
                        assert(m.key_at(a) != kv);
                    } else {
                        assert(v@[a] == prev[a]);
                        assert(v@[b] == prev[b]);
                    }
                }
                i = i + 1;
            }
            assert forall|k: Seq<char>| #[trigger] m@.contains_key(k) implies exists|i: int| 0 <= i < v@.len() && v@[i].0@ == k by {
                let j = choose|j: int| 0 <= j < n && m.key_at(j) == k;
                assert(v@[j].0@ == k);
            }
            assert(index_key(conf@, "headers"@)->Object_0 == m@);
            assert(headers_listed(m@, v@));
            Some(v)
        },
        _ => None,
    }
}

} // verus!
