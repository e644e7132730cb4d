use get_proxy::pipeline::{
    dispatch, DispatchView, DispatchAction, latency_priority, priority_latency, probe_start, probe_success,
    probe_failure, probe_result, is_hopeless_failure, measure_verdict, MeasureVerdict, service_keeps, start_verdict,
    StartEvent, StartVerdict, area_verdict, AreaVerdict, dial_address, UniqFilter, should_exit,
};
use get_proxy::node::Node;
use get_proxy::json::Json;

fn view(candidates: u64, secs: u64, queues_empty: bool, measure_mode: bool, stopped: bool) -> DispatchView {
    DispatchView {
        candidates,
        min_candidate: 2,
        max_candidate: 5,
        secs_since_refill: secs,
        queues_empty,
        measure_mode,
        stopped,
    }
}

#[test]
fn dispatch_refills_when_low_and_idle() {
    let s = dispatch(&view(1, 3600, true, false, true));
    assert_eq!(s.action, DispatchAction::Refill);
    assert!(!s.stopped);
    assert_eq!(s.sleep_secs, 60);
}

#[test]
fn dispatch_waits_for_busy_stages_and_recent_refills() {
    let s = dispatch(&view(1, 3600, false, false, false));
    assert_eq!(s.action, DispatchAction::Busy);
    let r = dispatch(&view(1, 10, true, false, false));
    assert_eq!(r.action, DispatchAction::Report);
    assert_eq!(r.sleep_secs, 120);
}

#[test]
fn dispatch_stops_when_full() {
    let s = dispatch(&view(5, 3600, false, false, false));
    assert_eq!(s.action, DispatchAction::StopAndDrain);
    assert!(s.stopped);
    let i = dispatch(&view(6, 3600, true, false, false));
    assert_eq!(i.action, DispatchAction::Idle);
    assert!(i.stopped);
    let m = dispatch(&view(5, 3600, false, true, false));
    assert_eq!(m.action, DispatchAction::KeepMeasuring);
    assert!(!m.stopped);
}

#[test]
fn priorities_round_trip() {
    assert_eq!(latency_priority(120), 999879);
    assert_eq!(priority_latency(999879), 120);
    assert!(latency_priority(10) > latency_priority(900));
    assert_eq!(priority_latency(latency_priority(0)), 0);
}

#[test]
fn probe_counts_and_keeps_the_best() {
    let s = probe_start();
    assert_eq!(probe_result(s), (0, 999999));
    let (s, stop) = probe_success(s, 1, 3, 2, 300);
    assert!(!stop);
    let (s, stop) = probe_success(s, 2, 3, 2, 200);
    assert!(stop);
    assert_eq!(probe_result(s), (2, 200));
}

#[test]
fn probe_gives_up_when_out_of_reach() {
    let s = probe_start();
    assert!(!probe_failure(s, 1, 3, 2, false));
    assert!(probe_failure(s, 2, 3, 2, false));
    assert!(probe_failure(s, 1, 3, 2, true));
    let (s1, stop) = probe_success(s, 1, 3, 3, 50);
    assert!(!stop);
    assert!(probe_failure(s1, 2, 3, 3, false));
}

#[test]
fn hopeless_failures() {
    assert!(is_hopeless_failure(true, false, Some(String::from("x")), Some(String::from("os error 10061"))));
    assert!(is_hopeless_failure(true, false, Some(String::from("tls handshake eof")), None));
    assert!(!is_hopeless_failure(true, false, Some(String::from("timed out")), Some(String::from("y"))));
    assert!(!is_hopeless_failure(true, true, None, None));
    assert!(is_hopeless_failure(false, true, None, None));
    assert!(!is_hopeless_failure(false, false, Some(String::from("10061")), None));
}

#[test]
fn measure_and_service_verdicts() {
    assert_eq!(measure_verdict(false, 2, 2, 300), MeasureVerdict::Candidate(999699));
    assert_eq!(measure_verdict(false, 2, 2, 1000), MeasureVerdict::Slow);
    assert_eq!(measure_verdict(false, 1, 2, 10), MeasureVerdict::Failed);
    assert_eq!(measure_verdict(true, 3, 2, 10), MeasureVerdict::Dropped);
    assert!(service_keeps(2, 2, 2499));
    assert!(!service_keeps(2, 2, 2500));
    assert!(!service_keeps(1, 2, 10));
}

#[test]
fn start_line_verdicts() {
    let line = String::from("2024/01/01 [Warning] V2Ray 5.1.0 (V2Fly) started\n");
    assert_eq!(start_verdict(&StartEvent::Line(line)), StartVerdict::Started);
    assert_eq!(start_verdict(&StartEvent::Line(String::from("[Info] loading"))), StartVerdict::KeepReading);
    assert_eq!(start_verdict(&StartEvent::TimedOut), StartVerdict::Failed);
    assert_eq!(start_verdict(&StartEvent::Closed), StartVerdict::Failed);
    assert_eq!(start_verdict(&StartEvent::ReadFailed), StartVerdict::Failed);
}

#[test]
fn area_verdicts() {
    assert!(matches!(area_verdict("日本东京", "1.1.1.1"), AreaVerdict::Keep(a) if a == "日本东京"));
    assert!(matches!(area_verdict("法国", "1.1.1.1"), AreaVerdict::Elsewhere));
    assert!(matches!(area_verdict("", "1.1.1.1"), AreaVerdict::Unknown));
    assert!(matches!(area_verdict("", "2001:db8::1"), AreaVerdict::Keep(a) if a.is_empty()));
}

#[test]
fn dial_text_of_a_node() {
    let mut n = Node::new();
    n.real_ip = String::from("8.8.4.4");
    n.port = 443;
    assert_eq!(dial_address(&n), "8.8.4.4:443");
}

#[test]
fn duplicates_pass_once() {
    let mut f = UniqFilter::new();
    let mut a = Node::new();
    a.ip = String::from("1.2.3.4");
    a.port = 443;
    a.uuid = String::from("u");
    let mut b = Node::new();
    b.ip = String::from("1.2.3.4");
    b.port = 443;
    b.uuid = String::from("u");
    b.alias = String::from("another name");
    let mut c = Node::new();
    c.ip = String::from("1.2.3.4");
    c.port = 443;
    c.uuid = String::from("u");
    c.param = Json::string("p");
    assert!(f.accept(&a));
    assert!(!f.accept(&b));
    assert!(f.accept(&c));
    assert!(!f.accept(&c));
    f.clear();
    assert!(f.accept(&b));
}

#[test]
fn exit_on_a_quick_second_press() {
    assert!(should_exit(400));
    assert!(!should_exit(1000));
}

#[test]
fn node_short_form() {
    let mut n = Node::new();
    n.proto = String::from("vless");
    n.ip = String::from("1.2.3.4");
    n.port = 443;
    assert!(n.is_describable());
    assert_eq!(n.describe(), "<N vl:1.2.3.4:443>");
    n.proto = String::from("s");
    assert_eq!(n.describe(), "<N s:1.2.3.4:443>");
    n.proto = String::from("éa");
    assert_eq!(n.describe(), "<N é:1.2.3.4:443>");
    n.proto = String::from("a中");
    assert!(!n.is_describable());
    n.proto = String::from("中");
    assert!(!n.is_describable());
}

#[test]
fn node_default_is_new() {
    let d = Node::default();
    assert_eq!(d.score_unit, "ms");
    assert!(d.param.is_null());
    assert_eq!(d.port, 0);
    assert!(d.proto.is_empty() && d.ip.is_empty() && d.raw.is_empty());
}

#[test]
fn a_run_passes_each_new_node_once() {
    let mut f = UniqFilter::new();
    let mut nodes = Vec::new();
    for (ip, port) in [("1.1.1.1", 1u32), ("2.2.2.2", 1), ("1.1.1.1", 1), ("1.1.1.1", 2), ("2.2.2.2", 1)] {
        let mut n = Node::new();
        n.ip = String::from(ip);
        n.port = port;
        nodes.push(n);
    }
    let passed: Vec<bool> = nodes.iter().map(|n| f.accept(n)).collect();
    assert_eq!(passed, vec![true, true, false, true, false]);
}
