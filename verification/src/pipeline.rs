//! The decisions of the node pipeline: when to fetch more lists, which nodes
//! go on, how a node's probes are scored, and when a running proxy is given up.
//! The caller does the waiting, the fetching and the process handling, and
//! hands each outcome back here.

use vstd::prelude::*;
use crate::node::{Node, NodeView};
use crate::json::str_of;
use crate::text::{chars_of, first_occurrence, find_chars};
use std::collections::HashSet;
use crate::web::{regex_matches, regex_is_match};

verus! {

// ---------------------------------------------------------------- dispatch

/// How long after a refill the dispatcher waits before it may refill again.
pub const REFILL_PAUSE_SECS: u64 = 90;

/// What the dispatcher sees when it wakes up.
pub struct DispatchView {
    /// Candidates that passed the measurement and wait to be used.
    pub candidates: u64,
    pub min_candidate: u64,
    pub max_candidate: u64,
    /// Seconds since the subscription lists were last offered.
    pub secs_since_refill: u64,
    /// Whether every stage before the candidates has nothing queued.
    pub queues_empty: bool,
    pub measure_mode: bool,
    /// Whether the stages are told to stop processing.
    pub stopped: bool,
}

/// What the dispatcher does on one round.
#[derive(PartialEq, Eq, Structural, Clone, Copy, Debug)]
pub enum DispatchAction {
    /// Resume processing, forget the nodes seen, and offer the lists again.
    Refill,
    /// Few candidates, but earlier stages still hold work: wait for it.
    Busy,
    /// Enough candidates in measure mode: go on measuring.
    KeepMeasuring,
    /// Enough candidates: stop processing and empty the earlier queues.
    StopAndDrain,
    /// Enough candidates and nothing queued: stay stopped.
    Idle,
    /// Between the bounds: report the count.
    Report,
}

/// The round's action, whether processing is stopped after it, and how many
/// seconds to sleep before the next round unless woken.
#[derive(PartialEq, Eq, Structural, Clone, Copy, Debug)]
pub struct DispatchStep {
    pub action: DispatchAction,
    pub stopped: bool,
    pub sleep_secs: u64,
}

pub open spec fn recently_refilled(v: DispatchView) -> bool {
    v.secs_since_refill < REFILL_PAUSE_SECS
}

pub open spec fn dispatch_action(v: DispatchView) -> DispatchAction {
    if v.candidates <= v.min_candidate && !recently_refilled(v) {
        if v.queues_empty { DispatchAction::Refill } else { DispatchAction::Busy }
    } else if v.candidates >= v.max_candidate {
        if v.measure_mode {
            DispatchAction::KeepMeasuring
        } else if !v.queues_empty {
            DispatchAction::StopAndDrain
        } else {
            DispatchAction::Idle
        }
    } else {
        DispatchAction::Report
    }
}

/// One round of the dispatcher: with few candidates and no refill in the
/// last 90 seconds it refills once the earlier stages are empty; with enough
/// candidates (outside measure mode) it stops processing. It sleeps two
/// minutes after a recent refill, else one.
pub open spec fn dispatch_spec(v: DispatchView) -> DispatchStep {
    let a = dispatch_action(v);
    DispatchStep {
        action: a,
        stopped: if a == DispatchAction::Refill {
            false
        } else if a == DispatchAction::StopAndDrain || a == DispatchAction::Idle {
            true
        } else {
            v.stopped
        },
        sleep_secs: if recently_refilled(v) { 120 } else { 60 },
    }
}

/// Decides one round of the dispatcher (see [`dispatch_spec`]).
pub fn dispatch(v: &DispatchView) -> (r: DispatchStep)
    ensures
        r == dispatch_spec(*v),
{
    let recent = v.secs_since_refill < REFILL_PAUSE_SECS;
    let action = if v.candidates <= v.min_candidate && !recent {
        if v.queues_empty { DispatchAction::Refill } else { DispatchAction::Busy }
    } else if v.candidates >= v.max_candidate {
        if v.measure_mode {
            DispatchAction::KeepMeasuring
        } else if !v.queues_empty {
            DispatchAction::StopAndDrain
        } else {
            DispatchAction::Idle
        }
    } else {
        DispatchAction::Report
    };
    let stopped = match action {
        DispatchAction::Refill => false,
        DispatchAction::StopAndDrain => true,
        DispatchAction::Idle => true,
        _ => v.stopped,
    };
    DispatchStep { action, stopped, sleep_secs: if recent { 120 } else { 60 } }
}

/// With enough candidates outside measure mode, a round leaves processing
/// stopped; a refill always leaves it running.
pub proof fn law_dispatch_stops_when_full(v: DispatchView)
    ensures
        v.candidates >= v.max_candidate && v.candidates > v.min_candidate && !v.measure_mode
            ==> dispatch_spec(v).stopped,
        dispatch_spec(v).action == DispatchAction::Refill ==> !dispatch_spec(v).stopped,
        dispatch_spec(v).action == DispatchAction::Refill ==> v.queues_empty && v.secs_since_refill
            >= REFILL_PAUSE_SECS,
{
}

// ---------------------------------------------------------------- priorities

/// The largest latency that a priority can stand for.
pub const PRIORITY_BASE: u32 = 999999;

/// The queue priority of a latency: the faster, the higher.
pub open spec fn priority_of(latency_ms: int) -> int {
    PRIORITY_BASE - latency_ms
}

/// The priority under which a node with this latency in milliseconds is
/// queued.
pub fn latency_priority(latency_ms: u64) -> (r: u32)
    requires
        latency_ms <= PRIORITY_BASE,
    ensures
        r == priority_of(latency_ms as int),
{
    PRIORITY_BASE - (latency_ms as u32)
}

/// The latency in milliseconds that a queue priority stands for.
pub fn priority_latency(priority: u32) -> (r: u32)
    requires
        priority <= PRIORITY_BASE,
    ensures
        r == PRIORITY_BASE - priority,
{
    PRIORITY_BASE - priority
}

/// Reading a priority back gives the latency it was made from; a faster
/// node gets a higher priority.
pub proof fn law_priority_round_trip(a: u64, b: u64)
    requires
        a <= PRIORITY_BASE,
        b <= PRIORITY_BASE,
    ensures
        PRIORITY_BASE - priority_of(a as int) == a,
        0 <= priority_of(a as int) <= PRIORITY_BASE,
        a < b ==> priority_of(a as int) > priority_of(b as int),
{
}

// ---------------------------------------------------------------- probes

/// The page fetched through a proxy to test it.
pub const PROBE_URL: &'static str = "https://www.youtube.com/@wangzhian/streams";

/// How many requests a probe may make, and how many must succeed.
pub const PROBE_TRIES: u32 = 3;
pub const PROBE_MIN_SUCCESSES: u32 = 2;

/// What a probe has seen so far: successful requests and the least latency
/// in milliseconds among them (999999 before the first).
#[derive(PartialEq, Eq, Structural, Clone, Copy, Debug)]
pub struct ProbeState {
    pub successes: u32,
    pub best_latency: u64,
}

pub open spec fn probe_wf(s: ProbeState, attempts: u32) -> bool {
    s.successes <= attempts && s.best_latency <= PRIORITY_BASE
}

/// A probe that has made no request.
pub fn probe_start() -> (r: ProbeState)
    ensures
        r == (ProbeState { successes: 0, best_latency: PRIORITY_BASE as u64 }),
{
    ProbeState { successes: 0, best_latency: PRIORITY_BASE as u64 }
}

/// Whether, after `attempt` of `max_tries` requests, the successes can no
/// longer reach `min_successes`.
pub open spec fn out_of_reach(successes: u32, attempt: u32, max_tries: u32, min_successes: u32) -> bool {
    successes + (max_tries - attempt) < min_successes
}

/// Request number `attempt` succeeded after `latency_ms`: the count goes up,
/// the least latency is kept, and the probe ends once enough requests
/// succeeded or enough can no longer succeed.
pub fn probe_success(s: ProbeState, attempt: u32, max_tries: u32, min_successes: u32, latency_ms: u64) -> (r: (
    ProbeState,
    bool,
))
    requires
        1 <= attempt <= max_tries,
        probe_wf(s, (attempt - 1) as u32),
    ensures
        r.0.successes == s.successes + 1,
        r.0.best_latency == (if latency_ms < s.best_latency { latency_ms } else { s.best_latency }),
        probe_wf(r.0, attempt),
        r.1 == (r.0.successes >= min_successes || out_of_reach(r.0.successes, attempt, max_tries, min_successes)),
{
    let best = if latency_ms < s.best_latency { latency_ms } else { s.best_latency };
    let n = s.successes + 1;
    let done = n >= min_successes || n + (max_tries - attempt) < min_successes;
    (ProbeState { successes: n, best_latency: best }, done)
}

/// Request number `attempt` failed: the probe ends when the failure is one
/// that retries cannot mend, or when enough requests can no longer succeed.
pub fn probe_failure(s: ProbeState, attempt: u32, max_tries: u32, min_successes: u32, hopeless: bool) -> (r: bool)
    requires
        1 <= attempt <= max_tries,
        probe_wf(s, (attempt - 1) as u32),
    ensures
        r == (hopeless || out_of_reach(s.successes, attempt, max_tries, min_successes)),
{
    hopeless || s.successes + (max_tries - attempt) < min_successes
}

/// The probe's result: the successes and the least latency.
pub fn probe_result(s: ProbeState) -> (r: (u32, u32))
    requires
        s.best_latency <= PRIORITY_BASE,
    ensures
        r.0 == s.successes,
        r.1 == s.best_latency,
{
    (s.successes, s.best_latency as u32)
}

pub open spec fn contains(s: Seq<char>, p: Seq<char>) -> bool {
    first_occurrence(s, p) is Some
}

fn contains_exec(s: &str, p: &str) -> (r: bool)
    ensures
        r == contains(s@, p@),
{
    let a = chars_of(s);
    let b = chars_of(p);
    find_chars(a.as_slice(), b.as_slice()).is_some()
}

/// Whether a failed request is one that retries will not mend: a refused
/// connection (10061 deep in its causes), a TLS handshake cut short, or a
/// body that could not be decoded. `cause2` is the text of the cause of the
/// error's cause, and `cause3` that of its cause in turn, where there are
/// such.
pub open spec fn hopeless_failure(
    connect_request: bool,
    decode: bool,
    cause2: Option<Seq<char>>,
    cause3: Option<Seq<char>>,
) -> bool {
    if connect_request {
        match cause2 {
            Some(c2) => (cause3 matches Some(c3) && contains(c3, "10061"@)) || contains(c2, "tls handshake eof"@),
            None => false,
        }
    } else {
        decode
    }
}

/// Classifies a failed request (see [`hopeless_failure`]).
pub fn is_hopeless_failure(connect_request: bool, decode: bool, cause2: Option<String>, cause3: Option<String>) -> (r: bool)
    ensures
        r == hopeless_failure(
            connect_request,
            decode,
            crate::web::opt_text(cause2),
            crate::web::opt_text(cause3),
        ),
{
    if connect_request {
        match cause2 {
            Some(c2) => {
                let refused = match cause3 {
                    Some(c3) => contains_exec(c3.as_str(), "10061"),
                    None => false,
                };
                refused || contains_exec(c2.as_str(), "tls handshake eof")
            },
            None => false,
        }
    } else {
        decode
    }
}

/// A probe never counts more successes than requests, and its least latency
/// is at most that of any success it saw.
pub proof fn law_probe_bounds(s: ProbeState, attempt: u32, max_tries: u32, min_successes: u32, latency_ms: u64)
    requires
        1 <= attempt <= max_tries,
        probe_wf(s, (attempt - 1) as u32),
    ensures
        ({
            let n = ProbeState {
                successes: (s.successes + 1) as u32,
                best_latency: if latency_ms < s.best_latency { latency_ms } else { s.best_latency },
            };
            probe_wf(n, attempt) && n.best_latency <= latency_ms && n.best_latency <= s.best_latency
        }),
{
}

// ---------------------------------------------------------------- verdicts

/// What becomes of a measured node.
#[derive(PartialEq, Eq, Structural, Clone, Copy, Debug)]
pub enum MeasureVerdict {
    /// Fast enough: queue it under this priority.
    Candidate(u32),
    /// It answered, but too slowly.
    Slow,
    /// Too few requests through it succeeded.
    Failed,
    /// Processing was stopped meanwhile: drop it.
    Dropped,
}

/// The latency under which a measured node becomes a candidate.
pub const CANDIDATE_LATENCY_MS: u32 = 1000;

/// The latency under which a running proxy is kept.
pub const SERVICE_LATENCY_MS: u32 = 2500;

pub open spec fn measure_spec(stopped: bool, successes: u32, min_successes: u32, latency_ms: u32) -> MeasureVerdict {
    if stopped {
        MeasureVerdict::Dropped
    } else if successes < min_successes {
        MeasureVerdict::Failed
    } else if latency_ms < CANDIDATE_LATENCY_MS {
        MeasureVerdict::Candidate((PRIORITY_BASE - latency_ms) as u32)
    } else {
        MeasureVerdict::Slow
    }
}

/// What becomes of a node after its probe: a candidate when enough requests
/// succeeded in under a second, and processing goes on.
pub fn measure_verdict(stopped: bool, successes: u32, min_successes: u32, latency_ms: u32) -> (r: MeasureVerdict)
    ensures
        r == measure_spec(stopped, successes, min_successes, latency_ms),
{
    if stopped {
        MeasureVerdict::Dropped
    } else if successes < min_successes {
        MeasureVerdict::Failed
    } else if latency_ms < CANDIDATE_LATENCY_MS {
        MeasureVerdict::Candidate(PRIORITY_BASE - latency_ms)
    } else {
        MeasureVerdict::Slow
    }
}

/// Whether the running proxy is kept after a probe: enough requests went
/// through, the fastest in under 2.5 seconds.
pub fn service_keeps(successes: u32, min_successes: u32, latency_ms: u32) -> (r: bool)
    ensures
        r == (successes >= min_successes && latency_ms < SERVICE_LATENCY_MS),
{
    successes >= min_successes && latency_ms < SERVICE_LATENCY_MS
}

/// A node that becomes a candidate would also be kept as the running proxy.
pub proof fn law_candidate_is_servable(stopped: bool, successes: u32, min_successes: u32, latency_ms: u32)
    ensures
        measure_spec(stopped, successes, min_successes, latency_ms) is Candidate ==> (successes >= min_successes
            && latency_ms < SERVICE_LATENCY_MS),
{
}

// ---------------------------------------------------------------- start-up

/// The line with which v2ray reports that it started.
pub const STARTED_PATTERN: &'static str = "\\[Warning\\] V2Ray .+? started";

/// What reading the proxy's output gave.
pub enum StartEvent {
    /// Nothing came within the wait.
    TimedOut,
    /// Reading failed.
    ReadFailed,
    /// The output ended.
    Closed,
    /// A line of output.
    Line(String),
}

#[derive(PartialEq, Eq, Structural, Clone, Copy, Debug)]
pub enum StartVerdict {
    KeepReading,
    Started,
    Failed,
}

pub open spec fn start_spec(e: StartEvent) -> StartVerdict {
    match e {
        StartEvent::TimedOut => StartVerdict::Failed,
        StartEvent::ReadFailed => StartVerdict::Failed,
        StartEvent::Closed => StartVerdict::Failed,
        StartEvent::Line(l) => if regex_matches(STARTED_PATTERN@, l@) {
            StartVerdict::Started
        } else {
            StartVerdict::KeepReading
        },
    }
}

/// Whether the proxy counts as started after one read of its output: a
/// start line counts as started; a wait that ran out, a failed read or the
/// end of the output count as failed.
pub fn start_verdict(e: &StartEvent) -> (r: StartVerdict)
    ensures
        r == start_spec(*e),
{
    match e {
        StartEvent::TimedOut => StartVerdict::Failed,
        StartEvent::ReadFailed => StartVerdict::Failed,
        StartEvent::Closed => StartVerdict::Failed,
        StartEvent::Line(l) => if regex_is_match(STARTED_PATTERN, l.as_str()) {
            StartVerdict::Started
        } else {
            StartVerdict::KeepReading
        },
    }
}

// ---------------------------------------------------------------- areas

/// The countries whose nodes are kept.
pub const AREA_PATTERN: &'static str = "日本|美国|新加坡|台湾|澳大利亚|韩国|德国|加拿大";

/// What becomes of a node after its address was located.
#[derive(Debug)]
pub enum AreaVerdict {
    /// Kept, with this area.
    Keep(String),
    /// The address could not be located.
    Unknown,
    /// Located elsewhere: dropped.
    Elsewhere,
}

pub enum AreaVerdictV {
    Keep(Seq<char>),
    Unknown,
    Elsewhere,
}

impl View for AreaVerdict {
    type V = AreaVerdictV;

    open spec fn view(&self) -> AreaVerdictV {
        match self {
            AreaVerdict::Keep(a) => AreaVerdictV::Keep(a@),
            AreaVerdict::Unknown => AreaVerdictV::Unknown,
            AreaVerdict::Elsewhere => AreaVerdictV::Elsewhere,
        }
    }
}

/// An address with no country is kept, with no area, when it is an IPv6
/// address (it holds a colon); a country is kept when it is one of the
/// countries sought.
pub open spec fn area_spec(country: Seq<char>, real_ip: Seq<char>) -> AreaVerdictV {
    if country.len() == 0 {
        if real_ip.contains(':') { AreaVerdictV::Keep(Seq::empty()) } else { AreaVerdictV::Unknown }
    } else if regex_matches(AREA_PATTERN@, country) {
        AreaVerdictV::Keep(country)
    } else {
        AreaVerdictV::Elsewhere
    }
}

/// Decides on a node from the country its address was located in.
pub fn area_verdict(country: &str, real_ip: &str) -> (r: AreaVerdict)
    ensures
        r@ == area_spec(country@, real_ip@),
{
    if country.is_empty() {
        let cs = chars_of(real_ip);
        let mut i: usize = 0;
        while i < cs.len()
            invariant
                i <= cs@.len(),
                cs@ == real_ip@,
                country@.len() == 0,
                forall|k: int| 0 <= k < i ==> cs@[k] != ':',
            decreases cs@.len() - i,
        {
            if cs[i] == ':' {
                assert(real_ip@[i as int] == ':');
                assert(real_ip@.contains(':'));
                let e = String::new();
                assert(e@ == Seq::<char>::empty());
                return AreaVerdict::Keep(e);
            }
            i = i + 1;
        }
        assert(!real_ip@.contains(':'));
        AreaVerdict::Unknown
    } else if regex_is_match(AREA_PATTERN, country) {
        AreaVerdict::Keep(country.to_owned())
    } else {
        AreaVerdict::Elsewhere
    }
}

// ---------------------------------------------------------------- addresses

/// The text `ip:port` that a connection test dials.
pub open spec fn dial_text(ip: Seq<char>, port: u32) -> Seq<char> {
    ip + seq![':'] + crate::decimal::decimal(port as nat)
}

/// The address to dial for a node's connection test.
pub fn dial_address(node: &Node) -> (r: String)
    ensures
        r@ == dial_text(node.real_ip@, node.port),
{
    let mut s = node.real_ip.clone();
    crate::text::string_push(&mut s, ':');
    crate::decimal::push_decimal(&mut s, node.port as u64);
    s
}

// ---------------------------------------------------------------- duplicates

/// The fields that tell nodes apart: address, port, user id and the text of
/// the parameters when they are a string.
pub type NodeKeyV = (Seq<char>, u32, Seq<char>, Option<Seq<char>>);

pub open spec fn node_key(n: NodeView) -> NodeKeyV {
    (n.ip, n.port, n.uuid, str_of(n.param))
}

/// What `DefaultHasher` gives for the tuple of a node's address, port, user
/// id and parameter text.
pub uninterp spec fn default_hash(ip: Seq<char>, port: u32, uuid: Seq<char>, param: Option<Seq<char>>) -> u64;

/// The hash by which the filter knows a node.
pub open spec fn node_hash_of(n: NodeView) -> u64 {
    default_hash(n.ip, n.port, n.uuid, str_of(n.param))
}

/// `BuildHasher::hash_one` with std's `DefaultHasher` on the tuple of the
/// four fields, which hashes them one after the other as `Node`'s `Hash`
/// does. The contract names the result: `DefaultHasher` built by `default`
/// is unseeded, so within one build equal fields give equal hashes (std does
/// not promise the same numbers across Rust releases).
#[verifier::external_body]
fn node_hash(ip: &str, port: u32, uuid: &str, param: &Option<String>) -> (r: u64)
    ensures
        r == default_hash(ip@, port, uuid@, crate::web::opt_text(*param)),
{
    std::hash::BuildHasher::hash_one(
        &std::hash::BuildHasherDefault::<std::hash::DefaultHasher>::default(),
        (ip, port, uuid, param.as_deref()),
    )
}

/// The hashes of the nodes passed on since the filter was last cleared.
pub struct UniqFilter {
    seen: HashSet<u64>,
}

impl View for UniqFilter {
    type V = Set<u64>;

    closed spec fn view(&self) -> Set<u64> {
        self.seen@
    }
}

impl UniqFilter {
    /// A filter that has seen nothing.
    pub fn new() -> (r: UniqFilter)
        ensures
            r@ == Set::<u64>::empty(),
    {
        UniqFilter { seen: HashSet::new() }
    }

    /// Forgets every node seen.
    pub fn clear(&mut self)
        ensures
            final(self)@ == Set::<u64>::empty(),
    {
        self.seen.clear();
    }

    /// Whether the node is passed on: it is when no node with the same hash
    /// (of address, port, user id and parameter text) was passed on since
    /// the last clearing. The hash of a node passed on is remembered.
    pub fn accept(&mut self, node: &Node) -> (r: bool)
        ensures
            r == !old(self)@.contains(node_hash_of(node@)),
            final(self)@ == old(self)@.insert(node_hash_of(node@)),
    {
        broadcast use vstd::std_specs::hash::group_hash_axioms;

        let k = node.dedup_key();
        let h = node_hash(k.0.as_str(), k.1, k.2.as_str(), &k.3);
        assert(h == node_hash_of(node@));
        if self.seen.contains(&h) {
            assert(self.seen@.insert(h) =~= self.seen@);
            false
        } else {
            self.seen.insert(h);
            true
        }
    }
}

/// The hashes that a filter holding `seen` holds after it was handed nodes
/// with the hashes `hs`, one after the other, with no clearing between:
/// each [`UniqFilter::accept`] adds the node's hash.
pub open spec fn seen_after(seen: Set<u64>, hs: Seq<u64>) -> Set<u64>
    decreases hs.len(),
{
    if hs.len() == 0 {
        seen
    } else {
        seen_after(seen, hs.drop_last()).insert(hs.last())
    }
}

/// Whether the node at `j` of such a run is passed on: [`UniqFilter::accept`]
/// passes it on when its hash is not among those held at that point.
pub open spec fn passed_in_run(seen: Set<u64>, hs: Seq<u64>, j: int) -> bool {
    !seen_after(seen, hs.take(j)).contains(hs[j])
}

proof fn lemma_seen_after(seen: Set<u64>, hs: Seq<u64>, x: u64)
    ensures
        seen_after(seen, hs).contains(x) <==> (seen.contains(x) || hs.contains(x)),
    decreases hs.len(),
{
    if hs.len() > 0 {
        lemma_seen_after(seen, hs.drop_last(), x);
        if hs.contains(x) && x != hs.last() {
            let i = choose|i: int| 0 <= i < hs.len() && hs[i] == x;
            assert(hs.drop_last()[i] == x);
        }
        if hs.drop_last().contains(x) {
            let i = choose|i: int| 0 <= i < hs.len() - 1 && hs.drop_last()[i] == x;
            assert(hs[i] == x);
        }
        if x == hs.last() {
            assert(hs[hs.len() - 1] == x);
        }
    }
}

/// Over a run of nodes handed to the filter with no clearing between, a node
/// is passed on exactly when its hash is neither one the filter held at the
/// start of the run nor that of an earlier node of the run.
pub proof fn law_uniq_run(seen: Set<u64>, hs: Seq<u64>, j: int)
    requires
        0 <= j < hs.len(),
    ensures
        passed_in_run(seen, hs, j) <==> (!seen.contains(hs[j]) && forall|i: int| 0 <= i < j ==> hs[i] != hs[j]),
{
    lemma_seen_after(seen, hs.take(j), hs[j]);
    if hs.take(j).contains(hs[j]) {
        let i = choose|i: int| 0 <= i < j && hs.take(j)[i] == hs[j];
        assert(hs[i] == hs[j]);
    }
    assert forall|i: int| 0 <= i < j && hs[i] == hs[j] implies hs.take(j).contains(hs[j]) by {
        assert(hs.take(j)[i] == hs[j]);
    }
}

/// A node is passed on at most once until the filter is cleared: nodes with
/// the same address, port, user id and parameter text have the same hash,
/// so once the filter accepted one it refuses the other.
pub proof fn law_uniq_once(seen: Set<u64>, a: NodeView, b: NodeView)
    requires
        node_key(a) == node_key(b),
    ensures
        node_hash_of(a) == node_hash_of(b),
        seen.insert(node_hash_of(a)).contains(node_hash_of(b)),
{
}

// ---------------------------------------------------------------- exit

/// Whether a Ctrl-C ends the program: it does when it comes within a second
/// of the previous one (or of the start).
pub fn should_exit(ms_since_previous: u64) -> (r: bool)
    ensures
        r == (ms_since_previous < 1000),
{
    ms_since_previous < 1000
}

} // verus!
