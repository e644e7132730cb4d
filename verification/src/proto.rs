//! Subscription data: lines of share links, YAML proxy lists and the pages
//! that point to them.

use vstd::prelude::*;
use crate::json::{Json, JsonV, JsonMap, index_key, str_of, u64_of, bool_of, merge_json_objects, merge_maps};
use crate::node::{Node, NodeView, fresh_node, make_node, unquoted_or_empty};
use crate::text::{chars_of, split_on, split_char, string_from_chars, str_eq, replace_exec, replace_all, first_occurrence, find_chars};
use crate::tools::{b64d, b64d_text, adjust_alias, without_blanks};
use crate::decimal::{spec_parse_uint, parse_uint};
use crate::web::{UrlParts, UrlPartsV, url_parts, parse_url, regex_pieces, regex_splitn};

verus! {

/// The characters that `char::is_whitespace` accepts.
pub open spec fn is_white_space(c: char) -> bool {
    c == '\t' || c == '\n' || c == '\u{b}' || c == '\u{c}' || c == '\r' || c == ' ' || c == '\u{85}' || c == '\u{a0}'
        || c == '\u{1680}' || ('\u{2000}' <= c && c <= '\u{200a}') || c == '\u{2028}' || c == '\u{2029}'
        || c == '\u{202f}' || c == '\u{205f}' || c == '\u{3000}'
}

pub(crate) fn is_white_space_exec(c: char) -> (r: bool)
    ensures
        r == is_white_space(c),
{
    c == '\t' || c == '\n' || c == '\u{b}' || c == '\u{c}' || c == '\r' || c == ' ' || c == '\u{85}' || c == '\u{a0}'
        || c == '\u{1680}' || ('\u{2000}' <= c && c <= '\u{200a}') || c == '\u{2028}' || c == '\u{2029}'
        || c == '\u{202f}' || c == '\u{205f}' || c == '\u{3000}'
}

/// The line holds something besides white space (its `trim()` is not empty).
pub open spec fn not_blank(l: Seq<char>) -> bool {
    exists|i: int| 0 <= i < l.len() && !is_white_space(#[trigger] l[i])
}

pub open spec fn strip_cr(l: Seq<char>) -> Seq<char> {
    if l.len() > 0 && l.last() == '\r' { l.drop_last() } else { l }
}

/// The lines that `str::lines` yields: pieces between line feeds, a
/// carriage return before the line feed dropped, no line after a final
/// line feed.
pub open spec fn text_lines(s: Seq<char>) -> Seq<Seq<char>> {
    let parts = split_char(s, '\n');
    let n = if parts.last().len() == 0 { parts.len() - 1 } else { parts.len() as int };
    Seq::new(n as nat, |k: int| if k < parts.len() - 1 { strip_cr(parts[k]) } else { parts[k] })
}

pub open spec fn keep_not_blank(ls: Seq<Seq<char>>) -> Seq<Seq<char>>
    decreases ls.len(),
{
    if ls.len() == 0 {
        Seq::empty()
    } else if not_blank(ls.last()) {
        keep_not_blank(ls.drop_last()).push(ls.last())
    } else {
        keep_not_blank(ls.drop_last())
    }
}

/// The lines of subscription data to read: those of its Base64 decoding, or
/// else of the data itself, blank lines left out.
pub open spec fn data_lines_text(s: Seq<char>) -> Seq<Seq<char>> {
    match b64d_text(s) {
        Some(t) => keep_not_blank(text_lines(t)),
        None => keep_not_blank(text_lines(s)),
    }
}

fn not_blank_exec(l: &[char]) -> (r: bool)
    ensures
        r == not_blank(l@),
{
    let mut i: usize = 0;
    while i < l.len()
        invariant
            i <= l@.len(),
            forall|j: int| 0 <= j < i ==> is_white_space(#[trigger] l@[j]),
        decreases l@.len() - i,
    {
        if !is_white_space_exec(l[i]) {
            return true;
        }
        i = i + 1;
    }
    false
}

fn lines_of(s: &str) -> (r: Vec<String>)
    ensures
        r@.map_values(|t: String| t@) == keep_not_blank(text_lines(s@)),
{
    let cs = chars_of(s);
    let parts = split_on(cs.as_slice(), '\n');
    let ghost sp = split_char(s@, '\n');
    proof {
        crate::text::lemma_split_char_len(s@, '\n');
    }
    let last_empty = parts[parts.len() - 1].len() == 0;
    let n = if last_empty { parts.len() - 1 } else { parts.len() };
    let ghost lines = text_lines(s@);
    assert(lines.len() == n);
    let mut out: Vec<String> = Vec::new();
    let mut k: usize = 0;
    while k < n
        invariant
            k <= n,
            n == lines.len(),
            lines == text_lines(s@),
            sp == split_char(s@, '\n'),
            parts@.len() == sp.len(),
            n <= parts@.len(),
            forall|j: int| 0 <= j < parts@.len() ==> #[trigger] parts@[j]@ == sp[j],
            out@.map_values(|t: String| t@) == keep_not_blank(lines.take(k as int)),
        decreases n - k,
    {
        let piece = &parts[k];
        let mut line: Vec<char> = piece.clone();
        if k + 1 < parts.len() && line.len() > 0 && line[line.len() - 1] == '\r' {
            line.pop();
        }
        assert(line@ == lines[k as int]);
        assert(lines.take(k + 1).drop_last() =~= lines.take(k as int));
        let ghost before = out@;
        if not_blank_exec(line.as_slice()) {
            out.push(string_from_chars(line.as_slice()));
            assert(out@.map_values(|t: String| t@) =~= before.map_values(|t: String| t@).push(line@));
        }
        k = k + 1;
    }
    assert(lines.take(n as int) =~= lines);
    out
}

/// Splits subscription data into the lines to read (see [`data_lines_text`]).
pub fn data_lines(s: &String, url: &String) -> (r: Vec<String>)
    ensures
        r@.map_values(|t: String| t@) == data_lines_text(s@),
{
    match b64d(s, url.as_str(), true) {
        Some(raw_s) => lines_of(raw_s.as_str()),
        None => lines_of(s.as_str()),
    }
}


/// What a share link line gives.
pub enum LineOutcome {
    /// The line is skipped before it counts.
    Invalid,
    /// A scheme that is not handled; the line counts.
    Unsupported,
    /// A node; the line counts.
    Found(Node),
    /// A vmess link: the JSON text of its node, still to be parsed.
    VmessJson(String),
}

pub enum LineOutcomeV {
    Invalid,
    Unsupported,
    Found(NodeView),
    VmessJson(Seq<char>),
}

impl View for LineOutcome {
    type V = LineOutcomeV;

    open spec fn view(&self) -> LineOutcomeV {
        match self {
            LineOutcome::Invalid => LineOutcomeV::Invalid,
            LineOutcome::Unsupported => LineOutcomeV::Unsupported,
            LineOutcome::Found(n) => LineOutcomeV::Found(n@),
            LineOutcome::VmessJson(t) => LineOutcomeV::VmessJson(t@),
        }
    }
}

/// The number of bytes that UTF-8 takes for a character.
pub open spec fn char_utf8_len(c: char) -> int {
    if '\u{80}' > c {
        1
    } else if '\u{800}' > c {
        2
    } else if '\u{10000}' > c {
        3
    } else {
        4
    }
}

/// `&s[n..]` in bytes: `None` where `n` is past the end or inside a character.
pub open spec fn skip_bytes(s: Seq<char>, n: int) -> Option<Seq<char>>
    decreases s.len(),
{
    if n == 0 {
        Some(s)
    } else if s.len() == 0 || char_utf8_len(s[0]) > n {
        None
    } else {
        skip_bytes(s.drop_first(), n - char_utf8_len(s[0]))
    }
}

fn skip_bytes_exec(cs: &[char], n: usize) -> (r: Option<Vec<char>>)
    ensures
        r matches Some(v) ==> skip_bytes(cs@, n as int) == Some(v@),
        r is None ==> skip_bytes(cs@, n as int) is None,
{
    let mut i: usize = 0;
    let mut left: usize = n;
    assert(cs@.skip(0) =~= cs@);
    while left > 0
        invariant
            i <= cs@.len(),
            left <= n,
            skip_bytes(cs@, n as int) == skip_bytes(cs@.skip(i as int), left as int),
        decreases left,
    {
        let ghost rest = cs@.skip(i as int);
        if i == cs.len() {
            assert(rest.len() == 0);
            return None;
        }
        let c = cs[i];
        let l: usize = if '\u{80}' > c { 1 } else if '\u{800}' > c { 2 } else if '\u{10000}' > c { 3 } else { 4 };
        assert(rest[0] == c);
        if l > left {
            return None;
        }
        assert(rest.drop_first() =~= cs@.skip(i + 1));
        left = left - l;
        i = i + 1;
    }
    let mut out: Vec<char> = Vec::new();
    let start = i;
    while i < cs.len()
        invariant
            start <= i <= cs@.len(),
            out@ == cs@.subrange(start as int, i as int),
        decreases cs@.len() - i,
    {
        out.push(cs[i]);
        assert(cs@.subrange(start as int, i + 1) =~= cs@.subrange(start as int, i as int).push(cs@[i as int]));
        i = i + 1;
    }
    assert(out@ =~= cs@.skip(start as int));
    Some(out)
}

pub open spec fn text_or_empty(o: Option<Seq<char>>) -> Seq<char> {
    match o {
        Some(t) => t,
        None => Seq::empty(),
    }
}

/// The query pairs as an object of strings, a later pair winning.
pub open spec fn query_object(q: Seq<(Seq<char>, Seq<char>)>) -> Map<Seq<char>, JsonV>
    decreases q.len(),
{
    if q.len() == 0 {
        Map::empty()
    } else {
        query_object(q.drop_last()).insert(q.last().0, JsonV::Str(q.last().1))
    }
}

/// An IPv6 host without its square brackets.
pub open spec fn strip_brackets(s: Seq<char>) -> Seq<char> {
    if s.len() >= 2 && s[0] == '[' && s.last() == ']' { s.subrange(1, s.len() - 1) } else { s }
}

/// A node alias from a link fragment: unquoted, blanks removed.
pub open spec fn link_alias(fragment: Option<Seq<char>>) -> Seq<char> {
    without_blanks(unquoted_or_empty(text_or_empty(fragment)))
}

/// The shadowsocks method and password, one filled in from the other: a
/// method alone is taken as the password, and a password alone gets the
/// method `aes-256-gcm`.
pub open spec fn fix_method_password(m: Seq<char>, p: Seq<char>) -> (Seq<char>, Seq<char>) {
    if m.len() > 0 && p.len() == 0 {
        ("aes-256-gcm"@, m)
    } else if m.len() == 0 && p.len() > 0 {
        ("aes-256-gcm"@, p)
    } else {
        (m, p)
    }
}

pub open spec fn ss_param(q: Map<Seq<char>, JsonV>, m: Seq<char>, p: Seq<char>) -> JsonV {
    let f = fix_method_password(m, p);
    JsonV::Object(q.insert("method"@, JsonV::Str(f.0)).insert("password"@, JsonV::Str(f.1)))
}

pub open spec fn parse_u32_or_zero(s: Seq<char>) -> u32 {
    match spec_parse_uint(s, 4294967295) {
        Some(v) => v as u32,
        None => 0,
    }
}

pub open spec fn link_port(u: UrlPartsV) -> u32 {
    match u.port {
        Some(p) => p as u32,
        None => 0,
    }
}

/// A vmess link: the Base64 JSON text in the host, or else in everything
/// after `vmess://`; invalid when there is no host or no JSON text. `None`
/// where the line is too short to cut after its scheme.
pub open spec fn vmess_outcome(u: UrlPartsV, data: Seq<char>) -> Option<LineOutcomeV> {
    let host = text_or_empty(u.host);
    if host.len() == 0 {
        Some(LineOutcomeV::Invalid)
    } else {
        let j1 = text_or_empty(b64d_text(host));
        if j1.len() != 0 {
            Some(LineOutcomeV::VmessJson(j1))
        } else {
            match skip_bytes(data, 8) {
                None => None,
                Some(tail) => {
                    let j2 = text_or_empty(b64d_text(tail));
                    if j2.len() == 0 {
                        Some(LineOutcomeV::Invalid)
                    } else {
                        Some(LineOutcomeV::VmessJson(j2))
                    }
                },
            }
        }
    }
}

/// A vless link: a node from the user id, host, port, query (`path` `/` and
/// `security` `none` by default) and fragment; invalid without `type`.
pub open spec fn vless_outcome(u: UrlPartsV, data: Seq<char>, url: Seq<char>) -> LineOutcomeV {
    let q = query_object(u.query);
    let q = if q.contains_key("path"@) { q } else { q.insert("path"@, JsonV::Str("/"@)) };
    let q = if q.contains_key("security"@) { q } else { q.insert("security"@, JsonV::Str("none"@)) };
    if !q.contains_key("type"@) {
        LineOutcomeV::Invalid
    } else {
        LineOutcomeV::Found(
            fresh_node(u.scheme, u.username, strip_brackets(text_or_empty(u.host)), link_port(u), JsonV::Object(q), link_alias(u.fragment), url, data),
        )
    }
}

/// A trojan link: a node from the password (the user name), host, port,
/// query and fragment.
pub open spec fn trojan_outcome(u: UrlPartsV, data: Seq<char>, url: Seq<char>) -> LineOutcomeV {
    let q = query_object(u.query).insert("password"@, JsonV::Str(u.username));
    LineOutcomeV::Found(fresh_node(u.scheme, Seq::empty(), text_or_empty(u.host), link_port(u), JsonV::Object(q), link_alias(u.fragment), url, data))
}

/// The `method:password` pair of shadowsocks user info: the Base64 decoding
/// of the unquoted user name split at its first `:`, or else the user name
/// and password as they are. `None` where the decoding has no `:`.
pub open spec fn ss_user_info(u: UrlPartsV) -> Option<(Seq<char>, Seq<char>)> {
    let tmp = text_or_empty(b64d_text(unquoted_or_empty(u.username)));
    if tmp.len() == 0 {
        Some((u.username, text_or_empty(u.password)))
    } else {
        match first_occurrence(tmp, ":"@) {
            Some(i) => Some((tmp.take(i), tmp.skip(i + 1))),
            None => None,
        }
    }
}

/// A shadowsocks link: a node from the user info with the host and port
/// (query pairs kept), or from a Base64 host holding
/// `method:password@ip:port`; invalid where either does not split.
pub open spec fn ss_outcome(u: UrlPartsV, data: Seq<char>, url: Seq<char>) -> LineOutcomeV {
    let s = text_or_empty(b64d_text(text_or_empty(u.host)));
    if s.len() == 0 {
        ss_outcome_plain(u, data, url)
    } else {
        ss_outcome_packed(u, s, data, url)
    }
}

pub open spec fn ss_outcome_plain(u: UrlPartsV, data: Seq<char>, url: Seq<char>) -> LineOutcomeV {
    match ss_user_info(u) {
        None => LineOutcomeV::Invalid,
        Some((m, p)) => LineOutcomeV::Found(
            fresh_node(u.scheme, Seq::empty(), strip_brackets(text_or_empty(u.host)), link_port(u), ss_param(query_object(u.query), m, p), link_alias(u.fragment), url, data),
        ),
    }
}

pub open spec fn ss_outcome_packed(u: UrlPartsV, s: Seq<char>, data: Seq<char>, url: Seq<char>) -> LineOutcomeV {
    let pieces = regex_pieces(":|@"@, s, 4);
    if pieces.len() != 4 {
        LineOutcomeV::Invalid
    } else {
        LineOutcomeV::Found(
            fresh_node(u.scheme, Seq::empty(), pieces[2], parse_u32_or_zero(pieces[3]), ss_param(Map::empty(), pieces[0], pieces[1]), link_alias(u.fragment), url, data),
        )
    }
}

/// What one line of share links gives, the `&amp;` entities of the line read
/// as `&` first: by scheme, see the outcome functions; invalid where the line
/// is no URL; a few known schemes are unsupported, others too. `None` where
/// a vmess link cannot be cut after its scheme (see [`vmess_outcome`]).
pub open spec fn line_outcome(line: Seq<char>, url: Seq<char>) -> Option<LineOutcomeV> {
    let data = replace_all(line, "&amp;"@, "&"@);
    match url_parts(data) {
        None => Some(LineOutcomeV::Invalid),
        Some(u) => if u.scheme == "vmess"@ {
            vmess_outcome(u, data)
        } else if u.scheme == "vless"@ {
            Some(vless_outcome(u, data, url))
        } else if u.scheme == "trojan"@ {
            Some(trojan_outcome(u, data, url))
        } else if u.scheme == "ss"@ {
            Some(ss_outcome(u, data, url))
        } else {
            Some(LineOutcomeV::Unsupported)
        },
    }
}

fn text_or_empty_exec(o: Option<String>) -> (r: String)
    ensures
        r@ == text_or_empty(crate::web::opt_text(o)),
{
    match o {
        Some(t) => t,
        None => String::new(),
    }
}

fn query_object_exec(q: &Vec<(String, String)>) -> (r: JsonMap)
    ensures
        r@ == query_object(q@.map_values(|p: (String, String)| (p.0@, p.1@))),
{
    let ghost qv = q@.map_values(|p: (String, String)| (p.0@, p.1@));
    let mut m = JsonMap::new();
    let mut i: usize = 0;
    while i < q.len()
        invariant
            i <= q@.len(),
            qv == q@.map_values(|p: (String, String)| (p.0@, p.1@)),
            m@ == query_object(qv.take(i as int)),
        decreases q@.len() - i,
    {
        assert(qv.take(i + 1).drop_last() =~= qv.take(i as int));
        m.insert(q[i].0.clone(), Json::string(q[i].1.as_str()));
        i = i + 1;
    }
    assert(qv.take(q@.len() as int) =~= qv);
    m
}

fn strip_brackets_exec(s: &String) -> (r: String)
    ensures
        r@ == strip_brackets(s@),
{
    let cs = chars_of(s.as_str());
    if cs.len() >= 2 && cs[0] == '[' && cs[cs.len() - 1] == ']' {
        let mut out: Vec<char> = Vec::new();
        let mut i: usize = 1;
        while i < cs.len() - 1
            invariant
                1 <= i <= cs@.len() - 1,
                cs@.len() >= 2,
                out@ == cs@.subrange(1, i as int),
            decreases cs@.len() - 1 - i,
        {
            out.push(cs[i]);
            assert(cs@.subrange(1, i + 1) =~= cs@.subrange(1, i as int).push(cs@[i as int]));
            i = i + 1;
        }
        string_from_chars(out.as_slice())
    } else {
        string_from_chars(cs.as_slice())
    }
}

fn link_alias_exec(fragment: &Option<String>) -> (r: String)
    ensures
        r@ == link_alias(crate::web::opt_text(*fragment)),
{
    let f = match fragment {
        Some(t) => t.clone(),
        None => String::new(),
    };
    let u = match crate::codecs::unquote_plus(f.as_str()) {
        Some(t) => t,
        None => String::new(),
    };
    adjust_alias(u)
}

fn fix_method_password_exec(m: String, p: String) -> (r: (String, String))
    ensures
        (r.0@, r.1@) == fix_method_password(m@, p@),
{
    let m_empty = m.as_str().is_empty();
    let p_empty = p.as_str().is_empty();
    if !m_empty && p_empty {
        (String::from_str("aes-256-gcm"), m)
    } else if m_empty && !p_empty {
        (String::from_str("aes-256-gcm"), p)
    } else {
        (m, p)
    }
}

fn ss_param_exec(q: JsonMap, m: String, p: String) -> (r: Json)
    ensures
        r@ == ss_param(q@, m@, p@),
{
    let (m2, p2) = fix_method_password_exec(m, p);
    let mut q = q;
    q.insert(String::from_str("method"), Json::string(m2.as_str()));
    q.insert(String::from_str("password"), Json::string(p2.as_str()));
    Json::object(q)
}

fn parse_u32_or_zero_exec(s: &String) -> (r: u32)
    ensures
        r == parse_u32_or_zero(s@),
{
    let cs = chars_of(s.as_str());
    match parse_uint(cs.as_slice(), 4294967295) {
        Some(v) => v as u32,
        None => 0,
    }
}

fn opt_clone(o: &Option<String>) -> (r: Option<String>)
    ensures
        crate::web::opt_text(r) == crate::web::opt_text(*o),
{
    match o {
        Some(t) => Some(t.clone()),
        None => None,
    }
}

fn port_exec(u: &UrlParts) -> (r: u32)
    ensures
        r == link_port(u@),
{
    match u.port {
        Some(p) => p as u32,
        None => 0,
    }
}

fn vmess_outcome_exec(u: &UrlParts, data: &String, url: &String) -> (r: Option<LineOutcome>)
    ensures
        match r {
            Some(o) => vmess_outcome(u@, data@) == Some(o@),
            None => vmess_outcome(u@, data@) is None,
        },
{
    let host = text_or_empty_exec(opt_clone(&u.host));
    if host.as_str().is_empty() {
        return Some(LineOutcome::Invalid);
    }
    let j1 = text_or_empty_exec(b64d(&host, url.as_str(), false));
    if !j1.as_str().is_empty() {
        return Some(LineOutcome::VmessJson(j1));
    }
    let dc = chars_of(data.as_str());
    match skip_bytes_exec(dc.as_slice(), 8) {
        None => None,
        Some(tail) => {
            let t = string_from_chars(tail.as_slice());
            let j2 = text_or_empty_exec(b64d(&t, url.as_str(), false));
            if j2.as_str().is_empty() {
                Some(LineOutcome::Invalid)
            } else {
                Some(LineOutcome::VmessJson(j2))
            }
        },
    }
}

fn vless_outcome_exec(u: &UrlParts, data: String, url: &String) -> (r: LineOutcome)
    ensures
        r@ == vless_outcome(u@, data@, url@),
{
    let mut q = query_object_exec(&u.query);
    if !q.contains_key("path") {
        q.insert(String::from_str("path"), Json::string("/"));
    }
    if !q.contains_key("security") {
        q.insert(String::from_str("security"), Json::string("none"));
    }
    if !q.contains_key("type") {
        return LineOutcome::Invalid;
    }
    let host = text_or_empty_exec(opt_clone(&u.host));
    let n = make_node(u.scheme.clone(), u.username.clone(), strip_brackets_exec(&host), port_exec(u), Json::object(q), link_alias_exec(&u.fragment), url.clone(), data);
    LineOutcome::Found(n)
}

fn trojan_outcome_exec(u: &UrlParts, data: String, url: &String) -> (r: LineOutcome)
    ensures
        r@ == trojan_outcome(u@, data@, url@),
{
    let mut q = query_object_exec(&u.query);
    q.insert(String::from_str("password"), Json::string(u.username.as_str()));
    let host = text_or_empty_exec(opt_clone(&u.host));
    let n = make_node(u.scheme.clone(), String::new(), host, port_exec(u), Json::object(q), link_alias_exec(&u.fragment), url.clone(), data);
    LineOutcome::Found(n)
}

fn split_at_first_colon(tmp: &String) -> (r: Option<(String, String)>)
    ensures
        match r {
            Some((a, b)) => exists|i: int| first_occurrence(tmp@, ":"@) == Some(i) && a@ == tmp@.take(i) && b@ == tmp@.skip(i + 1),
            None => first_occurrence(tmp@, ":"@) is None,
        },
{
    let tc = chars_of(tmp.as_str());
    let colon = chars_of(":");
    match find_chars(tc.as_slice(), colon.as_slice()) {
        Some(i) => {
            proof {
                reveal_strlit(":");
                crate::text::lemma_first_occurrence_found(tc@, colon@);
            }
            assert(i < tc@.len());
            let mut a: Vec<char> = Vec::new();
            let mut k: usize = 0;
            while k < i
                invariant
                    k <= i < tc@.len(),
                    a@ == tc@.take(k as int),
                decreases i - k,
            {
                a.push(tc[k]);
                assert(tc@.take(k + 1) =~= tc@.take(k as int).push(tc@[k as int]));
                k = k + 1;
            }
            let mut b: Vec<char> = Vec::new();
            let n = tc.len();
            assert(i < n);
            let mut k: usize = i + 1;
            while k < tc.len()
                invariant
                    i + 1 <= k <= tc@.len(),
                    b@ == tc@.subrange(i + 1, k as int),
                decreases tc@.len() - k,
            {
                b.push(tc[k]);
                assert(tc@.subrange(i + 1, k + 1) =~= tc@.subrange(i + 1, k as int).push(tc@[k as int]));
                k = k + 1;
            }
            assert(b@ =~= tc@.skip(i + 1));
            Some((string_from_chars(a.as_slice()), string_from_chars(b.as_slice())))
        },
        None => None,
    }
}

fn ss_user_info_exec(u: &UrlParts, url: &String) -> (r: Option<(String, String)>)
    ensures
        match r {
            Some((a, b)) => ss_user_info(u@) == Some((a@, b@)),
            None => ss_user_info(u@) is None,
        },
{
    let uq = match crate::codecs::unquote_plus(u.username.as_str()) {
        Some(t) => t,
        None => String::new(),
    };
    let tmp = text_or_empty_exec(b64d(&uq, url.as_str(), false));
    if tmp.as_str().is_empty() {
        Some((u.username.clone(), text_or_empty_exec(opt_clone(&u.password))))
    } else {
        split_at_first_colon(&tmp)
    }
}

fn ss_outcome_plain_exec(u: &UrlParts, data: String, url: &String) -> (r: LineOutcome)
    ensures
        r@ == ss_outcome_plain(u@, data@, url@),
{
    match ss_user_info_exec(u, url) {
        None => LineOutcome::Invalid,
        Some((m, p)) => {
            let host = text_or_empty_exec(opt_clone(&u.host));
            let param = ss_param_exec(query_object_exec(&u.query), m, p);
            let n = make_node(u.scheme.clone(), String::new(), strip_brackets_exec(&host), port_exec(u), param, link_alias_exec(&u.fragment), url.clone(), data);
            LineOutcome::Found(n)
        },
    }
}

fn ss_outcome_packed_exec(u: &UrlParts, s: &String, data: String, url: &String) -> (r: LineOutcome)
    ensures
        r@ == ss_outcome_packed(u@, s@, data@, url@),
{
    let pieces = regex_splitn(":|@", s.as_str(), 4);
    let ghost pv = pieces@.map_values(|t: String| t@);
    if pieces.len() != 4 {
        assert(pv.len() == pieces@.len());
        return LineOutcome::Invalid;
    }
    assert(pv[0] == pieces@[0]@ && pv[1] == pieces@[1]@ && pv[2] == pieces@[2]@ && pv[3] == pieces@[3]@);
    let param = ss_param_exec(JsonMap::new(), pieces[0].clone(), pieces[1].clone());
    let n = make_node(u.scheme.clone(), String::new(), pieces[2].clone(), parse_u32_or_zero_exec(&pieces[3]), param, link_alias_exec(&u.fragment), url.clone(), data);
    LineOutcome::Found(n)
}

fn ss_outcome_exec(u: &UrlParts, data: String, url: &String) -> (r: LineOutcome)
    ensures
        r@ == ss_outcome(u@, data@, url@),
{
    let host = text_or_empty_exec(opt_clone(&u.host));
    let s = text_or_empty_exec(b64d(&host, url.as_str(), false));
    if s.as_str().is_empty() {
        ss_outcome_plain_exec(u, data, url)
    } else {
        ss_outcome_packed_exec(u, &s, data, url)
    }
}

fn line_outcome_exec(line: &String, url: &String) -> (r: Option<LineOutcome>)
    ensures
        match r {
            Some(o) => line_outcome(line@, url@) == Some(o@),
            None => line_outcome(line@, url@) is None,
        },
{
    proof {
        reveal_strlit("&amp;");
    }
    let data = replace_exec(line.as_str(), "&amp;", "&");
    let u = match parse_url(data.as_str()) {
        None => return Some(LineOutcome::Invalid),
        Some(u) => u,
    };
    let scheme = u.scheme.as_str();
    if str_eq(scheme, "vmess") {
        vmess_outcome_exec(&u, &data, url)
    } else if str_eq(scheme, "vless") {
        Some(vless_outcome_exec(&u, data, url))
    } else if str_eq(scheme, "trojan") {
        Some(trojan_outcome_exec(&u, data, url))
    } else if str_eq(scheme, "ss") {
        Some(ss_outcome_exec(&u, data, url))
    } else {
        Some(LineOutcome::Unsupported)
    }
}

/// Whether [`parse_line`] can read the line without failing.
pub fn line_is_readable(line: &String, url: &String) -> (r: bool)
    ensures
        r == (line_outcome(line@, url@) is Some),
{
    line_outcome_exec(line, url).is_some()
}

/// Reads one line of share links (see [`line_outcome`]); `url` is where the
/// data came from.
pub fn parse_line(line: &String, url: &String) -> (r: LineOutcome)
    requires
        line_outcome(line@, url@) is Some,
    ensures
        line_outcome(line@, url@) == Some(r@),
{
    match line_outcome_exec(line, url) {
        Some(o) => o,
        None => LineOutcome::Invalid,
    }
}

/// Reads one line of share links where [`parse_line`] can read it: `None`
/// exactly where it cannot (see [`line_outcome`]).
pub fn read_line(line: &String, url: &String) -> (r: Option<LineOutcome>)
    ensures
        r is None <==> line_outcome(line@, url@) is None,
        r matches Some(o) ==> line_outcome(line@, url@) == Some(o@),
{
    if line_is_readable(line, url) {
        Some(parse_line(line, url))
    } else {
        None
    }
}

/// The node of a vmess link from its parsed JSON text: `Some(None)` where
/// there is none (the text was no JSON, or the port is 0 or missing). The
/// JSON gets `path` `/` and `host` empty by default; the address is `add`,
/// the user id `id`, the alias `ps` (else the address) without blanks, the
/// port the number that `port` holds as text, else as a number. `None` where
/// the JSON is neither null nor an object (the defaults cannot be set).
pub open spec fn vmess_node_spec(x: JsonV, line: Seq<char>, url: Seq<char>) -> Option<Option<NodeView>> {
    if x is Null {
        Some(None)
    } else if !(x is Object) {
        None
    } else {
        let m0 = x->Object_0;
        let m1 = if m0.contains_key("path"@) { m0 } else { m0.insert("path"@, JsonV::Str("/"@)) };
        let m = if m1.contains_key("host"@) { m1 } else { m1.insert("host"@, JsonV::Str(Seq::empty())) };
        let j = JsonV::Object(m);
        let add = crate::node::str_or_empty(index_key(j, "add"@));
        let uuid = crate::node::str_or_empty(index_key(j, "id"@));
        let alias = without_blanks(if !m.contains_key("ps"@) { add } else { crate::node::str_or_empty(m["ps"@]) });
        let pv = index_key(j, "port"@);
        let p1 = match str_of(pv) {
            Some(t) => parse_u32_or_zero(t),
            None => 0,
        };
        let port = if p1 == 0 {
            match u64_of(pv) {
                Some(v) => v as u32,
                None => 0,
            }
        } else {
            p1
        };
        if port == 0 {
            Some(None)
        } else {
            Some(Some(fresh_node("vmess"@, uuid, add, port, j, alias, url, replace_all(line, "&amp;"@, "&"@))))
        }
    }
}

/// Whether [`vmess_node`] can handle the parsed JSON (null or an object).
pub fn vmess_json_is_usable(x: &Json) -> (r: bool)
    ensures
        r == (x@ is Null || x@ is Object),
{
    x.is_null() || x.is_object()
}

/// The node of a vmess link (see [`vmess_node_spec`]); `line` is the link
/// line, `x` the JSON parsed from the text that [`parse_line`] gave.
pub fn vmess_node(x: Json, line: &String, url: &String) -> (r: Option<Node>)
    requires
        vmess_node_spec(x@, line@, url@) is Some,
    ensures
        vmess_node_spec(x@, line@, url@) == Some(
            match r {
                Some(n) => Some(n@),
                None => None,
            },
        ),
{
    proof {
        crate::json::lemma_json_view(x);
        reveal_strlit("&amp;");
        reveal_strlit("");
        assert(""@ =~= Seq::<char>::empty());
    }
    let mut m = match x {
        Json::Object(m) => m,
        _ => return None,
    };
    if !m.contains_key("path") {
        m.insert(String::from_str("path"), Json::string("/"));
    }
    if !m.contains_key("host") {
        m.insert(String::from_str("host"), Json::string(""));
    }
    let j = Json::object(m);
    let add = str_text(&j.get("add"));
    let uuid = str_text(&j.get("id"));
    let alias0 = if !j.has_key("ps") {
        add.clone()
    } else {
        str_text(&j.get("ps"))
    };
    let alias = adjust_alias(alias0);
    let pv = j.get("port");
    let p1: u32 = match pv.as_str() {
        Some(t) => parse_u32_or_zero_exec(&t),
        None => 0,
    };
    let port: u32 = if p1 == 0 {
        match pv.as_u64() {
            Some(v) => v as u32,
            None => 0,
        }
    } else {
        p1
    };
    if port == 0 {
        return None;
    }
    let data = replace_exec(line.as_str(), "&amp;", "&");
    Some(make_node(String::from_str("vmess"), uuid, add, port, j, alias, url.clone(), data))
}

fn str_text(j: &Json) -> (r: String)
    ensures
        r@ == crate::node::str_or_empty(j@),
{
    match j.as_str() {
        Some(s) => s,
        None => String::new(),
    }
}

/// The string members of an object.
pub open spec fn string_members(j: JsonV) -> Map<Seq<char>, JsonV> {
    match j {
        JsonV::Object(m) => Map::new(|k: Seq<char>| m.contains_key(k) && m[k] is Str, |k: Seq<char>| m[k]),
        _ => Map::empty(),
    }
}

pub open spec fn is_skipped_yaml_type(t: Seq<char>) -> bool {
    t == "ssr"@ || t == "hysteria"@ || t == "hysteria2"@ || t == "hy2"@ || t == "tuic"@
}

/// The parameters of a YAML proxy before its own members are merged in.
pub open spec fn yaml_base_param(m: Map<Seq<char>, JsonV>) -> Map<Seq<char>, JsonV> {
    let g = |k: Seq<char>| if m.contains_key(k) { m[k] } else { JsonV::Null };
    let ws = g("ws-opts"@);
    let path = if !(ws is Null) { crate::node::str_or_empty(index_key(ws, "path"@)) } else { "/"@ };
    let headers = index_key(ws, "headers"@);
    let host = if !(ws is Null) && !(headers is Null) { string_members(index_key(headers, "host"@)) } else { Map::empty() };
    let base = Map::empty().insert("ip"@, JsonV::Str(crate::node::str_or_empty(g("server"@)))).insert(
        "id"@,
        JsonV::Str(crate::node::str_or_empty(g("uuid"@))),
    ).insert("port"@, crate::node::num(((match u64_of(g("port"@)) { Some(v) => v, None => 0 }) as u32) as u64)).insert(
        "aid"@,
        crate::node::num(((match u64_of(g("alterId"@)) { Some(v) => v, None => 0 }) as u32) as u64),
    ).insert("tls"@, JsonV::Str(crate::node::str_or_empty(g("tls"@)))).insert("path"@, JsonV::Str(path)).insert(
        "host"@,
        JsonV::Object(host),
    );
    let t = crate::node::str_or_empty(g("type"@));
    if t == "ss"@ {
        base.insert("method"@, JsonV::Str(crate::node::str_or_empty(g("cipher"@))))
    } else if t == "vless"@ {
        base.insert("security"@, JsonV::Str(crate::node::str_or_empty(g("tls"@))))
    } else if t == "trojan"@ {
        base.insert(
            "allowInsecure"@,
            JsonV::Bool(
                match bool_of(if m.contains_key("skip-cert-verify"@) { m["skip-cert-verify"@] } else { JsonV::Bool(true) }) {
                    Some(b) => b,
                    None => false,
                },
            ),
        )
    } else {
        base
    }
}

/// The node of one proxy of a YAML list (`proxy` being the proxy as JSON,
/// `raw` its YAML text): none for a proxy without `type` or of a type that is
/// not handled. Its address is `server`, user id `uuid`, port `port`; its
/// parameters the proxy merged into the base parameters, its protocol their
/// `type` and its alias their unquoted `name` without blanks.
pub open spec fn yaml_node_spec(proxy: JsonV, raw: Seq<char>, url: Seq<char>) -> Option<NodeView> {
    match proxy {
        JsonV::Object(m) => if !m.contains_key("type"@) || is_skipped_yaml_type(crate::node::str_or_empty(m["type"@])) {
            None
        } else {
            let param = merge_maps(yaml_base_param(m), m);
            let alias = without_blanks(
                if param.contains_key("name"@) { unquoted_or_empty(crate::node::str_or_empty(param["name"@])) } else { Seq::empty() },
            );
            Some(
                fresh_node(
                    crate::node::str_or_empty(index_key(JsonV::Object(param), "type"@)),
                    crate::node::str_or_empty(index_key(proxy, "uuid"@)),
                    crate::node::str_or_empty(index_key(proxy, "server"@)),
                    ((match u64_of(index_key(proxy, "port"@)) { Some(v) => v, None => 0 }) as u32),
                    JsonV::Object(param),
                    alias,
                    url,
                    raw,
                ),
            )
        },
        _ => None,
    }
}

fn string_members_exec(j: &Json) -> (r: JsonMap)
    ensures
        r@ == string_members(j@),
{
    proof {
        crate::json::lemma_json_view(*j);
    }
    let mut out = JsonMap::new();
    match j {
        Json::Object(m) => {
            let n = m.len();
            let ghost mv = m@;
            let mut i: usize = 0;
            while i < n
                invariant
                    i <= n,
                    n == mv.dom().len(),
                    mv == m@,
                    forall|k: Seq<char>| #[trigger] mv.contains_key(k) ==> exists|q: int| 0 <= q < n && m.key_at(q) == k,
                    forall|q: int| 0 <= q < n ==> mv.contains_key(#[trigger] m.key_at(q)),
                    forall|k: Seq<char>| #[trigger] out@.contains_key(k) <==> (exists|q: int| 0 <= q < i && m.key_at(q) == k) && mv[k] is Str,
                    forall|k: Seq<char>| #[trigger] out@.contains_key(k) ==> out@[k] == mv[k],
                decreases n - i,
            {
                let (k, v) = m.entry_at(i);
                let ghost kv = k@;
                let is_str = v.as_str().is_some();
                if is_str {
                    out.insert(k, v);
                }
                proof {
                    assert(m.key_at(i as int) == kv);
                    assert forall|q: Seq<char>| #[trigger] out@.contains_key(q) <==> (exists|x: int| 0 <= x < i + 1 && m.key_at(x) == q) && mv[q] is Str by {
                        if q != kv {
                            if exists|x: int| 0 <= x < i + 1 && m.key_at(x) == q {
                                let x = choose|x: int| 0 <= x < i + 1 && m.key_at(x) == q;
                                assert(x != i);
                            }
                        }
                    }
                }
                i = i + 1;
            }
            assert(out@ =~= string_members(j@)) by {
                assert forall|k: Seq<char>| #[trigger] out@.contains_key(k) == string_members(j@).contains_key(k) by {
                    if mv.contains_key(k) {
                        let q = choose|q: int| 0 <= q < n && m.key_at(q) == k;
                    }
                }
            }
        },
        _ => {
            assert(out@ =~= string_members(j@));
        },
    }
    out
}

fn member_or_null(m: &JsonMap, k: &str) -> (r: Json)
    ensures
        r@ == (if m@.contains_key(k@) { m@[k@] } else { JsonV::Null }),
{
    match m.get(k) {
        Some(v) => v,
        None => Json::null(),
    }
}

fn yaml_base_param_exec(m: &JsonMap) -> (r: JsonMap)
    ensures
        r@ == yaml_base_param(m@),
{
    let ws = member_or_null(m, "ws-opts");
    let ws_null = ws.is_null();
    let path = if !ws_null {
        str_text(&ws.get("path"))
    } else {
        String::from_str("/")
    };
    let headers = ws.get("headers");
    let host = if !ws_null && !headers.is_null() {
        string_members_exec(&headers.get("host"))
    } else {
        JsonMap::new()
    };
    let port: u32 = match member_or_null(m, "port").as_u64() {
        Some(v) => v as u32,
        None => 0,
    };
    let aid: u32 = match member_or_null(m, "alterId").as_u64() {
        Some(v) => v as u32,
        None => 0,
    };
    let mut base = JsonMap::new();
    base.insert(String::from_str("ip"), Json::string(str_text(&member_or_null(m, "server")).as_str()));
    base.insert(String::from_str("id"), Json::string(str_text(&member_or_null(m, "uuid")).as_str()));
    base.insert(String::from_str("port"), Json::unsigned(port as u64));
    base.insert(String::from_str("aid"), Json::unsigned(aid as u64));
    base.insert(String::from_str("tls"), Json::string(str_text(&member_or_null(m, "tls")).as_str()));
    base.insert(String::from_str("path"), Json::string(path.as_str()));
    base.insert(String::from_str("host"), Json::object(host));
    let t = str_text(&member_or_null(m, "type"));
    if str_eq(t.as_str(), "ss") {
        base.insert(String::from_str("method"), Json::string(str_text(&member_or_null(m, "cipher")).as_str()));
    } else if str_eq(t.as_str(), "vless") {
        base.insert(String::from_str("security"), Json::string(str_text(&member_or_null(m, "tls")).as_str()));
    } else if str_eq(t.as_str(), "trojan") {
        let v = if m.contains_key("skip-cert-verify") {
            member_or_null(m, "skip-cert-verify")
        } else {
            Json::boolean(true)
        };
        let b = match v.as_bool() {
            Some(b) => b,
            None => false,
        };
        base.insert(String::from_str("allowInsecure"), Json::boolean(b));
    }
    base
}

/// The node of one YAML proxy (see [`yaml_node_spec`]).
pub fn parse_yaml_proxy(proxy: &Json, raw: String, url: &String) -> (r: Option<Node>)
    ensures
        match r {
            Some(n) => yaml_node_spec(proxy@, raw@, url@) == Some(n@),
            None => yaml_node_spec(proxy@, raw@, url@) is None,
        },
{
    proof {
        crate::json::lemma_json_view(*proxy);
    }
    let m = match proxy {
        Json::Object(m) => m,
        _ => return None,
    };
    if !m.contains_key("type") {
        return None;
    }
    let t = str_text(&member_or_null(m, "type"));
    if str_eq(t.as_str(), "ssr") || str_eq(t.as_str(), "hysteria") || str_eq(t.as_str(), "hysteria2") || str_eq(t.as_str(), "hy2")
        || str_eq(t.as_str(), "tuic") {
        return None;
    }
    let mut param = Json::object(yaml_base_param_exec(m));
    merge_json_objects(&mut param, proxy);
    let alias0 = if param.has_key("name") {
        let n = str_text(&param.get("name"));
        match crate::codecs::unquote_plus(n.as_str()) {
            Some(u) => u,
            None => String::new(),
        }
    } else {
        String::new()
    };
    let alias = adjust_alias(alias0);
    let proto = str_text(&param.get("type"));
    let port: u32 = match proxy.get("port").as_u64() {
        Some(v) => v as u32,
        None => 0,
    };
    Some(make_node(proto, str_text(&proxy.get("uuid")), str_text(&proxy.get("server")), port, param, alias, url.clone(), raw))
}


/// When either the method or the password of a shadowsocks link is given,
/// both are filled in.
pub proof fn law_method_password_filled(m: Seq<char>, p: Seq<char>)
    requires
        m.len() > 0 || p.len() > 0,
    ensures
        fix_method_password(m, p).0.len() > 0,
        fix_method_password(m, p).1.len() > 0,
{
    reveal_strlit("aes-256-gcm");
}


/// Subscription data from an address that ends in `.yaml` or `.yml` is a
/// YAML proxy list.
pub open spec fn yaml_source(url: Seq<char>) -> bool {
    crate::text::ends_with(url, ".yaml"@) || crate::text::ends_with(url, ".yml"@)
}

/// Whether the data from `url` is read as a YAML proxy list.
pub fn is_yaml_source(url: &str) -> (r: bool)
    ensures
        r == yaml_source(url@),
{
    crate::text::ends_with_exec(url, ".yaml") || crate::text::ends_with_exec(url, ".yml")
}


/// A shadowsocks link whose host and user name hold no Base64 text gives a
/// node at the link's host, whose method is the link's user name and whose
/// password is the link's password (when both are given).
pub proof fn law_ss_plain_user_info(line: Seq<char>, url: Seq<char>)
    requires
        url_parts(replace_all(line, "&amp;"@, "&"@)) is Some,
        ({
            let u = url_parts(replace_all(line, "&amp;"@, "&"@))->Some_0;
            &&& u.scheme == "ss"@
            &&& text_or_empty(b64d_text(text_or_empty(u.host))).len() == 0
            &&& text_or_empty(b64d_text(unquoted_or_empty(u.username))).len() == 0
            &&& u.username.len() > 0
            &&& text_or_empty(u.password).len() > 0
        }),
    ensures
        ({
            let u = url_parts(replace_all(line, "&amp;"@, "&"@))->Some_0;
            &&& line_outcome(line, url) matches Some(LineOutcomeV::Found(n))
            &&& n.proto == "ss"@
            &&& n.ip == strip_brackets(text_or_empty(u.host))
            &&& index_key(n.param, "method"@) == JsonV::Str(u.username)
            &&& index_key(n.param, "password"@) == JsonV::Str(text_or_empty(u.password))
        }),
{
    reveal_strlit("ss");
    reveal_strlit("vmess");
    reveal_strlit("vless");
    reveal_strlit("trojan");
    reveal_strlit("method");
    reveal_strlit("password");
    assert("ss"@.len() == 2 && "vmess"@.len() == 5 && "vless"@.len() == 5 && "trojan"@.len() == 6);
    assert("method"@.len() == 6 && "password"@.len() == 8);
}


/// The websocket path of a YAML proxy (that has no `path` member of its own):
/// the text of `ws-opts.path` when `ws-opts` is given (empty when it is no
/// text), and `/` only when `ws-opts` is absent or null.
pub proof fn law_yaml_ws_path(proxy: JsonV, raw: Seq<char>, url: Seq<char>)
    requires
        proxy is Object,
        proxy->Object_0.contains_key("type"@),
        !is_skipped_yaml_type(crate::node::str_or_empty(proxy->Object_0["type"@])),
        !proxy->Object_0.contains_key("path"@),
    ensures
        yaml_node_spec(proxy, raw, url) is Some,
        ({
            let m = proxy->Object_0;
            let n = yaml_node_spec(proxy, raw, url)->Some_0;
            &&& (m.contains_key("ws-opts"@) && !(m["ws-opts"@] is Null)) ==> index_key(n.param, "path"@) == JsonV::Str(
                crate::node::str_or_empty(index_key(m["ws-opts"@], "path"@)),
            )
            &&& (m.contains_key("ws-opts"@) && index_key(m["ws-opts"@], "path"@) is Str) ==> index_key(n.param, "path"@)
                == index_key(m["ws-opts"@], "path"@)
            &&& (!m.contains_key("ws-opts"@) || m["ws-opts"@] is Null) ==> index_key(n.param, "path"@) == JsonV::Str(
                "/"@,
            )
        }),
{
    reveal_strlit("path");
    reveal_strlit("host");
    reveal_strlit("method");
    reveal_strlit("security");
    reveal_strlit("allowInsecure");
    assert("path"@.len() == 4 && "method"@.len() == 6 && "security"@.len() == 8 && "allowInsecure"@.len() == 13);
    assert("path"@[0] != "host"@[0]);
    let m = proxy->Object_0;
    let g = |k: Seq<char>| if m.contains_key(k) { m[k] } else { JsonV::Null };
    let ws = g("ws-opts"@);
    let expected = if ws is Null { "/"@ } else { crate::node::str_or_empty(index_key(ws, "path"@)) };
    let base = yaml_base_param(m);
    assert(base.contains_key("path"@) && base["path"@] == JsonV::Str(expected));
    let pm = merge_maps(base, m);
    assert(pm.contains_key("path"@) && pm["path"@] == base["path"@]);
    let n = yaml_node_spec(proxy, raw, url)->Some_0;
    assert(n.param == JsonV::Object(pm));
    assert(index_key(n.param, "path"@) == JsonV::Str(expected));
}

} // verus!
