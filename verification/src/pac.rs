//! The proxy auto-configuration file and the replies of the small HTTP
//! server that hands it out.

use vstd::prelude::*;
use crate::decimal::{decimal, push_decimal};
use crate::text::{chars_of, string_push, push_str, replace_exec, replace_all, first_occurrence, find_chars, starts_with};
use crate::proto::{is_white_space, is_white_space_exec};
use crate::codecs::{utf8_text, string_from_utf8};
use crate::json::{Json, JsonV, index_key};
use crate::json_text::{json_text, value_text};
use crate::conf::u64_or_zero;

verus! {

/// The mark in the template that stands for the proxy's host.
pub const HOST_MARK: &'static str = "{proxy_host}";

/// The mark in the template that stands for the proxy's port.
pub const PORT_MARK: &'static str = "{proxy_port}";

/// The template with each host mark replaced by `host`, then each port mark
/// by the decimal `port`.
pub open spec fn pac_text(template: Seq<char>, host: Seq<char>, port: u64) -> Seq<char> {
    replace_all(replace_all(template, HOST_MARK@, host), PORT_MARK@, decimal(port as nat))
}

/// Fills in the template of the auto-configuration file.
pub fn pac_content(template: &str, host: &str, port: u64) -> (r: String)
    ensures
        r@ == pac_text(template@, host@, port),
{
    proof {
        reveal_strlit("{proxy_host}");
        reveal_strlit("{proxy_port}");
    }
    let with_host = replace_exec(template, HOST_MARK, host);
    let mut port_text = String::new();
    push_decimal(&mut port_text, port);
    replace_exec(with_host.as_str(), PORT_MARK, port_text.as_str())
}

/// The text of a request, or empty where its bytes are no UTF-8.
pub open spec fn request_text_of(bytes: Seq<u8>) -> Seq<char> {
    match utf8_text(bytes) {
        Some(t) => t,
        None => Seq::empty(),
    }
}

/// The text of the bytes read from a client (empty where they are no UTF-8).
pub fn request_text(bytes: Vec<u8>) -> (r: String)
    ensures
        r@ == request_text_of(bytes@),
{
    match string_from_utf8(bytes) {
        Some(t) => t,
        None => String::new(),
    }
}

pub open spec fn strip_cr(l: Seq<char>) -> Seq<char> {
    if l.len() > 0 && l.last() == '\r' { l.drop_last() } else { l }
}

/// The first line that `str::lines` yields: up to the first line feed,
/// without a carriage return before it; none for an empty text.
pub open spec fn first_line(s: Seq<char>) -> Option<Seq<char>> {
    if s.len() == 0 {
        None
    } else {
        match first_occurrence(s, seq!['\n']) {
            Some(i) => Some(strip_cr(s.take(i))),
            None => Some(s),
        }
    }
}

/// `s` without the white space it starts with.
pub open spec fn skip_white(s: Seq<char>) -> Seq<char>
    decreases s.len(),
{
    if s.len() > 0 && is_white_space(s[0]) {
        skip_white(s.skip(1))
    } else {
        s
    }
}

/// The characters up to the first white space.
pub open spec fn word(s: Seq<char>) -> Seq<char>
    decreases s.len(),
{
    if s.len() == 0 || is_white_space(s[0]) {
        Seq::empty()
    } else {
        seq![s[0]] + word(s.skip(1))
    }
}

/// The second of the words that `split_whitespace` finds in a line that
/// starts with `GET `, if there is one.
pub open spec fn get_path(l: Seq<char>) -> Option<Seq<char>> {
    let rest = skip_white(l.skip(3));
    if rest.len() == 0 {
        None
    } else {
        Some(word(rest))
    }
}

/// The two replies of the server.
#[derive(PartialEq, Eq, Structural, Clone, Copy, Debug)]
pub enum PacReply {
    /// The auto-configuration file.
    File,
    /// Nothing: the request asked for another path.
    Empty,
}

/// What a request is answered: a `GET` of a path other than `/` gets the
/// empty reply, anything else the file; `None` for a first line that starts
/// with `GET ` and names no path (the server's handler fails there).
pub open spec fn reply_for(request: Seq<char>) -> Option<PacReply> {
    match first_line(request) {
        None => Some(PacReply::File),
        Some(l) => if starts_with(l, "GET "@) {
            match get_path(l) {
                None => None,
                Some(p) => if p == "/"@ { Some(PacReply::File) } else { Some(PacReply::Empty) },
            }
        } else {
            Some(PacReply::File)
        },
    }
}

fn first_line_exec(s: &str) -> (r: Option<Vec<char>>)
    ensures
        r matches Some(l) ==> first_line(s@) == Some(l@),
        r is None ==> first_line(s@) is None,
{
    let cs = chars_of(s);
    if cs.len() == 0 {
        return None;
    }
    let nl = vec!['\n'];
    match find_chars(cs.as_slice(), nl.as_slice()) {
        Some(i) => {
            proof {
                crate::text::lemma_first_occurrence_found(cs@, nl@);
            }
            assert(nl@ =~= seq!['\n']);
            let mut l: Vec<char> = Vec::new();
            let mut k: usize = 0;
            while k < i
                invariant
                    k <= i <= cs@.len(),
                    l@ == cs@.take(k as int),
                decreases i - k,
            {
                l.push(cs[k]);
                assert(cs@.take(k + 1) =~= cs@.take(k as int).push(cs@[k as int]));
                k = k + 1;
            }
            if l.len() > 0 && l[l.len() - 1] == '\r' {
                l.pop();
            }
            Some(l)
        },
        None => {
            assert(nl@ =~= seq!['\n']);
            Some(cs)
        },
    }
}

fn get_path_exec(l: &Vec<char>) -> (r: Option<Vec<char>>)
    requires
        l@.len() >= 3,
    ensures
        r matches Some(p) ==> get_path(l@) == Some(p@),
        r is None ==> get_path(l@) is None,
{
    let mut i: usize = 3;
    assert(skip_white(l@.skip(3)) == skip_white(l@.skip(i as int)));
    while i < l.len() && is_white_space_exec(l[i])
        invariant
            3 <= i <= l@.len(),
            skip_white(l@.skip(3)) == skip_white(l@.skip(i as int)),
        decreases l@.len() - i,
    {
        assert(l@.skip(i as int).skip(1) =~= l@.skip(i + 1));
        i = i + 1;
    }
    let ghost rest = l@.skip(i as int);
    assert(skip_white(rest) == rest);
    if i == l.len() {
        assert(rest.len() == 0);
        return None;
    }
    let mut w: Vec<char> = Vec::new();
    let mut j: usize = i;
    assert(word(rest) == w@ + word(l@.skip(j as int)));
    while j < l.len() && !is_white_space_exec(l[j])
        invariant
            i <= j <= l@.len(),
            rest == l@.skip(i as int),
            word(rest) == w@ + word(l@.skip(j as int)),
        decreases l@.len() - j,
    {
        let ghost t = l@.skip(j as int);
        assert(t.skip(1) =~= l@.skip(j + 1));
        assert(word(t) == seq![l@[j as int]] + word(t.skip(1)));
        w.push(l[j]);
        assert(w@ + word(l@.skip(j + 1)) =~= w@.drop_last() + (seq![l@[j as int]] + word(l@.skip(j + 1))));
        j = j + 1;
    }
    assert(word(l@.skip(j as int)) =~= Seq::<char>::empty());
    assert(w@ =~= w@ + word(l@.skip(j as int)));
    Some(w)
}

fn reply_for_exec(request: &str) -> (r: Option<PacReply>)
    ensures
        r == reply_for(request@),
{
    match first_line_exec(request) {
        None => Some(PacReply::File),
        Some(l) => {
            let get = vec!['G', 'E', 'T', ' '];
            proof {
                reveal_strlit("GET ");
            }
            assert(get@ =~= "GET "@);
            let is_get = l.len() >= 4 && l[0] == 'G' && l[1] == 'E' && l[2] == 'T' && l[3] == ' ';
            assert(is_get == starts_with(l@, "GET "@)) by {
                if l@.len() >= 4 {
                    assert(is_get == (l@.take(4) =~= get@));
                }
            }
            if is_get {
                match get_path_exec(&l) {
                    None => None,
                    Some(p) => {
                        proof {
                            reveal_strlit("/");
                        }
                        if p.len() == 1 && p[0] == '/' {
                            assert(p@ =~= "/"@);
                            Some(PacReply::File)
                        } else {
                            assert(p@ != "/"@) by {
                                if p@ == "/"@ {
                                    assert(p@.len() == 1 && p@[0] == '/');
                                }
                            }
                            Some(PacReply::Empty)
                        }
                    },
                }
            } else {
                Some(PacReply::File)
            }
        },
    }
}

/// Whether the request can be answered (see [`reply_for`]).
pub fn pac_request_is_answerable(request: &str) -> (r: bool)
    ensures
        r == (reply_for(request@) is Some),
{
    reply_for_exec(request).is_some()
}

/// The reply that carries the file, with its length in bytes.
pub open spec fn file_reply(content: Seq<char>) -> Seq<char> {
    "HTTP/1.1 200 OK\r\nContent-Type: text/plain\r\nContent-Length: "@ + decimal(
        (vstd::utf8::encode_utf8(content).len() as usize) as nat,
    ) + "\r\n\r\n"@ + content
}

/// The reply that carries nothing.
pub open spec fn empty_reply() -> Seq<char> {
    "HTTP/1.1 200 OK\r\nContent_type: text/plain\r\nContent-Length: 0\r\n\r\n"@
}

pub open spec fn reply_text(request: Seq<char>, content: Seq<char>) -> Seq<char> {
    if reply_for(request) == Some(PacReply::Empty) {
        empty_reply()
    } else {
        file_reply(content)
    }
}

/// The server's reply to a request for the auto-configuration file.
pub fn pac_reply(request: &str, content: &str) -> (r: String)
    requires
        reply_for(request@) is Some,
    ensures
        r@ == reply_text(request@, content@),
{
    match reply_for_exec(request) {
        Some(PacReply::Empty) => "HTTP/1.1 200 OK\r\nContent_type: text/plain\r\nContent-Length: 0\r\n\r\n".to_owned(),
        _ => {
            let mut s = String::new();
            push_str(&mut s, "HTTP/1.1 200 OK\r\nContent-Type: text/plain\r\nContent-Length: ");
            assert(s@ =~= "HTTP/1.1 200 OK\r\nContent-Type: text/plain\r\nContent-Length: "@);
            let n = content.len();
            assert(n == vstd::utf8::encode_utf8(content@).len() as usize);
            push_decimal(&mut s, n as u64);
            push_str(&mut s, "\r\n\r\n");
            push_str(&mut s, content);
            s
        },
    }
}


/// The port that the file names for the proxy: the open HTTP inbound, one
/// above the configured proxy port (0 where none is configured).
pub fn pac_proxy_port(conf: &Json) -> (r: u64)
    requires
        u64_or_zero(index_key(conf@, "proxy_port"@)) < u64::MAX,
    ensures
        r == u64_or_zero(index_key(conf@, "proxy_port"@)) + 1,
{
    crate::conf::proxy_port(conf) + 1
}

/// The address the server listens on: the host, a colon, and the
/// configured `pac_server_port` as a JSON value shows it.
pub fn pac_listen_address(host: &str, conf: &Json) -> (r: String)
    ensures
        r@ == host@ + seq![':'] + json_text(index_key(conf@, "pac_server_port"@)),
{
    let p = conf.get("pac_server_port");
    let t = value_text(&p);
    let mut s = String::new();
    push_str(&mut s, host);
    string_push(&mut s, ':');
    push_str(&mut s, t.as_str());
    s
}

} // verus!
