//! Text utilities: escaping, Base64 payload decoding, alias clean-up, path
//! prefixes.

use vstd::prelude::*;
use crate::codecs::{base64_decode, base64_standard_decoded, string_from_utf8, utf8_text, decode_utf8_text};
use crate::text::{chars_of, string_push, string_from_chars};

verus! {

/// How `repr` writes one character.
pub open spec fn escape_char(c: char) -> Seq<char> {
    if c == '\t' {
        seq!['\\', 't']
    } else if c == '\r' {
        seq!['\\', 'r']
    } else if c == '\n' {
        seq!['\\', 'n']
    } else if c == '"' {
        seq!['\\', '"']
    } else if c == '\\' {
        seq!['\\', '\\']
    } else {
        seq![c]
    }
}

pub open spec fn repr_text(s: Seq<char>) -> Seq<char>
    decreases s.len(),
{
    if s.len() == 0 {
        Seq::empty()
    } else {
        repr_text(s.drop_last()) + escape_char(s.last())
    }
}

/// The text with tab, carriage return, line feed, double quote and backslash
/// written as escapes.
pub fn repr(s: &str) -> (r: String)
    ensures
        r@ == repr_text(s@),
{
    let cs = chars_of(s);
    let mut result = String::new();
    let mut i: usize = 0;
    while i < cs.len()
        invariant
            i <= cs@.len(),
            cs@ == s@,
            result@ == repr_text(cs@.take(i as int)),
        decreases cs.len() - i,
    {
        let c = cs[i];
        assert(cs@.take(i + 1).drop_last() =~= cs@.take(i as int));
        let ghost before = result@;
        if c == '\t' {
            string_push(&mut result, '\\');
            string_push(&mut result, 't');
        } else if c == '\r' {
            string_push(&mut result, '\\');
            string_push(&mut result, 'r');
        } else if c == '\n' {
            string_push(&mut result, '\\');
            string_push(&mut result, 'n');
        } else if c == '"' {
            string_push(&mut result, '\\');
            string_push(&mut result, '"');
        } else if c == '\\' {
            string_push(&mut result, '\\');
            string_push(&mut result, '\\');
        } else {
            string_push(&mut result, c);
        }
        assert(result@ =~= before + escape_char(c));
        i = i + 1;
    }
    assert(cs@.take(cs@.len() as int) =~= cs@);
    result
}

/// `s` without the characters `c` at its end.
pub open spec fn trim_end_char(s: Seq<char>, c: char) -> Seq<char>
    decreases s.len(),
{
    if s.len() > 0 && s.last() == c {
        trim_end_char(s.drop_last(), c)
    } else {
        s
    }
}

fn trim_end_chars(cs: &mut Vec<char>, c: char)
    ensures
        final(cs)@ == trim_end_char(old(cs)@, c),
{
    while cs.len() > 0 && cs[cs.len() - 1] == c
        invariant
            trim_end_char(cs@, c) == trim_end_char(old(cs)@, c),
        decreases cs@.len(),
    {
        cs.pop();
    }
}

/// `n` padding characters `=`.
pub open spec fn padding(n: nat) -> Seq<char> {
    Seq::new(n, |_i: int| '=')
}

/// Decoding with `i` to 3 padding characters added, the first count that
/// Base64 accepts deciding; its bytes must then be UTF-8.
pub open spec fn padded_decode(t: Seq<char>, i: nat) -> Option<Seq<char>>
    decreases 4 - i,
{
    if i >= 4 {
        None
    } else {
        match base64_standard_decoded(t + padding(i)) {
            Some(b) => utf8_text(b),
            None => padded_decode(t, i + 1),
        }
    }
}

/// `s` with the line feeds, then the carriage returns, cut from its end.
pub open spec fn trim_line_end(s: Seq<char>) -> Seq<char> {
    trim_end_char(trim_end_char(s, '\n'), '\r')
}

/// What `b64d` gives for a text.
pub open spec fn b64d_text(s: Seq<char>) -> Option<Seq<char>> {
    padded_decode(trim_line_end(s), 0)
}

/// Decodes a Base64 payload into text, trying up to three added padding
/// characters. `None` when no padding decodes, or when the decoded bytes are
/// not UTF-8. `url` and `show` only serve the caller's logging.
pub fn b64d(s: &String, url: &str, show: bool) -> (r: Option<String>)
    ensures
        r is Some <==> b64d_text(s@) is Some,
        r matches Some(t) ==> b64d_text(s@) == Some(t@),
{
    let mut cs = chars_of(s.as_str());
    trim_end_chars(&mut cs, '\n');
    trim_end_chars(&mut cs, '\r');
    let ghost t = cs@;
    assert(t == trim_line_end(s@));
    let mut i: usize = 0;
    while i < 4
        invariant
            i <= 4,
            cs@ == t,
            padded_decode(t, i as nat) == b64d_text(s@),
        decreases 4 - i,
    {
        let mut a_s = string_from_chars(cs.as_slice());
        let mut j: usize = 0;
        while j < i
            invariant
                j <= i,
                a_s@ == t + padding(j as nat),
            decreases i - j,
        {
            string_push(&mut a_s, '=');
            assert(t + padding((j + 1) as nat) =~= (t + padding(j as nat)).push('='));
            j = j + 1;
        }
        match base64_decode(a_s.as_str()) {
            Some(bytes) => {
                return string_from_utf8(bytes);
            },
            None => {},
        }
        i = i + 1;
    }
    None
}

pub open spec fn extended_prefix() -> Seq<char> {
    seq!['\\', '\\', '?', '\\']
}

/// A path text without the `\\?\` prefix of extended Windows paths.
pub open spec fn without_extended_prefix(s: Seq<char>) -> Seq<char> {
    if s.len() >= 4 && s.take(4) == extended_prefix() {
        s.skip(4)
    } else {
        s
    }
}

/// Removes the `\\?\` prefix that Windows puts before canonical paths.
pub fn remove_extended_prefix(path: &str) -> (r: String)
    ensures
        r@ == without_extended_prefix(path@),
{
    let cs = chars_of(path);
    if cs.len() >= 4 && cs[0] == '\\' && cs[1] == '\\' && cs[2] == '?' && cs[3] == '\\' {
        assert(cs@.take(4) =~= extended_prefix());
        let mut rest: Vec<char> = Vec::new();
        let mut i: usize = 4;
        while i < cs.len()
            invariant
                4 <= i <= cs@.len(),
                rest@ == cs@.subrange(4, i as int),
            decreases cs.len() - i,
        {
            rest.push(cs[i]);
            assert(cs@.subrange(4, i + 1) =~= cs@.subrange(4, i as int).push(cs@[i as int]));
            i = i + 1;
        }
        assert(cs@.subrange(4, cs@.len() as int) =~= cs@.skip(4));
        string_from_chars(rest.as_slice())
    } else {
        assert(cs@.len() >= 4 ==> cs@.take(4) != extended_prefix()) by {
            if cs@.len() >= 4 && cs@.take(4) == extended_prefix() {
                assert(cs@.take(4)[0] == cs@[0]);
                assert(cs@.take(4)[1] == cs@[1]);
                assert(cs@.take(4)[2] == cs@[2]);
                assert(cs@.take(4)[3] == cs@[3]);
            }
        }
        string_from_chars(cs.as_slice())
    }
}

/// `s` without spaces and tabs.
pub open spec fn without_blanks(s: Seq<char>) -> Seq<char>
    decreases s.len(),
{
    if s.len() == 0 {
        Seq::empty()
    } else if s.last() == ' ' || s.last() == '\t' {
        without_blanks(s.drop_last())
    } else {
        without_blanks(s.drop_last()).push(s.last())
    }
}

/// Cleans a node alias: re-decodes it as UTF-8 text (which keeps it as it
/// is) and removes spaces and tabs.
pub fn adjust_alias(s: String) -> (r: String)
    ensures
        r@ == without_blanks(s@),
{
    let alias = decode_utf8_text(s.as_str());
    let cs = chars_of(alias.as_str());
    let mut out = String::new();
    let mut i: usize = 0;
    while i < cs.len()
        invariant
            i <= cs@.len(),
            cs@ == s@,
            out@ == without_blanks(cs@.take(i as int)),
        decreases cs.len() - i,
    {
        let c = cs[i];
        assert(cs@.take(i + 1).drop_last() =~= cs@.take(i as int));
        if c != ' ' && c != '\t' {
            string_push(&mut out, c);
        }
        i = i + 1;
    }
    assert(cs@.take(cs@.len() as int) =~= cs@);
    out
}


/// A cleaned alias holds no space and no tab.
pub proof fn law_alias_without_blanks(s: Seq<char>)
    ensures
        forall|i: int| 0 <= i < without_blanks(s).len() ==> without_blanks(s)[i] != ' ' && without_blanks(s)[i] != '\t',
    decreases s.len(),
{
    if s.len() > 0 {
        law_alias_without_blanks(s.drop_last());
        let w = without_blanks(s.drop_last());
        if !(s.last() == ' ' || s.last() == '\t') {
            assert forall|i: int| 0 <= i < w.push(s.last()).len() implies w.push(s.last())[i] != ' ' && w.push(
                s.last(),
            )[i] != '\t' by {
                if i < w.len() {
                    assert(w.push(s.last())[i] == w[i]);
                }
            }
        }
    }
}

proof fn lemma_no_blanks_kept(s: Seq<char>)
    requires
        forall|i: int| 0 <= i < s.len() ==> s[i] != ' ' && s[i] != '\t',
    ensures
        without_blanks(s) == s,
    decreases s.len(),
{
    if s.len() > 0 {
        lemma_no_blanks_kept(s.drop_last());
        assert(s.drop_last().push(s.last()) =~= s);
    }
}

/// Cleaning an alias a second time changes nothing.
pub proof fn law_alias_idempotent(s: Seq<char>)
    ensures
        without_blanks(without_blanks(s)) == without_blanks(s),
{
    law_alias_without_blanks(s);
    lemma_no_blanks_kept(without_blanks(s));
}

} // verus!
