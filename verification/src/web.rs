//! Calls into the URL, regular-expression and HTML crates.

use vstd::prelude::*;

verus! {

/// The parts of a parsed URL that the link parsers read.
pub struct UrlParts {
    pub scheme: String,
    pub username: String,
    pub password: Option<String>,
    pub host: Option<String>,
    pub port: Option<u16>,
    pub query: Vec<(String, String)>,
    pub fragment: Option<String>,
}

pub struct UrlPartsV {
    pub scheme: Seq<char>,
    pub username: Seq<char>,
    pub password: Option<Seq<char>>,
    pub host: Option<Seq<char>>,
    pub port: Option<u16>,
    pub query: Seq<(Seq<char>, Seq<char>)>,
    pub fragment: Option<Seq<char>>,
}

pub open spec fn opt_text(o: Option<String>) -> Option<Seq<char>> {
    match o {
        Some(s) => Some(s@),
        None => None,
    }
}

impl View for UrlParts {
    type V = UrlPartsV;

    open spec fn view(&self) -> UrlPartsV {
        UrlPartsV {
            scheme: self.scheme@,
            username: self.username@,
            password: opt_text(self.password),
            host: opt_text(self.host),
            port: self.port,
            query: self.query@.map_values(|q: (String, String)| (q.0@, q.1@)),
            fragment: opt_text(self.fragment),
        }
    }
}

/// What `url::Url::parse` makes of a text: its scheme, user name, password,
/// host text, explicit port, decoded query pairs in order, and fragment; or
/// `None` where it reports an error.
pub uninterp spec fn url_parts(s: Seq<char>) -> Option<UrlPartsV>;

/// `url::Url::parse`, with the parts that the parsers read taken out.
#[verifier::external_body]
pub(crate) fn parse_url(s: &str) -> (r: Option<UrlParts>)
    ensures
        r matches Some(u) ==> url_parts(s@) == Some(u@),
        r is None ==> url_parts(s@) is None,
{
    let p = url::Url::parse(s).ok()?;
    let query = p.query_pairs().map(|(k, v)| (k.into_owned(), v.into_owned())).collect();
    Some(UrlParts {
        scheme: p.scheme().to_string(),
        username: p.username().to_string(),
        password: p.password().map(|x| x.to_string()),
        host: p.host_str().map(|x| x.to_string()),
        port: p.port(),
        query,
        fragment: p.fragment().map(|x| x.to_string()),
    })
}

/// Whether the pattern, compiled by `regex`, matches somewhere in the text
/// (false where it does not compile).
pub uninterp spec fn regex_matches(pattern: Seq<char>, text: Seq<char>) -> bool;

/// `regex::Regex::is_match`.
#[verifier::external_body]
pub(crate) fn regex_is_match(pattern: &str, text: &str) -> (r: bool)
    ensures
        r == regex_matches(pattern@, text@),
{
    regex::Regex::new(pattern).map_or(false, |re| re.is_match(text))
}

/// The leftmost match of the pattern in the text.
pub uninterp spec fn regex_first_match(pattern: Seq<char>, text: Seq<char>) -> Option<Seq<char>>;

/// `regex::Regex::find`: the text of the first match.
#[verifier::external_body]
pub(crate) fn regex_find(pattern: &str, text: &str) -> (r: Option<String>)
    ensures
        r matches Some(t) ==> regex_first_match(pattern@, text@) == Some(t@),
        r is None ==> regex_first_match(pattern@, text@) is None,
{
    let re = regex::Regex::new(pattern).ok()?;
    re.find(text).map(|m| m.as_str().to_string())
}

/// The first capture group of the leftmost match.
pub uninterp spec fn regex_first_group(pattern: Seq<char>, text: Seq<char>) -> Option<Seq<char>>;

/// `regex::Regex::captures`: group 1 of the first match.
#[verifier::external_body]
pub(crate) fn regex_capture(pattern: &str, text: &str) -> (r: Option<String>)
    ensures
        r matches Some(t) ==> regex_first_group(pattern@, text@) == Some(t@),
        r is None ==> regex_first_group(pattern@, text@) is None,
{
    let re = regex::Regex::new(pattern).ok()?;
    re.captures(text).and_then(|c| c.get(1)).map(|m| m.as_str().to_string())
}

/// Group 1 of every successive match, in order.
pub uninterp spec fn regex_groups(pattern: Seq<char>, text: Seq<char>) -> Seq<Seq<char>>;

/// The patterns whose group 1 is taken from every match: each has exactly
/// one capture group, and every match takes part in it, as
/// `Captures::extract` needs (on any other pattern it panics).
pub open spec fn single_group_pattern(p: Seq<char>) -> bool {
    p == crate::feeds::LIST_ITEM_PATTERN@ || p == crate::feeds::TROJAN_CELL_PATTERN@
}

/// `regex::Regex::captures_iter`: group 1 of each match, taken out with
/// `Captures::extract`.
#[verifier::external_body]
pub(crate) fn regex_capture_all(pattern: &str, text: &str) -> (r: Vec<String>)
    requires
        single_group_pattern(pattern@),
    ensures
        r@.map_values(|t: String| t@) == regex_groups(pattern@, text@),
{
    match regex::Regex::new(pattern) {
        Ok(re) => re.captures_iter(text).map(|c| c.extract::<1>().1[0].to_string()).collect(),
        Err(_) => Vec::new(),
    }
}

/// The pieces of the text between matches, at most `limit` of them.
pub uninterp spec fn regex_pieces(pattern: Seq<char>, text: Seq<char>, limit: usize) -> Seq<Seq<char>>;

/// `regex::Regex::splitn`.
#[verifier::external_body]
pub(crate) fn regex_splitn(pattern: &str, text: &str, limit: usize) -> (r: Vec<String>)
    ensures
        r@.map_values(|t: String| t@) == regex_pieces(pattern@, text@, limit),
{
    match regex::Regex::new(pattern) {
        Ok(re) => re.splitn(text, limit).map(|t| t.to_string()).collect(),
        Err(_) => Vec::new(),
    }
}

/// The `href` of the first element that the CSS selector picks in the HTML
/// document, as `scraper` finds it.
pub uninterp spec fn html_first_href(document: Seq<char>, selector: Seq<char>) -> Option<Seq<char>>;

/// `scraper::Html::parse_document`, then the first element of
/// `Selector::parse(selector)` and its `href` attribute.
#[verifier::external_body]
pub(crate) fn first_href(document: &str, selector: &str) -> (r: Option<String>)
    ensures
        r matches Some(t) ==> html_first_href(document@, selector@) == Some(t@),
        r is None ==> html_first_href(document@, selector@) is None,
{
    let doc = scraper::Html::parse_document(document);
    let sel = scraper::Selector::parse(selector).ok()?;
    let found = doc.select(&sel).next()?.attr("href")?.to_string();
    Some(found)
}

} // verus!
