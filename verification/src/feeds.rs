//! Pages that point to subscription data: where to find the newest list on
//! each of them, and what to take out of the page once it is fetched.

use vstd::prelude::*;
use crate::text::{chars_of, first_occurrence, find_chars};
use crate::proto::text_or_empty;
use crate::web::{regex_first_match, regex_first_group, regex_groups, regex_find, regex_capture, regex_capture_all,
    html_first_href, first_href};

verus! {

/// The README that lists the nodes of tolinkshare.
pub const TOLINKSHARE_README: &'static str =
    "https://mirror.ghproxy.com/https://raw.githubusercontent.com/tolinkshare/freenode/main/README.md";

/// The README that lists the nodes of vpn-net.
pub const VPNNET_README: &'static str =
    "https://mirror.ghproxy.com/https://raw.githubusercontent.com/VpnNetwork01/vpn-net/main/README.md";

/// The README that lists the subscription files of shareclash.
pub const SHARECLASH_README: &'static str =
    "https://mirror.ghproxy.com/https://raw.githubusercontent.com/shareclash/shareclash.github.io/main/README.md";

/// The README that lists the subscription files of v2rayclashnode.
pub const V2RAYCLASHNODE_README: &'static str =
    "https://mirror.ghproxy.com/https://raw.githubusercontent.com/v2rayclashnode/v2rayclashnode.github.io/main/README.md";

/// The front page of mibei77, which links to the newest post.
pub const MIBEI_HOME: &'static str = "https://www.mibei77.com/";

/// The element of the mibei77 front page whose link is the newest post.
pub const MIBEI_LATEST_POST: &'static str =
    "article.blog-post.hentry.index-post.post-0 > div.entry-header > h2.entry-title > a";

/// The subscription file that a mibei77 post names.
pub const MIBEI_LIST_PATTERN: &'static str = "http://mm\\.mibei77\\.com/.+?\\.txt";

/// A fenced code block; its content is the first group.
pub const CODE_BLOCK_PATTERN: &'static str = "(?s)```(.+?)```";

/// A list item that names a `.txt` subscription over https.
pub const LIST_ITEM_PATTERN: &'static str = "(?im)^-\\s+(https://.+?\\.txt)";

/// A table cell that holds a trojan link, at the end of its line.
pub const TROJAN_CELL_PATTERN: &'static str = "(?im)\\|(trojan:\\/\\/.+?)\\|$";

/// The folder of the hourly node lists of sharkDoor.
pub const SHARKDOOR_FOLDER: &'static str =
    "https://mirror.ghproxy.com/https://raw.githubusercontent.com/sharkDoor/vpn-free-nodes/refs/heads/master/node-list/";

/// The text from the first occurrence of `marker` on.
pub open spec fn from_marker(s: Seq<char>, marker: Seq<char>) -> Option<Seq<char>> {
    match first_occurrence(s, marker) {
        Some(i) => Some(s.skip(i)),
        None => None,
    }
}

fn from_marker_exec(s: &str, marker: &str) -> (r: Option<String>)
    ensures
        r matches Some(t) ==> from_marker(s@, marker@) == Some(t@),
        r is None ==> from_marker(s@, marker@) is None,
{
    let cs = chars_of(s);
    let ms = chars_of(marker);
    match find_chars(cs.as_slice(), ms.as_slice()) {
        Some(i) => {
            proof {
                crate::text::lemma_first_occurrence_found(cs@, ms@);
            }
            let mut tail = String::new();
            assert(tail@ =~= cs@.subrange(i as int, i as int));
            let mut k: usize = i;
            while k < cs.len()
                invariant
                    i <= k <= cs@.len(),
                    tail@ == cs@.subrange(i as int, k as int),
                decreases cs@.len() - k,
            {
                crate::text::string_push(&mut tail, cs[k]);
                assert(cs@.subrange(i as int, k + 1) =~= cs@.subrange(i as int, k as int).push(cs@[k as int]));
                k = k + 1;
            }
            assert(tail@ =~= cs@.skip(i as int));
            Some(tail)
        },
        None => None,
    }
}

/// The first fenced code block after `marker`, or empty.
pub open spec fn block_after(content: Seq<char>, marker: Seq<char>) -> Seq<char> {
    match from_marker(content, marker) {
        Some(t) => text_or_empty(regex_first_group(CODE_BLOCK_PATTERN@, t)),
        None => Seq::empty(),
    }
}

/// The `.txt` subscriptions listed after `marker`, in order.
pub open spec fn listed_after(content: Seq<char>, marker: Seq<char>) -> Seq<Seq<char>> {
    match from_marker(content, marker) {
        Some(t) => regex_groups(LIST_ITEM_PATTERN@, t),
        None => Seq::empty(),
    }
}

fn block_after_exec(content: &str, marker: &str) -> (r: String)
    ensures
        r@ == block_after(content@, marker@),
{
    match from_marker_exec(content, marker) {
        Some(t) => match regex_capture(CODE_BLOCK_PATTERN, t.as_str()) {
            Some(g) => g,
            None => String::new(),
        },
        None => String::new(),
    }
}

fn listed_after_exec(content: &str, marker: &str) -> (r: Vec<String>)
    ensures
        r@.map_values(|t: String| t@) == listed_after(content@, marker@),
{
    match from_marker_exec(content, marker) {
        Some(t) => regex_capture_all(LIST_ITEM_PATTERN, t.as_str()),
        None => {
            let r: Vec<String> = Vec::new();
            assert(r@.map_values(|t: String| t@) =~= Seq::<Seq<char>>::empty());
            r
        },
    }
}

/// The data of tolinkshare out of its README: the README's address and the
/// first code block after the heading of the v2rayN node list (empty where
/// there is none).
pub fn get_tolinkshare_data(readme: &str) -> (r: Option<(String, String)>)
    ensures
        r matches Some(p) && p.0@ == TOLINKSHARE_README@ && p.1@ == block_after(readme@, "免费v2rayN节点列表"@),
{
    let data = block_after_exec(readme, "免费v2rayN节点列表");
    Some((TOLINKSHARE_README.to_owned(), data))
}

/// The data of vpn-net out of its README: the README's address and the
/// first code block after the heading of the free nodes (empty where there
/// is none).
pub fn get_vpnnet_data(readme: &str) -> (r: Option<(String, String)>)
    ensures
        r matches Some(p) && p.0@ == VPNNET_README@ && p.1@ == block_after(readme@, "免费节点"@),
{
    let data = block_after_exec(readme, "免费节点");
    Some((VPNNET_README.to_owned(), data))
}

/// The subscriptions that the shareclash README lists after its heading of
/// V2ray subscription links.
pub fn get_shareclash_url(readme: &str) -> (r: Option<Vec<String>>)
    ensures
        r matches Some(v) && v@.map_values(|t: String| t@) == listed_after(readme@, "V2ray订阅链接"@),
{
    Some(listed_after_exec(readme, "V2ray订阅链接"))
}

/// The subscriptions that the v2rayclashnode README lists after its heading
/// of V2ray subscription links.
pub fn get_v2rayclashnode_url(readme: &str) -> (r: Option<Vec<String>>)
    ensures
        r matches Some(v) && v@.map_values(|t: String| t@) == listed_after(readme@, "V2ray订阅链接"@),
{
    Some(listed_after_exec(readme, "V2ray订阅链接"))
}

/// The address of the newest mibei77 post, as the front page links to it
/// (empty where the page has no such link).
pub fn mibei_latest_post(front_page: &str) -> (r: String)
    ensures
        r@ == text_or_empty(html_first_href(front_page@, MIBEI_LATEST_POST@)),
{
    match first_href(front_page, MIBEI_LATEST_POST) {
        Some(u) => u,
        None => String::new(),
    }
}

/// The subscription file that the newest mibei77 post names (empty where it
/// names none).
pub fn get_mibei_url(latest_post: &str) -> (r: Option<String>)
    ensures
        r matches Some(u) && u@ == text_or_empty(regex_first_match(MIBEI_LIST_PATTERN@, latest_post@)),
{
    match regex_find(MIBEI_LIST_PATTERN, latest_post) {
        Some(u) => Some(u),
        None => Some(String::new()),
    }
}

/// The trojan links of a sharkDoor node list, from the table that follows
/// its header of links on, each paired with the list's address.
pub open spec fn sharkdoor_links(content: Seq<char>) -> Seq<Seq<char>> {
    match from_marker(content, "链接|"@) {
        Some(t) => regex_groups(TROJAN_CELL_PATTERN@, t),
        None => Seq::empty(),
    }
}

/// The trojan links that a sharkDoor node list holds, each with the list's
/// address `url` beside it.
pub fn get_sharkdoor_url(url: &str, content: &str) -> (r: Option<Vec<(String, String)>>)
    ensures
        r matches Some(v) && v@.len() == sharkdoor_links(content@).len() && forall|i: int|
            0 <= i < v@.len() ==> #[trigger] v@[i].0@ == url@ && v@[i].1@ == sharkdoor_links(content@)[i],
{
    let links = match from_marker_exec(content, "链接|") {
        Some(t) => regex_capture_all(TROJAN_CELL_PATTERN, t.as_str()),
        None => Vec::new(),
    };
    let ghost g = links@.map_values(|t: String| t@);
    assert(g.len() == links@.len());
    let mut out: Vec<(String, String)> = Vec::new();
    let mut i: usize = 0;
    while i < links.len()
        invariant
            i <= links@.len(),
            g == links@.map_values(|t: String| t@),
            g == sharkdoor_links(content@),
            out@.len() == i,
            forall|k: int| #![trigger out@[k]] 0 <= k < i ==> out@[k].0@ == url@ && out@[k].1@ == g[k],
        decreases links@.len() - i,
    {
        out.push((url.to_owned(), links[i].clone()));
        i = i + 1;
    }
    assert(out@.len() == sharkdoor_links(content@).len());
    Some(out)
}

/// What `ID=` names on a line of its own in the text of `/etc/os-release`.
pub const DISTRIBUTOR_PATTERN: &'static str = "(?mR)^ID=(\\w+)$";

/// The distribution's id out of the text of `/etc/os-release` (empty where
/// no line names one).
pub fn get_distributor_id(os_release: &str) -> (r: String)
    ensures
        r@ == text_or_empty(regex_first_group(DISTRIBUTOR_PATTERN@, os_release@)),
{
    match regex_capture(DISTRIBUTOR_PATTERN, os_release) {
        Some(id) => id,
        None => String::new(),
    }
}

} // verus!
