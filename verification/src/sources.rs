//! The subscription lists that are fetched when candidates run low: fixed
//! addresses and addresses that name the last few days.

use vstd::prelude::*;
use crate::decimal::{decimal, zero_padded, push_padded, signed_decimal, push_signed, push_decimal};
use crate::text::push_str;

verus! {

/// A day of the proleptic Gregorian calendar.
#[derive(Clone, Copy, Debug)]
pub struct CalendarDate {
    pub year: i32,
    pub month: u32,
    pub day: u32,
}

/// The first and last years that `chrono` dates can hold.
pub open spec fn min_year() -> int {
    -262143
}

pub open spec fn max_year() -> int {
    262142
}

pub open spec fn is_leap_year(y: int) -> bool {
    (y % 4 == 0 && y % 100 != 0) || y % 400 == 0
}

pub open spec fn days_in_month(y: int, m: int) -> int {
    if m == 2 {
        if is_leap_year(y) { 29 } else { 28 }
    } else if m == 4 || m == 6 || m == 9 || m == 11 {
        30
    } else {
        31
    }
}

/// A day that exists and that `chrono` can hold.
pub open spec fn valid_date(d: CalendarDate) -> bool {
    &&& min_year() <= d.year <= max_year()
    &&& 1 <= d.month <= 12
    &&& 1 <= d.day <= days_in_month(d.year as int, d.month as int)
}

/// The day before `d`; `None` before the first day that `chrono` holds.
pub open spec fn day_before_spec(d: CalendarDate) -> Option<CalendarDate> {
    if d.day > 1 {
        Some(CalendarDate { year: d.year, month: d.month, day: (d.day - 1) as u32 })
    } else if d.month > 1 {
        Some(CalendarDate {
            year: d.year,
            month: (d.month - 1) as u32,
            day: days_in_month(d.year as int, d.month - 1) as u32,
        })
    } else if d.year > min_year() {
        Some(CalendarDate { year: (d.year - 1) as i32, month: 12, day: 31 })
    } else {
        None
    }
}

/// Whether `d` is a day that exists and that `chrono` can hold.
pub fn is_valid_date(d: CalendarDate) -> (r: bool)
    ensures
        r == valid_date(d),
{
    if d.year < -262143 || d.year > 262142 || d.month < 1 || d.month > 12 || d.day < 1 {
        return false;
    }
    let leap = (d.year % 4 == 0 && d.year % 100 != 0) || d.year % 400 == 0;
    assert(leap == is_leap_year(d.year as int));
    let dim: u32 = if d.month == 2 {
        if leap { 29 } else { 28 }
    } else if d.month == 4 || d.month == 6 || d.month == 9 || d.month == 11 {
        30
    } else {
        31
    };
    d.day <= dim
}

/// `chrono`'s `NaiveDate::checked_sub_days` by one day: the calendar's day
/// before, or `None` before the first day that `chrono` holds.
#[verifier::external_body]
fn day_before(d: CalendarDate) -> (r: Option<CalendarDate>)
    requires
        valid_date(d),
    ensures
        r == day_before_spec(d),
{
    let date = chrono::NaiveDate::from_ymd_opt(d.year, d.month, d.day)?;
    let p = date.checked_sub_days(chrono::Days::new(1))?;
    Some(CalendarDate {
        year: chrono::Datelike::year(&p),
        month: chrono::Datelike::month(&p),
        day: chrono::Datelike::day(&p),
    })
}

/// The first of January 1970, what `chrono` dates default to.
pub open spec fn default_date() -> CalendarDate {
    CalendarDate { year: 1970, month: 1, day: 1 }
}

/// The day before `d`, or the default date where there is none.
pub open spec fn previous_day(d: CalendarDate) -> CalendarDate {
    match day_before_spec(d) {
        Some(p) => p,
        None => default_date(),
    }
}

/// The day before `d`, or the first of January 1970 where `chrono` holds
/// none.
pub fn previous_day_or_default(d: CalendarDate) -> (r: CalendarDate)
    requires
        valid_date(d),
    ensures
        r == previous_day(d),
{
    match day_before(d) {
        Some(p) => p,
        None => CalendarDate { year: 1970, month: 1, day: 1 },
    }
}

/// What `chrono` writes for a date with `format(pattern)`.
pub uninterp spec fn chrono_date_text(year: i32, month: u32, day: u32, pattern: Seq<char>) -> Seq<char>;

/// What `chrono` writes for a date and an hour on the hour with
/// `format(pattern)`.
pub uninterp spec fn chrono_datetime_text(year: i32, month: u32, day: u32, hour: u32, pattern: Seq<char>) -> Seq<char>;

/// `%Y` for a year from 0 to 9999: four digits.
pub open spec fn year4(y: i32) -> Seq<char> {
    zero_padded(y as nat, 4)
}

pub open spec fn two(n: u32) -> Seq<char> {
    zero_padded(n as nat, 2)
}

/// The date patterns the subscription addresses use; `chrono` reads each of
/// them (a pattern it cannot read makes its `to_string` panic).
pub open spec fn date_pattern(p: Seq<char>) -> bool {
    p == "%Y%m%d"@ || p == "%m%d"@ || p == "%y%m"@ || p == "%Y-%-m-%d"@
}

/// The pattern of sharkDoor's hourly lists.
pub open spec fn hour_pattern(p: Seq<char>) -> bool {
    p == "%Y-%m/%d日%H时30分.md"@
}

/// `chrono`'s `NaiveDate::format(pattern)`, written out. For years from 0
/// to 9999 `chrono`'s documentation gives the text of the patterns used
/// here: `%Y` four digits, `%m`, `%d` and `%y` (the year modulo 100) two,
/// `%-m` the month without padding. Other years are written with a sign and
/// are left to the name.
#[verifier::external_body]
fn date_text(d: CalendarDate, pattern: &str) -> (r: String)
    requires
        valid_date(d),
        date_pattern(pattern@),
    ensures
        r@ == chrono_date_text(d.year, d.month, d.day, pattern@),
        0 <= d.year <= 9999 && pattern@ == "%Y%m%d"@ ==> r@ == year4(d.year) + two(d.month) + two(d.day),
        pattern@ == "%m%d"@ ==> r@ == two(d.month) + two(d.day),
        0 <= d.year <= 9999 && pattern@ == "%y%m"@ ==> r@ == two((d.year % 100) as u32) + two(d.month),
        0 <= d.year <= 9999 && pattern@ == "%Y-%-m-%d"@ ==> r@ == year4(d.year) + seq!['-'] + decimal(
            d.month as nat,
        ) + seq!['-'] + two(d.day),
{
    match chrono::NaiveDate::from_ymd_opt(d.year, d.month, d.day) {
        Some(x) => x.format(pattern).to_string(),
        None => String::new(),
    }
}

/// `chrono`'s `NaiveDateTime::format(pattern)` for the date at `hour`
/// o'clock, written out, for the one pattern that `chrono` reads here. For years from 0 to 9999 the documentation gives
/// the text of the sharkDoor pattern; other years are left to the name.
#[verifier::external_body]
fn datetime_text(d: CalendarDate, hour: u32, pattern: &str) -> (r: String)
    requires
        valid_date(d),
        hour < 24,
        hour_pattern(pattern@),
    ensures
        r@ == chrono_datetime_text(d.year, d.month, d.day, hour, pattern@),
        0 <= d.year <= 9999 && pattern@ == "%Y-%m/%d日%H时30分.md"@ ==> r@ == year4(d.year) + seq!['-'] + two(d.month)
            + seq!['/'] + two(d.day) + "日"@ + two(hour) + "时30分.md"@,
{
    let date = match chrono::NaiveDate::from_ymd_opt(d.year, d.month, d.day) {
        Some(x) => x,
        None => return String::new(),
    };
    match date.and_hms_opt(hour, 0, 0) {
        Some(x) => x.format(pattern).to_string(),
        None => String::new(),
    }
}

/// The hourly node list of sharkDoor for the hour `hour` of day `d`.
pub open spec fn sharkdoor_list(d: CalendarDate, hour: u32) -> Seq<char> {
    crate::feeds::SHARKDOOR_FOLDER@ + chrono_datetime_text(d.year, d.month, d.day, hour, "%Y-%m/%d日%H时30分.md"@)
}

/// The address of sharkDoor's node list for the hour `hour` of day `d` (the
/// hour before the present one, as the caller picks it).
pub fn sharkdoor_list_url(d: CalendarDate, hour: u32) -> (r: String)
    requires
        valid_date(d),
        hour < 24,
    ensures
        r@ == sharkdoor_list(d, hour),
{
    let mut s = String::new();
    push_str(&mut s, crate::feeds::SHARKDOOR_FOLDER);
    let t = datetime_text(d, hour, "%Y-%m/%d日%H时30分.md");
    push_str(&mut s, t.as_str());
    s
}

pub open spec fn ymd(d: CalendarDate) -> Seq<char> {
    chrono_date_text(d.year, d.month, d.day, "%Y%m%d"@)
}

/// `{}/{:02}`: the year and the zero-padded month.
pub open spec fn year_month(d: CalendarDate) -> Seq<char> {
    signed_decimal(d.year as int) + seq!['/'] + two(d.month)
}

/// `{}/{}`: the year and the month without padding.
pub open spec fn year_month_plain(d: CalendarDate) -> Seq<char> {
    signed_decimal(d.year as int) + seq!['/'] + decimal(d.month as nat)
}

pub open spec fn nodefree(d: CalendarDate) -> Seq<char> {
    "https://nodefree.org/dy/"@ + year_month(d) + seq!['/'] + ymd(d) + ".txt"@
}

pub open spec fn clashgithub(d: CalendarDate) -> Seq<char> {
    "https://clashgithub.com/wp-content/uploads/rss/"@ + ymd(d) + ".txt"@
}

pub open spec fn freeclash(d: CalendarDate) -> Seq<char> {
    "https://freeclash.org/wp-content/uploads/"@ + year_month(d) + seq!['/'] + chrono_date_text(
        d.year,
        d.month,
        d.day,
        "%m%d"@,
    ) + ".txt"@
}

pub open spec fn nodebird(d: CalendarDate) -> Seq<char> {
    "https://nodebird.net/wp-content/uploads/"@ + year_month_plain(d) + seq!['/'] + ymd(d) + ".txt"@
}

pub open spec fn onenode(d: CalendarDate) -> Seq<char> {
    "https://node.onenode.cc/"@ + year_month(d) + seq!['/'] + ymd(d) + ".txt"@
}

pub open spec fn auto_proxy(d: CalendarDate) -> Seq<char> {
    "https://mirror.ghproxy.com/https://raw.githubusercontent.com/w1770946466/Auto_proxy/main/sub/"@
        + chrono_date_text(d.year, d.month, d.day, "%y%m"@) + seq!['/'] + ymd(d) + ".txt"@
}

pub open spec fn nodeshare(d: CalendarDate) -> Seq<char> {
    "https://tglaoshiji.github.io/nodeshare/"@ + year_month_plain(d) + seq!['/'] + ymd(d) + ".txt"@
}

pub open spec fn john(d: CalendarDate, folder: Seq<char>, list: Seq<char>) -> Seq<char> {
    "https://good.john1959.com/v2ray@"@ + folder + seq!['/'] + chrono_date_text(d.year, d.month, d.day, "%Y-%-m-%d"@)
        + "-list-"@ + list + ".txt"@
}

fn ymd_exec(d: CalendarDate) -> (r: String)
    requires
        valid_date(d),
    ensures
        r@ == ymd(d),
{
    date_text(d, "%Y%m%d")
}

fn push_year_month(s: &mut String, d: CalendarDate, padded: bool)
    ensures
        final(s)@ == old(s)@ + (if padded { year_month(d) } else { year_month_plain(d) }),
{
    push_signed(s, d.year);
    push_str(s, "/");
    if padded {
        push_padded(s, d.month as u64, 2);
    } else {
        push_decimal(s, d.month as u64);
    }
    proof {
        reveal_strlit("/");
    }
}

fn nodefree_exec(d: CalendarDate) -> (r: String)
    requires
        valid_date(d),
    ensures
        r@ == nodefree(d),
{
    let mut s = String::new();
    push_str(&mut s, "https://nodefree.org/dy/");
    push_year_month(&mut s, d, true);
    push_str(&mut s, "/");
    push_str(&mut s, ymd_exec(d).as_str());
    push_str(&mut s, ".txt");
    proof {
        reveal_strlit("/");
    }
    s
}

fn clashgithub_exec(d: CalendarDate) -> (r: String)
    requires
        valid_date(d),
    ensures
        r@ == clashgithub(d),
{
    let mut s = String::new();
    push_str(&mut s, "https://clashgithub.com/wp-content/uploads/rss/");
    push_str(&mut s, ymd_exec(d).as_str());
    push_str(&mut s, ".txt");
    s
}

fn freeclash_exec(d: CalendarDate) -> (r: String)
    requires
        valid_date(d),
    ensures
        r@ == freeclash(d),
{
    let mut s = String::new();
    push_str(&mut s, "https://freeclash.org/wp-content/uploads/");
    push_year_month(&mut s, d, true);
    push_str(&mut s, "/");
    push_str(&mut s, date_text(d, "%m%d").as_str());
    push_str(&mut s, ".txt");
    proof {
        reveal_strlit("/");
    }
    s
}

fn nodebird_exec(d: CalendarDate) -> (r: String)
    requires
        valid_date(d),
    ensures
        r@ == nodebird(d),
{
    let mut s = String::new();
    push_str(&mut s, "https://nodebird.net/wp-content/uploads/");
    push_year_month(&mut s, d, false);
    push_str(&mut s, "/");
    push_str(&mut s, ymd_exec(d).as_str());
    push_str(&mut s, ".txt");
    proof {
        reveal_strlit("/");
    }
    s
}

fn onenode_exec(d: CalendarDate) -> (r: String)
    requires
        valid_date(d),
    ensures
        r@ == onenode(d),
{
    let mut s = String::new();
    push_str(&mut s, "https://node.onenode.cc/");
    push_year_month(&mut s, d, true);
    push_str(&mut s, "/");
    push_str(&mut s, ymd_exec(d).as_str());
    push_str(&mut s, ".txt");
    proof {
        reveal_strlit("/");
    }
    s
}

fn auto_proxy_exec(d: CalendarDate) -> (r: String)
    requires
        valid_date(d),
    ensures
        r@ == auto_proxy(d),
{
    let mut s = String::new();
    push_str(&mut s, "https://mirror.ghproxy.com/https://raw.githubusercontent.com/w1770946466/Auto_proxy/main/sub/");
    push_str(&mut s, date_text(d, "%y%m").as_str());
    push_str(&mut s, "/");
    push_str(&mut s, ymd_exec(d).as_str());
    push_str(&mut s, ".txt");
    proof {
        reveal_strlit("/");
    }
    s
}

fn nodeshare_exec(d: CalendarDate) -> (r: String)
    requires
        valid_date(d),
    ensures
        r@ == nodeshare(d),
{
    let mut s = String::new();
    push_str(&mut s, "https://tglaoshiji.github.io/nodeshare/");
    push_year_month(&mut s, d, false);
    push_str(&mut s, "/");
    push_str(&mut s, ymd_exec(d).as_str());
    push_str(&mut s, ".txt");
    proof {
        reveal_strlit("/");
    }
    s
}

fn john_exec(d: CalendarDate, folder: &str, list: &str) -> (r: String)
    requires
        valid_date(d),
    ensures
        r@ == john(d, folder@, list@),
{
    let mut s = String::new();
    push_str(&mut s, "https://good.john1959.com/v2ray@");
    push_str(&mut s, folder);
    push_str(&mut s, "/");
    push_str(&mut s, date_text(d, "%Y-%-m-%d").as_str());
    push_str(&mut s, "-list-");
    push_str(&mut s, list);
    push_str(&mut s, ".txt");
    proof {
        reveal_strlit("/");
    }
    s
}

pub open spec fn texts(v: Seq<String>) -> Seq<Seq<char>> {
    v.map_values(|t: String| t@)
}

fn push_text(v: &mut Vec<String>, s: &str)
    ensures
        texts(final(v)@) == texts(old(v)@).push(s@),
{
    v.push(s.to_owned());
    assert(texts(v@) =~= texts(old(v)@).push(s@));
}

fn push_owned(v: &mut Vec<String>, s: String)
    ensures
        texts(final(v)@) == texts(old(v)@).push(s@),
{
    v.push(s);
    assert(texts(v@) =~= texts(old(v)@).push(s@));
}

/// Fixed subscriptions, group A.
pub open spec fn fixed_a() -> Seq<Seq<char>> {
    seq![
        "https://mirror.ghproxy.com/https://raw.githubusercontent.com/umelabs/node.umelabs.dev/master/Subscribe/v2ray.md"@,
        "https://mirror.ghproxy.com/https://raw.githubusercontent.com/freefq/free/master/v2"@,
        "https://mirror.ghproxy.com/https://raw.githubusercontent.com/ts-sf/fly/main/v2"@,
        "https://cdn.jsdelivr.net/gh/ermaozi01/free_clash_vpn/subscribe/v2ray.txt"@,
        "https://v2ray.neocities.org/v2ray.txt"@,
        "https://mirror.ghproxy.com/https://raw.githubusercontent.com/Leon406/SubCrawler/master/sub/share/v2"@,
        "https://mirror.ghproxy.com/https://raw.githubusercontent.com/Leon406/SubCrawler/master/sub/share/tr"@,
        "https://mirror.ghproxy.com/https://raw.githubusercontent.com/peasoft/NoMoreWalls/master/list.txt"@,
        "https://mirror.ghproxy.com/https://raw.githubusercontent.com/a2470982985/getNode/main/v2ray.txt"@,
        "https://mirror.ghproxy.com/https://raw.githubusercontent.com/ermaozi01/free_clash_vpn/main/subscribe/v2ray.txt"@,
        "https://mirror.ghproxy.com/https://raw.githubusercontent.com/ripaojiedian/freenode/main/sub"@,
        "https://mirror.ghproxy.com/https://raw.githubusercontent.com/learnhard-cn/free_proxy_ss/main/free"@,
        "https://mirror.ghproxy.com/https://raw.githubusercontent.com/Jsnzkpg/Jsnzkpg/Jsnzkpg/Jsnzkpg"@,
        "https://mirror.ghproxy.com/https://raw.githubusercontent.com/ZywChannel/free/main/sub"@,
        "https://mirror.ghproxy.com/https://raw.githubusercontent.com/free18/v2ray/main/v2ray.txt"@,
        "https://mirror.ghproxy.com/https://raw.githubusercontent.com/mfuu/v2ray/master/v2ray"@,
    ]
}

fn push_fixed_a(v: &mut Vec<String>)
    ensures
        texts(final(v)@) == texts(old(v)@) + fixed_a(),
{
    let ghost start = texts(v@);
    push_text(v, "https://mirror.ghproxy.com/https://raw.githubusercontent.com/umelabs/node.umelabs.dev/master/Subscribe/v2ray.md");
    push_text(v, "https://mirror.ghproxy.com/https://raw.githubusercontent.com/freefq/free/master/v2");
    push_text(v, "https://mirror.ghproxy.com/https://raw.githubusercontent.com/ts-sf/fly/main/v2");
    push_text(v, "https://cdn.jsdelivr.net/gh/ermaozi01/free_clash_vpn/subscribe/v2ray.txt");
    push_text(v, "https://v2ray.neocities.org/v2ray.txt");
    push_text(v, "https://mirror.ghproxy.com/https://raw.githubusercontent.com/Leon406/SubCrawler/master/sub/share/v2");
    push_text(v, "https://mirror.ghproxy.com/https://raw.githubusercontent.com/Leon406/SubCrawler/master/sub/share/tr");
    push_text(v, "https://mirror.ghproxy.com/https://raw.githubusercontent.com/peasoft/NoMoreWalls/master/list.txt");
    push_text(v, "https://mirror.ghproxy.com/https://raw.githubusercontent.com/a2470982985/getNode/main/v2ray.txt");
    push_text(v, "https://mirror.ghproxy.com/https://raw.githubusercontent.com/ermaozi01/free_clash_vpn/main/subscribe/v2ray.txt");
    push_text(v, "https://mirror.ghproxy.com/https://raw.githubusercontent.com/ripaojiedian/freenode/main/sub");
    push_text(v, "https://mirror.ghproxy.com/https://raw.githubusercontent.com/learnhard-cn/free_proxy_ss/main/free");
    push_text(v, "https://mirror.ghproxy.com/https://raw.githubusercontent.com/Jsnzkpg/Jsnzkpg/Jsnzkpg/Jsnzkpg");
    push_text(v, "https://mirror.ghproxy.com/https://raw.githubusercontent.com/ZywChannel/free/main/sub");
    push_text(v, "https://mirror.ghproxy.com/https://raw.githubusercontent.com/free18/v2ray/main/v2ray.txt");
    push_text(v, "https://mirror.ghproxy.com/https://raw.githubusercontent.com/mfuu/v2ray/master/v2ray");
    assert(texts(v@) =~= start + fixed_a());
}

/// Fixed subscriptions, group B.
pub open spec fn fixed_b() -> Seq<Seq<char>> {
    seq![
        "https://jiang.netlify.com/"@,
        "https://youlianboshi.netlify.app/"@,
        "https://mirror.ghproxy.com/https://raw.githubusercontent.com/eycorsican/rule-sets/master/kitsunebi_sub"@,
        "https://mirror.ghproxy.com/https://raw.githubusercontent.com/umelabs/node.umelabs.dev/master/Subscribe/v2ray.md"@,
        "https://mirror.ghproxy.com/https://raw.githubusercontent.com/w1770946466/Auto_proxy/main/Long_term_subscription_num"@,
        "https://mirror.ghproxy.com/https://raw.githubusercontent.com/mahdibland/ShadowsocksAggregator/master/Eternity"@,
    ]
}

fn push_fixed_b(v: &mut Vec<String>)
    ensures
        texts(final(v)@) == texts(old(v)@) + fixed_b(),
{
    let ghost start = texts(v@);
    push_text(v, "https://jiang.netlify.com/");
    push_text(v, "https://youlianboshi.netlify.app/");
    push_text(v, "https://mirror.ghproxy.com/https://raw.githubusercontent.com/eycorsican/rule-sets/master/kitsunebi_sub");
    push_text(v, "https://mirror.ghproxy.com/https://raw.githubusercontent.com/umelabs/node.umelabs.dev/master/Subscribe/v2ray.md");
    push_text(v, "https://mirror.ghproxy.com/https://raw.githubusercontent.com/w1770946466/Auto_proxy/main/Long_term_subscription_num");
    push_text(v, "https://mirror.ghproxy.com/https://raw.githubusercontent.com/mahdibland/ShadowsocksAggregator/master/Eternity");
    assert(texts(v@) =~= start + fixed_b());
}

/// Fixed subscriptions, group C.
pub open spec fn fixed_c() -> Seq<Seq<char>> {
    seq![
        "https://mirror.ghproxy.com/https://raw.githubusercontent.com/a2470982985/getNode/main/v2ray.txt"@,
        "https://mirror.ghproxy.com/https://raw.githubusercontent.com/freenodes/freenodes/main/clash.yaml"@,
        "https://mirror.ghproxy.com/https://raw.githubusercontent.com/Barabama/FreeNodes/master/nodes/yudou66.txt"@,
        "https://mirror.ghproxy.com/https://raw.githubusercontent.com/Barabama/FreeNodes/master/nodes/blues.txt"@,
        "https://mirror.ghproxy.com/https://raw.githubusercontent.com/Barabama/FreeNodes/master/nodes/zyfxs.txt"@,
        "https://mirror.ghproxy.com/https://raw.githubusercontent.com/mheidari98/.proxy/main/all"@,
        "https://mirror.ghproxy.com/https://raw.githubusercontent.com/LalatinaHub/Mineral/master/result/nodes"@,
        "https://mirror.ghproxy.com/https://raw.githubusercontent.com/zhangkaiitugithub/passcro/main/speednodes.yaml"@,
        "https://mirror.ghproxy.com/https://raw.githubusercontent.com/zhangkaiitugithub/SubCrawler/main/sub/share/all"@,
        "https://mirror.ghproxy.com/https://raw.githubusercontent.com/yebekhe/V2Hub/main/merged_base64"@,
        "https://mirror.ghproxy.com/https://raw.githubusercontent.com/Mahdi0024/ProxyCollector/master/sub/proxies.txt"@,
        "https://mirror.ghproxy.com/https://raw.githubusercontent.com/Epodonios/v2ray-configs/main/Splitted-By-Protocol/vmess.txt"@,
        "https://mirror.ghproxy.com/https://raw.githubusercontent.com/Epodonios/v2ray-configs/main/Splitted-By-Protocol/vless.txt"@,
        "https://mirror.ghproxy.com/https://raw.githubusercontent.com/Epodonios/v2ray-configs/main/Splitted-By-Protocol/ss.txt"@,
        "https://mirror.ghproxy.com/https://raw.githubusercontent.com/Epodonios/v2ray-configs/main/Splitted-By-Protocol/trojan.txt"@,
        "https://mirror.ghproxy.com/https://raw.githubusercontent.com/ALIILAPRO/v2rayNG-Config/main/server.txt"@,
    ]
}

fn push_fixed_c(v: &mut Vec<String>)
    ensures
        texts(final(v)@) == texts(old(v)@) + fixed_c(),
{
    let ghost start = texts(v@);
    push_text(v, "https://mirror.ghproxy.com/https://raw.githubusercontent.com/a2470982985/getNode/main/v2ray.txt");
    push_text(v, "https://mirror.ghproxy.com/https://raw.githubusercontent.com/freenodes/freenodes/main/clash.yaml");
    push_text(v, "https://mirror.ghproxy.com/https://raw.githubusercontent.com/Barabama/FreeNodes/master/nodes/yudou66.txt");
    push_text(v, "https://mirror.ghproxy.com/https://raw.githubusercontent.com/Barabama/FreeNodes/master/nodes/blues.txt");
    push_text(v, "https://mirror.ghproxy.com/https://raw.githubusercontent.com/Barabama/FreeNodes/master/nodes/zyfxs.txt");
    push_text(v, "https://mirror.ghproxy.com/https://raw.githubusercontent.com/mheidari98/.proxy/main/all");
    push_text(v, "https://mirror.ghproxy.com/https://raw.githubusercontent.com/LalatinaHub/Mineral/master/result/nodes");
    push_text(v, "https://mirror.ghproxy.com/https://raw.githubusercontent.com/zhangkaiitugithub/passcro/main/speednodes.yaml");
    push_text(v, "https://mirror.ghproxy.com/https://raw.githubusercontent.com/zhangkaiitugithub/SubCrawler/main/sub/share/all");
    push_text(v, "https://mirror.ghproxy.com/https://raw.githubusercontent.com/yebekhe/V2Hub/main/merged_base64");
    push_text(v, "https://mirror.ghproxy.com/https://raw.githubusercontent.com/Mahdi0024/ProxyCollector/master/sub/proxies.txt");
    push_text(v, "https://mirror.ghproxy.com/https://raw.githubusercontent.com/Epodonios/v2ray-configs/main/Splitted-By-Protocol/vmess.txt");
    push_text(v, "https://mirror.ghproxy.com/https://raw.githubusercontent.com/Epodonios/v2ray-configs/main/Splitted-By-Protocol/vless.txt");
    push_text(v, "https://mirror.ghproxy.com/https://raw.githubusercontent.com/Epodonios/v2ray-configs/main/Splitted-By-Protocol/ss.txt");
    push_text(v, "https://mirror.ghproxy.com/https://raw.githubusercontent.com/Epodonios/v2ray-configs/main/Splitted-By-Protocol/trojan.txt");
    push_text(v, "https://mirror.ghproxy.com/https://raw.githubusercontent.com/ALIILAPRO/v2rayNG-Config/main/server.txt");
    assert(texts(v@) =~= start + fixed_c());
}

/// Fixed subscriptions, group D.
pub open spec fn fixed_d() -> Seq<Seq<char>> {
    seq![
        "https://mirror.ghproxy.com/https://raw.githubusercontent.com/Epodonios/bulk-xray-v2ray-vless-vmess-...-configs/main/sub/Japan/config.txt"@,
        "https://mirror.ghproxy.com/https://raw.githubusercontent.com/Epodonios/bulk-xray-v2ray-vless-vmess-...-configs/main/sub/United%20States/config.txt"@,
        "https://mirror.ghproxy.com/https://raw.githubusercontent.com/Epodonios/bulk-xray-v2ray-vless-vmess-...-configs/main/sub/Germany/config.txt"@,
        "https://mirror.ghproxy.com/https://raw.githubusercontent.com/Epodonios/bulk-xray-v2ray-vless-vmess-...-configs/main/sub/Singapore/config.txt"@,
        "https://mirror.ghproxy.com/https://raw.githubusercontent.com/Epodonios/bulk-xray-v2ray-vless-vmess-...-configs/main/sub/Austria/config.txt"@,
        "https://mirror.ghproxy.com/https://raw.githubusercontent.com/Epodonios/bulk-xray-v2ray-vless-vmess-...-configs/blob/main/sub/Canada/config.txt"@,
        "https://mirror.ghproxy.com/https://raw.githubusercontent.com/zzz6839/SubCrawler/main/sub/share/all"@,
        "https://mirror.ghproxy.com/https://raw.githubusercontent.com/zjfb/SubCrawler/main/sub/share/all"@,
        "https://mirror.ghproxy.com/https://raw.githubusercontent.com/QQnight/SubCrawler/main/sub/share/all"@,
        "https://mirror.ghproxy.com/https://raw.githubusercontent.com/mahdibland/ShadowsocksAggregator/master/sub/sub_merge.txt"@,
        "https://mirror.ghproxy.com/https://raw.githubusercontent.com/zjfb/SubCrawler/main/sub/share/all"@,
        "https://url.cr/api/user.ashx?do=freevpn&ip=127.0.0.1&uuid=67ee96e3-70c5-4741-9105-60d7fd8c42b3"@,
        "https://mirror.ghproxy.com/https://raw.githubusercontent.com/Mohammadgb0078/IRV2ray/main/vless.txt"@,
        "https://mirror.ghproxy.com/https://raw.githubusercontent.com/Mohammadgb0078/IRV2ray/main/vmess.txt"@,
        "https://mirror.ghproxy.com/https://raw.githubusercontent.com/NiceVPN123/NiceVPN/main/long"@,
    ]
}

fn push_fixed_d(v: &mut Vec<String>)
    ensures
        texts(final(v)@) == texts(old(v)@) + fixed_d(),
{
    let ghost start = texts(v@);
    push_text(v, "https://mirror.ghproxy.com/https://raw.githubusercontent.com/Epodonios/bulk-xray-v2ray-vless-vmess-...-configs/main/sub/Japan/config.txt");
    push_text(v, "https://mirror.ghproxy.com/https://raw.githubusercontent.com/Epodonios/bulk-xray-v2ray-vless-vmess-...-configs/main/sub/United%20States/config.txt");
    push_text(v, "https://mirror.ghproxy.com/https://raw.githubusercontent.com/Epodonios/bulk-xray-v2ray-vless-vmess-...-configs/main/sub/Germany/config.txt");
    push_text(v, "https://mirror.ghproxy.com/https://raw.githubusercontent.com/Epodonios/bulk-xray-v2ray-vless-vmess-...-configs/main/sub/Singapore/config.txt");
    push_text(v, "https://mirror.ghproxy.com/https://raw.githubusercontent.com/Epodonios/bulk-xray-v2ray-vless-vmess-...-configs/main/sub/Austria/config.txt");
    push_text(v, "https://mirror.ghproxy.com/https://raw.githubusercontent.com/Epodonios/bulk-xray-v2ray-vless-vmess-...-configs/blob/main/sub/Canada/config.txt");
    push_text(v, "https://mirror.ghproxy.com/https://raw.githubusercontent.com/zzz6839/SubCrawler/main/sub/share/all");
    push_text(v, "https://mirror.ghproxy.com/https://raw.githubusercontent.com/zjfb/SubCrawler/main/sub/share/all");
    push_text(v, "https://mirror.ghproxy.com/https://raw.githubusercontent.com/QQnight/SubCrawler/main/sub/share/all");
    push_text(v, "https://mirror.ghproxy.com/https://raw.githubusercontent.com/mahdibland/ShadowsocksAggregator/master/sub/sub_merge.txt");
    push_text(v, "https://mirror.ghproxy.com/https://raw.githubusercontent.com/zjfb/SubCrawler/main/sub/share/all");
    push_text(v, "https://url.cr/api/user.ashx?do=freevpn&ip=127.0.0.1&uuid=67ee96e3-70c5-4741-9105-60d7fd8c42b3");
    push_text(v, "https://mirror.ghproxy.com/https://raw.githubusercontent.com/Mohammadgb0078/IRV2ray/main/vless.txt");
    push_text(v, "https://mirror.ghproxy.com/https://raw.githubusercontent.com/Mohammadgb0078/IRV2ray/main/vmess.txt");
    push_text(v, "https://mirror.ghproxy.com/https://raw.githubusercontent.com/NiceVPN123/NiceVPN/main/long");
    assert(texts(v@) =~= start + fixed_d());
}

/// Fixed subscriptions, group E.
pub open spec fn fixed_e() -> Seq<Seq<char>> {
    seq![
        "https://mirror.ghproxy.com/https://raw.githubusercontent.com/vxiaov/free_proxies/main/clash/clash.provider.yaml"@,
        "https://mirror.ghproxy.com/https://raw.githubusercontent.com/Surfboardv2ray/TGParse/main/splitted/mixed"@,
        "https://mirror.ghproxy.com/https://raw.githubusercontent.com/Surfboardv2ray/Proxy-sorter/main/submerge/converted.txt"@,
        "https://mirror.ghproxy.com/https://raw.githubusercontent.com/Surfboardv2ray/v2ray-worker-sub/master/sub"@,
        "https://mirror.ghproxy.com/https://raw.githubusercontent.com/Surfboardv2ray/Subs/main/Raw"@,
        "https://tgscan.onrender.com/sub3"@,
        "https://tgscan.onrender.com/sub5"@,
        "https://tgscan.onrender.com/sub9/base64"@,
        "https://tgscan.onrender.com/sub10/base64"@,
        "https://sub.tgzdyz2.xyz/sub"@,
        "https://mirror.ghproxy.com/https://raw.githubusercontent.com/iboxz/free-v2ray-collector/main/main/mix"@,
        "https://www.xrayvip.com/free.txt"@,
        "https://mirror.ghproxy.com/https://raw.githubusercontent.com/ndsphonemy/proxy-sub/main/default.txt"@,
        "https://mirror.ghproxy.com/https://raw.githubusercontent.com/Huibq/TrojanLinks/master/links/trojan"@,
        "https://mirror.ghproxy.com/https://raw.githubusercontent.com/Huibq/TrojanLinks/master/links/vmess"@,
        "https://mirror.ghproxy.com/https://raw.githubusercontent.com/Huibq/TrojanLinks/master/links/ss"@,
    ]
}

fn push_fixed_e(v: &mut Vec<String>)
    ensures
        texts(final(v)@) == texts(old(v)@) + fixed_e(),
{
    let ghost start = texts(v@);
    push_text(v, "https://mirror.ghproxy.com/https://raw.githubusercontent.com/vxiaov/free_proxies/main/clash/clash.provider.yaml");
    push_text(v, "https://mirror.ghproxy.com/https://raw.githubusercontent.com/Surfboardv2ray/TGParse/main/splitted/mixed");
    push_text(v, "https://mirror.ghproxy.com/https://raw.githubusercontent.com/Surfboardv2ray/Proxy-sorter/main/submerge/converted.txt");
    push_text(v, "https://mirror.ghproxy.com/https://raw.githubusercontent.com/Surfboardv2ray/v2ray-worker-sub/master/sub");
    push_text(v, "https://mirror.ghproxy.com/https://raw.githubusercontent.com/Surfboardv2ray/Subs/main/Raw");
    push_text(v, "https://tgscan.onrender.com/sub3");
    push_text(v, "https://tgscan.onrender.com/sub5");
    push_text(v, "https://tgscan.onrender.com/sub9/base64");
    push_text(v, "https://tgscan.onrender.com/sub10/base64");
    push_text(v, "https://sub.tgzdyz2.xyz/sub");
    push_text(v, "https://mirror.ghproxy.com/https://raw.githubusercontent.com/iboxz/free-v2ray-collector/main/main/mix");
    push_text(v, "https://www.xrayvip.com/free.txt");
    push_text(v, "https://mirror.ghproxy.com/https://raw.githubusercontent.com/ndsphonemy/proxy-sub/main/default.txt");
    push_text(v, "https://mirror.ghproxy.com/https://raw.githubusercontent.com/Huibq/TrojanLinks/master/links/trojan");
    push_text(v, "https://mirror.ghproxy.com/https://raw.githubusercontent.com/Huibq/TrojanLinks/master/links/vmess");
    push_text(v, "https://mirror.ghproxy.com/https://raw.githubusercontent.com/Huibq/TrojanLinks/master/links/ss");
    assert(texts(v@) =~= start + fixed_e());
}

/// Fixed subscriptions, group F.
pub open spec fn fixed_f() -> Seq<Seq<char>> {
    seq![
        "https://mirror.ghproxy.com/https://raw.githubusercontent.com/hkpc/V2ray-Configs/main/All_Configs_base64_Sub.txt"@,
        "https://mirror.ghproxy.com/https://raw.githubusercontent.com/m3hdio1/v2ray_sub/main/v2ray_sub.txt"@,
        "https://mirror.ghproxy.com/https://raw.githubusercontent.com/MrMohebi/xray-proxy-grabber-telegram/master/collected-proxies/row-url/all.txt"@,
        "https://uploadserver.sialkcable.ir/v2ray/config.txt"@,
        "https://mirror.ghproxy.com/https://raw.githubusercontent.com/Everyday-VPN/Everyday-VPN/main/subscription/main.txt"@,
        "https://mirror.ghproxy.com/https://raw.githubusercontent.com/Memory2314/VMesslinks/main/links/vmess"@,
        "https://mirror.ghproxy.com/https://raw.githubusercontent.com/lagzian/SS-Collector/main/mix.txt"@,
        "https://mirror.ghproxy.com/https://github.com/v2clash/V2ray-Configs/raw/main/All_Configs_Sub.txt"@,
        "https://mirror.ghproxy.com/https://raw.githubusercontent.com/Ptechgithub/configs/main/clash12.yaml"@,
        "https://mirror.ghproxy.com/https://raw.githubusercontent.com/dimzon/scaling-sniffle/main/freedom/cf.txt"@,
        "https://mirror.ghproxy.com/https://raw.githubusercontent.com/dimzon/scaling-sniffle/main/freedom/80.txt"@,
        "https://mirror.ghproxy.com/https://raw.githubusercontent.com/dimzon/scaling-sniffle/main/freedom/443.txt"@,
        "https://mirror.ghproxy.com/https://raw.githubusercontent.com/dimzon/scaling-sniffle/main/freedom/grpc.txt"@,
        "https://mirror.ghproxy.com/https://raw.githubusercontent.com/dimzon/scaling-sniffle/main/freedom/vmess.txt"@,
        "https://mirror.ghproxy.com/https://raw.githubusercontent.com/dimzon/scaling-sniffle/main/freedom/ws.txt"@,
        "https://mirror.ghproxy.com/https://raw.githubusercontent.com/dimzon/scaling-sniffle/main/freedom/vless.txt"@,
    ]
}

fn push_fixed_f(v: &mut Vec<String>)
    ensures
        texts(final(v)@) == texts(old(v)@) + fixed_f(),
{
    let ghost start = texts(v@);
    push_text(v, "https://mirror.ghproxy.com/https://raw.githubusercontent.com/hkpc/V2ray-Configs/main/All_Configs_base64_Sub.txt");
    push_text(v, "https://mirror.ghproxy.com/https://raw.githubusercontent.com/m3hdio1/v2ray_sub/main/v2ray_sub.txt");
    push_text(v, "https://mirror.ghproxy.com/https://raw.githubusercontent.com/MrMohebi/xray-proxy-grabber-telegram/master/collected-proxies/row-url/all.txt");
    push_text(v, "https://uploadserver.sialkcable.ir/v2ray/config.txt");
    push_text(v, "https://mirror.ghproxy.com/https://raw.githubusercontent.com/Everyday-VPN/Everyday-VPN/main/subscription/main.txt");
    push_text(v, "https://mirror.ghproxy.com/https://raw.githubusercontent.com/Memory2314/VMesslinks/main/links/vmess");
    push_text(v, "https://mirror.ghproxy.com/https://raw.githubusercontent.com/lagzian/SS-Collector/main/mix.txt");
    push_text(v, "https://mirror.ghproxy.com/https://github.com/v2clash/V2ray-Configs/raw/main/All_Configs_Sub.txt");
    push_text(v, "https://mirror.ghproxy.com/https://raw.githubusercontent.com/Ptechgithub/configs/main/clash12.yaml");
    push_text(v, "https://mirror.ghproxy.com/https://raw.githubusercontent.com/dimzon/scaling-sniffle/main/freedom/cf.txt");
    push_text(v, "https://mirror.ghproxy.com/https://raw.githubusercontent.com/dimzon/scaling-sniffle/main/freedom/80.txt");
    push_text(v, "https://mirror.ghproxy.com/https://raw.githubusercontent.com/dimzon/scaling-sniffle/main/freedom/443.txt");
    push_text(v, "https://mirror.ghproxy.com/https://raw.githubusercontent.com/dimzon/scaling-sniffle/main/freedom/grpc.txt");
    push_text(v, "https://mirror.ghproxy.com/https://raw.githubusercontent.com/dimzon/scaling-sniffle/main/freedom/vmess.txt");
    push_text(v, "https://mirror.ghproxy.com/https://raw.githubusercontent.com/dimzon/scaling-sniffle/main/freedom/ws.txt");
    push_text(v, "https://mirror.ghproxy.com/https://raw.githubusercontent.com/dimzon/scaling-sniffle/main/freedom/vless.txt");
    assert(texts(v@) =~= start + fixed_f());
}

/// Fixed subscriptions, group G.
pub open spec fn fixed_g() -> Seq<Seq<char>> {
    seq![
        "https://mirror.ghproxy.com/https://raw.githubusercontent.com/dimzon/scaling-sniffle/main/freedom/trojan.txt"@,
        "https://mirror.ghproxy.com/https://raw.githubusercontent.com/dimzon/scaling-sniffle/main/freedom/tls.txt"@,
        "https://mirror.ghproxy.com/https://raw.githubusercontent.com/dimzon/scaling-sniffle/main/freedom/tcp.txt"@,
        "https://mirror.ghproxy.com/https://raw.githubusercontent.com/itsyebekhe/HiN-VPN/main/subscription/base64/vless"@,
        "https://mirror.ghproxy.com/https://raw.githubusercontent.com/itsyebekhe/HiN-VPN/main/subscription/base64/trojan"@,
        "https://mirror.ghproxy.com/https://raw.githubusercontent.com/itsyebekhe/HiN-VPN/main/subscription/base64/vmess"@,
        "https://mirror.ghproxy.com/https://raw.githubusercontent.com/itsyebekhe/HiN-VPN/main/subscription/base64/ss"@,
        "https://mirror.ghproxy.com/https://raw.githubusercontent.com/abbasdvd3/clash/main/3.yaml"@,
        "https://mirror.ghproxy.com/https://raw.githubusercontent.com/V2RAYCONFIGSPOOL/V2RAY_SUB/main/V2RAY_SUB.txt"@,
        "https://mirror.ghproxy.com/https://raw.githubusercontent.com/Kwinshadow/TelegramV2rayCollector/main/sublinks/mix.txt"@,
        "https://mirror.ghproxy.com/https://raw.githubusercontent.com/MhdiTaheri/V2rayCollector_Py/main/sub/Mix/mix.txt"@,
        "https://mirror.ghproxy.com/https://raw.githubusercontent.com/MhdiTaheri/V2rayCollector/main/sub/mix"@,
        "https://mirror.ghproxy.com/https://raw.githubusercontent.com/linzjian666/chromego_extractor/main/outputs/clash_meta.yaml"@,
        "https://cdn.jsdelivr.net/gh/a2470982985/getNode@main/v2ray.txt"@,
    ]
}

fn push_fixed_g(v: &mut Vec<String>)
    ensures
        texts(final(v)@) == texts(old(v)@) + fixed_g(),
{
    let ghost start = texts(v@);
    push_text(v, "https://mirror.ghproxy.com/https://raw.githubusercontent.com/dimzon/scaling-sniffle/main/freedom/trojan.txt");
    push_text(v, "https://mirror.ghproxy.com/https://raw.githubusercontent.com/dimzon/scaling-sniffle/main/freedom/tls.txt");
    push_text(v, "https://mirror.ghproxy.com/https://raw.githubusercontent.com/dimzon/scaling-sniffle/main/freedom/tcp.txt");
    push_text(v, "https://mirror.ghproxy.com/https://raw.githubusercontent.com/itsyebekhe/HiN-VPN/main/subscription/base64/vless");
    push_text(v, "https://mirror.ghproxy.com/https://raw.githubusercontent.com/itsyebekhe/HiN-VPN/main/subscription/base64/trojan");
    push_text(v, "https://mirror.ghproxy.com/https://raw.githubusercontent.com/itsyebekhe/HiN-VPN/main/subscription/base64/vmess");
    push_text(v, "https://mirror.ghproxy.com/https://raw.githubusercontent.com/itsyebekhe/HiN-VPN/main/subscription/base64/ss");
    push_text(v, "https://mirror.ghproxy.com/https://raw.githubusercontent.com/abbasdvd3/clash/main/3.yaml");
    push_text(v, "https://mirror.ghproxy.com/https://raw.githubusercontent.com/V2RAYCONFIGSPOOL/V2RAY_SUB/main/V2RAY_SUB.txt");
    push_text(v, "https://mirror.ghproxy.com/https://raw.githubusercontent.com/Kwinshadow/TelegramV2rayCollector/main/sublinks/mix.txt");
    push_text(v, "https://mirror.ghproxy.com/https://raw.githubusercontent.com/MhdiTaheri/V2rayCollector_Py/main/sub/Mix/mix.txt");
    push_text(v, "https://mirror.ghproxy.com/https://raw.githubusercontent.com/MhdiTaheri/V2rayCollector/main/sub/mix");
    push_text(v, "https://mirror.ghproxy.com/https://raw.githubusercontent.com/linzjian666/chromego_extractor/main/outputs/clash_meta.yaml");
    push_text(v, "https://cdn.jsdelivr.net/gh/a2470982985/getNode@main/v2ray.txt");
    assert(texts(v@) =~= start + fixed_g());
}

/// Fixed subscriptions, group H.
pub open spec fn fixed_h() -> Seq<Seq<char>> {
    seq![
        "https://mirror.ghproxy.com/https://raw.githubusercontent.com/roosterkid/openproxylist/main/V2RAY_RAW.txt"@,
        "https://q3dlaxpoaq.github.io/APIs/cg0.txt"@,
        "https://q3dlaxpoaq.github.io/APIs/cg1.txt"@,
        "https://q3dlaxpoaq.github.io/APIs/cg2.txt"@,
        "https://q3dlaxpoaq.github.io/APIs/cg3.txt"@,
        "https://q3dlaxpoaq.github.io/APIs/cg4.txt"@,
        "https://mirror.ghproxy.com/https://raw.githubusercontent.com/acymz/AutoVPN/main/data/V2.txt"@,
        "https://mirror.ghproxy.com/https://raw.githubusercontent.com/HakurouKen/free-node/main/public"@,
        "https://mirror.ghproxy.com/https://raw.githubusercontent.com/Q3dlaXpoaQ/V2rayN_Clash_Node_Getter/refs/heads/main/APIs/cg0.txt"@,
        "https://mirror.ghproxy.com/https://raw.githubusercontent.com/Q3dlaXpoaQ/V2rayN_Clash_Node_Getter/refs/heads/main/APIs/cg1.txt"@,
        "https://mirror.ghproxy.com/https://raw.githubusercontent.com/Q3dlaXpoaQ/V2rayN_Clash_Node_Getter/refs/heads/main/APIs/cg2.txt"@,
        "https://mirror.ghproxy.com/https://raw.githubusercontent.com/Q3dlaXpoaQ/V2rayN_Clash_Node_Getter/refs/heads/main/APIs/cg4.txt"@,
        "https://mirror.ghproxy.com/https://raw.githubusercontent.com/nyeinkokoaung404/V2ray-Configs/main/Sub1.txt"@,
        "https://mirror.ghproxy.com/https://raw.githubusercontent.com/nyeinkokoaung404/V2ray-Configs/main/Sub2.txt"@,
        "https://mirror.ghproxy.com/https://raw.githubusercontent.com/nyeinkokoaung404/V2ray-Configs/main/Sub3.txt"@,
        "https://mirror.ghproxy.com/https://raw.githubusercontent.com/nyeinkokoaung404/V2ray-Configs/main/Sub4.txt"@,
    ]
}

fn push_fixed_h(v: &mut Vec<String>)
    ensures
        texts(final(v)@) == texts(old(v)@) + fixed_h(),
{
    let ghost start = texts(v@);
    push_text(v, "https://mirror.ghproxy.com/https://raw.githubusercontent.com/roosterkid/openproxylist/main/V2RAY_RAW.txt");
    push_text(v, "https://q3dlaxpoaq.github.io/APIs/cg0.txt");
    push_text(v, "https://q3dlaxpoaq.github.io/APIs/cg1.txt");
    push_text(v, "https://q3dlaxpoaq.github.io/APIs/cg2.txt");
    push_text(v, "https://q3dlaxpoaq.github.io/APIs/cg3.txt");
    push_text(v, "https://q3dlaxpoaq.github.io/APIs/cg4.txt");
    push_text(v, "https://mirror.ghproxy.com/https://raw.githubusercontent.com/acymz/AutoVPN/main/data/V2.txt");
    push_text(v, "https://mirror.ghproxy.com/https://raw.githubusercontent.com/HakurouKen/free-node/main/public");
    push_text(v, "https://mirror.ghproxy.com/https://raw.githubusercontent.com/Q3dlaXpoaQ/V2rayN_Clash_Node_Getter/refs/heads/main/APIs/cg0.txt");
    push_text(v, "https://mirror.ghproxy.com/https://raw.githubusercontent.com/Q3dlaXpoaQ/V2rayN_Clash_Node_Getter/refs/heads/main/APIs/cg1.txt");
    push_text(v, "https://mirror.ghproxy.com/https://raw.githubusercontent.com/Q3dlaXpoaQ/V2rayN_Clash_Node_Getter/refs/heads/main/APIs/cg2.txt");
    push_text(v, "https://mirror.ghproxy.com/https://raw.githubusercontent.com/Q3dlaXpoaQ/V2rayN_Clash_Node_Getter/refs/heads/main/APIs/cg4.txt");
    push_text(v, "https://mirror.ghproxy.com/https://raw.githubusercontent.com/nyeinkokoaung404/V2ray-Configs/main/Sub1.txt");
    push_text(v, "https://mirror.ghproxy.com/https://raw.githubusercontent.com/nyeinkokoaung404/V2ray-Configs/main/Sub2.txt");
    push_text(v, "https://mirror.ghproxy.com/https://raw.githubusercontent.com/nyeinkokoaung404/V2ray-Configs/main/Sub3.txt");
    push_text(v, "https://mirror.ghproxy.com/https://raw.githubusercontent.com/nyeinkokoaung404/V2ray-Configs/main/Sub4.txt");
    assert(texts(v@) =~= start + fixed_h());
}

/// Fixed subscriptions, group I.
pub open spec fn fixed_i() -> Seq<Seq<char>> {
    seq![
        "https://mirror.ghproxy.com/https://raw.githubusercontent.com/nyeinkokoaung404/V2ray-Configs/main/Sub5.txt"@,
        "https://mirror.ghproxy.com/https://raw.githubusercontent.com/nyeinkokoaung404/V2ray-Configs/main/Sub6.txt"@,
        "https://mirror.ghproxy.com/https://raw.githubusercontent.com/nyeinkokoaung404/V2ray-Configs/main/Sub7.txt"@,
        "https://mirror.ghproxy.com/https://raw.githubusercontent.com/nyeinkokoaung404/V2ray-Configs/main/Sub8.txt"@,
    ]
}

fn push_fixed_i(v: &mut Vec<String>)
    ensures
        texts(final(v)@) == texts(old(v)@) + fixed_i(),
{
    let ghost start = texts(v@);
    push_text(v, "https://mirror.ghproxy.com/https://raw.githubusercontent.com/nyeinkokoaung404/V2ray-Configs/main/Sub5.txt");
    push_text(v, "https://mirror.ghproxy.com/https://raw.githubusercontent.com/nyeinkokoaung404/V2ray-Configs/main/Sub6.txt");
    push_text(v, "https://mirror.ghproxy.com/https://raw.githubusercontent.com/nyeinkokoaung404/V2ray-Configs/main/Sub7.txt");
    push_text(v, "https://mirror.ghproxy.com/https://raw.githubusercontent.com/nyeinkokoaung404/V2ray-Configs/main/Sub8.txt");
    assert(texts(v@) =~= start + fixed_i());
}

/// The subscription lists for today `t`, yesterday `y` and the day before
/// `b`, in the order in which they are offered.
pub open spec fn subscription_list(t: CalendarDate, y: CalendarDate, b: CalendarDate) -> Seq<Seq<char>> {
    seq![
        nodefree(t),
        nodefree(y),
        nodefree(b),
        clashgithub(t),
        clashgithub(y),
        freeclash(t),
        freeclash(y),
        nodebird(t),
        nodebird(y),
    ] + fixed_a() + seq![onenode(t), onenode(y)] + fixed_b() + seq![auto_proxy(b), auto_proxy(y), auto_proxy(t)]
        + fixed_c() + fixed_d() + seq![nodeshare(t), nodeshare(y)] + fixed_e() + fixed_f() + fixed_g() + seq![
        john(y, "a"@, "1"@),
        john(y, "b"@, "2"@),
        john(t, "a"@, "1"@),
        john(t, "b"@, "2"@),
    ] + fixed_h() + fixed_i()
}

/// The day before a valid date is a valid date.
pub proof fn lemma_previous_day_valid(d: CalendarDate)
    requires
        valid_date(d),
    ensures
        valid_date(previous_day(d)),
{
}

/// The subscription lists to fetch on day `today`: those of today, of
/// yesterday and of the day before (each found as `chrono` finds the day
/// before), with the fixed ones among them.
pub fn subscription_urls(today: CalendarDate) -> (r: Vec<String>)
    requires
        valid_date(today),
    ensures
        texts(r@) == subscription_list(today, previous_day(today), previous_day(previous_day(today))),
{
    let t = today;
    let y = previous_day_or_default(t);
    proof {
        lemma_previous_day_valid(t);
    }
    let b = previous_day_or_default(y);
    proof {
        lemma_previous_day_valid(y);
    }
    let mut v: Vec<String> = Vec::new();
    push_owned(&mut v, nodefree_exec(t));
    push_owned(&mut v, nodefree_exec(y));
    push_owned(&mut v, nodefree_exec(b));
    push_owned(&mut v, clashgithub_exec(t));
    push_owned(&mut v, clashgithub_exec(y));
    push_owned(&mut v, freeclash_exec(t));
    push_owned(&mut v, freeclash_exec(y));
    push_owned(&mut v, nodebird_exec(t));
    push_owned(&mut v, nodebird_exec(y));
    let ghost p = seq![
        nodefree(t),
        nodefree(y),
        nodefree(b),
        clashgithub(t),
        clashgithub(y),
        freeclash(t),
        freeclash(y),
        nodebird(t),
        nodebird(y),
    ];
    assert(texts(v@) =~= p);
    push_fixed_a(&mut v);
    push_owned(&mut v, onenode_exec(t));
    push_owned(&mut v, onenode_exec(y));
    let ghost p = p + fixed_a() + seq![onenode(t), onenode(y)];
    assert(texts(v@) =~= p);
    push_fixed_b(&mut v);
    push_owned(&mut v, auto_proxy_exec(b));
    push_owned(&mut v, auto_proxy_exec(y));
    push_owned(&mut v, auto_proxy_exec(t));
    let ghost p = p + fixed_b() + seq![auto_proxy(b), auto_proxy(y), auto_proxy(t)];
    assert(texts(v@) =~= p);
    push_fixed_c(&mut v);
    push_fixed_d(&mut v);
    push_owned(&mut v, nodeshare_exec(t));
    push_owned(&mut v, nodeshare_exec(y));
    let ghost p = p + fixed_c() + fixed_d() + seq![nodeshare(t), nodeshare(y)];
    assert(texts(v@) =~= p);
    push_fixed_e(&mut v);
    push_fixed_f(&mut v);
    push_fixed_g(&mut v);
    push_owned(&mut v, john_exec(y, "a", "1"));
    push_owned(&mut v, john_exec(y, "b", "2"));
    push_owned(&mut v, john_exec(t, "a", "1"));
    push_owned(&mut v, john_exec(t, "b", "2"));
    let ghost p = p + fixed_e() + fixed_f() + fixed_g() + seq![
        john(y, "a"@, "1"@),
        john(y, "b"@, "2"@),
        john(t, "a"@, "1"@),
        john(t, "b"@, "2"@),
    ];
    assert(texts(v@) =~= p);
    push_fixed_h(&mut v);
    push_fixed_i(&mut v);
    assert(texts(v@) =~= p + fixed_h() + fixed_i());
    v
}

} // verus!
