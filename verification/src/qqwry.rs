//! IPv4 text conversions and lookups in a QQWry (`qqwry.dat`) location database.

use vstd::prelude::*;
use crate::decimal::{decimal, spec_parse_uint, all_digits, lemma_decimal, lemma_parse_decimal, parse_uint, push_decimal};
use crate::codecs::{decode_gb2312, gb2312_text};
use crate::text::{split_char, split_on, chars_of, lemma_split_char_append, lemma_split_char_none};

verus! {

/// The little-endian number held by three or four bytes (four when there
/// are exactly four, else the first three).
pub open spec fn le_u32(b: Seq<u8>) -> u32 {
    if b.len() == 4 {
        (b[3] as u32) << 24u32 | (b[2] as u32) << 16u32 | (b[1] as u32) << 8u32 | (b[0] as u32)
    } else {
        (b[2] as u32) << 16u32 | (b[1] as u32) << 8u32 | (b[0] as u32)
    }
}

fn tou32(buf: &[u8]) -> (r: u32)
    requires
        buf@.len() >= 3,
    ensures
        r == le_u32(buf@),
{
    let (x0, x1, x2) = (buf[0], buf[1], buf[2]);
    let b1: u32 = x0 as u32 & 0x0000FF;
    let b2: u32 = x1 as u32 & 0x0000FF;
    let b3: u32 = x2 as u32 & 0x0000FF;
    assert(b1 == x0 as u32 && b2 == x1 as u32 && b3 == x2 as u32) by (bit_vector)
        requires
            b1 == x0 as u32 & 0xFF,
            b2 == x1 as u32 & 0xFF,
            b3 == x2 as u32 & 0xFF,
    ;
    if buf.len() == 4 {
        let x3 = buf[3];
        let b4: u32 = x3 as u32 & 0x0000FF;
        assert(b4 == x3 as u32) by (bit_vector)
            requires
                b4 == x3 as u32 & 0xFF,
        ;
        b4 << 24 | b3 << 16 | b2 << 8 | b1
    } else {
        b3 << 16 | b2 << 8 | b1
    }
}

/// The byte that a dotted-quad piece denotes, when it parses as a `u8`.
pub open spec fn part_byte(p: Seq<char>) -> u8 {
    spec_parse_uint(p, 255).unwrap() as u8
}

pub open spec fn all_parts_parse(parts: Seq<Seq<char>>) -> bool {
    forall|k: int| 0 <= k < parts.len() ==> (#[trigger] spec_parse_uint(parts[k], 255)) is Some
}

/// The bytes of the pieces of `s` taken from the last piece to the first.
pub open spec fn reversed_part_bytes(parts: Seq<Seq<char>>) -> Seq<u8> {
    Seq::new(parts.len(), |j: int| part_byte(parts[parts.len() - 1 - j]))
}

/// The text is one that `ip_to_u32` cannot convert without failing: every
/// piece is a byte but there are fewer than three pieces.
pub open spec fn ip_text_unconvertible(s: Seq<char>) -> bool {
    all_parts_parse(split_char(s, '.')) && split_char(s, '.').len() < 3
}

/// The number that `ip_to_u32` gives for a text: 0 when some dot-separated
/// piece is not a byte; for four pieces `a.b.c.d` the big-endian number;
/// for more or for three pieces, the number of the last three pieces.
pub open spec fn ip_text_value(s: Seq<char>) -> u32 {
    let parts = split_char(s, '.');
    if !all_parts_parse(parts) {
        0
    } else {
        le_u32(reversed_part_bytes(parts))
    }
}

/// Converts dotted text to a number; 0 when some piece is not a byte.
pub fn ip_to_u32(ip: &str) -> (r: u32)
    requires
        !ip_text_unconvertible(ip@),
    ensures
        r == ip_text_value(ip@),
{
    let cs = chars_of(ip);
    let parts = split_on(&cs, '.');
    let ghost sp = split_char(ip@, '.');
    let n = parts.len();
    let mut buf: Vec<u8> = Vec::new();
    let mut k: usize = n;
    while k > 0
        invariant
            k <= n,
            n == parts@.len(),
            n == sp.len(),
            sp == split_char(ip@, '.'),
            forall|j: int| 0 <= j < n ==> #[trigger] parts@[j]@ == sp[j],
            forall|j: int| k <= j < n ==> (#[trigger] spec_parse_uint(sp[j], 255)) is Some,
            buf@ == Seq::new((n - k) as nat, |j: int| part_byte(sp[n - 1 - j])),
        decreases k,
    {
        k = k - 1;
        match parse_uint(parts[k].as_slice(), 255) {
            Some(v) => {
                buf.push(v as u8);
                assert(buf@ =~= Seq::new((n - k) as nat, |j: int| part_byte(sp[n - 1 - j])));
            },
            None => {
                assert(parts@[k as int]@ == sp[k as int]);
                return 0;
            },
        }
    }
    assert(all_parts_parse(sp));
    assert(buf@ =~= reversed_part_bytes(sp));
    tou32(buf.as_slice())
}

/// Whether `ip_to_u32` can convert the text (see [`ip_text_unconvertible`]).
pub fn ip_text_is_convertible(ip: &str) -> (r: bool)
    ensures
        r == !ip_text_unconvertible(ip@),
{
    let cs = chars_of(ip);
    let parts = split_on(&cs, '.');
    let ghost sp = split_char(ip@, '.');
    if parts.len() >= 3 {
        return true;
    }
    let mut k: usize = 0;
    while k < parts.len()
        invariant
            k <= parts@.len(),
            parts@.len() == sp.len(),
            sp == split_char(ip@, '.'),
            forall|j: int| 0 <= j < parts@.len() ==> #[trigger] parts@[j]@ == sp[j],
            forall|j: int| 0 <= j < k ==> (#[trigger] spec_parse_uint(sp[j], 255)) is Some,
        decreases parts@.len() - k,
    {
        if parse_uint(parts[k].as_slice(), 255).is_none() {
            assert(parts@[k as int]@ == sp[k as int]);
            return true;
        }
        k = k + 1;
    }
    false
}

pub open spec fn ip_byte(ip: u32, shift: u32) -> nat {
    ((ip >> shift) & 0xFFu32) as nat
}

/// The dotted-quad text of a number, most significant byte first.
pub open spec fn ip_text(ip: u32) -> Seq<char> {
    decimal(ip_byte(ip, 24)) + seq!['.'] + decimal(ip_byte(ip, 16)) + seq!['.']
        + decimal(ip_byte(ip, 8)) + seq!['.'] + decimal(ip_byte(ip, 0))
}

/// Formats a number as dotted-quad text.
pub fn u32_to_ip(ip: u32) -> (r: String)
    ensures
        r@ == ip_text(ip),
{
    let mut s = String::new();
    push_decimal(&mut s, (ip >> 24 & 0xFF) as u64);
    crate::text::string_push(&mut s, '.');
    push_decimal(&mut s, (ip >> 16 & 0xFF) as u64);
    crate::text::string_push(&mut s, '.');
    push_decimal(&mut s, (ip >> 8 & 0xFF) as u64);
    crate::text::string_push(&mut s, '.');
    push_decimal(&mut s, (ip & 0xFF) as u64);
    assert(ip & 0xFF == ip >> 0u32 & 0xFF) by (bit_vector);
    assert(s@ =~= ip_text(ip));
    s
}

proof fn lemma_decimal_no_dot(n: nat)
    ensures
        !decimal(n).contains('.'),
{
    lemma_decimal(n);
    if decimal(n).contains('.') {
        let k = choose|k: int| 0 <= k < decimal(n).len() && decimal(n)[k] == '.';
        assert(all_digits(decimal(n)));
        assert(crate::decimal::is_digit(decimal(n)[k]));
    }
}

/// Converting a number to text and back gives the number: `ip_to_u32`
/// undoes `u32_to_ip`.
pub proof fn law_ip_text_round_trip(ip: u32)
    ensures
        !ip_text_unconvertible(ip_text(ip)),
        ip_text_value(ip_text(ip)) == ip,
{
    let a = ip_byte(ip, 24);
    let b = ip_byte(ip, 16);
    let c = ip_byte(ip, 8);
    let d = ip_byte(ip, 0);
    assert(a < 256 && b < 256 && c < 256 && d < 256) by {
        assert((ip >> 24u32) & 0xFFu32 < 256u32) by (bit_vector);
        assert((ip >> 16u32) & 0xFFu32 < 256u32) by (bit_vector);
        assert((ip >> 8u32) & 0xFFu32 < 256u32) by (bit_vector);
        assert((ip >> 0u32) & 0xFFu32 < 256u32) by (bit_vector);
    }
    lemma_decimal_no_dot(a);
    lemma_decimal_no_dot(b);
    lemma_decimal_no_dot(c);
    lemma_decimal_no_dot(d);
    let s1 = decimal(a);
    let s2 = s1 + seq!['.'] + decimal(b);
    let s3 = s2 + seq!['.'] + decimal(c);
    let s4 = s3 + seq!['.'] + decimal(d);
    assert(s4 =~= ip_text(ip));
    lemma_split_char_none(s1, '.');
    lemma_split_char_append(s1, '.', decimal(b));
    lemma_split_char_append(s2, '.', decimal(c));
    lemma_split_char_append(s3, '.', decimal(d));
    let parts = split_char(s4, '.');
    assert(parts =~= seq![decimal(a), decimal(b), decimal(c), decimal(d)]);
    lemma_parse_decimal(a, 255);
    lemma_parse_decimal(b, 255);
    lemma_parse_decimal(c, 255);
    lemma_parse_decimal(d, 255);
    assert(all_parts_parse(parts)) by {
        assert forall|k: int| 0 <= k < parts.len() implies (#[trigger] spec_parse_uint(parts[k], 255)) is Some by {
            if k == 0 {} else if k == 1 {} else if k == 2 {} else {}
        }
    }
    let rb = reversed_part_bytes(parts);
    assert(rb.len() == 4);
    assert(rb[0] == d as u8 && rb[1] == c as u8 && rb[2] == b as u8 && rb[3] == a as u8);
    let x = ip;
    assert(((((x >> 24u32) & 0xFFu32) as u8) as u32) << 24u32 | ((((x >> 16u32) & 0xFFu32) as u8) as u32) << 16u32
        | ((((x >> 8u32) & 0xFFu32) as u8) as u32) << 8u32 | ((((x >> 0u32) & 0xFFu32) as u8) as u32) == x) by (bit_vector);
}

/// The canonical dotted-quad text of four bytes: each in decimal without
/// sign or leading zeros, separated by dots.
pub open spec fn quad_text(a: u8, b: u8, c: u8, d: u8) -> Seq<char> {
    decimal(a as nat) + seq!['.'] + decimal(b as nat) + seq!['.'] + decimal(c as nat) + seq!['.'] + decimal(
        d as nat,
    )
}

/// Converting a canonical dotted quad to a number and back gives the same
/// text: `u32_to_ip` undoes `ip_to_u32` on such texts.
pub proof fn law_quad_text_round_trip(a: u8, b: u8, c: u8, d: u8)
    ensures
        !ip_text_unconvertible(quad_text(a, b, c, d)),
        ip_text(ip_text_value(quad_text(a, b, c, d))) == quad_text(a, b, c, d),
{
    let v: u32 = (a as u32) << 24u32 | (b as u32) << 16u32 | (c as u32) << 8u32 | (d as u32);
    assert((v >> 24u32) & 0xFFu32 == a as u32 && (v >> 16u32) & 0xFFu32 == b as u32 && (v >> 8u32) & 0xFFu32
        == c as u32 && (v >> 0u32) & 0xFFu32 == d as u32) by (bit_vector)
        requires
            v == (a as u32) << 24u32 | (b as u32) << 16u32 | (c as u32) << 8u32 | (d as u32),
    ;
    assert(ip_text(v) =~= quad_text(a, b, c, d));
    law_ip_text_round_trip(v);
}

/// A location record found in the database.
pub struct IPLocation {
    pub index_offset: u32,
    pub record_offset: u32,
    pub start_ip: u32,
    pub end_ip: u32,
    pub country: String,
    pub area: String,
}

pub struct IPLocationView {
    pub index_offset: u32,
    pub record_offset: u32,
    pub start_ip: u32,
    pub end_ip: u32,
    pub country: Seq<char>,
    pub area: Seq<char>,
}

impl View for IPLocation {
    type V = IPLocationView;

    open spec fn view(&self) -> IPLocationView {
        IPLocationView {
            index_offset: self.index_offset,
            record_offset: self.record_offset,
            start_ip: self.start_ip,
            end_ip: self.end_ip,
            country: self.country@,
            area: self.area@,
        }
    }
}

/// The location that a lookup starts from: every number 0, every text empty.
pub open spec fn empty_location() -> IPLocationView {
    IPLocationView {
        index_offset: 0,
        record_offset: 0,
        start_ip: 0,
        end_ip: 0,
        country: Seq::empty(),
        area: Seq::empty(),
    }
}

/// The little-endian number in the `n` bytes at `pos`, if they lie in `d`.
pub open spec fn u32_at(d: Seq<u8>, pos: int, n: int) -> Option<u32> {
    if 0 <= pos && pos + n <= d.len() {
        Some(le_u32(d.subrange(pos, pos + n)))
    } else {
        None
    }
}

/// The byte at `pos`, if it lies in `d`.
pub open spec fn byte_at(d: Seq<u8>, pos: int) -> Option<u8> {
    if 0 <= pos < d.len() {
        Some(d[pos])
    } else {
        None
    }
}

/// The position of the first zero byte at or after `pos`, if there is one.
pub open spec fn first_nul(d: Seq<u8>, pos: int) -> Option<int>
    decreases d.len() - pos,
{
    if pos < 0 || pos >= d.len() {
        None
    } else if d[pos] == 0 {
        Some(pos)
    } else {
        first_nul(d, pos + 1)
    }
}

/// A zero-terminated GB2312 string at `pos`: its text and the position after
/// the terminator.
pub open spec fn string_at(d: Seq<u8>, pos: int) -> Option<(Seq<char>, int)> {
    match first_nul(d, pos) {
        Some(e) => Some((gb2312_text(d.subrange(pos, e)), e + 1)),
        None => None,
    }
}

pub open spec fn unknown_area() -> Seq<char> {
    seq!['u', 'n', 'k', 'n', 'o', 'w', 'n', '.', 'a', 'r', 'e', 'a']
}

/// An area field at `pos`: a string there, or, after a mode byte 1 or 2, the
/// string at a three-byte offset (offset 0 stands for an unknown area).
pub open spec fn area_at(d: Seq<u8>, pos: int) -> Option<Seq<char>> {
    match byte_at(d, pos) {
        None => None,
        Some(b) => if b == 1 || b == 2 {
            match u32_at(d, pos + 1, 3) {
                None => None,
                Some(off) => if off == 0 {
                    Some(unknown_area())
                } else {
                    match string_at(d, off as int) {
                        Some((t, _)) => Some(t),
                        None => None,
                    }
                },
            }
        } else {
            match string_at(d, pos) {
                Some((t, _)) => Some(t),
                None => None,
            }
        },
    }
}

/// Country then area, read from `pos` on.
pub open spec fn country_area_at(d: Seq<u8>, pos: int) -> Option<(Seq<char>, Seq<char>)> {
    match string_at(d, pos) {
        None => None,
        Some((c, p)) => match area_at(d, p) {
            None => None,
            Some(a) => Some((c, a)),
        },
    }
}

/// The record at `rec`: its end address, country and area. After the end
/// address, mode byte 1 redirects both fields to a three-byte offset (where a
/// mode byte 2 may redirect the country once more, the area then following
/// the redirect); mode byte 2 redirects the country only, the area following it.
pub open spec fn record_at(d: Seq<u8>, rec: u32) -> Option<(u32, Seq<char>, Seq<char>)> {
    let p = rec as int;
    match (u32_at(d, p, 4), byte_at(d, p + 4)) {
        (Some(end_ip), Some(b1)) => {
            if b1 == 1 || b1 == 2 {
                match u32_at(d, p + 5, 3) {
                    None => None,
                    Some(off) => if b1 == 1 {
                        match byte_at(d, off as int) {
                            None => None,
                            Some(b2) => if b2 == 2 {
                                match u32_at(d, off + 1, 3) {
                                    None => None,
                                    Some(off2) => match (string_at(d, off2 as int), area_at(d, off + 4)) {
                                        (Some((c, _)), Some(a)) => Some((end_ip, c, a)),
                                        _ => None,
                                    },
                                }
                            } else {
                                match country_area_at(d, off as int) {
                                    Some((c, a)) => Some((end_ip, c, a)),
                                    None => None,
                                }
                            },
                        }
                    } else {
                        match country_area_at(d, off as int) {
                            Some((c, a)) => Some((end_ip, c, a)),
                            None => None,
                        }
                    },
                }
            } else {
                match country_area_at(d, p + 4) {
                    Some((c, a)) => Some((end_ip, c, a)),
                    None => None,
                }
            }
        },
        _ => None,
    }
}

/// The lookup result for a record: its offset, end address, country and
/// area; the index offset and start address only when `ip` is at most the
/// record's end address (or `exact`).
pub open spec fn located(d: Seq<u8>, rec: u32, index_offset: u32, start_ip: u32, ip: u32, exact: bool) -> Option<IPLocationView> {
    match record_at(d, rec) {
        None => None,
        Some((end_ip, c, a)) => {
            let hit = exact || ip <= end_ip;
            Some(IPLocationView {
                index_offset: if hit { index_offset } else { 0 },
                record_offset: rec,
                start_ip: if hit { start_ip } else { 0 },
                end_ip,
                country: c,
                area: a,
            })
        },
    }
}

/// The contents of a loaded database.
pub struct QQWryView {
    pub file: Seq<char>,
    pub data: Seq<u8>,
    pub first_index_offset: u32,
    pub total_index_records: u32,
}

/// The header holds the offsets of the first and the last index record, the
/// last not before the first.
pub open spec fn header_ok(d: Seq<u8>) -> bool {
    d.len() >= 8 && le_u32(d.subrange(0, 4)) <= le_u32(d.subrange(4, 8))
}

pub open spec fn index_count(d: Seq<u8>) -> u32 {
    ((le_u32(d.subrange(4, 8)) - le_u32(d.subrange(0, 4))) / 7 + 1) as u32
}

/// A database whose counts agree with its header.
pub open spec fn qqwry_wf(v: QQWryView) -> bool {
    &&& header_ok(v.data)
    &&& v.first_index_offset == le_u32(v.data.subrange(0, 4))
    &&& v.total_index_records == index_count(v.data)
}

/// The index is scanned from its first record: an equal start address ends
/// the scan there; a greater one steps back to the record before, which is
/// then taken if `ip` is at most its end address; the last record is taken
/// the same way. Stepping back before the first record fails.
pub open spec fn scan(d: Seq<u8>, first: u32, total: u32, ip: u32, k: int, right_edge: bool) -> Option<IPLocationView>
    decreases (if right_edge { 0int } else { 1int }), (if right_edge { k } else { total - k }),
{
    if k < 0 || k >= total || first + 7 * k > u32::MAX {
        None
    } else {
        let idx = (first + 7 * k) as u32;
        match (u32_at(d, idx as int, 4), u32_at(d, idx + 4, 3)) {
            (Some(start), Some(rec)) => {
                if ip == start {
                    located(d, rec, idx, start, ip, true)
                } else if ip < start {
                    if k == 0 {
                        None
                    } else {
                        scan(d, first, total, ip, k - 1, true)
                    }
                } else if right_edge || k + 1 == total {
                    located(d, rec, idx, start, ip, false)
                } else {
                    scan(d, first, total, ip, k + 1, false)
                }
            },
            _ => None,
        }
    }
}

/// Index record `k`: the start address of its range and the offset of its
/// location record, when both lie in the data.
pub open spec fn index_entry(d: Seq<u8>, first: u32, k: int) -> Option<(u32, u32)> {
    if k < 0 || first + 7 * k > u32::MAX {
        None
    } else {
        match (u32_at(d, first + 7 * k, 4), u32_at(d, first + 7 * k + 4, 3)) {
            (Some(start), Some(rec)) => Some((start, rec)),
            _ => None,
        }
    }
}

/// The start address of index record `k`.
pub open spec fn entry_start(d: Seq<u8>, first: u32, k: int) -> u32 {
    index_entry(d, first, k)->Some_0.0
}

/// Index record `k` is the one a lookup of `ip` answers with: its range
/// starts at or below `ip`, every earlier one strictly below, and the next
/// one (if any) above `ip` unless `ip` is exactly this start; the answer
/// holds this record's offset, end address and texts, and its start address
/// and index offset exactly when `ip` is the start or not past the end.
pub open spec fn answers_with(d: Seq<u8>, first: u32, total: u32, ip: u32, k: int, loc: IPLocationView) -> bool {
    &&& 0 <= k < total
    &&& index_entry(d, first, k) is Some
    &&& entry_start(d, first, k) <= ip
    &&& forall|j: int| 0 <= j < k ==> #[trigger] index_entry(d, first, j) is Some && entry_start(d, first, j) < ip
    &&& (ip == entry_start(d, first, k) || k + 1 == total || (index_entry(d, first, k + 1) is Some && ip < entry_start(
        d,
        first,
        k + 1,
    )))
    &&& loc.record_offset == index_entry(d, first, k)->Some_0.1
    &&& record_at(d, loc.record_offset) == Some((loc.end_ip, loc.country, loc.area))
    &&& if ip == entry_start(d, first, k) || ip <= loc.end_ip {
        loc.start_ip == entry_start(d, first, k) && loc.index_offset == first + 7 * k
    } else {
        loc.start_ip == 0 && loc.index_offset == 0
    }
}

proof fn lemma_scan_answers(d: Seq<u8>, first: u32, total: u32, ip: u32, k: int, right_edge: bool)
    requires
        scan(d, first, total, ip, k, right_edge) is Some,
        forall|j: int| 0 <= j < k ==> #[trigger] index_entry(d, first, j) is Some && entry_start(d, first, j) < ip,
        right_edge ==> (0 <= k && k + 1 < total && index_entry(d, first, k) is Some && entry_start(d, first, k) < ip
            && index_entry(d, first, k + 1) is Some && ip < entry_start(d, first, k + 1)),
    ensures
        exists|k2: int| answers_with(d, first, total, ip, k2, scan(d, first, total, ip, k, right_edge)->Some_0),
    decreases (if right_edge { 0int } else { 1int }), (if right_edge { k } else { total - k }),
{
    let r = scan(d, first, total, ip, k, right_edge)->Some_0;
    let idx = (first + 7 * k) as u32;
    let start = u32_at(d, idx as int, 4)->Some_0;
    let rec = u32_at(d, idx + 4, 3)->Some_0;
    assert(index_entry(d, first, k) == Some((start, rec)));
    if ip == start {
        assert(answers_with(d, first, total, ip, k, r));
    } else if ip < start {
        assert(k > 0);
        assert(index_entry(d, first, k - 1) is Some && entry_start(d, first, k - 1) < ip);
        lemma_scan_answers(d, first, total, ip, k - 1, true);
    } else if right_edge || k + 1 == total {
        assert(answers_with(d, first, total, ip, k, r));
    } else {
        assert forall|j: int| 0 <= j < k + 1 implies #[trigger] index_entry(d, first, j) is Some && entry_start(
            d,
            first,
            j,
        ) < ip by {
            if j == k {
                assert(entry_start(d, first, k) == start);
            }
        }
        lemma_scan_answers(d, first, total, ip, k + 1, false);
    }
}

/// Whether the index lists its ranges by strictly rising start address.
pub open spec fn index_sorted(d: Seq<u8>, first: u32, total: u32) -> bool {
    forall|i: int, j: int|
        0 <= i < j < total ==> #[trigger] index_entry(d, first, i) is Some && #[trigger] index_entry(d, first, j) is Some
            && entry_start(d, first, i) < entry_start(d, first, j)
}

/// A lookup of a nonzero address answers with one index record (see
/// [`answers_with`]): one whose range starts at or below the address, all
/// earlier ones starting below it. The start address of the answer, when
/// set, is at most the address, and the address is then at most the end
/// address unless it is the start itself. With a sorted index, the record is
/// the last one whose start is at most the address.
pub proof fn law_lookup_answers(db: QQWryView, s_ip: Seq<char>)
    requires
        lookup(db, s_ip) is Some,
        ip_text_value(s_ip) != 0,
    ensures
        exists|k: int|
            answers_with(db.data, db.first_index_offset, db.total_index_records, ip_text_value(s_ip), k, lookup(db, s_ip)->Some_0),
        index_sorted(db.data, db.first_index_offset, db.total_index_records) ==> exists|k: int|
            answers_with(db.data, db.first_index_offset, db.total_index_records, ip_text_value(s_ip), k, lookup(db, s_ip)->Some_0)
                && forall|j: int|
                k < j < db.total_index_records ==> ip_text_value(s_ip) < #[trigger] entry_start(
                    db.data,
                    db.first_index_offset,
                    j,
                ),
{
    let d = db.data;
    let f = db.first_index_offset;
    let t = db.total_index_records;
    let ip = ip_text_value(s_ip);
    lemma_scan_answers(d, f, t, ip, 0, false);
    let k = choose|k: int| answers_with(d, f, t, ip, k, lookup(db, s_ip)->Some_0);
    if index_sorted(d, f, t) {
        assert forall|j: int| k < j < t implies ip < #[trigger] entry_start(d, f, j) by {
            assert(index_entry(d, f, k) is Some && index_entry(d, f, j) is Some);
            if ip != entry_start(d, f, k) && j > k + 1 {
                assert(index_entry(d, f, k + 1) is Some && index_entry(d, f, j) is Some);
            }
        }
    }
}

/// What looking up the text `s_ip` gives: `None` where the lookup fails
/// (a read outside the data, or text that cannot be converted).
pub open spec fn lookup(db: QQWryView, s_ip: Seq<char>) -> Option<IPLocationView> {
    if ip_text_unconvertible(s_ip) {
        None
    } else if ip_text_value(s_ip) == 0 {
        Some(empty_location())
    } else {
        scan(db.data, db.first_index_offset, db.total_index_records, ip_text_value(s_ip), 0, false)
    }
}

/// A QQWry database held in memory.
pub struct QQWry {
    pub file: String,
    m: Vec<u8>,
    m_idx: usize,
    first_index_offset: u32,
    total_index_records: u32,
}

impl View for QQWry {
    type V = QQWryView;

    closed spec fn view(&self) -> QQWryView {
        QQWryView {
            file: self.file@,
            data: self.m@,
            first_index_offset: self.first_index_offset,
            total_index_records: self.total_index_records,
        }
    }
}

/// Whether `data` starts with a usable header (see [`QQWry::from`]).
pub fn header_is_valid(data: &[u8]) -> (r: bool)
    ensures
        r == header_ok(data@),
{
    if data.len() < 8 {
        return false;
    }
    let first = tou32(&slice_range(data, 0, 4));
    let last = tou32(&slice_range(data, 4, 8));
    first <= last
}

proof fn lemma_le_u32_three(b: Seq<u8>)
    requires
        b.len() == 3,
    ensures
        le_u32(b) < 0x1000000,
{
    let (x0, x1, x2) = (b[0], b[1], b[2]);
    assert(((x2 as u32) << 16u32 | (x1 as u32) << 8u32 | (x0 as u32)) < 0x1000000u32) by (bit_vector);
}

/// A copy of `d[a..b]`.
fn slice_range(d: &[u8], a: usize, b: usize) -> (r: Vec<u8>)
    requires
        a <= b <= d@.len(),
    ensures
        r@ == d@.subrange(a as int, b as int),
{
    let mut r: Vec<u8> = Vec::new();
    let mut i = a;
    while i < b
        invariant
            a <= i <= b <= d@.len(),
            r@ == d@.subrange(a as int, i as int),
        decreases b - i,
    {
        r.push(d[i]);
        assert(d@.subrange(a as int, i + 1) =~= d@.subrange(a as int, i as int).push(d@[i as int]));
        i = i + 1;
    }
    r
}

/// The number in the `n` bytes at `pos`, when they lie in `d`.
fn read_u32(d: &[u8], pos: usize, n: usize) -> (r: Option<u32>)
    requires
        n == 3 || n == 4,
    ensures
        r == u32_at(d@, pos as int, n as int),
{
    if pos > d.len() || n > d.len() - pos {
        return None;
    }
    Some(tou32(&slice_range(d, pos, pos + n)))
}

fn read_byte(d: &[u8], pos: usize) -> (r: Option<u8>)
    ensures
        r == byte_at(d@, pos as int),
{
    if pos < d.len() {
        Some(d[pos])
    } else {
        None
    }
}

impl QQWry {
    /// Loads a database from its bytes; `file` names where they came from.
    pub fn from(file: String, data: Vec<u8>) -> (r: QQWry)
        requires
            header_ok(data@),
        ensures
            r@.file == file@,
            r@.data == data@,
            r@.first_index_offset == le_u32(data@.subrange(0, 4)),
            r@.total_index_records == index_count(data@),
            qqwry_wf(r@),
    {
        let first_index_offset = tou32(&slice_range(&data, 0, 4));
        let last_index_offset = tou32(&slice_range(&data, 4, 8));
        let total_index_records = (last_index_offset - first_index_offset) / 7 + 1;
        QQWry { file, m: data, m_idx: 8, first_index_offset, total_index_records }
    }

    fn read_as_string(&mut self) -> (r: Option<String>)
        ensures
            final(self)@ == old(self)@,
            r is Some <==> string_at(old(self)@.data, old(self).m_idx as int) is Some,
            r matches Some(t) ==> (t@, final(self).m_idx as int) == string_at(old(self)@.data, old(self).m_idx as int).unwrap(),
    {
        let start = self.m_idx;
        let mut idx_1 = self.m_idx;
        while idx_1 < self.m.len() && self.m[idx_1] != 0
            invariant
                start <= idx_1,
                self@ == old(self)@,
                start == old(self).m_idx,
                first_nul(self.m@, idx_1 as int) == first_nul(self.m@, start as int),
            decreases self.m@.len() - idx_1,
        {
            idx_1 = idx_1 + 1;
        }
        if idx_1 >= self.m.len() {
            return None;
        }
        let s = decode_gb2312(&slice_range(&self.m, start, idx_1));
        self.m_idx = idx_1 + 1;
        Some(s)
    }

    /// Looks up the location of the address written as `s_ip`. `None` where
    /// the lookup fails: the text has fewer than three pieces that are all
    /// bytes, or a read falls outside the data.
    pub fn read_ip_location(&mut self, s_ip: &str) -> (r: Option<IPLocation>)
        requires
            qqwry_wf(old(self)@),
        ensures
            final(self)@ == old(self)@,
            r is Some <==> lookup(old(self)@, s_ip@) is Some,
            r matches Some(loc) ==> lookup(old(self)@, s_ip@) == Some(loc@),
    {
        if !ip_text_is_convertible(s_ip) {
            return None;
        }
        let ip = ip_to_u32(s_ip);
        let mut result = IPLocation {
            index_offset: 0,
            start_ip: 0,
            end_ip: 0,
            record_offset: 0,
            country: String::new(),
            area: String::new(),
        };
        if ip == 0 {
            assert(result@ =~= empty_location());
            return Some(result);
        }
        let ghost d = self.m@;
        let ghost first = self.first_index_offset;
        let ghost total = self.total_index_records;
        let ghost goal = scan(d, first, total, ip, 0, false);
        let ghost last = le_u32(d.subrange(4, 8));
        let mut i: u32 = 0;
        let mut right_edge = false;
        loop
            invariant
                self@ == old(self)@,
                qqwry_wf(self@),
                d == self.m@,
                first == self.first_index_offset,
                total == self.total_index_records,
                last == le_u32(d.subrange(4, 8)),
                first <= last,
                total == (last - first) / 7 + 1,
                i < total,
                goal == lookup(old(self)@, s_ip@),
                scan(d, first, total, ip, i as int, right_edge) == goal,
                ip != 0,
                result.index_offset == 0,
                result.start_ip == 0,
            decreases (if right_edge { 0int } else { 1int }), (if right_edge { i as int } else { total - i }),
        {
            assert(7 * i <= last - first) by (nonlinear_arith)
                requires
                    i < total,
                    total == (last - first) / 7 + 1,
                    first <= last,
            ;
            let index_offset = self.first_index_offset + i * 7;
            self.m_idx = index_offset as usize;
            let start_ip = match read_u32(&self.m, self.m_idx, 4) {
                Some(v) => v,
                None => return None,
            };
            let len = self.m.len();
            assert(self.m_idx + 4 <= len);
            let rec = match read_u32(&self.m, self.m_idx + 4, 3) {
                Some(v) => v,
                None => return None,
            };
            assert(self.m_idx + 7 <= len);
            self.m_idx = self.m_idx + 7;
            if ip == start_ip {
                let (end_ip, country, area) = match self.read_location(&rec) {
                    Some(t) => t,
                    None => return None,
                };
                result.record_offset = rec;
                result.end_ip = end_ip;
                result.country = country;
                result.area = area;
                result.index_offset = index_offset;
                result.start_ip = start_ip;
                return Some(result);
            }
            if ip < start_ip {
                if i == 0 {
                    return None;
                }
                i = i - 1;
                right_edge = true;
                continue;
            }
            if right_edge || i + 1 == self.total_index_records {
                let (end_ip, country, area) = match self.read_location(&rec) {
                    Some(t) => t,
                    None => return None,
                };
                result.record_offset = rec;
                result.end_ip = end_ip;
                result.country = country;
                result.area = area;
                if ip <= result.end_ip {
                    result.index_offset = index_offset;
                    result.start_ip = start_ip;
                }
                return Some(result);
            }
            i = i + 1;
        }
    }

    fn read_location(&mut self, record_offset: &u32) -> (r: Option<(u32, String, String)>)
        ensures
            final(self)@ == old(self)@,
            r is Some <==> record_at(old(self)@.data, *record_offset) is Some,
            r matches Some((e, c, a)) ==> record_at(old(self)@.data, *record_offset) == Some((e, c@, a@)),
    {
        let ghost d = self.m@;
        let len = self.m.len();
        self.m_idx = *record_offset as usize;
        let end_ip = match read_u32(&self.m, self.m_idx, 4) {
            Some(v) => v,
            None => return None,
        };
        self.m_idx = self.m_idx + 4;
        let b1 = match read_byte(&self.m, self.m_idx) {
            Some(b) => b,
            None => return None,
        };
        assert(self.m_idx < len);
        self.m_idx = self.m_idx + 1;
        if b1 == 0x01 || b1 == 0x02 {
            let data_offset = match read_u32(&self.m, self.m_idx, 3) {
                Some(v) => v,
                None => return None,
            };
            proof {
                lemma_le_u32_three(d.subrange(*record_offset + 5, *record_offset + 8));
            }
            self.m_idx = data_offset as usize;
            if b1 == 0x01 {
                let b2 = match read_byte(&self.m, self.m_idx) {
                    Some(b) => b,
                    None => return None,
                };
                assert(self.m_idx < len);
                self.m_idx = self.m_idx + 1;
                let area_offset: u64;
                let country: String;
                if b2 == 0x02 {
                    area_offset = (data_offset + 4) as u64;
                    let data_offset2 = match read_u32(&self.m, self.m_idx, 3) {
                        Some(v) => v,
                        None => return None,
                    };
                    self.m_idx = data_offset2 as usize;
                    country = match self.read_as_string() {
                        Some(t) => t,
                        None => return None,
                    };
                } else {
                    self.m_idx = self.m_idx - 1;
                    country = match self.read_as_string() {
                        Some(t) => t,
                        None => return None,
                    };
                    area_offset = self.m_idx as u64;
                }
                self.m_idx = area_offset as usize;
                let area = match self.read_as_area() {
                    Some(t) => t,
                    None => return None,
                };
                Some((end_ip, country, area))
            } else {
                let country = match self.read_as_string() {
                    Some(t) => t,
                    None => return None,
                };
                let area = match self.read_as_area() {
                    Some(t) => t,
                    None => return None,
                };
                Some((end_ip, country, area))
            }
        } else {
            self.m_idx = self.m_idx - 1;
            let country = match self.read_as_string() {
                Some(t) => t,
                None => return None,
            };
            let area = match self.read_as_area() {
                Some(t) => t,
                None => return None,
            };
            Some((end_ip, country, area))
        }
    }

    fn read_as_area(&mut self) -> (r: Option<String>)
        ensures
            final(self)@ == old(self)@,
            r is Some <==> area_at(old(self)@.data, old(self).m_idx as int) is Some,
            r matches Some(t) ==> t@ == area_at(old(self)@.data, old(self).m_idx as int).unwrap(),
    {
        let b1 = match read_byte(&self.m, self.m_idx) {
            Some(b) => b,
            None => return None,
        };
        let len = self.m.len();
        assert(self.m_idx < len);
        self.m_idx = self.m_idx + 1;
        if b1 == 0x01 || b1 == 0x02 {
            let data_offset = match read_u32(&self.m, self.m_idx, 3) {
                Some(v) => v,
                None => return None,
            };
            assert(self.m_idx + 3 <= len);
            self.m_idx = self.m_idx + 3;
            if data_offset == 0 {
                let cs = ['u', 'n', 'k', 'n', 'o', 'w', 'n', '.', 'a', 'r', 'e', 'a'];
                let u = crate::text::string_from_chars(&cs);
                assert(u@ =~= unknown_area());
                return Some(u);
            }
            self.m_idx = data_offset as usize;
            self.read_as_string()
        } else {
            self.m_idx = self.m_idx - 1;
            self.read_as_string()
        }
    }
}

} // verus!
