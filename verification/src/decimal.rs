//! Decimal text of unsigned integers: what `u8::from_str`, `usize::from_str`
//! accept and what `Display` prints for them.

use vstd::prelude::*;

verus! {

pub open spec fn is_digit(c: char) -> bool {
    '0' <= c && c <= '9'
}

pub open spec fn digit_value(c: char) -> nat {
    ((c as int) - ('0' as int)) as nat
}

pub open spec fn all_digits(s: Seq<char>) -> bool {
    forall|i: int| 0 <= i < s.len() ==> is_digit(#[trigger] s[i])
}

/// The number that a string of decimal digits denotes.
pub open spec fn digits_value(s: Seq<char>) -> nat
    decreases s.len(),
{
    if s.len() == 0 {
        0
    } else {
        digits_value(s.drop_last()) * 10 + digit_value(s.last())
    }
}

/// What std's `from_str` gives for an unsigned type whose largest value is
/// `max`: an optional `+`, then one or more decimal digits whose value is at
/// most `max`.
pub open spec fn spec_parse_uint(s: Seq<char>, max: nat) -> Option<nat> {
    let d = if s.len() > 0 && s[0] == '+' { s.drop_first() } else { s };
    if d.len() > 0 && all_digits(d) && digits_value(d) <= max {
        Some(digits_value(d))
    } else {
        None
    }
}

pub open spec fn digit_char(d: nat) -> char {
    (('0' as int) + d) as char
}

/// The decimal text that `Display` prints for `n`: no sign, no leading zero.
pub open spec fn decimal(n: nat) -> Seq<char>
    decreases n,
{
    if n < 10 {
        seq![digit_char(n)]
    } else {
        decimal(n / 10).push(digit_char(n % 10))
    }
}

proof fn lemma_digits_value_prefix(s: Seq<char>, k: int)
    requires
        0 <= k <= s.len(),
    ensures
        digits_value(s.take(k)) <= digits_value(s),
    decreases s.len(),
{
    if k < s.len() {
        assert(s.drop_last().take(k) =~= s.take(k));
        lemma_digits_value_prefix(s.drop_last(), k);
    } else {
        assert(s.take(k) =~= s);
    }
}

pub proof fn lemma_decimal(n: nat)
    ensures
        decimal(n).len() > 0,
        all_digits(decimal(n)),
        digits_value(decimal(n)) == n,
        decimal(n)[0] != '+',
    decreases n,
{
    if n < 10 {
        assert(digits_value(seq![digit_char(n)].drop_last()) == 0) by {
            assert(seq![digit_char(n)].drop_last() =~= Seq::<char>::empty());
        }
    } else {
        lemma_decimal(n / 10);
        let s = decimal(n / 10).push(digit_char(n % 10));
        assert(s.drop_last() =~= decimal(n / 10));
        assert(all_digits(s)) by {
            assert forall|i: int| 0 <= i < s.len() implies is_digit(#[trigger] s[i]) by {
                if i < s.len() - 1 {
                    assert(s[i] == decimal(n / 10)[i]);
                }
            }
        }
    }
}

/// Reading back what `Display` prints gives the number again.
pub proof fn lemma_parse_decimal(n: nat, max: nat)
    requires
        n <= max,
    ensures
        spec_parse_uint(decimal(n), max) == Some(n),
{
    lemma_decimal(n);
}

fn digit_to_char(d: u64) -> (c: char)
    requires
        d < 10,
    ensures
        c == digit_char(d as nat),
{
    match d {
        0 => '0',
        1 => '1',
        2 => '2',
        3 => '3',
        4 => '4',
        5 => '5',
        6 => '6',
        7 => '7',
        8 => '8',
        _ => '9',
    }
}

/// The decimal digits of `n`.
pub fn decimal_chars(n: u64) -> (r: Vec<char>)
    ensures
        r@ == decimal(n as nat),
    decreases n,
{
    if n < 10 {
        let mut r: Vec<char> = Vec::new();
        r.push(digit_to_char(n));
        r
    } else {
        let mut r = decimal_chars(n / 10);
        r.push(digit_to_char(n % 10));
        r
    }
}

/// Appends the decimal text of `n` to `s`.
pub fn push_decimal(s: &mut String, n: u64)
    ensures
        final(s)@ == old(s)@ + decimal(n as nat),
{
    let ds = decimal_chars(n);
    let mut i: usize = 0;
    while i < ds.len()
        invariant
            i <= ds.len(),
            ds@ == decimal(n as nat),
            s@ == old(s)@ + ds@.take(i as int),
        decreases ds.len() - i,
    {
        crate::text::string_push(s, ds[i]);
        assert(ds@.take(i + 1) =~= ds@.take(i as int).push(ds@[i as int]));
        i = i + 1;
    }
    assert(ds@.take(ds@.len() as int) =~= ds@);
}

/// Parses unsigned decimal text as std's `from_str` does for a type whose
/// largest value is `max`.
pub fn parse_uint(cs: &[char], max: u64) -> (r: Option<u64>)
    requires
        max >= 9,
    ensures
        r matches Some(v) ==> spec_parse_uint(cs@, max as nat) == Some(v as nat),
        r is None ==> spec_parse_uint(cs@, max as nat) is None,
{
    let ghost s = cs@;
    let st: usize = if cs.len() > 0 && cs[0] == '+' { 1 } else { 0 };
    let ghost d = if s.len() > 0 && s[0] == '+' { s.drop_first() } else { s };
    assert(d =~= s.skip(st as int));
    if st == cs.len() {
        return None;
    }
    let mut acc: u64 = 0;
    let mut i: usize = st;
    while i < cs.len()
        invariant
            st <= i <= cs.len(),
            d =~= s.skip(st as int),
            d == (if s.len() > 0 && s[0] == '+' { s.drop_first() } else { s }),
            s == cs@,
            max >= 9,
            all_digits(d.take(i - st)),
            acc as nat == digits_value(d.take(i - st)),
            acc <= max,
        decreases cs.len() - i,
    {
        let c = cs[i];
        if !('0' <= c && c <= '9') {
            assert(d[i - st] == c);
            assert(!is_digit(d[i - st]));
            return None;
        }
        let dv: u64 = (c as u32 - '0' as u32) as u64;
        assert(d.take(i - st + 1).drop_last() =~= d.take(i - st));
        assert(d.take(i - st + 1).last() == c);
        if acc > (max - dv) / 10 {
            assert(acc * 10 + dv > max) by (nonlinear_arith)
                requires
                    acc > (max - dv) / 10,
                    dv <= 9,
                    max >= 9,
            ;
            proof {
                assert(digit_value(c) == dv);
                assert(digits_value(d.take(i - st + 1)) == acc * 10 + dv);
                lemma_digits_value_prefix(d, i - st + 1);
            }
            assert(digits_value(d) > max);
            return None;
        }
        assert(acc * 10 + dv <= max) by (nonlinear_arith)
            requires
                acc <= (max - dv) / 10,
                dv <= 9,
                max >= 9,
        ;
        acc = acc * 10 + dv;
        i = i + 1;
        assert(all_digits(d.take(i - st))) by {
            assert forall|k: int| 0 <= k < d.take(i - st).len() implies is_digit(
                #[trigger] d.take(i - st)[k],
            ) by {
                if k < i - st - 1 {
                    assert(d.take(i - st)[k] == d.take(i - st - 1)[k]);
                }
            }
        }
    }
    assert(d.take(i - st) =~= d);
    Some(acc)
}


/// The decimal text of `n`, with zeros in front up to `width` characters.
pub open spec fn zero_padded(n: nat, width: nat) -> Seq<char> {
    let d = decimal(n);
    if d.len() < width {
        Seq::new((width - d.len()) as nat, |i: int| '0') + d
    } else {
        d
    }
}

/// Appends the decimal text of `n`, zero-padded to `width` characters.
pub fn push_padded(s: &mut String, n: u64, width: usize)
    ensures
        final(s)@ == old(s)@ + zero_padded(n as nat, width as nat),
{
    let ds = decimal_chars(n);
    let ghost zeros = if ds@.len() < width { Seq::new((width - ds@.len()) as nat, |i: int| '0') } else { Seq::<char>::empty() };
    let mut k: usize = ds.len();
    while k < width
        invariant
            ds@ == decimal(n as nat),
            ds@.len() <= k <= width || (k == ds@.len() && width < k),
            s@ == old(s)@ + Seq::new((k - ds@.len()) as nat, |i: int| '0'),
        decreases width - k,
    {
        let ghost before = s@;
        crate::text::string_push(s, '0');
        assert(Seq::new((k + 1 - ds@.len()) as nat, |i: int| '0') =~= Seq::new((k - ds@.len()) as nat, |i: int| '0').push('0'));
        k = k + 1;
    }
    assert(Seq::new((k - ds@.len()) as nat, |i: int| '0') =~= zeros);
    let ghost mid = s@;
    let mut i: usize = 0;
    while i < ds.len()
        invariant
            i <= ds.len(),
            ds@ == decimal(n as nat),
            s@ == mid + ds@.take(i as int),
        decreases ds.len() - i,
    {
        crate::text::string_push(s, ds[i]);
        assert(ds@.take(i + 1) =~= ds@.take(i as int).push(ds@[i as int]));
        i = i + 1;
    }
    assert(ds@.take(ds@.len() as int) =~= ds@);
    assert(s@ =~= old(s)@ + zero_padded(n as nat, width as nat));
}

/// How `{}` writes a signed integer.
pub open spec fn signed_decimal(v: int) -> Seq<char> {
    if v < 0 {
        seq!['-'] + decimal((-v) as nat)
    } else {
        decimal(v as nat)
    }
}

/// Appends the decimal text of a signed integer.
pub fn push_signed(s: &mut String, v: i32)
    ensures
        final(s)@ == old(s)@ + signed_decimal(v as int),
{
    let w: i64 = v as i64;
    if w < 0 {
        crate::text::string_push(s, '-');
        let ghost mid = s@;
        let m: u64 = (-w) as u64;
        push_decimal(s, m);
        assert(s@ =~= old(s)@ + signed_decimal(v as int));
    } else {
        push_decimal(s, w as u64);
    }
}

} // verus!
