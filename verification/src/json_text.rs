//! The compact text of a JSON value, as `serde_json` writes it with
//! `to_string`: members of an object in the order of their keys.

use vstd::prelude::*;
use crate::json::{Json, JsonV, JsonMap, json_escape, scalar_text, scalar_to_text, lemma_json_view, lemma_seq_view};
use crate::text::{chars_of, string_push, push_str};

verus! {

/// The order of Rust's `String`: texts compared character by character,
/// a proper prefix first.
pub open spec fn text_less(a: Seq<char>, b: Seq<char>) -> bool
    decreases a.len(),
{
    if a.len() == 0 {
        b.len() > 0
    } else if b.len() == 0 {
        false
    } else if a[0] != b[0] {
        (a[0] as int) < (b[0] as int)
    } else {
        text_less(a.drop_first(), b.drop_first())
    }
}

proof fn lemma_text_less_irreflexive(a: Seq<char>)
    ensures
        !text_less(a, a),
    decreases a.len(),
{
    if a.len() > 0 {
        lemma_text_less_irreflexive(a.drop_first());
    }
}

proof fn lemma_text_less_transitive(a: Seq<char>, b: Seq<char>, c: Seq<char>)
    requires
        text_less(a, b),
        text_less(b, c),
    ensures
        text_less(a, c),
    decreases a.len(),
{
    if a.len() > 0 && b.len() > 0 && c.len() > 0 {
        if a[0] == b[0] && b[0] == c[0] {
            lemma_text_less_transitive(a.drop_first(), b.drop_first(), c.drop_first());
        }
    }
}

proof fn lemma_text_less_total(a: Seq<char>, b: Seq<char>)
    requires
        a != b,
    ensures
        text_less(a, b) || text_less(b, a),
    decreases a.len(),
{
    if a.len() > 0 && b.len() > 0 && a[0] == b[0] {
        if a.drop_first() == b.drop_first() {
            assert(a =~= seq![a[0]] + a.drop_first());
            assert(b =~= seq![b[0]] + b.drop_first());
        }
        lemma_text_less_total(a.drop_first(), b.drop_first());
    } else if a.len() > 0 && b.len() > 0 {
        assert((a[0] as int) != (b[0] as int));
    } else if a.len() == 0 && b.len() == 0 {
        assert(a =~= b);
    }
}

/// Texts in strictly increasing order.
pub open spec fn sorted_texts(s: Seq<Seq<char>>) -> bool {
    forall|i: int, j: int| 0 <= i < j < s.len() ==> text_less(#[trigger] s[i], #[trigger] s[j])
}

/// The keys of an object in the order in which `serde_json` holds them.
pub open spec fn sorted_keys(m: Map<Seq<char>, JsonV>) -> Seq<Seq<char>> {
    choose|s: Seq<Seq<char>>| sorted_texts(s) && s.to_set() == m.dom()
}

proof fn lemma_sorted_unique(s1: Seq<Seq<char>>, s2: Seq<Seq<char>>)
    requires
        sorted_texts(s1),
        sorted_texts(s2),
        s1.to_set() == s2.to_set(),
    ensures
        s1 == s2,
    decreases s1.len(),
{
    if s1.len() == 0 {
        if s2.len() > 0 {
            assert(s2.to_set().contains(s2[0]));
        }
        assert(s1 =~= s2);
    } else {
        assert(s1.to_set().contains(s1[0]));
        assert(s2.len() > 0);
        assert(s2.to_set().contains(s2[0]));
        // the first elements are the least of the same set
        let i2 = choose|i: int| 0 <= i < s2.len() && s2[i] == s1[0];
        let i1 = choose|i: int| 0 <= i < s1.len() && s1[i] == s2[0];
        if i2 > 0 {
            assert(text_less(s2[0], s2[i2]));
            if i1 > 0 {
                assert(text_less(s1[0], s1[i1]));
                lemma_text_less_transitive(s1[0], s2[0], s1[0]);
                lemma_text_less_irreflexive(s1[0]);
            } else {
                lemma_text_less_irreflexive(s1[0]);
            }
        }
        assert(s1[0] == s2[0]);
        let t1 = s1.drop_first();
        let t2 = s2.drop_first();
        assert(sorted_texts(t1)) by {
            assert forall|i: int, j: int| 0 <= i < j < t1.len() implies text_less(#[trigger] t1[i], #[trigger] t1[j]) by {
                assert(t1[i] == s1[i + 1] && t1[j] == s1[j + 1]);
            }
        }
        assert(sorted_texts(t2)) by {
            assert forall|i: int, j: int| 0 <= i < j < t2.len() implies text_less(#[trigger] t2[i], #[trigger] t2[j]) by {
                assert(t2[i] == s2[i + 1] && t2[j] == s2[j + 1]);
            }
        }
        assert(t1.to_set() =~= t2.to_set()) by {
            assert forall|x: Seq<char>| t1.to_set().contains(x) implies t2.to_set().contains(x) by {
                let i = choose|i: int| 0 <= i < t1.len() && t1[i] == x;
                assert(s1[i + 1] == x);
                assert(s1.to_set().contains(x));
                assert(s2.to_set().contains(x));
                let j = choose|j: int| 0 <= j < s2.len() && s2[j] == x;
                if j == 0 {
                    assert(text_less(s1[0], s1[i + 1]));
                    lemma_text_less_irreflexive(x);
                }
                assert(t2[j - 1] == x);
            }
            assert forall|x: Seq<char>| t2.to_set().contains(x) implies t1.to_set().contains(x) by {
                let i = choose|i: int| 0 <= i < t2.len() && t2[i] == x;
                assert(s2[i + 1] == x);
                assert(s2.to_set().contains(x));
                assert(s1.to_set().contains(x));
                let j = choose|j: int| 0 <= j < s1.len() && s1[j] == x;
                if j == 0 {
                    assert(text_less(s2[0], s2[i + 1]));
                    lemma_text_less_irreflexive(x);
                }
                assert(t1[j - 1] == x);
            }
        }
        lemma_sorted_unique(t1, t2);
        assert(s1 =~= seq![s1[0]] + t1);
        assert(s2 =~= seq![s2[0]] + t2);
    }
}


/// The compact text of a value: scalars as `serde_json` writes them, a
/// string in quotes, the elements of an array between brackets and the
/// members of an object between braces, each `"key":value`, in key order,
/// all separated by commas.
pub open spec fn json_text(j: JsonV) -> Seq<char>
    decreases j, 0int,
{
    match j {
        JsonV::Str(s) => seq!['"'] + json_escape(s) + seq!['"'],
        JsonV::Array(a) => seq!['['] + items_text(a) + seq![']'],
        JsonV::Object(m) => seq!['{'] + members_text(m, sorted_keys(m)) + seq!['}'],
        _ => match scalar_text(j) {
            Some(t) => t,
            None => Seq::empty(),
        },
    }
}

/// The texts of the elements, separated by commas.
pub open spec fn items_text(a: Seq<JsonV>) -> Seq<char>
    decreases a, 0int,
{
    if a.len() == 0 {
        Seq::empty()
    } else if a.len() == 1 {
        json_text(a[0])
    } else {
        items_text(a.drop_last()) + seq![','] + json_text(a.last())
    }
}

/// The text of one member.
pub open spec fn member_entry(m: Map<Seq<char>, JsonV>, k: Seq<char>) -> Seq<char>
    decreases m, 0int,
{
    if m.dom().finite() && m.contains_key(k) {
        seq!['"'] + json_escape(k) + seq!['"', ':'] + json_text(m[k])
    } else {
        Seq::empty()
    }
}

/// The members under the keys `ks`, in that order, separated by commas.
pub open spec fn members_text(m: Map<Seq<char>, JsonV>, ks: Seq<Seq<char>>) -> Seq<char>
    decreases m, ks.len() + 1,
{
    if ks.len() == 0 {
        Seq::empty()
    } else if ks.len() == 1 {
        member_entry(m, ks[0])
    } else {
        members_text(m, ks.drop_last()) + seq![','] + member_entry(m, ks.last())
    }
}


pub open spec fn key_texts(v: Seq<String>) -> Seq<Seq<char>> {
    v.map_values(|t: String| t@)
}

fn text_less_exec(a: &str, b: &str) -> (r: bool)
    ensures
        r == text_less(a@, b@),
{
    let x = chars_of(a);
    let y = chars_of(b);
    let mut i: usize = 0;
    assert(x@.skip(0) =~= x@ && y@.skip(0) =~= y@);
    loop
        invariant
            i <= x@.len(),
            i <= y@.len(),
            x@ == a@,
            y@ == b@,
            text_less(a@, b@) == text_less(x@.skip(i as int), y@.skip(i as int)),
        decreases x@.len() - i,
    {
        let ghost xs = x@.skip(i as int);
        let ghost ys = y@.skip(i as int);
        if i == x.len() {
            return i < y.len();
        }
        if i == y.len() {
            return false;
        }
        assert(xs[0] == x@[i as int] && ys[0] == y@[i as int]);
        let cx = x[i];
        let cy = y[i];
        if cx != cy {
            return cy > cx;
        }
        assert(xs.drop_first() =~= x@.skip(i + 1));
        assert(ys.drop_first() =~= y@.skip(i + 1));
        i = i + 1;
    }
}

proof fn lemma_key_texts_insert(v: Seq<String>, p: int, k: String)
    requires
        0 <= p <= v.len(),
    ensures
        key_texts(v.insert(p, k)) == key_texts(v).insert(p, k@),
{
    v.insert_ensures(p, k);
    key_texts(v).insert_ensures(p, k@);
    assert(key_texts(v.insert(p, k)) =~= key_texts(v).insert(p, k@));
}

/// The keys of the object, in increasing order.
fn sorted_key_list(m: &JsonMap) -> (r: Vec<String>)
    ensures
        sorted_texts(key_texts(r@)),
        key_texts(r@).to_set() == m@.dom(),
{
    let n = m.len();
    let mut out: Vec<String> = Vec::new();
    let mut i: usize = 0;
    while i < n
        invariant
            i <= n,
            n == m@.dom().len(),
            forall|x: Seq<char>| #[trigger] m@.contains_key(x) ==> exists|j: int| 0 <= j < n && m.key_at(j) == x,
            forall|j: int| 0 <= j < n ==> m@.contains_key(#[trigger] m.key_at(j)),
            sorted_texts(key_texts(out@)),
            key_texts(out@).len() == out@.len(),
            forall|x: Seq<char>| key_texts(out@).contains(x) <==> exists|j: int| 0 <= j < i && #[trigger] m.key_at(j) == x,
        decreases n - i,
    {
        let (k, _v) = m.entry_at(i);
        let ghost kv = key_texts(out@);
        let mut p: usize = 0;
        while p < out.len() && text_less_exec(out[p].as_str(), k.as_str())
            invariant
                p <= out@.len(),
                kv == key_texts(out@),
                forall|q: int| 0 <= q < p ==> text_less(#[trigger] kv[q], k@),
            decreases out@.len() - p,
        {
            assert(kv[p as int] == out@[p as int]@);
            p = p + 1;
        }
        assert(!kv.contains(k@)) by {
            if kv.contains(k@) {
                let j = choose|j: int| 0 <= j < i && #[trigger] m.key_at(j) == k@;
                assert(m.key_at(j) != k@);
            }
        }
        assert(p < kv.len() ==> text_less(k@, kv[p as int])) by {
            if p < kv.len() {
                assert(kv[p as int] == out@[p as int]@);
                assert(!text_less(kv[p as int], k@));
                assert(kv[p as int] != k@);
                lemma_text_less_total(kv[p as int], k@);
            }
        }
        let ghost before = out@;
        out.insert(p, k);
        proof {
            lemma_key_texts_insert(before, p as int, k);
            let nv = kv.insert(p as int, k@);
            kv.insert_ensures(p as int, k@);
            assert(key_texts(out@) == nv);
            assert forall|a: int, b: int| 0 <= a < b < nv.len() implies text_less(#[trigger] nv[a], #[trigger] nv[b]) by {
                if b < p {
                    assert(nv[a] == kv[a] && nv[b] == kv[b]);
                } else if b == p {
                    assert(nv[a] == kv[a]);
                } else if a < p {
                    assert(nv[a] == kv[a] && nv[b] == kv[b - 1]);
                    if b - 1 == p as int {
                        lemma_text_less_transitive(kv[a], k@, kv[b - 1]);
                    } else {
                        lemma_text_less_transitive(k@, kv[p as int], kv[b - 1]);
                        lemma_text_less_transitive(kv[a], k@, kv[b - 1]);
                    }
                } else if a == p {
                    assert(nv[b] == kv[b - 1]);
                    if b - 1 > p {
                        lemma_text_less_transitive(k@, kv[p as int], kv[b - 1]);
                    }
                } else {
                    assert(nv[a] == kv[a - 1] && nv[b] == kv[b - 1]);
                }
            }
            assert forall|x: Seq<char>| nv.contains(x) <==> exists|j: int| 0 <= j < i + 1 && #[trigger] m.key_at(j) == x by {
                if nv.contains(x) {
                    let q = choose|q: int| 0 <= q < nv.len() && nv[q] == x;
                    if q < p {
                        assert(kv[q] == x);
                        assert(kv.contains(x));
                    } else if q == p {
                        assert(m.key_at(i as int) == x);
                    } else {
                        assert(kv[q - 1] == x);
                        assert(kv.contains(x));
                    }
                }
                if exists|j: int| 0 <= j < i + 1 && #[trigger] m.key_at(j) == x {
                    let j = choose|j: int| 0 <= j < i + 1 && #[trigger] m.key_at(j) == x;
                    if j == i {
                        assert(nv[p as int] == x);
                    } else {
                        assert(kv.contains(x));
                        let q = choose|q: int| 0 <= q < kv.len() && kv[q] == x;
                        if q < p {
                            assert(nv[q] == x);
                        } else {
                            assert(nv[q + 1] == x);
                        }
                    }
                }
            }
        }
        i = i + 1;
    }
    proof {
        let kv = key_texts(out@);
        assert forall|x: Seq<char>| kv.to_set().contains(x) <==> m@.dom().contains(x) by {
            if m@.contains_key(x) {
                let j = choose|j: int| 0 <= j < n && m.key_at(j) == x;
                assert(kv.contains(x));
            }
            if kv.contains(x) {
                let j = choose|j: int| 0 <= j < n && #[trigger] m.key_at(j) == x;
            }
        }
        assert(kv.to_set() =~= m@.dom());
    }
    out
}


proof fn lemma_sorted_keys_are(m: Map<Seq<char>, JsonV>, ks: Seq<Seq<char>>)
    requires
        sorted_texts(ks),
        ks.to_set() == m.dom(),
    ensures
        sorted_keys(m) == ks,
{
    let s = sorted_keys(m);
    assert(sorted_texts(s) && s.to_set() == m.dom());
    lemma_sorted_unique(s, ks);
}

/// The compact text of a value (see [`json_text`]).
pub fn value_text(j: &Json) -> (r: String)
    ensures
        r@ == json_text(j@),
    decreases j@,
{
    proof {
        lemma_json_view(*j);
    }
    match j {
        Json::Str(_) => {
            let t = match scalar_to_text(j) {
                Some(t) => t,
                None => String::new(),
            };
            let mut out = String::new();
            string_push(&mut out, '"');
            push_str(&mut out, t.as_str());
            string_push(&mut out, '"');
            assert(out@ =~= json_text(j@));
            out
        },
        Json::Array(v) => {
            let ghost a = j@->Array_0;
            proof {
                lemma_seq_view(v@);
            }
            let mut out = String::new();
            string_push(&mut out, '[');
            let mut i: usize = 0;
            while i < v.len()
                invariant
                    i <= v@.len(),
                    a.len() == v@.len(),
                    forall|q: int| 0 <= q < v@.len() ==> #[trigger] a[q] == v@[q]@,
                    j@ == JsonV::Array(a),
                    out@ == seq!['['] + items_text(a.take(i as int)),
                decreases v@.len() - i,
            {
                proof {
                    assert(decreases_to!(j@ => j@->Array_0));
                    assert(j@->Array_0 == a);
                    assert(decreases_to!(a => a[i as int]));
                }
                let t = value_text(&v[i]);
                assert(a.take(i + 1).drop_last() =~= a.take(i as int));
                assert(a.take(i + 1).last() == a[i as int]);
                if i > 0 {
                    string_push(&mut out, ',');
                } else {
                    assert(a.take(0) =~= Seq::<JsonV>::empty());
                }
                push_str(&mut out, t.as_str());
                assert(out@ =~= seq!['['] + items_text(a.take(i + 1)));
                i = i + 1;
            }
            assert(a.take(a.len() as int) =~= a);
            string_push(&mut out, ']');
            out
        },
        Json::Object(m) => {
            let ghost mv = m@;
            let n = m.len();
            let ks = sorted_key_list(m);
            let ghost kt = key_texts(ks@);
            proof {
                lemma_sorted_keys_are(mv, kt);
            }
            let mut out = String::new();
            string_push(&mut out, '{');
            let mut i: usize = 0;
            while i < ks.len()
                invariant
                    i <= ks@.len(),
                    kt == key_texts(ks@),
                    kt.len() == ks@.len(),
                    kt.to_set() == mv.dom(),
                    mv == m@,
                    mv.dom().finite(),
                    j@ == JsonV::Object(mv),
                    out@ == seq!['{'] + members_text(mv, kt.take(i as int)),
                decreases ks@.len() - i,
            {
                let k = &ks[i];
                assert(kt[i as int] == k@);
                assert(kt.to_set().contains(k@));
                assert(mv.contains_key(k@));
                let x = match m.get(k.as_str()) {
                    Some(x) => x,
                    None => Json::null(),
                };
                proof {
                    assert(decreases_to!(j@ => j@->Object_0));
                    assert(j@->Object_0 == mv);
                    assert(decreases_to!(mv => mv[k@]));
                }
                let t = value_text(&x);
                let mut e = String::new();
                string_push(&mut e, '"');
                let ks_i = Json::string(k.as_str());
                let esc = match scalar_to_text(&ks_i) {
                    Some(t) => t,
                    None => String::new(),
                };
                push_str(&mut e, esc.as_str());
                string_push(&mut e, '"');
                string_push(&mut e, ':');
                push_str(&mut e, t.as_str());
                assert(e@ =~= member_entry(mv, k@));
                assert(kt.take(i + 1).drop_last() =~= kt.take(i as int));
                assert(kt.take(i + 1).last() == k@);
                if i > 0 {
                    string_push(&mut out, ',');
                } else {
                    assert(kt.take(0) =~= Seq::<Seq<char>>::empty());
                }
                push_str(&mut out, e.as_str());
                assert(out@ =~= seq!['{'] + members_text(mv, kt.take(i + 1)));
                i = i + 1;
            }
            assert(kt.take(kt.len() as int) =~= kt);
            string_push(&mut out, '}');
            out
        },
        _ => match scalar_to_text(j) {
            Some(t) => t,
            None => String::new(),
        },
    }
}

} // verus!
