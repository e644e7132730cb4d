//! A JSON value model with the indexing semantics of `serde_json::Value`.

use vstd::prelude::*;
use crate::text::{str_eq, string_push};

verus! {

pub enum NumberV {
    PosInt(u64),
    NegInt(i64),
    Float(Seq<char>),
}

pub enum JsonV {
    Null,
    Bool(bool),
    Number(NumberV),
    Str(Seq<char>),
    Array(Seq<JsonV>),
    Object(Map<Seq<char>, JsonV>),
}

/// A JSON number: a non-negative or a negative integer, or a floating-point
/// number held as its decimal text.
pub enum JsonNumber {
    PosInt(u64),
    NegInt(i64),
    Float(String),
}

pub enum Json {
    Null,
    Bool(bool),
    Number(JsonNumber),
    Str(String),
    Array(Vec<Json>),
    Object(JsonMap),
}

/// The members of a JSON object, each key once.
pub struct JsonMap {
    entries: Vec<(String, Json)>,
}

impl JsonMap {
    #[verifier::type_invariant]
    spec fn keys_unique(self) -> bool {
        forall|i: int, j: int|
            0 <= i < j < self.entries@.len() ==> #[trigger] self.entries@[i].0@ != #[trigger] self.entries@[j].0@
    }
}

pub open spec fn number_view(n: JsonNumber) -> NumberV {
    match n {
        JsonNumber::PosInt(v) => NumberV::PosInt(v),
        JsonNumber::NegInt(v) => NumberV::NegInt(v),
        JsonNumber::Float(t) => NumberV::Float(t@),
    }
}

pub closed spec fn json_view(j: Json) -> JsonV
    decreases j,
{
    match j {
        Json::Null => JsonV::Null,
        Json::Bool(b) => JsonV::Bool(b),
        Json::Number(n) => JsonV::Number(number_view(n)),
        Json::Str(s) => JsonV::Str(s@),
        Json::Array(v) => JsonV::Array(seq_view(v@)),
        Json::Object(m) => JsonV::Object(entries_view(m.entries@)),
    }
}

pub closed spec fn seq_view(s: Seq<Json>) -> Seq<JsonV>
    decreases s,
{
    if s.len() == 0 {
        Seq::empty()
    } else {
        seq_view(s.drop_last()).push(json_view(s.last()))
    }
}

pub closed spec fn entries_view(s: Seq<(String, Json)>) -> Map<Seq<char>, JsonV>
    decreases s,
{
    if s.len() == 0 {
        Map::empty()
    } else {
        entries_view(s.drop_last()).insert(s.last().0@, json_view(s.last().1))
    }
}


impl View for Json {
    type V = JsonV;

    open spec fn view(&self) -> JsonV {
        json_view(*self)
    }
}

impl View for JsonMap {
    type V = Map<Seq<char>, JsonV>;

    closed spec fn view(&self) -> Map<Seq<char>, JsonV> {
        entries_view(self.entries@)
    }
}

pub proof fn lemma_seq_view(s: Seq<Json>)
    ensures
        seq_view(s).len() == s.len(),
        forall|i: int| 0 <= i < s.len() ==> #[trigger] seq_view(s)[i] == json_view(s[i]),
    decreases s.len(),
{
    if s.len() > 0 {
        lemma_seq_view(s.drop_last());
    }
}

proof fn lemma_entries_view(s: Seq<(String, Json)>)
    ensures
        entries_view(s).dom().finite(),
        forall|k: Seq<char>| #[trigger] entries_view(s).contains_key(k) <==> exists|i: int| 0 <= i < s.len() && s[i].0@ == k,
        forall|i: int|
            0 <= i < s.len() && (forall|j: int| i < j < s.len() ==> s[j].0@ != s[i].0@) ==> #[trigger] entries_view(s)[s[i].0@]
                == json_view(s[i].1),
    decreases s.len(),
{
    if s.len() > 0 {
        let t = s.drop_last();
        lemma_entries_view(t);
        assert forall|k: Seq<char>| #[trigger] entries_view(s).contains_key(k) <==> exists|i: int| 0 <= i < s.len() && s[i].0@ == k by {
            if entries_view(s).contains_key(k) {
                if k == s.last().0@ {
                    assert(s[s.len() - 1].0@ == k);
                } else {
                    let i = choose|i: int| 0 <= i < t.len() && t[i].0@ == k;
                    assert(s[i].0@ == k);
                }
            }
            if exists|i: int| 0 <= i < s.len() && s[i].0@ == k {
                let i = choose|i: int| 0 <= i < s.len() && s[i].0@ == k;
                if i < t.len() {
                    assert(t[i].0@ == k);
                }
            }
        }
        assert forall|i: int|
            0 <= i < s.len() && (forall|j: int| i < j < s.len() ==> s[j].0@ != s[i].0@) implies #[trigger] entries_view(s)[s[i].0@]
                == json_view(s[i].1) by {
            if i < t.len() {
                assert(s[s.len() - 1].0@ != s[i].0@);
                assert(t[i] == s[i]);
                assert forall|j: int| i < j < t.len() implies t[j].0@ != t[i].0@ by {
                    assert(s[j] == t[j]);
                }
            }
        }
    }
}

impl JsonMap {
    /// An object without members.
    pub fn new() -> (r: JsonMap)
        ensures
            r@ == Map::<Seq<char>, JsonV>::empty(),
    {
        JsonMap { entries: Vec::new() }
    }

    /// The number of members.
    pub fn len(&self) -> (r: usize)
        ensures
            r == self@.dom().len(),
            self@.dom().finite(),
            forall|k: Seq<char>| #[trigger] self@.contains_key(k) ==> exists|i: int| 0 <= i < r && self.key_at(i) == k,
            forall|i: int| 0 <= i < r ==> self@.contains_key(#[trigger] self.key_at(i)),
    {
        proof {
            use_type_invariant(self);
            self.lemma_dom_len();
            lemma_entries_view(self.entries@);
            assert forall|k: Seq<char>| #[trigger] self@.contains_key(k) implies exists|i: int| 0 <= i < self.entries@.len() && self.key_at(i) == k by {
                let i = choose|i: int| 0 <= i < self.entries@.len() && self.entries@[i].0@ == k;
                assert(self.key_at(i) == k);
            }
            assert forall|i: int| 0 <= i < self.entries@.len() implies self@.contains_key(#[trigger] self.key_at(i)) by {
                assert(self.entries@[i].0@ == self.key_at(i));
            }
        }
        self.entries.len()
    }

    proof fn lemma_dom_len(&self)
        requires
            forall|i: int, j: int|
                0 <= i < j < self.entries@.len() ==> #[trigger] self.entries@[i].0@ != #[trigger] self.entries@[j].0@,
        ensures
            self@.dom().len() == self.entries@.len(),
            self@.dom().finite(),
    {
        lemma_entries_unique_len(self.entries@);
    }

    /// The key and a copy of the value of the member at position `i`; the
    /// positions run over each member once.
    pub fn entry_at(&self, i: usize) -> (r: (String, Json))
        requires
            i < self@.dom().len(),
        ensures
            self@.contains_key(r.0@),
            self@[r.0@] == r.1@,
            forall|j: int| 0 <= j < self@.dom().len() && j != i ==> #[trigger] self.key_at(j) != r.0@,
            r.0@ == self.key_at(i as int),
    {
        proof {
            use_type_invariant(self);
            self.lemma_dom_len();
            lemma_entries_view(self.entries@);
            assert(self.entries@[i as int].0@ == self.entries@[i as int].0@);
        }
        let k = self.entries[i].0.clone();
        let v = self.entries[i].1.deep_clone();
        (k, v)
    }

    /// The key at position `i`.
    pub closed spec fn key_at(&self, i: int) -> Seq<char> {
        self.entries@[i].0@
    }

    fn find(&self, k: &str) -> (r: Option<usize>)
        ensures
            r matches Some(i) ==> i < self.entries@.len() && self.entries@[i as int].0@ == k@,
            r is None ==> forall|i: int| 0 <= i < self.entries@.len() ==> self.entries@[i].0@ != k@,
    {
        let mut i: usize = 0;
        while i < self.entries.len()
            invariant
                i <= self.entries@.len(),
                forall|j: int| 0 <= j < i ==> self.entries@[j].0@ != k@,
            decreases self.entries@.len() - i,
        {
            if str_eq(self.entries[i].0.as_str(), k) {
                return Some(i);
            }
            i = i + 1;
        }
        None
    }

    /// Whether the object has a member `k`.
    pub fn contains_key(&self, k: &str) -> (r: bool)
        ensures
            r == self@.contains_key(k@),
    {
        proof {
            lemma_entries_view(self.entries@);
        }
        match self.find(k) {
            Some(i) => {
                assert(self.entries@[i as int].0@ == k@);
                true
            },
            None => false,
        }
    }

    /// A copy of the member `k`, if there is one.
    pub fn get(&self, k: &str) -> (r: Option<Json>)
        ensures
            r is Some <==> self@.contains_key(k@),
            r matches Some(v) ==> v@ == self@[k@],
    {
        proof {
            use_type_invariant(self);
            lemma_entries_view(self.entries@);
        }
        match self.find(k) {
            Some(i) => {
                assert(self.entries@[i as int].0@ == k@);
                Some(self.entries[i].1.deep_clone())
            },
            None => None,
        }
    }

    /// Sets the member `k` to `v`, adding it when absent.
    pub fn insert(&mut self, k: String, v: Json)
        ensures
            final(self)@ == old(self)@.insert(k@, v@),
    {
        proof {
            use_type_invariant(&*self);
        }
        let ghost old_entries = self.entries@;
        let mut e: Vec<(String, Json)> = Vec::new();
        std::mem::swap(&mut e, &mut self.entries);
        let found = {
            let tmp = JsonMap { entries: e };
            let f = tmp.find(k.as_str());
            e = tmp.entries;
            f
        };
        assert(e@ == old_entries);
        match found {
            Some(i) => {
                let ghost ki = e@[i as int].0;
                e.set(i, (k, v));
                proof {
                    lemma_entries_view(old_entries);
                    lemma_entries_view(e@);
                    assert forall|a: int, b: int|
                        0 <= a < b < e@.len() implies #[trigger] e@[a].0@ != #[trigger] e@[b].0@ by {
                        assert(old_entries[a].0@ != old_entries[b].0@);
                    }
                    assert(entries_view(e@) =~= entries_view(old_entries).insert(k@, v@)) by {
                        assert forall|key: Seq<char>| #[trigger] entries_view(e@).contains_key(key) == entries_view(old_entries).insert(k@, v@).contains_key(key) by {
                            if entries_view(e@).contains_key(key) {
                                let j = choose|j: int| 0 <= j < e@.len() && e@[j].0@ == key;
                                if j != i {
                                    assert(old_entries[j].0@ == key);
                                }
                            }
                            if entries_view(old_entries).contains_key(key) {
                                let j = choose|j: int| 0 <= j < old_entries.len() && old_entries[j].0@ == key;
                                if j != i {
                                    assert(e@[j].0@ == key);
                                } else {
                                    assert(e@[i as int].0@ == key);
                                }
                            }
                        }
                        assert forall|key: Seq<char>| #[trigger] entries_view(e@).contains_key(key) implies entries_view(e@)[key] == entries_view(old_entries).insert(k@, v@)[key] by {
                            let j = choose|j: int| 0 <= j < e@.len() && e@[j].0@ == key;
                            assert(forall|x: int| j < x < e@.len() ==> e@[x].0@ != e@[j].0@);
                            if j != i {
                                assert(old_entries[j].0@ == key);
                                assert(forall|x: int| j < x < old_entries.len() ==> old_entries[x].0@ != old_entries[j].0@);
                            }
                        }
                    }
                }
            },
            None => {
                e.push((k, v));
                proof {
                    lemma_entries_view(old_entries);
                    assert(e@.drop_last() =~= old_entries);
                    assert forall|a: int, b: int|
                        0 <= a < b < e@.len() implies #[trigger] e@[a].0@ != #[trigger] e@[b].0@ by {
                        if b < e@.len() - 1 {
                            assert(old_entries[a].0@ != old_entries[b].0@);
                        } else {
                            assert(old_entries[a].0@ != k@);
                        }
                    }
                }
            },
        }
        self.entries = e;
    }

    /// Removes the member `k`, if there is one.
    pub fn remove(&mut self, k: &str)
        ensures
            final(self)@ == old(self)@.remove(k@),
    {
        proof {
            use_type_invariant(&*self);
        }
        let ghost old_entries = self.entries@;
        let mut e: Vec<(String, Json)> = Vec::new();
        std::mem::swap(&mut e, &mut self.entries);
        let mut kept: Vec<(String, Json)> = Vec::new();
        let mut i: usize = 0;
        while i < e.len()
            invariant
                e@ == old_entries,
                i <= e@.len(),
                forall|a: int, b: int|
                    0 <= a < b < old_entries.len() ==> #[trigger] old_entries[a].0@ != #[trigger] old_entries[b].0@,
                forall|a: int, b: int| 0 <= a < b < kept@.len() ==> #[trigger] kept@[a].0@ != #[trigger] kept@[b].0@,
                forall|a: int| 0 <= a < kept@.len() ==> #[trigger] kept@[a].0@ != k@,
                entries_view(kept@) == entries_view(old_entries.take(i as int)).remove(k@),
                forall|a: int| 0 <= a < kept@.len() ==> exists|b: int| 0 <= b < i && old_entries[b].0 == #[trigger] kept@[a].0,
            decreases e@.len() - i,
        {
            let ghost kb = kept@;
            assert(old_entries.take(i + 1).drop_last() =~= old_entries.take(i as int));
            if !str_eq(e[i].0.as_str(), k) {
                let ki = e[i].0.clone();
                let vi = e[i].1.deep_clone();
                kept.push((ki, vi));
                proof {
                    assert(kept@.drop_last() =~= kb);
                    assert forall|a: int, b: int| 0 <= a < b < kept@.len() implies #[trigger] kept@[a].0@ != #[trigger] kept@[b].0@ by {
                        if b == kept@.len() - 1 {
                            let c = choose|c: int| 0 <= c < i && old_entries[c].0 == kb[a].0;
                            assert(old_entries[c].0@ != old_entries[i as int].0@);
                        }
                    }
                    assert forall|a: int| 0 <= a < kept@.len() implies exists|b: int| 0 <= b < i + 1 && old_entries[b].0 == #[trigger] kept@[a].0 by {
                        if a < kb.len() {
                            let c = choose|c: int| 0 <= c < i && old_entries[c].0 == kb[a].0;
                            assert(old_entries[c].0 == kept@[a].0);
                        } else {
                            assert(kept@[a].0 == old_entries[i as int].0);
                        }
                    }
                    assert(entries_view(kept@) =~= entries_view(old_entries.take(i + 1)).remove(k@));
                }
            } else {
                assert(entries_view(kept@) =~= entries_view(old_entries.take(i + 1)).remove(k@));
            }
            i = i + 1;
        }
        assert(old_entries.take(e@.len() as int) =~= old_entries);
        self.entries = kept;
    }
}

proof fn lemma_entries_unique_len(s: Seq<(String, Json)>)
    requires
        forall|i: int, j: int| 0 <= i < j < s.len() ==> #[trigger] s[i].0@ != #[trigger] s[j].0@,
    ensures
        entries_view(s).dom().len() == s.len(),
        entries_view(s).dom().finite(),
    decreases s.len(),
{
    lemma_entries_view(s);
    if s.len() > 0 {
        let t = s.drop_last();
        lemma_entries_unique_len(t);
        lemma_entries_view(t);
        assert(!entries_view(t).contains_key(s.last().0@)) by {
            if entries_view(t).contains_key(s.last().0@) {
                let i = choose|i: int| 0 <= i < t.len() && t[i].0@ == s.last().0@;
                assert(s[i].0@ != s[s.len() - 1].0@);
            }
        }
    }
}

impl Json {
    /// A copy of the value.
    pub fn deep_clone(&self) -> (r: Json)
        ensures
            r@ == self@,
        decreases self,
    {
        match self {
            Json::Null => Json::Null,
            Json::Bool(b) => Json::Bool(*b),
            Json::Number(n) => Json::Number(
                match n {
                    JsonNumber::PosInt(v) => JsonNumber::PosInt(*v),
                    JsonNumber::NegInt(v) => JsonNumber::NegInt(*v),
                    JsonNumber::Float(t) => JsonNumber::Float(t.clone()),
                },
            ),
            Json::Str(s) => Json::Str(s.clone()),
            Json::Array(v) => {
                let mut out: Vec<Json> = Vec::new();
                let mut i: usize = 0;
                #[verifier::loop_isolation(false)]
                while i < v.len()
                    invariant
                        i <= v@.len(),
                        seq_view(out@) == seq_view(v@.take(i as int)),
                    decreases v@.len() - i,
                {
                    proof {
                        assert(decreases_to!(*v => v@));
                        assert(decreases_to!(v@ => v@[i as int]));
                    }
                    let c = v[i].deep_clone();
                    let ghost ob = out@;
                    out.push(c);
                    assert(out@.drop_last() =~= ob);
                    assert(v@.take(i + 1).drop_last() =~= v@.take(i as int));
                    i = i + 1;
                }
                assert(v@.take(v@.len() as int) =~= v@);
                Json::Array(out)
            },
            Json::Object(m) => {
                proof {
                    use_type_invariant(m);
                }
                let mut e: Vec<(String, Json)> = Vec::new();
                let mut i: usize = 0;
                #[verifier::loop_isolation(false)]
                while i < m.entries.len()
                    invariant
                        i <= m.entries@.len(),
                        e@.len() == i,
                        forall|j: int| 0 <= j < i ==> (#[trigger] e@[j]).0 == m.entries@[j].0,
                        entries_view(e@) == entries_view(m.entries@.take(i as int)),
                    decreases m.entries@.len() - i,
                {
                    let k = m.entries[i].0.clone();
                    proof {
                        assert(decreases_to!(*m => m.entries));
                        assert(decreases_to!(m.entries => m.entries@));
                        assert(decreases_to!(m.entries@ => m.entries@[i as int]));
                        assert(decreases_to!(m.entries@[i as int] => m.entries@[i as int].1));
                    }
                    let c = m.entries[i].1.deep_clone();
                    let ghost eb = e@;
                    e.push((k, c));
                    assert(e@.drop_last() =~= eb);
                    assert(m.entries@.take(i + 1).drop_last() =~= m.entries@.take(i as int));
                    i = i + 1;
                }
                assert(m.entries@.take(m.entries@.len() as int) =~= m.entries@);
                proof {
                    assert forall|a: int, b: int| 0 <= a < b < e@.len() implies #[trigger] e@[a].0@ != #[trigger] e@[b].0@ by {
                        assert(e@[a].0 == m.entries@[a].0);
                        assert(e@[b].0 == m.entries@[b].0);
                    }
                }
                Json::Object(JsonMap { entries: e })
            },
        }
    }
}

/// How each kind of value is seen.
pub proof fn lemma_json_view(j: Json)
    ensures
        j matches Json::Null ==> j@ == JsonV::Null,
        j matches Json::Bool(b) ==> j@ == JsonV::Bool(b),
        j matches Json::Number(JsonNumber::PosInt(v)) ==> j@ == JsonV::Number(NumberV::PosInt(v)),
        j matches Json::Number(JsonNumber::NegInt(v)) ==> j@ == JsonV::Number(NumberV::NegInt(v)),
        j matches Json::Number(JsonNumber::Float(t)) ==> j@ == JsonV::Number(NumberV::Float(t@)),
        j matches Json::Str(s) ==> j@ == JsonV::Str(s@),
        j matches Json::Object(m) ==> j@ == JsonV::Object(m@),
        j matches Json::Array(v) ==> j@ is Array && j@->Array_0.len() == v@.len()
            && forall|i: int| 0 <= i < v@.len() ==> #[trigger] j@->Array_0[i] == v@[i]@,
{
    if let Json::Array(v) = j {
        lemma_seq_view(v@);
    }
}

/// `serde_json`'s `value[k]`: the member `k` of an object, else null.
pub open spec fn index_key(j: JsonV, k: Seq<char>) -> JsonV {
    match j {
        JsonV::Object(m) => if m.contains_key(k) { m[k] } else { JsonV::Null },
        _ => JsonV::Null,
    }
}

/// `serde_json`'s `value[i]`: the element `i` of an array, else null.
pub open spec fn index_pos(j: JsonV, i: int) -> JsonV {
    match j {
        JsonV::Array(s) => if 0 <= i < s.len() { s[i] } else { JsonV::Null },
        _ => JsonV::Null,
    }
}

pub open spec fn str_of(j: JsonV) -> Option<Seq<char>> {
    match j {
        JsonV::Str(s) => Some(s),
        _ => None,
    }
}

pub open spec fn u64_of(j: JsonV) -> Option<u64> {
    match j {
        JsonV::Number(NumberV::PosInt(v)) => Some(v),
        _ => None,
    }
}

pub open spec fn bool_of(j: JsonV) -> Option<bool> {
    match j {
        JsonV::Bool(b) => Some(b),
        _ => None,
    }
}

/// A step into a value: an object member or an array element.
pub enum StepV {
    Key(Seq<char>),
    Pos(int),
}

pub enum PathStep {
    Key(String),
    Pos(usize),
}

impl View for PathStep {
    type V = StepV;

    open spec fn view(&self) -> StepV {
        match self {
            PathStep::Key(k) => StepV::Key(k@),
            PathStep::Pos(i) => StepV::Pos(*i as int),
        }
    }
}

/// What `value[s1][s2]... = x` leaves in `value`, as `serde_json`'s
/// `IndexMut` does it: a member step turns null into an empty object and
/// adds the member as null when missing; an element step needs an array long
/// enough. `None` where a step finds neither (there `serde_json` panics).
pub open spec fn set_path(j: JsonV, path: Seq<StepV>, x: JsonV) -> Option<JsonV>
    decreases path.len(),
{
    if path.len() == 0 {
        Some(x)
    } else {
        match path[0] {
            StepV::Key(k) => {
                let m = match j {
                    JsonV::Null => Some(Map::empty()),
                    JsonV::Object(m) => Some(m),
                    _ => None,
                };
                match m {
                    None => None,
                    Some(m) => {
                        let child = if m.contains_key(k) { m[k] } else { JsonV::Null };
                        match set_path(child, path.drop_first(), x) {
                            Some(c) => Some(JsonV::Object(m.insert(k, c))),
                            None => None,
                        }
                    },
                }
            },
            StepV::Pos(i) => match j {
                JsonV::Array(s) => if 0 <= i < s.len() {
                    match set_path(s[i], path.drop_first(), x) {
                        Some(c) => Some(JsonV::Array(s.update(i, c))),
                        None => None,
                    }
                } else {
                    None
                },
                _ => None,
            },
        }
    }
}

pub open spec fn path_view(p: Seq<PathStep>) -> Seq<StepV> {
    p.map_values(|s: PathStep| s@)
}

/// A member step.
pub fn key(k: &str) -> (r: PathStep)
    ensures
        r@ == StepV::Key(k@),
{
    PathStep::Key(k.to_owned())
}

impl Json {
    /// A string value.
    pub fn string(s: &str) -> (r: Json)
        ensures
            r@ == JsonV::Str(s@),
    {
        let r = Json::Str(s.to_owned());
        proof {
            lemma_json_view(r);
        }
        r
    }

    /// A non-negative integer value.
    pub fn unsigned(v: u64) -> (r: Json)
        ensures
            r@ == JsonV::Number(NumberV::PosInt(v)),
    {
        let r = Json::Number(JsonNumber::PosInt(v));
        proof {
            lemma_json_view(r);
        }
        r
    }

    /// A boolean value.
    pub fn boolean(b: bool) -> (r: Json)
        ensures
            r@ == JsonV::Bool(b),
    {
        let r = Json::Bool(b);
        proof {
            lemma_json_view(r);
        }
        r
    }

    /// The null value.
    pub fn null() -> (r: Json)
        ensures
            r@ == JsonV::Null,
    {
        let r = Json::Null;
        proof {
            lemma_json_view(r);
        }
        r
    }

    /// An object holding the members of `m`.
    pub fn object(m: JsonMap) -> (r: Json)
        ensures
            r@ == JsonV::Object(m@),
    {
        let r = Json::Object(m);
        proof {
            lemma_json_view(r);
        }
        r
    }

    /// An array holding `v`.
    pub fn array(v: Vec<Json>) -> (r: Json)
        ensures
            r@ is Array,
            r@->Array_0.len() == v@.len(),
            forall|i: int| 0 <= i < v@.len() ==> #[trigger] r@->Array_0[i] == v@[i]@,
    {
        let r = Json::Array(v);
        proof {
            lemma_json_view(r);
        }
        r
    }

    /// `self[k]`, copied.
    pub fn get(&self, k: &str) -> (r: Json)
        ensures
            r@ == index_key(self@, k@),
    {
        proof {
            lemma_json_view(*self);
        }
        match self {
            Json::Object(m) => match m.get(k) {
                Some(v) => v,
                None => Json::null(),
            },
            _ => Json::null(),
        }
    }

    /// `self[i]`, copied.
    pub fn at(&self, i: usize) -> (r: Json)
        ensures
            r@ == index_pos(self@, i as int),
    {
        proof {
            lemma_json_view(*self);
        }
        match self {
            Json::Array(v) => if i < v.len() {
                v[i].deep_clone()
            } else {
                Json::null()
            },
            _ => Json::null(),
        }
    }

    /// The text of a string value.
    pub fn as_str(&self) -> (r: Option<String>)
        ensures
            r matches Some(t) ==> str_of(self@) == Some(t@),
            r is None ==> str_of(self@) is None,
    {
        proof {
            lemma_json_view(*self);
        }
        match self {
            Json::Str(s) => Some(s.clone()),
            _ => None,
        }
    }

    /// The number of a non-negative integer value.
    pub fn as_u64(&self) -> (r: Option<u64>)
        ensures
            r == u64_of(self@),
    {
        proof {
            lemma_json_view(*self);
        }
        match self {
            Json::Number(JsonNumber::PosInt(v)) => Some(*v),
            _ => None,
        }
    }

    /// The truth value of a boolean value.
    pub fn as_bool(&self) -> (r: Option<bool>)
        ensures
            r == bool_of(self@),
    {
        proof {
            lemma_json_view(*self);
        }
        match self {
            Json::Bool(b) => Some(*b),
            _ => None,
        }
    }

    pub fn is_null(&self) -> (r: bool)
        ensures
            r == (self@ is Null),
    {
        proof {
            lemma_json_view(*self);
        }
        match self {
            Json::Null => true,
            _ => false,
        }
    }

    pub fn is_object(&self) -> (r: bool)
        ensures
            r == (self@ is Object),
    {
        proof {
            lemma_json_view(*self);
        }
        match self {
            Json::Object(_) => true,
            _ => false,
        }
    }

    /// Whether `self` is an object with a member `k`.
    pub fn has_key(&self, k: &str) -> (r: bool)
        ensures
            r == (self@ is Object && self@->Object_0.contains_key(k@)),
    {
        proof {
            lemma_json_view(*self);
        }
        match self {
            Json::Object(m) => m.contains_key(k),
            _ => false,
        }
    }
}

/// `j[path] = x`, as [`set_path`] describes it.
pub fn set_at(j: Json, path: &[PathStep], x: Json) -> (r: Option<Json>)
    ensures
        r is Some <==> set_path(j@, path_view(path@), x@) is Some,
        r matches Some(v) ==> set_path(j@, path_view(path@), x@) == Some(v@),
{
    assert(path_view(path@).skip(0) =~= path_view(path@));
    set_from(j, path, 0, x)
}

fn set_from(j: Json, path: &[PathStep], start: usize, x: Json) -> (r: Option<Json>)
    requires
        start <= path@.len(),
    ensures
        r is Some <==> set_path(j@, path_view(path@).skip(start as int), x@) is Some,
        r matches Some(v) ==> set_path(j@, path_view(path@).skip(start as int), x@) == Some(v@),
    decreases path@.len() - start,
{
    let ghost p = path_view(path@).skip(start as int);
    proof {
        lemma_json_view(j);
    }
    if start == path.len() {
        assert(p.len() == 0);
        return Some(x);
    }
    assert(p[0] == path@[start as int]@);
    assert(p.drop_first() =~= path_view(path@).skip(start + 1));
    match &path[start] {
        PathStep::Key(k) => {
            let mut m = match j {
                Json::Null => JsonMap::new(),
                Json::Object(m) => m,
                _ => return None,
            };
            let child = match m.get(k.as_str()) {
                Some(c) => c,
                None => Json::null(),
            };
            match set_from(child, path, start + 1, x) {
                Some(c) => {
                    m.insert(k.clone(), c);
                    Some(Json::object(m))
                },
                None => None,
            }
        },
        PathStep::Pos(i) => {
            let i = *i;
            match j {
                Json::Array(mut v) => {
                    if i < v.len() {
                        let ghost sv = seq_view(v@);
                        proof {
                            lemma_seq_view(v@);
                        }
                        let child = v[i].deep_clone();
                        match set_from(child, path, start + 1, x) {
                            Some(c) => {
                                let ghost cv = c@;
                                v.set(i, c);
                                let r = Json::array(v);
                                proof {
                                    lemma_seq_view(v@);
                                    assert(r@->Array_0 =~= sv.update(i as int, cv));
                                }
                                Some(r)
                            },
                            None => None,
                        }
                    } else {
                        proof {
                            lemma_seq_view(v@);
                        }
                        None
                    }
                },
                _ => None,
            }
        },
    }
}

/// What `serde_json::Number::from_str` reads from a text.
pub uninterp spec fn json_number_text(s: Seq<char>) -> Option<NumberV>;

/// `serde_json::Number::from_str`; an error becomes `None`. The number is
/// carried over as a non-negative integer, a negative integer or the text
/// of a floating-point number, as it is held.
#[verifier::external_body]
pub(crate) fn number_from_str(s: &str) -> (r: Option<JsonNumber>)
    ensures
        r matches Some(n) ==> json_number_text(s@) == Some(number_view(n)),
        r is None ==> json_number_text(s@) is None,
{
    match <serde_json::Number as std::str::FromStr>::from_str(s) {
        Ok(n) => Some(
            if let Some(u) = n.as_u64() {
                JsonNumber::PosInt(u)
            } else if let Some(i) = n.as_i64() {
                JsonNumber::NegInt(i)
            } else {
                JsonNumber::Float(n.to_string())
            },
        ),
        Err(_) => None,
    }
}

pub open spec fn hex_digit(d: nat) -> char {
    if d < 10 { (('0' as int) + d) as char } else { (('a' as int) + d - 10) as char }
}

/// How `serde_json` writes one character inside a string literal.
pub open spec fn json_escape_char(c: char) -> Seq<char> {
    if c == '"' {
        seq!['\\', '"']
    } else if c == '\\' {
        seq!['\\', '\\']
    } else if c == '\u{8}' {
        seq!['\\', 'b']
    } else if c == '\t' {
        seq!['\\', 't']
    } else if c == '\n' {
        seq!['\\', 'n']
    } else if c == '\u{c}' {
        seq!['\\', 'f']
    } else if c == '\r' {
        seq!['\\', 'r']
    } else if (c as int) < 0x20 {
        seq!['\\', 'u', '0', '0', hex_digit(((c as int) / 16) as nat), hex_digit(((c as int) % 16) as nat)]
    } else {
        seq![c]
    }
}

pub open spec fn json_escape(s: Seq<char>) -> Seq<char>
    decreases s.len(),
{
    if s.len() == 0 {
        Seq::empty()
    } else {
        json_escape(s.drop_last()) + json_escape_char(s.last())
    }
}

/// The text that `to_string` gives for a scalar value, without the quotes
/// around a string; `None` for arrays and objects.
pub open spec fn scalar_text(j: JsonV) -> Option<Seq<char>> {
    match j {
        JsonV::Null => Some(seq!['n', 'u', 'l', 'l']),
        JsonV::Bool(b) => Some(if b { seq!['t', 'r', 'u', 'e'] } else { seq!['f', 'a', 'l', 's', 'e'] }),
        JsonV::Str(s) => Some(json_escape(s)),
        JsonV::Number(NumberV::PosInt(v)) => Some(crate::decimal::decimal(v as nat)),
        JsonV::Number(NumberV::NegInt(v)) => Some(
            if v < 0 { seq!['-'] + crate::decimal::decimal((-v) as nat) } else { crate::decimal::decimal(v as nat) },
        ),
        JsonV::Number(NumberV::Float(t)) => Some(t),
        _ => None,
    }
}

fn push_escaped(out: &mut String, c: char)
    ensures
        final(out)@ == old(out)@ + json_escape_char(c),
{
    let ghost before = out@;
    if c == '"' {
        string_push(out, '\\');
        string_push(out, '"');
    } else if c == '\\' {
        string_push(out, '\\');
        string_push(out, '\\');
    } else if c == '\u{8}' {
        string_push(out, '\\');
        string_push(out, 'b');
    } else if c == '\t' {
        string_push(out, '\\');
        string_push(out, 't');
    } else if c == '\n' {
        string_push(out, '\\');
        string_push(out, 'n');
    } else if c == '\u{c}' {
        string_push(out, '\\');
        string_push(out, 'f');
    } else if c == '\r' {
        string_push(out, '\\');
        string_push(out, 'r');
    } else if (c as u32) < 0x20 {
        let v = c as u32;
        string_push(out, '\\');
        string_push(out, 'u');
        string_push(out, '0');
        string_push(out, '0');
        string_push(out, if v / 16 == 0 { '0' } else { '1' });
        let lo = v % 16;
        let h = if lo < 10 {
            crate::decimal::decimal_chars(lo as u64)[0]
        } else {
            match lo {
                10 => 'a',
                11 => 'b',
                12 => 'c',
                13 => 'd',
                14 => 'e',
                _ => 'f',
            }
        };
        string_push(out, h);
    } else {
        string_push(out, c);
    }
    assert(out@ =~= before + json_escape_char(c));
}

/// The text of a scalar value as [`scalar_text`] gives it.
pub fn scalar_to_text(j: &Json) -> (r: Option<String>)
    ensures
        r matches Some(t) ==> scalar_text(j@) == Some(t@),
        r is None ==> scalar_text(j@) is None,
{
    proof {
        lemma_json_view(*j);
    }
    match j {
        Json::Null => Some(crate::text::string_from_chars(&['n', 'u', 'l', 'l'])),
        Json::Bool(b) => if *b {
            Some(crate::text::string_from_chars(&['t', 'r', 'u', 'e']))
        } else {
            Some(crate::text::string_from_chars(&['f', 'a', 'l', 's', 'e']))
        },
        Json::Str(s) => {
            let cs = crate::text::chars_of(s.as_str());
            let mut out = String::new();
            let mut i: usize = 0;
            while i < cs.len()
                invariant
                    i <= cs@.len(),
                    out@ == json_escape(cs@.take(i as int)),
                decreases cs.len() - i,
            {
                assert(cs@.take(i + 1).drop_last() =~= cs@.take(i as int));
                push_escaped(&mut out, cs[i]);
                i = i + 1;
            }
            assert(cs@.take(cs@.len() as int) =~= cs@);
            Some(out)
        },
        Json::Number(JsonNumber::PosInt(v)) => {
            let mut out = String::new();
            crate::decimal::push_decimal(&mut out, *v);
            Some(out)
        },
        Json::Number(JsonNumber::NegInt(v)) => {
            let mut out = String::new();
            if *v < 0 {
                string_push(&mut out, '-');
                let m: u64 = if *v == i64::MIN { 9223372036854775808u64 } else { (-*v) as u64 };
                crate::decimal::push_decimal(&mut out, m);
            } else {
                crate::decimal::push_decimal(&mut out, *v as u64);
            }
            Some(out)
        },
        Json::Number(JsonNumber::Float(t)) => Some(t.clone()),
        _ => None,
    }
}

/// The members of `b` written into `a`, both objects: a key of `b` not in
/// `a` is added; where both hold objects under a key, `b`'s is merged into
/// `a`'s; otherwise `b`'s value replaces `a`'s.
pub open spec fn merge_maps(m1: Map<Seq<char>, JsonV>, m2: Map<Seq<char>, JsonV>) -> Map<Seq<char>, JsonV>
    decreases m2,
{
    Map::new(
        |k: Seq<char>| m1.contains_key(k) || m2.contains_key(k),
        |k: Seq<char>|
            if m2.contains_key(k) && m2.dom().finite() {
                if m1.contains_key(k) && m1[k] is Object && m2[k] is Object {
                    JsonV::Object(merge_maps(m1[k]->Object_0, m2[k]->Object_0))
                } else {
                    m2[k]
                }
            } else {
                m1[k]
            },
    )
}


/// Merges the object `json_value2` into the object `json_value1` (see
/// [`merge_maps`]).
pub fn merge_json_objects(json_value1: &mut Json, json_value2: &Json)
    requires
        old(json_value1)@ is Object,
        json_value2@ is Object,
    ensures
        final(json_value1)@ == JsonV::Object(merge_maps(old(json_value1)@->Object_0, json_value2@->Object_0)),
    decreases json_value2@,
{
    proof {
        lemma_json_view(*json_value1);
        lemma_json_view(*json_value2);
    }
    let mut taken = Json::Null;
    std::mem::swap(&mut taken, json_value1);
    let mut map1 = match taken {
        Json::Object(m) => m,
        _ => {
            return;
        },
    };
    let map2 = match json_value2 {
        Json::Object(m) => m,
        _ => {
            return;
        },
    };
    let ghost m1 = map1@;
    let ghost m2 = map2@;
    let n = map2.len();
    let ghost merged = merge_maps(m1, m2);
    let mut i: usize = 0;
    while i < n
        invariant
            i <= n,
            n == m2.dom().len(),
            m2 == map2@,
            m2.dom().finite(),
            json_value2@ == JsonV::Object(m2),
            merged == merge_maps(m1, m2),
            forall|k: Seq<char>| #[trigger] m2.contains_key(k) ==> exists|j: int| 0 <= j < n && map2.key_at(j) == k,
            forall|j: int| 0 <= j < n ==> m2.contains_key(#[trigger] map2.key_at(j)),
            forall|k: Seq<char>|
                #[trigger] map1@.contains_key(k) <==> (m1.contains_key(k) || exists|j: int| 0 <= j < i && map2.key_at(j) == k),
            forall|k: Seq<char>|
                #[trigger] map1@.contains_key(k) && (exists|j: int| 0 <= j < i && map2.key_at(j) == k) ==> map1@[k] == merged[k],
            forall|k: Seq<char>|
                #[trigger] map1@.contains_key(k) && !(exists|j: int| 0 <= j < i && map2.key_at(j) == k) ==> map1@[k] == m1[k],
        decreases n - i,
    {
        let (key, value2) = map2.entry_at(i);
        let ghost k = key@;
        let ghost before = map1@;
        assert(m2.contains_key(k) && m2[k] == value2@);
        assert(merged.contains_key(k));
        if map1.contains_key(key.as_str()) {
            let existing = match map1.get(key.as_str()) {
                Some(e) => e,
                None => Json::null(),
            };
            if existing.is_object() && value2.is_object() {
                let mut e = existing;
                proof {
                    assert(decreases_to!(json_value2@ => json_value2@->Object_0));
                    assert(decreases_to!(m2 => m2[k]));
                }
                merge_json_objects(&mut e, &value2);
                map1.insert(key, e);
            } else {
                map1.insert(key, value2);
            }
        } else {
            map1.insert(key, value2);
        }
        proof {
            assert(map2.key_at(i as int) == k);
            assert forall|q: Seq<char>|
                #[trigger] map1@.contains_key(q) <==> (m1.contains_key(q) || exists|j: int| 0 <= j < i + 1 && map2.key_at(j) == q) by {
                if q != k {
                    if exists|j: int| 0 <= j < i + 1 && map2.key_at(j) == q {
                        let j = choose|j: int| 0 <= j < i + 1 && map2.key_at(j) == q;
                        assert(j != i);
                    }
                }
            }
            assert forall|q: Seq<char>|
                #[trigger] map1@.contains_key(q) && (exists|j: int| 0 <= j < i + 1 && map2.key_at(j) == q) implies map1@[q] == merged[q] by {
                if q != k {
                    let j = choose|j: int| 0 <= j < i + 1 && map2.key_at(j) == q;
                    assert(j != i);
                }
            }
            assert forall|q: Seq<char>|
                #[trigger] map1@.contains_key(q) && !(exists|j: int| 0 <= j < i + 1 && map2.key_at(j) == q) implies map1@[q] == m1[q] by {
                assert(q != k);
            }
        }
        i = i + 1;
    }
    assert(map1@ =~= merged) by {
        assert forall|k: Seq<char>| #[trigger] map1@.contains_key(k) == merged.contains_key(k) by {
            if m2.contains_key(k) {
                let j = choose|j: int| 0 <= j < n && map2.key_at(j) == k;
            }
        }
        assert forall|k: Seq<char>| #[trigger] map1@.contains_key(k) implies map1@[k] == merged[k] by {
            if m2.contains_key(k) {
                let j = choose|j: int| 0 <= j < n && map2.key_at(j) == k;
            } else {
                assert(!exists|j: int| 0 <= j < n && map2.key_at(j) == k);
            }
        }
    }
    *json_value1 = Json::object(map1);
}


/// Merging keeps every member of both objects and no other.
pub proof fn law_merge_members(m1: Map<Seq<char>, JsonV>, m2: Map<Seq<char>, JsonV>)
    ensures
        merge_maps(m1, m2).dom() == m1.dom().union(m2.dom()),
{
    assert(merge_maps(m1, m2).dom() =~= m1.dom().union(m2.dom()));
}

/// A member of the second object wins, unless both hold objects there (then
/// the two are merged); a member only in the first stays as it was.
pub proof fn law_merge_values(m1: Map<Seq<char>, JsonV>, m2: Map<Seq<char>, JsonV>, k: Seq<char>)
    requires
        m2.dom().finite(),
    ensures
        m2.contains_key(k) && !(m1.contains_key(k) && m1[k] is Object && m2[k] is Object) ==> merge_maps(m1, m2)[k]
            == m2[k],
        m2.contains_key(k) && m1.contains_key(k) && m1[k] is Object && m2[k] is Object ==> merge_maps(m1, m2)[k]
            == JsonV::Object(merge_maps(m1[k]->Object_0, m2[k]->Object_0)),
        m1.contains_key(k) && !m2.contains_key(k) ==> merge_maps(m1, m2)[k] == m1[k],
{
}

/// Merging an empty object changes nothing; merging into an empty object
/// gives the merged object.
pub proof fn law_merge_empty(m: Map<Seq<char>, JsonV>)
    requires
        m.dom().finite(),
    ensures
        merge_maps(m, Map::empty()) == m,
        merge_maps(Map::empty(), m) == m,
{
    assert(merge_maps(m, Map::empty()) =~= m);
    assert(merge_maps(Map::empty(), m) =~= m);
}


/// `value[s1][s2]...` as `serde_json`'s `Index` reads it: null where a step
/// finds nothing.
pub open spec fn get_path(j: JsonV, path: Seq<StepV>) -> JsonV
    decreases path.len(),
{
    if path.len() == 0 {
        j
    } else {
        match path[0] {
            StepV::Key(k) => get_path(index_key(j, k), path.drop_first()),
            StepV::Pos(i) => get_path(index_pos(j, i), path.drop_first()),
        }
    }
}

/// Two paths that part ways: at some step both have, they step differently.
pub open spec fn diverge(p: Seq<StepV>, q: Seq<StepV>) -> bool
    decreases p.len(),
{
    p.len() > 0 && q.len() > 0 && (p[0] != q[0] || diverge(p.drop_first(), q.drop_first()))
}

/// Reading a path after writing `x` there gives `x` back.
pub proof fn law_set_then_get(j: JsonV, path: Seq<StepV>, x: JsonV)
    requires
        set_path(j, path, x) is Some,
    ensures
        get_path(set_path(j, path, x)->Some_0, path) == x,
    decreases path.len(),
{
    if path.len() > 0 {
        match path[0] {
            StepV::Key(k) => {
                let m = match j {
                    JsonV::Object(m) => m,
                    _ => Map::empty(),
                };
                let child = if m.contains_key(k) { m[k] } else { JsonV::Null };
                law_set_then_get(child, path.drop_first(), x);
            },
            StepV::Pos(i) => {
                law_set_then_get(j->Array_0[i], path.drop_first(), x);
            },
        }
    }
}

/// Writing at one path leaves what another path reads unchanged, when the
/// two part ways.
pub proof fn law_set_keeps_elsewhere(j: JsonV, p: Seq<StepV>, q: Seq<StepV>, x: JsonV)
    requires
        set_path(j, p, x) is Some,
        diverge(p, q),
    ensures
        get_path(set_path(j, p, x)->Some_0, q) == get_path(j, q),
    decreases p.len(),
{
    let r = set_path(j, p, x)->Some_0;
    match p[0] {
        StepV::Key(k) => {
            let m = match j {
                JsonV::Object(m) => m,
                _ => Map::empty(),
            };
            let child = if m.contains_key(k) { m[k] } else { JsonV::Null };
            let c = set_path(child, p.drop_first(), x)->Some_0;
            assert(r == JsonV::Object(m.insert(k, c)));
            if p[0] == q[0] {
                law_set_keeps_elsewhere(child, p.drop_first(), q.drop_first(), x);
                assert(index_key(r, k) == c);
                assert(index_key(j, k) == child);
            } else {
                match q[0] {
                    StepV::Key(k2) => {
                        assert(k2 != k);
                        assert(index_key(r, k2) == index_key(j, k2));
                    },
                    StepV::Pos(i2) => {
                        assert(index_pos(r, i2) == JsonV::Null);
                        assert(index_pos(j, i2) == JsonV::Null);
                    },
                }
            }
        },
        StepV::Pos(i) => {
            let s = j->Array_0;
            let c = set_path(s[i], p.drop_first(), x)->Some_0;
            assert(r == JsonV::Array(s.update(i, c)));
            if p[0] == q[0] {
                law_set_keeps_elsewhere(s[i], p.drop_first(), q.drop_first(), x);
                assert(index_pos(r, i) == c);
            } else {
                match q[0] {
                    StepV::Key(k2) => {
                        assert(index_key(r, k2) == JsonV::Null);
                        assert(index_key(j, k2) == JsonV::Null);
                    },
                    StepV::Pos(i2) => {
                        assert(i2 != i);
                        assert(index_pos(r, i2) == index_pos(j, i2));
                    },
                }
            }
        },
    }
}


/// The first `n` of the writes `value[path] = x`, in order, while none
/// fails.
pub open spec fn apply_writes(o: Option<JsonV>, ws: Seq<(Seq<StepV>, JsonV)>, n: nat) -> Option<JsonV>
    decreases n,
{
    if n == 0 {
        o
    } else {
        match apply_writes(o, ws, (n - 1) as nat) {
            Some(j) => set_path(j, ws[n - 1].0, ws[n - 1].1),
            None => None,
        }
    }
}

/// After a run of writes, a path that the last write to it set reads what
/// that write put there, when no later write touches it.
pub proof fn law_last_write_wins(j: JsonV, ws: Seq<(Seq<StepV>, JsonV)>, n: nat, k: int, q: Seq<StepV>)
    requires
        apply_writes(Some(j), ws, n) is Some,
        0 <= k < n,
        ws[k].0 == q,
        forall|i: int| k < i < n ==> diverge(#[trigger] ws[i].0, q),
    ensures
        get_path(apply_writes(Some(j), ws, n)->Some_0, q) == ws[k].1,
    decreases n,
{
    let prev = apply_writes(Some(j), ws, (n - 1) as nat);
    assert(prev is Some);
    if k == n - 1 {
        law_set_then_get(prev->Some_0, q, ws[k].1);
    } else {
        law_last_write_wins(j, ws, (n - 1) as nat, k, q);
        assert(diverge(ws[n - 1].0, q));
        law_set_keeps_elsewhere(prev->Some_0, ws[n - 1].0, q, ws[n - 1].1);
    }
}

/// A run of writes that all part ways with a path leaves what it reads.
pub proof fn law_writes_keep_elsewhere(j: JsonV, ws: Seq<(Seq<StepV>, JsonV)>, n: nat, q: Seq<StepV>)
    requires
        apply_writes(Some(j), ws, n) is Some,
        forall|i: int| 0 <= i < n ==> diverge(#[trigger] ws[i].0, q),
    ensures
        get_path(apply_writes(Some(j), ws, n)->Some_0, q) == get_path(j, q),
    decreases n,
{
    if n > 0 {
        let prev = apply_writes(Some(j), ws, (n - 1) as nat);
        assert(prev is Some);
        law_writes_keep_elsewhere(j, ws, (n - 1) as nat, q);
        assert(diverge(ws[n - 1].0, q));
        law_set_keeps_elsewhere(prev->Some_0, ws[n - 1].0, q, ws[n - 1].1);
    }
}

pub proof fn lemma_diverge_at(p: Seq<StepV>, q: Seq<StepV>, k: int)
    requires
        0 <= k < p.len(),
        k < q.len(),
        p[k] != q[k],
        forall|i: int| 0 <= i < k ==> p[i] == q[i],
    ensures
        diverge(p, q),
    decreases k,
{
    if k > 0 {
        assert forall|i: int| 0 <= i < k - 1 implies p.drop_first()[i] == q.drop_first()[i] by {
            assert(p[i + 1] == q[i + 1]);
        }
        lemma_diverge_at(p.drop_first(), q.drop_first(), k - 1);
        assert(p[0] == q[0]);
    }
}

} // verus!
