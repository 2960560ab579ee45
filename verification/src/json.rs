//! A JSON document model (`JsonValue`) with a mathematical view (`Jv`), mirroring the
//! untyped value tree a JMAP server sends and receives. Objects keep their members sorted
//! by key (character order), so iterating an object visits keys in ascending order.

use vstd::prelude::*;

use crate::text;

verus! {

/// The mathematical meaning of a JSON value: objects are finite maps from key text to
/// values, arrays are sequences.
pub ghost enum Jv {
    Null,
    Bool(bool),
    UInt(u64),
    Int(i64),
    Decimal(Seq<char>),
    Str(Seq<char>),
    Arr(Seq<Jv>),
    Obj(Map<Seq<char>, Jv>),
}

/// A JSON value. Non-negative integers are `UInt`, negative ones `Int`; a number with a
/// fraction or exponent keeps its decimal text in `Decimal`.
#[derive(Debug)]
pub enum JsonValue {
    Null,
    Bool(bool),
    UInt(u64),
    Int(i64),
    Decimal(String),
    Str(String),
    Array(Vec<JsonValue>),
    Object(JsonObject),
}

/// A JSON object: members kept in strictly ascending key order.
#[derive(Debug)]
pub struct JsonObject {
    entries: Vec<(String, JsonValue)>,
}

/// Lexicographic order on key text, character by character (the order of `str`).
pub open spec fn key_lt(a: Seq<char>, b: Seq<char>) -> bool
    decreases a.len(),
{
    if a.len() == 0 {
        b.len() > 0
    } else if b.len() == 0 {
        false
    } else if a[0] != b[0] {
        (a[0] as int) < (b[0] as int)
    } else {
        key_lt(a.drop_first(), b.drop_first())
    }
}

/// Member keys strictly ascending.
pub open spec fn sorted_keys(s: Seq<(String, JsonValue)>) -> bool {
    forall|i: int, j: int| 0 <= i < j < s.len() ==> key_lt(#[trigger] s[i].0@, #[trigger] s[j].0@)
}

pub closed spec fn json_view(v: JsonValue) -> Jv
    decreases v,
{
    match v {
        JsonValue::Null => Jv::Null,
        JsonValue::Bool(b) => Jv::Bool(b),
        JsonValue::UInt(n) => Jv::UInt(n),
        JsonValue::Int(n) => Jv::Int(n),
        JsonValue::Decimal(s) => Jv::Decimal(s@),
        JsonValue::Str(s) => Jv::Str(s@),
        JsonValue::Array(a) => Jv::Arr(seq_view(a@)),
        JsonValue::Object(o) => Jv::Obj(entries_view(o.entries@)),
    }
}

/// The views of a sequence of values.
pub closed spec fn seq_view(s: Seq<JsonValue>) -> Seq<Jv>
    decreases s,
{
    if s.len() == 0 {
        Seq::empty()
    } else {
        seq_view(s.drop_last()).push(json_view(s.last()))
    }
}

/// The map that a sequence of members denotes.
pub closed spec fn entries_view(s: Seq<(String, JsonValue)>) -> Map<Seq<char>, Jv>
    decreases s,
{
    if s.len() == 0 {
        Map::empty()
    } else {
        entries_view(s.drop_last()).insert(s.last().0@, json_view(s.last().1))
    }
}

impl View for JsonValue {
    type V = Jv;

    closed spec fn view(&self) -> Jv {
        json_view(*self)
    }
}

impl View for JsonObject {
    type V = Map<Seq<char>, Jv>;

    closed spec fn view(&self) -> Map<Seq<char>, Jv> {
        entries_view(self.entries@)
    }
}

impl JsonObject {
    #[verifier::type_invariant]
    spec fn wf(self) -> bool {
        sorted_keys(self.entries@)
    }

    /// The members in ascending key order, each as (key, value view).
    pub closed spec fn ordered(self) -> Seq<(Seq<char>, Jv)> {
        self.entries@.map_values(|e: (String, JsonValue)| (e.0@, json_view(e.1)))
    }
}

// ---------------------------------------------------------------------------------------
// Facts about the key order

proof fn lemma_key_lt_irreflexive(a: Seq<char>)
    ensures
        !key_lt(a, a),
    decreases a.len(),
{
    if a.len() > 0 {
        lemma_key_lt_irreflexive(a.drop_first());
    }
}

proof fn lemma_key_lt_asymmetric(a: Seq<char>, b: Seq<char>)
    ensures
        !(key_lt(a, b) && key_lt(b, a)),
    decreases a.len(),
{
    if a.len() > 0 && b.len() > 0 && a[0] == b[0] {
        lemma_key_lt_asymmetric(a.drop_first(), b.drop_first());
    }
}

proof fn lemma_key_lt_transitive(a: Seq<char>, b: Seq<char>, c: Seq<char>)
    requires
        key_lt(a, b),
        key_lt(b, c),
    ensures
        key_lt(a, c),
    decreases a.len(),
{
    if a.len() > 0 && b.len() > 0 && c.len() > 0 && a[0] == b[0] && b[0] == c[0] {
        lemma_key_lt_transitive(a.drop_first(), b.drop_first(), c.drop_first());
    }
}

proof fn lemma_key_lt_total(a: Seq<char>, b: Seq<char>)
    ensures
        a == b || key_lt(a, b) || key_lt(b, a),
    decreases a.len(),
{
    if a.len() > 0 && b.len() > 0 {
        if a[0] == b[0] {
            lemma_key_lt_total(a.drop_first(), b.drop_first());
            if a.drop_first() == b.drop_first() {
                assert(a == seq![a[0]] + a.drop_first());
                assert(b == seq![b[0]] + b.drop_first());
            }
        } else {
            assert((a[0] as int) != (b[0] as int));
        }
    } else if a.len() == 0 && b.len() == 0 {
        assert(a == b);
    }
}


/// Whether every value of `m` is a boolean.
pub open spec fn bool_map(m: Map<Seq<char>, Jv>) -> bool {
    forall|k: Seq<char>| #[trigger] m.contains_key(k) ==> m[k] is Bool
}

/// Keys in strictly ascending order.
pub open spec fn key_sorted(s: Seq<Seq<char>>) -> bool {
    forall|i: int, j: int| 0 <= i < j < s.len() ==> key_lt(#[trigger] s[i], #[trigger] s[j])
}

/// The keys of `m` in ascending order.
pub open spec fn keys_in_order(m: Map<Seq<char>, Jv>) -> Seq<Seq<char>> {
    choose|s: Seq<Seq<char>>| key_sorted(s) && forall|k: Seq<char>| s.contains(k) <==> #[trigger] m.contains_key(k)
}

/// The values of `m` in ascending key order.
pub open spec fn values_in_order(m: Map<Seq<char>, Jv>) -> Seq<Jv> {
    keys_in_order(m).map_values(|k: Seq<char>| m[k])
}

/// Two sorted key sequences with the same elements are equal.
proof fn lemma_sorted_keys_unique(a: Seq<Seq<char>>, b: Seq<Seq<char>>)
    requires
        key_sorted(a),
        key_sorted(b),
        forall|k: Seq<char>| a.contains(k) <==> b.contains(k),
    ensures
        a == b,
    decreases a.len(),
{
    if a.len() == 0 {
        if b.len() > 0 {
            assert(b.contains(b[0]));
        }
        assert(a =~= b);
    } else {
        assert(a.contains(a[0]));
        let j = choose|j: int| 0 <= j < b.len() && b[j] == a[0];
        assert(b.contains(b[0]));
        let i = choose|i: int| 0 <= i < a.len() && a[i] == b[0];
        if j > 0 {
            assert(key_lt(b[0], b[j]));
            if i > 0 {
                assert(key_lt(a[0], a[i]));
                lemma_key_lt_asymmetric(a[0], b[0]);
            } else {
                lemma_key_lt_irreflexive(a[0]);
            }
        }
        assert(a[0] == b[0]);
        let a2 = a.drop_first();
        let b2 = b.drop_first();
        assert forall|k: Seq<char>| a2.contains(k) <==> b2.contains(k) by {
            if a2.contains(k) {
                let p = choose|p: int| 0 <= p < a2.len() && a2[p] == k;
                assert(a[p + 1] == k);
                assert(key_lt(a[0], a[p + 1]));
                assert(b.contains(k));
                let q = choose|q: int| 0 <= q < b.len() && b[q] == k;
                if q == 0 {
                    lemma_key_lt_irreflexive(k);
                }
                assert(b2[q - 1] == k);
            }
            if b2.contains(k) {
                let p = choose|p: int| 0 <= p < b2.len() && b2[p] == k;
                assert(b[p + 1] == k);
                assert(key_lt(b[0], b[p + 1]));
                assert(a.contains(k));
                let q = choose|q: int| 0 <= q < a.len() && a[q] == k;
                if q == 0 {
                    lemma_key_lt_irreflexive(k);
                }
                assert(a2[q - 1] == k);
            }
        }
        assert forall|x: int, y: int| 0 <= x < y < a2.len() implies key_lt(#[trigger] a2[x], #[trigger] a2[y]) by {
            assert(a2[x] == a[x + 1] && a2[y] == a[y + 1]);
        }
        assert forall|x: int, y: int| 0 <= x < y < b2.len() implies key_lt(#[trigger] b2[x], #[trigger] b2[y]) by {
            assert(b2[x] == b[x + 1] && b2[y] == b[y + 1]);
        }
        lemma_sorted_keys_unique(a2, b2);
        assert(a =~= seq![a[0]] + a2);
        assert(b =~= seq![b[0]] + b2);
    }
}

/// Whether `a` orders strictly before `b`.
fn key_less(a: &Vec<char>, b: &Vec<char>) -> (r: bool)
    ensures
        r == key_lt(a@, b@),
{
    let mut i: usize = 0;
    assert(a@.subrange(0, a@.len() as int) == a@);
    assert(b@.subrange(0, b@.len() as int) == b@);
    while i < a.len() && i < b.len()
        invariant
            i <= a.len(),
            i <= b.len(),
            key_lt(a@, b@) == key_lt(a@.subrange(i as int, a@.len() as int), b@.subrange(i as int, b@.len() as int)),
        decreases a.len() - i,
    {
        let ghost sa = a@.subrange(i as int, a@.len() as int);
        let ghost sb = b@.subrange(i as int, b@.len() as int);
        assert(sa[0] == a@[i as int]);
        assert(sb[0] == b@[i as int]);
        if a[i] != b[i] {
            return a[i] < b[i];
        }
        assert(sa.drop_first() == a@.subrange(i + 1, a@.len() as int));
        assert(sb.drop_first() == b@.subrange(i + 1, b@.len() as int));
        i = i + 1;
    }
    i == a.len() && i < b.len()
}

// ---------------------------------------------------------------------------------------
// Facts about `entries_view`

proof fn lemma_entries_view_char(s: Seq<(String, JsonValue)>)
    requires
        sorted_keys(s),
    ensures
        entries_view(s).dom().finite(),
        entries_view(s).len() == s.len(),
        forall|k: Seq<char>| #[trigger] entries_view(s).contains_key(k) <==> exists|i: int| 0 <= i < s.len() && s[i].0@ == k,
        forall|i: int| 0 <= i < s.len() ==> entries_view(s)[#[trigger] s[i].0@] == json_view(s[i].1),
    decreases s.len(),
{
    if s.len() > 0 {
        let t = s.drop_last();
        assert(sorted_keys(t));
        lemma_entries_view_char(t);
        let k = s.last().0@;
        assert forall|i: int| 0 <= i < t.len() implies t[i].0@ != k by {
            assert(key_lt(s[i].0@, s[s.len() - 1].0@));
            lemma_key_lt_irreflexive(k);
        }
        assert(!entries_view(t).contains_key(k));
        assert forall|kk: Seq<char>| #[trigger] entries_view(s).contains_key(kk) implies exists|i: int| 0 <= i < s.len() && s[i].0@ == kk by {
            if kk == k {
                assert(s[s.len() - 1].0@ == kk);
            } else {
                let i = choose|i: int| 0 <= i < t.len() && t[i].0@ == kk;
                assert(s[i].0@ == kk);
            }
        }
        assert forall|kk: Seq<char>| (exists|i: int| 0 <= i < s.len() && s[i].0@ == kk) implies #[trigger] entries_view(s).contains_key(kk) by {
            let i = choose|i: int| 0 <= i < s.len() && s[i].0@ == kk;
            if i < s.len() - 1 {
                assert(t[i].0@ == kk);
            }
        }
        assert forall|i: int| 0 <= i < s.len() implies entries_view(s)[#[trigger] s[i].0@] == json_view(s[i].1) by {
            if i < s.len() - 1 {
                assert(t[i] == s[i]);
            }
        }
    }
}

proof fn lemma_sorted_unique(s: Seq<(String, JsonValue)>, i: int, j: int)
    requires
        sorted_keys(s),
        0 <= i < s.len(),
        0 <= j < s.len(),
        s[i].0@ == s[j].0@,
    ensures
        i == j,
{
    if i < j {
        assert(key_lt(s[i].0@, s[j].0@));
        lemma_key_lt_irreflexive(s[i].0@);
    } else if j < i {
        assert(key_lt(s[j].0@, s[i].0@));
        lemma_key_lt_irreflexive(s[i].0@);
    }
}

proof fn lemma_seq_view(s: Seq<JsonValue>)
    ensures
        seq_view(s).len() == s.len(),
        forall|i: int| 0 <= i < s.len() ==> #[trigger] seq_view(s)[i] == json_view(s[i]),
    decreases s.len(),
{
    if s.len() > 0 {
        lemma_seq_view(s.drop_last());
        assert forall|i: int| 0 <= i < s.len() implies #[trigger] seq_view(s)[i] == json_view(s[i]) by {
            if i < s.len() - 1 {
                assert(s.drop_last()[i] == s[i]);
            }
        }
    }
}

// ---------------------------------------------------------------------------------------
// Views of constructed values

impl JsonValue {
    /// What a value's view is, case by case.
    pub proof fn lemma_view(self)
        ensures
            match self {
                JsonValue::Null => self@ == Jv::Null,
                JsonValue::Bool(b) => self@ == Jv::Bool(b),
                JsonValue::UInt(n) => self@ == Jv::UInt(n),
                JsonValue::Int(n) => self@ == Jv::Int(n),
                JsonValue::Decimal(s) => self@ == Jv::Decimal(s@),
                JsonValue::Str(s) => self@ == Jv::Str(s@),
                JsonValue::Array(a) => self@ == Jv::Arr(seq_view(a@)) && seq_view(a@).len() == a@.len()
                    && forall|i: int| 0 <= i < a@.len() ==> #[trigger] seq_view(a@)[i] == a@[i]@,
                JsonValue::Object(o) => self@ == Jv::Obj(o@),
            },
    {
        if let JsonValue::Array(a) = self {
            lemma_seq_view(a@);
        }
    }
}

// ---------------------------------------------------------------------------------------
// Objects

/// `k` is the least key of `m` (the member an ordered walk visits first).
pub open spec fn least_key(m: Map<Seq<char>, Jv>, k: Seq<char>) -> bool {
    m.contains_key(k) && forall|k2: Seq<char>| #[trigger] m.contains_key(k2) && k2 != k ==> key_lt(k, k2)
}

/// Placing member (k, v) at position i of a sorted member list (replacing the member there
/// when it has key k) keeps the list sorted and denotes the map updated at k.
proof fn lemma_insert_at(s: Seq<(String, JsonValue)>, i: int, same: bool, k: String, v: JsonValue)
    requires
        sorted_keys(s),
        0 <= i <= s.len(),
        forall|j: int| 0 <= j < i ==> key_lt(#[trigger] s[j].0@, k@),
        i < s.len() ==> !key_lt(s[i].0@, k@),
        same == (i < s.len() && s[i].0@ == k@),
    ensures
        ({
            let ne = if same { s.update(i, (k, v)) } else { s.insert(i, (k, v)) };
            sorted_keys(ne) && entries_view(ne) == entries_view(s).insert(k@, json_view(v))
        }),
{
    let ne = if same { s.update(i, (k, v)) } else { s.insert(i, (k, v)) };
    let kk0 = k@;
    assert forall|j: int| i < j < s.len() implies key_lt(kk0, #[trigger] s[j].0@) by {
        lemma_key_lt_total(kk0, s[i].0@);
        assert(key_lt(s[i].0@, s[j].0@));
        if !same {
            lemma_key_lt_transitive(kk0, s[i].0@, s[j].0@);
        }
    }
    if !same && i < s.len() {
        lemma_key_lt_total(kk0, s[i].0@);
    }
    assert forall|a: int, b: int| 0 <= a < b < ne.len() implies key_lt(#[trigger] ne[a].0@, #[trigger] ne[b].0@) by {
        if a < i && b < i {
        } else if a < i && b == i {
        } else if a < i {
            if same {
                assert(ne[b] == s[b]);
            } else {
                assert(ne[b] == s[b - 1]);
                lemma_key_lt_transitive(ne[a].0@, kk0, ne[b].0@);
            }
        } else if a == i {
            if same { assert(ne[b] == s[b]); } else { assert(ne[b] == s[b - 1]); }
        } else {
            if same {
                assert(ne[a] == s[a] && ne[b] == s[b]);
            } else {
                assert(ne[a] == s[a - 1] && ne[b] == s[b - 1]);
            }
        }
    }
    lemma_entries_view_char(ne);
    lemma_entries_view_char(s);
    let nm = entries_view(ne);
    let om = entries_view(s).insert(kk0, json_view(v));
    assert(ne[i].0@ == kk0);
    assert forall|kk: Seq<char>| nm.contains_key(kk) <==> om.contains_key(kk) by {
        if nm.contains_key(kk) && kk != kk0 {
            let j = choose|j: int| 0 <= j < ne.len() && ne[j].0@ == kk;
            if j < i { assert(s[j].0@ == kk); }
            else if same { assert(s[j].0@ == kk); }
            else { assert(s[j - 1].0@ == kk); }
        }
        if om.contains_key(kk) && kk != kk0 {
            let j = choose|j: int| 0 <= j < s.len() && s[j].0@ == kk;
            if j < i { assert(ne[j].0@ == kk); }
            else if same { assert(ne[j].0@ == kk); }
            else { assert(ne[j + 1].0@ == kk); }
        }
    }
    assert forall|kk: Seq<char>| nm.contains_key(kk) implies nm[kk] == om[kk] by {
        let j = choose|j: int| 0 <= j < ne.len() && ne[j].0@ == kk;
        if kk != kk0 {
            if j < i { assert(ne[j] == s[j]); }
            else if same { assert(ne[j] == s[j]); }
            else { assert(ne[j] == s[j - 1]); }
        }
    }
    assert(nm =~= om);
}

impl JsonObject {
    /// The empty object.
    pub fn new() -> (r: JsonObject)
        ensures
            r@ == Map::<Seq<char>, Jv>::empty(),
    {
        let r = JsonObject { entries: Vec::new() };
        assert(r@ == entries_view(Seq::empty()));
        r
    }

    proof fn lemma_char(&self)
        requires
            sorted_keys(self.entries@),
        ensures
            self@.dom().finite(),
            self@.len() == self.entries@.len(),
            forall|k: Seq<char>| #[trigger] self@.contains_key(k) <==> exists|i: int| 0 <= i < self.entries@.len() && self.entries@[i].0@ == k,
            forall|i: int| 0 <= i < self.entries@.len() ==> self@[#[trigger] self.entries@[i].0@] == json_view(self.entries@[i].1),
            sorted_keys(self.entries@),
    {
        lemma_entries_view_char(self.entries@);
    }

    /// The number of members.
    pub fn len(&self) -> (r: usize)
        ensures
            r == self@.len(),
    {
        proof { use_type_invariant(&*self); self.lemma_char(); }
        self.entries.len()
    }

    /// Whether the object has no members.
    pub fn is_empty(&self) -> (r: bool)
        ensures
            r == (self@.len() == 0),
    {
        proof { use_type_invariant(&*self); self.lemma_char(); }
        self.entries.len() == 0
    }

    /// Position of `key` among the members, if present.
    fn find(&self, key: &str) -> (r: Option<usize>)
        ensures
            match r {
                Some(i) => i < self.entries@.len() && self.entries@[i as int].0@ == key@,
                None => forall|i: int| 0 <= i < self.entries@.len() ==> self.entries@[i].0@ != key@,
            },
    {
        let mut i: usize = 0;
        while i < self.entries.len()
            invariant
                i <= self.entries@.len(),
                forall|j: int| 0 <= j < i ==> self.entries@[j].0@ != key@,
            decreases self.entries.len() - i,
        {
            if text::str_eq(self.entries[i].0.as_str(), key) {
                return Some(i);
            }
            i = i + 1;
        }
        None
    }

    /// The value of member `key`, if present.
    pub fn get(&self, key: &str) -> (r: Option<&JsonValue>)
        ensures
            match r {
                Some(v) => self@.contains_key(key@) && v@ == self@[key@],
                None => !self@.contains_key(key@),
            },
    {
        proof { use_type_invariant(&*self); self.lemma_char(); }
        match self.find(key) {
            Some(i) => Some(&self.entries[i].1),
            None => None,
        }
    }

    /// Whether member `key` is present.
    pub fn contains_key(&self, key: &str) -> (r: bool)
        ensures
            r == self@.contains_key(key@),
    {
        proof { use_type_invariant(&*self); self.lemma_char(); }
        self.find(key).is_some()
    }

    /// Set member `key` to `value`, replacing any previous value.
    pub fn insert(&mut self, key: String, value: JsonValue)
        ensures
            final(self)@ == old(self)@.insert(key@, value@),
    {
        proof { use_type_invariant(&*self); self.lemma_char(); }
        let ghost old_entries = self.entries@;
        let kc = text::chars_of(key.as_str());
        let mut i: usize = 0;
        while i < self.entries.len()
            invariant
                old_entries == self.entries@,
                sorted_keys(old_entries),
                kc@ == key@,
                i <= old_entries.len(),
                forall|j: int| 0 <= j < i ==> key_lt(#[trigger] old_entries[j].0@, key@),
            ensures
                old_entries == self.entries@,
                i <= old_entries.len(),
                forall|j: int| 0 <= j < i ==> key_lt(#[trigger] old_entries[j].0@, key@),
                i < old_entries.len() ==> !key_lt(old_entries[i as int].0@, key@),
            decreases self.entries.len() - i,
        {
            let ec = text::chars_of(self.entries[i].0.as_str());
            if !key_less(&ec, &kc) {
                break;
            }
            i = i + 1;
        }
        let same = i < self.entries.len() && text::str_eq(self.entries[i].0.as_str(), key.as_str());
        let ghost k = key@;
        let ghost v = value;
        let mut es: Vec<(String, JsonValue)> = Vec::new();
        std::mem::swap(&mut es, &mut self.entries);
        if same {
            es.remove(i);
        }
        es.insert(i, (key, value));
        proof {
            if same {
                assert(es@ == old_entries.update(i as int, (es@[i as int].0, v)));
            } else {
                assert(es@ == old_entries.insert(i as int, (es@[i as int].0, v)));
            }
            lemma_insert_at(old_entries, i as int, same, es@[i as int].0, v);
        }
        self.entries = es;
    }

    /// Remove member `key`, returning its value if it was present.
    pub fn remove(&mut self, key: &str) -> (r: Option<JsonValue>)
        ensures
            final(self)@ == old(self)@.remove(key@),
            match r {
                Some(v) => old(self)@.contains_key(key@) && v@ == old(self)@[key@],
                None => !old(self)@.contains_key(key@),
            },
    {
        proof { use_type_invariant(&*self); self.lemma_char(); }
        let ghost old_entries = self.entries@;
        match self.find(key) {
            Some(i) => {
                let mut es: Vec<(String, JsonValue)> = Vec::new();
                std::mem::swap(&mut es, &mut self.entries);
                let (_, v) = es.remove(i);
                proof {
                    let ne = es@;
                    assert forall|a: int, b: int| 0 <= a < b < ne.len() implies key_lt(#[trigger] ne[a].0@, #[trigger] ne[b].0@) by {
                        if b < i { } else if a < i { assert(ne[b] == old_entries[b + 1]); }
                        else { assert(ne[a] == old_entries[a + 1] && ne[b] == old_entries[b + 1]); }
                    }
                    lemma_entries_view_char(ne);
                    let nm = entries_view(ne);
                    let om = entries_view(old_entries).remove(key@);
                    assert forall|kk: Seq<char>| nm.contains_key(kk) <==> om.contains_key(kk) by {
                        if nm.contains_key(kk) {
                            let j = choose|j: int| 0 <= j < ne.len() && ne[j].0@ == kk;
                            if j < i {
                                assert(old_entries[j].0@ == kk);
                                if kk == key@ { lemma_sorted_unique(old_entries, j, i as int); }
                            } else {
                                assert(old_entries[j + 1].0@ == kk);
                                if kk == key@ { lemma_sorted_unique(old_entries, j + 1, i as int); }
                            }
                        }
                        if om.contains_key(kk) {
                            let j = choose|j: int| 0 <= j < old_entries.len() && old_entries[j].0@ == kk;
                            if j < i { assert(ne[j].0@ == kk); }
                            else if j > i { assert(ne[j - 1].0@ == kk); }
                        }
                    }
                    assert forall|kk: Seq<char>| nm.contains_key(kk) implies nm[kk] == om[kk] by {
                        let j = choose|j: int| 0 <= j < ne.len() && ne[j].0@ == kk;
                        if j < i { assert(ne[j] == old_entries[j]); }
                        else { assert(ne[j] == old_entries[j + 1]); }
                    }
                    assert(nm =~= om);
                }
                self.entries = es;
                Some(v)
            },
            None => {
                proof {
                    assert(entries_view(old_entries).remove(key@) =~= entries_view(old_entries));
                }
                None
            },
        }
    }

    /// Builder form of `insert`.
    pub fn with(self, key: &str, value: JsonValue) -> (r: JsonObject)
        ensures
            r@ == self@.insert(key@, value@),
    {
        let mut o = self;
        o.insert(text::own(key), value);
        o
    }
}

/// Reading back a write: after `insert(k, v)` (whose result is `m.insert(k, v)`), `get(k)`
/// finds `v`, and every other key reads as before; after `remove(k)`, `get(k)` finds
/// nothing and every other key reads as before.
pub proof fn law_read_after_write(m: Map<Seq<char>, Jv>, k: Seq<char>, v: Jv, other: Seq<char>)
    requires
        other != k,
    ensures
        m.insert(k, v).contains_key(k) && m.insert(k, v)[k] == v,
        m.insert(k, v).contains_key(other) == m.contains_key(other),
        m.contains_key(other) ==> m.insert(k, v)[other] == m[other],
        !m.remove(k).contains_key(k),
        m.remove(k).contains_key(other) == m.contains_key(other),
        m.contains_key(other) ==> m.remove(k)[other] == m[other],
{
}

proof fn lemma_entries_view_congruent(a: Seq<(String, JsonValue)>, b: Seq<(String, JsonValue)>)
    requires
        a.len() == b.len(),
        forall|i: int| 0 <= i < a.len() ==> (#[trigger] a[i]).0@ == b[i].0@ && json_view(a[i].1) == json_view(b[i].1),
    ensures
        entries_view(a) == entries_view(b),
    decreases a.len(),
{
    if a.len() > 0 {
        lemma_entries_view_congruent(a.drop_last(), b.drop_last());
        assert(a.last() == a[a.len() - 1]);
    }
}

proof fn lemma_seq_view_congruent(a: Seq<JsonValue>, b: Seq<JsonValue>)
    requires
        a.len() == b.len(),
        forall|i: int| 0 <= i < a.len() ==> json_view(#[trigger] a[i]) == json_view(b[i]),
    ensures
        seq_view(a) == seq_view(b),
    decreases a.len(),
{
    if a.len() > 0 {
        lemma_seq_view_congruent(a.drop_last(), b.drop_last());
        assert(a.last() == a[a.len() - 1]);
    }
}

impl JsonValue {
    /// A copy of the value, member for member.
    pub fn deep_clone(&self) -> (r: JsonValue)
        ensures
            r@ == self@,
        decreases self,
    {
        match self {
            JsonValue::Null => JsonValue::Null,
            JsonValue::Bool(b) => JsonValue::Bool(*b),
            JsonValue::UInt(n) => JsonValue::UInt(*n),
            JsonValue::Int(n) => JsonValue::Int(*n),
            JsonValue::Decimal(s) => JsonValue::Decimal(s.clone()),
            JsonValue::Str(s) => JsonValue::Str(s.clone()),
            JsonValue::Array(a) => {
                let mut out: Vec<JsonValue> = Vec::new();
                let mut i: usize = 0;
                while i < a.len()
                    invariant
                        i <= a.len(),
                        *self == JsonValue::Array(*a),
                        out@.len() == i,
                        forall|j: int| 0 <= j < i ==> json_view(#[trigger] out@[j]) == json_view(a@[j]),
                    decreases a.len() - i,
                {
                    proof {
                        vstd::std_specs::vec::axiom_vec_index_decreases(*a, i as int);
                        assert(decreases_to!(*self => self->Array_0));
                    }
                    let c = a[i].deep_clone();
                    out.push(c);
                    i = i + 1;
                }
                proof { lemma_seq_view_congruent(out@, a@); }
                JsonValue::Array(out)
            },
            JsonValue::Object(o) => {
                proof { assert(decreases_to!(*self => self->Object_0)); }
                JsonValue::Object(o.deep_clone())
            },
        }
    }

    /// The text of a string value.
    pub fn as_str(&self) -> (r: Option<&str>)
        ensures
            match self@ {
                Jv::Str(s) => r is Some && r->0@ == s,
                _ => r is None,
            },
    {
        proof { self.lemma_view(); }
        match self {
            JsonValue::Str(s) => Some(s.as_str()),
            _ => None,
        }
    }

    /// The value of a boolean.
    pub fn as_bool(&self) -> (r: Option<bool>)
        ensures
            match self@ {
                Jv::Bool(b) => r == Some(b),
                _ => r is None,
            },
    {
        proof { self.lemma_view(); }
        match self {
            JsonValue::Bool(b) => Some(*b),
            _ => None,
        }
    }

    /// The value of a non-negative integer.
    pub fn as_u64(&self) -> (r: Option<u64>)
        ensures
            r == as_u64_spec(self@),
    {
        proof { self.lemma_view(); }
        match self {
            JsonValue::UInt(n) => Some(*n),
            JsonValue::Int(n) => if *n >= 0 { Some(*n as u64) } else { None },
            _ => None,
        }
    }

    /// The elements of an array.
    pub fn as_array(&self) -> (r: Option<&Vec<JsonValue>>)
        ensures
            match self@ {
                Jv::Arr(s) => r is Some && r->0@.len() == s.len()
                    && forall|i: int| 0 <= i < s.len() ==> (#[trigger] r->0@[i])@ == s[i],
                _ => r is None,
            },
    {
        proof { self.lemma_view(); }
        match self {
            JsonValue::Array(a) => Some(a),
            _ => None,
        }
    }

    /// The members of an object.
    pub fn as_object(&self) -> (r: Option<&JsonObject>)
        ensures
            match self@ {
                Jv::Obj(m) => r is Some && r->0@ == m,
                _ => r is None,
            },
    {
        proof { self.lemma_view(); }
        match self {
            JsonValue::Object(o) => Some(o),
            _ => None,
        }
    }

    /// Member `key` of an object; `None` for a missing member or a non-object.
    pub fn get(&self, key: &str) -> (r: Option<&JsonValue>)
        ensures
            r matches Some(v) ==> v@ == member(self@, key@)->0,
            r is Some <==> member(self@, key@) is Some,
    {
        proof { self.lemma_view(); }
        match self {
            JsonValue::Object(o) => o.get(key),
            _ => None,
        }
    }

    /// A string value.
    pub fn string(s: &str) -> (r: JsonValue)
        ensures
            r@ == Jv::Str(s@),
    {
        let r = JsonValue::Str(text::own(s));
        proof { r.lemma_view(); }
        r
    }

    /// An object value.
    pub fn object(o: JsonObject) -> (r: JsonValue)
        ensures
            r@ == Jv::Obj(o@),
    {
        let r = JsonValue::Object(o);
        proof { r.lemma_view(); }
        r
    }

    /// An array value.
    pub fn array(a: Vec<JsonValue>) -> (r: JsonValue)
        ensures
            r@ == Jv::Arr(views(a@)),
    {
        let r = JsonValue::Array(a);
        proof { r.lemma_view(); lemma_views(a@); }
        r
    }
}

impl JsonValue {
    /// An array of one element.
    pub fn single(v: JsonValue) -> (r: JsonValue)
        ensures
            r@ == Jv::Arr(seq![v@]),
    {
        let a = vec![v];
        let r = JsonValue::array(a);
        assert(views(a@) =~= seq![v@]);
        r
    }
}

/// The views of a sequence of values, element by element.
pub open spec fn views(s: Seq<JsonValue>) -> Seq<Jv> {
    Seq::new(s.len(), |i: int| s[i]@)
}

proof fn lemma_views(s: Seq<JsonValue>)
    ensures
        views(s) == seq_view(s),
{
    lemma_seq_view(s);
    assert(views(s) =~= seq_view(s));
}

/// Member `k` of an object value.
pub open spec fn member(v: Jv, k: Seq<char>) -> Option<Jv> {
    match v {
        Jv::Obj(m) => if m.contains_key(k) { Some(m[k]) } else { None },
        _ => None,
    }
}

/// What `as_u64` reads from a value.
pub open spec fn as_u64_spec(v: Jv) -> Option<u64> {
    match v {
        Jv::UInt(n) => Some(n),
        Jv::Int(n) => if n >= 0 { Some(n as u64) } else { None },
        _ => None,
    }
}

impl JsonObject {
    /// A copy of the object, member for member.
    pub fn deep_clone(&self) -> (r: JsonObject)
        ensures
            r@ == self@,
        decreases self,
    {
        proof { use_type_invariant(&*self); }
        let mut out: Vec<(String, JsonValue)> = Vec::new();
        let mut i: usize = 0;
        while i < self.entries.len()
            invariant
                i <= self.entries@.len(),
                sorted_keys(self.entries@),
                out@.len() == i,
                forall|j: int| 0 <= j < i ==> (#[trigger] out@[j]).0@ == self.entries@[j].0@
                    && json_view(out@[j].1) == json_view(self.entries@[j].1),
            decreases self.entries.len() - i,
        {
            proof {
                vstd::std_specs::vec::axiom_vec_index_decreases(self.entries, i as int);
                assert(decreases_to!(*self => self.entries));
            }
            let k = self.entries[i].0.clone();
            let v = self.entries[i].1.deep_clone();
            out.push((k, v));
            i = i + 1;
        }
        proof {
            assert forall|a: int, b: int| 0 <= a < b < out@.len() implies key_lt(#[trigger] out@[a].0@, #[trigger] out@[b].0@) by {
                assert(key_lt(self.entries@[a].0@, self.entries@[b].0@));
            }
            lemma_entries_view_congruent(out@, self.entries@);
        }
        JsonObject { entries: out }
    }

    /// Whether every value is a boolean.
    pub fn all_bools(&self) -> (r: bool)
        ensures
            r == bool_map(self@),
    {
        proof { use_type_invariant(&*self); self.lemma_char(); }
        let mut i: usize = 0;
        while i < self.entries.len()
            invariant
                i <= self.entries@.len(),
                sorted_keys(self.entries@),
                forall|j: int| 0 <= j < i ==> (#[trigger] self.entries@[j]).1@ is Bool,
            decreases self.entries.len() - i,
        {
            if self.entries[i].1.as_bool().is_none() {
                proof { self.lemma_char(); }
                assert(self@.contains_key(self.entries@[i as int].0@));
                assert(self@[self.entries@[i as int].0@] == self.entries@[i as int].1@);
                return false;
            }
            i = i + 1;
        }
        proof {
            self.lemma_char();
            assert forall|k: Seq<char>| #[trigger] self@.contains_key(k) implies self@[k] is Bool by {
                let j = choose|j: int| 0 <= j < self.entries@.len() && self.entries@[j].0@ == k;
                assert(self.entries@[j].1@ is Bool);
            }
        }
        true
    }

    /// The members in ascending key order.
    pub fn members(&self) -> (r: &Vec<(String, JsonValue)>)
        ensures
            r@.len() == self@.len(),
            forall|i: int| 0 <= i < r@.len() ==> #[trigger] self@.contains_key(r@[i].0@) && self@[r@[i].0@] == r@[i].1@,
            forall|i: int, j: int| 0 <= i < j < r@.len() ==> key_lt(#[trigger] r@[i].0@, #[trigger] r@[j].0@),
            forall|k: Seq<char>| #[trigger] self@.contains_key(k) ==> exists|i: int| 0 <= i < r@.len() && r@[i].0@ == k,
            r@.map_values(|e: (String, JsonValue)| e.0@) == keys_in_order(self@),
            keys_in_order(self@).len() == r@.len(),
            forall|i: int| 0 <= i < r@.len() ==> keys_in_order(self@)[i] == (#[trigger] r@[i]).0@,
            values_in_order(self@).len() == r@.len(),
            forall|i: int| 0 <= i < r@.len() ==> values_in_order(self@)[i] == (#[trigger] r@[i]).1@,
    {
        proof {
            use_type_invariant(&*self);
            self.lemma_char();
            let w = self.entries@.map_values(|e: (String, JsonValue)| e.0@);
            assert forall|k: Seq<char>| w.contains(k) <==> #[trigger] self@.contains_key(k) by {
                if self@.contains_key(k) {
                    let i = choose|i: int| 0 <= i < self.entries@.len() && self.entries@[i].0@ == k;
                    assert(w[i] == k);
                }
                if w.contains(k) {
                    let i = choose|i: int| 0 <= i < w.len() && w[i] == k;
                    assert(self.entries@[i].0@ == k);
                }
            }
            assert(key_sorted(w));
            let c = keys_in_order(self@);
            assert(key_sorted(c) && forall|k: Seq<char>| c.contains(k) <==> #[trigger] self@.contains_key(k));
            assert forall|k: Seq<char>| c.contains(k) <==> w.contains(k) by {
                assert(c.contains(k) <==> self@.contains_key(k));
                assert(w.contains(k) <==> self@.contains_key(k));
            }
            lemma_sorted_keys_unique(c, w);
            assert forall|i: int| 0 <= i < self.entries@.len() implies values_in_order(self@)[i] == (#[trigger] self.entries@[i]).1@ by {
                assert(c[i] == w[i]);
                assert(self@.contains_key(self.entries@[i].0@));
            }
        }
        &self.entries
    }
}

/// The least key of a non-empty object (the member an ordered walk visits first).
pub open spec fn first_key(m: Map<Seq<char>, Jv>) -> Seq<char> {
    choose|k: Seq<char>| least_key(m, k)
}

/// A map has at most one least key.
pub proof fn lemma_least_key_unique(m: Map<Seq<char>, Jv>, k: Seq<char>)
    requires
        least_key(m, k),
    ensures
        first_key(m) == k,
{
    let f = first_key(m);
    assert(least_key(m, f));
    if f != k {
        assert(key_lt(k, f));
        assert(key_lt(f, k));
        lemma_key_lt_asymmetric(k, f);
    }
}

impl JsonObject {
    /// The member with the least key, if any.
    pub fn first(&self) -> (r: Option<(&String, &JsonValue)>)
        ensures
            match r {
                Some((k, v)) => self@.dom().len() > 0 && least_key(self@, k@) && first_key(self@) == k@ && v@ == self@[k@],
                None => self@.dom().len() == 0 && self@ == Map::<Seq<char>, Jv>::empty(),
            },
    {
        let ms = self.members();
        if ms.len() == 0 {
            proof {
                use_type_invariant(&*self);
                self.lemma_char();
                assert(self@ =~= Map::<Seq<char>, Jv>::empty());
            }
            return None;
        }
        let k = &ms[0].0;
        proof {
            use_type_invariant(&*self);
            self.lemma_char();
            assert forall|k2: Seq<char>| #[trigger] self@.contains_key(k2) && k2 != k@ implies key_lt(k@, k2) by {
                let j = choose|j: int| 0 <= j < ms@.len() && ms@[j].0@ == k2;
                assert(j != 0);
                assert(key_lt(ms@[0].0@, ms@[j].0@));
            }
            assert(self@.contains_key(k@));
            lemma_least_key_unique(self@, k@);
        }
        Some((k, &ms[0].1))
    }
}

// ---------------------------------------------------------------------------------------
// JSON Pointer (RFC 6901)

/// The pieces of `s` between `/` separators (always at least one piece), as `str::split`.
pub open spec fn split_slash(s: Seq<char>) -> Seq<Seq<char>>
    decreases s.len(),
{
    if s.len() == 0 {
        seq![Seq::empty()]
    } else {
        let rest = split_slash(s.drop_first());
        if s[0] == '/' {
            seq![Seq::empty()] + rest
        } else {
            rest.update(0, seq![s[0]] + rest[0])
        }
    }
}

/// A reference token with its escapes `~1` and `~0` undone, in that order.
pub open spec fn unescape_token(t: Seq<char>) -> Seq<char> {
    text::replace_all(text::replace_all(t, seq!['~', '1'], seq!['/']), seq!['~', '0'], seq!['~'])
}

/// The value of a run of decimal digits.
pub open spec fn digits_value(t: Seq<char>) -> nat
    decreases t.len(),
{
    if t.len() == 0 {
        0
    } else {
        digits_value(t.drop_last()) * 10 + ((t.last() as int - 48) as nat)
    }
}

pub open spec fn is_digit(c: char) -> bool {
    48 <= (c as int) <= 57
}

/// An array index token: decimal digits, no sign, no leading zero but for `0` itself.
pub open spec fn index_token(t: Seq<char>) -> Option<nat> {
    if t.len() > 0 && (forall|i: int| 0 <= i < t.len() ==> is_digit(#[trigger] t[i])) && (t.len() == 1 || t[0] != '0') {
        Some(digits_value(t))
    } else {
        None
    }
}

/// One step of a pointer walk: member `t` of an object, element `t` of an array.
pub open spec fn pointer_step(v: Jv, t: Seq<char>) -> Option<Jv> {
    match v {
        Jv::Obj(m) => if m.contains_key(t) { Some(m[t]) } else { None },
        Jv::Arr(a) => match index_token(t) {
            Some(i) => if i < a.len() { Some(a[i as int]) } else { None },
            None => None,
        },
        _ => None,
    }
}

/// Walking `v` along the (escaped) tokens `toks`.
pub open spec fn pointer_walk(v: Jv, toks: Seq<Seq<char>>) -> Option<Jv>
    decreases toks.len(),
{
    if toks.len() == 0 {
        Some(v)
    } else {
        match pointer_step(v, unescape_token(toks[0])) {
            Some(w) => pointer_walk(w, toks.drop_first()),
            None => None,
        }
    }
}

/// The value that JSON Pointer `p` designates in `v` (`Value::pointer`).
pub open spec fn pointer_spec(v: Jv, p: Seq<char>) -> Option<Jv> {
    if p.len() == 0 {
        Some(v)
    } else if p[0] != '/' {
        None
    } else {
        pointer_walk(v, split_slash(p.drop_first()))
    }
}

proof fn lemma_split_slash_nonempty(s: Seq<char>)
    ensures
        split_slash(s).len() >= 1,
    decreases s.len(),
{
    if s.len() > 0 {
        lemma_split_slash_nonempty(s.drop_first());
    }
}

/// With no separator in `t`, `t` is a single piece, and `t + / + u` splits into `t` and
/// the pieces of `u`.
proof fn lemma_split_slash_piece(t: Seq<char>, u: Seq<char>)
    requires
        forall|i: int| 0 <= i < t.len() ==> t[i] != '/',
    ensures
        split_slash(t) == seq![t],
        split_slash(t + seq!['/'] + u) == seq![t] + split_slash(u),
    decreases t.len(),
{
    lemma_split_slash_nonempty(u);
    if t.len() == 0 {
        assert(t + seq!['/'] + u == seq!['/'] + u);
        assert((seq!['/'] + u).drop_first() == u);
        assert(t == Seq::<char>::empty());
    } else {
        let t2 = t.drop_first();
        lemma_split_slash_piece(t2, u);
        assert((t + seq!['/'] + u).drop_first() == t2 + seq!['/'] + u);
        assert((t + seq!['/'] + u)[0] == t[0]);
        assert(seq![t[0]] + t2 == t);
        assert(split_slash(t) == seq![t2].update(0, seq![t[0]] + t2));
        assert(split_slash(t) =~= seq![t]);
        let r = seq![t2] + split_slash(u);
        assert(r.update(0, seq![t[0]] + r[0]) =~= seq![t] + split_slash(u));
    }
}

/// The array index a token designates, below `len`.
fn parse_index(t: &Vec<char>, len: usize) -> (r: Option<usize>)
    ensures
        match r {
            Some(i) => index_token(t@) == Some(i as nat) && i < len,
            None => !(index_token(t@) matches Some(i) && i < len),
        },
{
    if len == 0 || t.len() == 0 || (t.len() > 1 && t[0] == '0') {
        return None;
    }
    let mut n: usize = 0;
    let mut i: usize = 0;
    while i < t.len()
        invariant
            i <= t.len(),
            t.len() > 0,
            forall|j: int| 0 <= j < i ==> is_digit(#[trigger] t@[j]),
            n == digits_value(t@.take(i as int)),
            n < len,
        decreases t.len() - i,
    {
        let c = t[i];
        if !('0' <= c && c <= '9') {
            assert(!is_digit(t@[i as int]));
            return None;
        }
        let d = (c as u32 - '0' as u32) as usize;
        assert(t@.take(i as int + 1).drop_last() == t@.take(i as int));
        if d >= len || n > (len - 1 - d) / 10 {
            // n * 10 + d reaches len; with more digits it only grows
            proof {
                assert(n * 10 + d >= len) by (nonlinear_arith)
                    requires
                        d >= len || n > (len - 1 - d) / 10,
                        d < 10,
                ;
                lemma_digits_value_grows(t@, i as int + 1);
            }
            return None;
        }
        n = n * 10 + d;
        i = i + 1;
    }
    assert(t@.take(t.len() as int) == t@);
    Some(n)
}

proof fn lemma_digits_value_grows(t: Seq<char>, k: int)
    requires
        0 <= k <= t.len(),
        forall|j: int| 0 <= j < t.len() && is_digit(t[j]) ==> true,
    ensures
        (forall|j: int| 0 <= j < t.len() ==> is_digit(#[trigger] t[j])) ==> digits_value(t) >= digits_value(t.take(k)),
    decreases t.len() - k,
{
    if k < t.len() && (forall|j: int| 0 <= j < t.len() ==> is_digit(#[trigger] t[j])) {
        lemma_digits_value_grows(t, k + 1);
        assert(t.take(k + 1).drop_last() == t.take(k));
        assert(is_digit(t[k]));
    }
    if k == t.len() {
        assert(t.take(k) == t);
    }
}

impl JsonValue {
    /// The value that JSON Pointer `ptr` designates (`Value::pointer`).
    pub fn pointer(&self, ptr: &str) -> (r: Option<&JsonValue>)
        ensures
            r matches Some(v) ==> pointer_spec(self@, ptr@) == Some(v@),
            r is None ==> pointer_spec(self@, ptr@) is None,
    {
        let p = text::chars_of(ptr);
        if p.len() == 0 {
            return Some(self);
        }
        if p[0] != '/' {
            return None;
        }
        let mut cur: &JsonValue = self;
        let mut i: usize = 1;
        assert(p@.subrange(1, p@.len() as int) == p@.drop_first());
        loop
            invariant
                1 <= i <= p.len(),
                p@ == ptr@,
                p@.len() > 0 && p@[0] == '/',
                pointer_spec(self@, ptr@) == pointer_walk(cur@, split_slash(p@.subrange(i as int, p@.len() as int))),
            decreases p.len() - i,
        {
            // the token runs from i to the next separator (or the end)
            let mut j: usize = i;
            while j < p.len() && p[j] != '/'
                invariant
                    i <= j <= p.len(),
                    forall|m: int| i <= m < j ==> p@[m] != '/',
                decreases p.len() - j,
            {
                j = j + 1;
            }
            let ghost tok = p@.subrange(i as int, j as int);
            let ghost rest = p@.subrange(i as int, p@.len() as int);
            proof {
                if j < p.len() {
                    let u = p@.subrange(j + 1, p@.len() as int);
                    assert(rest == tok + seq!['/'] + u);
                    lemma_split_slash_piece(tok, u);
                } else {
                    assert(rest == tok);
                    lemma_split_slash_piece(tok, Seq::empty());
                }
            }
            let mut tv: Vec<char> = Vec::new();
            let mut m: usize = i;
            while m < j
                invariant
                    i <= m <= j,
                    j <= p.len(),
                    tv@ == p@.subrange(i as int, m as int),
                decreases j - m,
            {
                tv.push(p[m]);
                assert(p@.subrange(i as int, m as int + 1) == p@.subrange(i as int, m as int).push(p@[m as int]));
                m = m + 1;
            }
            let e1: Vec<char> = vec!['~', '1'];
            let s1: Vec<char> = vec!['/'];
            let e0: Vec<char> = vec!['~', '0'];
            let s0: Vec<char> = vec!['~'];
            assert(e1@ == seq!['~', '1']);
            assert(s1@ == seq!['/']);
            assert(e0@ == seq!['~', '0']);
            assert(s0@ == seq!['~']);
            let t1 = text::replace_chars(&tv, &e1, &s1);
            let tk = text::replace_chars(&t1, &e0, &s0);
            assert(tv@ == tok);
            assert(tk@ == unescape_token(tok));
            proof {
                lemma_split_slash_nonempty(rest);
                assert(split_slash(rest)[0] == tok);
                assert(pointer_walk(cur@, split_slash(rest)) == match pointer_step(cur@, unescape_token(tok)) {
                    Some(w) => pointer_walk(w, split_slash(rest).drop_first()),
                    None => None,
                });
            }
            let next: &JsonValue = match cur {
                JsonValue::Object(o) => {
                    let ks = text::string_of(&tk);
                    match o.get(ks.as_str()) {
                        Some(v) => v,
                        None => {
                            proof { cur.lemma_view(); }
                            return None;
                        },
                    }
                },
                JsonValue::Array(a) => {
                    proof { cur.lemma_view(); }
                    match parse_index(&tk, a.len()) {
                        Some(ix) => &a[ix],
                        None => return None,
                    }
                },
                _ => {
                    proof { cur.lemma_view(); }
                    return None;
                },
            };
            proof {
                cur.lemma_view();
                assert(pointer_step(cur@, unescape_token(tok)) == Some(next@));
            }
            if j == p.len() {
                proof {
                    assert(split_slash(rest).drop_first() =~= Seq::<Seq<char>>::empty());
                }
                return Some(next);
            }
            proof {
                let u = p@.subrange(j + 1, p@.len() as int);
                assert(split_slash(rest).drop_first() =~= split_slash(u));
            }
            cur = next;
            i = j + 1;
        }
    }
}

/// The string at `p` in `v`, if there is one.
pub open spec fn str_at_spec(v: Jv, p: Seq<char>) -> Option<Seq<char>> {
    match pointer_spec(v, p) {
        Some(Jv::Str(s)) => Some(s),
        _ => None,
    }
}

/// The array at `p` in `v`, if there is one.
pub open spec fn array_at_spec(v: Jv, p: Seq<char>) -> Option<Seq<Jv>> {
    match pointer_spec(v, p) {
        Some(Jv::Arr(a)) => Some(a),
        _ => None,
    }
}

/// The boolean at `p` in `v`, if there is one.
pub open spec fn bool_at_spec(v: Jv, p: Seq<char>) -> Option<bool> {
    match pointer_spec(v, p) {
        Some(Jv::Bool(b)) => Some(b),
        _ => None,
    }
}

/// Borrow the string at JSON Pointer `ptr`, or `None` if absent or not a string.
pub fn str_at<'a>(v: &'a JsonValue, ptr: &str) -> (r: Option<&'a str>)
    ensures
        match r {
            Some(s) => str_at_spec(v@, ptr@) == Some(s@),
            None => str_at_spec(v@, ptr@) is None,
        },
{
    match v.pointer(ptr) {
        Some(x) => x.as_str(),
        None => None,
    }
}

/// Borrow the array at JSON Pointer `ptr`, or `None` if absent or not an array.
pub fn array_at<'a>(v: &'a JsonValue, ptr: &str) -> (r: Option<&'a Vec<JsonValue>>)
    ensures
        match r {
            Some(a) => array_at_spec(v@, ptr@) == Some(views(a@)),
            None => array_at_spec(v@, ptr@) is None,
        },
{
    match v.pointer(ptr) {
        Some(x) => x.as_array(),
        None => None,
    }
}

/// Read the bool at JSON Pointer `ptr`, or `None` if absent or not a bool.
pub fn bool_at(v: &JsonValue, ptr: &str) -> (r: Option<bool>)
    ensures
        r == bool_at_spec(v@, ptr@),
{
    match v.pointer(ptr) {
        Some(x) => x.as_bool(),
        None => None,
    }
}

// ---------------------------------------------------------------------------------------
// Reading typed members with defaults (an absent member reads as its type's default)

/// A string member: absent reads as empty; any other kind of value is unreadable.
pub open spec fn str_member(m: Map<Seq<char>, Jv>, k: Seq<char>) -> Option<Seq<char>> {
    if !m.contains_key(k) {
        Some(Seq::empty())
    } else {
        match m[k] {
            Jv::Str(s) => Some(s),
            _ => None,
        }
    }
}

/// A boolean member: absent reads as false.
pub open spec fn bool_member(m: Map<Seq<char>, Jv>, k: Seq<char>) -> Option<bool> {
    if !m.contains_key(k) {
        Some(false)
    } else {
        match m[k] {
            Jv::Bool(b) => Some(b),
            _ => None,
        }
    }
}

/// A non-negative integer member: absent reads as 0.
pub open spec fn u64_member(m: Map<Seq<char>, Jv>, k: Seq<char>) -> Option<u64> {
    if !m.contains_key(k) {
        Some(0)
    } else {
        as_u64_spec(m[k])
    }
}

/// An optional non-negative integer member: absent or null reads as `None`.
pub open spec fn opt_u64_member(m: Map<Seq<char>, Jv>, k: Seq<char>) -> Option<Option<u64>> {
    if !m.contains_key(k) || m[k] == Jv::Null {
        Some(None)
    } else {
        match as_u64_spec(m[k]) {
            Some(n) => Some(Some(n)),
            None => None,
        }
    }
}

/// An optional string member: absent or null reads as `None`.
pub open spec fn opt_str_member(m: Map<Seq<char>, Jv>, k: Seq<char>) -> Option<Option<Seq<char>>> {
    if !m.contains_key(k) || m[k] == Jv::Null {
        Some(None)
    } else {
        match m[k] {
            Jv::Str(s) => Some(Some(s)),
            _ => None,
        }
    }
}

/// Whether every element is a string.
pub open spec fn all_str(a: Seq<Jv>) -> bool {
    forall|i: int| 0 <= i < a.len() ==> (#[trigger] a[i]) is Str
}

/// The texts of an array of strings.
pub open spec fn str_texts(a: Seq<Jv>) -> Seq<Seq<char>> {
    a.map_values(|j: Jv| j->Str_0)
}

/// A member holding a list of strings: absent reads as empty.
pub open spec fn str_list_member(m: Map<Seq<char>, Jv>, k: Seq<char>) -> Option<Seq<Seq<char>>> {
    if !m.contains_key(k) {
        Some(Seq::empty())
    } else {
        match m[k] {
            Jv::Arr(a) => if all_str(a) { Some(str_texts(a)) } else { None },
            _ => None,
        }
    }
}

/// An object member: absent reads as the empty object.
pub open spec fn obj_member(m: Map<Seq<char>, Jv>, k: Seq<char>) -> Option<Map<Seq<char>, Jv>> {
    if !m.contains_key(k) {
        Some(Map::empty())
    } else {
        match m[k] {
            Jv::Obj(o) => Some(o),
            _ => None,
        }
    }
}

/// The texts of strings.
pub open spec fn texts(v: Seq<String>) -> Seq<Seq<char>> {
    v.map_values(|s: String| s@)
}

/// Read a string member (see `str_member`).
pub fn read_str(o: &JsonObject, k: &str) -> (r: Option<String>)
    ensures
        match r {
            Some(s) => str_member(o@, k@) == Some(s@),
            None => str_member(o@, k@) is None,
        },
{
    match o.get(k) {
        None => Some(String::new()),
        Some(v) => match v.as_str() {
            Some(s) => Some(text::own(s)),
            None => None,
        },
    }
}

/// Read a boolean member (see `bool_member`).
pub fn read_bool(o: &JsonObject, k: &str) -> (r: Option<bool>)
    ensures
        r == bool_member(o@, k@),
{
    match o.get(k) {
        None => Some(false),
        Some(v) => v.as_bool(),
    }
}

/// Read a non-negative integer member (see `u64_member`).
pub fn read_u64(o: &JsonObject, k: &str) -> (r: Option<u64>)
    ensures
        r == u64_member(o@, k@),
{
    match o.get(k) {
        None => Some(0),
        Some(v) => v.as_u64(),
    }
}

/// Read an optional non-negative integer member (see `opt_u64_member`).
pub fn read_opt_u64(o: &JsonObject, k: &str) -> (r: Option<Option<u64>>)
    ensures
        r == opt_u64_member(o@, k@),
{
    match o.get(k) {
        None => Some(None),
        Some(v) => {
            proof { v.lemma_view(); }
            if let JsonValue::Null = v {
                Some(None)
            } else {
                match v.as_u64() {
                    Some(n) => Some(Some(n)),
                    None => None,
                }
            }
        },
    }
}

/// Read an optional string member (see `opt_str_member`).
pub fn read_opt_str(o: &JsonObject, k: &str) -> (r: Option<Option<String>>)
    ensures
        match r {
            Some(Some(s)) => opt_str_member(o@, k@) == Some(Some(s@)),
            Some(None) => opt_str_member(o@, k@) == Some(None::<Seq<char>>),
            None => opt_str_member(o@, k@) is None,
        },
{
    match o.get(k) {
        None => Some(None),
        Some(v) => {
            proof { v.lemma_view(); }
            if let JsonValue::Null = v {
                Some(None)
            } else {
                match v.as_str() {
                    Some(s) => Some(Some(text::own(s))),
                    None => None,
                }
            }
        },
    }
}

/// The strings of an array value, if every element is a string.
pub fn string_list(a: &Vec<JsonValue>) -> (r: Option<Vec<String>>)
    ensures
        match r {
            Some(v) => all_str(views(a@)) && texts(v@) == str_texts(views(a@)),
            None => !all_str(views(a@)),
        },
{
    let mut out: Vec<String> = Vec::new();
    let mut i: usize = 0;
    while i < a.len()
        invariant
            i <= a.len(),
            out@.len() == i,
            forall|j: int| 0 <= j < i ==> (#[trigger] a@[j])@ is Str && a@[j]@->Str_0 == out@[j]@,
        decreases a.len() - i,
    {
        match a[i].as_str() {
            Some(s) => out.push(text::own(s)),
            None => {
                assert(!(views(a@)[i as int] is Str));
                return None;
            },
        }
        i = i + 1;
    }
    assert(texts(out@) =~= str_texts(views(a@)));
    Some(out)
}

/// Read a member holding a list of strings (see `str_list_member`).
pub fn read_str_list(o: &JsonObject, k: &str) -> (r: Option<Vec<String>>)
    ensures
        match r {
            Some(v) => str_list_member(o@, k@) == Some(texts(v@)),
            None => str_list_member(o@, k@) is None,
        },
{
    match o.get(k) {
        None => {
            let v: Vec<String> = Vec::new();
            assert(texts(v@) =~= Seq::<Seq<char>>::empty());
            Some(v)
        },
        Some(v) => match v.as_array() {
            Some(a) => {
                proof { assert(views(a@) =~= v@->Arr_0); }
                string_list(a)
            },
            None => None,
        },
    }
}

/// An array of strings.
pub fn string_array(v: &Vec<String>) -> (r: JsonValue)
    ensures
        r@ == Jv::Arr(texts(v@).map_values(|s: Seq<char>| Jv::Str(s))),
{
    let mut out: Vec<JsonValue> = Vec::new();
    let mut i: usize = 0;
    while i < v.len()
        invariant
            i <= v.len(),
            out@.len() == i,
            forall|j: int| 0 <= j < i ==> (#[trigger] out@[j])@ == Jv::Str(v@[j]@),
        decreases v.len() - i,
    {
        out.push(JsonValue::string(v[i].as_str()));
        i = i + 1;
    }
    let r = JsonValue::array(out);
    assert(views(out@) =~= texts(v@).map_values(|s: Seq<char>| Jv::Str(s)));
    r
}

impl Clone for JsonValue {
    fn clone(&self) -> (r: Self)
        ensures
            r@ == self@,
    {
        self.deep_clone()
    }
}

} // verus!
