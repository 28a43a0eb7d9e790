//! The JSON values that findings and inventory entries carry.
//!
//! Scalars that the library reads are held as plain values; anything else
//! (arrays, nested documents, non-integral numbers) is carried through as an
//! opaque `serde_json::Value`.

use vstd::prelude::*;
use crate::text::str_eq;

verus! {

#[verifier::external_type_specification]
#[verifier::external_body]
pub struct ExJsonDocument(serde_json::Value);

/// Calls `<serde_json::Value as Clone>::clone`. The contract claims that the
/// copy equals the value it was made from.
#[verifier::external_body]
fn clone_document(v: &serde_json::Value) -> (r: serde_json::Value)
    ensures
        r == *v,
{
    v.clone()
}

/// A JSON value as the library sees it.
pub enum JsonValue {
    Null,
    Bool(bool),
    /// A non-negative integer.
    UInt(u64),
    /// A negative integer.
    NegInt(i64),
    Str(String),
    /// Any other JSON value (array, object, fractional number), carried as is.
    Other(serde_json::Value),
}

/// The mathematical model of a `JsonValue`.
pub enum JsonView {
    Null,
    Bool(bool),
    UInt(u64),
    NegInt(i64),
    Str(Seq<char>),
    Other(serde_json::Value),
}

impl View for JsonValue {
    type V = JsonView;

    open spec fn view(&self) -> JsonView {
        match self {
            JsonValue::Null => JsonView::Null,
            JsonValue::Bool(b) => JsonView::Bool(*b),
            JsonValue::UInt(n) => JsonView::UInt(*n),
            JsonValue::NegInt(n) => JsonView::NegInt(*n),
            JsonValue::Str(s) => JsonView::Str(s@),
            JsonValue::Other(d) => JsonView::Other(*d),
        }
    }
}

impl JsonView {
    pub open spec fn str_of(self) -> Option<Seq<char>> {
        match self {
            JsonView::Str(s) => Some(s),
            _ => None,
        }
    }

    pub open spec fn u64_of(self) -> Option<u64> {
        match self {
            JsonView::UInt(n) => Some(n),
            _ => None,
        }
    }
}

impl JsonValue {
    /// A copy of this value.
    pub fn copy(&self) -> (r: JsonValue)
        ensures
            r@ == self@,
    {
        match self {
            JsonValue::Null => JsonValue::Null,
            JsonValue::Bool(b) => JsonValue::Bool(*b),
            JsonValue::UInt(n) => JsonValue::UInt(*n),
            JsonValue::NegInt(n) => JsonValue::NegInt(*n),
            JsonValue::Str(s) => JsonValue::Str(s.clone()),
            JsonValue::Other(d) => JsonValue::Other(clone_document(d)),
        }
    }

    /// The string this value holds, if it is a string (`Value::as_str`).
    pub fn as_str(&self) -> (r: Option<&String>)
        ensures
            match r {
                Some(s) => self@.str_of() == Some(s@),
                None => self@.str_of() is None,
            },
    {
        match self {
            JsonValue::Str(s) => Some(s),
            _ => None,
        }
    }

    /// The integer this value holds, if it is a non-negative integer (`Value::as_u64`).
    pub fn as_u64(&self) -> (r: Option<u64>)
        ensures
            r == self@.u64_of(),
    {
        match self {
            JsonValue::UInt(n) => Some(*n),
            _ => None,
        }
    }
}

/// The model of a list of named members.
pub open spec fn entries_view<V: View>(s: Seq<(String, V)>) -> Seq<(Seq<char>, V::V)> {
    s.map_values(|e: (String, V)| (e.0@, e.1@))
}

/// `i` is the first index of a member named `k`.
pub open spec fn first_key_index<V>(entries: Seq<(Seq<char>, V)>, k: Seq<char>, i: int) -> bool {
    &&& 0 <= i < entries.len()
    &&& entries[i].0 == k
    &&& forall|j: int| 0 <= j < i ==> entries[j].0 != k
}

/// The index of the first member named `k`, if any.
pub open spec fn vindex<V>(entries: Seq<(Seq<char>, V)>, k: Seq<char>) -> Option<int> {
    if exists|i: int| first_key_index(entries, k, i) {
        Some(choose|i: int| first_key_index(entries, k, i))
    } else {
        None
    }
}

/// The value of the first member named `k`, if any (a map lookup).
pub open spec fn vget<V>(entries: Seq<(Seq<char>, V)>, k: Seq<char>) -> Option<V> {
    match vindex(entries, k) {
        Some(i) => Some(entries[i].1),
        None => None,
    }
}

/// The members after setting `k` to `v`: the first member of that name is
/// replaced in place, or a new member is appended.
pub open spec fn vinsert<V>(entries: Seq<(Seq<char>, V)>, k: Seq<char>, v: V) -> Seq<(Seq<char>, V)> {
    match vindex(entries, k) {
        Some(i) => entries.update(i, (k, v)),
        None => entries.push((k, v)),
    }
}

/// The members after setting `k` to `v` only if no member of that name exists
/// (`entry(k).or_insert(v)`).
pub open spec fn vinsert_absent<V>(entries: Seq<(Seq<char>, V)>, k: Seq<char>, v: V) -> Seq<(Seq<char>, V)> {
    match vindex(entries, k) {
        Some(i) => entries,
        None => entries.push((k, v)),
    }
}

/// The string value of member `k`, if present and a string.
pub open spec fn vget_str(entries: Seq<(Seq<char>, JsonView)>, k: Seq<char>) -> Option<Seq<char>> {
    match vget(entries, k) {
        Some(v) => v.str_of(),
        None => None,
    }
}

/// The integer value of member `k`, if present and a non-negative integer.
pub open spec fn vget_u64(entries: Seq<(Seq<char>, JsonView)>, k: Seq<char>) -> Option<u64> {
    match vget(entries, k) {
        Some(v) => v.u64_of(),
        None => None,
    }
}

pub proof fn lemma_first_key_index_unique<V>(entries: Seq<(Seq<char>, V)>, k: Seq<char>, i: int)
    requires
        first_key_index(entries, k, i),
    ensures
        vindex(entries, k) == Some(i),
{
    let c = choose|c: int| first_key_index(entries, k, c);
    assert(first_key_index(entries, k, c));
    if c < i {
        assert(entries[c].0 != k);
    }
    if i < c {
        assert(entries[i].0 != k);
    }
}

/// No member is named `k` when the lookup finds none.
pub proof fn lemma_vindex_none<V>(entries: Seq<(Seq<char>, V)>, k: Seq<char>)
    requires
        vindex(entries, k) is None,
    ensures
        forall|j: int| 0 <= j < entries.len() ==> (#[trigger] entries[j]).0 != k,
    decreases entries.len(),
{
    if entries.len() > 0 {
        let p = entries.drop_last();
        if let Some(i) = vindex(p, k) {
            assert(first_key_index(p, k, i));
            assert forall|j: int| 0 <= j < i implies entries[j].0 != k by {
                assert(p[j] == entries[j]);
            }
            assert(p[i] == entries[i]);
            assert(first_key_index(entries, k, i));
            assert(false);
        }
        lemma_vindex_none(p, k);
        assert forall|j: int| 0 <= j < entries.len() - 1 implies entries[j].0 != k by {
            assert(p[j] == entries[j]);
        }
        if entries.last().0 == k {
            assert(first_key_index(entries, k, entries.len() - 1));
            assert(false);
        }
    }
}

/// The lookup finds a member named `k` when there is one at `i`.
pub proof fn lemma_vindex_some<V>(entries: Seq<(Seq<char>, V)>, k: Seq<char>, i: int)
    requires
        0 <= i < entries.len(),
        entries[i].0 == k,
    ensures
        vindex(entries, k) is Some,
{
    if vindex(entries, k) is None {
        lemma_vindex_none(entries, k);
        assert(entries[i].0 != k);
    }
}

/// A lookup after a member is appended: the earlier members win.
pub proof fn lemma_vget_push<V>(entries: Seq<(Seq<char>, V)>, k1: Seq<char>, v: V, k: Seq<char>)
    ensures
        vget(entries.push((k1, v)), k) == (match vget(entries, k) {
            Some(w) => Some(w),
            None => if k1 == k {
                Some(v)
            } else {
                None
            },
        }),
{
    let t = entries.push((k1, v));
    match vindex(entries, k) {
        Some(i) => {
            assert(first_key_index(entries, k, i));
            assert forall|j: int| 0 <= j < i implies t[j].0 != k by {
                assert(t[j] == entries[j]);
            }
            assert(t[i] == entries[i]);
            assert(first_key_index(t, k, i));
            lemma_first_key_index_unique(t, k, i);
        },
        None => {
            lemma_vindex_none(entries, k);
            if k1 == k {
                assert forall|j: int| 0 <= j < entries.len() implies t[j].0 != k by {
                    assert(t[j] == entries[j]);
                }
                assert(first_key_index(t, k, entries.len() as int));
                lemma_first_key_index_unique(t, k, entries.len() as int);
            } else if let Some(i) = vindex(t, k) {
                assert(first_key_index(t, k, i));
                if i < entries.len() {
                    assert(t[i] == entries[i]);
                }
                assert(false);
            }
        },
    }
}

/// A lookup after setting `k` to `v`.
pub proof fn lemma_vget_vinsert<V>(entries: Seq<(Seq<char>, V)>, k: Seq<char>, v: V, k2: Seq<char>)
    ensures
        vget(vinsert(entries, k, v), k2) == (if k2 == k {
            Some(v)
        } else {
            vget(entries, k2)
        }),
{
    match vindex(entries, k) {
        Some(i) => {
            assert(first_key_index(entries, k, i));
            let t = entries.update(i, (k, v));
            if k2 == k {
                assert forall|j: int| 0 <= j < i implies t[j].0 != k by {
                    assert(t[j] == entries[j]);
                }
                assert(first_key_index(t, k, i));
                lemma_first_key_index_unique(t, k, i);
            } else {
                match vindex(entries, k2) {
                    Some(i2) => {
                        assert(first_key_index(entries, k2, i2));
                        assert forall|j: int| 0 <= j < i2 implies t[j].0 != k2 by {
                            if j != i {
                                assert(t[j] == entries[j]);
                            }
                        }
                        assert(t[i2] == entries[i2]);
                        assert(first_key_index(t, k2, i2));
                        lemma_first_key_index_unique(t, k2, i2);
                    },
                    None => {
                        lemma_vindex_none(entries, k2);
                        if let Some(j) = vindex(t, k2) {
                            assert(first_key_index(t, k2, j));
                            if j != i {
                                assert(t[j] == entries[j]);
                            }
                            assert(false);
                        }
                    },
                }
            }
        },
        None => {
            lemma_vget_push(entries, k, v, k2);
        },
    }
}

/// A lookup after setting `k` to `v` only where it is absent.
pub proof fn lemma_vget_vinsert_absent<V>(
    entries: Seq<(Seq<char>, V)>,
    k: Seq<char>,
    v: V,
    k2: Seq<char>,
)
    ensures
        vget(vinsert_absent(entries, k, v), k2) == (match vget(entries, k2) {
            Some(w) => Some(w),
            None => if k2 == k {
                Some(v)
            } else {
                None
            },
        }),
{
    match vindex(entries, k) {
        Some(i) => {
            assert(first_key_index(entries, k, i));
            if k2 == k {
                assert(vget(entries, k2) is Some);
            }
        },
        None => {
            lemma_vget_push(entries, k, v, k2);
        },
    }
}

/// The index of the first member named `k`.
pub fn find_key<V: View>(entries: &Vec<(String, V)>, k: &str) -> (r: Option<usize>)
    ensures
        match r {
            Some(i) => vindex(entries_view(entries@), k@) == Some(i as int),
            None => vindex(entries_view(entries@), k@) is None,
        },
{
    let ghost ev = entries_view(entries@);
    let mut i: usize = 0;
    while i < entries.len()
        invariant
            i <= entries.len(),
            ev == entries_view(entries@),
            forall|j: int| 0 <= j < i ==> ev[j].0 != k@,
        decreases entries.len() - i,
    {
        if str_eq(entries[i].0.as_str(), k) {
            proof {
                lemma_first_key_index_unique(ev, k@, i as int);
            }
            return Some(i);
        }
        i = i + 1;
    }
    assert(!exists|j: int| first_key_index(ev, k@, j));
    None
}

/// The value of the first member named `k`.
pub fn lookup<'a, V: View>(entries: &'a Vec<(String, V)>, k: &str) -> (r: Option<&'a V>)
    ensures
        match r {
            Some(v) => vget(entries_view(entries@), k@) == Some(v@),
            None => vget(entries_view(entries@), k@) is None,
        },
{
    match find_key(entries, k) {
        Some(i) => Some(&entries[i].1),
        None => None,
    }
}

/// Sets member `k` to `v` (`Map::insert`).
pub fn assoc_set<V: View>(entries: &mut Vec<(String, V)>, k: String, v: V)
    ensures
        entries_view(final(entries)@) == vinsert(entries_view(old(entries)@), k@, v@),
{
    let ghost kv = k@;
    let ghost vv = v@;
    match find_key(entries, k.as_str()) {
        Some(i) => {
            entries.set(i, (k, v));
            assert(entries_view(entries@) =~= vinsert(entries_view(old(entries)@), kv, vv));
        },
        None => {
            entries.push((k, v));
            assert(entries_view(entries@) =~= vinsert(entries_view(old(entries)@), kv, vv));
        },
    }
}

/// Sets member `k` to `v` unless a member of that name exists.
pub fn assoc_set_absent<V: View>(entries: &mut Vec<(String, V)>, k: String, v: V)
    ensures
        entries_view(final(entries)@) == vinsert_absent(entries_view(old(entries)@), k@, v@),
{
    let ghost kv = k@;
    let ghost vv = v@;
    match find_key(entries, k.as_str()) {
        Some(i) => {},
        None => {
            entries.push((k, v));
            assert(entries_view(entries@) =~= vinsert_absent(entries_view(old(entries)@), kv, vv));
        },
    }
}

/// A JSON document whose members are scalars (nested members are carried as
/// `JsonValue::Other`).
pub struct JsonObject {
    pub entries: Vec<(String, JsonValue)>,
}

impl View for JsonObject {
    type V = Seq<(Seq<char>, JsonView)>;

    open spec fn view(&self) -> Seq<(Seq<char>, JsonView)> {
        entries_view(self.entries@)
    }
}

impl JsonObject {
    pub fn new() -> (r: JsonObject)
        ensures
            r@ == Seq::<(Seq<char>, JsonView)>::empty(),
    {
        let r = JsonObject { entries: Vec::new() };
        assert(r@ =~= Seq::<(Seq<char>, JsonView)>::empty());
        r
    }

    /// The member named `k` (`Value::get`).
    pub fn get(&self, k: &str) -> (r: Option<&JsonValue>)
        ensures
            match r {
                Some(v) => vget(self@, k@) == Some(v@),
                None => vget(self@, k@) is None,
            },
    {
        lookup(&self.entries, k)
    }

    /// Sets member `k` to `v`, replacing an existing member of that name.
    /// Appends member `k`, after the existing members.
    pub fn push(&mut self, k: &str, v: JsonValue)
        ensures
            final(self)@ == old(self)@.push((k@, v@)),
    {
        let ghost before = self.entries@;
        let ghost vv = v@;
        self.entries.push((String::from_str(k), v));
        assert(entries_view(self.entries@) =~= entries_view(before).push((k@, vv)));
    }

    pub fn insert(&mut self, k: String, v: JsonValue)
        ensures
            final(self)@ == vinsert(old(self)@, k@, v@),
    {
        assoc_set(&mut self.entries, k, v);
    }

    /// Sets member `k` to `v` unless a member of that name exists.
    pub fn insert_absent(&mut self, k: String, v: JsonValue)
        ensures
            final(self)@ == vinsert_absent(old(self)@, k@, v@),
    {
        assoc_set_absent(&mut self.entries, k, v);
    }

    pub fn get_str(&self, k: &str) -> (r: Option<&String>)
        ensures
            match r {
                Some(s) => vget_str(self@, k@) == Some(s@),
                None => vget_str(self@, k@) is None,
            },
    {
        match self.get(k) {
            Some(v) => v.as_str(),
            None => None,
        }
    }

    pub fn get_u64(&self, k: &str) -> (r: Option<u64>)
        ensures
            r == vget_u64(self@, k@),
    {
        match self.get(k) {
            Some(v) => v.as_u64(),
            None => None,
        }
    }

    /// A copy of this document.
    pub fn copy(&self) -> (r: JsonObject)
        ensures
            r@ == self@,
    {
        let mut out: Vec<(String, JsonValue)> = Vec::new();
        let mut i: usize = 0;
        while i < self.entries.len()
            invariant
                i <= self.entries.len(),
                entries_view(out@) == entries_view(self.entries@.take(i as int)),
            decreases self.entries.len() - i,
        {
            let e = &self.entries[i];
            let ghost before = out@;
            let k = e.0.clone();
            let v = e.1.copy();
            out.push((k, v));
            proof {
                let t1 = self.entries@.take(i + 1);
                assert(t1 =~= self.entries@.take(i as int).push(self.entries@[i as int]));
                assert(entries_view(out@) =~= entries_view(before).push((k@, v@)));
                assert(entries_view(t1) =~= entries_view(self.entries@.take(i as int)).push(
                    (self.entries@[i as int].0@, self.entries@[i as int].1@),
                ));
            }
            i = i + 1;
        }
        assert(self.entries@.take(self.entries.len() as int) =~= self.entries@);
        JsonObject { entries: out }
    }
}

/// A member of a finding's evidence: a scalar, or a nested document.
pub enum EvidenceValue {
    Value(JsonValue),
    Object(JsonObject),
}

/// The model of an `EvidenceValue`.
pub enum EvidenceView {
    Value(JsonView),
    Object(Seq<(Seq<char>, JsonView)>),
}

impl View for EvidenceValue {
    type V = EvidenceView;

    open spec fn view(&self) -> EvidenceView {
        match self {
            EvidenceValue::Value(v) => EvidenceView::Value(v@),
            EvidenceValue::Object(o) => EvidenceView::Object(o@),
        }
    }
}

/// The string value of evidence member `k`, if present and a string.
pub open spec fn ev_str(ev: Seq<(Seq<char>, EvidenceView)>, k: Seq<char>) -> Option<Seq<char>> {
    match vget(ev, k) {
        Some(EvidenceView::Value(v)) => v.str_of(),
        _ => None,
    }
}

/// The integer value of evidence member `k`, if present and a non-negative integer.
pub open spec fn ev_u64(ev: Seq<(Seq<char>, EvidenceView)>, k: Seq<char>) -> Option<u64> {
    match vget(ev, k) {
        Some(EvidenceView::Value(v)) => v.u64_of(),
        _ => None,
    }
}

/// The document value of evidence member `k`, if present and a document.
pub open spec fn ev_object(ev: Seq<(Seq<char>, EvidenceView)>, k: Seq<char>) -> Option<
    Seq<(Seq<char>, JsonView)>,
> {
    match vget(ev, k) {
        Some(EvidenceView::Object(o)) => Some(o),
        _ => None,
    }
}

/// The evidence recorded with a finding: a JSON document whose members are
/// scalars or documents of scalars.
pub struct Evidence {
    pub entries: Vec<(String, EvidenceValue)>,
}

impl View for Evidence {
    type V = Seq<(Seq<char>, EvidenceView)>;

    open spec fn view(&self) -> Seq<(Seq<char>, EvidenceView)> {
        entries_view(self.entries@)
    }
}

impl Evidence {
    pub fn new() -> (r: Evidence)
        ensures
            r@ == Seq::<(Seq<char>, EvidenceView)>::empty(),
    {
        let r = Evidence { entries: Vec::new() };
        assert(r@ =~= Seq::<(Seq<char>, EvidenceView)>::empty());
        r
    }

    pub fn get(&self, k: &str) -> (r: Option<&EvidenceValue>)
        ensures
            match r {
                Some(v) => vget(self@, k@) == Some(v@),
                None => vget(self@, k@) is None,
            },
    {
        lookup(&self.entries, k)
    }

    pub fn get_str(&self, k: &str) -> (r: Option<&String>)
        ensures
            match r {
                Some(s) => ev_str(self@, k@) == Some(s@),
                None => ev_str(self@, k@) is None,
            },
    {
        match self.get(k) {
            Some(EvidenceValue::Value(v)) => v.as_str(),
            _ => None,
        }
    }

    pub fn get_u64(&self, k: &str) -> (r: Option<u64>)
        ensures
            r == ev_u64(self@, k@),
    {
        match self.get(k) {
            Some(EvidenceValue::Value(v)) => v.as_u64(),
            _ => None,
        }
    }

    pub fn get_object(&self, k: &str) -> (r: Option<&JsonObject>)
        ensures
            match r {
                Some(o) => ev_object(self@, k@) == Some(o@),
                None => ev_object(self@, k@) is None,
            },
    {
        match self.get(k) {
            Some(EvidenceValue::Object(o)) => Some(o),
            _ => None,
        }
    }

    /// Sets member `k`.
    pub fn insert(&mut self, k: String, v: EvidenceValue)
        ensures
            final(self)@ == vinsert(old(self)@, k@, v@),
    {
        assoc_set(&mut self.entries, k, v);
    }

    /// Appends member `k`, after the existing members.
    pub fn push(&mut self, k: &str, v: EvidenceValue)
        ensures
            final(self)@ == old(self)@.push((k@, v@)),
    {
        let ghost before = self.entries@;
        let ghost vv = v@;
        self.entries.push((String::from_str(k), v));
        assert(entries_view(self.entries@) =~= entries_view(before).push((k@, vv)));
    }
}

} // verus!
