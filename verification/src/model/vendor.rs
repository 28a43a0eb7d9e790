use vstd::prelude::*;
use crate::model::asset::PqcStatus;
use crate::text::{chars_of, contains, contains_chars, lower, lower_chars, string_of};

verus! {

/// One vendor product's post-quantum roadmap.
pub struct VendorEntry {
    pub vendor: String,
    pub product: String,
    pub pqc_status: PqcStatus,
    pub target_date: Option<String>,
    pub source_url: Option<String>,
    pub source_note: Option<String>,
    pub last_verified_at: Option<i128>,
}

/// The identity of an entry: vendor and product, ASCII lower case.
pub open spec fn entry_key(e: VendorEntry) -> (Seq<char>, Seq<char>) {
    (lower(e.vendor@), lower(e.product@))
}

/// `a` comes strictly before `b` in lexicographic order of characters (the
/// order `str` comparison uses).
pub open spec fn seq_less(a: Seq<char>, b: Seq<char>) -> bool
    decreases a.len(),
{
    if a.len() == 0 {
        b.len() > 0
    } else if b.len() == 0 {
        false
    } else if a[0] != b[0] {
        (a[0] as u32) < (b[0] as u32)
    } else {
        seq_less(a.drop_first(), b.drop_first())
    }
}

/// No sequence comes before itself.
pub proof fn lemma_seq_less_irreflexive(a: Seq<char>)
    ensures
        !seq_less(a, a),
    decreases a.len(),
{
    if a.len() > 0 {
        lemma_seq_less_irreflexive(a.drop_first());
    }
}

/// The order of sequences is transitive.
pub proof fn lemma_seq_less_transitive(a: Seq<char>, b: Seq<char>, c: Seq<char>)
    requires
        seq_less(a, b),
        seq_less(b, c),
    ensures
        seq_less(a, c),
    decreases a.len(),
{
    if a.len() > 0 && b.len() > 0 && c.len() > 0 {
        if a[0] == b[0] && b[0] == c[0] {
            lemma_seq_less_transitive(a.drop_first(), b.drop_first(), c.drop_first());
        }
    }
}

/// Of two different sequences, one comes before the other.
pub proof fn lemma_seq_less_total(a: Seq<char>, b: Seq<char>)
    ensures
        a == b || seq_less(a, b) || seq_less(b, a),
    decreases a.len(),
{
    if a.len() == 0 && b.len() == 0 {
        assert(a =~= b);
    } else if a.len() > 0 && b.len() > 0 && a[0] == b[0] {
        lemma_seq_less_total(a.drop_first(), b.drop_first());
        if a.drop_first() == b.drop_first() {
            assert(a.drop_first().len() == a.len() - 1);
            assert(b.drop_first().len() == b.len() - 1);
            assert forall|i: int| 0 <= i < a.len() implies a[i] == b[i] by {
                if i > 0 {
                    assert(a[i] == a.drop_first()[i - 1]);
                    assert(b[i] == b.drop_first()[i - 1]);
                }
            }
            assert(a =~= b);
        }
    } else if a.len() > 0 && b.len() > 0 {
        vstd::utf8::char_u32_cast(a[0], a[0] as u32);
        vstd::utf8::char_u32_cast(b[0], b[0] as u32);
        assert((a[0] as u32) != (b[0] as u32));
    }
}

/// The order of sequences is asymmetric.
pub proof fn lemma_seq_less_asymmetric(a: Seq<char>, b: Seq<char>)
    requires
        seq_less(a, b),
    ensures
        !seq_less(b, a),
{
    if seq_less(b, a) {
        lemma_seq_less_transitive(a, b, a);
        lemma_seq_less_irreflexive(a);
    }
}

/// The order of the merged registry: by vendor, then by product, both
/// compared in ASCII lower case.
pub open spec fn entry_less(a: VendorEntry, b: VendorEntry) -> bool {
    let (va, pa) = entry_key(a);
    let (vb, pb) = entry_key(b);
    seq_less(va, vb) || (va == vb && seq_less(pa, pb))
}

/// `e` inserted into `t` after every element that does not come after it.
pub open spec fn insert_stable(t: Seq<VendorEntry>, e: VendorEntry) -> Seq<VendorEntry>
    decreases t.len(),
{
    if t.len() == 0 {
        seq![e]
    } else if !entry_less(e, t.last()) {
        t.push(e)
    } else {
        insert_stable(t.drop_last(), e).push(t.last())
    }
}

/// The stable sort of `s` by `entry_less`.
pub open spec fn sort_stable(s: Seq<VendorEntry>) -> Seq<VendorEntry>
    decreases s.len(),
{
    if s.len() == 0 {
        s
    } else {
        insert_stable(sort_stable(s.drop_last()), s.last())
    }
}

/// `entries` with override `ov` applied: the first entry with the same key is
/// replaced, or `ov` is appended.
pub open spec fn apply_override(entries: Seq<VendorEntry>, ov: VendorEntry) -> Seq<VendorEntry> {
    if exists|i: int| first_with_key(entries, entry_key(ov), i) {
        entries.update(choose|i: int| first_with_key(entries, entry_key(ov), i), ov)
    } else {
        entries.push(ov)
    }
}

/// `i` is the first index of an entry with key `k`.
pub open spec fn first_with_key(entries: Seq<VendorEntry>, k: (Seq<char>, Seq<char>), i: int) -> bool {
    &&& 0 <= i < entries.len()
    &&& entry_key(entries[i]) == k
    &&& forall|j: int| 0 <= j < i ==> entry_key(entries[j]) != k
}

/// `base` with every override applied in order.
pub open spec fn apply_overrides(base: Seq<VendorEntry>, ovs: Seq<VendorEntry>) -> Seq<VendorEntry>
    decreases ovs.len(),
{
    if ovs.len() == 0 {
        base
    } else {
        apply_override(apply_overrides(base, ovs.drop_last()), ovs.last())
    }
}

/// The entry matches a search term: the term, in ASCII lower case, occurs in
/// the vendor or the product, in ASCII lower case.
pub open spec fn entry_matches(e: VendorEntry, needle: Seq<char>) -> bool {
    contains(lower(e.vendor@), needle) || contains(lower(e.product@), needle)
}

/// The entries of `s` that match the (lower-cased) term, in order.
pub open spec fn matching(s: Seq<VendorEntry>, needle: Seq<char>) -> Seq<VendorEntry>
    decreases s.len(),
{
    if s.len() == 0 {
        s
    } else if entry_matches(s.last(), needle) {
        matching(s.drop_last(), needle).push(s.last())
    } else {
        matching(s.drop_last(), needle)
    }
}

proof fn lemma_matching_contains(s: Seq<VendorEntry>, needle: Seq<char>, e: VendorEntry)
    ensures
        matching(s, needle).contains(e) <==> (s.contains(e) && entry_matches(e, needle)),
    decreases s.len(),
{
    if s.len() > 0 {
        let p = s.drop_last();
        let l = s.last();
        lemma_matching_contains(p, needle, e);
        let m = matching(p, needle);
        if s.contains(e) && e != l {
            let k = choose|k: int| 0 <= k < s.len() && s[k] == e;
            assert(k < s.len() - 1);
            assert(p[k] == e);
        }
        if p.contains(e) {
            let k = choose|k: int| 0 <= k < p.len() && p[k] == e;
            assert(s[k] == e);
        }
        if e == l {
            assert(s[s.len() - 1] == e);
        }
        if entry_matches(l, needle) {
            assert(matching(s, needle) == m.push(l));
            if m.contains(e) {
                let k = choose|k: int| 0 <= k < m.len() && m[k] == e;
                assert(m.push(l)[k] == e);
            }
            if e == l {
                assert(m.push(l)[m.len() as int] == e);
            }
            if m.push(l).contains(e) && e != l {
                let k = choose|k: int| 0 <= k < m.len() + 1 && m.push(l)[k] == e;
                assert(k < m.len());
                assert(m[k] == e);
            }
        }
    }
}

/// What a search finds: an entry of the registry is among the hits for a
/// term exactly when the term, in ASCII lower case, occurs in the entry's
/// vendor or in its product, each in ASCII lower case.
pub proof fn search_law(entries: Seq<VendorEntry>, term: Seq<char>, e: VendorEntry)
    ensures
        matching(entries, lower(term)).contains(e) <==> (entries.contains(e) && (contains(
            lower(e.vendor@),
            lower(term),
        ) || contains(lower(e.product@), lower(term)))),
{
    lemma_matching_contains(entries, lower(term), e);
}

fn copy_opt(s: &Option<String>) -> (r: Option<String>)
    ensures
        r == *s,
{
    match s {
        Some(v) => Some(v.clone()),
        None => None,
    }
}

impl VendorEntry {
    /// A copy of this entry.
    pub fn copy(&self) -> (r: VendorEntry)
        ensures
            r == *self,
    {
        VendorEntry {
            vendor: self.vendor.clone(),
            product: self.product.clone(),
            pqc_status: self.pqc_status,
            target_date: copy_opt(&self.target_date),
            source_url: copy_opt(&self.source_url),
            source_note: copy_opt(&self.source_note),
            last_verified_at: self.last_verified_at,
        }
    }

    /// The entry's identity: vendor and product in ASCII lower case.
    pub fn key(&self) -> (r: (String, String))
        ensures
            (r.0@, r.1@) == entry_key(*self),
    {
        let v = lower_chars(chars_of(self.vendor.as_str()).as_slice());
        let p = lower_chars(chars_of(self.product.as_str()).as_slice());
        (string_of(v.as_slice()), string_of(p.as_slice()))
    }
}

fn key_chars(e: &VendorEntry) -> (r: (Vec<char>, Vec<char>))
    ensures
        (r.0@, r.1@) == entry_key(*e),
{
    let v = lower_chars(chars_of(e.vendor.as_str()).as_slice());
    let p = lower_chars(chars_of(e.product.as_str()).as_slice());
    (v, p)
}

pub fn seq_less_exec(a: &[char], b: &[char]) -> (r: bool)
    ensures
        r == seq_less(a@, b@),
{
    let mut i: usize = 0;
    assert(a@.skip(0) =~= a@);
    assert(b@.skip(0) =~= b@);
    while i < a.len() && i < b.len() && a[i] == b[i]
        invariant
            i <= a.len(),
            i <= b.len(),
            seq_less(a@, b@) == seq_less(a@.skip(i as int), b@.skip(i as int)),
        decreases a.len() - i,
    {
        proof {
            let sa = a@.skip(i as int);
            let sb = b@.skip(i as int);
            assert(sa[0] == a@[i as int] && sb[0] == b@[i as int]);
            assert(sa.drop_first() =~= a@.skip(i + 1));
            assert(sb.drop_first() =~= b@.skip(i + 1));
        }
        i = i + 1;
    }
    proof {
        let sa = a@.skip(i as int);
        let sb = b@.skip(i as int);
        if i < a.len() {
            assert(sa[0] == a@[i as int]);
        }
        if i < b.len() {
            assert(sb[0] == b@[i as int]);
        }
    }
    if i == a.len() {
        i < b.len()
    } else if i == b.len() {
        false
    } else {
        (a[i] as u32) < (b[i] as u32)
    }
}

fn entry_less_exec(a: &VendorEntry, b: &VendorEntry) -> (r: bool)
    ensures
        r == entry_less(*a, *b),
{
    let (va, pa) = key_chars(a);
    let (vb, pb) = key_chars(b);
    if seq_less_exec(va.as_slice(), vb.as_slice()) {
        return true;
    }
    if !crate::text::chars_eq(va.as_slice(), vb.as_slice()) {
        return false;
    }
    seq_less_exec(pa.as_slice(), pb.as_slice())
}

proof fn lemma_insert_stable_at(t: Seq<VendorEntry>, e: VendorEntry, pos: int)
    requires
        0 <= pos <= t.len(),
        forall|j: int| pos <= j < t.len() ==> entry_less(e, #[trigger] t[j]),
        pos == 0 || !entry_less(e, t[pos - 1]),
    ensures
        insert_stable(t, e) == t.take(pos).push(e) + t.skip(pos),
    decreases t.len() - pos,
{
    if t.len() == pos {
        if pos == 0 {
            assert(t.take(0).push(e) + t.skip(0) =~= seq![e]);
        } else {
            assert(t.take(pos).push(e) + t.skip(pos) =~= t.push(e));
        }
    } else {
        assert(entry_less(e, t[t.len() - 1]));
        let u = t.drop_last();
        assert forall|j: int| pos <= j < u.len() implies entry_less(e, #[trigger] u[j]) by {
            assert(u[j] == t[j]);
        }
        if pos > 0 {
            assert(u[pos - 1] == t[pos - 1]);
        }
        lemma_insert_stable_at(u, e, pos);
        assert((u.take(pos).push(e) + u.skip(pos)).push(t.last()) =~= t.take(pos).push(e)
            + t.skip(pos));
    }
}

/// Inserts `e` into `out` at its stable position.
fn insert_entry(out: &mut Vec<VendorEntry>, e: VendorEntry)
    ensures
        final(out)@ == insert_stable(old(out)@, e),
{
    let mut pos: usize = out.len();
    while pos > 0 && entry_less_exec(&e, &out[pos - 1])
        invariant
            pos <= out.len(),
            forall|j: int| pos <= j < out.len() ==> entry_less(e, #[trigger] out@[j]),
        decreases pos,
    {
        pos = pos - 1;
    }
    proof {
        lemma_insert_stable_at(out@, e, pos as int);
    }
    let ghost before = out@;
    out.insert(pos, e);
    assert(out@ =~= before.take(pos as int).push(e) + before.skip(pos as int));
}

/// The registry after applying one override.
pub fn apply_override_exec(entries: &mut Vec<VendorEntry>, ov: &VendorEntry)
    ensures
        final(entries)@ == apply_override(old(entries)@, *ov),
{
    let (kv, kp) = key_chars(ov);
    let mut i: usize = 0;
    while i < entries.len()
        invariant
            i <= entries.len(),
            entries@ == old(entries)@,
            (kv@, kp@) == entry_key(*ov),
            forall|j: int| 0 <= j < i ==> entry_key(#[trigger] entries@[j]) != entry_key(*ov),
        decreases entries.len() - i,
    {
        let (ev, ep) = key_chars(&entries[i]);
        if crate::text::chars_eq(ev.as_slice(), kv.as_slice()) && crate::text::chars_eq(
            ep.as_slice(),
            kp.as_slice(),
        ) {
            proof {
                let k = entry_key(*ov);
                assert(first_with_key(entries@, k, i as int));
                let c = choose|c: int| first_with_key(entries@, k, c);
                assert(first_with_key(entries@, k, c));
                if c < i {
                    assert(entry_key(entries@[c]) != k);
                }
                if i < c {
                    assert(entry_key(entries@[i as int]) != k);
                }
                assert(c == i);
            }
            let ghost before = entries@;
            let o = ov.copy();
            entries.set(i, o);
            assert(entries@ == before.update(i as int, *ov));
            return;
        }
        proof {
            assert(entry_key(entries@[i as int]) == (ev@, ep@));
            if entry_key(entries@[i as int]) == entry_key(*ov) {
                assert(ev@ == kv@ && ep@ == kp@);
            }
        }
        i = i + 1;
    }
    assert forall|c: int| !first_with_key(entries@, entry_key(*ov), c) by {
        if 0 <= c < entries@.len() {
            assert(entry_key(entries@[c]) != entry_key(*ov));
        }
    }
    let ghost before = entries@;
    let o = ov.copy();
    entries.push(o);
    assert(entries@ == before.push(*ov));
}

/// The vendor PQC registry.
pub struct VendorRegistry {
    pub entries: Vec<VendorEntry>,
}

impl VendorRegistry {
    pub fn new(entries: Vec<VendorEntry>) -> (r: VendorRegistry)
        ensures
            r.entries == entries,
    {
        VendorRegistry { entries }
    }

    /// The registry with `overrides` merged on top: each override replaces the
    /// first entry with the same vendor and product (compared in ASCII lower
    /// case) or is added, and the result is sorted stably by vendor, then
    /// product.
    pub fn merge_overrides(&self, overrides: &VendorRegistry) -> (r: VendorRegistry)
        ensures
            r.entries@ == sort_stable(apply_overrides(self.entries@, overrides.entries@)),
    {
        let mut merged: Vec<VendorEntry> = Vec::new();
        let mut i: usize = 0;
        while i < self.entries.len()
            invariant
                i <= self.entries.len(),
                merged@ == self.entries@.take(i as int),
            decreases self.entries.len() - i,
        {
            merged.push(self.entries[i].copy());
            assert(self.entries@.take(i + 1) == self.entries@.take(i as int).push(
                self.entries@[i as int],
            ));
            i = i + 1;
        }
        assert(self.entries@.take(self.entries.len() as int) =~= self.entries@);
        let mut j: usize = 0;
        while j < overrides.entries.len()
            invariant
                j <= overrides.entries.len(),
                merged@ == apply_overrides(self.entries@, overrides.entries@.take(j as int)),
            decreases overrides.entries.len() - j,
        {
            proof {
                let t = overrides.entries@.take(j + 1);
                assert(t.drop_last() =~= overrides.entries@.take(j as int));
                assert(t.last() == overrides.entries@[j as int]);
            }
            apply_override_exec(&mut merged, &overrides.entries[j]);
            j = j + 1;
        }
        assert(overrides.entries@.take(overrides.entries.len() as int) =~= overrides.entries@);
        let mut sorted: Vec<VendorEntry> = Vec::new();
        let mut k: usize = 0;
        while k < merged.len()
            invariant
                k <= merged.len(),
                sorted@ == sort_stable(merged@.take(k as int)),
            decreases merged.len() - k,
        {
            proof {
                let t = merged@.take(k + 1);
                assert(t.drop_last() =~= merged@.take(k as int));
                assert(t.last() == merged@[k as int]);
            }
            insert_entry(&mut sorted, merged[k].copy());
            k = k + 1;
        }
        assert(merged@.take(merged.len() as int) =~= merged@);
        VendorRegistry { entries: sorted }
    }

    /// The entries whose vendor or product contains `term`, compared in ASCII
    /// lower case, in registry order.
    pub fn search(&self, term: &str) -> (r: Vec<&VendorEntry>)
        ensures
            r@.map_values(|e: &VendorEntry| *e) == matching(self.entries@, lower(term@)),
    {
        let needle = lower_chars(chars_of(term).as_slice());
        let mut out: Vec<&VendorEntry> = Vec::new();
        let mut i: usize = 0;
        while i < self.entries.len()
            invariant
                i <= self.entries.len(),
                needle@ == lower(term@),
                out@.map_values(|e: &VendorEntry| *e) == matching(self.entries@.take(i as int), needle@),
            decreases self.entries.len() - i,
        {
            let e = &self.entries[i];
            let (v, p) = key_chars(e);
            let hit = contains_chars(v.as_slice(), needle.as_slice()) || contains_chars(
                p.as_slice(),
                needle.as_slice(),
            );
            proof {
                let t = self.entries@.take(i + 1);
                assert(t.drop_last() =~= self.entries@.take(i as int));
                assert(t.last() == self.entries@[i as int]);
            }
            let ghost prev = out@;
            if hit {
                out.push(e);
                assert(out@.map_values(|e: &VendorEntry| *e) =~= prev.map_values(
                    |e: &VendorEntry| *e,
                ).push(*e));
            }
            i = i + 1;
        }
        assert(self.entries@.take(self.entries.len() as int) =~= self.entries@);
        out
    }
}

/// No later entry comes strictly before an earlier one.
pub open spec fn entries_sorted(s: Seq<VendorEntry>) -> bool {
    forall|i: int, j: int|
        0 <= i < j < s.len() ==> !entry_less(#[trigger] s[j], #[trigger] s[i])
}

/// No two entries share a vendor and product (in ASCII lower case).
pub open spec fn keys_distinct(s: Seq<VendorEntry>) -> bool {
    forall|i: int, j: int|
        0 <= i < j < s.len() ==> entry_key(#[trigger] s[i]) != entry_key(#[trigger] s[j])
}

proof fn lemma_entry_less_asymmetric(a: VendorEntry, b: VendorEntry)
    requires
        entry_less(a, b),
    ensures
        !entry_less(b, a),
{
    let (va, pa) = entry_key(a);
    let (vb, pb) = entry_key(b);
    if seq_less(va, vb) {
        lemma_seq_less_asymmetric(va, vb);
        if vb == va {
            lemma_seq_less_irreflexive(va);
        }
    } else {
        lemma_seq_less_asymmetric(pa, pb);
        lemma_seq_less_irreflexive(va);
    }
}

proof fn lemma_entry_not_less_transitive(a: VendorEntry, b: VendorEntry, c: VendorEntry)
    requires
        !entry_less(a, b),
        !entry_less(b, c),
    ensures
        !entry_less(a, c),
{
    let (va, pa) = entry_key(a);
    let (vb, pb) = entry_key(b);
    let (vc, pc) = entry_key(c);
    lemma_seq_less_total(va, vb);
    lemma_seq_less_total(vb, vc);
    lemma_seq_less_total(pa, pb);
    lemma_seq_less_total(pb, pc);
    if seq_less(vb, va) && seq_less(va, vc) {
        lemma_seq_less_transitive(vb, va, vc);
    }
    if seq_less(vc, vb) && seq_less(vb, va) {
        lemma_seq_less_transitive(vc, vb, va);
        lemma_seq_less_asymmetric(vc, va);
    }
    if seq_less(vb, va) && va == vc {
        lemma_seq_less_irreflexive(va);
    }
    if seq_less(pb, pa) && seq_less(pa, pc) {
        lemma_seq_less_transitive(pb, pa, pc);
    }
}

proof fn lemma_insert_stable_multiset(t: Seq<VendorEntry>, e: VendorEntry)
    ensures
        insert_stable(t, e).to_multiset() =~= t.to_multiset().insert(e),
    decreases t.len(),
{
    broadcast use vstd::seq_lib::group_to_multiset_ensures;

    if t.len() == 0 {
        assert(seq![e] =~= Seq::<VendorEntry>::empty().push(e));
    } else if entry_less(e, t.last()) {
        lemma_insert_stable_multiset(t.drop_last(), e);
        assert(t.drop_last().push(t.last()) =~= t);
    }
}

proof fn lemma_sort_stable_multiset(s: Seq<VendorEntry>)
    ensures
        sort_stable(s).to_multiset() =~= s.to_multiset(),
    decreases s.len(),
{
    broadcast use vstd::seq_lib::group_to_multiset_ensures;

    if s.len() > 0 {
        lemma_sort_stable_multiset(s.drop_last());
        lemma_insert_stable_multiset(sort_stable(s.drop_last()), s.last());
        assert(s.drop_last().push(s.last()) =~= s);
    }
}

proof fn lemma_insert_stable_member(t: Seq<VendorEntry>, e: VendorEntry, x: VendorEntry)
    requires
        insert_stable(t, e).contains(x),
    ensures
        x == e || t.contains(x),
{
    broadcast use vstd::seq_lib::group_to_multiset_ensures;

    lemma_insert_stable_multiset(t, e);
    assert(insert_stable(t, e).to_multiset().count(x) > 0);
}

proof fn lemma_insert_stable_sorted(t: Seq<VendorEntry>, e: VendorEntry)
    requires
        entries_sorted(t),
    ensures
        entries_sorted(insert_stable(t, e)),
    decreases t.len(),
{
    let r = insert_stable(t, e);
    if t.len() == 0 {
    } else if !entry_less(e, t.last()) {
        assert forall|i: int, j: int| 0 <= i < j < r.len() implies !entry_less(
            #[trigger] r[j],
            #[trigger] r[i],
        ) by {
            if j == t.len() {
                if i < t.len() - 1 {
                    lemma_entry_not_less_transitive(e, t.last(), t[i]);
                }
            } else {
                assert(r[i] == t[i] && r[j] == t[j]);
            }
        }
    } else {
        let u = t.drop_last();
        assert(entries_sorted(u)) by {
            assert forall|i: int, j: int| 0 <= i < j < u.len() implies !entry_less(
                #[trigger] u[j],
                #[trigger] u[i],
            ) by {
                assert(u[i] == t[i] && u[j] == t[j]);
            }
        }
        lemma_insert_stable_sorted(u, e);
        let inner = insert_stable(u, e);
        assert forall|i: int, j: int| 0 <= i < j < r.len() implies !entry_less(
            #[trigger] r[j],
            #[trigger] r[i],
        ) by {
            if j == inner.len() {
                let x = inner[i];
                assert(inner.contains(x));
                lemma_insert_stable_member(u, e, x);
                if x == e {
                    lemma_entry_less_asymmetric(e, t.last());
                } else {
                    let k = choose|k: int| 0 <= k < u.len() && u[k] == x;
                    assert(t[k] == x);
                    assert(!entry_less(t[t.len() - 1], t[k]));
                }
            } else {
                assert(r[i] == inner[i] && r[j] == inner[j]);
            }
        }
    }
}

proof fn lemma_sort_stable_sorted(s: Seq<VendorEntry>)
    ensures
        entries_sorted(sort_stable(s)),
    decreases s.len(),
{
    if s.len() > 0 {
        lemma_sort_stable_sorted(s.drop_last());
        lemma_insert_stable_sorted(sort_stable(s.drop_last()), s.last());
    }
}

proof fn lemma_sort_stable_member(s: Seq<VendorEntry>, x: VendorEntry)
    ensures
        sort_stable(s).contains(x) <==> s.contains(x),
{
    broadcast use vstd::seq_lib::group_to_multiset_ensures;

    lemma_sort_stable_multiset(s);
    assert(sort_stable(s).to_multiset().count(x) == s.to_multiset().count(x));
}

proof fn lemma_insert_stable_distinct(t: Seq<VendorEntry>, e: VendorEntry)
    requires
        keys_distinct(t),
        forall|i: int| 0 <= i < t.len() ==> entry_key(#[trigger] t[i]) != entry_key(e),
    ensures
        keys_distinct(insert_stable(t, e)),
    decreases t.len(),
{
    let r = insert_stable(t, e);
    if t.len() == 0 {
    } else if !entry_less(e, t.last()) {
        assert forall|i: int, j: int| 0 <= i < j < r.len() implies entry_key(#[trigger] r[i])
            != entry_key(#[trigger] r[j]) by {
            assert(r[i] == t[i]);
            if j < t.len() {
                assert(r[j] == t[j]);
            }
        }
    } else {
        let u = t.drop_last();
        assert forall|i: int| 0 <= i < u.len() implies entry_key(#[trigger] u[i]) != entry_key(e) by {
            assert(u[i] == t[i]);
        }
        assert(keys_distinct(u)) by {
            assert forall|i: int, j: int| 0 <= i < j < u.len() implies entry_key(#[trigger] u[i])
                != entry_key(#[trigger] u[j]) by {
                assert(u[i] == t[i] && u[j] == t[j]);
            }
        }
        lemma_insert_stable_distinct(u, e);
        let inner = insert_stable(u, e);
        assert forall|i: int, j: int| 0 <= i < j < r.len() implies entry_key(#[trigger] r[i])
            != entry_key(#[trigger] r[j]) by {
            assert(r[i] == inner[i]);
            if j == inner.len() {
                let x = inner[i];
                assert(inner.contains(x));
                lemma_insert_stable_member(u, e, x);
                if x != e {
                    let k = choose|k: int| 0 <= k < u.len() && u[k] == x;
                    assert(t[k] == x);
                }
            } else {
                assert(r[j] == inner[j]);
            }
        }
    }
}

proof fn lemma_sort_stable_distinct(s: Seq<VendorEntry>)
    requires
        keys_distinct(s),
    ensures
        keys_distinct(sort_stable(s)),
    decreases s.len(),
{
    if s.len() > 0 {
        let u = s.drop_last();
        assert(keys_distinct(u)) by {
            assert forall|i: int, j: int| 0 <= i < j < u.len() implies entry_key(#[trigger] u[i])
                != entry_key(#[trigger] u[j]) by {
                assert(u[i] == s[i] && u[j] == s[j]);
            }
        }
        lemma_sort_stable_distinct(u);
        let t = sort_stable(u);
        assert forall|i: int| 0 <= i < t.len() implies entry_key(#[trigger] t[i]) != entry_key(
            s.last(),
        ) by {
            assert(t.contains(t[i]));
            lemma_sort_stable_member(u, t[i]);
            let k = choose|k: int| 0 <= k < u.len() && u[k] == t[i];
            assert(s[k] == t[i]);
        }
        lemma_insert_stable_distinct(t, s.last());
    }
}

proof fn lemma_apply_override_facts(entries: Seq<VendorEntry>, ov: VendorEntry)
    ensures
        apply_override(entries, ov).contains(ov),
        forall|x: VendorEntry|
            entries.contains(x) && entry_key(x) != entry_key(ov) ==> #[trigger] apply_override(
                entries,
                ov,
            ).contains(x),
        forall|x: VendorEntry|
            #[trigger] apply_override(entries, ov).contains(x) ==> x == ov || entries.contains(x),
        keys_distinct(entries) ==> keys_distinct(apply_override(entries, ov)),
{
    let k = entry_key(ov);
    let r = apply_override(entries, ov);
    if exists|i: int| first_with_key(entries, k, i) {
        let c = choose|i: int| first_with_key(entries, k, i);
        assert(r == entries.update(c, ov));
        assert(r[c] == ov);
        assert forall|x: VendorEntry| entries.contains(x) && entry_key(x) != k implies #[trigger] r.contains(
            x,
        ) by {
            let m = choose|m: int| 0 <= m < entries.len() && entries[m] == x;
            assert(m != c);
            assert(r[m] == x);
        }
        assert forall|x: VendorEntry| #[trigger] r.contains(x) implies x == ov || entries.contains(x) by {
            let m = choose|m: int| 0 <= m < r.len() && r[m] == x;
            if m != c {
                assert(entries[m] == x);
            }
        }
        if keys_distinct(entries) {
            assert forall|i: int, j: int| 0 <= i < j < r.len() implies entry_key(#[trigger] r[i])
                != entry_key(#[trigger] r[j]) by {
                if i == c {
                    assert(entry_key(entries[c]) == k);
                } else if j == c {
                    assert(entry_key(entries[c]) == k);
                }
            }
        }
    } else {
        assert(r == entries.push(ov));
        assert(r[entries.len() as int] == ov);
        assert forall|x: VendorEntry| entries.contains(x) && entry_key(x) != k implies #[trigger] r.contains(
            x,
        ) by {
            let m = choose|m: int| 0 <= m < entries.len() && entries[m] == x;
            assert(r[m] == x);
        }
        assert forall|x: VendorEntry| #[trigger] r.contains(x) implies x == ov || entries.contains(x) by {
            let m = choose|m: int| 0 <= m < r.len() && r[m] == x;
            if m < entries.len() {
                assert(entries[m] == x);
            }
        }
        if keys_distinct(entries) {
            assert forall|i: int, j: int| 0 <= i < j < r.len() implies entry_key(#[trigger] r[i])
                != entry_key(#[trigger] r[j]) by {
                if j == entries.len() {
                    assert(!first_with_key(entries, k, i));
                    if entry_key(entries[i]) == k {
                        assert forall|g: int| 0 <= g < i implies entry_key(#[trigger] entries[g])
                            != k by {
                            assert(entry_key(entries[g]) != entry_key(entries[i]));
                        }
                        assert(first_with_key(entries, k, i));
                    }
                }
            }
        }
    }
}

proof fn lemma_apply_overrides_distinct(base: Seq<VendorEntry>, ovs: Seq<VendorEntry>)
    requires
        keys_distinct(base),
    ensures
        keys_distinct(apply_overrides(base, ovs)),
    decreases ovs.len(),
{
    if ovs.len() > 0 {
        lemma_apply_overrides_distinct(base, ovs.drop_last());
        lemma_apply_override_facts(apply_overrides(base, ovs.drop_last()), ovs.last());
    }
}

proof fn lemma_apply_overrides_keeps_last(base: Seq<VendorEntry>, ovs: Seq<VendorEntry>, i: int)
    requires
        0 <= i < ovs.len(),
        forall|j: int| i < j < ovs.len() ==> entry_key(#[trigger] ovs[j]) != entry_key(ovs[i]),
    ensures
        apply_overrides(base, ovs).contains(ovs[i]),
    decreases ovs.len(),
{
    let prev = apply_overrides(base, ovs.drop_last());
    lemma_apply_override_facts(prev, ovs.last());
    if i < ovs.len() - 1 {
        let u = ovs.drop_last();
        assert forall|j: int| i < j < u.len() implies entry_key(#[trigger] u[j]) != entry_key(u[i]) by {
            assert(u[j] == ovs[j]);
        }
        lemma_apply_overrides_keeps_last(base, u, i);
        assert(u[i] == ovs[i]);
        assert(entry_key(ovs[ovs.len() - 1]) != entry_key(ovs[i]));
    }
}

proof fn lemma_apply_overrides_keeps_base(base: Seq<VendorEntry>, ovs: Seq<VendorEntry>, x: VendorEntry)
    requires
        base.contains(x),
        forall|j: int| 0 <= j < ovs.len() ==> entry_key(#[trigger] ovs[j]) != entry_key(x),
    ensures
        apply_overrides(base, ovs).contains(x),
    decreases ovs.len(),
{
    if ovs.len() > 0 {
        let u = ovs.drop_last();
        assert forall|j: int| 0 <= j < u.len() implies entry_key(#[trigger] u[j]) != entry_key(x) by {
            assert(u[j] == ovs[j]);
        }
        lemma_apply_overrides_keeps_base(base, u, x);
        lemma_apply_override_facts(apply_overrides(base, u), ovs.last());
        assert(entry_key(ovs[ovs.len() - 1]) != entry_key(x));
    }
}

proof fn lemma_apply_overrides_members(base: Seq<VendorEntry>, ovs: Seq<VendorEntry>, x: VendorEntry)
    requires
        apply_overrides(base, ovs).contains(x),
    ensures
        base.contains(x) || ovs.contains(x),
    decreases ovs.len(),
{
    if ovs.len() > 0 {
        let u = ovs.drop_last();
        lemma_apply_override_facts(apply_overrides(base, u), ovs.last());
        if x == ovs.last() {
            assert(ovs[ovs.len() - 1] == x);
        } else {
            lemma_apply_overrides_members(base, u, x);
            if u.contains(x) {
                let k = choose|k: int| 0 <= k < u.len() && u[k] == x;
                assert(ovs[k] == x);
            }
        }
    }
}

/// The merged registry is ordered by vendor, then product, in ASCII lower case.
pub proof fn merged_registry_is_sorted(base: Seq<VendorEntry>, overrides: Seq<VendorEntry>)
    ensures
        entries_sorted(sort_stable(apply_overrides(base, overrides))),
{
    lemma_sort_stable_sorted(apply_overrides(base, overrides));
}

/// Overrides merge on top of the registry: the last override for a vendor
/// and product is in the merged registry, and where the registry lists each
/// vendor and product once, it is the only entry there for them.
pub proof fn override_takes_precedence(base: Seq<VendorEntry>, overrides: Seq<VendorEntry>, i: int)
    requires
        0 <= i < overrides.len(),
        forall|j: int|
            i < j < overrides.len() ==> entry_key(#[trigger] overrides[j]) != entry_key(overrides[i]),
    ensures
        sort_stable(apply_overrides(base, overrides)).contains(overrides[i]),
        keys_distinct(base) ==> keys_distinct(sort_stable(apply_overrides(base, overrides))),
        keys_distinct(base) ==> forall|x: VendorEntry|
            #[trigger] sort_stable(apply_overrides(base, overrides)).contains(x) && entry_key(x)
                == entry_key(overrides[i]) ==> x == overrides[i],
{
    let m = apply_overrides(base, overrides);
    let r = sort_stable(m);
    lemma_apply_overrides_keeps_last(base, overrides, i);
    lemma_sort_stable_member(m, overrides[i]);
    if keys_distinct(base) {
        lemma_apply_overrides_distinct(base, overrides);
        lemma_sort_stable_distinct(m);
        assert forall|x: VendorEntry|
            #[trigger] r.contains(x) && entry_key(x) == entry_key(overrides[i]) implies x
                == overrides[i] by {
            let a = choose|a: int| 0 <= a < r.len() && r[a] == x;
            let b = choose|b: int| 0 <= b < r.len() && r[b] == overrides[i];
            if a != b {
                if a < b {
                    assert(entry_key(r[a]) != entry_key(r[b]));
                } else {
                    assert(entry_key(r[b]) != entry_key(r[a]));
                }
            }
        }
    }
}

/// Registry entries that no override names are kept unchanged, and every
/// entry of the merged registry comes from the registry or the overrides.
pub proof fn merge_keeps_other_entries(
    base: Seq<VendorEntry>,
    overrides: Seq<VendorEntry>,
    x: VendorEntry,
)
    ensures
        base.contains(x) && (forall|j: int|
            0 <= j < overrides.len() ==> entry_key(#[trigger] overrides[j]) != entry_key(x))
            ==> sort_stable(apply_overrides(base, overrides)).contains(x),
        sort_stable(apply_overrides(base, overrides)).contains(x) ==> base.contains(x)
            || overrides.contains(x),
{
    let m = apply_overrides(base, overrides);
    lemma_sort_stable_member(m, x);
    if base.contains(x) && (forall|j: int|
        0 <= j < overrides.len() ==> entry_key(#[trigger] overrides[j]) != entry_key(x)) {
        lemma_apply_overrides_keeps_base(base, overrides, x);
    }
    if m.contains(x) {
        lemma_apply_overrides_members(base, overrides, x);
    }
}

} // verus!
