//! Transition plan generation.

use vstd::prelude::*;
use vstd::string::*;
use crate::clock::{new_id, now_nanos, utc_midnight, utc_midnight_of, utc_year, utc_year_of, valid_instant};
use crate::model::asset::{opt_view, CryptoAsset, TargetMilestone};
use crate::model::plan::{front_loaded_month, front_loaded_target_date, Plan, PlanItem, PlanItemStatus};
use crate::model::system::System;
use crate::model::vendor::{
    lemma_seq_less_asymmetric, lemma_seq_less_irreflexive, lemma_seq_less_total,
    lemma_seq_less_transitive, seq_less, seq_less_exec,
};
use crate::scoring::{
    action_spec, mig_diff_spec, opt_system, priority_of, recommended_action, score_asset_for_year,
    tier_of,
};
use crate::text::{chars_of, decimal, decimal_chars, push_chars, push_str, string_of};

verus! {

/// The earliest milestone that picks up an asset of a given triage tier:
/// tiers 1 and 2 belong to 2028, every other tier to 2030.
pub open spec fn milestone_for_tier_spec(tier: u8) -> TargetMilestone {
    if tier == 1 || tier == 2 {
        TargetMilestone::Y2028
    } else {
        TargetMilestone::Y2030
    }
}

pub fn milestone_for_tier(tier: u8) -> (r: TargetMilestone)
    ensures
        r == milestone_for_tier_spec(tier),
{
    match tier {
        1 => TargetMilestone::Y2028,
        2 => TargetMilestone::Y2028,
        3 => TargetMilestone::Y2030,
        _ => TargetMilestone::Y2030,
    }
}

/// `i` is the index of the first system with identifier `id`.
pub open spec fn first_system_index(systems: Seq<System>, id: u128, i: int) -> bool {
    &&& 0 <= i < systems.len()
    &&& systems[i].id == id
    &&& forall|j: int| 0 <= j < i ==> systems[j].id != id
}

/// The system an asset is attached to: the first with its `system_id`.
pub open spec fn system_of(systems: Seq<System>, system_id: Option<u128>) -> Option<System> {
    match system_id {
        Some(id) => if exists|i: int| first_system_index(systems, id, i) {
            Some(systems[choose|i: int| first_system_index(systems, id, i)])
        } else {
            None
        },
        None => None,
    }
}

/// The system an asset is attached to.
pub fn find_system<'a>(systems: &'a Vec<System>, system_id: Option<u128>) -> (r: Option<&'a System>)
    ensures
        opt_system(r) == system_of(systems@, system_id),
{
    match system_id {
        Some(id) => {
            let mut i: usize = 0;
            while i < systems.len()
                invariant
                    i <= systems.len(),
                    system_id == Some(id),
                    forall|j: int| 0 <= j < i ==> systems@[j].id != id,
                decreases systems.len() - i,
            {
                if systems[i].id == id {
                    proof {
                        assert(first_system_index(systems@, id, i as int));
                        let c = choose|c: int| first_system_index(systems@, id, c);
                        assert(first_system_index(systems@, id, c));
                        if c < i {
                            assert(systems@[c].id != id);
                        }
                        if i < c {
                            assert(systems@[i as int].id != id);
                        }
                        assert(c == i);
                        assert(system_of(systems@, system_id) == Some(systems@[i as int]));
                    }
                    return Some(&systems[i]);
                }
                i = i + 1;
            }
            None
        },
        None => None,
    }
}

/// A scored asset awaiting placement in a plan.
#[derive(Clone, Copy)]
pub struct PlanRow {
    pub index: usize,
    pub priority: u16,
    pub migration_difficulty: u8,
    pub triage_tier: u8,
}

/// The row of inventory asset `i`, scored in `year`.
pub open spec fn row_of(inv: Seq<CryptoAsset>, systems: Seq<System>, year: u16, i: int) -> PlanRow {
    let a = inv[i];
    let sys = system_of(systems, a.system_id);
    PlanRow {
        index: i as usize,
        priority: priority_of(a, sys, year),
        migration_difficulty: mig_diff_spec(a.migration_difficulty),
        triage_tier: tier_of(a, sys, year),
    }
}

/// A row belongs in a plan for `ms` when its tier's milestone is not later.
pub open spec fn row_in_milestone(row: PlanRow, ms: TargetMilestone) -> bool {
    milestone_for_tier_spec(row.triage_tier).year_spec() <= ms.year_spec()
}

/// The rows of the first `n` inventory assets that belong in a plan for `ms`.
pub open spec fn selected_rows(
    inv: Seq<CryptoAsset>,
    systems: Seq<System>,
    year: u16,
    ms: TargetMilestone,
    n: nat,
) -> Seq<PlanRow>
    decreases n,
{
    if n == 0 {
        Seq::empty()
    } else {
        let prev = selected_rows(inv, systems, year, ms, (n - 1) as nat);
        let row = row_of(inv, systems, year, n - 1);
        if row_in_milestone(row, ms) {
            prev.push(row)
        } else {
            prev
        }
    }
}

/// The plan order: priority descending, then migration difficulty
/// ascending, then asset name ascending.
pub open spec fn row_less(inv: Seq<CryptoAsset>, a: PlanRow, b: PlanRow) -> bool {
    ||| a.priority > b.priority
    ||| (a.priority == b.priority && a.migration_difficulty < b.migration_difficulty)
    ||| (a.priority == b.priority && a.migration_difficulty == b.migration_difficulty && seq_less(
        inv[a.index as int].name@,
        inv[b.index as int].name@,
    ))
}

/// `e` inserted into `t` after every row that does not come after it.
pub open spec fn insert_row(inv: Seq<CryptoAsset>, t: Seq<PlanRow>, e: PlanRow) -> Seq<PlanRow>
    decreases t.len(),
{
    if t.len() == 0 {
        seq![e]
    } else if !row_less(inv, e, t.last()) {
        t.push(e)
    } else {
        insert_row(inv, t.drop_last(), e).push(t.last())
    }
}

/// The stable sort of plan rows.
pub open spec fn sort_rows(inv: Seq<CryptoAsset>, s: Seq<PlanRow>) -> Seq<PlanRow>
    decreases s.len(),
{
    if s.len() == 0 {
        s
    } else {
        insert_row(inv, sort_rows(inv, s.drop_last()), s.last())
    }
}

/// The rows of a plan for milestone `ms`, in plan order.
pub open spec fn plan_rows_spec(
    inv: Seq<CryptoAsset>,
    systems: Seq<System>,
    year: u16,
    ms: TargetMilestone,
) -> Seq<PlanRow> {
    sort_rows(inv, selected_rows(inv, systems, year, ms, inv.len()))
}

fn row_less_exec(inv: &Vec<CryptoAsset>, a: PlanRow, b: PlanRow) -> (r: bool)
    requires
        a.index < inv.len(),
        b.index < inv.len(),
    ensures
        r == row_less(inv@, a, b),
{
    if a.priority > b.priority {
        return true;
    }
    if a.priority != b.priority {
        return false;
    }
    if a.migration_difficulty < b.migration_difficulty {
        return true;
    }
    if a.migration_difficulty != b.migration_difficulty {
        return false;
    }
    let na = chars_of(inv[a.index].name.as_str());
    let nb = chars_of(inv[b.index].name.as_str());
    seq_less_exec(na.as_slice(), nb.as_slice())
}

proof fn lemma_insert_row_at(inv: Seq<CryptoAsset>, t: Seq<PlanRow>, e: PlanRow, pos: int)
    requires
        0 <= pos <= t.len(),
        forall|j: int| pos <= j < t.len() ==> row_less(inv, e, #[trigger] t[j]),
        pos == 0 || !row_less(inv, e, t[pos - 1]),
    ensures
        insert_row(inv, t, e) == t.take(pos).push(e) + t.skip(pos),
    decreases t.len() - pos,
{
    if t.len() == pos {
        if pos == 0 {
            assert(t.take(0).push(e) + t.skip(0) =~= seq![e]);
        } else {
            assert(t.take(pos).push(e) + t.skip(pos) =~= t.push(e));
        }
    } else {
        assert(row_less(inv, e, t[t.len() - 1]));
        let u = t.drop_last();
        assert forall|j: int| pos <= j < u.len() implies row_less(inv, e, #[trigger] u[j]) by {
            assert(u[j] == t[j]);
        }
        if pos > 0 {
            assert(u[pos - 1] == t[pos - 1]);
        }
        lemma_insert_row_at(inv, u, e, pos);
        assert((u.take(pos).push(e) + u.skip(pos)).push(t.last()) =~= t.take(pos).push(e)
            + t.skip(pos));
    }
}

/// Every row indexes the inventory.
pub open spec fn rows_index(rows: Seq<PlanRow>, n: nat) -> bool {
    forall|i: int| 0 <= i < rows.len() ==> (#[trigger] rows[i]).index < n
}

fn insert_row_exec(inv: &Vec<CryptoAsset>, out: &mut Vec<PlanRow>, e: PlanRow)
    requires
        rows_index(old(out)@, inv@.len()),
        e.index < inv.len(),
    ensures
        final(out)@ == insert_row(inv@, old(out)@, e),
        rows_index(final(out)@, inv@.len()),
{
    let mut pos: usize = out.len();
    while pos > 0 && row_less_exec(inv, e, out[pos - 1])
        invariant
            pos <= out.len(),
            rows_index(out@, inv@.len()),
            e.index < inv.len(),
            forall|j: int| pos <= j < out.len() ==> row_less(inv@, e, #[trigger] out@[j]),
        decreases pos,
    {
        pos = pos - 1;
    }
    proof {
        lemma_insert_row_at(inv@, out@, e, pos as int);
    }
    let ghost before = out@;
    out.insert(pos, e);
    assert(out@ =~= before.take(pos as int).push(e) + before.skip(pos as int));
    assert forall|i: int| 0 <= i < out@.len() implies (#[trigger] out@[i]).index < inv@.len() by {
        if i < pos {
            assert(out@[i] == before[i]);
        } else if i > pos {
            assert(out@[i] == before[i - 1]);
        }
    }
}

/// The rows of a plan for `milestone`, scored in `current_year`, in plan order.
pub fn plan_rows(
    inventory: &Vec<CryptoAsset>,
    systems: &Vec<System>,
    milestone: TargetMilestone,
    current_year: u16,
) -> (r: Vec<PlanRow>)
    ensures
        r@ == plan_rows_spec(inventory@, systems@, current_year, milestone),
        rows_index(r@, inventory@.len()),
{
    let mut selected: Vec<PlanRow> = Vec::new();
    let mut i: usize = 0;
    while i < inventory.len()
        invariant
            i <= inventory.len(),
            selected@ == selected_rows(inventory@, systems@, current_year, milestone, i as nat),
            rows_index(selected@, inventory@.len()),
        decreases inventory.len() - i,
    {
        let a = &inventory[i];
        let sys = find_system(systems, a.system_id);
        let s = score_asset_for_year(a, sys, current_year);
        let row = PlanRow {
            index: i,
            priority: s.priority,
            migration_difficulty: s.migration_difficulty,
            triage_tier: s.triage_tier,
        };
        proof {
            assert(row == row_of(inventory@, systems@, current_year, i as int));
        }
        let ms = milestone_for_tier(s.triage_tier);
        if ms.year() <= milestone.year() {
            selected.push(row);
        }
        i = i + 1;
    }
    let mut sorted: Vec<PlanRow> = Vec::new();
    let mut k: usize = 0;
    while k < selected.len()
        invariant
            k <= selected.len(),
            sorted@ == sort_rows(inventory@, selected@.take(k as int)),
            rows_index(sorted@, inventory@.len()),
            rows_index(selected@, inventory@.len()),
        decreases selected.len() - k,
    {
        proof {
            let t = selected@.take(k + 1);
            assert(t.drop_last() =~= selected@.take(k as int));
            assert(t.last() == selected@[k as int]);
        }
        insert_row_exec(inventory, &mut sorted, selected[k]);
        k = k + 1;
    }
    assert(selected@.take(selected.len() as int) =~= selected@);
    sorted
}

proof fn lemma_row_less_asymmetric(inv: Seq<CryptoAsset>, a: PlanRow, b: PlanRow)
    requires
        row_less(inv, a, b),
    ensures
        !row_less(inv, b, a),
{
    let na = inv[a.index as int].name@;
    let nb = inv[b.index as int].name@;
    if a.priority == b.priority && a.migration_difficulty == b.migration_difficulty && seq_less(
        na,
        nb,
    ) {
        lemma_seq_less_asymmetric(na, nb);
    }
}

proof fn lemma_row_not_less_transitive(inv: Seq<CryptoAsset>, a: PlanRow, b: PlanRow, c: PlanRow)
    requires
        !row_less(inv, a, b),
        !row_less(inv, b, c),
    ensures
        !row_less(inv, a, c),
{
    let na = inv[a.index as int].name@;
    let nb = inv[b.index as int].name@;
    let nc = inv[c.index as int].name@;
    lemma_seq_less_total(na, nb);
    lemma_seq_less_total(nb, nc);
    if seq_less(nb, na) && seq_less(na, nc) {
        lemma_seq_less_transitive(nb, na, nc);
    }
    if na == nc {
        lemma_seq_less_irreflexive(na);
    }
}

/// No later row comes strictly before an earlier one in plan order.
pub open spec fn rows_sorted(inv: Seq<CryptoAsset>, s: Seq<PlanRow>) -> bool {
    forall|i: int, j: int| 0 <= i < j < s.len() ==> !row_less(inv, #[trigger] s[j], #[trigger] s[i])
}

proof fn lemma_insert_row_multiset(inv: Seq<CryptoAsset>, t: Seq<PlanRow>, e: PlanRow)
    ensures
        insert_row(inv, t, e).to_multiset() =~= t.to_multiset().insert(e),
    decreases t.len(),
{
    broadcast use vstd::seq_lib::group_to_multiset_ensures;

    if t.len() == 0 {
        assert(seq![e] =~= Seq::<PlanRow>::empty().push(e));
    } else if row_less(inv, e, t.last()) {
        lemma_insert_row_multiset(inv, t.drop_last(), e);
        assert(t.drop_last().push(t.last()) =~= t);
    }
}

proof fn lemma_sort_rows_multiset(inv: Seq<CryptoAsset>, s: Seq<PlanRow>)
    ensures
        sort_rows(inv, s).to_multiset() =~= s.to_multiset(),
    decreases s.len(),
{
    broadcast use vstd::seq_lib::group_to_multiset_ensures;

    if s.len() > 0 {
        lemma_sort_rows_multiset(inv, s.drop_last());
        lemma_insert_row_multiset(inv, sort_rows(inv, s.drop_last()), s.last());
        assert(s.drop_last().push(s.last()) =~= s);
    }
}

proof fn lemma_insert_row_sorted(inv: Seq<CryptoAsset>, t: Seq<PlanRow>, e: PlanRow)
    requires
        rows_sorted(inv, t),
    ensures
        rows_sorted(inv, insert_row(inv, t, e)),
    decreases t.len(),
{
    broadcast use vstd::seq_lib::group_to_multiset_ensures;

    let r = insert_row(inv, t, e);
    if t.len() == 0 {
    } else if !row_less(inv, e, t.last()) {
        assert forall|i: int, j: int| 0 <= i < j < r.len() implies !row_less(
            inv,
            #[trigger] r[j],
            #[trigger] r[i],
        ) by {
            if j == t.len() {
                if i < t.len() - 1 {
                    lemma_row_not_less_transitive(inv, e, t.last(), t[i]);
                }
            } else {
                assert(r[i] == t[i] && r[j] == t[j]);
            }
        }
    } else {
        let u = t.drop_last();
        assert(rows_sorted(inv, u)) by {
            assert forall|i: int, j: int| 0 <= i < j < u.len() implies !row_less(
                inv,
                #[trigger] u[j],
                #[trigger] u[i],
            ) by {
                assert(u[i] == t[i] && u[j] == t[j]);
            }
        }
        lemma_insert_row_sorted(inv, u, e);
        lemma_insert_row_multiset(inv, u, e);
        let inner = insert_row(inv, u, e);
        assert forall|i: int, j: int| 0 <= i < j < r.len() implies !row_less(
            inv,
            #[trigger] r[j],
            #[trigger] r[i],
        ) by {
            if j == inner.len() {
                let x = inner[i];
                assert(inner.contains(x));
                assert(inner.to_multiset().count(x) > 0);
                if x == e {
                    lemma_row_less_asymmetric(inv, e, t.last());
                } else {
                    assert(u.to_multiset().count(x) > 0);
                    let k = choose|k: int| 0 <= k < u.len() && u[k] == x;
                    assert(t[k] == x);
                    assert(!row_less(inv, t[t.len() - 1], t[k]));
                }
            } else {
                assert(r[i] == inner[i] && r[j] == inner[j]);
            }
        }
    }
}

proof fn lemma_sort_rows_sorted(inv: Seq<CryptoAsset>, s: Seq<PlanRow>)
    ensures
        rows_sorted(inv, sort_rows(inv, s)),
    decreases s.len(),
{
    if s.len() > 0 {
        lemma_sort_rows_sorted(inv, s.drop_last());
        lemma_insert_row_sorted(inv, sort_rows(inv, s.drop_last()), s.last());
    }
}

proof fn lemma_selected_member(
    inv: Seq<CryptoAsset>,
    systems: Seq<System>,
    year: u16,
    ms: TargetMilestone,
    n: nat,
    x: PlanRow,
)
    requires
        n <= inv.len() <= usize::MAX,
        selected_rows(inv, systems, year, ms, n).contains(x),
    ensures
        row_in_milestone(x, ms),
        x.index < n,
        x == row_of(inv, systems, year, x.index as int),
    decreases n,
{
    if n > 0 {
        let prev = selected_rows(inv, systems, year, ms, (n - 1) as nat);
        let row = row_of(inv, systems, year, n - 1);
        if x != row || !row_in_milestone(row, ms) {
            if row_in_milestone(row, ms) {
                let k = choose|k: int|
                    0 <= k < prev.push(row).len() && prev.push(row)[k] == x;
                assert(k < prev.len());
                assert(prev[k] == x);
            }
            assert(prev.contains(x));
            lemma_selected_member(inv, systems, year, ms, (n - 1) as nat, x);
        }
    }
}

proof fn lemma_selected_count(
    inv: Seq<CryptoAsset>,
    systems: Seq<System>,
    year: u16,
    ms: TargetMilestone,
    n: nat,
    i: int,
)
    requires
        n <= inv.len() <= usize::MAX,
        0 <= i < inv.len(),
    ensures
        selected_rows(inv, systems, year, ms, n).to_multiset().count(row_of(inv, systems, year, i))
            == if i < n && row_in_milestone(row_of(inv, systems, year, i), ms) {
            1int
        } else {
            0int
        },
    decreases n,
{
    broadcast use vstd::seq_lib::group_to_multiset_ensures;

    if n > 0 {
        lemma_selected_count(inv, systems, year, ms, (n - 1) as nat, i);
        if n - 1 != i {
            assert(row_of(inv, systems, year, n - 1).index != row_of(inv, systems, year, i).index);
        }
    }
}

/// The order of a plan's rows: a row never has a higher priority than one
/// before it; among rows of equal priority the migration difficulty never
/// falls; among rows equal in both, the asset names never fall.
pub proof fn plan_order_law(inv: Seq<CryptoAsset>, systems: Seq<System>, year: u16, ms: TargetMilestone)
    requires
        inv.len() <= usize::MAX,
    ensures
        forall|i: int, j: int|
            0 <= i < j < plan_rows_spec(inv, systems, year, ms).len() ==> {
                let a = #[trigger] plan_rows_spec(inv, systems, year, ms)[i];
                let b = #[trigger] plan_rows_spec(inv, systems, year, ms)[j];
                &&& a.priority >= b.priority
                &&& (a.priority == b.priority ==> a.migration_difficulty <= b.migration_difficulty)
                &&& (a.priority == b.priority && a.migration_difficulty == b.migration_difficulty
                    ==> !seq_less(inv[b.index as int].name@, inv[a.index as int].name@))
            },
{
    plan_rows_law(inv, systems, year, ms);
    let rows = plan_rows_spec(inv, systems, year, ms);
    assert forall|i: int, j: int| 0 <= i < j < rows.len() implies {
        let a = #[trigger] rows[i];
        let b = #[trigger] rows[j];
        &&& a.priority >= b.priority
        &&& (a.priority == b.priority ==> a.migration_difficulty <= b.migration_difficulty)
        &&& (a.priority == b.priority && a.migration_difficulty == b.migration_difficulty
            ==> !seq_less(inv[b.index as int].name@, inv[a.index as int].name@))
    } by {
        assert(!row_less(inv, rows[j], rows[i]));
    }
}

/// A plan lists exactly the inventory assets whose triage tier maps to its
/// milestone or an earlier one, each once, scored as `score_asset` scores
/// them, in plan order: priority descending, then migration difficulty
/// ascending, then asset name.
pub proof fn plan_rows_law(
    inv: Seq<CryptoAsset>,
    systems: Seq<System>,
    year: u16,
    ms: TargetMilestone,
)
    requires
        inv.len() <= usize::MAX,
    ensures
        forall|j: int|
            0 <= j < plan_rows_spec(inv, systems, year, ms).len() ==> {
                let x = #[trigger] plan_rows_spec(inv, systems, year, ms)[j];
                &&& row_in_milestone(x, ms)
                &&& x.index < inv.len()
                &&& x == row_of(inv, systems, year, x.index as int)
            },
        forall|i: int|
            0 <= i < inv.len() ==> #[trigger] plan_rows_spec(
                inv,
                systems,
                year,
                ms,
            ).to_multiset().count(row_of(inv, systems, year, i)) == if row_in_milestone(
                row_of(inv, systems, year, i),
                ms,
            ) {
                1int
            } else {
                0int
            },
        rows_sorted(inv, plan_rows_spec(inv, systems, year, ms)),
{
    broadcast use vstd::seq_lib::group_to_multiset_ensures;

    let sel = selected_rows(inv, systems, year, ms, inv.len());
    let rows = plan_rows_spec(inv, systems, year, ms);
    lemma_sort_rows_multiset(inv, sel);
    lemma_sort_rows_sorted(inv, sel);
    assert forall|j: int| 0 <= j < rows.len() implies {
        let x = #[trigger] rows[j];
        &&& row_in_milestone(x, ms)
        &&& x.index < inv.len()
        &&& x == row_of(inv, systems, year, x.index as int)
    } by {
        let x = rows[j];
        assert(rows.contains(x));
        assert(rows.to_multiset().count(x) > 0);
        assert(sel.contains(x));
        lemma_selected_member(inv, systems, year, ms, inv.len(), x);
    }
    assert forall|i: int| 0 <= i < inv.len() implies #[trigger] rows.to_multiset().count(
        row_of(inv, systems, year, i),
    ) == if row_in_milestone(row_of(inv, systems, year, i), ms) {
        1int
    } else {
        0int
    } by {
        lemma_selected_count(inv, systems, year, ms, inv.len(), i);
    }
}

/// The plan item of a row: the asset's identity, its tier, priority and
/// recommended action, due on the first day of the tier's month in the
/// milestone's year; pending, with no assignee or notes.
pub open spec fn item_holds(it: PlanItem, a: CryptoAsset, row: PlanRow, ms: TargetMilestone) -> bool {
    &&& it.crypto_asset_id == a.id
    &&& it.asset_name@ == a.name@
    &&& it.algorithm_name@ == a.algorithm_name@
    &&& it.triage_tier == row.triage_tier
    &&& it.priority == row.priority
    &&& it.target_action@ == action_spec(row.triage_tier, a.asset_type)
    &&& it.target_date == Some(
        utc_midnight_of(ms.year_spec() as i32, front_loaded_month(row.triage_tier), 1),
    )
    &&& it.assignee is None
    &&& it.notes is None
    &&& it.status == PlanItemStatus::Pending
}

/// The items of a plan correspond one to one, in order, to its rows.
pub open spec fn items_hold(
    items: Seq<PlanItem>,
    inv: Seq<CryptoAsset>,
    rows: Seq<PlanRow>,
    ms: TargetMilestone,
) -> bool {
    &&& items.len() == rows.len()
    &&& forall|i: int|
        0 <= i < rows.len() ==> item_holds(
            #[trigger] items[i],
            inv[rows[i].index as int],
            rows[i],
            ms,
        )
}

/// The default name of a plan: "PQC transition plan" and the milestone year.
pub open spec fn default_plan_name(ms: TargetMilestone) -> Seq<char> {
    "PQC transition plan "@ + decimal(ms.year_spec() as nat)
}

/// Generates a plan for `milestone` at the instant `today`: the inventory
/// assets whose triage tier maps to that milestone or an earlier one, ordered
/// by priority (descending), then migration difficulty (ascending), then name.
pub fn generate_at(
    inventory: &Vec<CryptoAsset>,
    systems: &Vec<System>,
    milestone: TargetMilestone,
    name: Option<String>,
    today: i128,
) -> (r: Plan)
    requires
        valid_instant(today),
    ensures
        r.milestone == milestone,
        r.name@ == match name {
            Some(n) => n@,
            None => default_plan_name(milestone),
        },
        items_hold(
            r.items@,
            inventory@,
            plan_rows_spec(inventory@, systems@, utc_year_of(today) as u16, milestone),
            milestone,
        ),
{
    let year = utc_year(today);
    let current_year: u16 = #[verifier::truncate] (year as u16);
    let rows = plan_rows(inventory, systems, milestone, current_year);
    let plan_name = match name {
        Some(n) => n,
        None => {
            let mut v: Vec<char> = Vec::new();
            push_str(&mut v, "PQC transition plan ");
            let d = decimal_chars(milestone.year() as u64);
            push_chars(&mut v, d.as_slice());
            string_of(v.as_slice())
        },
    };
    let mut plan = Plan::new(plan_name, milestone);
    let mut items: Vec<PlanItem> = Vec::new();
    let mut i: usize = 0;
    while i < rows.len()
        invariant
            i <= rows.len(),
            rows_index(rows@, inventory@.len()),
            items@.len() == i,
            forall|t: int|
                0 <= t < i ==> item_holds(
                    #[trigger] items@[t],
                    inventory@[rows@[t].index as int],
                    rows@[t],
                    milestone,
                ),
        decreases rows.len() - i,
    {
        let row = rows[i];
        assert(rows@[i as int].index < inventory@.len());
        let asset = &inventory[row.index];
        let date = front_loaded_target_date(milestone, row.triage_tier);
        let dt = utc_midnight(date.year, date.month, date.day);
        let item = PlanItem {
            id: new_id(),
            crypto_asset_id: asset.id,
            asset_name: asset.name.clone(),
            algorithm_name: asset.algorithm_name.clone(),
            triage_tier: row.triage_tier,
            priority: row.priority,
            target_action: recommended_action(row.triage_tier, asset.asset_type),
            target_date: Some(dt),
            assignee: None,
            notes: None,
            status: PlanItemStatus::Pending,
        };
        items.push(item);
        i = i + 1;
    }
    plan.items = items;
    plan
}

/// Generates a plan for `milestone` now.
pub fn generate(
    inventory: &Vec<CryptoAsset>,
    systems: &Vec<System>,
    milestone: TargetMilestone,
    name: Option<String>,
) -> (r: Plan)
    ensures
        r.milestone == milestone,
        r.name@ == match name {
            Some(n) => n@,
            None => default_plan_name(milestone),
        },
        exists|today: i128|
            valid_instant(today) && #[trigger] items_hold(
                r.items@,
                inventory@,
                plan_rows_spec(inventory@, systems@, utc_year_of(today) as u16, milestone),
                milestone,
            ),
{
    let today = now_nanos();
    generate_at(inventory, systems, milestone, name, today)
}


/// The index of the last item of `items` for asset `asset`, if any: where a
/// plan lists an asset twice, the later entry's edits are the ones kept.
pub open spec fn last_edit(items: Seq<PlanItem>, asset: u128) -> Option<int>
    decreases items.len(),
{
    if items.len() == 0 {
        None
    } else if items.last().crypto_asset_id == asset {
        Some(items.len() - 1)
    } else {
        last_edit(items.drop_last(), asset)
    }
}

/// `it` is the regenerated item `fresh` with the user edits of `prev`: the
/// previous target action; the previous target date, assignee and notes
/// where they were set; the previous status where it had left `Pending`.
pub open spec fn edits_kept(it: PlanItem, fresh: PlanItem, prev: PlanItem) -> bool {
    &&& it.id == fresh.id
    &&& it.crypto_asset_id == fresh.crypto_asset_id
    &&& it.asset_name@ == fresh.asset_name@
    &&& it.algorithm_name@ == fresh.algorithm_name@
    &&& it.triage_tier == fresh.triage_tier
    &&& it.priority == fresh.priority
    &&& it.target_action@ == prev.target_action@
    &&& it.target_date == if prev.target_date is Some {
        prev.target_date
    } else {
        fresh.target_date
    }
    &&& opt_view(it.assignee) == if prev.assignee is Some {
        opt_view(prev.assignee)
    } else {
        opt_view(fresh.assignee)
    }
    &&& opt_view(it.notes) == if prev.notes is Some {
        opt_view(prev.notes)
    } else {
        opt_view(fresh.notes)
    }
    &&& it.status == if prev.status != PlanItemStatus::Pending {
        prev.status
    } else {
        fresh.status
    }
}

/// `it` equals `fresh`, field by field.
pub open spec fn same_item(it: PlanItem, fresh: PlanItem) -> bool {
    &&& it.id == fresh.id
    &&& it.crypto_asset_id == fresh.crypto_asset_id
    &&& it.asset_name@ == fresh.asset_name@
    &&& it.algorithm_name@ == fresh.algorithm_name@
    &&& it.triage_tier == fresh.triage_tier
    &&& it.priority == fresh.priority
    &&& it.target_action@ == fresh.target_action@
    &&& it.target_date == fresh.target_date
    &&& opt_view(it.assignee) == opt_view(fresh.assignee)
    &&& opt_view(it.notes) == opt_view(fresh.notes)
    &&& it.status == fresh.status
}

/// Item `it` is `fresh` carried over with the edits recorded in `existing`.
pub open spec fn carried_over(it: PlanItem, fresh: PlanItem, existing: Seq<PlanItem>) -> bool {
    match last_edit(existing, fresh.crypto_asset_id) {
        Some(k) => edits_kept(it, fresh, existing[k]),
        None => same_item(it, fresh),
    }
}

/// Every item of `items` is the corresponding item of `fresh`, carried over.
pub open spec fn all_carried_over(
    items: Seq<PlanItem>,
    fresh: Seq<PlanItem>,
    existing: Seq<PlanItem>,
) -> bool {
    &&& items.len() == fresh.len()
    &&& forall|i: int|
        0 <= i < fresh.len() ==> carried_over(#[trigger] items[i], fresh[i], existing)
}

fn clone_opt_string(o: &Option<String>) -> (r: Option<String>)
    ensures
        opt_view(r) == opt_view(*o),
{
    match o {
        Some(s) => Some(s.clone()),
        None => None,
    }
}

fn find_last_edit(existing: &Vec<PlanItem>, asset: u128) -> (r: Option<usize>)
    ensures
        match r {
            Some(k) => k < existing@.len() && last_edit(existing@, asset) == Some(k as int),
            None => last_edit(existing@, asset) is None,
        },
{
    let mut k: usize = existing.len();
    assert(existing@.take(k as int) =~= existing@);
    while k > 0
        invariant
            k <= existing.len(),
            last_edit(existing@, asset) == last_edit(existing@.take(k as int), asset),
        decreases k,
    {
        let ghost t = existing@.take(k as int);
        assert(t.drop_last() =~= existing@.take(k - 1));
        if existing[k - 1].crypto_asset_id == asset {
            return Some(k - 1);
        }
        k = k - 1;
    }
    None
}

/// Carries the user edits of an existing plan's items over to the items of
/// a regenerated plan: for each regenerated item whose asset the existing
/// plan lists, the target action, and the target date, assignee, notes and
/// status where the user set them, are taken from the existing item.
pub fn apply_user_edits(existing: &Vec<PlanItem>, fresh: Vec<PlanItem>) -> (r: Vec<PlanItem>)
    ensures
        all_carried_over(r@, fresh@, existing@),
{
    let mut out: Vec<PlanItem> = Vec::new();
    let mut fresh = fresh;
    let ghost fresh0 = fresh@;
    let mut i: usize = 0;
    while i < fresh.len()
        invariant
            i <= fresh.len(),
            fresh@ == fresh0,
            out@.len() == i,
            forall|t: int| 0 <= t < i ==> carried_over(#[trigger] out@[t], fresh0[t], existing@),
        decreases fresh.len() - i,
    {
        let item = &fresh[i];
        let it = match find_last_edit(existing, item.crypto_asset_id) {
            Some(k) => {
                let prev = &existing[k];
                PlanItem {
                    id: item.id,
                    crypto_asset_id: item.crypto_asset_id,
                    asset_name: item.asset_name.clone(),
                    algorithm_name: item.algorithm_name.clone(),
                    triage_tier: item.triage_tier,
                    priority: item.priority,
                    target_action: prev.target_action.clone(),
                    target_date: if prev.target_date.is_some() {
                        prev.target_date
                    } else {
                        item.target_date
                    },
                    assignee: if prev.assignee.is_some() {
                        clone_opt_string(&prev.assignee)
                    } else {
                        clone_opt_string(&item.assignee)
                    },
                    notes: if prev.notes.is_some() {
                        clone_opt_string(&prev.notes)
                    } else {
                        clone_opt_string(&item.notes)
                    },
                    status: if prev.status != PlanItemStatus::Pending {
                        prev.status
                    } else {
                        item.status
                    },
                }
            },
            None => PlanItem {
                id: item.id,
                crypto_asset_id: item.crypto_asset_id,
                asset_name: item.asset_name.clone(),
                algorithm_name: item.algorithm_name.clone(),
                triage_tier: item.triage_tier,
                priority: item.priority,
                target_action: item.target_action.clone(),
                target_date: item.target_date,
                assignee: clone_opt_string(&item.assignee),
                notes: clone_opt_string(&item.notes),
                status: item.status,
            },
        };
        out.push(it);
        i = i + 1;
    }
    out
}

/// Regenerates `existing` against the current inventory: a plan generated
/// afresh for the same milestone and name, under the same identifier, whose
/// items keep the user edits that `existing` records.
pub fn regenerate(
    existing: &Plan,
    inventory: &Vec<CryptoAsset>,
    systems: &Vec<System>,
) -> (r: Plan)
    ensures
        r.id == existing.id,
        r.name@ == existing.name@,
        r.milestone == existing.milestone,
        exists|fresh: Seq<PlanItem>, today: i128|
            valid_instant(today) && #[trigger] items_hold(
                fresh,
                inventory@,
                plan_rows_spec(inventory@, systems@, utc_year_of(today) as u16, existing.milestone),
                existing.milestone,
            ) && all_carried_over(r.items@, fresh, existing.items@),
{
    let today = now_nanos();
    let plan = generate_at(
        inventory,
        systems,
        existing.milestone,
        Some(existing.name.clone()),
        today,
    );
    let Plan { id: _, name, milestone, generated_at, items } = plan;
    let ghost fresh = items@;
    let items = apply_user_edits(&existing.items, items);
    Plan { id: existing.id, name, milestone, generated_at, items }
}

/// The message of a milestone that is not one of the three.
pub open spec fn milestone_error() -> Seq<char> {
    "milestone must be one of 2026, 2028, 2030"@
}

/// Parses a milestone year (surrounding whitespace ignored).
pub fn parse_milestone(value: &str) -> (r: Result<TargetMilestone, String>)
    ensures
        match TargetMilestone::parse_spec(value@) {
            Some(m) => r == Ok::<TargetMilestone, String>(m),
            None => r is Err && r->Err_0@ == milestone_error(),
        },
{
    match TargetMilestone::parse(value) {
        Some(m) => Ok(m),
        None => Err(String::from_str("milestone must be one of 2026, 2028, 2030")),
    }
}

} // verus!
