//! The laws of the data layer, proved once and for all over the model
//! transitions that the store's operations promise.

use vstd::prelude::*;

use crate::model::active_goals;
use crate::model::deact_goals;
use crate::model::inc_goals;
use crate::model::lemma_active_elems;
use crate::model::lemma_active_push;
use crate::model::lemma_other_layout_clean;
use crate::model::lemma_other_layout_push;
use crate::model::new_goal;
use crate::model::other_layout;
use crate::model::overwrite_notes;
use crate::model::reset_goals;
use crate::model::rows_for;
use crate::model::upsert_layout;
use crate::types::Goal;
use crate::types::GoalType;
use crate::types::LayoutItem;
use crate::types::Note;

verus! {

broadcast use vstd::seq_lib::group_to_multiset_ensures;

/// Law: a goal just created is appended to the active listing, with the
/// supplied fields unchanged, zero progress, and the active flag set — so
/// `add_goal` followed by `get_goals` always reports it.
pub proof fn lemma_created_goal_is_listed(
    goals: Seq<Goal>,
    id: i64,
    title: String,
    description: Option<String>,
    target_value: i32,
    goal_type: GoalType,
    now: i64,
)
    ensures
        ({
            let g = new_goal(id, title, description, target_value, goal_type, now);
            &&& active_goals(goals.push(g)) == active_goals(goals).push(g)
            &&& active_goals(goals.push(g)).to_multiset().contains(g)
            &&& g.current_value == 0
            &&& g.is_active
            &&& g.title == title
            &&& g.description == description
            &&& g.target_value == target_value
            &&& g.goal_type == goal_type
            &&& g.created_at == now
        }),
{
    let g = new_goal(id, title, description, target_value, goal_type, now);
    lemma_active_push(goals, g);
    let listed = active_goals(goals).push(g);
    assert(listed[listed.len() - 1] == g);
    assert(listed.contains(g));
}

/// Law: increments of one goal add up — two increments land on the sum of
/// the two amounts (wrapping at the 32-bit bounds, exact whenever the sum
/// stays in range), whichever order they arrive in; rows with another
/// identity are untouched.
pub proof fn lemma_increment_additive(goals: Seq<Goal>, goal_id: i64, a: i32, b: i32, t1: i64, t2: i64)
    ensures
        inc_goals(inc_goals(goals, goal_id, a, t1), goal_id, b, t2) == inc_goals(
            inc_goals(goals, goal_id, b, t1),
            goal_id,
            a,
            t2,
        ),
        forall|i: int|
            0 <= i < goals.len() && goals[i].id == goal_id ==> (
            #[trigger] inc_goals(inc_goals(goals, goal_id, a, t1), goal_id, b, t2)[i]).current_value
                == goals[i].current_value.wrapping_add(a).wrapping_add(b),
        forall|i: int|
            0 <= i < goals.len() && goals[i].id == goal_id && i32::MIN <= goals[i].current_value
                + a + b <= i32::MAX ==> (
            #[trigger] inc_goals(inc_goals(goals, goal_id, a, t1), goal_id, b, t2)[i]).current_value
                == goals[i].current_value + a + b,
        forall|i: int|
            0 <= i < goals.len() && goals[i].id != goal_id ==> #[trigger] inc_goals(
                inc_goals(goals, goal_id, a, t1),
                goal_id,
                b,
                t2,
            )[i] == goals[i],
{
    let ab = inc_goals(inc_goals(goals, goal_id, a, t1), goal_id, b, t2);
    let ba = inc_goals(inc_goals(goals, goal_id, b, t1), goal_id, a, t2);
    assert forall|i: int| 0 <= i < goals.len() implies ab[i] == ba[i] by {
        let c = goals[i].current_value;
        assert(c.wrapping_add(a).wrapping_add(b) == c.wrapping_add(b).wrapping_add(a));
    }
    assert(ab =~= ba);
}

/// Law: a soft-deleted goal leaves the active listing — no row the listing
/// reports after the delete carries its identity.  The delete touches only
/// the goal table: `delete_goal`'s own contract keeps the checklist and
/// layout tables word for word, so the goal's children stay queryable.
pub proof fn lemma_soft_deleted_goal_not_listed(goals: Seq<Goal>, goal_id: i64, now: i64)
    ensures
        forall|k: int|
            0 <= k < active_goals(deact_goals(goals, goal_id, now)).len() ==> (
            #[trigger] active_goals(deact_goals(goals, goal_id, now))[k]).id != goal_id,
{
    let del = deact_goals(goals, goal_id, now);
    lemma_active_elems(del);
    assert forall|k: int|
        0 <= k < active_goals(del).len() implies (#[trigger] active_goals(del)[k]).id
        != goal_id by {
        let e = active_goals(del)[k];
        assert(active_goals(del).contains(e));
        let j = choose|j: int| 0 <= j < del.len() && del[j] == e;
        assert(del[j] == crate::model::deact_goal_one(goals[j], goal_id, now));
    }
}

/// Law: the daily reset zeroes the progress of every daily row — active or
/// not — and refreshes its `updated_at`, while every row of another
/// recurrence class is untouched; no other field of a daily row changes.
pub proof fn lemma_reset_daily_scope(goals: Seq<Goal>, now: i64)
    ensures
        reset_goals(goals, now).len() == goals.len(),
        forall|i: int|
            0 <= i < goals.len() && goals[i].goal_type == GoalType::Daily ==> {
                let r = #[trigger] reset_goals(goals, now)[i];
                &&& r.current_value == 0
                &&& r.updated_at == now
                &&& r.id == goals[i].id
                &&& r.title == goals[i].title
                &&& r.description == goals[i].description
                &&& r.target_value == goals[i].target_value
                &&& r.goal_type == goals[i].goal_type
                &&& r.is_active == goals[i].is_active
                &&& r.created_at == goals[i].created_at
            },
        forall|i: int|
            0 <= i < goals.len() && goals[i].goal_type != GoalType::Daily
                ==> #[trigger] reset_goals(goals, now)[i] == goals[i],
{
}

/// Law: saving a layout twice for one goal is the same as saving only the
/// second time, and afterwards exactly one row — the second call's — is
/// stored for that goal.
pub proof fn lemma_layout_upsert_single(layout: Seq<LayoutItem>, r1: LayoutItem, r2: LayoutItem)
    requires
        r1.goal_id == r2.goal_id,
    ensures
        upsert_layout(upsert_layout(layout, r1), r2) == upsert_layout(layout, r2),
        rows_for(upsert_layout(layout, r2), r2.goal_id) == seq![r2],
{
    let g = r2.goal_id;
    lemma_other_layout_clean(layout, g);
    lemma_other_layout_push(other_layout(layout, g), r1, g);
    lemma_other_layout_push(other_layout(layout, g), r2, g);
    assert(rows_for(other_layout(layout, g), g).push(r2) =~= seq![r2]);
}

/// Law: saving notes twice keeps exactly one document, the second one;
/// the first survives nowhere (unless the two contents were equal to begin
/// with).
pub proof fn lemma_notes_overwrite(
    notes: Seq<Note>,
    id1: i64,
    c1: String,
    t1: i64,
    id2: i64,
    c2: String,
    t2: i64,
)
    ensures
        ({
            let after = overwrite_notes(overwrite_notes(notes, id1, c1, t1), id2, c2, t2);
            &&& after == overwrite_notes(notes, id2, c2, t2)
            &&& after.len() == 1
            &&& after[0].content == c2
            &&& forall|i: int| 0 <= i < after.len() && (#[trigger] after[i]).content == c1 ==> c1 == c2
        }),
{
}

} // verus!
