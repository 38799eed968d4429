//! The mathematical model of the store.
//!
//! Each command of the data layer is described here as a pure transition on
//! sequences of rows; the executable operations in `store` promise exactly
//! these transitions, and the laws in `laws` are proved about them.

use vstd::prelude::*;

use crate::types::ChecklistItem;
use crate::types::Goal;
use crate::types::GoalType;
use crate::types::LayoutItem;
use crate::types::Note;

verus! {

// ---------------------------------------------------------------------------
// Row constructors
// ---------------------------------------------------------------------------

/// A goal title is acceptable when it is not empty.
pub open spec fn title_ok(title: String) -> bool {
    title@.len() > 0
}

/// The row `add_goal` inserts: progress starts at zero, the goal is active,
/// and both timestamps are the insertion instant.
pub open spec fn new_goal(
    id: i64,
    title: String,
    description: Option<String>,
    target_value: i32,
    goal_type: GoalType,
    now: i64,
) -> Goal {
    Goal {
        id,
        title,
        description,
        target_value,
        current_value: 0,
        goal_type,
        is_active: true,
        created_at: now,
        updated_at: now,
    }
}

/// The row `add_checklist_item` inserts: never completed yet.
pub open spec fn new_item(
    id: i64,
    goal_id: i64,
    title: String,
    order_index: i32,
    now: i64,
) -> ChecklistItem {
    ChecklistItem { id, goal_id, title, is_completed: false, order_index, created_at: now }
}

/// The row `save_layout` inserts.
pub open spec fn new_layout_row(
    id: i64,
    goal_id: i64,
    x_position: u64,
    y_position: u64,
    width: u64,
    height: u64,
    section_type: GoalType,
    now: i64,
) -> LayoutItem {
    LayoutItem {
        id,
        goal_id,
        x_position,
        y_position,
        width,
        height,
        section_type,
        created_at: now,
        updated_at: now,
    }
}

/// The row `save_notes` inserts.
pub open spec fn new_note(id: i64, content: String, now: i64) -> Note {
    Note { id, content, created_at: now, updated_at: now }
}

// ---------------------------------------------------------------------------
// Goal transitions
// ---------------------------------------------------------------------------

/// One goal after `increment_goal(goal_id, amount)` at instant `now`:
/// the matching row gains `amount` (wrapping at the 32-bit bounds) and a
/// fresh `updated_at`; every other row is untouched.
pub open spec fn inc_goal_one(g: Goal, goal_id: i64, amount: i32, now: i64) -> Goal {
    if g.id == goal_id {
        Goal { current_value: g.current_value.wrapping_add(amount), updated_at: now, ..g }
    } else {
        g
    }
}

/// All goals after `increment_goal`.
pub open spec fn inc_goals(s: Seq<Goal>, goal_id: i64, amount: i32, now: i64) -> Seq<Goal> {
    s.map_values(|g: Goal| inc_goal_one(g, goal_id, amount, now))
}

/// One goal after `update_goal`: title, description and target change on the
/// matching row; recurrence class, progress and creation instant do not.
pub open spec fn upd_goal_one(
    g: Goal,
    goal_id: i64,
    title: String,
    description: Option<String>,
    target_value: i32,
    now: i64,
) -> Goal {
    if g.id == goal_id {
        Goal { title, description, target_value, updated_at: now, ..g }
    } else {
        g
    }
}

/// All goals after `update_goal`.
pub open spec fn upd_goals(
    s: Seq<Goal>,
    goal_id: i64,
    title: String,
    description: Option<String>,
    target_value: i32,
    now: i64,
) -> Seq<Goal> {
    s.map_values(|g: Goal| upd_goal_one(g, goal_id, title, description, target_value, now))
}

/// One goal after the soft delete `delete_goal`: the matching row merely
/// goes inactive; nothing is removed.
pub open spec fn deact_goal_one(g: Goal, goal_id: i64, now: i64) -> Goal {
    if g.id == goal_id {
        Goal { is_active: false, updated_at: now, ..g }
    } else {
        g
    }
}

/// All goals after `delete_goal`.
pub open spec fn deact_goals(s: Seq<Goal>, goal_id: i64, now: i64) -> Seq<Goal> {
    s.map_values(|g: Goal| deact_goal_one(g, goal_id, now))
}

/// One goal after `reset_daily_goals`: every daily row — active or not —
/// returns to zero progress; other recurrence classes are untouched.
pub open spec fn reset_goal_one(g: Goal, now: i64) -> Goal {
    if g.goal_type == GoalType::Daily {
        Goal { current_value: 0, updated_at: now, ..g }
    } else {
        g
    }
}

/// All goals after `reset_daily_goals`.
pub open spec fn reset_goals(s: Seq<Goal>, now: i64) -> Seq<Goal> {
    s.map_values(|g: Goal| reset_goal_one(g, now))
}

/// The rows `get_goals` reports: the active ones, in storage order.
pub open spec fn active_goals(s: Seq<Goal>) -> Seq<Goal>
    decreases s.len(),
{
    if s.len() == 0 {
        Seq::empty()
    } else {
        let init = active_goals(s.drop_last());
        if s.last().is_active {
            init.push(s.last())
        } else {
            init
        }
    }
}

// ---------------------------------------------------------------------------
// Checklist transitions
// ---------------------------------------------------------------------------

/// One item after `toggle_checklist_item`: the matching row takes the
/// caller-supplied completion flag (a set, not a flip).
pub open spec fn toggle_item_one(it: ChecklistItem, item_id: i64, is_completed: bool) -> ChecklistItem {
    if it.id == item_id {
        ChecklistItem { is_completed, ..it }
    } else {
        it
    }
}

/// All items after `toggle_checklist_item`.
pub open spec fn toggle_items(s: Seq<ChecklistItem>, item_id: i64, is_completed: bool) -> Seq<ChecklistItem> {
    s.map_values(|it: ChecklistItem| toggle_item_one(it, item_id, is_completed))
}

/// All items after the hard delete `delete_checklist_item`: every row but
/// the matching one, in storage order.
pub open spec fn without_item(s: Seq<ChecklistItem>, item_id: i64) -> Seq<ChecklistItem>
    decreases s.len(),
{
    if s.len() == 0 {
        Seq::empty()
    } else {
        let init = without_item(s.drop_last(), item_id);
        if s.last().id != item_id {
            init.push(s.last())
        } else {
            init
        }
    }
}

/// The rows `get_checklist_items(goal_id)` reports, in storage order.
pub open spec fn items_of(s: Seq<ChecklistItem>, goal_id: i64) -> Seq<ChecklistItem>
    decreases s.len(),
{
    if s.len() == 0 {
        Seq::empty()
    } else {
        let init = items_of(s.drop_last(), goal_id);
        if s.last().goal_id == goal_id {
            init.push(s.last())
        } else {
            init
        }
    }
}

// ---------------------------------------------------------------------------
// Layout transitions
// ---------------------------------------------------------------------------

/// The layout rows that do not belong to `goal_id`, in storage order.
pub open spec fn other_layout(s: Seq<LayoutItem>, goal_id: i64) -> Seq<LayoutItem>
    decreases s.len(),
{
    if s.len() == 0 {
        Seq::empty()
    } else {
        let init = other_layout(s.drop_last(), goal_id);
        if s.last().goal_id != goal_id {
            init.push(s.last())
        } else {
            init
        }
    }
}

/// The layout rows that belong to `goal_id`, in storage order.
pub open spec fn rows_for(s: Seq<LayoutItem>, goal_id: i64) -> Seq<LayoutItem>
    decreases s.len(),
{
    if s.len() == 0 {
        Seq::empty()
    } else {
        let init = rows_for(s.drop_last(), goal_id);
        if s.last().goal_id == goal_id {
            init.push(s.last())
        } else {
            init
        }
    }
}

/// All layout rows after `save_layout`: any slot already held by the row's
/// goal is given up, and the new row takes the end of storage order.
pub open spec fn upsert_layout(s: Seq<LayoutItem>, row: LayoutItem) -> Seq<LayoutItem> {
    other_layout(s, row.goal_id).push(row)
}

// ---------------------------------------------------------------------------
// Notes transitions
// ---------------------------------------------------------------------------

/// All note rows after `save_notes`: whatever stood before is cleared and
/// the one new document remains.
pub open spec fn overwrite_notes(s: Seq<Note>, id: i64, content: String, now: i64) -> Seq<Note> {
    seq![new_note(id, content, now)]
}

// ---------------------------------------------------------------------------
// Orderings reported by the queries
// ---------------------------------------------------------------------------

/// Newest creation instant first.
pub open spec fn sorted_by_created_desc(s: Seq<Goal>) -> bool {
    forall|i: int, j: int| 0 <= i <= j < s.len() ==> s[i].created_at >= s[j].created_at
}

/// Display order, ascending.
pub open spec fn sorted_by_order_index(s: Seq<ChecklistItem>) -> bool {
    forall|i: int, j: int| 0 <= i <= j < s.len() ==> s[i].order_index <= s[j].order_index
}

/// Owning goal, ascending.
pub open spec fn sorted_by_goal_id(s: Seq<LayoutItem>) -> bool {
    forall|i: int, j: int| 0 <= i <= j < s.len() ==> s[i].goal_id <= s[j].goal_id
}

// ---------------------------------------------------------------------------
// Lemmas about the filters
// ---------------------------------------------------------------------------

/// Appending a goal either appends to the active view or leaves it alone.
pub proof fn lemma_active_push(s: Seq<Goal>, g: Goal)
    ensures
        active_goals(s.push(g)) == if g.is_active {
            active_goals(s).push(g)
        } else {
            active_goals(s)
        },
{
    assert(s.push(g).drop_last() =~= s);
    assert(s.push(g).last() == g);
}

/// Every goal the active view reports is a stored goal, and is active.
pub proof fn lemma_active_elems(s: Seq<Goal>)
    ensures
        forall|e: Goal| #[trigger] active_goals(s).contains(e) ==> s.contains(e) && e.is_active,
    decreases s.len(),
{
    if s.len() > 0 {
        lemma_active_elems(s.drop_last());
        assert forall|e: Goal| #[trigger] active_goals(s).contains(e) implies s.contains(e)
            && e.is_active by {
            let init = active_goals(s.drop_last());
            if init.contains(e) {
                let k = choose|k: int| 0 <= k < s.drop_last().len() && s.drop_last()[k] == e;
                assert(s[k] == e);
            } else {
                assert(s.last().is_active && e == s.last());
                assert(s[s.len() - 1] == e);
            }
        }
    }
}

/// Appending a layout row distributes over the split by goal.
pub proof fn lemma_other_layout_push(s: Seq<LayoutItem>, x: LayoutItem, goal_id: i64)
    ensures
        other_layout(s.push(x), goal_id) == if x.goal_id != goal_id {
            other_layout(s, goal_id).push(x)
        } else {
            other_layout(s, goal_id)
        },
        rows_for(s.push(x), goal_id) == if x.goal_id == goal_id {
            rows_for(s, goal_id).push(x)
        } else {
            rows_for(s, goal_id)
        },
{
    assert(s.push(x).drop_last() =~= s);
    assert(s.push(x).last() == x);
}

/// Every item kept by the hard delete is a stored item with another id.
pub proof fn lemma_without_item_elems(s: Seq<ChecklistItem>, item_id: i64)
    ensures
        forall|e: ChecklistItem| #[trigger] without_item(s, item_id).contains(e) ==> s.contains(e)
            && e.id != item_id,
    decreases s.len(),
{
    if s.len() > 0 {
        lemma_without_item_elems(s.drop_last(), item_id);
        assert forall|e: ChecklistItem| #[trigger] without_item(s, item_id).contains(e) implies s
            .contains(e) && e.id != item_id by {
            let init = without_item(s.drop_last(), item_id);
            if init.contains(e) {
                let k = choose|k: int|
                    0 <= k < s.drop_last().len() && s.drop_last()[k] == e;
                assert(s[k] == e);
            } else {
                assert(s[s.len() - 1] == e);
            }
        }
    }
}

/// The hard delete keeps distinct ids distinct.
pub proof fn lemma_without_item_unique(s: Seq<ChecklistItem>, item_id: i64)
    requires
        forall|i: int, j: int| 0 <= i < j < s.len() ==> s[i].id != s[j].id,
    ensures
        forall|i: int, j: int|
            0 <= i < j < without_item(s, item_id).len() ==> without_item(s, item_id)[i].id
                != without_item(s, item_id)[j].id,
    decreases s.len(),
{
    if s.len() > 0 {
        let front = s.drop_last();
        lemma_without_item_unique(front, item_id);
        lemma_without_item_elems(front, item_id);
        let r = without_item(s, item_id);
        let init = without_item(front, item_id);
        if s.last().id != item_id {
            assert forall|i: int, j: int| 0 <= i < j < r.len() implies r[i].id != r[j].id by {
                if j < r.len() - 1 {
                    assert(r[i] == init[i] && r[j] == init[j]);
                } else {
                    assert(r[j] == s.last());
                    assert(init.contains(r[i]));
                    let k = choose|k: int| 0 <= k < front.len() && front[k] == r[i];
                    assert(s[k] == r[i] && s[s.len() - 1] == s.last());
                }
            }
        }
    }
}

/// Every layout row kept for the other goals really belongs to another goal.
pub proof fn lemma_other_layout_elems(s: Seq<LayoutItem>, goal_id: i64)
    ensures
        forall|e: LayoutItem| #[trigger] other_layout(s, goal_id).contains(e) ==> s.contains(e)
            && e.goal_id != goal_id,
    decreases s.len(),
{
    if s.len() > 0 {
        lemma_other_layout_elems(s.drop_last(), goal_id);
        assert forall|e: LayoutItem| #[trigger] other_layout(s, goal_id).contains(e) implies s
            .contains(e) && e.goal_id != goal_id by {
            let init = other_layout(s.drop_last(), goal_id);
            if init.contains(e) {
                let k = choose|k: int|
                    0 <= k < s.drop_last().len() && s.drop_last()[k] == e;
                assert(s[k] == e);
            } else {
                assert(s[s.len() - 1] == e);
            }
        }
    }
}

/// Giving up one goal's slot keeps distinct row ids and distinct owning
/// goals distinct.
pub proof fn lemma_other_layout_unique(s: Seq<LayoutItem>, goal_id: i64)
    requires
        forall|i: int, j: int| 0 <= i < j < s.len() ==> s[i].id != s[j].id,
        forall|i: int, j: int| 0 <= i < j < s.len() ==> s[i].goal_id != s[j].goal_id,
    ensures
        forall|i: int, j: int|
            0 <= i < j < other_layout(s, goal_id).len() ==> other_layout(s, goal_id)[i].id
                != other_layout(s, goal_id)[j].id,
        forall|i: int, j: int|
            0 <= i < j < other_layout(s, goal_id).len() ==> other_layout(s, goal_id)[i].goal_id
                != other_layout(s, goal_id)[j].goal_id,
    decreases s.len(),
{
    if s.len() > 0 {
        let front = s.drop_last();
        lemma_other_layout_unique(front, goal_id);
        lemma_other_layout_elems(front, goal_id);
        let r = other_layout(s, goal_id);
        let init = other_layout(front, goal_id);
        if s.last().goal_id != goal_id {
            assert forall|i: int, j: int|
                0 <= i < j < r.len() implies r[i].id != r[j].id && r[i].goal_id
                != r[j].goal_id by {
                if j < r.len() - 1 {
                    assert(r[i] == init[i] && r[j] == init[j]);
                } else {
                    assert(r[j] == s.last());
                    assert(init.contains(r[i]));
                    let k = choose|k: int| 0 <= k < front.len() && front[k] == r[i];
                    assert(s[k] == r[i] && s[s.len() - 1] == s.last());
                }
            }
        }
    }
}

/// Dropping a goal's rows is idempotent, and leaves nothing of that goal.
pub proof fn lemma_other_layout_clean(s: Seq<LayoutItem>, goal_id: i64)
    ensures
        other_layout(other_layout(s, goal_id), goal_id) == other_layout(s, goal_id),
        rows_for(other_layout(s, goal_id), goal_id) == Seq::<LayoutItem>::empty(),
    decreases s.len(),
{
    if s.len() == 0 {
        assert(other_layout(s, goal_id) =~= Seq::<LayoutItem>::empty());
    } else {
        lemma_other_layout_clean(s.drop_last(), goal_id);
        let init = other_layout(s.drop_last(), goal_id);
        if s.last().goal_id != goal_id {
            lemma_other_layout_push(init, s.last(), goal_id);
        }
    }
}

} // verus!
