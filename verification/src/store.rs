//! The store: authoritative state of the data layer, one verified
//! operation per user-facing command.
//!
//! Every mutating operation promises the exact transition from `model`;
//! every query promises which rows it reports and in which order.  The
//! caller supplies the current instant `now` wherever a command refreshes a
//! timestamp, since only the shell may read a clock.

use vstd::pervasive::VecAdditionalExecFns;
use vstd::multiset::Multiset;
use vstd::prelude::*;

use crate::model::active_goals;
use crate::model::deact_goal_one;
use crate::model::deact_goals;
use crate::model::inc_goal_one;
use crate::model::inc_goals;
use crate::model::items_of;
use crate::model::lemma_other_layout_elems;
use crate::model::lemma_other_layout_unique;
use crate::model::lemma_without_item_elems;
use crate::model::lemma_without_item_unique;
use crate::model::new_goal;
use crate::model::new_item;
use crate::model::new_layout_row;
use crate::model::new_note;
use crate::model::other_layout;
use crate::model::overwrite_notes;
use crate::model::reset_goal_one;
use crate::model::reset_goals;
use crate::model::sorted_by_created_desc;
use crate::model::sorted_by_goal_id;
use crate::model::sorted_by_order_index;
use crate::model::title_ok;
use crate::model::toggle_item_one;
use crate::model::toggle_items;
use crate::model::upd_goal_one;
use crate::model::upd_goals;
use crate::model::upsert_layout;
use crate::model::without_item;
use crate::types::ChecklistItem;
use crate::types::Goal;
use crate::types::GoalType;
use crate::types::LayoutItem;
use crate::types::Note;

verus! {

broadcast use vstd::seq_lib::group_to_multiset_ensures;

/// The whole state of the data layer: the four row sets and the next
/// identity each will assign.
pub struct Store {
    pub goals: Vec<Goal>,
    pub items: Vec<ChecklistItem>,
    pub layout: Vec<LayoutItem>,
    pub notes: Vec<Note>,
    pub next_goal_id: i64,
    pub next_item_id: i64,
    pub next_layout_id: i64,
    pub next_note_id: i64,
}

impl Store {
    /// Well-formedness: identities are positive, below the next one to be
    /// assigned, and unique within their table; at most one goal holds a
    /// layout slot; at most one note exists.
    pub open spec fn wf(self) -> bool {
        &&& 1 <= self.next_goal_id
        &&& 1 <= self.next_item_id
        &&& 1 <= self.next_layout_id
        &&& 1 <= self.next_note_id
        &&& forall|i: int|
            0 <= i < self.goals@.len() ==> 1 <= (#[trigger] self.goals@[i]).id
                < self.next_goal_id
        &&& forall|i: int, j: int|
            0 <= i < j < self.goals@.len() ==> self.goals@[i].id != self.goals@[j].id
        &&& forall|i: int|
            0 <= i < self.items@.len() ==> 1 <= (#[trigger] self.items@[i]).id
                < self.next_item_id
        &&& forall|i: int, j: int|
            0 <= i < j < self.items@.len() ==> self.items@[i].id != self.items@[j].id
        &&& forall|i: int|
            0 <= i < self.layout@.len() ==> 1 <= (#[trigger] self.layout@[i]).id
                < self.next_layout_id
        &&& forall|i: int, j: int|
            0 <= i < j < self.layout@.len() ==> self.layout@[i].id != self.layout@[j].id
        &&& forall|i: int, j: int|
            0 <= i < j < self.layout@.len() ==> self.layout@[i].goal_id
                != self.layout@[j].goal_id
        &&& self.notes@.len() <= 1
        &&& forall|i: int|
            0 <= i < self.notes@.len() ==> 1 <= (#[trigger] self.notes@[i]).id
                < self.next_note_id
    }

    /// The goal table and its identity counter.
    pub open spec fn goals_state(self) -> (Seq<Goal>, i64) {
        (self.goals@, self.next_goal_id)
    }

    /// The checklist table and its identity counter.
    pub open spec fn items_state(self) -> (Seq<ChecklistItem>, i64) {
        (self.items@, self.next_item_id)
    }

    /// The layout table and its identity counter.
    pub open spec fn layout_state(self) -> (Seq<LayoutItem>, i64) {
        (self.layout@, self.next_layout_id)
    }

    /// The note table and its identity counter.
    pub open spec fn notes_state(self) -> (Seq<Note>, i64) {
        (self.notes@, self.next_note_id)
    }

    /// An empty store, as the schema manager first creates it.
    pub fn new() -> (s: Store)
        ensures
            s.wf(),
            s.goals@ == Seq::<Goal>::empty(),
            s.items@ == Seq::<ChecklistItem>::empty(),
            s.layout@ == Seq::<LayoutItem>::empty(),
            s.notes@ == Seq::<Note>::empty(),
            s.next_goal_id == 1,
            s.next_item_id == 1,
            s.next_layout_id == 1,
            s.next_note_id == 1,
    {
        Store {
            goals: Vec::new(),
            items: Vec::new(),
            layout: Vec::new(),
            notes: Vec::new(),
            next_goal_id: 1,
            next_item_id: 1,
            next_layout_id: 1,
            next_note_id: 1,
        }
    }

    // -----------------------------------------------------------------
    // Goal commands
    // -----------------------------------------------------------------

    /// Inserts a goal: progress starts at zero, the goal is active, and the
    /// new row takes the next free identity, which is returned.
    pub fn add_goal(
        &mut self,
        title: String,
        description: Option<String>,
        target_value: i32,
        goal_type: GoalType,
        now: i64,
    ) -> (id: i64)
        requires
            old(self).wf(),
            title_ok(title),
            old(self).next_goal_id < i64::MAX,
        ensures
            final(self).wf(),
            id == old(self).next_goal_id,
            final(self).goals@ == old(self).goals@.push(
                new_goal(id, title, description, target_value, goal_type, now),
            ),
            final(self).next_goal_id == old(self).next_goal_id + 1,
            final(self).items_state() == old(self).items_state(),
            final(self).layout_state() == old(self).layout_state(),
            final(self).notes_state() == old(self).notes_state(),
    {
        let ghost s0 = *self;
        let id = self.next_goal_id;
        self.next_goal_id = self.next_goal_id + 1;
        self.goals.push(
            Goal {
                id,
                title,
                description,
                target_value,
                current_value: 0,
                goal_type,
                is_active: true,
                created_at: now,
                updated_at: now,
            },
        );
        proof {
            assert forall|i: int, j: int|
                0 <= i < j < self.goals@.len() implies self.goals@[i].id
                != self.goals@[j].id by {
                if j < s0.goals@.len() {
                    assert(self.goals@[i] == s0.goals@[i] && self.goals@[j] == s0.goals@[j]);
                } else {
                    assert(self.goals@[i] == s0.goals@[i]);
                }
            }
        }
        id
    }

    /// Reports the active goals, newest creation instant first.
    pub fn get_goals(&self) -> (r: Vec<Goal>)
        ensures
            r@.to_multiset() == active_goals(self.goals@).to_multiset(),
            sorted_by_created_desc(r@),
    {
        let mut picked: Vec<Goal> = Vec::new();
        let mut i: usize = 0;
        while i < self.goals.len()
            invariant
                i <= self.goals@.len(),
                picked@ == active_goals(self.goals@.subrange(0, i as int)),
            decreases self.goals@.len() - i,
        {
            proof {
                assert(self.goals@.subrange(0, i + 1 as int).drop_last() =~= self.goals@.subrange(
                    0,
                    i as int,
                ));
                assert(self.goals@.subrange(0, i + 1 as int).last() == self.goals@[i as int]);
            }
            if self.goals[i].is_active {
                picked.push(self.goals[i].clone());
            }
            i = i + 1;
        }
        proof {
            assert(self.goals@.subrange(0, self.goals@.len() as int) =~= self.goals@);
        }
        sort_goals_desc(picked)
    }

    /// Adds `amount` — possibly negative, wrapping at the 32-bit bounds —
    /// to the progress of the goal with identity `goal_id`, refreshing its
    /// `updated_at`.  A missing identity leaves every row untouched.
    pub fn increment_goal(&mut self, goal_id: i64, amount: i32, now: i64)
        requires
            old(self).wf(),
        ensures
            final(self).wf(),
            final(self).goals@ == inc_goals(old(self).goals@, goal_id, amount, now),
            final(self).next_goal_id == old(self).next_goal_id,
            final(self).items_state() == old(self).items_state(),
            final(self).layout_state() == old(self).layout_state(),
            final(self).notes_state() == old(self).notes_state(),
    {
        let ghost s0 = *self;
        let mut i: usize = 0;
        while i < self.goals.len()
            invariant
                i <= self.goals@.len(),
                self.goals@.len() == s0.goals@.len(),
                forall|j: int|
                    0 <= j < i ==> self.goals@[j] == inc_goal_one(
                        s0.goals@[j],
                        goal_id,
                        amount,
                        now,
                    ),
                forall|j: int| i <= j < s0.goals@.len() ==> self.goals@[j] == s0.goals@[j],
                self.items@ == s0.items@,
                self.layout@ == s0.layout@,
                self.notes@ == s0.notes@,
                self.next_goal_id == s0.next_goal_id,
                self.next_item_id == s0.next_item_id,
                self.next_layout_id == s0.next_layout_id,
                self.next_note_id == s0.next_note_id,
            decreases self.goals@.len() - i,
        {
            if self.goals[i].id == goal_id {
                let g = self.goals[i].clone();
                let ng = Goal {
                    id: g.id,
                    title: g.title,
                    description: g.description,
                    target_value: g.target_value,
                    current_value: g.current_value.wrapping_add(amount),
                    goal_type: g.goal_type,
                    is_active: g.is_active,
                    created_at: g.created_at,
                    updated_at: now,
                };
                self.goals.set(i, ng);
            }
            i = i + 1;
        }
        proof {
            assert(self.goals@ =~= inc_goals(s0.goals@, goal_id, amount, now));
            assert forall|i: int| 0 <= i < self.goals@.len() implies (#[trigger] self.goals@[i]).id
                == s0.goals@[i].id by {}
        }
    }

    /// Rewrites title, description and target of the goal with identity
    /// `goal_id`, refreshing its `updated_at`; its recurrence class and its
    /// progress are untouched.  A missing identity leaves every row
    /// untouched.
    pub fn update_goal(
        &mut self,
        goal_id: i64,
        title: String,
        description: Option<String>,
        target_value: i32,
        now: i64,
    )
        requires
            old(self).wf(),
        ensures
            final(self).wf(),
            final(self).goals@ == upd_goals(
                old(self).goals@,
                goal_id,
                title,
                description,
                target_value,
                now,
            ),
            final(self).next_goal_id == old(self).next_goal_id,
            final(self).items_state() == old(self).items_state(),
            final(self).layout_state() == old(self).layout_state(),
            final(self).notes_state() == old(self).notes_state(),
    {
        let ghost s0 = *self;
        let mut i: usize = 0;
        while i < self.goals.len()
            invariant
                i <= self.goals@.len(),
                self.goals@.len() == s0.goals@.len(),
                forall|j: int|
                    0 <= j < i ==> self.goals@[j] == upd_goal_one(
                        s0.goals@[j],
                        goal_id,
                        title,
                        description,
                        target_value,
                        now,
                    ),
                forall|j: int| i <= j < s0.goals@.len() ==> self.goals@[j] == s0.goals@[j],
                self.items@ == s0.items@,
                self.layout@ == s0.layout@,
                self.notes@ == s0.notes@,
                self.next_goal_id == s0.next_goal_id,
                self.next_item_id == s0.next_item_id,
                self.next_layout_id == s0.next_layout_id,
                self.next_note_id == s0.next_note_id,
            decreases self.goals@.len() - i,
        {
            if self.goals[i].id == goal_id {
                let g = self.goals[i].clone();
                let nd: Option<String> = match &description {
                    Some(d) => Some(d.clone()),
                    None => None,
                };
                let ng = Goal {
                    id: g.id,
                    title: title.clone(),
                    description: nd,
                    target_value,
                    current_value: g.current_value,
                    goal_type: g.goal_type,
                    is_active: g.is_active,
                    created_at: g.created_at,
                    updated_at: now,
                };
                self.goals.set(i, ng);
            }
            i = i + 1;
        }
        proof {
            assert(self.goals@ =~= upd_goals(
                s0.goals@,
                goal_id,
                title,
                description,
                target_value,
                now,
            ));
            assert forall|i: int| 0 <= i < self.goals@.len() implies (#[trigger] self.goals@[i]).id
                == s0.goals@[i].id by {}
        }
    }

    /// Soft delete: the goal with identity `goal_id` goes inactive and
    /// leaves the active listing; the row itself, its checklist items and
    /// its layout slot all remain stored.
    pub fn delete_goal(&mut self, goal_id: i64, now: i64)
        requires
            old(self).wf(),
        ensures
            final(self).wf(),
            final(self).goals@ == deact_goals(old(self).goals@, goal_id, now),
            final(self).next_goal_id == old(self).next_goal_id,
            final(self).items_state() == old(self).items_state(),
            final(self).layout_state() == old(self).layout_state(),
            final(self).notes_state() == old(self).notes_state(),
    {
        let ghost s0 = *self;
        let mut i: usize = 0;
        while i < self.goals.len()
            invariant
                i <= self.goals@.len(),
                self.goals@.len() == s0.goals@.len(),
                forall|j: int|
                    0 <= j < i ==> self.goals@[j] == deact_goal_one(s0.goals@[j], goal_id, now),
                forall|j: int| i <= j < s0.goals@.len() ==> self.goals@[j] == s0.goals@[j],
                self.items@ == s0.items@,
                self.layout@ == s0.layout@,
                self.notes@ == s0.notes@,
                self.next_goal_id == s0.next_goal_id,
                self.next_item_id == s0.next_item_id,
                self.next_layout_id == s0.next_layout_id,
                self.next_note_id == s0.next_note_id,
            decreases self.goals@.len() - i,
        {
            if self.goals[i].id == goal_id {
                let g = self.goals[i].clone();
                let ng = Goal {
                    id: g.id,
                    title: g.title,
                    description: g.description,
                    target_value: g.target_value,
                    current_value: g.current_value,
                    goal_type: g.goal_type,
                    is_active: false,
                    created_at: g.created_at,
                    updated_at: now,
                };
                self.goals.set(i, ng);
            }
            i = i + 1;
        }
        proof {
            assert(self.goals@ =~= deact_goals(s0.goals@, goal_id, now));
            assert forall|i: int| 0 <= i < self.goals@.len() implies (#[trigger] self.goals@[i]).id
                == s0.goals@[i].id by {}
        }
    }

    /// Returns every daily goal — active or not — to zero progress,
    /// refreshing its `updated_at`; goals of the other recurrence classes
    /// are untouched.
    pub fn reset_daily_goals(&mut self, now: i64)
        requires
            old(self).wf(),
        ensures
            final(self).wf(),
            final(self).goals@ == reset_goals(old(self).goals@, now),
            final(self).next_goal_id == old(self).next_goal_id,
            final(self).items_state() == old(self).items_state(),
            final(self).layout_state() == old(self).layout_state(),
            final(self).notes_state() == old(self).notes_state(),
    {
        let ghost s0 = *self;
        let mut i: usize = 0;
        while i < self.goals.len()
            invariant
                i <= self.goals@.len(),
                self.goals@.len() == s0.goals@.len(),
                forall|j: int| 0 <= j < i ==> self.goals@[j] == reset_goal_one(s0.goals@[j], now),
                forall|j: int| i <= j < s0.goals@.len() ==> self.goals@[j] == s0.goals@[j],
                self.items@ == s0.items@,
                self.layout@ == s0.layout@,
                self.notes@ == s0.notes@,
                self.next_goal_id == s0.next_goal_id,
                self.next_item_id == s0.next_item_id,
                self.next_layout_id == s0.next_layout_id,
                self.next_note_id == s0.next_note_id,
            decreases self.goals@.len() - i,
        {
            let daily = match self.goals[i].goal_type {
                GoalType::Daily => true,
                _ => false,
            };
            if daily {
                let g = self.goals[i].clone();
                let ng = Goal {
                    id: g.id,
                    title: g.title,
                    description: g.description,
                    target_value: g.target_value,
                    current_value: 0,
                    goal_type: g.goal_type,
                    is_active: g.is_active,
                    created_at: g.created_at,
                    updated_at: now,
                };
                self.goals.set(i, ng);
            }
            i = i + 1;
        }
        proof {
            assert(self.goals@ =~= reset_goals(s0.goals@, now));
            assert forall|i: int| 0 <= i < self.goals@.len() implies (#[trigger] self.goals@[i]).id
                == s0.goals@[i].id by {}
        }
    }

    // -----------------------------------------------------------------
    // Checklist commands
    // -----------------------------------------------------------------

    /// Inserts a checklist item for `goal_id` — the goal need not exist;
    /// an orphan row is stored all the same.  The item starts uncompleted
    /// and takes the next free identity, which is returned.
    pub fn add_checklist_item(
        &mut self,
        goal_id: i64,
        title: String,
        order_index: i32,
        now: i64,
    ) -> (id: i64)
        requires
            old(self).wf(),
            old(self).next_item_id < i64::MAX,
        ensures
            final(self).wf(),
            id == old(self).next_item_id,
            final(self).items@ == old(self).items@.push(
                new_item(id, goal_id, title, order_index, now),
            ),
            final(self).next_item_id == old(self).next_item_id + 1,
            final(self).goals_state() == old(self).goals_state(),
            final(self).layout_state() == old(self).layout_state(),
            final(self).notes_state() == old(self).notes_state(),
    {
        let ghost s0 = *self;
        let id = self.next_item_id;
        self.next_item_id = self.next_item_id + 1;
        self.items.push(
            ChecklistItem { id, goal_id, title, is_completed: false, order_index, created_at: now },
        );
        proof {
            assert forall|i: int, j: int|
                0 <= i < j < self.items@.len() implies self.items@[i].id
                != self.items@[j].id by {
                if j < s0.items@.len() {
                    assert(self.items@[i] == s0.items@[i] && self.items@[j] == s0.items@[j]);
                } else {
                    assert(self.items@[i] == s0.items@[i]);
                }
            }
        }
        id
    }

    /// Reports the checklist items of `goal_id`, in ascending display
    /// order; rows of soft-deleted goals are reported like any other.
    pub fn get_checklist_items(&self, goal_id: i64) -> (r: Vec<ChecklistItem>)
        ensures
            r@.to_multiset() == items_of(self.items@, goal_id).to_multiset(),
            sorted_by_order_index(r@),
    {
        let mut picked: Vec<ChecklistItem> = Vec::new();
        let mut i: usize = 0;
        while i < self.items.len()
            invariant
                i <= self.items@.len(),
                picked@ == items_of(self.items@.subrange(0, i as int), goal_id),
            decreases self.items@.len() - i,
        {
            proof {
                assert(self.items@.subrange(0, i + 1 as int).drop_last() =~= self.items@.subrange(
                    0,
                    i as int,
                ));
                assert(self.items@.subrange(0, i + 1 as int).last() == self.items@[i as int]);
            }
            if self.items[i].goal_id == goal_id {
                picked.push(self.items[i].clone());
            }
            i = i + 1;
        }
        proof {
            assert(self.items@.subrange(0, self.items@.len() as int) =~= self.items@);
        }
        sort_items_asc(picked)
    }

    /// Sets — not flips — the completion flag of the item with identity
    /// `item_id`.  A missing identity leaves every row untouched.
    pub fn toggle_checklist_item(&mut self, item_id: i64, is_completed: bool)
        requires
            old(self).wf(),
        ensures
            final(self).wf(),
            final(self).items@ == toggle_items(old(self).items@, item_id, is_completed),
            final(self).next_item_id == old(self).next_item_id,
            final(self).goals_state() == old(self).goals_state(),
            final(self).layout_state() == old(self).layout_state(),
            final(self).notes_state() == old(self).notes_state(),
    {
        let ghost s0 = *self;
        let mut i: usize = 0;
        while i < self.items.len()
            invariant
                i <= self.items@.len(),
                self.items@.len() == s0.items@.len(),
                forall|j: int|
                    0 <= j < i ==> self.items@[j] == toggle_item_one(
                        s0.items@[j],
                        item_id,
                        is_completed,
                    ),
                forall|j: int| i <= j < s0.items@.len() ==> self.items@[j] == s0.items@[j],
                self.goals@ == s0.goals@,
                self.layout@ == s0.layout@,
                self.notes@ == s0.notes@,
                self.next_goal_id == s0.next_goal_id,
                self.next_item_id == s0.next_item_id,
                self.next_layout_id == s0.next_layout_id,
                self.next_note_id == s0.next_note_id,
            decreases self.items@.len() - i,
        {
            if self.items[i].id == item_id {
                let it = self.items[i].clone();
                let ni = ChecklistItem {
                    id: it.id,
                    goal_id: it.goal_id,
                    title: it.title,
                    is_completed,
                    order_index: it.order_index,
                    created_at: it.created_at,
                };
                self.items.set(i, ni);
            }
            i = i + 1;
        }
        proof {
            assert(self.items@ =~= toggle_items(s0.items@, item_id, is_completed));
            assert forall|i: int| 0 <= i < self.items@.len() implies (#[trigger] self.items@[i]).id
                == s0.items@[i].id by {}
        }
    }

    /// Hard delete: removes the item with identity `item_id` outright.
    /// A missing identity leaves every row untouched.
    pub fn delete_checklist_item(&mut self, item_id: i64)
        requires
            old(self).wf(),
        ensures
            final(self).wf(),
            final(self).items@ == without_item(old(self).items@, item_id),
            final(self).next_item_id == old(self).next_item_id,
            final(self).goals_state() == old(self).goals_state(),
            final(self).layout_state() == old(self).layout_state(),
            final(self).notes_state() == old(self).notes_state(),
    {
        let ghost s0 = *self;
        let mut kept: Vec<ChecklistItem> = Vec::new();
        let mut i: usize = 0;
        while i < self.items.len()
            invariant
                i <= self.items@.len(),
                kept@ == without_item(self.items@.subrange(0, i as int), item_id),
            decreases self.items@.len() - i,
        {
            proof {
                assert(self.items@.subrange(0, i + 1 as int).drop_last() =~= self.items@.subrange(
                    0,
                    i as int,
                ));
                assert(self.items@.subrange(0, i + 1 as int).last() == self.items@[i as int]);
            }
            if self.items[i].id != item_id {
                kept.push(self.items[i].clone());
            }
            i = i + 1;
        }
        proof {
            assert(self.items@.subrange(0, self.items@.len() as int) =~= self.items@);
        }
        self.items = kept;
        proof {
            lemma_without_item_elems(s0.items@, item_id);
            lemma_without_item_unique(s0.items@, item_id);
            assert forall|i: int|
                0 <= i < self.items@.len() implies 1 <= (#[trigger] self.items@[i]).id
                < self.next_item_id by {
                assert(self.items@.contains(self.items@[i]));
                let k = choose|k: int|
                    0 <= k < s0.items@.len() && s0.items@[k] == self.items@[i];
            }
        }
    }

    // -----------------------------------------------------------------
    // Layout commands
    // -----------------------------------------------------------------

    /// Upsert of a goal's dashboard card: any slot already held by
    /// `goal_id` is given up, and one fresh row — new identity, the given
    /// geometry and section — is stored in its stead.
    pub fn save_layout(
        &mut self,
        goal_id: i64,
        x_position: u64,
        y_position: u64,
        width: u64,
        height: u64,
        section_type: GoalType,
        now: i64,
    )
        requires
            old(self).wf(),
            old(self).next_layout_id < i64::MAX,
        ensures
            final(self).wf(),
            final(self).layout@ == upsert_layout(
                old(self).layout@,
                new_layout_row(
                    old(self).next_layout_id,
                    goal_id,
                    x_position,
                    y_position,
                    width,
                    height,
                    section_type,
                    now,
                ),
            ),
            final(self).next_layout_id == old(self).next_layout_id + 1,
            final(self).goals_state() == old(self).goals_state(),
            final(self).items_state() == old(self).items_state(),
            final(self).notes_state() == old(self).notes_state(),
    {
        let ghost s0 = *self;
        let mut kept: Vec<LayoutItem> = Vec::new();
        let mut i: usize = 0;
        while i < self.layout.len()
            invariant
                i <= self.layout@.len(),
                kept@ == other_layout(self.layout@.subrange(0, i as int), goal_id),
            decreases self.layout@.len() - i,
        {
            proof {
                assert(self.layout@.subrange(0, i + 1 as int).drop_last()
                    =~= self.layout@.subrange(0, i as int));
                assert(self.layout@.subrange(0, i + 1 as int).last() == self.layout@[i as int]);
            }
            if self.layout[i].goal_id != goal_id {
                kept.push(self.layout[i]);
            }
            i = i + 1;
        }
        proof {
            assert(self.layout@.subrange(0, self.layout@.len() as int) =~= self.layout@);
        }
        let id = self.next_layout_id;
        self.next_layout_id = self.next_layout_id + 1;
        kept.push(
            LayoutItem {
                id,
                goal_id,
                x_position,
                y_position,
                width,
                height,
                section_type,
                created_at: now,
                updated_at: now,
            },
        );
        self.layout = kept;
        proof {
            lemma_other_layout_elems(s0.layout@, goal_id);
            lemma_other_layout_unique(s0.layout@, goal_id);
            let others = other_layout(s0.layout@, goal_id);
            assert forall|i: int|
                0 <= i < others.len() implies 1 <= (#[trigger] others[i]).id
                < s0.next_layout_id by {
                assert(others.contains(others[i]));
                let k = choose|k: int| 0 <= k < s0.layout@.len() && s0.layout@[k] == others[i];
            }
            assert forall|i: int, j: int|
                0 <= i < j < self.layout@.len() implies self.layout@[i].id != self.layout@[j].id
                && self.layout@[i].goal_id != self.layout@[j].goal_id by {
                if j < others.len() {
                    assert(self.layout@[i] == others[i] && self.layout@[j] == others[j]);
                } else {
                    assert(self.layout@[i] == others[i]);
                    assert(others.contains(others[i]));
                }
            }
        }
    }

    /// Reports every layout row — slots of soft-deleted goals included —
    /// in ascending order of owning goal.
    pub fn get_layout(&self) -> (r: Vec<LayoutItem>)
        ensures
            r@.to_multiset() == self.layout@.to_multiset(),
            sorted_by_goal_id(r@),
    {
        let mut all: Vec<LayoutItem> = Vec::new();
        let mut i: usize = 0;
        while i < self.layout.len()
            invariant
                i <= self.layout@.len(),
                all@ == self.layout@.subrange(0, i as int),
            decreases self.layout@.len() - i,
        {
            all.push(self.layout[i]);
            proof {
                assert(self.layout@.subrange(0, i + 1 as int) =~= self.layout@.subrange(
                    0,
                    i as int,
                ).push(self.layout@[i as int]));
            }
            i = i + 1;
        }
        proof {
            assert(self.layout@.subrange(0, self.layout@.len() as int) =~= self.layout@);
        }
        sort_layout_asc(all)
    }

    // -----------------------------------------------------------------
    // Notes commands
    // -----------------------------------------------------------------

    /// Overwrites the single notes document: every prior note row is
    /// cleared and exactly one new row is stored.
    pub fn save_notes(&mut self, content: String, now: i64)
        requires
            old(self).wf(),
            old(self).next_note_id < i64::MAX,
        ensures
            final(self).wf(),
            final(self).notes@ == overwrite_notes(
                old(self).notes@,
                old(self).next_note_id,
                content,
                now,
            ),
            final(self).next_note_id == old(self).next_note_id + 1,
            final(self).goals_state() == old(self).goals_state(),
            final(self).items_state() == old(self).items_state(),
            final(self).layout_state() == old(self).layout_state(),
    {
        let id = self.next_note_id;
        self.next_note_id = self.next_note_id + 1;
        let mut fresh: Vec<Note> = Vec::new();
        fresh.push(Note { id, content, created_at: now, updated_at: now });
        self.notes = fresh;
        proof {
            assert(self.notes@ =~= seq![new_note(id, self.notes@[0].content, now)]);
        }
    }

    /// Reports the current notes document, or nothing when none was ever
    /// saved.
    pub fn get_notes(&self) -> (r: Option<Note>)
        requires
            self.wf(),
        ensures
            self.notes@.len() == 0 ==> r is None,
            self.notes@.len() == 1 ==> r == Some(self.notes@[0]),
    {
        if self.notes.len() == 0 {
            None
        } else {
            Some(self.notes[0].clone())
        }
    }
}

// ---------------------------------------------------------------------
// Ordering helpers for the queries
// ---------------------------------------------------------------------

/// Sorts goals by creation instant, newest first, keeping exactly the
/// given rows.
fn sort_goals_desc(v: Vec<Goal>) -> (r: Vec<Goal>)
    ensures
        r@.to_multiset() == v@.to_multiset(),
        sorted_by_created_desc(r@),
{
    let mut rest = v;
    let mut out: Vec<Goal> = Vec::new();
    proof {
        assert(out@.to_multiset().add(rest@.to_multiset()) =~= v@.to_multiset());
    }
    while rest.len() > 0
        invariant
            out@.to_multiset().add(rest@.to_multiset()) == v@.to_multiset(),
            sorted_by_created_desc(out@),
            forall|a: int, b: int|
                0 <= a < out@.len() && 0 <= b < rest@.len() ==> out@[a].created_at
                    >= rest@[b].created_at,
        decreases rest@.len(),
    {
        let mut m: usize = 0;
        let mut k: usize = 1;
        while k < rest.len()
            invariant
                0 < rest@.len(),
                m < k,
                k <= rest@.len(),
                forall|j: int| 0 <= j < k ==> rest@[m as int].created_at >= rest@[j].created_at,
            decreases rest@.len() - k,
        {
            if rest[k].created_at > rest[m].created_at {
                m = k;
            }
            k = k + 1;
        }
        let ghost r0 = rest@;
        let ghost out0 = out@;
        let x = rest.remove(m);
        out.push(x);
        proof {
            assert(r0.contains(x)) by {
                assert(r0[m as int] == x);
            }
            assert(rest@.to_multiset() == r0.to_multiset().remove(x));
            assert(out@.to_multiset().add(rest@.to_multiset()) =~= out0.to_multiset().add(
                r0.to_multiset(),
            ));
            assert forall|b: int|
                0 <= b < rest@.len() implies x.created_at >= rest@[b].created_at by {
                let e = rest@[b];
                assert(rest@.contains(e));
                assert(rest@.to_multiset().count(e) > 0);
                assert(r0.to_multiset().count(e) > 0);
                assert(r0.contains(e));
                let j2 = choose|j2: int| 0 <= j2 < r0.len() && r0[j2] == e;
            }
        }
    }
    proof {
        assert(rest@.to_multiset().len() == 0);
        assert(rest@.to_multiset() =~= Multiset::<Goal>::empty());
        assert(out@.to_multiset() =~= v@.to_multiset());
    }
    out
}

/// Sorts checklist items by display order, ascending, keeping exactly the
/// given rows.
fn sort_items_asc(v: Vec<ChecklistItem>) -> (r: Vec<ChecklistItem>)
    ensures
        r@.to_multiset() == v@.to_multiset(),
        sorted_by_order_index(r@),
{
    let mut rest = v;
    let mut out: Vec<ChecklistItem> = Vec::new();
    proof {
        assert(out@.to_multiset().add(rest@.to_multiset()) =~= v@.to_multiset());
    }
    while rest.len() > 0
        invariant
            out@.to_multiset().add(rest@.to_multiset()) == v@.to_multiset(),
            sorted_by_order_index(out@),
            forall|a: int, b: int|
                0 <= a < out@.len() && 0 <= b < rest@.len() ==> out@[a].order_index
                    <= rest@[b].order_index,
        decreases rest@.len(),
    {
        let mut m: usize = 0;
        let mut k: usize = 1;
        while k < rest.len()
            invariant
                0 < rest@.len(),
                m < k,
                k <= rest@.len(),
                forall|j: int| 0 <= j < k ==> rest@[m as int].order_index <= rest@[j].order_index,
            decreases rest@.len() - k,
        {
            if rest[k].order_index < rest[m].order_index {
                m = k;
            }
            k = k + 1;
        }
        let ghost r0 = rest@;
        let ghost out0 = out@;
        let x = rest.remove(m);
        out.push(x);
        proof {
            assert(r0.contains(x)) by {
                assert(r0[m as int] == x);
            }
            assert(rest@.to_multiset() == r0.to_multiset().remove(x));
            assert(out@.to_multiset().add(rest@.to_multiset()) =~= out0.to_multiset().add(
                r0.to_multiset(),
            ));
            assert forall|b: int|
                0 <= b < rest@.len() implies x.order_index <= rest@[b].order_index by {
                let e = rest@[b];
                assert(rest@.contains(e));
                assert(rest@.to_multiset().count(e) > 0);
                assert(r0.to_multiset().count(e) > 0);
                assert(r0.contains(e));
                let j2 = choose|j2: int| 0 <= j2 < r0.len() && r0[j2] == e;
            }
        }
    }
    proof {
        assert(rest@.to_multiset().len() == 0);
        assert(rest@.to_multiset() =~= Multiset::<ChecklistItem>::empty());
        assert(out@.to_multiset() =~= v@.to_multiset());
    }
    out
}

/// Sorts layout rows by owning goal, ascending, keeping exactly the given
/// rows.
fn sort_layout_asc(v: Vec<LayoutItem>) -> (r: Vec<LayoutItem>)
    ensures
        r@.to_multiset() == v@.to_multiset(),
        sorted_by_goal_id(r@),
{
    let mut rest = v;
    let mut out: Vec<LayoutItem> = Vec::new();
    proof {
        assert(out@.to_multiset().add(rest@.to_multiset()) =~= v@.to_multiset());
    }
    while rest.len() > 0
        invariant
            out@.to_multiset().add(rest@.to_multiset()) == v@.to_multiset(),
            sorted_by_goal_id(out@),
            forall|a: int, b: int|
                0 <= a < out@.len() && 0 <= b < rest@.len() ==> out@[a].goal_id
                    <= rest@[b].goal_id,
        decreases rest@.len(),
    {
        let mut m: usize = 0;
        let mut k: usize = 1;
        while k < rest.len()
            invariant
                0 < rest@.len(),
                m < k,
                k <= rest@.len(),
                forall|j: int| 0 <= j < k ==> rest@[m as int].goal_id <= rest@[j].goal_id,
            decreases rest@.len() - k,
        {
            if rest[k].goal_id < rest[m].goal_id {
                m = k;
            }
            k = k + 1;
        }
        let ghost r0 = rest@;
        let ghost out0 = out@;
        let x = rest.remove(m);
        out.push(x);
        proof {
            assert(r0.contains(x)) by {
                assert(r0[m as int] == x);
            }
            assert(rest@.to_multiset() == r0.to_multiset().remove(x));
            assert(out@.to_multiset().add(rest@.to_multiset()) =~= out0.to_multiset().add(
                r0.to_multiset(),
            ));
            assert forall|b: int| 0 <= b < rest@.len() implies x.goal_id <= rest@[b].goal_id by {
                let e = rest@[b];
                assert(rest@.contains(e));
                assert(rest@.to_multiset().count(e) > 0);
                assert(r0.to_multiset().count(e) > 0);
                assert(r0.contains(e));
                let j2 = choose|j2: int| 0 <= j2 < r0.len() && r0[j2] == e;
            }
        }
    }
    proof {
        assert(rest@.to_multiset().len() == 0);
        assert(rest@.to_multiset() =~= Multiset::<LayoutItem>::empty());
        assert(out@.to_multiset() =~= v@.to_multiset());
    }
    out
}

} // verus!
