//! The four entities of the data layer, as stored rows.
//!
//! Identifiers are assigned by the store on insert and never reused.
//! Timestamps are opaque instants supplied by the caller (the shell reads
//! the clock); the store only copies and compares them.  Layout geometry is
//! likewise opaque: each coordinate is carried as a caller-chosen 64-bit
//! encoding that the store never interprets.

use vstd::prelude::*;

verus! {

/// Recurrence class of a goal; the same enumeration classifies layout
/// sections.
#[derive(Clone, Copy, Debug, PartialEq, Eq, Structural)]
pub enum GoalType {
    Daily,
    Weekly,
    Monthly,
    Yearly,
}

/// A trackable target with a numeric progress counter.
#[derive(Debug)]
pub struct Goal {
    pub id: i64,
    pub title: String,
    pub description: Option<String>,
    pub target_value: i32,
    pub current_value: i32,
    pub goal_type: GoalType,
    pub is_active: bool,
    pub created_at: i64,
    pub updated_at: i64,
}

impl Clone for Goal {
    fn clone(&self) -> (r: Self)
        ensures
            r == *self,
    {
        let description: Option<String> = match &self.description {
            Some(d) => Some(d.clone()),
            None => None,
        };
        Goal {
            id: self.id,
            title: self.title.clone(),
            description,
            target_value: self.target_value,
            current_value: self.current_value,
            goal_type: self.goal_type,
            is_active: self.is_active,
            created_at: self.created_at,
            updated_at: self.updated_at,
        }
    }
}

/// An ordered sub-task belonging to exactly one goal.
#[derive(Debug)]
pub struct ChecklistItem {
    pub id: i64,
    pub goal_id: i64,
    pub title: String,
    pub is_completed: bool,
    pub order_index: i32,
    pub created_at: i64,
}

impl Clone for ChecklistItem {
    fn clone(&self) -> (r: Self)
        ensures
            r == *self,
    {
        ChecklistItem {
            id: self.id,
            goal_id: self.goal_id,
            title: self.title.clone(),
            is_completed: self.is_completed,
            order_index: self.order_index,
            created_at: self.created_at,
        }
    }
}

/// Persisted dashboard geometry for one goal's card; at most one per goal.
///
/// The four geometry fields hold whatever 64-bit encoding the caller uses
/// for its coordinates (for instance the bit pattern of a floating-point
/// number); the store treats them as opaque scalars.
#[derive(Clone, Copy, Debug)]
pub struct LayoutItem {
    pub id: i64,
    pub goal_id: i64,
    pub x_position: u64,
    pub y_position: u64,
    pub width: u64,
    pub height: u64,
    pub section_type: GoalType,
    pub created_at: i64,
    pub updated_at: i64,
}

/// The single freeform text document, overwritten wholesale on each save.
#[derive(Debug)]
pub struct Note {
    pub id: i64,
    pub content: String,
    pub created_at: i64,
    pub updated_at: i64,
}

impl Clone for Note {
    fn clone(&self) -> (r: Self)
        ensures
            r == *self,
    {
        Note {
            id: self.id,
            content: self.content.clone(),
            created_at: self.created_at,
            updated_at: self.updated_at,
        }
    }
}

} // verus!
