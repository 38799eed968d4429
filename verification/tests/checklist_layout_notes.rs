use goal_store::store::Store;
use goal_store::types::GoalType;

#[test]
fn checklist_items_come_back_in_display_order() {
    let mut s = Store::new();
    s.add_goal("book".to_string(), None, 10, GoalType::Daily, 1);
    let a = s.add_checklist_item(1, "Chapter 1".to_string(), 0, 2);
    let b = s.add_checklist_item(1, "Chapter 2".to_string(), 1, 3);
    assert_eq!(a, 1);
    assert_eq!(b, 2);
    let items = s.get_checklist_items(1);
    assert_eq!(items.len(), 2);
    assert_eq!(items[0].title, "Chapter 1");
    assert_eq!(items[0].order_index, 0);
    assert!(!items[0].is_completed);
    assert_eq!(items[1].title, "Chapter 2");
    assert_eq!(items[1].order_index, 1);
}

#[test]
fn checklist_sorts_by_order_index_not_insertion() {
    let mut s = Store::new();
    s.add_checklist_item(4, "last".to_string(), 9, 1);
    s.add_checklist_item(4, "first".to_string(), -2, 2);
    s.add_checklist_item(4, "middle".to_string(), 3, 3);
    let items = s.get_checklist_items(4);
    let titles: Vec<&str> = items.iter().map(|i| i.title.as_str()).collect();
    assert_eq!(titles, vec!["first", "middle", "last"]);
}

#[test]
fn checklist_listing_is_scoped_to_one_goal() {
    let mut s = Store::new();
    s.add_checklist_item(1, "mine".to_string(), 0, 1);
    s.add_checklist_item(2, "other".to_string(), 0, 2);
    let items = s.get_checklist_items(1);
    assert_eq!(items.len(), 1);
    assert_eq!(items[0].title, "mine");
    assert_eq!(s.get_checklist_items(3).len(), 0);
}

#[test]
fn checklist_keeps_items_with_equal_order_index() {
    let mut s = Store::new();
    s.add_checklist_item(1, "tie a".to_string(), 5, 1);
    s.add_checklist_item(1, "tie b".to_string(), 5, 2);
    let items = s.get_checklist_items(1);
    assert_eq!(items.len(), 2);
    assert!(items.iter().any(|i| i.title == "tie a"));
    assert!(items.iter().any(|i| i.title == "tie b"));
}

#[test]
fn toggle_checklist_item_sets_the_given_value() {
    let mut s = Store::new();
    s.add_checklist_item(1, "task".to_string(), 0, 1);
    s.toggle_checklist_item(1, true);
    assert!(s.get_checklist_items(1)[0].is_completed);
    s.toggle_checklist_item(1, true);
    assert!(s.get_checklist_items(1)[0].is_completed);
    s.toggle_checklist_item(1, false);
    assert!(!s.get_checklist_items(1)[0].is_completed);
}

#[test]
fn toggle_of_missing_item_changes_nothing() {
    let mut s = Store::new();
    s.add_checklist_item(1, "task".to_string(), 0, 1);
    s.toggle_checklist_item(77, true);
    assert!(!s.get_checklist_items(1)[0].is_completed);
}

#[test]
fn delete_checklist_item_removes_only_that_row() {
    let mut s = Store::new();
    s.add_checklist_item(1, "a".to_string(), 0, 1);
    s.add_checklist_item(1, "b".to_string(), 1, 2);
    s.delete_checklist_item(1);
    let items = s.get_checklist_items(1);
    assert_eq!(items.len(), 1);
    assert_eq!(items[0].title, "b");
    s.delete_checklist_item(99);
    assert_eq!(s.get_checklist_items(1).len(), 1);
}

#[test]
fn soft_delete_hides_goal_but_keeps_its_children() {
    let mut s = Store::new();
    s.add_goal("g".to_string(), None, 10, GoalType::Daily, 1);
    s.add_checklist_item(1, "child".to_string(), 0, 2);
    s.save_layout(1, 10, 20, 2, 3, GoalType::Daily, 3);
    s.delete_goal(1, 4);
    assert!(s.get_goals().is_empty());
    let items = s.get_checklist_items(1);
    assert_eq!(items.len(), 1);
    assert_eq!(items[0].title, "child");
    let layout = s.get_layout();
    assert_eq!(layout.len(), 1);
    assert_eq!(layout[0].goal_id, 1);
}

#[test]
fn save_layout_twice_keeps_one_row_with_second_geometry() {
    let mut s = Store::new();
    s.save_layout(7, 1, 2, 3, 4, GoalType::Daily, 10);
    s.save_layout(7, 50, 60, 70, 80, GoalType::Weekly, 11);
    let layout = s.get_layout();
    assert_eq!(layout.len(), 1);
    let row = &layout[0];
    assert_eq!(row.goal_id, 7);
    assert_eq!(row.x_position, 50);
    assert_eq!(row.y_position, 60);
    assert_eq!(row.width, 70);
    assert_eq!(row.height, 80);
    assert!(matches!(row.section_type, GoalType::Weekly));
    assert_eq!(row.id, 2);
    assert_eq!(row.created_at, 11);
    assert_eq!(row.updated_at, 11);
}

#[test]
fn layout_listing_is_sorted_by_goal_id() {
    let mut s = Store::new();
    s.save_layout(3, 0, 0, 1, 1, GoalType::Daily, 1);
    s.save_layout(1, 0, 0, 1, 1, GoalType::Weekly, 2);
    s.save_layout(2, 0, 0, 1, 1, GoalType::Yearly, 3);
    let ids: Vec<i64> = s.get_layout().iter().map(|l| l.goal_id).collect();
    assert_eq!(ids, vec![1, 2, 3]);
}

#[test]
fn layout_carries_float_bit_patterns_unchanged() {
    let mut s = Store::new();
    let x = (12.5f64).to_bits();
    let y = (-3.25f64).to_bits();
    let w = (2.0f64).to_bits();
    let h = (0.75f64).to_bits();
    s.save_layout(1, x, y, w, h, GoalType::Monthly, 1);
    let row = &s.get_layout()[0];
    assert_eq!(f64::from_bits(row.x_position), 12.5);
    assert_eq!(f64::from_bits(row.y_position), -3.25);
    assert_eq!(f64::from_bits(row.width), 2.0);
    assert_eq!(f64::from_bits(row.height), 0.75);
}

#[test]
fn notes_start_empty() {
    let s = Store::new();
    assert!(s.get_notes().is_none());
}

#[test]
fn save_notes_overwrites_the_single_document() {
    let mut s = Store::new();
    s.save_notes("first draft".to_string(), 1);
    let n = s.get_notes().unwrap();
    assert_eq!(n.id, 1);
    assert_eq!(n.content, "first draft");
    s.save_notes("second draft".to_string(), 2);
    let n = s.get_notes().unwrap();
    assert_eq!(n.id, 2);
    assert_eq!(n.content, "second draft");
    assert_eq!(n.created_at, 2);
    assert_eq!(n.updated_at, 2);
    assert_eq!(s.notes.len(), 1);
}

#[test]
fn resaving_one_goal_leaves_other_slots_alone() {
    let mut s = Store::new();
    s.save_layout(1, 1, 1, 1, 1, GoalType::Daily, 1);
    s.save_layout(2, 2, 2, 2, 2, GoalType::Weekly, 2);
    s.save_layout(1, 9, 9, 9, 9, GoalType::Daily, 3);
    let layout = s.get_layout();
    assert_eq!(layout.len(), 2);
    assert_eq!(layout[0].goal_id, 1);
    assert_eq!(layout[0].x_position, 9);
    assert_eq!(layout[1].goal_id, 2);
    assert_eq!(layout[1].x_position, 2);
}
