use goal_store::store::Store;
use goal_store::types::GoalType;

#[test]
fn create_then_list_reports_new_goal() {
    let mut s = Store::new();
    let id = s.add_goal(
        "Run".to_string(),
        Some("5k three times a week".to_string()),
        15,
        GoalType::Weekly,
        1000,
    );
    assert_eq!(id, 1);
    let listed = s.get_goals();
    assert_eq!(listed.len(), 1);
    let g = &listed[0];
    assert_eq!(g.id, 1);
    assert_eq!(g.title, "Run");
    assert_eq!(g.description.as_deref(), Some("5k three times a week"));
    assert_eq!(g.target_value, 15);
    assert_eq!(g.current_value, 0);
    assert!(matches!(g.goal_type, GoalType::Weekly));
    assert!(g.is_active);
    assert_eq!(g.created_at, 1000);
    assert_eq!(g.updated_at, 1000);
}

#[test]
fn goal_ids_are_assigned_in_sequence() {
    let mut s = Store::new();
    assert_eq!(s.add_goal("a".to_string(), None, 1, GoalType::Daily, 1), 1);
    assert_eq!(s.add_goal("b".to_string(), None, 1, GoalType::Yearly, 2), 2);
    assert_eq!(s.add_goal("c".to_string(), None, 1, GoalType::Monthly, 3), 3);
}

#[test]
fn listing_orders_newest_created_first() {
    let mut s = Store::new();
    s.add_goal("old".to_string(), None, 1, GoalType::Daily, 5);
    s.add_goal("newest".to_string(), None, 1, GoalType::Daily, 9);
    s.add_goal("oldest".to_string(), None, 1, GoalType::Daily, 1);
    let listed = s.get_goals();
    let titles: Vec<&str> = listed.iter().map(|g| g.title.as_str()).collect();
    assert_eq!(titles, vec!["newest", "old", "oldest"]);
}

#[test]
fn listing_keeps_goals_with_equal_created_at() {
    let mut s = Store::new();
    s.add_goal("twin a".to_string(), None, 1, GoalType::Daily, 7);
    s.add_goal("twin b".to_string(), None, 1, GoalType::Daily, 7);
    let listed = s.get_goals();
    assert_eq!(listed.len(), 2);
    assert!(listed.iter().any(|g| g.title == "twin a"));
    assert!(listed.iter().any(|g| g.title == "twin b"));
}

#[test]
fn increment_goal_accumulates() {
    let mut s = Store::new();
    let id = s.add_goal("Read 10 pages".to_string(), None, 10, GoalType::Daily, 100);
    assert_eq!(id, 1);
    s.increment_goal(1, 4, 101);
    assert_eq!(s.get_goals()[0].current_value, 4);
    s.increment_goal(1, 7, 102);
    let listed = s.get_goals();
    assert_eq!(listed[0].id, 1);
    assert_eq!(listed[0].current_value, 11);
    assert_eq!(listed[0].target_value, 10);
    assert_eq!(listed[0].updated_at, 102);
}

#[test]
fn increment_order_does_not_change_the_sum() {
    let mut a = Store::new();
    a.add_goal("g".to_string(), None, 1, GoalType::Daily, 1);
    a.increment_goal(1, 13, 2);
    a.increment_goal(1, -5, 3);
    let mut b = Store::new();
    b.add_goal("g".to_string(), None, 1, GoalType::Daily, 1);
    b.increment_goal(1, -5, 2);
    b.increment_goal(1, 13, 3);
    assert_eq!(a.get_goals()[0].current_value, 8);
    assert_eq!(b.get_goals()[0].current_value, 8);
}

#[test]
fn increment_may_go_negative_or_past_target() {
    let mut s = Store::new();
    s.add_goal("g".to_string(), None, 3, GoalType::Daily, 1);
    s.increment_goal(1, -4, 2);
    assert_eq!(s.get_goals()[0].current_value, -4);
    s.increment_goal(1, 100, 3);
    assert_eq!(s.get_goals()[0].current_value, 96);
}

#[test]
fn increment_wraps_at_the_32_bit_bounds() {
    let mut s = Store::new();
    s.add_goal("g".to_string(), None, 1, GoalType::Daily, 1);
    s.increment_goal(1, i32::MAX, 2);
    s.increment_goal(1, 1, 3);
    assert_eq!(s.get_goals()[0].current_value, i32::MIN);
}

#[test]
fn increment_of_missing_goal_changes_nothing() {
    let mut s = Store::new();
    s.add_goal("g".to_string(), None, 1, GoalType::Daily, 1);
    s.increment_goal(99, 5, 2);
    let listed = s.get_goals();
    assert_eq!(listed.len(), 1);
    assert_eq!(listed[0].current_value, 0);
    assert_eq!(listed[0].updated_at, 1);
}

#[test]
fn update_goal_rewrites_only_the_editable_fields() {
    let mut s = Store::new();
    s.add_goal("before".to_string(), Some("old".to_string()), 5, GoalType::Monthly, 10);
    s.increment_goal(1, 2, 11);
    s.update_goal(1, "after".to_string(), None, 9, 12);
    let g = &s.get_goals()[0];
    assert_eq!(g.title, "after");
    assert_eq!(g.description, None);
    assert_eq!(g.target_value, 9);
    assert_eq!(g.current_value, 2);
    assert!(matches!(g.goal_type, GoalType::Monthly));
    assert_eq!(g.created_at, 10);
    assert_eq!(g.updated_at, 12);
}

#[test]
fn update_of_missing_goal_changes_nothing() {
    let mut s = Store::new();
    s.add_goal("keep".to_string(), None, 5, GoalType::Daily, 10);
    s.update_goal(42, "ignored".to_string(), None, 1, 11);
    let g = &s.get_goals()[0];
    assert_eq!(g.title, "keep");
    assert_eq!(g.target_value, 5);
    assert_eq!(g.updated_at, 10);
}

#[test]
fn reset_daily_zeroes_every_daily_row_and_nothing_else() {
    let mut s = Store::new();
    s.add_goal("daily active".to_string(), None, 10, GoalType::Daily, 1);
    s.add_goal("daily deleted".to_string(), None, 10, GoalType::Daily, 2);
    s.add_goal("weekly".to_string(), None, 10, GoalType::Weekly, 3);
    s.increment_goal(1, 4, 4);
    s.increment_goal(2, 5, 5);
    s.increment_goal(3, 6, 6);
    s.delete_goal(2, 7);
    s.reset_daily_goals(8);
    // the soft-deleted daily goal was reset too
    assert_eq!(s.goals[1].current_value, 0);
    assert_eq!(s.goals[1].updated_at, 8);
    let listed = s.get_goals();
    let daily = listed.iter().find(|g| g.id == 1).unwrap();
    let weekly = listed.iter().find(|g| g.id == 3).unwrap();
    assert_eq!(daily.current_value, 0);
    assert_eq!(daily.updated_at, 8);
    assert_eq!(weekly.current_value, 6);
    assert_eq!(weekly.updated_at, 6);
}

#[test]
fn identities_near_the_end_of_the_space_are_still_assigned() {
    let mut s = Store::new();
    s.next_goal_id = i64::MAX - 1;
    let id = s.add_goal("late goal".to_string(), None, 1, GoalType::Daily, 1);
    assert_eq!(id, i64::MAX - 1);
    assert_eq!(s.next_goal_id, i64::MAX);
}
