use tasker::store::TaskerApp;
use tasker::text::footer_text;

fn ids(app: &TaskerApp) -> Vec<u32> {
    let mut v: Vec<u32> = app.list().iter().map(|t| t.id).collect();
    v.sort();
    v
}

#[test]
fn new_store_is_empty() {
    let app = TaskerApp::new();
    assert_eq!(app.count_total(), 0);
    assert_eq!(app.count_completed(), 0);
    assert!(app.list().is_empty());
    assert_eq!(app.draft(), "");
}

#[test]
fn milk_scenario() {
    let mut app = TaskerApp::new();
    app.add("Buy milk");
    assert_eq!(app.count_total(), 1);
    assert_eq!(app.count_completed(), 0);
    app.toggle(1, true);
    assert_eq!(app.count_completed(), 1);
    app.add("  ");
    assert_eq!(app.count_total(), 1);
    app.remove_task(1);
    assert_eq!(app.count_total(), 0);
}

#[test]
fn ids_are_not_reused() {
    let mut app = TaskerApp::new();
    app.add("A");
    assert_eq!(ids(&app), vec![1]);
    app.remove_task(1);
    app.add("B");
    let tasks = app.list();
    assert_eq!(tasks.len(), 1);
    assert_eq!(tasks[0].id, 2);
    assert_eq!(tasks[0].description, "B");
}

#[test]
fn add_trims_and_takes_next_id() {
    let mut app = TaskerApp::new();
    app.add("first");
    app.add("  \t second task \n");
    assert_eq!(app.count_total(), 2);
    assert_eq!(ids(&app), vec![1, 2]);
    let second = app.list().into_iter().find(|t| t.id == 2).unwrap();
    assert_eq!(second.description, "second task");
    assert!(!second.completed);
}

#[test]
fn add_whitespace_only_changes_nothing() {
    let mut app = TaskerApp::new();
    app.add("x");
    app.add("");
    app.add(" \t\n\u{3000} ");
    assert_eq!(app.count_total(), 1);
    app.add("y");
    assert_eq!(ids(&app), vec![1, 2]);
}

#[test]
fn add_task_uses_and_clears_draft() {
    let mut app = TaskerApp::new();
    app.set_draft(String::from("  Write report  "));
    assert_eq!(app.draft(), "  Write report  ");
    app.add_task();
    assert_eq!(app.draft(), "");
    let tasks = app.list();
    assert_eq!(tasks.len(), 1);
    assert_eq!(tasks[0].id, 1);
    assert_eq!(tasks[0].description, "Write report");
}

#[test]
fn add_task_keeps_blank_draft() {
    let mut app = TaskerApp::new();
    app.set_draft(String::from("   "));
    app.add_task();
    assert_eq!(app.count_total(), 0);
    assert_eq!(app.draft(), "   ");
}

#[test]
fn add_clears_draft() {
    let mut app = TaskerApp::new();
    app.set_draft(String::from("pending"));
    app.add("other");
    assert_eq!(app.draft(), "");
    app.set_draft(String::from("pending"));
    app.add("   ");
    assert_eq!(app.draft(), "pending");
}

#[test]
fn toggle_twice_same_value() {
    let mut app = TaskerApp::new();
    app.add("a");
    app.add("b");
    app.toggle(2, true);
    assert_eq!(app.count_completed(), 1);
    app.toggle(2, true);
    assert_eq!(app.count_completed(), 1);
    assert_eq!(app.count_total(), 2);
    app.toggle(2, false);
    app.toggle(2, false);
    assert_eq!(app.count_completed(), 0);
}

#[test]
fn toggle_missing_id_is_noop() {
    let mut app = TaskerApp::new();
    app.add("a");
    app.toggle(7, true);
    assert_eq!(app.count_completed(), 0);
    assert_eq!(ids(&app), vec![1]);
}

#[test]
fn remove_missing_id_is_noop() {
    let mut app = TaskerApp::new();
    app.add("a");
    app.add("b");
    app.toggle(1, true);
    app.remove_task(9);
    assert_eq!(ids(&app), vec![1, 2]);
    assert_eq!(app.count_completed(), 1);
}

#[test]
fn ids_unique_after_adds_and_removes() {
    let mut app = TaskerApp::new();
    for i in 0..10 {
        app.add(&format!("task {}", i));
        if i % 3 == 0 {
            app.remove_task(i + 1);
        }
    }
    app.add("last");
    let got = ids(&app);
    let mut dedup = got.clone();
    dedup.dedup();
    assert_eq!(got, dedup);
    assert_eq!(got, vec![2, 3, 5, 6, 8, 9, 11]);
}

#[test]
fn apply_changes_toggles_then_removes() {
    let mut app = TaskerApp::new();
    app.add("a");
    app.add("b");
    app.add("c");
    app.apply_changes(&vec![(1, true), (3, true), (5, true)], &vec![3, 4]);
    assert_eq!(ids(&app), vec![1, 2]);
    assert_eq!(app.count_completed(), 1);
    let first = app.list().into_iter().find(|t| t.id == 1).unwrap();
    assert!(first.completed);
}

#[test]
fn apply_changes_keeps_order_of_toggles() {
    let mut app = TaskerApp::new();
    app.add("a");
    app.apply_changes(&vec![(1, true), (1, false)], &vec![]);
    assert_eq!(app.count_completed(), 0);
    app.apply_changes(&vec![(1, false), (1, true)], &vec![]);
    assert_eq!(app.count_completed(), 1);
}

#[test]
fn footer_line_text() {
    let mut app = TaskerApp::new();
    assert_eq!(app.footer(), "Total tasks: 0 | Completed: 0");
    for i in 0..12 {
        app.add(&format!("t{}", i));
    }
    app.toggle(1, true);
    app.toggle(5, true);
    app.toggle(12, true);
    assert_eq!(app.footer(), "Total tasks: 12 | Completed: 3");
}

#[test]
fn footer_text_large_numbers() {
    assert_eq!(footer_text(1234567, 90), "Total tasks: 1234567 | Completed: 90");
}

#[test]
fn duplicate_copies_task() {
    let mut app = TaskerApp::new();
    app.add("copy me");
    let t = &app.list()[0];
    let d = t.duplicate();
    assert_eq!(d.id, 1);
    assert_eq!(d.description, "copy me");
    assert!(!d.completed);
}

#[test]
fn can_add_on_fresh_store() {
    let app = TaskerApp::new();
    assert!(app.can_add());
}
