use indexmap::IndexSet;
use shiba_preview::history::{Direction, History};

fn history_with(max_items: usize, paths: &[&str]) -> History {
    let mut history = History::new(max_items);
    for path in paths {
        history.push(path.to_string());
    }
    history
}

fn assert_history(history: &History, expected: &[&str], current: Option<&str>) {
    let items = history.items();
    let items: Vec<&str> = items.iter().map(String::as_str).collect();
    assert_eq!(items.as_slice(), expected);

    let size = items.len();
    let max = history.max_items();
    assert!(size <= max, "size {size} is larger than max {max}");

    assert_eq!(history.current().map(String::as_str), current);
}

fn nav(history: &mut History, dir: Direction) -> Option<String> {
    history.navigate(dir).cloned()
}

fn del(history: &mut History, dir: Direction) -> Option<String> {
    history.delete(dir).cloned()
}

#[test]
fn push_items() {
    let mut history = history_with(3, &["a.txt", "b.txt"]);

    history.push("c.txt".into());
    assert_history(&history, &["a.txt", "b.txt", "c.txt"], Some("c.txt"));

    history.push("b.txt".into());
    assert_history(&history, &["a.txt", "c.txt", "b.txt"], Some("b.txt"));

    history.push("d.txt".into()); // Removes oldest item
    assert_history(&history, &["c.txt", "b.txt", "d.txt"], Some("d.txt"));

    history.push("a.txt".into());
    assert_history(&history, &["b.txt", "d.txt", "a.txt"], Some("a.txt"));

    history.push("a.txt".into()); // Does nothing
    assert_history(&history, &["b.txt", "d.txt", "a.txt"], Some("a.txt"));
}

#[test]
fn navigate_forward_back() {
    let items = &["a.txt", "b.txt", "c.txt"];

    let mut history = history_with(3, items);
    assert_history(&history, items, Some("c.txt"));

    assert_eq!(nav(&mut history, Direction::Back).unwrap(), "b.txt");
    assert_history(&history, items, Some("b.txt"));

    assert_eq!(nav(&mut history, Direction::Back).unwrap(), "a.txt");
    assert_history(&history, items, Some("a.txt"));

    assert_eq!(nav(&mut history, Direction::Back), None);
    assert_history(&history, items, Some("a.txt"));

    assert_eq!(nav(&mut history, Direction::Forward).unwrap(), "b.txt");
    assert_history(&history, items, Some("b.txt"));

    assert_eq!(nav(&mut history, Direction::Forward).unwrap(), "c.txt");
    assert_history(&history, items, Some("c.txt"));

    assert_eq!(nav(&mut history, Direction::Forward), None);
    assert_history(&history, items, Some("c.txt"));
}

#[test]
fn push_navigate_to_top() {
    let mut history = history_with(3, &["a.txt", "b.txt"]);

    assert_eq!(nav(&mut history, Direction::Back).unwrap(), "a.txt");
    assert_history(&history, &["a.txt", "b.txt"], Some("a.txt"));
    history.push("c.txt".into()); // Push new item
    assert_history(&history, &["a.txt", "b.txt", "c.txt"], Some("c.txt"));

    assert_eq!(nav(&mut history, Direction::Back).unwrap(), "b.txt");
    assert_history(&history, &["a.txt", "b.txt", "c.txt"], Some("b.txt"));
    history.push("a.txt".into()); // Push existing item
    assert_history(&history, &["b.txt", "c.txt", "a.txt"], Some("a.txt"));

    assert_eq!(nav(&mut history, Direction::Back).unwrap(), "c.txt");
    assert_history(&history, &["b.txt", "c.txt", "a.txt"], Some("c.txt"));
    history.push("a.txt".into()); // Push last item
    assert_history(&history, &["b.txt", "c.txt", "a.txt"], Some("a.txt"));
}

#[test]
fn delete_back() {
    let mut history = history_with(3, &["a.txt", "b.txt", "c.txt"]);
    assert_history(&history, &["a.txt", "b.txt", "c.txt"], Some("c.txt"));

    assert_eq!(del(&mut history, Direction::Back).unwrap(), "b.txt");
    assert_history(&history, &["a.txt", "b.txt"], Some("b.txt"));

    assert_eq!(del(&mut history, Direction::Back).unwrap(), "a.txt");
    assert_history(&history, &["a.txt"], Some("a.txt"));

    assert_eq!(del(&mut history, Direction::Back), None);
    assert_history(&history, &[], None);

    assert_eq!(del(&mut history, Direction::Back), None);
    assert_history(&history, &[], None);
}

#[test]
fn delete_forward() {
    let mut history = history_with(3, &["a.txt", "b.txt", "c.txt"]);
    while history.navigate(Direction::Back).is_some() {}
    assert_history(&history, &["a.txt", "b.txt", "c.txt"], Some("a.txt"));

    assert_eq!(del(&mut history, Direction::Forward).unwrap(), "b.txt");
    assert_history(&history, &["b.txt", "c.txt"], Some("b.txt"));

    assert_eq!(del(&mut history, Direction::Forward).unwrap(), "c.txt");
    assert_history(&history, &["c.txt"], Some("c.txt"));

    assert_eq!(del(&mut history, Direction::Forward), None);
    assert_history(&history, &[], None);

    assert_eq!(del(&mut history, Direction::Forward), None);
    assert_history(&history, &[], None);
}

#[test]
fn with_items_truncates_to_max_items() {
    let items: IndexSet<String> =
        ["a.txt", "b.txt", "c.txt", "d.txt"].iter().map(|s| s.to_string()).collect();
    let history = History::with_items(items, 2);
    assert_history(&history, &["a.txt", "b.txt"], Some("b.txt"));
}

#[test]
fn zero_max_items() {
    let mut history = History::new(0);
    assert_history(&history, &[], None);
    history.push("a.txt".into());
    assert_history(&history, &[], None);
    assert_eq!(nav(&mut history, Direction::Back), None);
    assert_history(&history, &[], None);
    assert_eq!(nav(&mut history, Direction::Forward), None);
    assert_history(&history, &[], None);
    assert_eq!(del(&mut history, Direction::Back), None);
    assert_history(&history, &[], None);
    assert_eq!(del(&mut history, Direction::Forward), None);
    assert_history(&history, &[], None);
}

#[test]
fn empty_history() {
    let mut history = History::new(5);
    assert_history(&history, &[], None);
    assert_eq!(nav(&mut history, Direction::Back), None);
    assert_history(&history, &[], None);
    assert_eq!(nav(&mut history, Direction::Forward), None);
    assert_history(&history, &[], None);
    assert_eq!(del(&mut history, Direction::Back), None);
    assert_history(&history, &[], None);
    assert_eq!(del(&mut history, Direction::Forward), None);
    assert_history(&history, &[], None);
}

#[test]
fn back_then_forward_returns_to_the_same_path() {
    let mut history = history_with(5, &["a.txt", "b.txt", "c.txt"]);
    assert_eq!(nav(&mut history, Direction::Back).unwrap(), "b.txt");
    assert_eq!(nav(&mut history, Direction::Forward).unwrap(), "c.txt");
    assert_eq!(history.current().unwrap(), "c.txt");
}

#[test]
fn deleting_the_newest_forward_leaves_nothing_shown() {
    let mut history = history_with(5, &["a.txt", "b.txt"]);
    assert_eq!(del(&mut history, Direction::Forward), None);
    assert_history(&history, &["a.txt"], None);
    assert_eq!(nav(&mut history, Direction::Back).unwrap(), "a.txt");
}

#[test]
fn saved_history_is_restored_and_zero_max_items_saves_nothing() {
    let saved: IndexSet<String> = ["a.txt", "b.txt", "c.txt"].iter().map(|s| s.to_string()).collect();
    let history = History::restored(Some(saved.clone()), 2);
    assert_history(&history, &["a.txt", "b.txt"], Some("b.txt"));
    assert_eq!(history.persisted_paths(), Some(vec!["a.txt".to_string(), "b.txt".to_string()]));
    let history = History::restored(Some(saved), 0);
    assert_history(&history, &[], None);
    assert_eq!(history.persisted_paths(), None);
    let history = History::restored(None, 5);
    assert_history(&history, &[], None);
    assert_eq!(history.persisted_paths(), Some(vec![]));
}

#[test]
fn navigate_to_latest() {
    let mut history = history_with(10, &["a.txt", "b.txt", "c.txt"]);
    assert_eq!(nav(&mut history, Direction::Top), None);
    assert_history(&history, &["a.txt", "b.txt", "c.txt"], Some("c.txt"));
    nav(&mut history, Direction::Back);
    nav(&mut history, Direction::Back);
    assert_history(&history, &["a.txt", "b.txt", "c.txt"], Some("a.txt"));
    assert_eq!(nav(&mut history, Direction::Top).unwrap(), "c.txt");
    assert_history(&history, &["a.txt", "b.txt", "c.txt"], Some("c.txt"));
    assert_eq!(nav(&mut History::new(10), Direction::Top), None);
}

#[test]
fn delete_to_latest() {
    let mut history = history_with(10, &["a.txt", "b.txt", "c.txt"]);
    nav(&mut history, Direction::Back);
    assert_eq!(del(&mut history, Direction::Top).unwrap(), "c.txt");
    assert_history(&history, &["a.txt", "c.txt"], Some("c.txt"));
    assert_eq!(del(&mut history, Direction::Top).unwrap(), "a.txt");
    assert_history(&history, &["a.txt"], Some("a.txt"));
    assert_eq!(del(&mut history, Direction::Top), None);
    assert_history(&history, &[], None);
    assert_eq!(del(&mut history, Direction::Top), None);
}

#[test]
fn push_keeps_other_paths_in_order() {
    let mut history = history_with(4, &["a.txt", "b.txt", "c.txt", "d.txt"]);
    history.push("b.txt".to_string());
    assert_history(&history, &["a.txt", "c.txt", "d.txt", "b.txt"], Some("b.txt"));
    history.push("e.txt".to_string());
    assert_history(&history, &["c.txt", "d.txt", "b.txt", "e.txt"], Some("e.txt"));
    history.push("e.txt".to_string());
    assert_history(&history, &["c.txt", "d.txt", "b.txt", "e.txt"], Some("e.txt"));
}
