use quick_look::cache::Cache;
use quick_look::config::{History, HISTORY_COUNT};

fn item(name: &str, time: i64) -> History {
    History {
        id: format!("__FILE_HISTORY__{}", name),
        name: name.to_string(),
        path: format!("/files/{}", name),
        update_time: time,
    }
}

fn names(list: &Vec<History>) -> Vec<String> {
    list.iter().map(|h| h.name.clone()).collect()
}

#[test]
fn first_item_starts_the_index() {
    let (list, changed) = Cache::save_history(Vec::new(), "a.txt", "/files/a.txt", "u-1", 100);
    assert!(changed);
    assert_eq!(
        list,
        vec![History {
            id: "__FILE_HISTORY__u-1".to_string(),
            name: "a.txt".to_string(),
            path: "/files/a.txt".to_string(),
            update_time: 100,
        }]
    );
}

#[test]
fn item_that_is_listed_changes_nothing() {
    let before = vec![item("b", 5), item("a", 9), item("c", 1)];
    let (list, changed) = Cache::save_history(before.clone(), "a", "/files/a", "u-2", 100);
    assert!(!changed);
    assert_eq!(list, before);
}

#[test]
fn same_name_at_another_path_is_another_item() {
    let before = vec![item("a", 9)];
    let (list, changed) = Cache::save_history(before, "a", "/elsewhere/a", "u-3", 10);
    assert!(changed);
    assert_eq!(list.len(), 2);
    assert_eq!(list[0].path, "/elsewhere/a");
}

#[test]
fn index_is_kept_newest_first() {
    let before = vec![item("old", 1), item("new", 9), item("mid", 5)];
    let (list, changed) = Cache::save_history(before, "now", "/files/now", "u", 100);
    assert!(changed);
    assert_eq!(names(&list), vec!["now", "new", "mid", "old"]);
    let before = vec![item("old", 1), item("new", 9), item("mid", 5)];
    let (list, _) = Cache::save_history(before, "between", "/files/between", "u", 6);
    assert_eq!(names(&list), vec!["new", "between", "mid", "old"]);
    let before = vec![item("old", 1), item("new", 9)];
    let (list, _) = Cache::save_history(before, "oldest", "/files/oldest", "u", 0);
    assert_eq!(names(&list), vec!["new", "old", "oldest"]);
}

#[test]
fn entries_of_the_same_time_keep_their_order() {
    let before = vec![item("x", 5), item("y", 5), item("z", 5)];
    let (list, _) = Cache::save_history(before, "w", "/files/w", "u", 5);
    assert_eq!(names(&list), vec!["x", "y", "z", "w"]);
}

#[test]
fn full_index_drops_its_oldest_entries() {
    let before: Vec<History> = (0..40).map(|k| item(&format!("f{}", k), k)).collect();
    let (list, changed) = Cache::save_history(before, "fresh", "/files/fresh", "u", 1000);
    assert!(changed);
    assert_eq!(list.len(), HISTORY_COUNT);
    assert_eq!(list[0].name, "fresh");
    let kept: Vec<i64> = list[1..].iter().map(|h| h.update_time).collect();
    let expected: Vec<i64> = (11..40).rev().collect();
    assert_eq!(kept, expected);
}

#[test]
fn index_of_exactly_the_limit_makes_room() {
    let before: Vec<History> = (0..30).map(|k| item(&format!("f{}", k), k)).collect();
    let (list, _) = Cache::save_history(before, "fresh", "/files/fresh", "u", -5);
    assert_eq!(list.len(), 30);
    assert_eq!(list[29].name, "fresh");
    assert_eq!(list[28].update_time, 1);
    let before: Vec<History> = (0..29).map(|k| item(&format!("f{}", k), k)).collect();
    let (list, _) = Cache::save_history(before, "fresh", "/files/fresh", "u", -5);
    assert_eq!(list.len(), 30);
    assert_eq!(list[28].update_time, 0);
}
