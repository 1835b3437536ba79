use tasks::task::{List, Task};

fn descriptions(list: &List) -> Vec<String> {
    list.tasks_iter().map(|t| t.description()).collect()
}

fn statuses(list: &List) -> Vec<bool> {
    list.tasks_iter().map(|t| t.status()).collect()
}

fn list_with(descriptions: &[&str]) -> List {
    let mut list = List::new("Work").unwrap();
    for d in descriptions {
        list.add_task(d);
    }
    list
}

#[test]
fn list_new_rejects_an_empty_name() {
    assert!(List::new("").is_err());
}

#[test]
fn list_new_starts_empty() {
    let list = List::new("Groceries").unwrap();
    assert_eq!(list.name(), "Groceries");
    assert_eq!(list.length(), 0);
}

#[test]
fn task_new_is_not_completed() {
    let task = Task::new("milk");
    assert_eq!(task.description(), "milk");
    assert!(!task.status());
}

#[test]
fn toggle_status_twice_gives_the_task_back() {
    let mut task = Task::new("milk");
    task.toggle_status();
    assert!(task.status());
    task.toggle_status();
    assert!(!task.status());
}

#[test]
fn add_task_skips_an_empty_description() {
    let mut list = list_with(&["a"]);
    list.add_task("");
    assert_eq!(descriptions(&list), vec!["a"]);
}

#[test]
fn rename_list_ignores_an_empty_name() {
    let mut list = list_with(&[]);
    list.rename_list("");
    assert_eq!(list.name(), "Work");
    list.rename_list("Home");
    assert_eq!(list.name(), "Home");
}

#[test]
fn toggle_task_out_of_range_does_nothing() {
    let mut list = list_with(&["a", "b"]);
    list.toggle_task(2);
    assert_eq!(statuses(&list), vec![false, false]);
    list.toggle_task(1);
    assert_eq!(statuses(&list), vec![false, true]);
    list.toggle_task(1);
    assert_eq!(statuses(&list), vec![false, false]);
}

#[test]
fn insert_task_at_an_index() {
    let mut list = list_with(&["a", "b"]);
    list.insert_task(1, Task::new("x"));
    assert_eq!(descriptions(&list), vec!["a", "x", "b"]);
    list.insert_task(3, Task::new("y"));
    assert_eq!(descriptions(&list), vec!["a", "x", "b", "y"]);
}

#[test]
fn insert_task_one_past_the_end_goes_first() {
    let mut list = list_with(&["a", "b"]);
    list.insert_task(3, Task::new("x"));
    assert_eq!(descriptions(&list), vec!["x", "a", "b"]);
}

#[test]
fn insert_task_further_out_does_nothing() {
    let mut list = list_with(&["a", "b"]);
    list.insert_task(4, Task::new("x"));
    assert_eq!(descriptions(&list), vec!["a", "b"]);
}

#[test]
fn insert_task_into_an_empty_list() {
    let mut list = list_with(&[]);
    list.insert_task(1, Task::new("x"));
    assert_eq!(descriptions(&list), vec!["x"]);
}

#[test]
fn reword_task_checks_index_and_text() {
    let mut list = list_with(&["a", "b"]);
    list.toggle_task(0);
    list.reword_task(0, "A");
    list.reword_task(1, "");
    list.reword_task(5, "z");
    assert_eq!(descriptions(&list), vec!["A", "b"]);
    assert_eq!(statuses(&list), vec![true, false]);
}

#[test]
fn delete_task_checks_index() {
    let mut list = list_with(&["a", "b", "c"]);
    list.delete_task(3);
    assert_eq!(list.length(), 3);
    list.delete_task(1);
    assert_eq!(descriptions(&list), vec!["a", "c"]);
}

#[test]
fn delete_completed_tasks_keeps_the_open_ones_in_order() {
    let mut list = list_with(&["a", "b", "c", "d"]);
    list.toggle_task(0);
    list.toggle_task(2);
    list.delete_completed_tasks();
    assert_eq!(descriptions(&list), vec!["b", "d"]);
    assert_eq!(statuses(&list), vec![false, false]);
}

#[test]
fn delete_all_tasks_empties_the_list() {
    let mut list = list_with(&["a", "b"]);
    list.delete_all_tasks();
    assert_eq!(list.length(), 0);
    assert_eq!(list.name(), "Work");
}

#[test]
fn sort_list_puts_completed_tasks_first() {
    let mut list = list_with(&["a", "b", "c", "d"]);
    list.toggle_task(1);
    list.toggle_task(3);
    list.sort_list();
    assert_eq!(descriptions(&list), vec!["b", "d", "a", "c"]);
    assert_eq!(statuses(&list), vec![true, true, false, false]);
}

#[test]
fn sorting_twice_is_sorting_once() {
    let mut list = list_with(&["a", "b", "c"]);
    list.toggle_task(2);
    list.sort_list();
    let once = descriptions(&list);
    list.sort_list();
    assert_eq!(descriptions(&list), once);
    assert_eq!(once, vec!["c", "a", "b"]);
}

#[test]
fn task_renders_with_a_check_mark() {
    let mut task = Task::new("milk");
    assert_eq!(task.render_with_mark("*"), "[ ] milk");
    assert_eq!(task.to_string(), "[ ] milk");
    task.toggle_status();
    assert_eq!(task.render_with_mark("*"), "[*] milk");
    assert_eq!(task.status_box_with_mark("*"), "[*] ");
    let boxed = task.status_box();
    assert!(boxed == "[\u{2714}] " || boxed == "[\u{1b}[92m\u{2714}\u{1b}[0m] ");
    let shown = task.to_string();
    assert!(shown == "[\u{2714}] milk" || shown == "[\u{1b}[92m\u{2714}\u{1b}[0m] milk");
}

#[test]
fn cloned_list_is_equal() {
    let mut list = list_with(&["a", "b"]);
    list.toggle_task(1);
    let copy = list.clone();
    assert_eq!(copy.name(), "Work");
    assert_eq!(descriptions(&copy), vec!["a", "b"]);
    assert_eq!(statuses(&copy), vec![false, true]);
}
