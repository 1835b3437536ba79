use tasks::serialisation::{deserialise, new_tasks_data, serialise};
use tasks::task::List;

fn summary(lists: &[List]) -> Vec<(String, Vec<(String, bool)>)> {
    lists
        .iter()
        .map(|l| (l.name(), l.tasks_iter().map(|t| (t.description(), t.status())).collect()))
        .collect()
}

fn s(text: &str) -> String {
    text.to_string()
}

#[test]
fn reads_lists_and_tasks() {
    let lists = deserialise("Main\n- [ ] buy milk\n- [x] call mum\n\nWork\n- [x] report\n");
    assert_eq!(
        summary(&lists),
        vec![
            (s("Main"), vec![(s("buy milk"), false), (s("call mum"), true)]),
            (s("Work"), vec![(s("report"), true)]),
        ]
    );
}

#[test]
fn reads_crlf_line_endings() {
    let lists = deserialise("Main\r\n- [x] a\r\n\r\n");
    assert_eq!(summary(&lists), vec![(s("Main"), vec![(s("a"), true)])]);
}

#[test]
fn keeps_a_carriage_return_at_the_very_end() {
    let lists = deserialise("Main\r");
    assert_eq!(summary(&lists), vec![(s("Main\r"), vec![])]);
}

#[test]
fn reads_text_without_a_final_newline() {
    let lists = deserialise("A\n- [ ] x");
    assert_eq!(summary(&lists), vec![(s("A"), vec![(s("x"), false)])]);
}

#[test]
fn empty_text_has_no_lists() {
    assert!(deserialise("").is_empty());
    assert!(deserialise("\n\n").is_empty());
}

#[test]
fn a_task_before_any_list_is_skipped() {
    let lists = deserialise("- [x] lost\nMain\n");
    assert_eq!(summary(&lists), vec![(s("Main"), vec![])]);
}

#[test]
fn other_bracketed_lines_start_lists() {
    let lists = deserialise("Main\n- [a] odd\n- [ ]no space\n");
    assert_eq!(
        summary(&lists),
        vec![(s("Main"), vec![]), (s("- [a] odd"), vec![]), (s("- [ ]no space"), vec![])]
    );
}

#[test]
fn an_empty_task_is_not_added() {
    let lists = deserialise("Main\n- [ ] \n- [ ] a\n");
    assert_eq!(summary(&lists), vec![(s("Main"), vec![(s("a"), false)])]);
}

#[test]
fn an_empty_completed_task_changes_nothing() {
    let lists = deserialise("Main\n- [ ] a\n- [x] \n");
    assert_eq!(summary(&lists), vec![(s("Main"), vec![(s("a"), false)])]);
}

#[test]
fn an_empty_completed_task_in_an_empty_list_changes_nothing() {
    let lists = deserialise("Main\n- [x] \n- [x] a\n");
    assert_eq!(summary(&lists), vec![(s("Main"), vec![(s("a"), true)])]);
}

#[test]
fn reads_descriptions_with_other_scripts() {
    let lists = deserialise("\u{65e5}\u{672c}\n- [ ] caf\u{e9}\n");
    assert_eq!(summary(&lists), vec![(s("\u{65e5}\u{672c}"), vec![(s("caf\u{e9}"), false)])]);
}

#[test]
fn writes_the_file_format() {
    let lists = deserialise("Main\n- [ ] buy milk\n- [x] call mum\nWork\n");
    assert_eq!(serialise(lists), "Main\n- [ ] buy milk\n- [x] call mum\n\nWork\n\n");
}

#[test]
fn writing_no_lists_gives_empty_text() {
    assert_eq!(serialise(Vec::new()), "");
}

#[test]
fn reading_back_what_was_written_gives_the_lists() {
    let mut main = List::new("Main").unwrap();
    main.add_task("one");
    main.add_task("two \r x");
    main.toggle_task(1);
    let mut other = List::new("Other").unwrap();
    other.add_task("three");
    let lists = vec![main, other, List::new("Empty").unwrap()];
    let before = summary(&lists);
    let text = serialise(lists);
    assert_eq!(summary(&deserialise(&text)), before);
}

#[test]
fn new_tasks_data_uses_the_given_name() {
    assert_eq!(summary(&new_tasks_data("Inbox")), vec![(s("Inbox"), vec![])]);
}

#[test]
fn new_tasks_data_falls_back_to_main() {
    assert_eq!(summary(&new_tasks_data("")), vec![(s("Main"), vec![])]);
}

#[test]
fn lists_read_always_have_names_and_tasks_descriptions() {
    let lists = deserialise("\n\n- [ ] \nA\n- [ ] \n\n- [x] z\n");
    assert_eq!(summary(&lists), vec![(s("A"), vec![(s("z"), true)])]);
}
