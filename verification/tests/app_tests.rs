use tasks::keys::{command_for_key, delete_command_for_key, yank_command_for_key, Command, Key};
use tasks::serialisation::deserialise;
use tasks::tasks_app::TasksApp;

fn start(text: &str) -> TasksApp {
    TasksApp::new(deserialise(text))
}

fn current(app: &TasksApp) -> Vec<(String, bool)> {
    app.current_list().tasks_iter().map(|t| (t.description(), t.status())).collect()
}

fn names(app: &TasksApp) -> Vec<String> {
    app.lists().iter().map(|l| l.name()).collect()
}

fn s(text: &str) -> String {
    text.to_string()
}

const TWO_LISTS: &str = "A\n- [ ] a1\n- [x] a2\n- [ ] a3\nB\n- [ ] b1\n";

#[test]
fn starts_on_the_first_task_of_the_first_list() {
    let app = start(TWO_LISTS);
    assert_eq!(app.current_list_index(), 0);
    assert_eq!(app.current_task_index(), 0);
    assert_eq!(app.list_count(), 2);
}

#[test]
fn moves_between_tasks_within_bounds() {
    let mut app = start(TWO_LISTS);
    app.move_to_prev_task();
    assert_eq!(app.current_task_index(), 0);
    app.move_to_next_task();
    app.move_to_next_task();
    app.move_to_next_task();
    assert_eq!(app.current_task_index(), 2);
    assert_eq!(app.get_current_task().unwrap().description(), "a3");
}

#[test]
fn moves_between_lists_within_bounds() {
    let mut app = start(TWO_LISTS);
    app.move_to_next_task();
    app.move_to_next_list();
    assert_eq!(app.current_list_index(), 1);
    assert_eq!(app.current_task_index(), 0);
    app.move_to_next_list();
    assert_eq!(app.current_list_index(), 1);
    app.move_to_prev_list();
    assert_eq!(app.current_list_index(), 0);
    app.move_to_prev_list();
    assert_eq!(app.current_list_index(), 0);
}

#[test]
fn moving_to_the_previous_list_resets_a_task_position_past_its_end() {
    let mut app = start("A\n- [ ] a1\nB\n- [ ] b1\n- [ ] b2\n- [ ] b3\n");
    app.move_to_list(1);
    app.goto_bottom();
    assert_eq!(app.current_task_index(), 2);
    app.move_to_prev_list();
    assert_eq!(app.current_task_index(), 0);
}

#[test]
fn move_to_list_ignores_missing_lists() {
    let mut app = start(TWO_LISTS);
    app.move_to_list(5);
    assert_eq!(app.current_list_index(), 0);
    app.move_to_list(1);
    assert_eq!(app.current_list_index(), 1);
}

#[test]
fn get_current_task_is_none_on_an_empty_list() {
    let app = start("A\n");
    assert!(app.get_current_task().is_none());
}

#[test]
fn moving_a_task_to_the_next_list_keeps_its_status() {
    let mut app = start(TWO_LISTS);
    app.move_to_next_task();
    app.move_current_task_to_next_list();
    assert_eq!(app.current_list_index(), 1);
    assert_eq!(app.current_task_index(), 1);
    assert_eq!(current(&app), vec![(s("b1"), false), (s("a2"), true)]);
    app.move_to_prev_list();
    assert_eq!(current(&app), vec![(s("a1"), false), (s("a3"), false)]);
}

#[test]
fn moving_a_task_there_and_back_puts_it_last() {
    let mut app = start(TWO_LISTS);
    app.move_to_next_task();
    app.move_current_task_to_next_list();
    app.move_current_task_to_prev_list();
    assert_eq!(app.current_list_index(), 0);
    assert_eq!(app.current_task_index(), 2);
    assert_eq!(current(&app), vec![(s("a1"), false), (s("a3"), false), (s("a2"), true)]);
}

#[test]
fn moving_a_task_without_a_target_list_does_nothing() {
    let mut app = start(TWO_LISTS);
    app.move_current_task_to_prev_list();
    assert_eq!(app.current_list_index(), 0);
    assert_eq!(current(&app).len(), 3);
    app.move_to_next_list();
    app.move_current_task_to_next_list();
    assert_eq!(app.current_list_index(), 1);
    assert_eq!(current(&app), vec![(s("b1"), false)]);
}

#[test]
fn deleting_and_pasting_below_restores_the_list() {
    let mut app = start(TWO_LISTS);
    app.move_to_next_task();
    app.delete_current_task();
    assert_eq!(app.current_task_index(), 0);
    assert_eq!(current(&app), vec![(s("a1"), false), (s("a3"), false)]);
    app.paste_clipboard(1);
    assert_eq!(app.current_task_index(), 1);
    assert_eq!(current(&app), vec![(s("a1"), false), (s("a2"), true), (s("a3"), false)]);
}

#[test]
fn pasting_a_yanked_list_above_keeps_its_order() {
    let mut app = start("A\n- [ ] a\n- [ ] b\n");
    app.yank_current_list();
    app.paste_clipboard(0);
    assert_eq!(
        current(&app),
        vec![(s("a"), false), (s("b"), false), (s("a"), false), (s("b"), false)]
    );
    assert_eq!(app.current_task_index(), 0);
    app.move_to_next_task();
    app.paste_clipboard(0);
    assert_eq!(current(&app).len(), 6);
    assert_eq!(current(&app)[1], (s("a"), false));
    assert_eq!(current(&app)[2], (s("b"), false));
    assert_eq!(app.current_task_index(), 1);
}

#[test]
fn pasting_one_past_the_end_puts_the_block_first_in_order() {
    let mut app = start("A\n- [ ] x\n- [ ] y\nB\n- [ ] b1\n");
    app.yank_current_list();
    app.move_to_next_list();
    app.move_to_list(0);
    app.move_to_next_task();
    app.move_to_list(1);
    app.paste_clipboard(1);
    assert_eq!(current(&app), vec![(s("x"), false), (s("y"), false), (s("b1"), false)]);
    assert_eq!(app.current_task_index(), 3);
}

#[test]
fn pasting_far_past_the_end_adds_nothing() {
    let mut app = start("A\n- [ ] x\n- [ ] y\n- [ ] z\nB\n");
    app.yank_current_task();
    app.goto_bottom();
    app.move_to_list(1);
    app.paste_clipboard(1);
    assert!(current(&app).is_empty());
    assert_eq!(app.current_task_index(), 2);
}

#[test]
fn pasting_above_inserts_at_the_cursor() {
    let mut app = start(TWO_LISTS);
    app.yank_current_task();
    app.move_to_next_list();
    app.paste_clipboard(0);
    assert_eq!(current(&app), vec![(s("a1"), false), (s("b1"), false)]);
    assert_eq!(app.current_task_index(), 0);
}

#[test]
fn yank_list_and_paste_into_another_list() {
    let mut app = start(TWO_LISTS);
    app.yank_current_list();
    app.move_to_next_list();
    app.paste_clipboard(1);
    assert_eq!(
        current(&app),
        vec![(s("b1"), false), (s("a1"), false), (s("a2"), true), (s("a3"), false)]
    );
    assert_eq!(app.current_task_index(), 3);
}

#[test]
fn pasting_into_an_empty_list() {
    let mut app = start("A\n- [ ] x\n- [ ] y\nB\n");
    app.yank_current_list();
    app.move_to_next_list();
    app.paste_clipboard(1);
    assert_eq!(current(&app), vec![(s("x"), false), (s("y"), false)]);
    assert_eq!(app.current_task_index(), 1);
}

#[test]
fn delete_all_tasks_yanks_them() {
    let mut app = start(TWO_LISTS);
    app.delete_all_tasks();
    assert!(current(&app).is_empty());
    app.paste_clipboard(1);
    assert_eq!(current(&app).len(), 3);
}

#[test]
fn delete_completed_tasks_on_current_and_all_lists() {
    let mut app = start("A\n- [x] a1\n- [ ] a2\nB\n- [x] b1\n");
    app.move_to_next_task();
    app.delete_completed_tasks();
    assert_eq!(app.current_task_index(), 0);
    assert_eq!(current(&app), vec![(s("a2"), false)]);
    app.move_to_next_list();
    assert_eq!(current(&app).len(), 1);
    app.delete_completed_tasks_on_all_lists();
    assert!(current(&app).is_empty());
}

#[test]
fn sort_current_and_all_lists() {
    let mut app = start("A\n- [ ] a1\n- [x] a2\nB\n- [ ] b1\n- [x] b2\n");
    app.sort_current_list();
    assert_eq!(current(&app), vec![(s("a2"), true), (s("a1"), false)]);
    app.move_to_next_list();
    assert_eq!(current(&app), vec![(s("b1"), false), (s("b2"), true)]);
    app.sort_all_lists();
    assert_eq!(current(&app), vec![(s("b2"), true), (s("b1"), false)]);
}

#[test]
fn create_rename_and_delete_lists() {
    let mut app = start(TWO_LISTS);
    app.create_new_list("Middle");
    assert_eq!(names(&app), vec!["A", "Middle", "B"]);
    assert_eq!(app.current_list_index(), 1);
    app.create_new_list("");
    assert_eq!(app.list_count(), 3);
    app.rename_current_list("Centre");
    assert_eq!(names(&app), vec!["A", "Centre", "B"]);
    app.delete_current_list();
    assert_eq!(names(&app), vec!["A", "B"]);
    assert_eq!(app.current_list_index(), 0);
}

#[test]
fn the_last_list_is_never_deleted() {
    let mut app = start("Only\n");
    app.delete_current_list();
    assert_eq!(names(&app), vec!["Only"]);
}

#[test]
fn create_reword_and_toggle_tasks() {
    let mut app = start("A\n");
    app.create_new_task("first");
    app.create_new_task("");
    app.reword_current_task("First");
    app.toggle_current_task();
    assert_eq!(current(&app), vec![(s("First"), true)]);
    app.move_to_next_task();
    app.reword_current_task("Only");
    assert_eq!(current(&app), vec![(s("Only"), true)]);
    app.delete_current_task();
    app.reword_current_task("nope");
    assert!(current(&app).is_empty());
}

#[test]
fn goto_bottom_goes_to_the_last_task() {
    let mut app = start(TWO_LISTS);
    app.goto_bottom();
    assert_eq!(app.current_task_index(), 2);
}

#[test]
fn perform_carries_out_bound_commands() {
    let mut app = start(TWO_LISTS);
    assert!(app.can_perform(Command::NextTask));
    app.perform(command_for_key(Key::Char('j')));
    app.perform(command_for_key(Key::Char(' ')));
    assert_eq!(current(&app)[1], (s("a2"), false));
    app.perform(command_for_key(Key::Char('2')));
    assert_eq!(app.current_list_index(), 1);
    app.perform(Command::NewList);
    assert_eq!(app.list_count(), 2);
}

#[test]
fn headings_and_prompts_show_list_positions() {
    let mut app = start(TWO_LISTS);
    assert_eq!(app.title(), "(1/2) A");
    assert_eq!(app.new_list_prompt(), "(2/3) ");
    app.move_to_next_list();
    assert_eq!(app.rename_prompt(), "(2/2) ");
    for _ in 0..9 {
        app.create_new_list("L");
    }
    assert_eq!(app.title(), "(11/11) L");
}

#[test]
fn y_and_capital_y_confirm() {
    assert!(tasks::keys::confirms(Key::Char('y')));
    assert!(tasks::keys::confirms(Key::Char('Y')));
    assert!(!tasks::keys::confirms(Key::Char('n')));
    assert!(!tasks::keys::confirms(Key::Enter));
}

#[test]
fn can_perform_reports_what_would_stop_the_program() {
    let mut app = start("A\nB\n");
    assert!(!app.can_perform(Command::GotoBottom));
    app.create_new_task("x");
    assert!(app.can_perform(Command::GotoBottom));
    let mut blank = start(TWO_LISTS);
    blank.move_to_next_list();
    blank.move_to_list(0);
    assert!(blank.can_perform(Command::MoveTaskToNextList));
}

#[test]
fn keys_are_bound_as_documented() {
    assert_eq!(command_for_key(Key::Down), Command::NextTask);
    assert_eq!(command_for_key(Key::Char('k')), Command::PrevTask);
    assert_eq!(command_for_key(Key::Char('L')), Command::MoveTaskToNextList);
    assert_eq!(command_for_key(Key::Char('H')), Command::MoveTaskToPrevList);
    assert_eq!(command_for_key(Key::Char('P')), Command::PasteAbove);
    assert_eq!(command_for_key(Key::Char('1')), Command::GotoList(0));
    assert_eq!(command_for_key(Key::Char('9')), Command::GotoList(8));
    assert_eq!(command_for_key(Key::Char('0')), Command::Nothing);
    assert_eq!(command_for_key(Key::Char('Q')), Command::QuitWithoutSaving);
    assert_eq!(command_for_key(Key::Enter), Command::Nothing);
    assert_eq!(delete_command_for_key(Key::Char('C')), Command::DeleteCompletedTasksOnAllLists);
    assert_eq!(delete_command_for_key(Key::Char('x')), Command::Nothing);
    assert_eq!(yank_command_for_key(Key::Char('A')), Command::YankList);
    assert_eq!(yank_command_for_key(Key::Esc), Command::Nothing);
}
