//! The application state: the lists, which list and which task the cursor
//! is on, and the clipboard of yanked tasks, with the operations the key
//! bindings perform on it.

use crate::keys::Command;
use crate::text::{decimal, decimal_text};
use crate::task::{
    lemma_sort_rearranges, lemma_without_completed_keeps_open, empty_list, list_views, task_views, List, ListView, Task, TaskView};
use vstd::prelude::*;

verus! {

/// What the application state is.
#[verifier::ext_equal]
pub struct AppView {
    pub lists: Seq<ListView>,
    pub list_index: int,
    pub task_index: int,
    pub clipboard: Seq<TaskView>,
}

/// Where a block pasted at position `at` of `list` starts: at `at` when it
/// is within the list or at its end, at the start when it is one past the
/// end, and nowhere when it is further out.
pub open spec fn paste_start(list: ListView, at: int) -> Option<int> {
    if at <= list.tasks.len() {
        Some(at)
    } else if at == list.tasks.len() + 1 {
        Some(0)
    } else {
        None
    }
}

/// How many times the cursor moves by the paste offset while `count` tasks
/// are pasted into a list of `len` tasks, one after the other: once per task
/// unless the list holds at most one task after it (when the block `lands`)
/// or throughout (when it does not).
pub open spec fn paste_moves(len: int, count: int, lands: bool) -> int {
    if lands {
        if len == 0 && count > 0 { count - 1 } else { count }
    } else {
        if len > 1 { count } else { 0 }
    }
}

/// `(position/count) `: where a list stands among the lists, counted from 1.
pub open spec fn position_label(position: nat, count: nat) -> Seq<char> {
    seq!['('] + decimal(position) + seq!['/'] + decimal(count) + seq![')', ' ']
}

fn position_label_text(position: usize, count: usize) -> (text: String)
    ensures
        text@ == position_label(position as nat, count as nat),
{
    let mut text = String::new();
    text.append("(");
    text.append(decimal_text(position).as_str());
    text.append("/");
    text.append(decimal_text(count).as_str());
    text.append(") ");
    proof {
        reveal_strlit("(");
        reveal_strlit("/");
        reveal_strlit(") ");
    }
    assert(text@ =~= position_label(position as nat, count as nat));
    text
}

impl AppView {
    /// There is at least one list and the cursor is on one of them, at a
    /// task position that is not negative.
    pub open spec fn wf(self) -> bool {
        &&& self.lists.len() > 0
        &&& 0 <= self.list_index < self.lists.len()
        &&& 0 <= self.task_index
    }

    pub open spec fn current(self) -> ListView {
        self.lists[self.list_index]
    }

    pub open spec fn with_current(self, list: ListView) -> AppView {
        AppView { lists: self.lists.update(self.list_index, list), ..self }
    }

    pub open spec fn at_task(self, task_index: int) -> AppView {
        AppView { task_index, ..self }
    }

    /// The task under the cursor, if the cursor is on one.
    pub open spec fn current_task(self) -> Option<TaskView> {
        if 0 <= self.task_index < self.current().tasks.len() {
            Some(self.current().tasks[self.task_index])
        } else {
            None
        }
    }

    pub open spec fn move_to_next_list(self) -> AppView {
        if self.list_index + 1 < self.lists.len() {
            AppView { list_index: self.list_index + 1, task_index: 0, ..self }
        } else {
            self
        }
    }

    pub open spec fn move_to_prev_list(self) -> AppView {
        let list_index = if self.list_index > 0 { self.list_index - 1 } else { 0 };
        let task_index = if self.task_index >= self.lists[list_index].tasks.len() {
            0
        } else {
            self.task_index
        };
        AppView { list_index, task_index, ..self }
    }

    pub open spec fn move_to_list(self, index: int) -> AppView {
        if index < self.lists.len() {
            AppView { list_index: index, ..self }
        } else {
            self
        }
    }

    pub open spec fn move_to_next_task(self) -> AppView {
        if self.task_index + 1 < self.current().tasks.len() {
            self.at_task(self.task_index + 1)
        } else {
            self
        }
    }

    pub open spec fn move_to_prev_task(self) -> AppView {
        self.at_task(if self.task_index > 0 { self.task_index - 1 } else { 0 })
    }

    /// Moving the task under the cursor to the list at `target` would leave
    /// no task to put the cursor on: the task has an empty description, so it
    /// is not added, and the target list has no tasks.
    pub open spec fn move_task_strands_cursor(self, target: int) -> bool {
        &&& self.current_task() is Some
        &&& self.current_task().unwrap().description.len() == 0
        &&& self.lists[target].tasks.len() == 0
    }

    /// Takes the task under the cursor out of the current list, appends a task
    /// with its description to the list at `target` with the cursor on that
    /// list's last task, and, when the task was completed, flips that last
    /// task's status.
    pub open spec fn move_current_task_to(self, target: int) -> AppView {
        let task = self.current_task().unwrap();
        let source = self.current().with_task_deleted(self.task_index);
        let added = self.lists[target].with_task_added(task.description);
        let last = added.tasks.len() - 1;
        let landed = if task.completed { added.with_task_toggled(last) } else { added };
        AppView {
            lists: self.lists.update(self.list_index, source).update(target, landed),
            list_index: target,
            task_index: last,
            clipboard: self.clipboard,
        }
    }

    pub open spec fn move_current_task_to_next_list(self) -> AppView {
        if self.list_index + 1 >= self.lists.len() || self.current_task() is None {
            self
        } else {
            self.move_current_task_to(self.list_index + 1)
        }
    }

    pub open spec fn move_current_task_to_prev_list(self) -> AppView {
        if self.list_index == 0 || self.current_task() is None {
            self
        } else {
            self.move_current_task_to(self.list_index - 1)
        }
    }

    pub open spec fn create_new_list(self, name: Seq<char>) -> AppView {
        if name.len() == 0 {
            self
        } else {
            AppView {
                lists: self.lists.insert(self.list_index + 1, empty_list(name)),
                list_index: self.list_index + 1,
                ..self
            }
        }
    }

    pub open spec fn rename_current_list(self, name: Seq<char>) -> AppView {
        self.with_current(self.current().renamed(name))
    }

    /// The last remaining list is never deleted.
    pub open spec fn delete_current_list(self) -> AppView {
        if self.lists.len() > 1 {
            AppView {
                lists: self.lists.remove(self.list_index),
                list_index: if self.list_index > 0 { self.list_index - 1 } else { 0 },
                ..self
            }
        } else {
            self
        }
    }

    pub open spec fn create_new_task(self, description: Seq<char>) -> AppView {
        self.with_current(self.current().with_task_added(description))
    }

    pub open spec fn reword_current_task(self, description: Seq<char>) -> AppView {
        self.with_current(self.current().with_task_reworded(self.task_index, description))
    }

    pub open spec fn toggle_current_task(self) -> AppView {
        self.with_current(self.current().with_task_toggled(self.task_index))
    }

    pub open spec fn sort_current_list(self) -> AppView {
        self.with_current(self.current().sorted())
    }

    pub open spec fn sort_all_lists(self) -> AppView {
        AppView { lists: self.lists.map_values(|l: ListView| l.sorted()), ..self }
    }

    /// Pastes the clipboard as a block, in its order, at the cursor position
    /// plus `offset` (1 below the task under the cursor, 0 above it); see
    /// `paste_start` for where it lands and `paste_moves` for the cursor.
    pub open spec fn paste_clipboard(self, offset: int) -> AppView {
        let list = self.current();
        let count = self.clipboard.len() as int;
        match paste_start(list, self.task_index + offset) {
            Some(at) => self.with_current(
                list.with_tasks(list.tasks.take(at) + self.clipboard + list.tasks.skip(at)),
            ).at_task(self.task_index + paste_moves(list.tasks.len() as int, count, true) * offset),
            None => self.at_task(
                self.task_index + paste_moves(list.tasks.len() as int, count, false) * offset,
            ),
        }
    }

    pub open spec fn yank_current_task(self) -> AppView {
        match self.current_task() {
            Some(task) => AppView { clipboard: seq![task], ..self },
            None => self,
        }
    }

    pub open spec fn yank_current_list(self) -> AppView {
        AppView { clipboard: self.current().tasks, ..self }
    }

    pub open spec fn delete_current_task(self) -> AppView {
        let yanked = self.yank_current_task();
        yanked.with_current(self.current().with_task_deleted(self.task_index)).at_task(
            if self.task_index > 0 { self.task_index - 1 } else { 0 },
        )
    }

    pub open spec fn delete_completed_tasks(self) -> AppView {
        self.with_current(self.current().without_completed()).at_task(0)
    }

    pub open spec fn delete_all_tasks(self) -> AppView {
        self.yank_current_list().with_current(self.current().cleared()).at_task(0)
    }

    pub open spec fn delete_completed_tasks_on_all_lists(self) -> AppView {
        AppView {
            lists: self.lists.map_values(|l: ListView| l.without_completed()),
            task_index: 0,
            ..self
        }
    }

    pub open spec fn goto_bottom(self) -> AppView {
        self.at_task(self.current().tasks.len() - 1)
    }

    /// Whether `command` can be carried out without stopping the program:
    /// the cursor must be able to move down, a moved task must leave a task
    /// to put the cursor on, pasting must not push the cursor position past
    /// `usize::MAX`, and `G` needs a task to go to.
    pub open spec fn can_perform(self, command: Command) -> bool {
        match command {
            Command::NextTask => self.task_index < usize::MAX,
            Command::MoveTaskToNextList => self.list_index + 1 < self.lists.len()
                ==> !self.move_task_strands_cursor(self.list_index + 1),
            Command::MoveTaskToPrevList => self.list_index > 0
                ==> !self.move_task_strands_cursor(self.list_index - 1),
            Command::PasteBelow => self.task_index + self.clipboard.len() <= usize::MAX,
            Command::GotoBottom => self.current().tasks.len() > 0,
            _ => true,
        }
    }

    /// The state after `command`. Commands that need more from the user (a
    /// confirmation, typed text, a second key) and those that end the
    /// program or show help leave the state as it is.
    pub open spec fn perform(self, command: Command) -> AppView {
        match command {
            Command::NextTask => self.move_to_next_task(),
            Command::PrevTask => self.move_to_prev_task(),
            Command::NextList => self.move_to_next_list(),
            Command::PrevList => self.move_to_prev_list(),
            Command::MoveTaskToNextList => self.move_current_task_to_next_list(),
            Command::MoveTaskToPrevList => self.move_current_task_to_prev_list(),
            Command::PasteBelow => self.paste_clipboard(1),
            Command::PasteAbove => self.paste_clipboard(0),
            Command::DeleteTask => self.delete_current_task(),
            Command::DeleteAllTasks => self.delete_all_tasks(),
            Command::DeleteCompletedTasks => self.delete_completed_tasks(),
            Command::DeleteCompletedTasksOnAllLists => self.delete_completed_tasks_on_all_lists(),
            Command::YankTask => self.yank_current_task(),
            Command::YankList => self.yank_current_list(),
            Command::SortList => self.sort_current_list(),
            Command::SortAllLists => self.sort_all_lists(),
            Command::GotoBottom => self.goto_bottom(),
            Command::ToggleTask => self.toggle_current_task(),
            Command::GotoList(index) => self.move_to_list(index as int),
            _ => self,
        }
    }
}

/// The application: the lists, the cursor (a list and a task in it) and the
/// clipboard.
pub struct TasksApp {
    lists: Vec<List>,
    current_list_index: usize,
    current_task_index: usize,
    clipboard: Vec<Task>,
}

impl View for TasksApp {
    type V = AppView;

    closed spec fn view(&self) -> AppView {
        AppView {
            lists: list_views(self.lists@),
            list_index: self.current_list_index as int,
            task_index: self.current_task_index as int,
            clipboard: task_views(self.clipboard@),
        }
    }
}

impl TasksApp {
    /// Starts the application on `lists`, with the cursor on the first task
    /// of the first list and nothing yanked.
    pub fn new(lists: Vec<List>) -> (app: TasksApp)
        ensures
            app@ == (AppView {
                lists: list_views(lists@),
                list_index: 0,
                task_index: 0,
                clipboard: Seq::empty(),
            }),
    {
        let app = TasksApp { lists, current_list_index: 0, current_task_index: 0, clipboard: Vec::new() };
        assert(app@.clipboard =~= Seq::<TaskView>::empty());
        app
    }

    /// Moves the cursor to the first task of the next list, if there is one.
    pub fn move_to_next_list(&mut self)
        requires
            old(self)@.wf(),
        ensures
            final(self)@ == old(self)@.move_to_next_list(),
            final(self)@.wf(),
    {
        let count = self.lists.len();
        if self.current_list_index + 1 < count {
            self.current_list_index += 1;
            self.current_task_index = 0;
        }
    }

    /// Moves the cursor to the previous list, if there is one, and to its
    /// first task when the task position is past its end.
    pub fn move_to_prev_list(&mut self)
        requires
            old(self)@.wf(),
        ensures
            final(self)@ == old(self)@.move_to_prev_list(),
            final(self)@.wf(),
    {
        self.current_list_index = self.current_list_index.saturating_sub(1);
        if self.current_task_index >= self.lists[self.current_list_index].length() {
            self.current_task_index = 0;
        }
    }

    /// Moves the cursor to the list at `index`, if there is one.
    pub fn move_to_list(&mut self, index: usize)
        requires
            old(self)@.wf(),
        ensures
            final(self)@ == old(self)@.move_to_list(index as int),
            final(self)@.wf(),
    {
        if index < self.lists.len() {
            self.current_list_index = index;
        }
    }

    /// Moves the cursor down one task, unless it is on the last one.
    pub fn move_to_next_task(&mut self)
        requires
            old(self)@.wf(),
            old(self)@.task_index < usize::MAX,
        ensures
            final(self)@ == old(self)@.move_to_next_task(),
            final(self)@.wf(),
    {
        if self.current_task_index + 1 < self.lists[self.current_list_index].length() {
            self.current_task_index += 1;
        }
    }

    /// Moves the cursor up one task, unless it is on the first one.
    pub fn move_to_prev_task(&mut self)
        requires
            old(self)@.wf(),
        ensures
            final(self)@ == old(self)@.move_to_prev_task(),
            final(self)@.wf(),
    {
        self.current_task_index = self.current_task_index.saturating_sub(1);
    }

    /// A copy of the task under the cursor, if the cursor is on one.
    pub fn get_current_task(&self) -> (task: Option<Task>)
        requires
            self@.wf(),
        ensures
            match task {
                Some(t) => self@.current_task() == Some(t@),
                None => self@.current_task() is None,
            },
    {
        let list = &self.lists[self.current_list_index];
        if self.current_task_index < list.length() {
            Some(list.task_at(self.current_task_index).clone())
        } else {
            None
        }
    }

    /// Moves the task under the cursor to the end of the next list, keeping
    /// its status, and the cursor with it. Does nothing when there is no next
    /// list or the cursor is not on a task.
    pub fn move_current_task_to_next_list(&mut self)
        requires
            old(self)@.wf(),
            old(self)@.list_index + 1 < old(self)@.lists.len() ==> !old(self)@.move_task_strands_cursor(
                old(self)@.list_index + 1,
            ),
        ensures
            final(self)@ == old(self)@.move_current_task_to_next_list(),
            final(self)@.wf(),
    {
        let count = self.lists.len();
        if self.current_list_index + 1 >= count {
            return;
        }
        let (description, status) = match self.get_current_task() {
            Some(task) => (task.description(), task.status()),
            None => return,
        };
        let source = self.current_list_index;
        let target = source + 1;
        let ghost start = self@;
        self.lists[source].delete_task(self.current_task_index);
        assert(self@.lists =~= start.lists.update(source as int, start.current().with_task_deleted(start.task_index)));
        self.move_to_next_list();
        let ghost moved = self@;
        self.lists[target].add_task(description.as_str());
        assert(self@.lists =~= moved.lists.update(target as int, moved.lists[target as int].with_task_added(description@)));
        let n = self.lists[target].length();
        self.current_task_index = n - 1;
        if status {
            let ghost added = self@;
            self.lists[target].toggle_task(self.current_task_index);
            assert(self@.lists =~= added.lists.update(
                target as int,
                added.lists[target as int].with_task_toggled(added.task_index),
            ));
        }
        assert(self@ =~= old(self)@.move_current_task_to(target as int));
    }

    /// Moves the task under the cursor to the end of the previous list,
    /// keeping its status, and the cursor with it. Does nothing when there is
    /// no previous list or the cursor is not on a task.
    pub fn move_current_task_to_prev_list(&mut self)
        requires
            old(self)@.wf(),
            old(self)@.list_index > 0 ==> !old(self)@.move_task_strands_cursor(old(self)@.list_index - 1),
        ensures
            final(self)@ == old(self)@.move_current_task_to_prev_list(),
            final(self)@.wf(),
    {
        if self.current_list_index == 0 {
            return;
        }
        let (description, status) = match self.get_current_task() {
            Some(task) => (task.description(), task.status()),
            None => return,
        };
        let source = self.current_list_index;
        let target = source - 1;
        let ghost start = self@;
        self.lists[source].delete_task(self.current_task_index);
        assert(self@.lists =~= start.lists.update(source as int, start.current().with_task_deleted(start.task_index)));
        self.move_to_prev_list();
        let ghost moved = self@;
        self.lists[target].add_task(description.as_str());
        assert(self@.lists =~= moved.lists.update(target as int, moved.lists[target as int].with_task_added(description@)));
        let n = self.lists[target].length();
        self.current_task_index = n - 1;
        if status {
            let ghost added = self@;
            self.lists[target].toggle_task(self.current_task_index);
            assert(self@.lists =~= added.lists.update(
                target as int,
                added.lists[target as int].with_task_toggled(added.task_index),
            ));
        }
        assert(self@ =~= old(self)@.move_current_task_to(target as int));
    }

    /// Inserts a new empty list named `name` after the current one and moves
    /// the cursor to it; does nothing when `name` is empty.
    pub fn create_new_list(&mut self, name: &str)
        requires
            old(self)@.wf(),
        ensures
            final(self)@ == old(self)@.create_new_list(name@),
            final(self)@.wf(),
    {
        let count = self.lists.len();
        if let Ok(list) = List::new(name) {
            self.lists.insert(self.current_list_index + 1, list);
            self.current_list_index += 1;
            assert(self@ =~= old(self)@.create_new_list(name@));
        }
    }

    /// Renames the current list; does nothing when `name` is empty.
    pub fn rename_current_list(&mut self, name: &str)
        requires
            old(self)@.wf(),
        ensures
            final(self)@ == old(self)@.rename_current_list(name@),
            final(self)@.wf(),
    {
        let index = self.current_list_index;
        self.lists[index].rename_list(name);
        assert(self@ =~= old(self)@.rename_current_list(name@));
    }

    /// Deletes the current list and moves the cursor to the one before it;
    /// does nothing when it is the only list.
    pub fn delete_current_list(&mut self)
        requires
            old(self)@.wf(),
        ensures
            final(self)@ == old(self)@.delete_current_list(),
            final(self)@.wf(),
    {
        if self.lists.len() > 1 {
            self.lists.remove(self.current_list_index);
            self.current_list_index = self.current_list_index.saturating_sub(1);
            assert(self@ =~= old(self)@.delete_current_list());
        }
    }

    /// Appends a task to the current list; does nothing when `description` is empty.
    pub fn create_new_task(&mut self, description: &str)
        requires
            old(self)@.wf(),
        ensures
            final(self)@ == old(self)@.create_new_task(description@),
            final(self)@.wf(),
    {
        let index = self.current_list_index;
        self.lists[index].add_task(description);
        assert(self@ =~= old(self)@.create_new_task(description@));
    }

    /// Gives the task under the cursor a new description; does nothing when
    /// the cursor is not on a task or `description` is empty.
    pub fn reword_current_task(&mut self, description: &str)
        requires
            old(self)@.wf(),
        ensures
            final(self)@ == old(self)@.reword_current_task(description@),
            final(self)@.wf(),
    {
        let index = self.current_list_index;
        if self.current_task_index >= self.lists[index].length() {
            assert(self@ =~= old(self)@.reword_current_task(description@));
            return;
        }
        self.lists[index].reword_task(self.current_task_index, description);
        assert(self@ =~= old(self)@.reword_current_task(description@));
    }

    /// Flips the status of the task under the cursor, if it is on one.
    pub fn toggle_current_task(&mut self)
        requires
            old(self)@.wf(),
        ensures
            final(self)@ == old(self)@.toggle_current_task(),
            final(self)@.wf(),
    {
        let index = self.current_list_index;
        self.lists[index].toggle_task(self.current_task_index);
        assert(self@ =~= old(self)@.toggle_current_task());
    }

    /// Sorts the current list: completed tasks first.
    pub fn sort_current_list(&mut self)
        requires
            old(self)@.wf(),
        ensures
            final(self)@ == old(self)@.sort_current_list(),
            final(self)@.wf(),
    {
        let index = self.current_list_index;
        self.lists[index].sort_list();
        assert(self@ =~= old(self)@.sort_current_list());
    }

    /// Sorts every list: completed tasks first.
    pub fn sort_all_lists(&mut self)
        requires
            old(self)@.wf(),
        ensures
            final(self)@ == old(self)@.sort_all_lists(),
            final(self)@.wf(),
    {
        let n = self.lists.len();
        for i in 0..n
            invariant
                n == self.lists@.len(),
                n == old(self)@.lists.len(),
                self.current_list_index == old(self).current_list_index,
                self.current_task_index == old(self).current_task_index,
                self.clipboard == old(self).clipboard,
                forall|j: int| 0 <= j < i ==> #[trigger] self@.lists[j] == old(self)@.lists[j].sorted(),
                forall|j: int| i <= j < n ==> #[trigger] self@.lists[j] == old(self)@.lists[j],
        {
            let ghost before = self@;
            self.lists[i].sort_list();
            assert(self@.lists =~= before.lists.update(i as int, before.lists[i as int].sorted()));
        }
        assert(self@ =~= old(self)@.sort_all_lists());
    }

    /// Pastes the clipboard's tasks as a block, in their order, at the cursor
    /// position plus `offset` (1 pastes below the cursor, 0 above). A
    /// position one past the end puts the block first and a position further
    /// out pastes nothing. The cursor moves by `offset` for each task, except
    /// while the list holds at most one task.
    pub fn paste_clipboard(&mut self, offset: usize)
        requires
            old(self)@.wf(),
            old(self)@.task_index + old(self)@.clipboard.len() * offset <= usize::MAX,
        ensures
            final(self)@ == old(self)@.paste_clipboard(offset as int),
            final(self)@.wf(),
    {
        let ghost start = old(self)@;
        let index = self.current_list_index;
        let n = self.clipboard.len();
        let len = self.lists[index].length();
        let ghost list = start.current();
        if n == 0 {
            proof {
                assert(start.clipboard =~= Seq::<TaskView>::empty());
                if let Some(at) = paste_start(list, start.task_index + offset) {
                    assert(list.tasks.take(at) + start.clipboard + list.tasks.skip(at) =~= list.tasks);
                }
                assert(start.lists.update(index as int, list) =~= start.lists);
            }
            assert(self@ =~= old(self)@.paste_clipboard(offset as int));
            return;
        }
        assert(offset <= n * offset) by (nonlinear_arith)
            requires
                n >= 1,
        ;
        let position = self.current_task_index + offset;
        let landing: Option<usize> = if position <= len {
            Some(position)
        } else if position == len + 1 {
            Some(0)
        } else {
            None
        };
        let moves: usize = match landing {
            Some(_) => if len == 0 { n - 1 } else { n },
            None => if len > 1 { n } else { 0 },
        };
        if let Some(at) = landing {
            for j in 0..n
                invariant
                    n == self.clipboard@.len(),
                    start == old(self)@,
                    index == self.current_list_index,
                    index == start.list_index,
                    self.clipboard == old(self).clipboard,
                    self.current_task_index == old(self).current_task_index,
                    self.lists@.len() == start.lists.len(),
                    start.wf(),
                    list == start.current(),
                    at <= list.tasks.len(),
                    self@.lists == start.lists.update(index as int, self@.current()),
                    self@.current().name == list.name,
                    self@.current().tasks == list.tasks.take(at as int) + start.clipboard.take(j as int)
                        + list.tasks.skip(at as int),
            {
                let task = self.clipboard[j].clone();
                let ghost before = self@;
                let current_len = self.lists[index].length();
                assert(at + j <= current_len);
                self.lists[index].insert_task(at + j, task);
                proof {
                    assert(start.clipboard.take(j + 1) =~= start.clipboard.take(j as int).push(task@));
                    assert(self@.current().tasks =~= list.tasks.take(at as int) + start.clipboard.take(j + 1)
                        + list.tasks.skip(at as int));
                    assert(self@.lists =~= before.lists.update(index as int, self@.current()));
                    assert(self@.lists =~= start.lists.update(index as int, self@.current()));
                }
            }
            assert(start.clipboard.take(n as int) =~= start.clipboard);
        }
        assert(moves * offset <= n * offset) by (nonlinear_arith)
            requires
                moves <= n,
        ;
        self.current_task_index = self.current_task_index + moves * offset;
        assert(self@ =~= old(self)@.paste_clipboard(offset as int));
    }

    /// Puts a copy of the task under the cursor, alone, in the clipboard; does
    /// nothing when the cursor is not on a task.
    pub fn yank_current_task(&mut self)
        requires
            old(self)@.wf(),
        ensures
            final(self)@ == old(self)@.yank_current_task(),
            final(self)@.wf(),
    {
        if let Some(current_task) = self.get_current_task() {
            self.clipboard = Vec::new();
            self.clipboard.push(current_task);
            assert(self@ =~= old(self)@.yank_current_task());
        }
    }

    /// Puts copies of all the current list's tasks in the clipboard.
    pub fn yank_current_list(&mut self)
        requires
            old(self)@.wf(),
        ensures
            final(self)@ == old(self)@.yank_current_list(),
            final(self)@.wf(),
    {
        self.clipboard = self.lists[self.current_list_index].copy_tasks();
        assert(self@ =~= old(self)@.yank_current_list());
    }

    /// Yanks the task under the cursor, deletes it and moves the cursor up one.
    pub fn delete_current_task(&mut self)
        requires
            old(self)@.wf(),
        ensures
            final(self)@ == old(self)@.delete_current_task(),
            final(self)@.wf(),
    {
        self.yank_current_task();
        let index = self.current_list_index;
        self.lists[index].delete_task(self.current_task_index);
        self.current_task_index = self.current_task_index.saturating_sub(1);
        assert(self@ =~= old(self)@.delete_current_task());
    }

    /// Removes the completed tasks of the current list and moves the cursor to the top.
    pub fn delete_completed_tasks(&mut self)
        requires
            old(self)@.wf(),
        ensures
            final(self)@ == old(self)@.delete_completed_tasks(),
            final(self)@.wf(),
    {
        let index = self.current_list_index;
        self.lists[index].delete_completed_tasks();
        self.current_task_index = 0;
        assert(self@ =~= old(self)@.delete_completed_tasks());
    }

    /// Yanks all the tasks of the current list, removes them and moves the
    /// cursor to the top.
    pub fn delete_all_tasks(&mut self)
        requires
            old(self)@.wf(),
        ensures
            final(self)@ == old(self)@.delete_all_tasks(),
            final(self)@.wf(),
    {
        self.yank_current_list();
        let index = self.current_list_index;
        self.lists[index].delete_all_tasks();
        self.current_task_index = 0;
        assert(self@ =~= old(self)@.delete_all_tasks());
    }

    /// Removes the completed tasks of every list and moves the cursor to the top.
    pub fn delete_completed_tasks_on_all_lists(&mut self)
        requires
            old(self)@.wf(),
        ensures
            final(self)@ == old(self)@.delete_completed_tasks_on_all_lists(),
            final(self)@.wf(),
    {
        let n = self.lists.len();
        for i in 0..n
            invariant
                n == self.lists@.len(),
                n == old(self)@.lists.len(),
                self.current_list_index == old(self).current_list_index,
                self.clipboard == old(self).clipboard,
                forall|j: int| 0 <= j < i ==> #[trigger] self@.lists[j] == old(self)@.lists[j].without_completed(),
                forall|j: int| i <= j < n ==> #[trigger] self@.lists[j] == old(self)@.lists[j],
        {
            let ghost before = self@;
            self.lists[i].delete_completed_tasks();
            assert(self@.lists =~= before.lists.update(i as int, before.lists[i as int].without_completed()));
        }
        assert(self@.lists =~= old(self)@.lists.map_values(|l: ListView| l.without_completed()));
        self.current_task_index = 0;
        assert(self@ =~= old(self)@.delete_completed_tasks_on_all_lists());
    }

    /// Moves the cursor to the last task of the current list, which must have one.
    pub fn goto_bottom(&mut self)
        requires
            old(self)@.wf(),
            old(self)@.current().tasks.len() > 0,
        ensures
            final(self)@ == old(self)@.goto_bottom(),
            final(self)@.wf(),
    {
        self.current_task_index = self.lists[self.current_list_index].length() - 1;
    }

    /// Carries out a command that needs nothing more from the user; the
    /// others (see `AppView::perform`) change nothing.
    pub fn perform(&mut self, command: Command)
        requires
            old(self)@.wf(),
            old(self)@.can_perform(command),
        ensures
            final(self)@ == old(self)@.perform(command),
            final(self)@.wf(),
    {
        match command {
            Command::NextTask => self.move_to_next_task(),
            Command::PrevTask => self.move_to_prev_task(),
            Command::NextList => self.move_to_next_list(),
            Command::PrevList => self.move_to_prev_list(),
            Command::MoveTaskToNextList => self.move_current_task_to_next_list(),
            Command::MoveTaskToPrevList => self.move_current_task_to_prev_list(),
            Command::PasteBelow => self.paste_clipboard(1),
            Command::PasteAbove => self.paste_clipboard(0),
            Command::DeleteTask => self.delete_current_task(),
            Command::DeleteAllTasks => self.delete_all_tasks(),
            Command::DeleteCompletedTasks => self.delete_completed_tasks(),
            Command::DeleteCompletedTasksOnAllLists => self.delete_completed_tasks_on_all_lists(),
            Command::YankTask => self.yank_current_task(),
            Command::YankList => self.yank_current_list(),
            Command::SortList => self.sort_current_list(),
            Command::SortAllLists => self.sort_all_lists(),
            Command::GotoBottom => self.goto_bottom(),
            Command::ToggleTask => self.toggle_current_task(),
            Command::GotoList(index) => self.move_to_list(index),
            _ => {},
        }
    }

    /// Whether `command` can be carried out (see `AppView::can_perform`).
    pub fn can_perform(&self, command: Command) -> (ok: bool)
        requires
            self@.wf(),
        ensures
            ok == self@.can_perform(command),
    {
        let count = self.lists.len();
        match command {
            Command::NextTask => self.current_task_index < usize::MAX,
            Command::MoveTaskToNextList => {
                if self.current_list_index + 1 < count {
                    !self.move_strands_cursor(self.current_list_index + 1)
                } else {
                    true
                }
            },
            Command::MoveTaskToPrevList => {
                if self.current_list_index > 0 {
                    !self.move_strands_cursor(self.current_list_index - 1)
                } else {
                    true
                }
            },
            Command::PasteBelow => self.current_task_index <= usize::MAX - self.clipboard.len(),
            Command::GotoBottom => self.lists[self.current_list_index].length() > 0,
            _ => true,
        }
    }

    fn move_strands_cursor(&self, target: usize) -> (strands: bool)
        requires
            self@.wf(),
            target < self@.lists.len(),
        ensures
            strands == self@.move_task_strands_cursor(target as int),
    {
        match self.get_current_task() {
            Some(task) => task.description().as_str().is_empty() && self.lists[target].length() == 0,
            None => false,
        }
    }

    /// The heading shown above the current list: `(i/n) name`, with `i` the
    /// list's position counted from 1 and `n` the number of lists.
    pub fn title(&self) -> (title: String)
        requires
            self@.wf(),
        ensures
            title@ == position_label((self@.list_index + 1) as nat, self@.lists.len()) + self@.current().name,
    {
        let count = self.lists.len();
        let mut title = position_label_text(self.current_list_index + 1, count);
        title.append(self.lists[self.current_list_index].name().as_str());
        title
    }

    /// The prompt for the name of a new list, which goes after the current
    /// one: `(i/n) ` with `i` its position counted from 1 and `n` the number
    /// of lists once it is added.
    pub fn new_list_prompt(&self) -> (prompt: String)
        requires
            self@.wf(),
            self@.lists.len() < usize::MAX,
        ensures
            prompt@ == position_label((self@.list_index + 2) as nat, (self@.lists.len() + 1) as nat),
    {
        let count = self.lists.len();
        position_label_text(self.current_list_index + 2, count + 1)
    }

    /// The prompt for the current list's new name: `(i/n) ` with `i` its
    /// position counted from 1 and `n` the number of lists.
    pub fn rename_prompt(&self) -> (prompt: String)
        requires
            self@.wf(),
        ensures
            prompt@ == position_label((self@.list_index + 1) as nat, self@.lists.len()),
    {
        let count = self.lists.len();
        position_label_text(self.current_list_index + 1, count)
    }

    /// The list the cursor is on.
    pub fn current_list(&self) -> (list: &List)
        requires
            self@.wf(),
        ensures
            list@ == self@.current(),
    {
        &self.lists[self.current_list_index]
    }

    /// The number of lists.
    pub fn list_count(&self) -> (count: usize)
        ensures
            count == self@.lists.len(),
    {
        self.lists.len()
    }

    /// The position of the list the cursor is on, counted from 0.
    pub fn current_list_index(&self) -> (index: usize)
        ensures
            index == self@.list_index,
    {
        self.current_list_index
    }

    /// The position of the task the cursor is on, counted from 0.
    pub fn current_task_index(&self) -> (index: usize)
        ensures
            index == self@.task_index,
    {
        self.current_task_index
    }

    /// Copies of the lists, to be saved.
    pub fn lists(&self) -> (lists: Vec<List>)
        ensures
            list_views(lists@) == self@.lists,
    {
        let mut copies: Vec<List> = Vec::new();
        let n = self.lists.len();
        for i in 0..n
            invariant
                n == self.lists@.len(),
                list_views(copies@) == list_views(self.lists@).take(i as int),
        {
            let copy = self.lists[i].clone();
            proof {
                assert(list_views(copies@.push(copy)) =~= list_views(copies@).push(copy@));
                assert(list_views(copies@).push(copy@) =~= list_views(self.lists@).take(i + 1));
            }
            copies.push(copy);
        }
        assert(list_views(self.lists@).take(n as int) =~= list_views(self.lists@));
        copies
    }
}

/// The number of tasks over all the lists.
pub open spec fn task_count(lists: Seq<ListView>) -> int
    decreases lists.len(),
{
    if lists.len() == 0 {
        0
    } else {
        task_count(lists.drop_last()) + lists.last().tasks.len()
    }
}

proof fn lemma_task_count_update(lists: Seq<ListView>, index: int, list: ListView)
    requires
        0 <= index < lists.len(),
    ensures
        task_count(lists.update(index, list)) == task_count(lists) - lists[index].tasks.len()
            + list.tasks.len(),
    decreases lists.len(),
{
    let updated = lists.update(index, list);
    if index == lists.len() - 1 {
        assert(updated.drop_last() =~= lists.drop_last());
    } else {
        lemma_task_count_update(lists.drop_last(), index, list);
        assert(updated.drop_last() =~= lists.drop_last().update(index, list));
    }
}

/// Moving the task under the cursor to another list keeps every task: the
/// number of tasks over all lists stays the same and the cursor ends on a
/// task with the same description and status, in the target list.
proof fn lemma_move_keeps_task(s: AppView, target: int)
    requires
        s.wf(),
        0 <= target < s.lists.len(),
        target != s.list_index,
        s.current_task() matches Some(t) && t.description.len() > 0,
    ensures
        task_count(s.move_current_task_to(target).lists) == task_count(s.lists),
        s.move_current_task_to(target).current_task() == s.current_task(),
        s.move_current_task_to(target).list_index == target,
        s.move_current_task_to(target).wf(),
{
    let task = s.current_task().unwrap();
    let source = s.current().with_task_deleted(s.task_index);
    let added = s.lists[target].with_task_added(task.description);
    let last = added.tasks.len() - 1;
    let landed = if task.completed { added.with_task_toggled(last) } else { added };
    lemma_task_count_update(s.lists, s.list_index, source);
    lemma_task_count_update(s.lists.update(s.list_index, source), target, landed);
    assert(landed.tasks[last] == task);
}

/// Moving the task under the cursor to the next list keeps every task, and
/// the cursor follows it (see the conditions under which it moves).
pub proof fn lemma_move_to_next_list_keeps_task(s: AppView)
    requires
        s.wf(),
        s.list_index + 1 < s.lists.len(),
        s.current_task() matches Some(t) && t.description.len() > 0,
    ensures
        task_count(s.move_current_task_to_next_list().lists) == task_count(s.lists),
        s.move_current_task_to_next_list().current_task() == s.current_task(),
        s.move_current_task_to_next_list().list_index == s.list_index + 1,
{
    lemma_move_keeps_task(s, s.list_index + 1);
}

/// Moving the task under the cursor to the previous list keeps every task,
/// and the cursor follows it.
pub proof fn lemma_move_to_prev_list_keeps_task(s: AppView)
    requires
        s.wf(),
        s.list_index > 0,
        s.current_task() matches Some(t) && t.description.len() > 0,
    ensures
        task_count(s.move_current_task_to_prev_list().lists) == task_count(s.lists),
        s.move_current_task_to_prev_list().current_task() == s.current_task(),
        s.move_current_task_to_prev_list().list_index == s.list_index - 1,
{
    lemma_move_keeps_task(s, s.list_index - 1);
}

/// Moving a task to the next list and then back to the previous one returns
/// it, with its status, to the list it came from, as that list's last task.
pub proof fn lemma_move_there_and_back(s: AppView)
    requires
        s.wf(),
        s.list_index + 1 < s.lists.len(),
        s.current_task() matches Some(t) && t.description.len() > 0,
    ensures
        s.move_current_task_to_next_list().move_current_task_to_prev_list().list_index == s.list_index,
        s.move_current_task_to_next_list().move_current_task_to_prev_list().current_task()
            == s.current_task(),
        s.move_current_task_to_next_list().move_current_task_to_prev_list().task_index
            == s.current().tasks.len() - 1,
        task_count(s.move_current_task_to_next_list().move_current_task_to_prev_list().lists)
            == task_count(s.lists),
{
    lemma_move_to_next_list_keeps_task(s);
    let there = s.move_current_task_to_next_list();
    lemma_move_to_prev_list_keeps_task(there);
    let source = s.current().with_task_deleted(s.task_index);
    assert(there.lists[s.list_index] == source);
}

/// Deleting the task under the cursor and pasting below gives back the lists
/// and the cursor, when the cursor was not on the first task, or was on the
/// only one.
pub proof fn lemma_delete_then_paste_below(s: AppView)
    requires
        s.wf(),
        s.current_task() is Some,
        s.task_index > 0 || s.current().tasks.len() == 1,
    ensures
        s.delete_current_task().paste_clipboard(1).lists == s.lists,
        s.delete_current_task().paste_clipboard(1).list_index == s.list_index,
        s.delete_current_task().paste_clipboard(1).task_index == s.task_index,
        s.delete_current_task().paste_clipboard(1).clipboard == seq![s.current_task().unwrap()],
{
    let task = s.current_task().unwrap();
    let deleted = s.delete_current_task();
    let list = s.current();
    let shorter = list.with_task_deleted(s.task_index);
    assert(deleted.current() == shorter);
    assert(deleted.clipboard == seq![task]);
    if s.task_index > 0 {
        assert(shorter.tasks.take(s.task_index) + seq![task] + shorter.tasks.skip(s.task_index) =~= list.tasks);
    } else {
        assert(shorter.tasks.take(0) + seq![task] + shorter.tasks.skip(0) =~= list.tasks);
    }
    assert(s.lists.update(s.list_index, shorter).update(s.list_index, list) =~= s.lists);
}

/// Pasting puts the clipboard's tasks, in their order, right below the task
/// under the cursor (offset 1) or right above it (offset 0), when that place
/// is within the list; pasting above leaves the cursor on the first pasted
/// task.
pub proof fn lemma_paste_keeps_block_order(s: AppView, offset: int)
    requires
        s.wf(),
        offset == 0 || offset == 1,
        s.task_index + offset <= s.current().tasks.len(),
    ensures
        s.paste_clipboard(offset).current().tasks == s.current().tasks.take(s.task_index + offset)
            + s.clipboard + s.current().tasks.skip(s.task_index + offset),
        s.paste_clipboard(offset).lists.len() == s.lists.len(),
        offset == 0 ==> s.paste_clipboard(offset).task_index == s.task_index,
{
    let moves = paste_moves(s.current().tasks.len() as int, s.clipboard.len() as int, true);
    assert(offset == 0 ==> moves * offset == 0) by (nonlinear_arith);
}

/// Sorting every list (`S`) sorts each list on its own: list `i` of the
/// result is list `i` sorted, for every `i`, with the same tasks and every
/// completed task before every open one; the cursor and the clipboard stay.
pub proof fn lemma_sort_all_lists_sorts_each_list(s: AppView)
    ensures
        s.sort_all_lists().lists.len() == s.lists.len(),
        forall|i: int| 0 <= i < s.lists.len() ==> #[trigger] s.sort_all_lists().lists[i] == s.lists[i].sorted(),
        forall|i: int| 0 <= i < s.lists.len()
            ==> (#[trigger] s.sort_all_lists().lists[i]).tasks.to_multiset() == s.lists[i].tasks.to_multiset(),
        forall|i: int, a: int, b: int|
            0 <= i < s.lists.len() && 0 <= a < b < s.sort_all_lists().lists[i].tasks.len()
                && (#[trigger] s.sort_all_lists().lists[i].tasks[b]).completed
                ==> (#[trigger] s.sort_all_lists().lists[i].tasks[a]).completed,
        s.sort_all_lists().list_index == s.list_index,
        s.sort_all_lists().task_index == s.task_index,
        s.sort_all_lists().clipboard == s.clipboard,
{
    let r = s.sort_all_lists();
    assert forall|i: int| 0 <= i < s.lists.len() implies {
        &&& (#[trigger] r.lists[i]).tasks.to_multiset() == s.lists[i].tasks.to_multiset()
        &&& forall|a: int, b: int| 0 <= a < b < r.lists[i].tasks.len() && (#[trigger] r.lists[i].tasks[b]).completed
            ==> (#[trigger] r.lists[i].tasks[a]).completed
    } by {
        lemma_sort_rearranges(s.lists[i]);
    }
}

/// Sorting the current list (`s`) sorts that list and leaves every other list,
/// the cursor and the clipboard as they were.
pub proof fn lemma_sort_current_list_sorts_only_it(s: AppView)
    requires
        s.wf(),
    ensures
        s.sort_current_list().lists.len() == s.lists.len(),
        s.sort_current_list().lists[s.list_index] == s.lists[s.list_index].sorted(),
        forall|i: int| 0 <= i < s.lists.len() && i != s.list_index
            ==> #[trigger] s.sort_current_list().lists[i] == s.lists[i],
        s.sort_current_list().list_index == s.list_index,
        s.sort_current_list().task_index == s.task_index,
        s.sort_current_list().clipboard == s.clipboard,
{
}

/// Deleting the completed tasks of all lists (`dC`) does it to every list,
/// wherever the cursor is: list `i` of the result is list `i` without its
/// completed tasks, so no list holds a completed task and every open task is
/// kept; the cursor goes to the top of the same list.
pub proof fn lemma_delete_completed_on_all_lists_clears_every_list(s: AppView)
    ensures
        s.delete_completed_tasks_on_all_lists().lists.len() == s.lists.len(),
        forall|i: int| 0 <= i < s.lists.len()
            ==> #[trigger] s.delete_completed_tasks_on_all_lists().lists[i] == s.lists[i].without_completed(),
        forall|i: int, j: int|
            0 <= i < s.lists.len() && 0 <= j < s.delete_completed_tasks_on_all_lists().lists[i].tasks.len()
                ==> !(#[trigger] s.delete_completed_tasks_on_all_lists().lists[i].tasks[j]).completed,
        forall|i: int, j: int|
            0 <= i < s.lists.len() && 0 <= j < s.lists[i].tasks.len() && !(#[trigger] s.lists[i].tasks[j]).completed
                ==> s.delete_completed_tasks_on_all_lists().lists[i].tasks.contains(s.lists[i].tasks[j]),
        s.delete_completed_tasks_on_all_lists().list_index == s.list_index,
        s.delete_completed_tasks_on_all_lists().task_index == 0,
        s.delete_completed_tasks_on_all_lists().clipboard == s.clipboard,
{
    let r = s.delete_completed_tasks_on_all_lists();
    assert forall|i: int, j: int|
        0 <= i < s.lists.len() && 0 <= j < r.lists[i].tasks.len() implies !(#[trigger] r.lists[i].tasks[j]).completed by {
        lemma_without_completed_keeps_open(s.lists[i]);
    }
    assert forall|i: int, j: int|
        0 <= i < s.lists.len() && 0 <= j < s.lists[i].tasks.len() && !(#[trigger] s.lists[i].tasks[j]).completed
            implies r.lists[i].tasks.contains(s.lists[i].tasks[j]) by {
        lemma_without_completed_keeps_open(s.lists[i]);
    }
}

/// Deleting the completed tasks of the current list (`dc`) clears that list
/// alone and moves the cursor to its top.
pub proof fn lemma_delete_completed_tasks_clears_only_current(s: AppView)
    requires
        s.wf(),
    ensures
        s.delete_completed_tasks().lists.len() == s.lists.len(),
        s.delete_completed_tasks().lists[s.list_index] == s.lists[s.list_index].without_completed(),
        forall|i: int| 0 <= i < s.lists.len() && i != s.list_index
            ==> #[trigger] s.delete_completed_tasks().lists[i] == s.lists[i],
        s.delete_completed_tasks().list_index == s.list_index,
        s.delete_completed_tasks().task_index == 0,
        s.delete_completed_tasks().clipboard == s.clipboard,
{
}

/// Creating a task (`n`) adds it to the list the cursor is on and to no
/// other list; the cursor and the clipboard stay.
pub proof fn lemma_create_new_task_adds_to_current_list(s: AppView, description: Seq<char>)
    requires
        s.wf(),
    ensures
        s.create_new_task(description).lists.len() == s.lists.len(),
        s.create_new_task(description).lists[s.list_index] == s.lists[s.list_index].with_task_added(description),
        forall|i: int| 0 <= i < s.lists.len() && i != s.list_index
            ==> #[trigger] s.create_new_task(description).lists[i] == s.lists[i],
        s.create_new_task(description).list_index == s.list_index,
        s.create_new_task(description).task_index == s.task_index,
        s.create_new_task(description).clipboard == s.clipboard,
{
}

/// Rewording (`r`) changes the task under the cursor, in the current list
/// only.
pub proof fn lemma_reword_changes_current_task(s: AppView, description: Seq<char>)
    requires
        s.wf(),
    ensures
        s.reword_current_task(description).lists.len() == s.lists.len(),
        s.reword_current_task(description).lists[s.list_index] == s.lists[s.list_index].with_task_reworded(
            s.task_index,
            description,
        ),
        forall|i: int| 0 <= i < s.lists.len() && i != s.list_index
            ==> #[trigger] s.reword_current_task(description).lists[i] == s.lists[i],
        s.reword_current_task(description).list_index == s.list_index,
        s.reword_current_task(description).task_index == s.task_index,
        s.reword_current_task(description).clipboard == s.clipboard,
{
}

/// Space flips the status of the task under the cursor, in the current list
/// only.
pub proof fn lemma_toggle_changes_current_task(s: AppView)
    requires
        s.wf(),
    ensures
        s.toggle_current_task().lists.len() == s.lists.len(),
        s.toggle_current_task().lists[s.list_index] == s.lists[s.list_index].with_task_toggled(s.task_index),
        forall|i: int| 0 <= i < s.lists.len() && i != s.list_index
            ==> #[trigger] s.toggle_current_task().lists[i] == s.lists[i],
        s.toggle_current_task().list_index == s.list_index,
        s.toggle_current_task().task_index == s.task_index,
        s.toggle_current_task().clipboard == s.clipboard,
{
}

/// Renaming (`R`) renames the current list only.
pub proof fn lemma_rename_changes_current_list(s: AppView, name: Seq<char>)
    requires
        s.wf(),
    ensures
        s.rename_current_list(name).lists.len() == s.lists.len(),
        s.rename_current_list(name).lists[s.list_index].name == (if name.len() == 0 {
            s.lists[s.list_index].name
        } else {
            name
        }),
        s.rename_current_list(name).lists[s.list_index].tasks == s.lists[s.list_index].tasks,
        forall|i: int| 0 <= i < s.lists.len() && i != s.list_index
            ==> #[trigger] s.rename_current_list(name).lists[i] == s.lists[i],
        s.rename_current_list(name).list_index == s.list_index,
        s.rename_current_list(name).task_index == s.task_index,
{
}

/// Deleting the task under the cursor (`dd`) removes it from the current list
/// only, puts it alone in the clipboard and moves the cursor up one.
pub proof fn lemma_delete_current_task_removes_it(s: AppView)
    requires
        s.wf(),
        s.current_task() is Some,
    ensures
        s.delete_current_task().lists.len() == s.lists.len(),
        s.delete_current_task().lists[s.list_index] == s.lists[s.list_index].with_task_deleted(s.task_index),
        forall|i: int| 0 <= i < s.lists.len() && i != s.list_index
            ==> #[trigger] s.delete_current_task().lists[i] == s.lists[i],
        s.delete_current_task().clipboard == seq![s.current().tasks[s.task_index]],
        s.delete_current_task().list_index == s.list_index,
        s.delete_current_task().task_index == if s.task_index > 0 { s.task_index - 1 } else { 0 },
{
}

/// Moving the cursor between tasks (`j`/`k`) changes nothing but the task
/// position, which moves by one within the current list.
pub proof fn lemma_task_moves_are_steps(s: AppView)
    requires
        s.wf(),
    ensures
        s.move_to_next_task().lists == s.lists && s.move_to_prev_task().lists == s.lists,
        s.move_to_next_task().list_index == s.list_index && s.move_to_prev_task().list_index == s.list_index,
        s.task_index + 1 < s.current().tasks.len() ==> s.move_to_next_task().task_index == s.task_index + 1,
        s.task_index + 1 >= s.current().tasks.len() ==> s.move_to_next_task().task_index == s.task_index,
        s.task_index > 0 ==> s.move_to_prev_task().task_index == s.task_index - 1,
        s.task_index == 0 ==> s.move_to_prev_task().task_index == 0,
{
}

/// Moving the cursor between lists (`l`/`h`, `1`-`9`) changes nothing but the
/// cursor: `l` goes to the next list's first task, `h` to the previous list,
/// and a number to the list with that number, if there is one.
pub proof fn lemma_list_moves_are_steps(s: AppView, index: int)
    requires
        s.wf(),
        0 <= index,
    ensures
        s.move_to_next_list().lists == s.lists && s.move_to_prev_list().lists == s.lists
            && s.move_to_list(index).lists == s.lists,
        s.list_index + 1 < s.lists.len() ==> s.move_to_next_list().list_index == s.list_index + 1
            && s.move_to_next_list().task_index == 0,
        s.list_index + 1 >= s.lists.len() ==> s.move_to_next_list() == s,
        s.move_to_prev_list().list_index == if s.list_index > 0 { s.list_index - 1 } else { 0 },
        index < s.lists.len() ==> s.move_to_list(index).list_index == index,
        index >= s.lists.len() ==> s.move_to_list(index) == s,
        s.move_to_list(index).task_index == s.task_index,
{
}

/// Deleting all tasks (`dA`) empties the current list alone, yanks its tasks
/// in order and moves the cursor to the top.
pub proof fn lemma_delete_all_tasks_yanks_current_list(s: AppView)
    requires
        s.wf(),
    ensures
        s.delete_all_tasks().lists.len() == s.lists.len(),
        s.delete_all_tasks().lists[s.list_index].tasks.len() == 0,
        s.delete_all_tasks().lists[s.list_index].name == s.lists[s.list_index].name,
        forall|i: int| 0 <= i < s.lists.len() && i != s.list_index
            ==> #[trigger] s.delete_all_tasks().lists[i] == s.lists[i],
        s.delete_all_tasks().clipboard == s.lists[s.list_index].tasks,
        s.delete_all_tasks().list_index == s.list_index,
        s.delete_all_tasks().task_index == 0,
{
}

/// Creating a list (`N`) with a non-empty name puts a new empty list right
/// after the current one and moves the cursor to it; the other lists keep
/// their order. An empty name changes nothing.
pub proof fn lemma_create_new_list_inserts_after_current(s: AppView, name: Seq<char>)
    requires
        s.wf(),
    ensures
        name.len() == 0 ==> s.create_new_list(name) == s,
        name.len() > 0 ==> {
            let r = s.create_new_list(name);
            &&& r.lists.len() == s.lists.len() + 1
            &&& r.list_index == s.list_index + 1
            &&& r.lists[s.list_index + 1].name == name
            &&& r.lists[s.list_index + 1].tasks.len() == 0
            &&& forall|i: int| 0 <= i <= s.list_index ==> #[trigger] r.lists[i] == s.lists[i]
            &&& forall|i: int| s.list_index < i < s.lists.len() ==> #[trigger] r.lists[i + 1] == s.lists[i]
            &&& r.task_index == s.task_index
        },
{
}

/// Deleting the current list (`D`) removes it, keeps the others in order and
/// moves the cursor to the list before it; the only list is never deleted.
pub proof fn lemma_delete_current_list_removes_it(s: AppView)
    requires
        s.wf(),
    ensures
        s.lists.len() == 1 ==> s.delete_current_list() == s,
        s.lists.len() > 1 ==> {
            let r = s.delete_current_list();
            &&& r.lists.len() == s.lists.len() - 1
            &&& forall|i: int| 0 <= i < s.list_index ==> #[trigger] r.lists[i] == s.lists[i]
            &&& forall|i: int| s.list_index <= i < r.lists.len() ==> #[trigger] r.lists[i] == s.lists[i + 1]
            &&& r.list_index == if s.list_index > 0 { s.list_index - 1 } else { 0 }
            &&& r.wf()
        },
{
}

/// Yanking (`yy`, `yA`) changes nothing but the clipboard: the task under the
/// cursor alone, or the current list's tasks in order.
pub proof fn lemma_yank_fills_clipboard(s: AppView)
    requires
        s.wf(),
    ensures
        s.yank_current_list().lists == s.lists && s.yank_current_task().lists == s.lists,
        s.yank_current_list().clipboard == s.lists[s.list_index].tasks,
        0 <= s.task_index < s.lists[s.list_index].tasks.len() ==> s.yank_current_task().clipboard == seq![
            s.lists[s.list_index].tasks[s.task_index],
        ],
        !(0 <= s.task_index < s.lists[s.list_index].tasks.len()) ==> s.yank_current_task() == s,
        s.yank_current_task().task_index == s.task_index && s.yank_current_list().task_index == s.task_index,
{
}

} // verus!
