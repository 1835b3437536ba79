//! Tasks and named lists of tasks.

use colored::Colorize;
use vstd::prelude::*;

verus! {

/// The check mark that shows a completed task.
pub open spec fn check_mark() -> Seq<char> {
    seq!['\u{2714}']
}

/// `text` wrapped in the ANSI sequences that turn text bright green and back.
pub open spec fn in_bright_green(text: Seq<char>) -> Seq<char> {
    seq!['\u{1b}', '[', '9', '2', 'm'] + text + seq!['\u{1b}', '[', '0', 'm']
}

/// How a task is shown, given the text of the mark for a completed task:
/// `[mark] description` when completed, `[ ] description` otherwise.
pub open spec fn rendered(task: TaskView, mark: Seq<char>) -> Seq<char> {
    status_box(task.completed, mark) + task.description
}

/// The box in front of a task: `[mark] ` when completed, `[ ] ` otherwise.
pub open spec fn status_box(completed: bool, mark: Seq<char>) -> Seq<char> {
    if completed {
        seq!['['] + mark + seq![']', ' ']
    } else {
        seq!['[', ' ', ']', ' ']
    }
}

/// colored's `bright_green` on `text`, rendered with `to_string`. colored
/// writes `ESC[92m` before the text and `ESC[0m` after it when it decides to
/// colour, which depends on the environment and the terminal, and the bare
/// text otherwise; which of the two comes back is left open. Text without an
/// escape character holds no reset sequence, which colored would otherwise
/// follow with the colour sequence again.
#[verifier::external_body]
fn bright_green(text: &str) -> (coloured: String)
    requires
        !text@.contains('\u{1b}'),
    ensures
        coloured@ == text@ || coloured@ == in_bright_green(text@),
{
    text.bright_green().to_string()
}

/// What a task is: its description and whether it is done.
#[verifier::ext_equal]
pub struct TaskView {
    pub description: Seq<char>,
    pub completed: bool,
}

impl TaskView {
    /// The same task with its status flipped.
    pub open spec fn toggled(self) -> TaskView {
        TaskView { description: self.description, completed: !self.completed }
    }
}

/// A task that has just been written down: not yet completed.
pub open spec fn fresh_task(description: Seq<char>) -> TaskView {
    TaskView { description, completed: false }
}

/// The test that picks out completed tasks.
pub open spec fn is_done() -> spec_fn(TaskView) -> bool {
    |t: TaskView| t.completed
}

/// The test that picks out tasks that are still to do.
pub open spec fn is_open() -> spec_fn(TaskView) -> bool {
    |t: TaskView| !t.completed
}

/// What a list is: a name and its tasks in order.
#[verifier::ext_equal]
pub struct ListView {
    pub name: Seq<char>,
    pub tasks: Seq<TaskView>,
}

/// An empty list with the given name.
pub open spec fn empty_list(name: Seq<char>) -> ListView {
    ListView { name, tasks: Seq::empty() }
}

impl ListView {
    pub open spec fn with_tasks(self, tasks: Seq<TaskView>) -> ListView {
        ListView { name: self.name, tasks }
    }

    /// Flips the status of the task at `index`; an index out of range changes nothing.
    pub open spec fn with_task_toggled(self, index: int) -> ListView {
        if 0 <= index < self.tasks.len() {
            self.with_tasks(self.tasks.update(index, self.tasks[index].toggled()))
        } else {
            self
        }
    }

    /// Renames the list, unless the new name is empty.
    pub open spec fn renamed(self, new_name: Seq<char>) -> ListView {
        if new_name.len() == 0 {
            self
        } else {
            ListView { name: new_name, tasks: self.tasks }
        }
    }

    /// Appends a fresh task, unless its description is empty.
    pub open spec fn with_task_added(self, description: Seq<char>) -> ListView {
        if description.len() == 0 {
            self
        } else {
            self.with_tasks(self.tasks.push(fresh_task(description)))
        }
    }

    /// Appends `task`, unless its description is empty.
    pub open spec fn with_task_appended(self, task: TaskView) -> ListView {
        if task.description.len() == 0 {
            self
        } else {
            self.with_tasks(self.tasks.push(task))
        }
    }

    /// Inserts `task` at `index`; an index one past the end puts it first,
    /// and an index further out changes nothing.
    pub open spec fn with_task_inserted(self, index: int, task: TaskView) -> ListView {
        if index > self.tasks.len() {
            if index - self.tasks.len() == 1 {
                self.with_tasks(self.tasks.insert(0, task))
            } else {
                self
            }
        } else {
            self.with_tasks(self.tasks.insert(index, task))
        }
    }

    /// Gives the task at `index` a new description, unless the index is out
    /// of range or the description is empty.
    pub open spec fn with_task_reworded(self, index: int, description: Seq<char>) -> ListView {
        if 0 <= index < self.tasks.len() && description.len() > 0 {
            self.with_tasks(
                self.tasks.update(
                    index,
                    TaskView { description, completed: self.tasks[index].completed },
                ),
            )
        } else {
            self
        }
    }

    /// Removes the task at `index`; an index out of range changes nothing.
    pub open spec fn with_task_deleted(self, index: int) -> ListView {
        if 0 <= index < self.tasks.len() {
            self.with_tasks(self.tasks.remove(index))
        } else {
            self
        }
    }

    /// Keeps only the tasks that are still to do, in order.
    pub open spec fn without_completed(self) -> ListView {
        self.with_tasks(self.tasks.filter(is_open()))
    }

    /// Removes every task.
    pub open spec fn cleared(self) -> ListView {
        self.with_tasks(Seq::empty())
    }

    /// Completed tasks first, then the rest, each group in its former order.
    pub open spec fn sorted(self) -> ListView {
        self.with_tasks(self.tasks.filter(is_done()) + self.tasks.filter(is_open()))
    }
}

/// A task: a description and whether it has been completed.
#[derive(Debug)]
pub struct Task {
    description: String,
    completed: bool,
}

impl View for Task {
    type V = TaskView;

    closed spec fn view(&self) -> TaskView {
        TaskView { description: self.description@, completed: self.completed }
    }
}

/// The models of a sequence of tasks.
pub open spec fn task_views(tasks: Seq<Task>) -> Seq<TaskView> {
    tasks.map_values(|t: Task| t@)
}

proof fn lemma_task_views_push(tasks: Seq<Task>, t: Task)
    ensures
        task_views(tasks.push(t)) == task_views(tasks).push(t@),
{
    assert(task_views(tasks.push(t)) =~= task_views(tasks).push(t@));
}

impl Clone for Task {
    fn clone(&self) -> (copy: Task)
        ensures
            copy == *self,
    {
        Task { description: self.description.clone(), completed: self.completed }
    }
}

impl Task {
    /// Creates a task that is not completed.
    pub fn new(description: &str) -> (task: Task)
        ensures
            task@ == fresh_task(description@),
    {
        Task { description: description.to_owned(), completed: false }
    }

    /// Flips whether the task is completed.
    pub fn toggle_status(&mut self)
        ensures
            final(self)@ == old(self)@.toggled(),
    {
        self.completed = !self.completed;
    }

    /// Whether the task is completed.
    pub fn status(&self) -> (done: bool)
        ensures
            done == self@.completed,
    {
        self.completed
    }

    /// The task's description.
    pub fn description(&self) -> (text: String)
        ensures
            text@ == self@.description,
    {
        self.description.clone()
    }

    /// How the task is shown: `[✔] description` when completed, with the
    /// mark coloured bright green where the terminal allows it, and
    /// `[ ] description` otherwise.
    pub fn to_string(&self) -> (text: String)
        ensures
            text@ == rendered(self@, check_mark()) || text@ == rendered(self@, in_bright_green(check_mark())),
    {
        let mut text = self.status_box();
        text.append(self.description.as_str());
        text
    }

    /// The box in front of the task's description: `[✔] ` when completed,
    /// with the mark coloured bright green where the terminal allows it, and
    /// `[ ] ` otherwise.
    pub fn status_box(&self) -> (text: String)
        ensures
            text@ == status_box(self@.completed, check_mark())
                || text@ == status_box(self@.completed, in_bright_green(check_mark())),
    {
        let plain = "\u{2714}";
        proof {
            reveal_strlit("\u{2714}");
            assert(plain@ =~= check_mark());
        }
        let mark = bright_green(plain);
        self.status_box_with_mark(mark.as_str())
    }

    /// The box in front of the task's description when a completed task carries `mark`.
    pub fn status_box_with_mark(&self, mark: &str) -> (text: String)
        ensures
            text@ == status_box(self@.completed, mark@),
    {
        let mut text = String::new();
        if self.completed {
            text.append("[");
            text.append(mark);
            text.append("] ");
        } else {
            text.append("[ ] ");
        }
        proof {
            reveal_strlit("[");
            reveal_strlit("] ");
            reveal_strlit("[ ] ");
        }
        assert(text@ =~= status_box(self@.completed, mark@));
        text
    }

    /// How the task is shown when a completed task carries `mark`.
    pub fn render_with_mark(&self, mark: &str) -> (text: String)
        ensures
            text@ == rendered(self@, mark@),
    {
        let mut text = self.status_box_with_mark(mark);
        text.append(self.description.as_str());
        text
    }

    pub(crate) fn set_description(&mut self, description: &str)
        ensures
            final(self)@ == (TaskView { description: description@, completed: old(self)@.completed }),
    {
        self.description = description.to_owned();
    }
}

/// A named group of related tasks.
#[derive(Debug)]
pub struct List {
    tasks: Vec<Task>,
    name: String,
}

impl View for List {
    type V = ListView;

    closed spec fn view(&self) -> ListView {
        ListView { name: self.name@, tasks: task_views(self.tasks@) }
    }
}

/// The models of a sequence of lists.
pub open spec fn list_views(lists: Seq<List>) -> Seq<ListView> {
    lists.map_values(|l: List| l@)
}

impl Clone for List {
    fn clone(&self) -> (copy: List)
        ensures
            copy@ == self@,
    {
        let tasks = self.tasks.clone();
        assert(tasks@ =~= self.tasks@);
        List { tasks, name: self.name.clone() }
    }
}

impl List {
    /// Creates an empty list; fails when `name` is empty.
    pub fn new(name: &str) -> (result: Result<List, ()>)
        ensures
            result is Err <==> name@.len() == 0,
            result matches Ok(list) ==> list@ == empty_list(name@),
    {
        if name.is_empty() {
            return Err(());
        }
        let list = List { tasks: Vec::new(), name: name.to_owned() };
        assert(list@.tasks =~= Seq::<TaskView>::empty());
        Ok(list)
    }

    /// The list's name.
    pub fn name(&self) -> (name: String)
        ensures
            name@ == self@.name,
    {
        self.name.clone()
    }

    /// An iterator over the list's tasks, in order.
    pub fn tasks_iter(&self) -> (iter: std::slice::Iter<'_, Task>)
        ensures
            task_views(vstd::std_specs::iter::IteratorSpec::remaining(&iter).unref()) == self@.tasks,
            task_views(vstd::std_specs::slice::into_iter_elts(iter)) == self@.tasks,
            vstd::std_specs::iter::IteratorSpec::decrease(&iter) is Some,
            vstd::std_specs::iter::IteratorSpec::initial_value_relation(&iter, &iter),
    {
        let iter = self.tasks.iter();
        assert(vstd::std_specs::iter::IteratorSpec::remaining(&iter).unref() =~= self.tasks@);
        iter
    }

    /// Flips the status of the task at `index`; does nothing when `index` is out of range.
    pub fn toggle_task(&mut self, index: usize)
        ensures
            final(self)@ == old(self)@.with_task_toggled(index as int),
    {
        if index >= self.length() {
            return;
        }
        self.tasks[index].toggle_status();
        assert(self@.tasks =~= old(self)@.tasks.update(index as int, old(self)@.tasks[index as int].toggled()));
    }

    /// The number of tasks in the list.
    pub fn length(&self) -> (count: usize)
        ensures
            count == self@.tasks.len(),
    {
        self.tasks.len()
    }

    /// Renames the list; does nothing when `new_name` is empty.
    pub fn rename_list(&mut self, new_name: &str)
        ensures
            final(self)@ == old(self)@.renamed(new_name@),
    {
        if new_name.is_empty() {
            return;
        }
        self.name = new_name.to_owned();
    }

    /// Appends a task that is not completed; does nothing when `description` is empty.
    pub fn add_task(&mut self, description: &str)
        ensures
            final(self)@ == old(self)@.with_task_added(description@),
    {
        if description.is_empty() {
            return;
        }
        let task = Task::new(description);
        proof {
            lemma_task_views_push(self.tasks@, task);
        }
        self.tasks.push(task);
    }

    /// Inserts `task` at `index`. An index one past the end puts the task
    /// first; an index further out does nothing.
    pub fn insert_task(&mut self, index: usize, task: Task)
        ensures
            final(self)@ == old(self)@.with_task_inserted(index as int, task@),
    {
        if index > self.tasks.len() {
            if index - self.tasks.len() == 1 {
                self.tasks.insert(0, task);
                assert(self@.tasks =~= old(self)@.tasks.insert(0, task@));
            }
            return;
        }
        self.tasks.insert(index, task);
        assert(self@.tasks =~= old(self)@.tasks.insert(index as int, task@));
    }

    /// Changes the description of the task at `index`; does nothing when the
    /// index is out of range or the description is empty.
    pub fn reword_task(&mut self, index: usize, description: &str)
        ensures
            final(self)@ == old(self)@.with_task_reworded(index as int, description@),
    {
        if index >= self.length() || description.is_empty() {
            return;
        }
        self.tasks[index].set_description(description);
        assert(self@.tasks =~= old(self)@.tasks.update(
            index as int,
            TaskView { description: description@, completed: old(self)@.tasks[index as int].completed },
        ));
    }

    /// Removes the task at `index`; does nothing when the index is out of range.
    pub fn delete_task(&mut self, index: usize)
        ensures
            final(self)@ == old(self)@.with_task_deleted(index as int),
    {
        if index >= self.length() {
            return;
        }
        self.tasks.remove(index);
        assert(self@.tasks =~= old(self)@.tasks.remove(index as int));
    }

    /// Removes the completed tasks, keeping the others in order.
    pub fn delete_completed_tasks(&mut self)
        ensures
            final(self)@ == old(self)@.without_completed(),
    {
        let (_done, open) = self.split_by_status();
        self.tasks = open;
    }

    /// Removes every task.
    pub fn delete_all_tasks(&mut self)
        ensures
            final(self)@ == old(self)@.cleared(),
    {
        self.tasks = Vec::new();
        assert(self@.tasks =~= Seq::<TaskView>::empty());
    }

    /// Puts the completed tasks first, followed by the others; each group keeps its order.
    pub fn sort_list(&mut self)
        ensures
            final(self)@ == old(self)@.sorted(),
    {
        let (mut done, mut open) = self.split_by_status();
        let ghost d = done@;
        let ghost o = open@;
        done.append(&mut open);
        assert(task_views(done@) =~= task_views(d) + task_views(o));
        self.tasks = done;
    }

    /// Copies of the completed tasks and of the open ones, each in order.
    fn split_by_status(&self) -> (parts: (Vec<Task>, Vec<Task>))
        ensures
            task_views(parts.0@) == self@.tasks.filter(is_done()),
            task_views(parts.1@) == self@.tasks.filter(is_open()),
    {
        let mut done: Vec<Task> = Vec::new();
        let mut open: Vec<Task> = Vec::new();
        let n = self.tasks.len();
        for i in 0..n
            invariant
                n == self.tasks.len(),
                task_views(done@) == task_views(self.tasks@).take(i as int).filter(is_done()),
                task_views(open@) == task_views(self.tasks@).take(i as int).filter(is_open()),
        {
            let task = self.tasks[i].clone();
            let ghost all = task_views(self.tasks@);
            proof {
                assert(all.take(i + 1).drop_last() =~= all.take(i as int));
                assert(all.take(i + 1).last() == task@);
                reveal_with_fuel(Seq::filter, 1);
                lemma_task_views_push(done@, task);
                lemma_task_views_push(open@, task);
            }
            if task.completed {
                done.push(task);
            } else {
                open.push(task);
            }
        }
        assert(task_views(self.tasks@).take(n as int) =~= task_views(self.tasks@));
        (done, open)
    }

    pub(crate) fn task_at(&self, index: usize) -> (task: &Task)
        requires
            index < self@.tasks.len(),
        ensures
            task@ == self@.tasks[index as int],
    {
        &self.tasks[index]
    }

    pub(crate) fn copy_tasks(&self) -> (tasks: Vec<Task>)
        ensures
            task_views(tasks@) == self@.tasks,
    {
        let tasks = self.tasks.clone();
        assert(tasks@ =~= self.tasks@);
        tasks
    }
}

proof fn lemma_filter_keeps_all(tasks: Seq<TaskView>, keep: spec_fn(TaskView) -> bool)
    requires
        forall|i: int| 0 <= i < tasks.len() ==> keep(#[trigger] tasks[i]),
    ensures
        tasks.filter(keep) == tasks,
    decreases tasks.len(),
{
    if tasks.len() > 0 {
        let rest = tasks.drop_last();
        lemma_filter_keeps_all(rest, keep);
        assert(rest.push(tasks.last()) =~= tasks);
        rest.lemma_filter_push(tasks.last(), keep);
    } else {
        reveal(Seq::filter);
    }
}

proof fn lemma_filter_keeps_none(tasks: Seq<TaskView>, keep: spec_fn(TaskView) -> bool)
    requires
        forall|i: int| 0 <= i < tasks.len() ==> !keep(#[trigger] tasks[i]),
    ensures
        tasks.filter(keep) == Seq::<TaskView>::empty(),
    decreases tasks.len(),
{
    reveal(Seq::filter);
    if tasks.len() > 0 {
        let rest = tasks.drop_last();
        lemma_filter_keeps_none(rest, keep);
        assert(rest.push(tasks.last()) =~= tasks);
        rest.lemma_filter_push(tasks.last(), keep);
    } else {
        assert(tasks.filter(keep) =~= Seq::<TaskView>::empty());
    }
}

/// The two groups a sort makes: the completed tasks, then the open ones.
proof fn lemma_sorted_groups(list: ListView)
    ensures
        forall|i: int| 0 <= i < list.tasks.filter(is_done()).len()
            ==> (#[trigger] list.tasks.filter(is_done())[i]).completed,
        forall|i: int| 0 <= i < list.tasks.filter(is_open()).len()
            ==> !(#[trigger] list.tasks.filter(is_open())[i]).completed,
{
    assert forall|i: int| 0 <= i < list.tasks.filter(is_done()).len()
        implies (#[trigger] list.tasks.filter(is_done())[i]).completed by {
        list.tasks.lemma_filter_pred(is_done(), i);
    }
    assert forall|i: int| 0 <= i < list.tasks.filter(is_open()).len()
        implies !(#[trigger] list.tasks.filter(is_open())[i]).completed by {
        list.tasks.lemma_filter_pred(is_open(), i);
    }
}

/// Sorting a sorted list changes nothing.
pub proof fn lemma_sort_idempotent(list: ListView)
    ensures
        list.sorted().sorted() == list.sorted(),
{
    let done = list.tasks.filter(is_done());
    let open = list.tasks.filter(is_open());
    lemma_sorted_groups(list);
    Seq::filter_distributes_over_add(done, open, is_done());
    Seq::filter_distributes_over_add(done, open, is_open());
    lemma_filter_keeps_all(done, is_done());
    lemma_filter_keeps_none(open, is_done());
    lemma_filter_keeps_none(done, is_open());
    lemma_filter_keeps_all(open, is_open());
    assert(done + Seq::<TaskView>::empty() =~= done);
    assert(Seq::<TaskView>::empty() + open =~= open);
    assert(list.sorted().sorted() =~= list.sorted());
}

proof fn lemma_split_keeps_tasks(tasks: Seq<TaskView>)
    ensures
        (tasks.filter(is_done()) + tasks.filter(is_open())).to_multiset() == tasks.to_multiset(),
    decreases tasks.len(),
{
    broadcast use vstd::multiset::group_multiset_axioms;

    if tasks.len() == 0 {
        reveal(Seq::filter);
        assert(tasks.filter(is_done()) + tasks.filter(is_open()) =~= tasks);
    } else {
        let rest = tasks.drop_last();
        let last = tasks.last();
        assert(rest.push(last) =~= tasks);
        lemma_split_keeps_tasks(rest);
        rest.lemma_filter_push(last, is_done());
        rest.lemma_filter_push(last, is_open());
        rest.to_multiset_ensures();
        let done = rest.filter(is_done());
        let open = rest.filter(is_open());
        done.to_multiset_ensures();
        open.to_multiset_ensures();
        vstd::seq_lib::lemma_multiset_commutative(done, open);
        if last.completed {
            vstd::seq_lib::lemma_multiset_commutative(done.push(last), open);
            assert(done.push(last).to_multiset() =~= done.to_multiset().insert(last));
        } else {
            vstd::seq_lib::lemma_multiset_commutative(done, open.push(last));
            assert(open.push(last).to_multiset() =~= open.to_multiset().insert(last));
        }
        assert((tasks.filter(is_done()) + tasks.filter(is_open())).to_multiset() =~= tasks.to_multiset());
    }
}

/// Sorting keeps the same tasks, each as often as before, and puts every
/// completed task before every open one.
pub proof fn lemma_sort_rearranges(list: ListView)
    ensures
        list.sorted().tasks.to_multiset() == list.tasks.to_multiset(),
        forall|i: int, j: int|
            0 <= i < j < list.sorted().tasks.len() && (#[trigger] list.sorted().tasks[j]).completed
                ==> (#[trigger] list.sorted().tasks[i]).completed,
{
    lemma_split_keeps_tasks(list.tasks);
    lemma_sorted_groups(list);
    let done = list.tasks.filter(is_done());
    let open = list.tasks.filter(is_open());
    assert forall|i: int, j: int|
        0 <= i < j < list.sorted().tasks.len() && (#[trigger] list.sorted().tasks[j]).completed
            implies (#[trigger] list.sorted().tasks[i]).completed by {
        if j >= done.len() {
            assert(list.sorted().tasks[j] == open[j - done.len()]);
        }
        assert(list.sorted().tasks[i] == done[i]);
    }
}

/// Flipping a task's status twice gives the list back.
pub proof fn lemma_toggle_twice(list: ListView, index: int)
    ensures
        list.with_task_toggled(index).with_task_toggled(index) == list,
{
    if 0 <= index < list.tasks.len() {
        assert(list.with_task_toggled(index).with_task_toggled(index).tasks =~= list.tasks);
    }
}

/// Adding a task with a non-empty description appends exactly that task,
/// not completed, after the others; an empty description adds nothing. The
/// name never changes.
pub proof fn lemma_add_task_appends(list: ListView, description: Seq<char>)
    ensures
        list.with_task_added(description).name == list.name,
        description.len() == 0 ==> list.with_task_added(description) == list,
        description.len() > 0 ==> {
            let tasks = list.with_task_added(description).tasks;
            &&& tasks.len() == list.tasks.len() + 1
            &&& forall|j: int| 0 <= j < list.tasks.len() ==> #[trigger] tasks[j] == list.tasks[j]
            &&& tasks[list.tasks.len() as int].description == description
            &&& !tasks[list.tasks.len() as int].completed
        },
{
}

/// Toggling flips the status of the task at `index` alone, keeping its
/// description; every other task, the order and the name stay as they were.
pub proof fn lemma_toggle_flips_one(list: ListView, index: int)
    ensures
        list.with_task_toggled(index).name == list.name,
        list.with_task_toggled(index).tasks.len() == list.tasks.len(),
        forall|j: int| 0 <= j < list.tasks.len() && j != index
            ==> #[trigger] list.with_task_toggled(index).tasks[j] == list.tasks[j],
        0 <= index < list.tasks.len() ==> {
            &&& list.with_task_toggled(index).tasks[index].completed == !list.tasks[index].completed
            &&& list.with_task_toggled(index).tasks[index].description == list.tasks[index].description
        },
{
}

/// Rewording changes the description of the task at `index` alone, to a
/// non-empty text, and keeps its status; out of range or with an empty text
/// nothing changes.
pub proof fn lemma_reword_changes_one(list: ListView, index: int, description: Seq<char>)
    ensures
        list.with_task_reworded(index, description).name == list.name,
        list.with_task_reworded(index, description).tasks.len() == list.tasks.len(),
        forall|j: int| 0 <= j < list.tasks.len() && j != index
            ==> #[trigger] list.with_task_reworded(index, description).tasks[j] == list.tasks[j],
        0 <= index < list.tasks.len() && description.len() > 0 ==> {
            &&& list.with_task_reworded(index, description).tasks[index].description == description
            &&& list.with_task_reworded(index, description).tasks[index].completed == list.tasks[index].completed
        },
        !(0 <= index < list.tasks.len() && description.len() > 0) ==> list.with_task_reworded(index, description)
            == list,
{
}

/// Deleting the task at `index` closes the gap: the tasks before it stay and
/// those after it move up by one; out of range nothing changes.
pub proof fn lemma_delete_closes_gap(list: ListView, index: int)
    ensures
        list.with_task_deleted(index).name == list.name,
        0 <= index < list.tasks.len() ==> {
            let tasks = list.with_task_deleted(index).tasks;
            &&& tasks.len() == list.tasks.len() - 1
            &&& forall|j: int| 0 <= j < index ==> #[trigger] tasks[j] == list.tasks[j]
            &&& forall|j: int| index <= j < tasks.len() ==> #[trigger] tasks[j] == list.tasks[j + 1]
        },
        !(0 <= index < list.tasks.len()) ==> list.with_task_deleted(index) == list,
{
}

/// Deleting the completed tasks leaves no completed task, keeps every open
/// task, and keeps the name.
pub proof fn lemma_without_completed_keeps_open(list: ListView)
    ensures
        list.without_completed().name == list.name,
        forall|j: int| 0 <= j < list.without_completed().tasks.len()
            ==> !(#[trigger] list.without_completed().tasks[j]).completed,
        forall|j: int| 0 <= j < list.tasks.len() && !(#[trigger] list.tasks[j]).completed
            ==> list.without_completed().tasks.contains(list.tasks[j]),
        list.without_completed().tasks.len() <= list.tasks.len(),
{
    assert forall|j: int| 0 <= j < list.without_completed().tasks.len()
        implies !(#[trigger] list.without_completed().tasks[j]).completed by {
        list.tasks.lemma_filter_pred(is_open(), j);
    }
    assert forall|j: int| 0 <= j < list.tasks.len() && !(#[trigger] list.tasks[j]).completed
        implies list.without_completed().tasks.contains(list.tasks[j]) by {
        list.tasks.lemma_filter_contains(is_open(), j);
    }
    list.tasks.lemma_filter_len(is_open());
}

} // verus!
