//! The `.tasks.md` text format: each list is its name on a line of its own,
//! followed by one `- [x] description` or `- [ ] description` line per task
//! and a blank line.

use crate::task::{empty_list, list_views, List, ListView, Task, TaskView};
use crate::text::push_char;
use vstd::prelude::*;

verus! {

/// A line without the carriage return that stood before its line feed.
pub open spec fn without_carriage_return(line: Seq<char>) -> Seq<char> {
    if line.len() > 0 && line.last() == '\r' {
        line.drop_last()
    } else {
        line
    }
}

/// The lines of `text`, as `str::lines` yields them: the text is cut at each
/// line feed, a carriage return right before a line feed is dropped, and what
/// follows the last line feed is a line of its own unless it is empty.
pub open spec fn text_lines(text: Seq<char>) -> Seq<Seq<char>>
    decreases text.len(),
{
    if text.len() == 0 {
        Seq::empty()
    } else {
        match text.index_of_first('\n') {
            Some(k) => {
                proof {
                    text.index_of_first_ensures('\n');
                }
                seq![without_carriage_return(text.take(k))] + text_lines(text.skip(k + 1))
            },
            None => seq![text],
        }
    }
}

/// The six characters that open the line of a completed (`- [x] `) or open (`- [ ] `) task.
pub open spec fn task_marker(completed: bool) -> Seq<char> {
    seq!['-', ' ', '[', if completed { 'x' } else { ' ' }, ']', ' ']
}

/// Whether a line begins with `- [x] ` or `- [ ] `.
pub open spec fn is_task_line(line: Seq<char>) -> bool {
    line.len() >= 6 && (line.take(6) == task_marker(true) || line.take(6) == task_marker(false))
}

/// Reads one line into the lists read so far.
///
/// An empty line changes nothing. A task line adds to the last list, when
/// there is one, a task with the text after its marker, completed for a
/// `- [x] ` line; a task line with nothing after its marker adds nothing.
/// Any other line starts a new list with the line as its name.
pub open spec fn read_line(lists: Seq<ListView>, line: Seq<char>) -> Seq<ListView> {
    if line.len() == 0 {
        lists
    } else if is_task_line(line) {
        if lists.len() == 0 {
            lists
        } else {
            let task = TaskView {
                description: line.skip(6),
                completed: line.take(6) == task_marker(true),
            };
            lists.drop_last().push(lists.last().with_task_appended(task))
        }
    } else {
        lists.push(empty_list(line))
    }
}

/// Reads the lines one after the other.
pub open spec fn read_lines(lists: Seq<ListView>, lines: Seq<Seq<char>>) -> Seq<ListView>
    decreases lines.len(),
{
    if lines.len() == 0 {
        lists
    } else {
        read_lines(read_line(lists, lines[0]), lines.drop_first())
    }
}

/// The lists that a file's text holds.
pub open spec fn parsed(text: Seq<char>) -> Seq<ListView> {
    read_lines(Seq::empty(), text_lines(text))
}

/// The line that stands for a task.
pub open spec fn task_line(task: TaskView) -> Seq<char> {
    task_marker(task.completed) + task.description + seq!['\n']
}

/// The lines of the tasks, in order.
pub open spec fn tasks_text(tasks: Seq<TaskView>) -> Seq<char>
    decreases tasks.len(),
{
    if tasks.len() == 0 {
        Seq::empty()
    } else {
        task_line(tasks[0]) + tasks_text(tasks.drop_first())
    }
}

/// A list's text: its name, its tasks and a blank line.
pub open spec fn list_text(list: ListView) -> Seq<char> {
    list.name + seq!['\n'] + tasks_text(list.tasks) + seq!['\n']
}

/// The text of a file that holds the lists.
pub open spec fn lists_text(lists: Seq<ListView>) -> Seq<char>
    decreases lists.len(),
{
    if lists.len() == 0 {
        Seq::empty()
    } else {
        list_text(lists[0]) + lists_text(lists.drop_first())
    }
}

proof fn lemma_read_lines_first(lists: Seq<ListView>, line: Seq<char>, rest: Seq<Seq<char>>)
    ensures
        read_lines(lists, seq![line] + rest) == read_lines(read_line(lists, line), rest),
{
    let all = seq![line] + rest;
    assert(all[0] == line);
    assert(all.drop_first() =~= rest);
}

/// Cutting `text` at its first line feed, at `k`.
proof fn lemma_text_lines_cut(text: Seq<char>, k: int)
    requires
        0 <= k < text.len(),
        text[k] == '\n',
        !text.take(k).contains('\n'),
    ensures
        text_lines(text) == seq![without_carriage_return(text.take(k))] + text_lines(text.skip(k + 1)),
{
    text.index_of_first_ensures('\n');
    match text.index_of_first('\n') {
        Some(j) => {
            if j < k {
                assert(text.take(k)[j] == '\n');
            }
            if k < j {
                assert(text[k] == '\n');
            }
        },
        None => {
            assert(text[k] == '\n');
        },
    }
}

/// Text without a line feed is a single line, or none when it is empty.
proof fn lemma_text_lines_last(text: Seq<char>)
    requires
        !text.contains('\n'),
    ensures
        text.len() == 0 ==> text_lines(text) == Seq::<Seq<char>>::empty(),
        text.len() > 0 ==> text_lines(text) == seq![text],
{
    text.index_of_first_ensures('\n');
}

/// Reads one line into `lists`.
fn read_line_into(lists: &mut Vec<List>, line: &str)
    ensures
        list_views(final(lists)@) == read_line(list_views(old(lists)@), line@),
{
    let ghost before = list_views(lists@);
    let n = line.unicode_len();
    if n == 0 {
        return;
    }
    let is_task = n >= 6 && line.get_char(0) == '-' && line.get_char(1) == ' ' && line.get_char(2)
        == '[' && (line.get_char(3) == 'x' || line.get_char(3) == ' ') && line.get_char(4) == ']'
        && line.get_char(5) == ' ';
    proof {
        if n >= 6 {
            let head = line@.take(6);
            if line@[3] == 'x' {
                assert(head == task_marker(true) <==> is_task) by {
                    if is_task {
                        assert(head =~= task_marker(true));
                    }
                }
            } else {
                assert(head != task_marker(true)) by {
                    assert(head[3] == line@[3]);
                }
            }
            if line@[3] == ' ' {
                assert(head == task_marker(false) <==> is_task) by {
                    if is_task {
                        assert(head =~= task_marker(false));
                    }
                }
            } else {
                assert(head != task_marker(false)) by {
                    assert(head[3] == line@[3]);
                }
            }
            if head == task_marker(true) || head == task_marker(false) {
                assert(head[0] == line@[0] && head[1] == line@[1] && head[2] == line@[2]);
                assert(head[4] == line@[4] && head[5] == line@[5]);
            }
        }
        assert(is_task == is_task_line(line@));
    }
    if is_task {
        let count = lists.len();
        if count == 0 {
            return;
        }
        let description = line.substring_char(6, n);
        let ghost task = TaskView {
            description: line@.skip(6),
            completed: line@.take(6) == task_marker(true),
        };
        let ghost expected = before.last().with_task_appended(task);
        assert(description@ == line@.skip(6));
        assert(task.completed == (line@[3] == 'x'));
        assert(before.last() == before[count - 1]);
        lists[count - 1].add_task(description);
        if line.get_char(3) == 'x' && n > 6 {
            let tasks = lists[count - 1].length();
            lists[count - 1].toggle_task(tasks - 1);
            assert(lists@[count - 1]@ =~= expected);
        } else {
            assert(lists@[count - 1]@ =~= expected);
        }
        assert(list_views(lists@) =~= before.drop_last().push(expected));
        return;
    }
    match List::new(line) {
        Ok(list) => {
            lists.push(list);
            assert(list_views(lists@) =~= before.push(empty_list(line@)));
        },
        Err(_) => {},
    }
}

/// Reads the text of a `.tasks.md` file into lists.
///
/// Empty lines are skipped; lines that begin with `- [x] ` or `- [ ] ` add a
/// task to the list above them; every other line starts a new list.
pub fn deserialise(contents: &str) -> (lists: Vec<List>)
    ensures
        parsed(contents@) == list_views(lists@),
{
    let mut lists: Vec<List> = Vec::new();
    let mut line = String::new();
    let mut pending_cr = false;
    let ghost mut start: int = 0;
    proof {
        assert(contents@.skip(0) =~= contents@);
        assert(list_views(lists@) =~= Seq::<ListView>::empty());
    }
    for c in it: contents.chars()
        invariant
            it.seq() == contents@,
            0 <= start <= it.index() <= contents@.len(),
            line@ + (if pending_cr { seq!['\r'] } else { Seq::<char>::empty() })
                == contents@.subrange(start, it.index() as int),
            !pending_cr ==> (line@.len() == 0 || line@.last() != '\r'),
            !contents@.subrange(start, it.index() as int).contains('\n'),
            read_lines(list_views(lists@), text_lines(contents@.skip(start))) == parsed(contents@),
    {
        let ghost i = it.index();
        let ghost seen = contents@.subrange(start, i);
        assert(c == contents@[i]);
        assert(contents@.subrange(start, i + 1) =~= seen.push(c));
        if c == '\n' {
            proof {
                let rest = contents@.skip(start);
                assert(rest.take(i - start) =~= seen);
                assert(rest.skip(i - start + 1) =~= contents@.skip(i + 1));
                lemma_text_lines_cut(rest, i - start);
                if pending_cr {
                    assert(seen.drop_last() =~= line@);
                }
                assert(without_carriage_return(seen) == line@);
                lemma_read_lines_first(list_views(lists@), line@, text_lines(contents@.skip(i + 1)));
            }
            read_line_into(&mut lists, line.as_str());
            line = String::new();
            pending_cr = false;
            proof {
                start = i + 1;
                assert(contents@.subrange(start, i + 1) =~= Seq::<char>::empty());
                assert(line@ =~= Seq::<char>::empty());
            }
        } else if c == '\r' {
            if pending_cr {
                push_char(&mut line, '\r');
            }
            pending_cr = true;
            proof {
                assert(!seen.push(c).contains('\n')) by {
                    assert forall|j| 0 <= j < seen.push(c).len() implies seen.push(c)[j] != '\n' by {
                        if j < seen.len() {
                            assert(seen[j] == seen.push(c)[j]);
                        }
                    }
                }
            }
        } else {
            if pending_cr {
                push_char(&mut line, '\r');
                pending_cr = false;
            }
            push_char(&mut line, c);
            proof {
                assert(!seen.push(c).contains('\n')) by {
                    assert forall|j| 0 <= j < seen.push(c).len() implies seen.push(c)[j] != '\n' by {
                        if j < seen.len() {
                            assert(seen[j] == seen.push(c)[j]);
                        }
                    }
                }
            }
        }
    }
    if pending_cr {
        push_char(&mut line, '\r');
    }
    proof {
        assert(contents@.skip(start) =~= contents@.subrange(start, contents@.len() as int));
        assert(line@ =~= contents@.skip(start));
        lemma_text_lines_last(line@);
    }
    if line.as_str().unicode_len() == 0 {
        return lists;
    }
    proof {
        lemma_read_lines_first(list_views(lists@), line@, Seq::empty());
        assert(seq![line@] + Seq::<Seq<char>>::empty() =~= seq![line@]);
    }
    read_line_into(&mut lists, line.as_str());
    lists
}

/// Appends the line of `task`.
fn append_task_line(text: &mut String, task: &Task)
    ensures
        final(text)@ == old(text)@ + task_line(task@),
{
    if task.status() {
        text.append("- [x] ");
    } else {
        text.append("- [ ] ");
    }
    text.append(task.description().as_str());
    text.append("\n");
    proof {
        reveal_strlit("- [x] ");
        reveal_strlit("- [ ] ");
        reveal_strlit("\n");
        assert(text@ =~= old(text)@ + task_line(task@));
    }
}

/// Appends the text of `list`.
fn append_list_text(text: &mut String, list: &List)
    ensures
        final(text)@ == old(text)@ + list_text(list@),
{
    let ghost start = text@;
    let ghost tasks = list@.tasks;
    text.append(list.name().as_str());
    text.append("\n");
    proof {
        reveal_strlit("\n");
        assert(tasks.skip(0) =~= tasks);
    }
    let n = list.length();
    for j in 0..n
        invariant
            n == tasks.len(),
            tasks == list@.tasks,
            text@ + tasks_text(tasks.skip(j as int)) == start + list@.name + seq!['\n'] + tasks_text(tasks),
    {
        let ghost before = text@;
        append_task_line(text, list.task_at(j));
        proof {
            let rest = tasks.skip(j as int);
            assert(rest[0] == tasks[j as int]);
            assert(rest.drop_first() =~= tasks.skip(j + 1));
            assert(before + tasks_text(rest) =~= text@ + tasks_text(tasks.skip(j + 1)));
        }
    }
    text.append("\n");
    proof {
        assert(tasks.skip(n as int) =~= Seq::<TaskView>::empty());
        assert(text@ =~= start + list_text(list@));
    }
}

/// The text of a `.tasks.md` file that holds `lists`: for each list its name,
/// a `- [x] description` or `- [ ] description` line per task, and a blank line.
pub fn serialise(lists: Vec<List>) -> (text: String)
    ensures
        text@ == lists_text(list_views(lists@)),
{
    let ghost all = list_views(lists@);
    let mut text = String::new();
    proof {
        assert(all.skip(0) =~= all);
        assert(text@ + lists_text(all) =~= lists_text(all));
    }
    let n = lists.len();
    for i in 0..n
        invariant
            n == lists@.len(),
            all == list_views(lists@),
            text@ + lists_text(all.skip(i as int)) == lists_text(all),
    {
        let ghost before = text@;
        append_list_text(&mut text, &lists[i]);
        proof {
            let rest = all.skip(i as int);
            assert(rest[0] == all[i as int]);
            assert(rest.drop_first() =~= all.skip(i + 1));
            assert(before + lists_text(rest) =~= text@ + lists_text(all.skip(i + 1)));
        }
    }
    proof {
        assert(all.skip(n as int) =~= Seq::<ListView>::empty());
        assert(text@ =~= lists_text(all));
    }
    text
}

/// The lists to start with when there is no file: one empty list named
/// `list_name`, or `Main` when that is empty.
pub fn new_tasks_data(list_name: &str) -> (lists: Vec<List>)
    ensures
        list_views(lists@) == seq![empty_list(
            if list_name@.len() == 0 { seq!['M', 'a', 'i', 'n'] } else { list_name@ },
        )],
{
    let name = if list_name.is_empty() {
        "Main"
    } else {
        list_name
    };
    proof {
        reveal_strlit("Main");
        assert("Main"@ =~= seq!['M', 'a', 'i', 'n']);
    }
    let mut lists: Vec<List> = Vec::new();
    match List::new(name) {
        Ok(list) => lists.push(list),
        Err(_) => {},
    }
    proof {
        assert(list_views(lists@) =~= seq![empty_list(name@)]);
    }
    lists
}

/// Text that can stand as a line of its own and be read back unchanged: not
/// empty, without a line feed, and not ending in a carriage return.
pub open spec fn is_plain_line(text: Seq<char>) -> bool {
    text.len() > 0 && !text.contains('\n') && text.last() != '\r'
}

/// A list that its text gives back: its name is a plain line that does not
/// look like a task, and each task's description is a plain line.
pub open spec fn is_writable_list(list: ListView) -> bool {
    &&& is_plain_line(list.name)
    &&& !is_task_line(list.name)
    &&& forall|i: int| 0 <= i < list.tasks.len() ==> is_plain_line(#[trigger] list.tasks[i].description)
}

/// The lines of a line, a line feed and more text.
proof fn lemma_text_lines_line(line: Seq<char>, rest: Seq<char>)
    requires
        !line.contains('\n'),
    ensures
        text_lines(line + seq!['\n'] + rest) == seq![without_carriage_return(line)] + text_lines(rest),
{
    let text = line + seq!['\n'] + rest;
    let k = line.len() as int;
    assert(text.take(k) =~= line);
    assert(text.skip(k + 1) =~= rest);
    assert(text[k] == '\n');
    lemma_text_lines_cut(text, k);
}

/// Reading the lines of tasks adds the tasks to the last list.
proof fn lemma_read_tasks_text(
    done: Seq<ListView>,
    current: ListView,
    tasks: Seq<TaskView>,
    rest: Seq<char>,
)
    requires
        forall|i: int| 0 <= i < tasks.len() ==> is_plain_line(#[trigger] tasks[i].description),
    ensures
        read_lines(done.push(current), text_lines(tasks_text(tasks) + rest)) == read_lines(
            done.push(current.with_tasks(current.tasks + tasks)),
            text_lines(rest),
        ),
    decreases tasks.len(),
{
    if tasks.len() == 0 {
        assert(tasks_text(tasks) + rest =~= rest);
        assert(current.with_tasks(current.tasks + tasks) =~= current);
    } else {
        let task = tasks[0];
        let others = tasks.drop_first();
        let marker = task_marker(task.completed);
        let line = marker + task.description;
        let after = tasks_text(others) + rest;
        assert(is_plain_line(tasks[0].description));
        assert(tasks_text(tasks) + rest =~= line + seq!['\n'] + after);
        assert(!line.contains('\n')) by {
            assert forall|j: int| 0 <= j < line.len() implies line[j] != '\n' by {
                if j >= 6 {
                    assert(line[j] == task.description[j - 6]);
                }
            }
        }
        assert(line.len() > 0 && line.last() != '\r') by {
            assert(line.last() == task.description.last());
        }
        lemma_text_lines_line(line, after);
        lemma_read_lines_first(done.push(current), line, text_lines(after));
        assert(line.take(6) =~= marker);
        assert(line.skip(6) =~= task.description);
        assert(task_marker(true) != task_marker(false)) by {
            assert(task_marker(true)[3] != task_marker(false)[3]);
        }
        let next = current.with_tasks(current.tasks.push(task));
        assert(done.push(current).drop_last() =~= done);
        assert(done.push(current).last() == current);
        assert((line.take(6) == task_marker(true)) == task.completed);
        assert(current.with_task_appended(task) == next);
        assert(read_line(done.push(current), line) == done.push(next));
        lemma_read_tasks_text(done, next, others, rest);
        assert(next.tasks + others =~= current.tasks + tasks);
    }
}

/// Reading the text of lists after `done` adds the lists.
proof fn lemma_read_lists_text(done: Seq<ListView>, lists: Seq<ListView>)
    requires
        forall|i: int| 0 <= i < lists.len() ==> is_writable_list(#[trigger] lists[i]),
    ensures
        read_lines(done, text_lines(lists_text(lists))) == done + lists,
    decreases lists.len(),
{
    if lists.len() == 0 {
        assert(done + lists =~= done);
    } else {
        let list = lists[0];
        let others = lists.drop_first();
        let later = lists_text(others);
        assert(is_writable_list(lists[0]));
        let after_name = tasks_text(list.tasks) + (seq!['\n'] + later);
        assert(lists_text(lists) =~= list.name + seq!['\n'] + after_name);
        lemma_text_lines_line(list.name, after_name);
        lemma_read_lines_first(done, list.name, text_lines(after_name));
        assert(read_line(done, list.name) == done.push(empty_list(list.name)));
        lemma_read_tasks_text(done, empty_list(list.name), list.tasks, seq!['\n'] + later);
        assert(empty_list(list.name).with_tasks(Seq::empty() + list.tasks) =~= list);
        lemma_text_lines_line(Seq::empty(), later);
        assert(Seq::<char>::empty() + seq!['\n'] + later =~= seq!['\n'] + later);
        lemma_read_lines_first(done.push(list), Seq::empty(), text_lines(later));
        assert(without_carriage_return(Seq::<char>::empty()) =~= Seq::<char>::empty());
        assert forall|i: int| 0 <= i < others.len() implies is_writable_list(#[trigger] others[i]) by {
            assert(others[i] == lists[i + 1]);
        }
        lemma_read_lists_text(done.push(list), others);
        assert(done.push(list) + others =~= done + lists);
    }
}

/// Reading back what `serialise` wrote gives the same lists, as long as each
/// list's name is a non-empty line that does not begin like a task and each
/// description is a non-empty line (no line feed, no carriage return at the
/// end).
pub proof fn lemma_read_back_written(lists: Seq<ListView>)
    requires
        forall|i: int| 0 <= i < lists.len() ==> is_writable_list(#[trigger] lists[i]),
    ensures
        parsed(lists_text(lists)) == lists,
{
    lemma_read_lists_text(Seq::empty(), lists);
    assert(Seq::<ListView>::empty() + lists =~= lists);
}

/// Every list has a name and every task a description.
pub open spec fn all_named(lists: Seq<ListView>) -> bool {
    forall|i: int| 0 <= i < lists.len() ==> {
        &&& (#[trigger] lists[i]).name.len() > 0
        &&& forall|j: int| 0 <= j < lists[i].tasks.len() ==> (#[trigger] lists[i].tasks[j]).description.len() > 0
    }
}

proof fn lemma_read_line_keeps_names(lists: Seq<ListView>, line: Seq<char>)
    requires
        all_named(lists),
    ensures
        all_named(read_line(lists, line)),
{
    if line.len() > 0 && is_task_line(line) && lists.len() > 0 {
        let last = lists.last();
        assert(last == lists[lists.len() - 1]);
        let task = TaskView { description: line.skip(6), completed: line.take(6) == task_marker(true) };
        let added = last.with_task_appended(task);
        assert forall|j: int| 0 <= j < added.tasks.len() implies (#[trigger] added.tasks[j]).description.len() > 0 by {
            if j < last.tasks.len() {
                assert(added.tasks[j] == last.tasks[j]);
            }
        }
    }
}

proof fn lemma_read_lines_keeps_names(lists: Seq<ListView>, lines: Seq<Seq<char>>)
    requires
        all_named(lists),
    ensures
        all_named(read_lines(lists, lines)),
    decreases lines.len(),
{
    if lines.len() > 0 {
        lemma_read_line_keeps_names(lists, lines[0]);
        lemma_read_lines_keeps_names(read_line(lists, lines[0]), lines.drop_first());
    }
}

/// Whatever a file holds, the lists read from it have names and their tasks
/// have descriptions: empty lines are skipped and tasks without a
/// description are not added.
pub proof fn lemma_read_lists_are_named(text: Seq<char>)
    ensures
        all_named(parsed(text)),
{
    lemma_read_lines_keeps_names(Seq::empty(), text_lines(text));
}

} // verus!
