//! Key presses, as the library sees them, and the commands they are bound to.

use vstd::prelude::*;

verus! {

/// A key press.
#[derive(Debug, Clone, Copy, PartialEq, Eq, Structural)]
pub enum Key {
    Char(char),
    Up,
    Down,
    Left,
    Right,
    Backspace,
    Enter,
    Esc,
    /// Any other key.
    Other,
}

/// What a key press asks the application to do.
#[derive(Debug, Clone, Copy, PartialEq, Eq, Structural)]
pub enum Command {
    /// `j` or Down.
    NextTask,
    /// `k` or Up.
    PrevTask,
    /// `l` or Right.
    NextList,
    /// `h` or Left.
    PrevList,
    /// `L`.
    MoveTaskToNextList,
    /// `H`.
    MoveTaskToPrevList,
    /// `p`.
    PasteBelow,
    /// `P`.
    PasteAbove,
    /// `D`, once confirmed.
    DeleteList,
    /// `d`: the next key says what to delete.
    StartDelete,
    /// `y`: the next key says what to yank.
    StartYank,
    /// `dd`.
    DeleteTask,
    /// `dA`.
    DeleteAllTasks,
    /// `dc`.
    DeleteCompletedTasks,
    /// `dC`.
    DeleteCompletedTasksOnAllLists,
    /// `yy`.
    YankTask,
    /// `yA`.
    YankList,
    /// `N`, with the name typed next.
    NewList,
    /// `n`, with the description typed next.
    NewTask,
    /// `r`, with the description typed next.
    RewordTask,
    /// `R`, with the name typed next.
    RenameList,
    /// `s`.
    SortList,
    /// `S`.
    SortAllLists,
    /// `G`.
    GotoBottom,
    /// `?`.
    Help,
    /// Space.
    ToggleTask,
    /// `q`: quit and save.
    Quit,
    /// `Q`, once confirmed: quit without saving.
    QuitWithoutSaving,
    /// `1` to `9`: the list with that number, counted from 1.
    GotoList(usize),
    /// A key with no binding.
    Nothing,
}

/// The binding of each key.
pub open spec fn spec_command_for_key(key: Key) -> Command {
    match key {
        Key::Down => Command::NextTask,
        Key::Up => Command::PrevTask,
        Key::Right => Command::NextList,
        Key::Left => Command::PrevList,
        Key::Char(c) => if c == 'j' {
            Command::NextTask
        } else if c == 'k' {
            Command::PrevTask
        } else if c == 'l' {
            Command::NextList
        } else if c == 'L' {
            Command::MoveTaskToNextList
        } else if c == 'h' {
            Command::PrevList
        } else if c == 'H' {
            Command::MoveTaskToPrevList
        } else if c == 'p' {
            Command::PasteBelow
        } else if c == 'P' {
            Command::PasteAbove
        } else if c == 'D' {
            Command::DeleteList
        } else if c == 'd' {
            Command::StartDelete
        } else if c == 'y' {
            Command::StartYank
        } else if c == 'N' {
            Command::NewList
        } else if c == 'n' {
            Command::NewTask
        } else if c == 'r' {
            Command::RewordTask
        } else if c == 'R' {
            Command::RenameList
        } else if c == 's' {
            Command::SortList
        } else if c == 'S' {
            Command::SortAllLists
        } else if c == 'G' {
            Command::GotoBottom
        } else if c == '?' {
            Command::Help
        } else if c == ' ' {
            Command::ToggleTask
        } else if c == 'q' {
            Command::Quit
        } else if c == 'Q' {
            Command::QuitWithoutSaving
        } else if '1' <= c && c <= '9' {
            Command::GotoList((c as u32 - '1' as u32) as usize)
        } else {
            Command::Nothing
        },
        _ => Command::Nothing,
    }
}

/// The binding of the key that follows `d`.
pub open spec fn spec_delete_command_for_key(key: Key) -> Command {
    match key {
        Key::Char(c) => if c == 'd' {
            Command::DeleteTask
        } else if c == 'A' {
            Command::DeleteAllTasks
        } else if c == 'c' {
            Command::DeleteCompletedTasks
        } else if c == 'C' {
            Command::DeleteCompletedTasksOnAllLists
        } else {
            Command::Nothing
        },
        _ => Command::Nothing,
    }
}

/// The binding of the key that follows `y`.
pub open spec fn spec_yank_command_for_key(key: Key) -> Command {
    match key {
        Key::Char(c) => if c == 'y' {
            Command::YankTask
        } else if c == 'A' {
            Command::YankList
        } else {
            Command::Nothing
        },
        _ => Command::Nothing,
    }
}

/// The command that a key press asks for.
pub fn command_for_key(key: Key) -> (command: Command)
    ensures
        command == spec_command_for_key(key),
{
    match key {
        Key::Down => Command::NextTask,
        Key::Up => Command::PrevTask,
        Key::Right => Command::NextList,
        Key::Left => Command::PrevList,
        Key::Char(c) => match c {
            'j' => Command::NextTask,
            'k' => Command::PrevTask,
            'l' => Command::NextList,
            'L' => Command::MoveTaskToNextList,
            'h' => Command::PrevList,
            'H' => Command::MoveTaskToPrevList,
            'p' => Command::PasteBelow,
            'P' => Command::PasteAbove,
            'D' => Command::DeleteList,
            'd' => Command::StartDelete,
            'y' => Command::StartYank,
            'N' => Command::NewList,
            'n' => Command::NewTask,
            'r' => Command::RewordTask,
            'R' => Command::RenameList,
            's' => Command::SortList,
            'S' => Command::SortAllLists,
            'G' => Command::GotoBottom,
            '?' => Command::Help,
            ' ' => Command::ToggleTask,
            'q' => Command::Quit,
            'Q' => Command::QuitWithoutSaving,
            '1' => Command::GotoList(0),
            '2' => Command::GotoList(1),
            '3' => Command::GotoList(2),
            '4' => Command::GotoList(3),
            '5' => Command::GotoList(4),
            '6' => Command::GotoList(5),
            '7' => Command::GotoList(6),
            '8' => Command::GotoList(7),
            '9' => Command::GotoList(8),
            _ => Command::Nothing,
        },
        _ => Command::Nothing,
    }
}

/// The command that the key after `d` asks for.
pub fn delete_command_for_key(key: Key) -> (command: Command)
    ensures
        command == spec_delete_command_for_key(key),
{
    match key {
        Key::Char('d') => Command::DeleteTask,
        Key::Char('A') => Command::DeleteAllTasks,
        Key::Char('c') => Command::DeleteCompletedTasks,
        Key::Char('C') => Command::DeleteCompletedTasksOnAllLists,
        _ => Command::Nothing,
    }
}

/// The command that the key after `y` asks for.
pub fn yank_command_for_key(key: Key) -> (command: Command)
    ensures
        command == spec_yank_command_for_key(key),
{
    match key {
        Key::Char('y') => Command::YankTask,
        Key::Char('A') => Command::YankList,
        _ => Command::Nothing,
    }
}

/// Whether a key press confirms a question asked with `y/N`: `y` or `Y`.
pub fn confirms(key: Key) -> (yes: bool)
    ensures
        yes == (key == Key::Char('y') || key == Key::Char('Y')),
{
    match key {
        Key::Char('y') | Key::Char('Y') => true,
        _ => false,
    }
}

/// The key bindings of the help screen, each command with exactly the keys
/// bound to it: `j`/Down, `k`/Up, `l`/Right, `h`/Left, `L`, `H`, `p` (below),
/// `P` (above), `D`, `d`, `y`, `N`, `n`, `r`, `R`, `s`, `S`, `G`, `?`, Space,
/// `q`, `Q`, and `1` to `9` for the lists counted from 1.
pub proof fn lemma_key_bindings(key: Key)
    ensures
        spec_command_for_key(key) == Command::NextTask <==> (key == Key::Char('j') || key == Key::Down),
        spec_command_for_key(key) == Command::PrevTask <==> (key == Key::Char('k') || key == Key::Up),
        spec_command_for_key(key) == Command::NextList <==> (key == Key::Char('l') || key == Key::Right),
        spec_command_for_key(key) == Command::PrevList <==> (key == Key::Char('h') || key == Key::Left),
        spec_command_for_key(key) == Command::MoveTaskToNextList <==> key == Key::Char('L'),
        spec_command_for_key(key) == Command::MoveTaskToPrevList <==> key == Key::Char('H'),
        spec_command_for_key(key) == Command::PasteBelow <==> key == Key::Char('p'),
        spec_command_for_key(key) == Command::PasteAbove <==> key == Key::Char('P'),
        spec_command_for_key(key) == Command::DeleteList <==> key == Key::Char('D'),
        spec_command_for_key(key) == Command::StartDelete <==> key == Key::Char('d'),
        spec_command_for_key(key) == Command::StartYank <==> key == Key::Char('y'),
        spec_command_for_key(key) == Command::NewList <==> key == Key::Char('N'),
        spec_command_for_key(key) == Command::NewTask <==> key == Key::Char('n'),
        spec_command_for_key(key) == Command::RewordTask <==> key == Key::Char('r'),
        spec_command_for_key(key) == Command::RenameList <==> key == Key::Char('R'),
        spec_command_for_key(key) == Command::SortList <==> key == Key::Char('s'),
        spec_command_for_key(key) == Command::SortAllLists <==> key == Key::Char('S'),
        spec_command_for_key(key) == Command::GotoBottom <==> key == Key::Char('G'),
        spec_command_for_key(key) == Command::Help <==> key == Key::Char('?'),
        spec_command_for_key(key) == Command::ToggleTask <==> key == Key::Char(' '),
        spec_command_for_key(key) == Command::Quit <==> key == Key::Char('q'),
        spec_command_for_key(key) == Command::QuitWithoutSaving <==> key == Key::Char('Q'),
        spec_command_for_key(key) is GotoList <==> (key matches Key::Char(c) && '1' <= c <= '9'),
        match key {
            Key::Char(c) => '1' <= c <= '9' ==> spec_command_for_key(key) == Command::GotoList(
                (c as u32 - '1' as u32) as usize,
            ),
            _ => true,
        },
        spec_command_for_key(key) != Command::DeleteTask && spec_command_for_key(key) != Command::YankTask,
{
}

/// The keys after `d`: `d` the task, `A` all tasks, `c` the completed tasks of
/// the list, `C` those of all lists; any other key deletes nothing.
pub proof fn lemma_delete_key_bindings(key: Key)
    ensures
        spec_delete_command_for_key(key) == Command::DeleteTask <==> key == Key::Char('d'),
        spec_delete_command_for_key(key) == Command::DeleteAllTasks <==> key == Key::Char('A'),
        spec_delete_command_for_key(key) == Command::DeleteCompletedTasks <==> key == Key::Char('c'),
        spec_delete_command_for_key(key) == Command::DeleteCompletedTasksOnAllLists <==> key == Key::Char('C'),
        !(key == Key::Char('d') || key == Key::Char('A') || key == Key::Char('c') || key == Key::Char('C'))
            ==> spec_delete_command_for_key(key) == Command::Nothing,
{
}

/// The keys after `y`: `y` the task, `A` all tasks of the list; any other key
/// yanks nothing.
pub proof fn lemma_yank_key_bindings(key: Key)
    ensures
        spec_yank_command_for_key(key) == Command::YankTask <==> key == Key::Char('y'),
        spec_yank_command_for_key(key) == Command::YankList <==> key == Key::Char('A'),
        !(key == Key::Char('y') || key == Key::Char('A')) ==> spec_yank_command_for_key(key) == Command::Nothing,
{
}

} // verus!
