//! The single-key commands of each interactive state. A key that is no command of the
//! state it is typed in is ignored.

use vstd::prelude::*;

verus! {

/// The commands of the main menu.
#[derive(Clone, Copy, Debug, PartialEq, Eq, Structural)]
pub enum MainCommand {
    Add,
    Import,
    Review,
    Export,
    Restart,
    Quit,
}

/// The main-menu command that `key` stands for.
pub open spec fn main_command(key: char) -> Option<MainCommand> {
    if key == 'a' {
        Some(MainCommand::Add)
    } else if key == 'i' {
        Some(MainCommand::Import)
    } else if key == 'r' {
        Some(MainCommand::Review)
    } else if key == 'x' {
        Some(MainCommand::Export)
    } else if key == 's' {
        Some(MainCommand::Restart)
    } else if key == 'q' {
        Some(MainCommand::Quit)
    } else {
        None
    }
}

impl MainCommand {
    /// Reads a key of the main menu.
    pub fn from_key(key: char) -> (command: Option<MainCommand>)
        ensures
            command == main_command(key),
    {
        if key == 'a' {
            Some(MainCommand::Add)
        } else if key == 'i' {
            Some(MainCommand::Import)
        } else if key == 'r' {
            Some(MainCommand::Review)
        } else if key == 'x' {
            Some(MainCommand::Export)
        } else if key == 's' {
            Some(MainCommand::Restart)
        } else if key == 'q' {
            Some(MainCommand::Quit)
        } else {
            None
        }
    }
}

/// The commands of the pager.
#[derive(Clone, Copy, Debug, PartialEq, Eq, Structural)]
pub enum PagerCommand {
    Next,
    Previous,
    Restart,
    Edit,
    Copy,
    Delete,
    Quit,
}

/// The pager command that `key` stands for.
pub open spec fn pager_command(key: char) -> Option<PagerCommand> {
    if key == 'n' {
        Some(PagerCommand::Next)
    } else if key == 'p' {
        Some(PagerCommand::Previous)
    } else if key == 's' {
        Some(PagerCommand::Restart)
    } else if key == 'e' {
        Some(PagerCommand::Edit)
    } else if key == 'c' {
        Some(PagerCommand::Copy)
    } else if key == 'd' {
        Some(PagerCommand::Delete)
    } else if key == 'q' {
        Some(PagerCommand::Quit)
    } else {
        None
    }
}

impl PagerCommand {
    /// Reads a key of the pager.
    pub fn from_key(key: char) -> (command: Option<PagerCommand>)
        ensures
            command == pager_command(key),
    {
        if key == 'n' {
            Some(PagerCommand::Next)
        } else if key == 'p' {
            Some(PagerCommand::Previous)
        } else if key == 's' {
            Some(PagerCommand::Restart)
        } else if key == 'e' {
            Some(PagerCommand::Edit)
        } else if key == 'c' {
            Some(PagerCommand::Copy)
        } else if key == 'd' {
            Some(PagerCommand::Delete)
        } else if key == 'q' {
            Some(PagerCommand::Quit)
        } else {
            None
        }
    }
}

/// The commands of the question editor.
#[derive(Clone, Copy, Debug, PartialEq, Eq, Structural)]
pub enum EditorCommand {
    Edit,
    Add,
    Delete,
    Reorder,
    Substitute,
    Back,
}

/// The editor command that `key` stands for.
pub open spec fn editor_command(key: char) -> Option<EditorCommand> {
    if key == 'e' {
        Some(EditorCommand::Edit)
    } else if key == 'a' {
        Some(EditorCommand::Add)
    } else if key == 'd' {
        Some(EditorCommand::Delete)
    } else if key == 'r' {
        Some(EditorCommand::Reorder)
    } else if key == 's' {
        Some(EditorCommand::Substitute)
    } else if key == 'b' {
        Some(EditorCommand::Back)
    } else {
        None
    }
}

impl EditorCommand {
    /// Reads a key of the question editor.
    pub fn from_key(key: char) -> (command: Option<EditorCommand>)
        ensures
            command == editor_command(key),
    {
        if key == 'e' {
            Some(EditorCommand::Edit)
        } else if key == 'a' {
            Some(EditorCommand::Add)
        } else if key == 'd' {
            Some(EditorCommand::Delete)
        } else if key == 'r' {
            Some(EditorCommand::Reorder)
        } else if key == 's' {
            Some(EditorCommand::Substitute)
        } else if key == 'b' {
            Some(EditorCommand::Back)
        } else {
            None
        }
    }
}

/// The commands while an answer is being moved.
#[derive(Clone, Copy, Debug, PartialEq, Eq, Structural)]
pub enum ReorderCommand {
    Up,
    Down,
    Accept,
}

/// The reorder command that `key` stands for.
pub open spec fn reorder_command(key: char) -> Option<ReorderCommand> {
    if key == 'u' {
        Some(ReorderCommand::Up)
    } else if key == 'd' {
        Some(ReorderCommand::Down)
    } else if key == 'a' {
        Some(ReorderCommand::Accept)
    } else {
        None
    }
}

impl ReorderCommand {
    /// Reads a key typed while an answer is being moved.
    pub fn from_key(key: char) -> (command: Option<ReorderCommand>)
        ensures
            command == reorder_command(key),
    {
        if key == 'u' {
            Some(ReorderCommand::Up)
        } else if key == 'd' {
            Some(ReorderCommand::Down)
        } else if key == 'a' {
            Some(ReorderCommand::Accept)
        } else {
            None
        }
    }
}

} // verus!
