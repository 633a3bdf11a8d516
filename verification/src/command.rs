//! The fixed, ordered list of commands the interactive layer dispatches on.

use vstd::prelude::*;

verus! {

/// One command of the main menu, in menu order.
#[derive(PartialEq, Eq, Structural, Clone, Copy, Debug)]
pub enum AppCommand {
    List,
    Sync,
    Filter,
    Edit,
    Add,
    Remove,
    Boiling,
    Help,
    Quit,
}

/// The command at a menu index, in the fixed order; an out-of-range index
/// falls back to the first entry, mirroring the forgiving menu behaviour.
pub open spec fn spec_command_at(s: nat) -> AppCommand {
    if s == 0 {
        AppCommand::List
    } else if s == 1 {
        AppCommand::Sync
    } else if s == 2 {
        AppCommand::Filter
    } else if s == 3 {
        AppCommand::Edit
    } else if s == 4 {
        AppCommand::Add
    } else if s == 5 {
        AppCommand::Remove
    } else if s == 6 {
        AppCommand::Boiling
    } else if s == 7 {
        AppCommand::Help
    } else if s == 8 {
        AppCommand::Quit
    } else {
        AppCommand::List
    }
}

impl AppCommand {
    /// The command selected by a menu index.
    pub fn from_index(s: usize) -> (r: AppCommand)
        ensures
            r == spec_command_at(s as nat),
    {
        if s == 0 {
            AppCommand::List
        } else if s == 1 {
            AppCommand::Sync
        } else if s == 2 {
            AppCommand::Filter
        } else if s == 3 {
            AppCommand::Edit
        } else if s == 4 {
            AppCommand::Add
        } else if s == 5 {
            AppCommand::Remove
        } else if s == 6 {
            AppCommand::Boiling
        } else if s == 7 {
            AppCommand::Help
        } else if s == 8 {
            AppCommand::Quit
        } else {
            AppCommand::List
        }
    }

    /// The display name of the command.
    pub fn to_string(&self) -> (r: String)
        ensures
            *self is List ==> r@ == ("list")@,
            *self is Sync ==> r@ == ("sync")@,
            *self is Filter ==> r@ == ("filter")@,
            *self is Edit ==> r@ == ("edit")@,
            *self is Add ==> r@ == ("add")@,
            *self is Remove ==> r@ == ("remove")@,
            *self is Boiling ==> r@ == ("boiling")@,
            *self is Help ==> r@ == ("help")@,
            *self is Quit ==> r@ == ("quit")@,
    {
        match self {
            AppCommand::List => String::from_str("list"),
            AppCommand::Sync => String::from_str("sync"),
            AppCommand::Filter => String::from_str("filter"),
            AppCommand::Edit => String::from_str("edit"),
            AppCommand::Add => String::from_str("add"),
            AppCommand::Remove => String::from_str("remove"),
            AppCommand::Boiling => String::from_str("boiling"),
            AppCommand::Help => String::from_str("help"),
            AppCommand::Quit => String::from_str("quit"),
        }
    }

    /// Every command once, in menu order: the command at index `i` is
    /// `spec_command_at(i)`.
    pub fn get_command_list() -> (r: Vec<AppCommand>)
        ensures
            r@.len() == 9,
            forall|i: int| 0 <= i < 9 ==> #[trigger] r@[i] == spec_command_at(i as nat),
    {
        let mut r: Vec<AppCommand> = Vec::new();
        r.push(AppCommand::List);
        r.push(AppCommand::Sync);
        r.push(AppCommand::Filter);
        r.push(AppCommand::Edit);
        r.push(AppCommand::Add);
        r.push(AppCommand::Remove);
        r.push(AppCommand::Boiling);
        r.push(AppCommand::Help);
        r.push(AppCommand::Quit);
        r
    }
}

} // verus!
