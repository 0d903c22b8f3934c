//! The command configurations a front end hands to the library: the
//! subcommand set, the sort command's configuration, and the file action it
//! selects.

use vstd::prelude::*;
use crate::find::FindCommand;
use crate::sorters::SortBy;

verus! {

/// The subcommands the library knows.
pub enum Commands {
    Find(FindCommand),
}

/// The sort command's configuration: where to sort, whether files are
/// copied or moved, the categorization mode, and whether hidden entries
/// and sub-directories take part.
pub struct SortCommand {
    pub directory: String,
    pub copy: bool,
    pub move_arg: bool,
    pub sort_by: SortBy,
    pub search_hidden: bool,
    pub search_recursive: bool,
}

/// What happens to a file placed into its bucket directory: it is moved,
/// or copied.
#[derive(Clone, Copy, PartialEq, Eq, Structural, Debug)]
pub enum FileAction {
    Move,
    Copy,
}

impl FileAction {
    /// The action a sort configuration selects. The caller's argument
    /// grouping guarantees that one of the two flags is set; copying wins
    /// when both are.
    pub fn from(command: &SortCommand) -> (r: FileAction)
        requires
            command.copy || command.move_arg,
        ensures
            r == (if command.copy {
                FileAction::Copy
            } else {
                FileAction::Move
            }),
    {
        if command.copy {
            FileAction::Copy
        } else {
            FileAction::Move
        }
    }
}

} // verus!
