//! The find command's configuration: one attribute criterion, a matching
//! mode, and the raw argument bundle a command-line front end hands over.

use vstd::prelude::*;

verus! {

/// The find command's configuration: at most one attribute criterion is
/// meant to be populated; the matcher construction takes the first one in
/// field order when several are.
pub struct FindCommand {
    pub file_name: Option<String>,
    pub size: Option<String>,
    pub ext: Option<String>,
    pub datetime: Option<String>,
    pub modified: Option<String>,
    pub is_regex: bool,
}

impl Default for FindCommand {
    /// An empty configuration: no criterion set, exact mode.
    fn default() -> (r: Self)
        ensures
            r.file_name is None,
            r.size is None,
            r.ext is None,
            r.datetime is None,
            r.modified is None,
            !r.is_regex,
    {
        FindCommand {
            file_name: None,
            size: None,
            ext: None,
            datetime: None,
            modified: None,
            is_regex: false,
        }
    }
}

/// The raw arguments of one find invocation, as a front end hands them
/// over, borrowed for the invocation's duration.
pub struct FindArguments<'a> {
    pub directory: &'a String,
    pub file_name: Option<&'a String>,
    pub size: Option<&'a String>,
    pub ext: Option<&'a String>,
    pub date: Option<&'a String>,
    pub search_hidden: bool,
    pub output: &'a String,
    pub is_regex: bool,
    pub is_recursive: bool,
}

impl<'a> FindArguments<'a> {
    /// Bundles the raw arguments.
    pub fn new(
        directory: &'a String,
        file_name: Option<&'a String>,
        size: Option<&'a String>,
        ext: Option<&'a String>,
        date: Option<&'a String>,
        search_hidden: bool,
        output: &'a String,
        is_regex: bool,
        is_recursive: bool,
    ) -> (r: Self)
        ensures
            r == (FindArguments {
                directory,
                file_name,
                size,
                ext,
                date,
                search_hidden,
                output,
                is_regex,
                is_recursive,
            }),
    {
        FindArguments {
            directory,
            file_name,
            size,
            ext,
            date,
            search_hidden,
            output,
            is_regex,
            is_recursive,
        }
    }
}

} // verus!
