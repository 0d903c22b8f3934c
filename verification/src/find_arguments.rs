//! An argument bundle for one find invocation, keyed by the directory to
//! search, borrowed from the caller for the invocation's duration.

use vstd::prelude::*;

verus! {

/// The raw arguments of one find invocation.
pub struct FindArguments<'a> {
    pub directory: &'a String,
    pub file_name: Option<&'a String>,
    pub size: Option<&'a String>,
    pub ext: Option<&'a String>,
    pub date: Option<&'a String>,
    pub search_hidden: bool,
    pub output: &'a String,
    pub is_regex: bool,
    pub is_recursive: bool,
}

impl<'a> FindArguments<'a> {
    /// Bundles the raw arguments.
    pub fn new(
        directory: &'a String,
        file_name: Option<&'a String>,
        size: Option<&'a String>,
        ext: Option<&'a String>,
        date: Option<&'a String>,
        search_hidden: bool,
        output: &'a String,
        is_regex: bool,
        is_recursive: bool,
    ) -> (r: Self)
        ensures
            r == (FindArguments {
                directory,
                file_name,
                size,
                ext,
                date,
                search_hidden,
                output,
                is_regex,
                is_recursive,
            }),
    {
        FindArguments {
            directory,
            file_name,
            size,
            ext,
            date,
            search_hidden,
            output,
            is_regex,
            is_recursive,
        }
    }
}

} // verus!
