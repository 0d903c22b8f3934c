//! A small file-organizer library: directory-tree traversal over an in-memory
//! snapshot, attribute-based matching of entries, and categorization of
//! entries into named buckets.

pub mod clean;
pub mod commands;
pub mod dates;
pub mod entries;
pub mod file_list;
pub mod filtering;
pub mod find;
pub mod find_arguments;
pub mod sorters;
pub mod text;
pub mod volumes;
