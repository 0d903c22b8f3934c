//! The filesystem snapshot model: nodes with a name, metadata and a kind;
//! directory listings that may fail to open; listing slots that may fail to
//! read; and the entry values a traversal yields.

use vstd::prelude::*;
use crate::dates::DateTime;

verus! {

/// The metadata of one filesystem node.
#[derive(Clone, Copy, PartialEq, Eq, Structural, Debug)]
pub struct FileMeta {
    /// Byte length.
    pub size: u64,
    /// Creation timestamp.
    pub created: DateTime,
    /// Modification timestamp.
    pub modified: DateTime,
}

/// Metadata as a read of it reports it: known, or unreadable.
#[derive(Debug)]
pub enum MetaInfo {
    Known(FileMeta),
    Unreadable,
}

/// What listing a directory yields: its slots in order, or a failure to
/// open it at all.
#[derive(Debug)]
pub enum DirListing {
    Listed(Vec<RawEntry>),
    Unopenable,
}

/// The kind of a node: a plain file, or a directory with its listing.
#[derive(Debug)]
pub enum NodeKind {
    File,
    Dir(DirListing),
}

/// One filesystem node of the snapshot.
#[derive(Debug)]
pub struct FsNode {
    pub name: String,
    pub meta: MetaInfo,
    pub kind: NodeKind,
}

/// One slot of a directory listing: a node, or a slot whose read fails.
#[derive(Debug)]
pub enum RawEntry {
    Present(FsNode),
    Unreadable,
}

impl FsNode {
    /// Whether the node is a directory.
    pub open spec fn is_dir_spec(&self) -> bool {
        self.kind is Dir
    }
}

/// One entry yielded by a traversal: its name, its path from the traversal
/// root, its metadata, and whether it is a directory.
#[derive(Clone, Debug)]
pub struct FileEntry {
    pub name: String,
    pub path: String,
    pub size: u64,
    pub created: DateTime,
    pub modified: DateTime,
    pub is_dir: bool,
}

/// The mathematical value of a yielded entry.
pub struct EntrySpec {
    pub name: Seq<char>,
    pub path: Seq<char>,
    pub size: u64,
    pub created: DateTime,
    pub modified: DateTime,
    pub is_dir: bool,
}

impl View for FileEntry {
    type V = EntrySpec;

    open spec fn view(&self) -> EntrySpec {
        EntrySpec {
            name: self.name@,
            path: self.path@,
            size: self.size,
            created: self.created,
            modified: self.modified,
            is_dir: self.is_dir,
        }
    }
}

/// The operation whose failure a traversal error reports.
#[derive(Clone, Copy, PartialEq, Eq, Structural, Debug)]
pub enum TraversalOp {
    /// Reading one slot of an open directory listing.
    ReadEntry,
    /// Reading a node's metadata.
    ReadMetadata,
    /// Opening a directory for listing.
    OpenDir,
}

/// One error surfaced by a traversal, with the path it concerns: the
/// directory being listed for a slot-read failure, the entry itself for the
/// other operations.
#[derive(Clone, Debug)]
pub struct TraversalError {
    pub op: TraversalOp,
    pub path: String,
}

/// The mathematical value of a traversal error.
pub struct TraversalErrorSpec {
    pub op: TraversalOp,
    pub path: Seq<char>,
}

impl View for TraversalError {
    type V = TraversalErrorSpec;

    open spec fn view(&self) -> TraversalErrorSpec {
        TraversalErrorSpec { op: self.op, path: self.path@ }
    }
}

/// The mathematical value of one item of a traversal's output.
pub type ItemSpec = Result<EntrySpec, TraversalErrorSpec>;

/// The mathematical value of one yielded item.
pub open spec fn item_view(item: Result<FileEntry, TraversalError>) -> ItemSpec {
    match item {
        Ok(e) => Ok(e@),
        Err(e) => Err(e@),
    }
}

} // verus!
