//! The traversal engine: a restartable-per-instance, single-pass,
//! depth-first walk over a directory snapshot, honoring a recursion flag and
//! a hidden-entry flag, pulling one item at a time off a stack of open
//! directory listings.

use vstd::prelude::*;
use crate::entries::{
    DirListing, EntrySpec, FileEntry, FsNode, ItemSpec, MetaInfo, NodeKind, RawEntry,
    TraversalError, TraversalErrorSpec, TraversalOp, item_view,
};
use crate::text::{is_hidden_name, join_path, joined_path, name_is_hidden};

verus! {

/// One open directory on the traversal stack: the directory's path and its
/// not-yet-consumed listing slots.
#[derive(Debug)]
pub struct OpenListing {
    pub path: String,
    pub entries: Vec<RawEntry>,
}

/// The entry a traversal yields for a node found in the directory at
/// `dir_path`. Meaningful only when the node's metadata is known.
pub open spec fn yielded_entry(n: FsNode, dir_path: Seq<char>) -> EntrySpec {
    EntrySpec {
        name: n.name@,
        path: joined_path(dir_path, n.name@),
        size: n.meta->Known_0.size,
        created: n.meta->Known_0.created,
        modified: n.meta->Known_0.modified,
        is_dir: n.kind is Dir,
    }
}

/// Everything a traversal produces for one listing slot of the directory at
/// `dir_path`: an error item for an unreadable slot or unreadable metadata;
/// nothing for a hidden name when hidden entries are excluded; an error item
/// for a directory that cannot be opened while descending; otherwise the
/// entry itself, followed, when descending into directories, by everything
/// produced for the directory's own listing.
pub open spec fn raw_output(
    e: RawEntry,
    dir_path: Seq<char>,
    recursive: bool,
    include_hidden: bool,
) -> Seq<ItemSpec>
    decreases e,
{
    match e {
        RawEntry::Unreadable => seq![
            Err(TraversalErrorSpec { op: TraversalOp::ReadEntry, path: dir_path }),
        ],
        RawEntry::Present(n) => {
            let p = joined_path(dir_path, n.name@);
            if n.meta is Unreadable {
                seq![Err(TraversalErrorSpec { op: TraversalOp::ReadMetadata, path: p })]
            } else if !include_hidden && is_hidden_name(n.name@) {
                Seq::empty()
            } else if recursive && n.kind is Dir {
                match n.kind->Dir_0 {
                    DirListing::Unopenable => seq![
                        Err(TraversalErrorSpec { op: TraversalOp::OpenDir, path: p }),
                    ],
                    DirListing::Listed(children) => seq![Ok(yielded_entry(n, dir_path))]
                        + listing_output(children@, p, recursive, include_hidden),
                }
            } else {
                seq![Ok(yielded_entry(n, dir_path))]
            }
        },
    }
}

/// Everything a traversal produces for the given listing slots, in order.
pub open spec fn listing_output(
    s: Seq<RawEntry>,
    dir_path: Seq<char>,
    recursive: bool,
    include_hidden: bool,
) -> Seq<ItemSpec>
    decreases s,
{
    if s.len() == 0 {
        Seq::empty()
    } else {
        raw_output(s[0], dir_path, recursive, include_hidden) + listing_output(
            s.drop_first(),
            dir_path,
            recursive,
            include_hidden,
        )
    }
}

/// Everything a traversal with the given stack still produces: the top of
/// the stack (the end of the sequence) is consumed first.
pub open spec fn stack_output(
    stack: Seq<OpenListing>,
    recursive: bool,
    include_hidden: bool,
) -> Seq<ItemSpec>
    decreases stack.len(),
{
    if stack.len() == 0 {
        Seq::empty()
    } else {
        listing_output(stack.last().entries@, stack.last().path@, recursive, include_hidden)
            + stack_output(stack.drop_last(), recursive, include_hidden)
    }
}

/// The number of listing slots still open anywhere on the stack.
pub open spec fn stack_slot_count(stack: Seq<OpenListing>) -> nat
    decreases stack.len(),
{
    if stack.len() == 0 {
        0
    } else {
        stack_slot_count(stack.drop_last()) + stack.last().entries@.len()
    }
}

/// A depth-first iterator over a directory snapshot. Directories are pushed
/// onto a stack of open listings as they are descended into; the traversal
/// is exhausted exactly when the stack is empty.
#[derive(Debug)]
pub struct FilesList {
    pub is_recursive: bool,
    pub search_hidden: bool,
    pub dir_stack: Vec<OpenListing>,
}

impl FilesList {
    /// The items this traversal has yet to produce.
    pub open spec fn remaining(&self) -> Seq<ItemSpec> {
        stack_output(self.dir_stack@, self.is_recursive, self.search_hidden)
    }

    /// Opens a traversal of the directory at `root_path` whose listing is
    /// `root`. Fails exactly when the root cannot be listed.
    pub fn new(
        root_path: &str,
        root: DirListing,
        is_recursive: bool,
        search_hidden: bool,
    ) -> (r: Result<FilesList, TraversalError>)
        ensures
            match r {
                Ok(fl) => {
                    &&& root matches DirListing::Listed(es) && fl.remaining() == listing_output(
                        es@,
                        root_path@,
                        is_recursive,
                        search_hidden,
                    )
                    &&& fl.is_recursive == is_recursive
                    &&& fl.search_hidden == search_hidden
                },
                Err(e) => root is Unopenable && e@ == (TraversalErrorSpec {
                    op: TraversalOp::OpenDir,
                    path: root_path@,
                }),
            },
    {
        match root {
            DirListing::Unopenable => {
                let err = TraversalError { op: TraversalOp::OpenDir, path: root_path.to_owned() };
                proof {
                    assert(err@ == (TraversalErrorSpec {
                        op: TraversalOp::OpenDir,
                        path: root_path@,
                    }));
                }
                Err(err)
            },
            DirListing::Listed(entries) => {
                let ghost es0 = entries@;
                let mut dir_stack: Vec<OpenListing> = Vec::new();
                dir_stack.push(OpenListing { path: root_path.to_owned(), entries });
                let fl = FilesList { is_recursive, search_hidden, dir_stack };
                proof {
                    assert(fl.dir_stack@.drop_last() =~= Seq::<OpenListing>::empty());
                    assert(fl.dir_stack@.last().entries@ == es0);
                    assert(fl.dir_stack@.last().path@ == root_path@);
                    assert(stack_output(Seq::<OpenListing>::empty(), is_recursive, search_hidden)
                        =~= Seq::<ItemSpec>::empty());
                    assert(fl.remaining() =~= listing_output(
                        es0,
                        root_path@,
                        is_recursive,
                        search_hidden,
                    ));
                }
                Ok(fl)
            },
        }
    }

    /// Produces the next traversal item: an entry, an error item, or nothing
    /// once the traversal is exhausted.
    #[verifier::rlimit(50)]
    pub fn next(&mut self) -> (r: Option<Result<FileEntry, TraversalError>>)
        ensures
            final(self).is_recursive == old(self).is_recursive,
            final(self).search_hidden == old(self).search_hidden,
            match r {
                None => old(self).remaining() == Seq::<ItemSpec>::empty() && final(self).remaining()
                    == Seq::<ItemSpec>::empty(),
                Some(item) => {
                    &&& old(self).remaining().len() > 0
                    &&& item_view(item) == old(self).remaining()[0]
                    &&& final(self).remaining() == old(self).remaining().drop_first()
                },
            },
    {
        let rec = self.is_recursive;
        let hid = self.search_hidden;
        loop
            invariant
                self.is_recursive == old(self).is_recursive,
                self.search_hidden == old(self).search_hidden,
                rec == self.is_recursive,
                hid == self.search_hidden,
                self.remaining() == old(self).remaining(),
            decreases stack_slot_count(self.dir_stack@), self.dir_stack@.len(),
        {
            let ghost stack0 = self.dir_stack@;
            if self.dir_stack.len() == 0 {
                return None;
            }
            let mut frame = self.dir_stack.pop().unwrap();
            let ghost popped = stack0.drop_last();
            let ghost entries0 = frame.entries@;
            let ghost fpath = frame.path@;
            proof {
                assert(stack_output(stack0, rec, hid) == listing_output(entries0, fpath, rec, hid)
                    + stack_output(popped, rec, hid));
            }
            if frame.entries.len() == 0 {
                proof {
                    assert(listing_output(entries0, fpath, rec, hid)
                        =~= Seq::<ItemSpec>::empty());
                    assert(self.remaining() =~= old(self).remaining());
                    assert(stack_slot_count(stack0) == stack_slot_count(popped));
                }
                continue;
            }
            let ghost rest = entries0.drop_first();
            let ghost rest_out = listing_output(rest, fpath, rec, hid) + stack_output(
                popped,
                rec,
                hid,
            );
            proof {
                assert(listing_output(entries0, fpath, rec, hid) == raw_output(
                    entries0[0],
                    fpath,
                    rec,
                    hid,
                ) + listing_output(rest, fpath, rec, hid));
                assert(old(self).remaining() =~= raw_output(entries0[0], fpath, rec, hid)
                    + rest_out);
            }
            let e = frame.entries.remove(0);
            proof {
                assert(frame.entries@ =~= rest);
                assert(frame.path@ == fpath);
            }
            match e {
                RawEntry::Unreadable => {
                    let err = TraversalError {
                        op: TraversalOp::ReadEntry,
                        path: frame.path.clone(),
                    };
                    self.dir_stack.push(frame);
                    proof {
                        assert(self.dir_stack@.drop_last() =~= popped);
                        assert(self.remaining() =~= rest_out);
                        assert(raw_output(entries0[0], fpath, rec, hid) =~= seq![item_view(Err::<
                            FileEntry,
                            TraversalError,
                        >(err))]);
                        assert(old(self).remaining().drop_first() =~= rest_out);
                    }
                    return Some(Err(err));
                },
                RawEntry::Present(node) => {
                    let FsNode { name, meta, kind } = node;
                    let path = join_path(frame.path.as_str(), name.as_str());
                    match meta {
                        MetaInfo::Unreadable => {
                            let err = TraversalError { op: TraversalOp::ReadMetadata, path };
                            self.dir_stack.push(frame);
                            proof {
                                assert(self.dir_stack@.drop_last() =~= popped);
                                assert(self.remaining() =~= rest_out);
                                assert(raw_output(entries0[0], fpath, rec, hid) =~= seq![
                                    item_view(Err::<FileEntry, TraversalError>(err)),
                                ]);
                                assert(old(self).remaining().drop_first() =~= rest_out);
                            }
                            return Some(Err(err));
                        },
                        MetaInfo::Known(m) => {
                            if !hid && name_is_hidden(name.as_str()) {
                                self.dir_stack.push(frame);
                                proof {
                                    assert(self.dir_stack@.drop_last() =~= popped);
                                    assert(raw_output(entries0[0], fpath, rec, hid)
                                        =~= Seq::<ItemSpec>::empty());
                                    assert(self.remaining() =~= rest_out);
                                    assert(self.remaining() =~= old(self).remaining());
                                    assert(stack_slot_count(self.dir_stack@) < stack_slot_count(
                                        stack0,
                                    ));
                                }
                                continue;
                            }
                            match kind {
                                NodeKind::File => {
                                    let entry = FileEntry {
                                        name,
                                        path,
                                        size: m.size,
                                        created: m.created,
                                        modified: m.modified,
                                        is_dir: false,
                                    };
                                    self.dir_stack.push(frame);
                                    proof {
                                        assert(self.dir_stack@.drop_last() =~= popped);
                                        assert(self.remaining() =~= rest_out);
                                        assert(raw_output(entries0[0], fpath, rec, hid) =~= seq![
                                            item_view(Ok::<FileEntry, TraversalError>(entry)),
                                        ]);
                                        assert(old(self).remaining().drop_first() =~= rest_out);
                                    }
                                    return Some(Ok(entry));
                                },
                                NodeKind::Dir(listing) => {
                                    if !rec {
                                        let entry = FileEntry {
                                            name,
                                            path,
                                            size: m.size,
                                            created: m.created,
                                            modified: m.modified,
                                            is_dir: true,
                                        };
                                        self.dir_stack.push(frame);
                                        proof {
                                            assert(self.dir_stack@.drop_last() =~= popped);
                                            assert(self.remaining() =~= rest_out);
                                            assert(raw_output(entries0[0], fpath, rec, hid)
                                                =~= seq![
                                                item_view(Ok::<FileEntry, TraversalError>(entry)),
                                            ]);
                                            assert(old(self).remaining().drop_first() =~= rest_out);
                                        }
                                        return Some(Ok(entry));
                                    }
                                    match listing {
                                        DirListing::Unopenable => {
                                            let err = TraversalError {
                                                op: TraversalOp::OpenDir,
                                                path,
                                            };
                                            self.dir_stack.push(frame);
                                            proof {
                                                assert(self.dir_stack@.drop_last() =~= popped);
                                                assert(self.remaining() =~= rest_out);
                                                assert(raw_output(entries0[0], fpath, rec, hid)
                                                    =~= seq![
                                                    item_view(
                                                        Err::<FileEntry, TraversalError>(err),
                                                    ),
                                                ]);
                                                assert(old(self).remaining().drop_first()
                                                    =~= rest_out);
                                            }
                                            return Some(Err(err));
                                        },
                                        DirListing::Listed(children) => {
                                            let entry = FileEntry {
                                                name,
                                                path: path.clone(),
                                                size: m.size,
                                                created: m.created,
                                                modified: m.modified,
                                                is_dir: true,
                                            };
                                            let ghost children0 = children@;
                                            self.dir_stack.push(frame);
                                            let child = OpenListing { path, entries: children };
                                            self.dir_stack.push(child);
                                            proof {
                                                let ghost child_out = listing_output(
                                                    children0,
                                                    entry.path@,
                                                    rec,
                                                    hid,
                                                );
                                                assert(self.dir_stack@.drop_last() =~= popped.push(
                                                    frame,
                                                ));
                                                assert(popped.push(frame).drop_last() =~= popped);
                                                assert(stack_output(popped.push(frame), rec, hid)
                                                    == listing_output(rest, fpath, rec, hid)
                                                    + stack_output(popped, rec, hid));
                                                assert(self.dir_stack@.last() == child);
                                                assert(child.path@ == entry.path@);
                                                assert(child.entries@ == children0);
                                                assert(self.remaining() =~= child_out + rest_out);
                                                assert(raw_output(entries0[0], fpath, rec, hid)
                                                    =~= seq![
                                                    item_view(Ok::<FileEntry, TraversalError>(
                                                        entry,
                                                    )),
                                                ] + child_out);
                                                assert(old(self).remaining() =~= seq![item_view(
                                                    Ok::<FileEntry, TraversalError>(entry),
                                                )] + (child_out + rest_out));
                                                assert(old(self).remaining().drop_first()
                                                    =~= child_out + rest_out);
                                            }
                                            return Some(Ok(entry));
                                        },
                                    }
                                },
                            }
                        },
                    }
                },
            }
        }
    }
}

// ---------------------------------------------------------------------------
// Laws of the traversal
// ---------------------------------------------------------------------------

/// Whether one listing slot is readable through and through: the slot
/// reads, the node's metadata is known, and a directory's own listing is
/// openable and readable in turn.
pub open spec fn entry_readable(e: RawEntry) -> bool
    decreases e,
{
    match e {
        RawEntry::Unreadable => false,
        RawEntry::Present(n) => n.meta is Known && match n.kind {
            NodeKind::File => true,
            NodeKind::Dir(DirListing::Unopenable) => false,
            NodeKind::Dir(DirListing::Listed(children)) => listing_readable(children@),
        },
    }
}

/// Whether every slot of a listing is readable through and through.
pub open spec fn listing_readable(s: Seq<RawEntry>) -> bool
    decreases s,
{
    s.len() == 0 || (entry_readable(s[0]) && listing_readable(s.drop_first()))
}

/// Every node below one listing slot, in depth-first order, each directory
/// before its own children.
pub open spec fn entry_descendants(e: RawEntry, dir_path: Seq<char>) -> Seq<EntrySpec>
    decreases e,
{
    match e {
        RawEntry::Unreadable => Seq::empty(),
        RawEntry::Present(n) => seq![yielded_entry(n, dir_path)] + (match n.kind {
            NodeKind::Dir(DirListing::Listed(children)) => listing_descendants(
                children@,
                joined_path(dir_path, n.name@),
            ),
            _ => Seq::empty(),
        }),
    }
}

/// Every node below a listing, in depth-first order.
pub open spec fn listing_descendants(s: Seq<RawEntry>, dir_path: Seq<char>) -> Seq<EntrySpec>
    decreases s,
{
    if s.len() == 0 {
        Seq::empty()
    } else {
        entry_descendants(s[0], dir_path) + listing_descendants(s.drop_first(), dir_path)
    }
}

/// Non-recursive traversal of a readable listing, hidden entries included,
/// yields exactly the immediate children of the root, files and
/// directories alike, in listing order.
pub proof fn lemma_non_recursive_yields_children(s: Seq<RawEntry>, dir_path: Seq<char>)
    requires
        listing_readable(s),
    ensures
        listing_output(s, dir_path, false, true) == Seq::new(
            s.len(),
            |i: int| Ok::<EntrySpec, TraversalErrorSpec>(yielded_entry(s[i]->Present_0, dir_path)),
        ),
    decreases s.len(),
{
    let out = listing_output(s, dir_path, false, true);
    let want = Seq::new(
        s.len(),
        |i: int| Ok::<EntrySpec, TraversalErrorSpec>(yielded_entry(s[i]->Present_0, dir_path)),
    );
    if s.len() == 0 {
        assert(out =~= want);
    } else {
        lemma_non_recursive_yields_children(s.drop_first(), dir_path);
        let rest = listing_output(s.drop_first(), dir_path, false, true);
        assert(out == raw_output(s[0], dir_path, false, true) + rest);
        assert(entry_readable(s[0]));
        assert(s[0] is Present);
        assert(s[0]->Present_0.meta is Known);
        assert(raw_output(s[0], dir_path, false, true) =~= seq![Ok::<
            EntrySpec,
            TraversalErrorSpec,
        >(yielded_entry(s[0]->Present_0, dir_path))]);
        assert forall|i: int| 0 <= i < want.len() implies out[i] == want[i] by {
            if i > 0 {
                assert(s.drop_first()[i - 1] == s[i]);
            }
        }
        assert(out.len() == want.len());
        assert(out =~= want);
    }
}

proof fn lemma_entry_recursive_yields_descendants(e: RawEntry, dir_path: Seq<char>)
    requires
        entry_readable(e),
    ensures
        raw_output(e, dir_path, true, true) == entry_descendants(e, dir_path).map_values(
            |x: EntrySpec| Ok::<EntrySpec, TraversalErrorSpec>(x),
        ),
    decreases e,
{
    let n = e->Present_0;
    match n.kind {
        NodeKind::Dir(DirListing::Listed(children)) => {
            lemma_recursive_yields_descendants(children@, joined_path(dir_path, n.name@));
        },
        _ => {},
    }
    assert(raw_output(e, dir_path, true, true) =~= entry_descendants(e, dir_path).map_values(
        |x: EntrySpec| Ok::<EntrySpec, TraversalErrorSpec>(x),
    ));
}

/// Recursive traversal of a readable listing, hidden entries included,
/// yields every descendant at every depth exactly once: the output is the
/// depth-first descendant sequence itself, each directory before its own
/// children, each child batch before earlier siblings resume. In
/// particular, with the hidden-entry flag set an entry whose name starts
/// with '.' is present exactly once, like every other descendant.
pub proof fn lemma_recursive_yields_descendants(s: Seq<RawEntry>, dir_path: Seq<char>)
    requires
        listing_readable(s),
    ensures
        listing_output(s, dir_path, true, true) == listing_descendants(s, dir_path).map_values(
            |x: EntrySpec| Ok::<EntrySpec, TraversalErrorSpec>(x),
        ),
    decreases s,
{
    if s.len() == 0 {
        assert(listing_output(s, dir_path, true, true) =~= listing_descendants(
            s,
            dir_path,
        ).map_values(|x: EntrySpec| Ok::<EntrySpec, TraversalErrorSpec>(x)));
    } else {
        lemma_entry_recursive_yields_descendants(s[0], dir_path);
        lemma_recursive_yields_descendants(s.drop_first(), dir_path);
        assert(listing_output(s, dir_path, true, true) =~= listing_descendants(
            s,
            dir_path,
        ).map_values(|x: EntrySpec| Ok::<EntrySpec, TraversalErrorSpec>(x)));
    }
}

/// No yielded entry of an output is hidden.
pub open spec fn no_hidden_entries(out: Seq<ItemSpec>) -> bool {
    forall|i: int|
        0 <= i < out.len() && out[i] is Ok ==> !is_hidden_name(#[trigger] out[i]->Ok_0.name)
}

proof fn lemma_no_hidden_concat(a: Seq<ItemSpec>, b: Seq<ItemSpec>)
    requires
        no_hidden_entries(a),
        no_hidden_entries(b),
    ensures
        no_hidden_entries(a + b),
{
    assert forall|i: int| 0 <= i < (a + b).len() && (a + b)[i] is Ok implies !is_hidden_name(
        #[trigger] (a + b)[i]->Ok_0.name,
    ) by {
        if i < a.len() {
            assert((a + b)[i] == a[i]);
        } else {
            assert((a + b)[i] == b[i - a.len()]);
        }
    }
}

proof fn lemma_singleton_no_hidden(item: ItemSpec)
    requires
        item is Ok ==> !is_hidden_name(item->Ok_0.name),
    ensures
        no_hidden_entries(seq![item]),
{
    assert forall|i: int| 0 <= i < seq![item].len() && seq![item][i] is Ok implies !is_hidden_name(
        #[trigger] seq![item][i]->Ok_0.name,
    ) by {
        assert(seq![item][i] == item);
    }
}

proof fn lemma_raw_hidden_entries_absent(e: RawEntry, dir_path: Seq<char>, recursive: bool)
    ensures
        no_hidden_entries(raw_output(e, dir_path, recursive, false)),
    decreases e,
{
    let out = raw_output(e, dir_path, recursive, false);
    match e {
        RawEntry::Unreadable => {
            lemma_singleton_no_hidden(out[0]);
            assert(out =~= seq![out[0]]);
        },
        RawEntry::Present(n) => {
            if n.meta is Unreadable {
                lemma_singleton_no_hidden(out[0]);
                assert(out =~= seq![out[0]]);
            } else if is_hidden_name(n.name@) {
                assert(out =~= Seq::<ItemSpec>::empty());
            } else if recursive && n.kind is Dir {
                match n.kind->Dir_0 {
                    DirListing::Unopenable => {
                        lemma_singleton_no_hidden(out[0]);
                        assert(out =~= seq![out[0]]);
                    },
                    DirListing::Listed(children) => {
                        let head = seq![
                            Ok::<EntrySpec, TraversalErrorSpec>(yielded_entry(n, dir_path)),
                        ];
                        lemma_singleton_no_hidden(head[0]);
                        assert(head =~= seq![head[0]]);
                        lemma_listing_hidden_entries_absent(
                            children@,
                            joined_path(dir_path, n.name@),
                            recursive,
                        );
                        lemma_no_hidden_concat(
                            head,
                            listing_output(
                                children@,
                                joined_path(dir_path, n.name@),
                                recursive,
                                false,
                            ),
                        );
                    },
                }
            } else {
                lemma_singleton_no_hidden(out[0]);
                assert(out =~= seq![out[0]]);
            }
        },
    }
}

/// With the hidden-entry flag unset, every entry whose name starts with
/// '.' is absent from the produced sequence, and so is everything below
/// it: no yielded entry is hidden.
pub proof fn lemma_listing_hidden_entries_absent(
    s: Seq<RawEntry>,
    dir_path: Seq<char>,
    recursive: bool,
)
    ensures
        no_hidden_entries(listing_output(s, dir_path, recursive, false)),
    decreases s,
{
    if s.len() == 0 {
        assert(no_hidden_entries(listing_output(s, dir_path, recursive, false)));
    } else {
        lemma_raw_hidden_entries_absent(s[0], dir_path, recursive);
        lemma_listing_hidden_entries_absent(s.drop_first(), dir_path, recursive);
        lemma_no_hidden_concat(
            raw_output(s[0], dir_path, recursive, false),
            listing_output(s.drop_first(), dir_path, recursive, false),
        );
    }
}

} // verus!
