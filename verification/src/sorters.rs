//! Categorization: partitioning a batch of already-collected entries into
//! named buckets by extension, size band, or calendar date, plus the
//! collection step that splits a traversal's output into files and
//! sub-directories and aborts on the first error.

use vstd::prelude::*;
use vstd::seq_lib::{group_to_multiset_ensures, lemma_multiset_commutative};
use crate::dates::date_label_spec;
use crate::entries::{EntrySpec, FileEntry, ItemSpec, TraversalError, TraversalErrorSpec};
use crate::file_list::FilesList;
use crate::text::{dec_str, extension_of, extension_str};

verus! {

/// The mathematical values of a batch of entries.
pub open spec fn entries_view(v: Seq<FileEntry>) -> Seq<EntrySpec> {
    v.map_values(|f: FileEntry| f@)
}

/// The mathematical values of a batch of paths.
pub open spec fn paths_view(v: Seq<String>) -> Seq<Seq<char>> {
    v.map_values(|s: String| s@)
}

// ---------------------------------------------------------------------------
// Buckets and partitions
// ---------------------------------------------------------------------------

/// One bucket: a key and the entries assigned to it, in assignment order.
pub struct Bucket {
    pub key: String,
    pub files: Vec<FileEntry>,
}

/// The mathematical value of one bucket.
pub struct BucketSpec {
    pub key: Seq<char>,
    pub files: Seq<EntrySpec>,
}

impl View for Bucket {
    type V = BucketSpec;

    open spec fn view(&self) -> BucketSpec {
        BucketSpec { key: self.key@, files: entries_view(self.files@) }
    }
}

/// A partition of entries into named buckets. Buckets are created on first
/// insertion and keep the order in which their keys first appeared; no key
/// appears twice.
pub struct SortedFiles {
    pub buckets: Vec<Bucket>,
}

impl View for SortedFiles {
    type V = Seq<BucketSpec>;

    open spec fn view(&self) -> Seq<BucketSpec> {
        self.buckets@.map_values(|b: Bucket| b@)
    }
}

/// One entry appended to the bucket with its key: the first bucket holding
/// the key receives it, and a new bucket at the end is opened when none
/// does.
pub open spec fn bucket_insert(bs: Seq<BucketSpec>, key: Seq<char>, e: EntrySpec) -> Seq<
    BucketSpec,
>
    decreases bs.len(),
{
    if bs.len() == 0 {
        seq![BucketSpec { key, files: seq![e] }]
    } else if bs[0].key == key {
        seq![BucketSpec { key, files: bs[0].files.push(e) }] + bs.drop_first()
    } else {
        seq![bs[0]] + bucket_insert(bs.drop_first(), key, e)
    }
}

/// The partition of a batch of entries under a key function: each entry in
/// order is appended to the bucket with its key.
pub open spec fn partition_spec(
    entries: Seq<EntrySpec>,
    keyf: spec_fn(EntrySpec) -> Seq<char>,
) -> Seq<BucketSpec>
    decreases entries.len(),
{
    if entries.len() == 0 {
        Seq::empty()
    } else {
        bucket_insert(
            partition_spec(entries.drop_last(), keyf),
            keyf(entries.last()),
            entries.last(),
        )
    }
}

proof fn lemma_bucket_insert_found(bs: Seq<BucketSpec>, key: Seq<char>, e: EntrySpec, i: int)
    requires
        0 <= i < bs.len(),
        bs[i].key == key,
        forall|k: int| 0 <= k < i ==> bs[k].key != key,
    ensures
        bucket_insert(bs, key, e) == bs.update(
            i,
            BucketSpec { key, files: bs[i].files.push(e) },
        ),
    decreases bs.len(),
{
    if i == 0 {
        assert(bucket_insert(bs, key, e) =~= bs.update(
            0,
            BucketSpec { key, files: bs[0].files.push(e) },
        ));
    } else {
        assert(forall|k: int| 0 <= k < i - 1 ==> #[trigger] bs.drop_first()[k].key != key);
        lemma_bucket_insert_found(bs.drop_first(), key, e, i - 1);
        assert(bs.drop_first()[i - 1] == bs[i]);
        assert(bucket_insert(bs, key, e) =~= bs.update(
            i,
            BucketSpec { key, files: bs[i].files.push(e) },
        ));
    }
}

proof fn lemma_bucket_insert_missing(bs: Seq<BucketSpec>, key: Seq<char>, e: EntrySpec)
    requires
        forall|k: int| 0 <= k < bs.len() ==> bs[k].key != key,
    ensures
        bucket_insert(bs, key, e) == bs.push(BucketSpec { key, files: seq![e] }),
    decreases bs.len(),
{
    if bs.len() == 0 {
        assert(bucket_insert(bs, key, e) =~= bs.push(BucketSpec { key, files: seq![e] }));
    } else {
        assert(forall|k: int| 0 <= k < bs.len() - 1 ==> #[trigger] bs.drop_first()[k].key != key);
        lemma_bucket_insert_missing(bs.drop_first(), key, e);
        assert(bucket_insert(bs, key, e) =~= bs.push(BucketSpec { key, files: seq![e] }));
    }
}

impl SortedFiles {
    /// Well-formedness: no key appears twice; every entry of a bucket was
    /// assigned that bucket's key.
    pub open spec fn wf(&self) -> bool {
        forall|i: int, j: int| 0 <= i < j < self@.len() ==> self@[i].key != self@[j].key
    }

    /// An empty partition.
    pub fn new() -> (r: SortedFiles)
        ensures
            r@ == Seq::<BucketSpec>::empty(),
    {
        let r = SortedFiles { buckets: Vec::new() };
        proof {
            assert(r@ =~= Seq::<BucketSpec>::empty());
        }
        r
    }

    /// How many buckets the partition holds.
    pub fn len(&self) -> (r: usize)
        ensures
            r == self@.len(),
    {
        self.buckets.len()
    }

    /// The position of the first bucket keyed by `key`, if any.
    fn find_bucket(&self, key: &str) -> (r: Option<usize>)
        ensures
            match r {
                Some(i) => i < self@.len() && self@[i as int].key == key@ && (forall|k: int|
                    0 <= k < i ==> self@[k].key != key@),
                None => forall|k: int| 0 <= k < self@.len() ==> self@[k].key != key@,
            },
    {
        let n = self.buckets.len();
        let mut i: usize = 0;
        while i < n
            invariant
                i <= n,
                n == self.buckets@.len(),
                forall|k: int| 0 <= k < i ==> self@[k].key != key@,
            decreases n - i,
        {
            if crate::text::str_eq(self.buckets[i].key.as_str(), key) {
                return Some(i);
            }
            i += 1;
        }
        None
    }

    /// Whether some bucket is keyed by `key`.
    pub fn contains_key(&self, key: &str) -> (r: bool)
        ensures
            r == exists|i: int| 0 <= i < self@.len() && self@[i].key == key@,
    {
        match self.find_bucket(key) {
            Some(i) => {
                proof {
                    assert(self@[i as int].key == key@);
                }
                true
            },
            None => false,
        }
    }

    /// The entries of the bucket keyed by `key`, if any.
    pub fn get(&self, key: &str) -> (r: Option<&Vec<FileEntry>>)
        ensures
            match r {
                Some(files) => exists|i: int|
                    0 <= i < self@.len() && self@[i].key == key@ && entries_view(files@)
                        == self@[i].files,
                None => forall|k: int| 0 <= k < self@.len() ==> self@[k].key != key@,
            },
    {
        match self.find_bucket(key) {
            Some(i) => {
                let files = &self.buckets[i].files;
                proof {
                    let gi = i as int;
                    assert(self@[gi].key == key@ && entries_view(files@) == self@[gi].files);
                }
                Some(files)
            },
            None => None,
        }
    }

    /// Appends one entry to the bucket keyed by `key`, opening the bucket
    /// when it does not exist yet.
    fn insert(&mut self, key: String, file: FileEntry)
        ensures
            final(self)@ == bucket_insert(old(self)@, key@, file@),
    {
        let ghost bs0 = self@;
        match self.find_bucket(key.as_str()) {
            Some(i) => {
                let mut b = self.buckets.remove(i);
                b.files.push(file);
                self.buckets.insert(i, b);
                proof {
                    lemma_bucket_insert_found(bs0, key@, file@, i as int);
                    assert(entries_view(b.files@) =~= bs0[i as int].files.push(file@));
                    assert(self@ =~= bs0.update(
                        i as int,
                        BucketSpec { key: key@, files: bs0[i as int].files.push(file@) },
                    ));
                }
            },
            None => {
                let mut files: Vec<FileEntry> = Vec::new();
                files.push(file);
                self.buckets.push(Bucket { key, files });
                proof {
                    lemma_bucket_insert_missing(bs0, key@, file@);
                    assert(entries_view(seq![file]) =~= seq![file@]);
                    assert(self@ =~= bs0.push(BucketSpec { key: key@, files: seq![file@] }));
                }
            },
        }
    }
}

// ---------------------------------------------------------------------------
// Size bands
// ---------------------------------------------------------------------------

/// A byte length reduced to its magnitude class: kilobytes below 2^20
/// bytes, megabytes below 2^30 bytes, gigabytes above.
#[derive(Clone, Copy, PartialEq, Eq, Structural, Debug)]
pub enum FileSize {
    KB(u64),
    MB(u64),
    GB(u64),
}

impl FileSize {
    /// The magnitude class of a byte length.
    pub open spec fn from_bytes_spec(bytes: u64) -> FileSize {
        if bytes < 1048576 {
            FileSize::KB((bytes as int / 1024) as u64)
        } else if bytes < 1073741824 {
            FileSize::MB((bytes as int / 1048576) as u64)
        } else {
            FileSize::GB((bytes as int / 1073741824) as u64)
        }
    }

    /// Reduces a byte length to its magnitude class.
    pub fn from_bytes(bytes: u64) -> (r: FileSize)
        ensures
            r == FileSize::from_bytes_spec(bytes),
    {
        if bytes < 1048576 {
            FileSize::KB(bytes / 1024)
        } else if bytes < 1073741824 {
            FileSize::MB(bytes / 1048576)
        } else {
            FileSize::GB(bytes / 1073741824)
        }
    }

    /// The band label: kilobyte and megabyte values are banded into the
    /// enclosing multiple-of-100 range; gigabyte values stand alone.
    pub open spec fn label_spec(self) -> Seq<char> {
        match self {
            FileSize::KB(v) => band_label_spec(v, " KB"@),
            FileSize::MB(v) => band_label_spec(v, " MB"@),
            FileSize::GB(v) => dec_str(v as nat) + " GB"@,
        }
    }

    /// Renders the band label.
    pub fn label(&self) -> (r: String)
        ensures
            r@ == self.label_spec(),
    {
        match self {
            FileSize::KB(v) => band_label(*v, " KB"),
            FileSize::MB(v) => band_label(*v, " MB"),
            FileSize::GB(v) => {
                proof {
                    reveal_strlit(" GB");
                }
                let mut s = crate::text::u64_to_dec(*v);
                s.append(" GB");
                s
            },
        }
    }
}

/// The banded range label `"{start}-{start + 99}{unit}"`, where `start` is
/// the value rounded down to a multiple of 100.
pub open spec fn band_label_spec(v: u64, unit: Seq<char>) -> Seq<char> {
    let start = (v as nat / 100) * 100;
    dec_str(start) + seq!['-'] + dec_str(start + 99) + unit
}

fn band_label(v: u64, unit: &str) -> (r: String)
    ensures
        r@ == band_label_spec(v, unit@),
{
    proof {
        reveal_strlit("-");
        assert("-"@ =~= seq!['-']);
    }
    let start: u64 = v / 100 * 100;
    let upper: u128 = start as u128 + 99;
    let mut s = crate::text::u64_to_dec(start);
    s.append("-");
    s.append(crate::text::uint_to_dec(upper).as_str());
    s.append(unit);
    s
}

/// The magnitude class as a rank: kilobytes, then megabytes, then
/// gigabytes.
pub open spec fn size_scale(fs: FileSize) -> int {
    match fs {
        FileSize::KB(_) => 0,
        FileSize::MB(_) => 1,
        FileSize::GB(_) => 2,
    }
}

/// Where a magnitude class's band begins: the value rounded down to a
/// multiple of 100 for kilobytes and megabytes, the value itself for
/// gigabytes.
pub open spec fn size_band_start(fs: FileSize) -> int {
    match fs {
        FileSize::KB(v) => (v as int / 100) * 100,
        FileSize::MB(v) => (v as int / 100) * 100,
        FileSize::GB(v) => v as int,
    }
}

/// Size banding is monotonic: of two byte lengths, the larger never lands
/// in a lower magnitude class, nor in an earlier band of the same class.
pub proof fn lemma_size_banding_monotonic(b1: u64, b2: u64)
    requires
        b1 <= b2,
    ensures
        ({
            let f1 = FileSize::from_bytes_spec(b1);
            let f2 = FileSize::from_bytes_spec(b2);
            size_scale(f1) < size_scale(f2) || (size_scale(f1) == size_scale(f2)
                && size_band_start(f1) <= size_band_start(f2))
        }),
{
    broadcast use vstd::arithmetic::div_mod::lemma_div_is_ordered;

    let f1 = FileSize::from_bytes_spec(b1);
    let f2 = FileSize::from_bytes_spec(b2);
    if size_scale(f1) == size_scale(f2) {
        let d: int = if f1 is KB {
            1024
        } else if f1 is MB {
            1048576
        } else {
            1073741824
        };
        assert(b1 as int / d <= b2 as int / d);
        assert((b1 as int / d) / 100 <= (b2 as int / d) / 100);
    }
}

// ---------------------------------------------------------------------------
// The three categorizers
// ---------------------------------------------------------------------------

/// The bucket key of an entry when categorizing by extension: its extension
/// text, or the no-extension label when it has none.
pub open spec fn extension_key_spec(e: EntrySpec) -> Seq<char> {
    if extension_of(e.name).len() == 0 {
        "no_extension"@
    } else {
        extension_of(e.name)
    }
}

/// The key function of categorization by extension.
pub open spec fn extension_key_fn() -> spec_fn(EntrySpec) -> Seq<char> {
    |e: EntrySpec| extension_key_spec(e)
}

/// The key function of categorization by size band.
pub open spec fn size_key_fn() -> spec_fn(EntrySpec) -> Seq<char> {
    |e: EntrySpec| FileSize::from_bytes_spec(e.size).label_spec()
}

/// The key function of categorization by creation date.
pub open spec fn date_key_fn() -> spec_fn(EntrySpec) -> Seq<char> {
    |e: EntrySpec| date_label_spec(e.created)
}

/// Buckets a batch of entries by extension; files without one land under
/// the no-extension label.
pub fn sort_by_extension(files: Vec<FileEntry>) -> (r: SortedFiles)
    ensures
        r@ == partition_spec(entries_view(files@), extension_key_fn()),
        r.wf(),
{
    let ghost files0 = files@;
    let mut files = files;
    let mut sorted_files = SortedFiles::new();
    let ghost mut done: int = 0;
    while files.len() > 0
        invariant
            0 <= done <= files0.len(),
            files@ == files0.skip(done),
            sorted_files@ == partition_spec(entries_view(files0.take(done)), extension_key_fn()),
        decreases files@.len(),
    {
        let entry = files.remove(0);
        let ext = extension_str(entry.name.as_str());
        let key = if ext.unicode_len() == 0 {
            "no_extension".to_owned()
        } else {
            ext
        };
        proof {
            assert(entry == files0[done]);
            assert(key@ == extension_key_fn()(entry@));
        }
        sorted_files.insert(key, entry);
        proof {
            lemma_partition_take_step(files0, done, extension_key_fn());
            done = done + 1;
            assert(files@ =~= files0.skip(done));
        }
    }
    proof {
        assert(files0.take(done) =~= files0);
        lemma_partition_exhaustive_disjoint(entries_view(files0), extension_key_fn());
    }
    sorted_files
}

/// Buckets a batch of entries by size band.
pub fn sort_by_size(files: Vec<FileEntry>) -> (r: SortedFiles)
    ensures
        r@ == partition_spec(entries_view(files@), size_key_fn()),
        r.wf(),
{
    let ghost files0 = files@;
    let mut files = files;
    let mut sorted_files = SortedFiles::new();
    let ghost mut done: int = 0;
    while files.len() > 0
        invariant
            0 <= done <= files0.len(),
            files@ == files0.skip(done),
            sorted_files@ == partition_spec(entries_view(files0.take(done)), size_key_fn()),
        decreases files@.len(),
    {
        let entry = files.remove(0);
        let key = FileSize::from_bytes(entry.size).label();
        proof {
            assert(entry == files0[done]);
            assert(key@ == size_key_fn()(entry@));
        }
        sorted_files.insert(key, entry);
        proof {
            lemma_partition_take_step(files0, done, size_key_fn());
            done = done + 1;
            assert(files@ =~= files0.skip(done));
        }
    }
    proof {
        assert(files0.take(done) =~= files0);
        lemma_partition_exhaustive_disjoint(entries_view(files0), size_key_fn());
    }
    sorted_files
}

/// Buckets a batch of entries by the calendar date of their creation
/// timestamp.
pub fn sort_by_date(files: Vec<FileEntry>) -> (r: SortedFiles)
    ensures
        r@ == partition_spec(entries_view(files@), date_key_fn()),
        r.wf(),
{
    let ghost files0 = files@;
    let mut files = files;
    let mut sorted_files = SortedFiles::new();
    let ghost mut done: int = 0;
    while files.len() > 0
        invariant
            0 <= done <= files0.len(),
            files@ == files0.skip(done),
            sorted_files@ == partition_spec(entries_view(files0.take(done)), date_key_fn()),
        decreases files@.len(),
    {
        let entry = files.remove(0);
        let key = crate::dates::date_label(&entry.created);
        proof {
            assert(entry == files0[done]);
            assert(key@ == date_key_fn()(entry@));
        }
        sorted_files.insert(key, entry);
        proof {
            lemma_partition_take_step(files0, done, date_key_fn());
            done = done + 1;
            assert(files@ =~= files0.skip(done));
        }
    }
    proof {
        assert(files0.take(done) =~= files0);
        lemma_partition_exhaustive_disjoint(entries_view(files0), date_key_fn());
    }
    sorted_files
}

proof fn lemma_partition_take_step(
    files0: Seq<FileEntry>,
    done: int,
    keyf: spec_fn(EntrySpec) -> Seq<char>,
)
    requires
        0 <= done < files0.len(),
    ensures
        partition_spec(entries_view(files0.take(done + 1)), keyf) == bucket_insert(
            partition_spec(entries_view(files0.take(done)), keyf),
            keyf(files0[done]@),
            files0[done]@,
        ),
{
    let cur = entries_view(files0.take(done + 1));
    assert(cur.len() == done + 1);
    assert(cur.last() == files0[done]@);
    assert(cur.drop_last() =~= entries_view(files0.take(done)));
}

// ---------------------------------------------------------------------------
// The partition laws
// ---------------------------------------------------------------------------

/// Every entry of every bucket, in bucket order.
pub open spec fn buckets_all_files(bs: Seq<BucketSpec>) -> Seq<EntrySpec>
    decreases bs.len(),
{
    if bs.len() == 0 {
        Seq::empty()
    } else {
        bs[0].files + buckets_all_files(bs.drop_first())
    }
}

proof fn lemma_bucket_insert_props(
    bs: Seq<BucketSpec>,
    key: Seq<char>,
    e: EntrySpec,
    keyf: spec_fn(EntrySpec) -> Seq<char>,
)
    requires
        keyf(e) == key,
        forall|i: int, j: int|
            0 <= i < bs.len() && 0 <= j < bs[i].files.len() ==> keyf(#[trigger] bs[i].files[j])
                == bs[i].key,
        forall|i: int, j: int| 0 <= i < j < bs.len() ==> bs[i].key != bs[j].key,
    ensures
        ({
            let out = bucket_insert(bs, key, e);
            &&& forall|i: int, j: int|
                0 <= i < out.len() && 0 <= j < out[i].files.len() ==> keyf(
                    #[trigger] out[i].files[j],
                ) == out[i].key
            &&& forall|i: int, j: int| 0 <= i < j < out.len() ==> out[i].key != out[j].key
            &&& buckets_all_files(out).to_multiset() == buckets_all_files(bs).to_multiset().insert(
                e,
            )
        }),
    decreases bs.len(),
{
    broadcast use group_to_multiset_ensures;
    broadcast use lemma_multiset_commutative;

    let out = bucket_insert(bs, key, e);
    if bs.len() == 0 {
        let single = seq![BucketSpec { key, files: seq![e] }];
        assert(out =~= single);
        assert(single.drop_first() =~= Seq::<BucketSpec>::empty());
        assert(buckets_all_files(Seq::<BucketSpec>::empty()) =~= Seq::<EntrySpec>::empty());
        assert(buckets_all_files(single.drop_first()) == Seq::<EntrySpec>::empty());
        assert(buckets_all_files(single) =~= seq![e]);
        assert(buckets_all_files(out) =~= seq![e]);
        assert(seq![e] =~= Seq::<EntrySpec>::empty().push(e));
        assert(buckets_all_files(out).to_multiset() =~= buckets_all_files(
            bs,
        ).to_multiset().insert(e));
    } else if bs[0].key == key {
        let b = BucketSpec { key, files: bs[0].files.push(e) };
        assert(out =~= seq![b] + bs.drop_first());
        assert(out.drop_first() =~= bs.drop_first());
        assert(buckets_all_files(out) == b.files + buckets_all_files(bs.drop_first()));
        assert(buckets_all_files(out).to_multiset() =~= buckets_all_files(
            bs,
        ).to_multiset().insert(e)) by {
            lemma_multiset_commutative(b.files, buckets_all_files(bs.drop_first()));
            lemma_multiset_commutative(bs[0].files, buckets_all_files(bs.drop_first()));
            assert(b.files.to_multiset() =~= bs[0].files.to_multiset().insert(e));
        }
        assert forall|i: int, j: int|
            0 <= i < out.len() && 0 <= j < out[i].files.len() implies keyf(
            #[trigger] out[i].files[j],
        ) == out[i].key by {
            if i == 0 {
                if j < bs[0].files.len() {
                    assert(keyf(bs[0].files[j]) == bs[0].key);
                }
            } else {
                assert(out[i] == bs[i]);
            }
        }
    } else {
        let tail0 = bs.drop_first();
        assert(forall|i: int, j: int|
            0 <= i < tail0.len() && 0 <= j < tail0[i].files.len() ==> keyf(
                #[trigger] tail0[i].files[j],
            ) == tail0[i].key);
        assert(forall|i: int, j: int| 0 <= i < j < tail0.len() ==> tail0[i].key != tail0[j].key);
        lemma_bucket_insert_props(tail0, key, e, keyf);
        let tail1 = bucket_insert(tail0, key, e);
        assert(out =~= seq![bs[0]] + tail1);
        assert(out.drop_first() =~= tail1);
        assert(buckets_all_files(out) == bs[0].files + buckets_all_files(tail1));
        assert(buckets_all_files(out).to_multiset() =~= buckets_all_files(
            bs,
        ).to_multiset().insert(e)) by {
            lemma_multiset_commutative(bs[0].files, buckets_all_files(tail1));
            lemma_multiset_commutative(bs[0].files, buckets_all_files(tail0));
        }
        lemma_bucket_insert_key_membership(tail0, key, e);
        assert forall|i: int, j: int| 0 <= i < j < out.len() implies out[i].key != out[j].key by {
            if i > 0 {
                assert(out[i] == tail1[i - 1] && out[j] == tail1[j - 1]);
            } else {
                assert(out[j] == tail1[j - 1]);
            }
        }
        assert forall|i: int, j: int|
            0 <= i < out.len() && 0 <= j < out[i].files.len() implies keyf(
            #[trigger] out[i].files[j],
        ) == out[i].key by {
            if i > 0 {
                assert(out[i] == tail1[i - 1]);
            }
        }
    }
}

proof fn lemma_bucket_insert_key_membership(bs: Seq<BucketSpec>, key: Seq<char>, e: EntrySpec)
    ensures
        forall|i: int|
            0 <= i < bucket_insert(bs, key, e).len() ==> #[trigger] bucket_insert(
                bs,
                key,
                e,
            )[i].key == key || (exists|k: int|
                0 <= k < bs.len() && bs[k].key == bucket_insert(bs, key, e)[i].key),
    decreases bs.len(),
{
    let out = bucket_insert(bs, key, e);
    if bs.len() == 0 {
    } else if bs[0].key == key {
    } else {
        lemma_bucket_insert_key_membership(bs.drop_first(), key, e);
        let tail1 = bucket_insert(bs.drop_first(), key, e);
        assert forall|i: int|
            0 <= i < out.len() implies #[trigger] out[i].key == key || (exists|k: int|
            0 <= k < bs.len() && bs[k].key == out[i].key) by {
            if i == 0 {
                assert(bs[0].key == out[0].key);
            } else {
                assert(out[i] == tail1[i - 1]);
                if tail1[i - 1].key != key {
                    let k = choose|k: int|
                        0 <= k < bs.drop_first().len() && bs.drop_first()[k].key == tail1[i
                            - 1].key;
                    assert(bs[k + 1].key == out[i].key);
                }
            }
        }
    }
}

/// Categorization partitions are exhaustive and disjoint: every bucket's
/// entries carry that bucket's key, no two buckets share a key, and the
/// entries of all buckets together are exactly the input batch.
pub proof fn lemma_partition_exhaustive_disjoint(
    entries: Seq<EntrySpec>,
    keyf: spec_fn(EntrySpec) -> Seq<char>,
)
    ensures
        ({
            let bs = partition_spec(entries, keyf);
            &&& forall|i: int, j: int|
                0 <= i < bs.len() && 0 <= j < bs[i].files.len() ==> keyf(#[trigger] bs[i].files[j])
                    == bs[i].key
            &&& forall|i: int, j: int| 0 <= i < j < bs.len() ==> bs[i].key != bs[j].key
            &&& buckets_all_files(bs).to_multiset() == entries.to_multiset()
        }),
    decreases entries.len(),
{
    broadcast use group_to_multiset_ensures;

    if entries.len() == 0 {
        assert(partition_spec(entries, keyf) =~= Seq::<BucketSpec>::empty());
        assert(buckets_all_files(Seq::<BucketSpec>::empty()).to_multiset()
            =~= entries.to_multiset());
    } else {
        let prefix = entries.drop_last();
        let e = entries.last();
        lemma_partition_exhaustive_disjoint(prefix, keyf);
        lemma_bucket_insert_props(partition_spec(prefix, keyf), keyf(e), e, keyf);
        assert(prefix.push(e) =~= entries);
        assert(prefix.push(e).to_multiset() =~= prefix.to_multiset().insert(e));
    }
}

// ---------------------------------------------------------------------------
// Collection and the full categorization step
// ---------------------------------------------------------------------------

/// What collecting a traversal's output yields: the file entries and the
/// sub-directory paths, in traversal order, or the first error item,
/// aborting the whole batch.
pub open spec fn collect_spec(items: Seq<ItemSpec>) -> Result<
    (Seq<EntrySpec>, Seq<Seq<char>>),
    TraversalErrorSpec,
>
    decreases items.len(),
{
    if items.len() == 0 {
        Ok((Seq::empty(), Seq::empty()))
    } else {
        match items[0] {
            Err(e) => Err(e),
            Ok(ent) => match collect_spec(items.drop_first()) {
                Err(e) => Err(e),
                Ok(rest) => if ent.is_dir {
                    Ok((rest.0, seq![ent.path] + rest.1))
                } else {
                    Ok((seq![ent] + rest.0, rest.1))
                },
            },
        }
    }
}

spec fn collect_prepend(
    fs: Seq<EntrySpec>,
    ds: Seq<Seq<char>>,
    rest: Result<(Seq<EntrySpec>, Seq<Seq<char>>), TraversalErrorSpec>,
) -> Result<(Seq<EntrySpec>, Seq<Seq<char>>), TraversalErrorSpec> {
    match rest {
        Err(e) => Err(e),
        Ok(p) => Ok((fs + p.0, ds + p.1)),
    }
}

/// Drains a traversal, splitting what it yields into file entries and
/// sub-directory paths; the first error item aborts the whole batch.
pub fn collect_directories(files_list: FilesList) -> (r: Result<
    (Vec<FileEntry>, Vec<String>),
    TraversalError,
>)
    ensures
        match (r, collect_spec(files_list.remaining())) {
            (Ok(pair), Ok(sp)) => entries_view(pair.0@) == sp.0 && paths_view(pair.1@) == sp.1,
            (Err(e), Err(es)) => e@ == es,
            _ => false,
        },
{
    let ghost items0 = files_list.remaining();
    let mut fl = files_list;
    let mut files: Vec<FileEntry> = Vec::new();
    let mut dirs: Vec<String> = Vec::new();
    proof {
        assert(entries_view(files@) =~= Seq::<EntrySpec>::empty());
        assert(paths_view(dirs@) =~= Seq::<Seq<char>>::empty());
        match collect_spec(items0) {
            Err(_) => {},
            Ok(p) => {
                assert(Seq::<EntrySpec>::empty() + p.0 =~= p.0);
                assert(Seq::<Seq<char>>::empty() + p.1 =~= p.1);
            },
        }
    }
    loop
        invariant
            items0 == files_list.remaining(),
            collect_spec(items0) == collect_prepend(
                entries_view(files@),
                paths_view(dirs@),
                collect_spec(fl.remaining()),
            ),
        decreases fl.remaining().len(),
    {
        let ghost rem_pre = fl.remaining();
        let ghost fsv = entries_view(files@);
        let ghost dsv = paths_view(dirs@);
        match fl.next() {
            None => {
                proof {
                    match collect_spec(items0) {
                        Err(_) => {},
                        Ok(p) => {
                            assert(fsv + Seq::<EntrySpec>::empty() =~= fsv);
                            assert(dsv + Seq::<Seq<char>>::empty() =~= dsv);
                        },
                    }
                }
                return Ok((files, dirs));
            },
            Some(item) => {
                proof {
                    assert(rem_pre[0] == crate::entries::item_view(item));
                }
                match item {
                    Err(e) => {
                        proof {
                            assert(collect_spec(rem_pre) == Err::<
                                (Seq<EntrySpec>, Seq<Seq<char>>),
                                TraversalErrorSpec,
                            >(e@));
                        }
                        return Err(e);
                    },
                    Ok(entry) => {
                        let ghost ev = entry@;
                        if entry.is_dir {
                            dirs.push(entry.path);
                            proof {
                                assert(paths_view(dirs@) =~= dsv.push(ev.path));
                                match collect_spec(fl.remaining()) {
                                    Err(_) => {},
                                    Ok(p) => {
                                        assert(dsv + (seq![ev.path] + p.1) =~= dsv.push(ev.path)
                                            + p.1);
                                    },
                                }
                            }
                        } else {
                            files.push(entry);
                            proof {
                                assert(entries_view(files@) =~= fsv.push(ev));
                                match collect_spec(fl.remaining()) {
                                    Err(_) => {},
                                    Ok(p) => {
                                        assert(fsv + (seq![ev] + p.0) =~= fsv.push(ev) + p.0);
                                    },
                                }
                            }
                        }
                    },
                }
            },
        }
    }
}

/// The mode a batch is categorized by.
#[derive(Clone, Copy, PartialEq, Eq, Structural, Debug)]
pub enum SortBy {
    Size,
    Ext,
    Date,
}

impl Default for SortBy {
    /// Categorization defaults to the calendar date.
    fn default() -> (r: Self)
        ensures
            r is Date,
    {
        SortBy::Date
    }
}

impl SortBy {
    /// The key function of this mode.
    pub open spec fn key_spec(self) -> spec_fn(EntrySpec) -> Seq<char> {
        match self {
            SortBy::Size => size_key_fn(),
            SortBy::Ext => extension_key_fn(),
            SortBy::Date => date_key_fn(),
        }
    }

    /// Partitions a batch of entries under this mode's key.
    pub fn sort(self, files: Vec<FileEntry>) -> (r: SortedFiles)
        ensures
            r@ == partition_spec(entries_view(files@), self.key_spec()),
            r.wf(),
    {
        match self {
            SortBy::Size => sort_by_size(files),
            SortBy::Ext => sort_by_extension(files),
            SortBy::Date => sort_by_date(files),
        }
    }
}

/// Drains a traversal and partitions the files it yielded under the given
/// mode, also handing back the sub-directory paths encountered; the first
/// traversal error aborts the whole batch.
pub fn sort_directory(files_list: FilesList, sort_by: SortBy) -> (r: Result<
    (SortedFiles, Vec<String>),
    TraversalError,
>)
    ensures
        match (r, collect_spec(files_list.remaining())) {
            (Ok(pair), Ok(sp)) => pair.0@ == partition_spec(sp.0, sort_by.key_spec())
                && paths_view(pair.1@) == sp.1,
            (Err(e), Err(es)) => e@ == es,
            _ => false,
        },
{
    match collect_directories(files_list) {
        Ok((files, inner_directories_paths)) => {
            let sorted_files = sort_by.sort(files);
            Ok((sorted_files, inner_directories_paths))
        },
        Err(e) => Err(e),
    }
}

} // verus!
