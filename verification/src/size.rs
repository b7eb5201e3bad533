//! Files grouped by size and content hash: the groups with more than one
//! name are the duplicates of a drive.

use crate::item::{views, Item, ItemType, ItemTypeView, ItemView};
use std::collections::BTreeMap;
use vstd::prelude::*;

verus! {

broadcast use vstd::laws_cmp::group_laws_cmp;

/// The content hash by which files of a drive are compared.
#[derive(Debug, Clone, PartialEq, Eq, Hash)]
pub enum ItemHash {
    Sha1(String),
    QuickXor(String),
}

/// An `ItemHash` as the contracts see it.
pub enum ItemHashView {
    Sha1(Seq<char>),
    QuickXor(Seq<char>),
}

impl View for ItemHash {
    type V = ItemHashView;

    open spec fn view(&self) -> ItemHashView {
        match *self {
            ItemHash::Sha1(s) => ItemHashView::Sha1(s@),
            ItemHash::QuickXor(s) => ItemHashView::QuickXor(s@),
        }
    }
}

impl ItemHash {
    /// Whether two hashes are of the same kind and hold the same text.
    pub fn same_as(&self, other: &ItemHash) -> (r: bool)
        ensures
            r == (self@ == other@),
    {
        match (self, other) {
            (ItemHash::Sha1(a), ItemHash::Sha1(b)) => *a == *b,
            (ItemHash::QuickXor(a), ItemHash::QuickXor(b)) => *a == *b,
            _ => false,
        }
    }
}

/// Whether `pattern` occurs somewhere in `text`.
pub open spec fn occurs_in(pattern: Seq<char>, text: Seq<char>) -> bool {
    exists|i: int|
        0 <= i && i + pattern.len() <= text.len() && #[trigger] text.subrange(
            i,
            i + pattern.len(),
        ) == pattern
}

/// Calls `str::ends_with` with a string as the pattern: whether `text` ends
/// with `suffix`.
#[verifier::external_body]
fn ends_with(text: &str, suffix: &str) -> (r: bool)
    ensures
        r == suffix@.is_suffix_of(text@),
{
    text.ends_with(suffix)
}

/// Calls `str::contains` with a string as the pattern: whether `pattern`
/// occurs in `text`.
#[verifier::external_body]
fn contains(text: &str, pattern: &str) -> (r: bool)
    ensures
        r == occurs_in(pattern@, text@),
{
    text.contains(pattern)
}

/// Calls `str::strip_prefix` with a string as the pattern: what follows
/// `prefix` in `text`, where `text` starts with it.
#[verifier::external_body]
fn strip_prefix<'a>(text: &'a str, prefix: &str) -> (r: Option<&'a str>)
    ensures
        match r {
            Some(rest) => prefix@.is_prefix_of(text@) && rest@ == text@.skip(prefix@.len() as int),
            None => !prefix@.is_prefix_of(text@),
        },
{
    text.strip_prefix(prefix)
}

/// Whether a file is left out of the search for duplicates: its name ends
/// with `.svn-base` and the path of its directory holds `/.svn/pristine/`.
/// Such files are the copies that Subversion keeps of the files of a
/// working copy.
pub open spec fn ignored(dirname: Seq<char>, basename: Seq<char>) -> bool {
    ".svn-base"@.is_suffix_of(basename) && occurs_in("/.svn/pristine/"@, dirname)
}

/// Says whether a file is left out of the search for duplicates.
pub fn ignore_path(dirname: &str, basename: &str) -> (r: bool)
    ensures
        r == ignored(dirname@, basename@),
{
    ends_with(basename, ".svn-base") && contains(dirname, "/.svn/pristine/")
}

/// The directory of an item as it is shown: the path of its parent without
/// a leading `/drive/root:/`.
pub open spec fn dirname_of(path: Seq<char>) -> Seq<char> {
    if "/drive/root:/"@.is_prefix_of(path) {
        path.skip("/drive/root:/"@.len() as int)
    } else {
        path
    }
}

/// Strips a leading `/drive/root:/` from the path of a parent.
pub fn dirname(path: &str) -> (r: &str)
    ensures
        r@ == dirname_of(path@),
{
    match strip_prefix(path, "/drive/root:/") {
        Some(rest) => rest,
        None => path,
    }
}

/// The hash by which a file is compared, which goes by the kind of its
/// drive: SHA-1 on a personal drive, QuickXor on a business drive or in a
/// document library. A file without that hash, or on a drive of another
/// kind, has none; nor has an item that is no file.
pub open spec fn hash_of(item: ItemView) -> Option<ItemHashView> {
    match item.item_type {
        ItemTypeView::File { hashes: Some(h) } => if item.parent.drive_type == "personal"@ {
            match h.sha {
                Some(s) => Some(ItemHashView::Sha1(s)),
                None => None,
            }
        } else if item.parent.drive_type == "business"@ || item.parent.drive_type
            == "documentLibrary"@ {
            match h.xor {
                Some(s) => Some(ItemHashView::QuickXor(s)),
                None => None,
            }
        } else {
            None
        },
        _ => None,
    }
}

/// Picks the hash by which a file is compared.
pub fn choose_hash(item: &Item) -> (r: Option<ItemHash>)
    ensures
        match r {
            Some(h) => hash_of(item@) == Some(h@),
            None => hash_of(item@) is None,
        },
{
    match &item.item_type {
        ItemType::File { hashes: Some(h) } => {
            if item.parent.drive_type == String::from_str("personal") {
                match &h.sha {
                    Some(s) => Some(ItemHash::Sha1(s.clone())),
                    None => None,
                }
            } else if item.parent.drive_type == String::from_str("business")
                || item.parent.drive_type == String::from_str("documentLibrary") {
                match &h.xor {
                    Some(s) => Some(ItemHash::QuickXor(s.clone())),
                    None => None,
                }
            } else {
                None
            }
        },
        _ => None,
    }
}

/// A file as the search for duplicates lists it.
pub struct EntryView {
    pub size: u64,
    pub hash: ItemHashView,
    pub name: Seq<char>,
}

/// How an item is listed: a file whose parent has a path, that is not
/// ignored by that path and its name, and that has the hash of its drive,
/// is listed by its size and that hash, under its directory, a `/` and its
/// name. Nothing else is listed.
pub open spec fn entry_of(item: ItemView) -> Option<EntryView> {
    match (item.parent.path, hash_of(item)) {
        (Some(path), Some(hash)) => if ignored(path, item.name) {
            None
        } else {
            Some(
                EntryView {
                    size: item.size,
                    hash,
                    name: dirname_of(path) + "/"@ + item.name,
                },
            )
        },
        _ => None,
    }
}

/// Says how an item is listed: its hash and the name under which it is
/// shown.
pub fn list_item(item: &Item) -> (r: Option<(ItemHash, String)>)
    ensures
        match r {
            Some((hash, name)) => entry_of(item@) == Some(
                EntryView { size: item.size, hash: hash@, name: name@ },
            ),
            None => entry_of(item@) is None,
        },
{
    match &item.parent.path {
        None => None,
        Some(path) => {
            if ignore_path(path.as_str(), item.name.as_str()) {
                return None;
            }
            let dir = dirname(path.as_str());
            match choose_hash(item) {
                None => None,
                Some(hash) => {
                    let mut name = String::from_str(dir);
                    name.append("/");
                    name.append(item.name.as_str());
                    Some((hash, name))
                },
            }
        },
    }
}

/// The names of the files of a drive that share a size and a hash.
#[derive(Debug, Clone, PartialEq)]
pub struct HashBucket {
    pub hash: ItemHash,
    pub names: Vec<String>,
}

impl HashBucket {
    /// Whether the bucket holds duplicates: more than one name.
    pub fn is_duplicate(&self) -> (r: bool)
        ensures
            r == (self.names@.len() > 1),
    {
        self.names.len() > 1
    }
}

/// The texts of a list of strings.
pub open spec fn texts(names: Seq<String>) -> Seq<Seq<char>> {
    names.map_values(|s: String| s@)
}

/// The names that `buckets` hold under `hash`: those of the first bucket
/// with that hash, and none where there is no such bucket.
pub open spec fn names_under(buckets: Seq<HashBucket>, hash: ItemHashView) -> Seq<Seq<char>>
    decreases buckets.len(),
{
    if buckets.len() == 0 {
        Seq::empty()
    } else if buckets[0].hash@ == hash {
        texts(buckets[0].names@)
    } else {
        names_under(buckets.drop_first(), hash)
    }
}

/// Whether no hash has two buckets and no bucket is without a name.
pub open spec fn tidy(buckets: Seq<HashBucket>) -> bool {
    &&& forall|i: int| 0 <= i < buckets.len() ==> (#[trigger] buckets[i]).names@.len() > 0
    &&& forall|i: int, j: int|
        0 <= i < j < buckets.len() ==> (#[trigger] buckets[i]).hash@ != (#[trigger] buckets[j]).hash@
}

/// Where the first bucket with a hash is replaced by one with the same
/// hash, the names under that hash are those of the new bucket, and the
/// names under every other hash stay.
proof fn lemma_names_update(buckets: Seq<HashBucket>, i: int, bucket: HashBucket, hash: ItemHashView)
    requires
        0 <= i < buckets.len(),
        bucket.hash@ == buckets[i].hash@,
        forall|k: int| 0 <= k < i ==> (#[trigger] buckets[k]).hash@ != bucket.hash@,
    ensures
        names_under(buckets, bucket.hash@) == texts(buckets[i].names@),
        names_under(buckets.update(i, bucket), hash) == (if hash == bucket.hash@ {
            texts(bucket.names@)
        } else {
            names_under(buckets, hash)
        }),
    decreases i,
{
    let after = buckets.update(i, bucket);
    if i > 0 {
        assert(buckets[0].hash@ != bucket.hash@);
        assert(after[0] == buckets[0]);
        assert(after.drop_first() =~= buckets.drop_first().update(i - 1, bucket));
        assert forall|k: int| 0 <= k < i - 1 implies (#[trigger] buckets.drop_first()[k]).hash@
            != bucket.hash@ by {
            assert(buckets.drop_first()[k] == buckets[k + 1]);
        }
        lemma_names_update(buckets.drop_first(), i - 1, bucket, hash);
    } else {
        assert(after[0] == bucket);
        assert(after.drop_first() =~= buckets.drop_first());
    }
}

/// Where a bucket with a new hash is added, the names under that hash are
/// those of the new bucket, and the names under every other hash stay.
proof fn lemma_names_push(buckets: Seq<HashBucket>, bucket: HashBucket, hash: ItemHashView)
    requires
        forall|k: int| 0 <= k < buckets.len() ==> (#[trigger] buckets[k]).hash@ != bucket.hash@,
    ensures
        names_under(buckets, bucket.hash@) == Seq::<Seq<char>>::empty(),
        names_under(buckets.push(bucket), hash) == (if hash == bucket.hash@ {
            texts(bucket.names@)
        } else {
            names_under(buckets, hash)
        }),
    decreases buckets.len(),
{
    let after = buckets.push(bucket);
    if buckets.len() > 0 {
        assert(buckets[0].hash@ != bucket.hash@);
        assert(after[0] == buckets[0]);
        assert(after.drop_first() =~= buckets.drop_first().push(bucket));
        assert forall|k: int| 0 <= k < buckets.drop_first().len() implies (
        #[trigger] buckets.drop_first()[k]).hash@ != bucket.hash@ by {
            assert(buckets.drop_first()[k] == buckets[k + 1]);
        }
        lemma_names_push(buckets.drop_first(), bucket, hash);
    } else {
        assert(after[0] == bucket);
        assert(after.drop_first() =~= Seq::<HashBucket>::empty());
        assert(names_under(after.drop_first(), hash) =~= Seq::<Seq<char>>::empty());
    }
}

/// Adds a name under a hash: to the bucket of that hash, or to a new bucket
/// at the end where the hash has none yet.
pub fn add_name(buckets: &mut Vec<HashBucket>, hash: ItemHash, name: String)
    requires
        tidy(old(buckets)@),
    ensures
        tidy(final(buckets)@),
        final(buckets)@.len() > 0,
        forall|h: ItemHashView|
            #[trigger] names_under(final(buckets)@, h) == (if h == hash@ {
                names_under(old(buckets)@, h).push(name@)
            } else {
                names_under(old(buckets)@, h)
            }),
{
    let ghost before = buckets@;
    let mut i: usize = 0;
    while i < buckets.len()
        invariant
            i <= buckets.len(),
            buckets@ == before,
            before == old(buckets)@,
            tidy(before),
            forall|k: int| 0 <= k < i ==> (#[trigger] before[k]).hash@ != hash@,
        decreases buckets.len() - i,
    {
        if buckets[i].hash.same_as(&hash) {
            let mut bucket = buckets.remove(i);
            let ghost old_names = bucket.names@;
            bucket.names.push(name);
            proof {
                assert(texts(bucket.names@) =~= texts(old_names).push(name@));
                assert forall|h: ItemHashView|
                    #[trigger] names_under(before.update(i as int, bucket), h) == (if h == hash@ {
                        names_under(before, h).push(name@)
                    } else {
                        names_under(before, h)
                    }) by {
                    lemma_names_update(before, i as int, bucket, h);
                }
            }
            buckets.insert(i, bucket);
            proof {
                let after = buckets@;
                assert(after =~= before.update(i as int, bucket));
                assert forall|a: int| 0 <= a < after.len() implies (#[trigger] after[a]).names@.len()
                    > 0 by {
                    if a != i {
                        assert(after[a] == before[a]);
                    }
                }
                assert forall|a: int, b: int| 0 <= a < b < after.len() implies (
                #[trigger] after[a]).hash@ != (#[trigger] after[b]).hash@ by {
                    assert(after[a].hash@ == before[a].hash@);
                    assert(after[b].hash@ == before[b].hash@);
                }
            }
            return ;
        }
        i += 1;
    }
    let mut names: Vec<String> = Vec::new();
    names.push(name);
    let bucket = HashBucket { hash, names };
    proof {
        assert(texts(bucket.names@) =~= Seq::<Seq<char>>::empty().push(name@));
        assert forall|h: ItemHashView|
            #[trigger] names_under(before.push(bucket), h) == (if h == hash@ {
                names_under(before, h).push(name@)
            } else {
                names_under(before, h)
            }) by {
            lemma_names_push(before, bucket, h);
        }
    }
    buckets.push(bucket);
}

/// The names that `by_size` holds under a size and a hash.
pub open spec fn names_at(by_size: Map<u64, Vec<HashBucket>>, size: u64, hash: ItemHashView) -> Seq<
    Seq<char>,
> {
    if by_size.contains_key(size) {
        names_under(by_size[size]@, hash)
    } else {
        Seq::empty()
    }
}

/// The names under which the items that are listed by `size` and `hash`
/// are shown, in the order of the items.
pub open spec fn listed_names(items: Seq<ItemView>, size: u64, hash: ItemHashView) -> Seq<
    Seq<char>,
>
    decreases items.len(),
{
    if items.len() == 0 {
        Seq::empty()
    } else {
        let front = listed_names(items.drop_last(), size, hash);
        match entry_of(items.last()) {
            Some(entry) => if entry.size == size && entry.hash == hash {
                front.push(entry.name)
            } else {
                front
            },
            None => front,
        }
    }
}

/// How many of the items are files.
pub open spec fn count_files(items: Seq<ItemView>) -> nat
    decreases items.len(),
{
    if items.len() == 0 {
        0
    } else {
        count_files(items.drop_last()) + (if items.last().is_file() {
            1nat
        } else {
            0nat
        })
    }
}

/// Whether each size has at least one bucket, no hash has two buckets
/// under one size, and no bucket is without a name.
pub open spec fn well_grouped(by_size: Map<u64, Vec<HashBucket>>) -> bool {
    forall|size: u64| #[trigger]
        by_size.contains_key(size) ==> by_size[size]@.len() > 0 && tidy(by_size[size]@)
}

/// Groups the files among `items` by size, and under each size by hash.
/// Returns the number of files, the number of other items, and the groups:
/// under each size and hash stand the names of the items that `entry_of`
/// lists so, in the order of the items, and nothing else.
pub fn bucket_by_size(items: &Vec<Item>) -> (r: (u32, u32, BTreeMap<u64, Vec<HashBucket>>))
    requires
        items.len() <= u32::MAX,
    ensures
        r.0 == count_files(views(items@)),
        r.1 == items.len() - count_files(views(items@)),
        well_grouped(r.2@),
        forall|size: u64, hash: ItemHashView| #[trigger]
            names_at(r.2@, size, hash) == listed_names(views(items@), size, hash),
{
    broadcast use vstd::std_specs::btree::group_btree_axioms;

    let ghost all = views(items@);
    let mut by_size: BTreeMap<u64, Vec<HashBucket>> = BTreeMap::new();
    let mut file_count: u32 = 0;
    let mut folder_count: u32 = 0;
    let mut i: usize = 0;
    assert(all.take(0) =~= Seq::<ItemView>::empty());
    while i < items.len()
        invariant
            i <= items.len() <= u32::MAX,
            all == views(items@),
            file_count == count_files(all.take(i as int)),
            file_count + folder_count == i,
            well_grouped(by_size@),
            forall|size: u64, hash: ItemHashView| #[trigger]
                names_at(by_size@, size, hash) == listed_names(all.take(i as int), size, hash),
        decreases items.len() - i,
    {
        let item = &items[i];
        proof {
            assert(all.take(i + 1).drop_last() =~= all.take(i as int));
            assert(all.take(i + 1).last() == item@);
        }
        if item.is_file() {
            file_count += 1;
        } else {
            folder_count += 1;
        }
        match list_item(item) {
            Some((hash, name)) => {
                let ghost before = by_size@;
                let size = item.size;
                let mut buckets = match by_size.remove(&size) {
                    Some(found) => found,
                    None => Vec::new(),
                };
                let ghost old_buckets = buckets@;
                assert(tidy(old_buckets));
                assert(forall|h: ItemHashView| #[trigger]
                    names_under(old_buckets, h) == names_at(before, size, h));
                add_name(&mut buckets, hash, name);
                by_size.insert(size, buckets);
                proof {
                    assert(by_size@ =~= before.insert(size, buckets));
                    assert forall|s: u64, h: ItemHashView| #[trigger]
                        names_at(by_size@, s, h) == listed_names(all.take(i + 1), s, h) by {
                        if s == size {
                            assert(names_at(by_size@, s, h) == names_under(buckets@, h));
                        } else {
                            assert(names_at(by_size@, s, h) == names_at(before, s, h));
                        }
                    }
                    assert forall|s: u64| #[trigger] by_size@.contains_key(s) implies by_size@[s]@.len()
                        > 0 && tidy(by_size@[s]@) by {
                        if s != size {
                            assert(before.contains_key(s));
                        }
                    }
                }
            },
            None => {},
        }
        i += 1;
    }
    assert(all.take(i as int) =~= all);
    (file_count, folder_count, by_size)
}

} // verus!
