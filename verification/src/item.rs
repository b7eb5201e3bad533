//! Drive items and the mirror that holds them.

use vstd::prelude::*;

verus! {

/// Marks that a JSON object was present, whatever it held.
#[derive(Debug, Clone, PartialEq)]
pub struct Exists {}

/// The content hashes that the server may give for a file.
#[derive(Debug, Clone, PartialEq)]
pub struct Hash {
    pub sha: Option<String>,
    pub xor: Option<String>,
}

/// Where an item lives. The parent of a deleted item may have no path.
#[derive(Debug, Clone, PartialEq)]
pub struct Parent {
    pub path: Option<String>,
    pub drive_type: String,
}

/// What an item is. Only a file has content, and so hashes and a size that
/// counts.
#[derive(Debug, Clone, PartialEq)]
pub enum ItemType {
    File { hashes: Option<Hash> },
    Folder {},
    Package {},
}

/// One record of the drive. `deleted` is set on a tombstone.
#[derive(Debug, Clone)]
pub struct Item {
    pub id: String,
    pub name: String,
    pub size: u64,
    pub parent: Parent,
    pub item_type: ItemType,
    pub deleted: Option<Exists>,
}

/// A `Hash` as the contracts see it.
pub struct HashView {
    pub sha: Option<Seq<char>>,
    pub xor: Option<Seq<char>>,
}

/// A `Parent` as the contracts see it.
pub struct ParentView {
    pub path: Option<Seq<char>>,
    pub drive_type: Seq<char>,
}

/// An `ItemType` as the contracts see it.
pub enum ItemTypeView {
    File { hashes: Option<HashView> },
    Folder,
    Package,
}

/// An `Item` as the contracts see it: the texts of its strings, and
/// whether it is a tombstone.
pub struct ItemView {
    pub id: Seq<char>,
    pub name: Seq<char>,
    pub size: u64,
    pub parent: ParentView,
    pub item_type: ItemTypeView,
    pub deleted: bool,
}

/// The characters of an optional string.
pub open spec fn text_of(s: Option<String>) -> Option<Seq<char>> {
    match s {
        Some(t) => Some(t@),
        None => None,
    }
}

impl View for Hash {
    type V = HashView;

    open spec fn view(&self) -> HashView {
        HashView { sha: text_of(self.sha), xor: text_of(self.xor) }
    }
}

impl View for Parent {
    type V = ParentView;

    open spec fn view(&self) -> ParentView {
        ParentView { path: text_of(self.path), drive_type: self.drive_type@ }
    }
}

impl View for ItemType {
    type V = ItemTypeView;

    open spec fn view(&self) -> ItemTypeView {
        match *self {
            ItemType::File { hashes: Some(h) } => ItemTypeView::File { hashes: Some(h@) },
            ItemType::File { hashes: None } => ItemTypeView::File { hashes: None },
            ItemType::Folder {  } => ItemTypeView::Folder,
            ItemType::Package {  } => ItemTypeView::Package,
        }
    }
}

impl View for Item {
    type V = ItemView;

    open spec fn view(&self) -> ItemView {
        ItemView {
            id: self.id@,
            name: self.name@,
            size: self.size,
            parent: self.parent@,
            item_type: self.item_type@,
            deleted: self.deleted is Some,
        }
    }
}

impl ItemView {
    /// Whether the item is a file.
    pub open spec fn is_file(self) -> bool {
        self.item_type is File
    }

    /// The bytes that the item adds to the total of a drive: its size if it
    /// is a file, nothing otherwise.
    pub open spec fn weight(self) -> nat {
        if self.is_file() {
            self.size as nat
        } else {
            0
        }
    }
}

impl Item {
    /// Whether the item is a file.
    pub fn is_file(&self) -> (r: bool)
        ensures
            r == self@.is_file(),
    {
        match self.item_type {
            ItemType::File { .. } => true,
            _ => false,
        }
    }

    /// Whether the item is a tombstone.
    pub fn is_deleted(&self) -> (r: bool)
        ensures
            r == self@.deleted,
    {
        self.deleted.is_some()
    }
}

/// The views of a sequence of items, in the same order.
pub open spec fn views(items: Seq<Item>) -> Seq<ItemView> {
    items.map_values(|it: Item| it@)
}

/// The sum of the sizes of the files among `items`.
pub open spec fn file_total(items: Seq<ItemView>) -> nat
    decreases items.len(),
{
    if items.len() == 0 {
        0
    } else {
        file_total(items.drop_last()) + items.last().weight()
    }
}

/// Whether some item of `items` has the id `id`.
pub open spec fn has_id(items: Seq<ItemView>, id: Seq<char>) -> bool {
    exists|i: int| 0 <= i < items.len() && #[trigger] items[i].id == id
}

/// Whether no id occurs twice among `items`.
pub open spec fn distinct_ids(items: Seq<ItemView>) -> bool {
    forall|i: int, j: int|
        0 <= i < j < items.len() ==> #[trigger] items[i].id != #[trigger] items[j].id
}

/// The place of the item with id `id` among `items`, where there is one.
pub open spec fn position_of(items: Seq<ItemView>, id: Seq<char>) -> int {
    choose|i: int| 0 <= i < items.len() && #[trigger] items[i].id == id
}

/// The mapping from id to item that `items` stands for.
pub open spec fn as_map(items: Seq<ItemView>) -> Map<Seq<char>, ItemView> {
    Map::new(|id: Seq<char>| has_id(items, id), |id: Seq<char>| items[position_of(items, id)])
}

/// Adding an item at the end adds its weight.
pub proof fn lemma_total_push(items: Seq<ItemView>, item: ItemView)
    ensures
        file_total(items.push(item)) == file_total(items) + item.weight(),
{
    assert(items.push(item).drop_last() =~= items);
}

/// Replacing an item exchanges its weight for the new one's.
pub proof fn lemma_total_update(items: Seq<ItemView>, i: int, item: ItemView)
    requires
        0 <= i < items.len(),
    ensures
        file_total(items.update(i, item)) + items[i].weight() == file_total(items) + item.weight(),
    decreases items.len(),
{
    let last = items.len() - 1;
    if i == last {
        assert(items.update(i, item).drop_last() =~= items.drop_last());
    } else {
        lemma_total_update(items.drop_last(), i, item);
        assert(items.update(i, item).drop_last() =~= items.drop_last().update(i, item));
    }
}

/// Taking an item out takes its weight out.
pub proof fn lemma_total_remove(items: Seq<ItemView>, i: int)
    requires
        0 <= i < items.len(),
    ensures
        file_total(items.remove(i)) + items[i].weight() == file_total(items),
    decreases items.len(),
{
    let last = items.len() - 1;
    if i == last {
        assert(items.remove(i) =~= items.drop_last());
    } else {
        lemma_total_remove(items.drop_last(), i);
        assert(items.remove(i).drop_last() =~= items.drop_last().remove(i));
        assert(items.remove(i).last() == items.last());
    }
}

/// Each item weighs no more than the whole.
pub proof fn lemma_total_bounds(items: Seq<ItemView>, i: int)
    requires
        0 <= i < items.len(),
    ensures
        items[i].weight() <= file_total(items),
    decreases items.len(),
{
    if i < items.len() - 1 {
        lemma_total_bounds(items.drop_last(), i);
    }
}

/// Where the ids are distinct, each item is found under its own id.
pub proof fn lemma_as_map_at(items: Seq<ItemView>, i: int)
    requires
        distinct_ids(items),
        0 <= i < items.len(),
    ensures
        has_id(items, items[i].id),
        position_of(items, items[i].id) == i,
        as_map(items).dom().contains(items[i].id),
        as_map(items)[items[i].id] == items[i],
{
    let p = position_of(items, items[i].id);
    if p < i {
        assert(items[p].id != items[i].id);
    } else if i < p {
        assert(items[i].id != items[p].id);
    }
}

/// Adding an item under a new id inserts it into the mapping.
pub proof fn lemma_as_map_push(items: Seq<ItemView>, item: ItemView)
    requires
        distinct_ids(items),
        !has_id(items, item.id),
    ensures
        distinct_ids(items.push(item)),
        as_map(items.push(item)) == as_map(items).insert(item.id, item),
{
    let after = items.push(item);
    assert forall|i: int, j: int| 0 <= i < j < after.len() implies #[trigger] after[i].id
        != #[trigger] after[j].id by {
        if j == items.len() {
            assert(items[i].id == after[i].id);
        } else {
            assert(items[i].id != items[j].id);
        }
    }
    assert forall|id: Seq<char>| has_id(after, id) <==> (has_id(items, id) || id == item.id) by {
        if has_id(after, id) {
            let k = position_of(after, id);
            if k < items.len() {
                assert(items[k].id == id);
            }
        }
        if has_id(items, id) {
            let k = position_of(items, id);
            assert(after[k].id == id);
        }
        if id == item.id {
            assert(after[items.len() as int].id == id);
        }
    }
    assert forall|id: Seq<char>| has_id(after, id) implies #[trigger] as_map(after)[id] == as_map(
        items,
    ).insert(item.id, item)[id] by {
        let k = position_of(after, id);
        lemma_as_map_at(after, k);
        if k < items.len() {
            lemma_as_map_at(items, k);
        }
    }
    assert(as_map(after) =~= as_map(items).insert(item.id, item));
}

/// Replacing an item by one of the same id replaces it in the mapping.
pub proof fn lemma_as_map_update(items: Seq<ItemView>, i: int, item: ItemView)
    requires
        distinct_ids(items),
        0 <= i < items.len(),
        items[i].id == item.id,
    ensures
        distinct_ids(items.update(i, item)),
        as_map(items.update(i, item)) == as_map(items).insert(item.id, item),
{
    let after = items.update(i, item);
    assert forall|a: int, b: int| 0 <= a < b < after.len() implies #[trigger] after[a].id
        != #[trigger] after[b].id by {
        assert(items[a].id != items[b].id);
    }
    assert forall|id: Seq<char>| has_id(after, id) <==> has_id(items, id) by {
        if has_id(after, id) {
            let k = position_of(after, id);
            assert(items[k].id == id);
        }
        if has_id(items, id) {
            let k = position_of(items, id);
            assert(after[k].id == id);
        }
    }
    assert(has_id(items, item.id));
    assert forall|id: Seq<char>| has_id(after, id) implies #[trigger] as_map(after)[id] == as_map(
        items,
    ).insert(item.id, item)[id] by {
        let k = position_of(after, id);
        lemma_as_map_at(after, k);
        lemma_as_map_at(items, k);
    }
    assert(as_map(after) =~= as_map(items).insert(item.id, item));
}

/// Taking an item out removes its id from the mapping.
pub proof fn lemma_as_map_remove(items: Seq<ItemView>, i: int)
    requires
        distinct_ids(items),
        0 <= i < items.len(),
    ensures
        distinct_ids(items.remove(i)),
        as_map(items.remove(i)) == as_map(items).remove(items[i].id),
{
    let after = items.remove(i);
    let gone = items[i].id;
    assert forall|a: int, b: int| 0 <= a < b < after.len() implies #[trigger] after[a].id
        != #[trigger] after[b].id by {
        let a0 = if a < i { a } else { a + 1 };
        let b0 = if b < i { b } else { b + 1 };
        assert(items[a0].id != items[b0].id);
    }
    assert forall|id: Seq<char>| has_id(after, id) <==> (has_id(items, id) && id != gone) by {
        if has_id(after, id) {
            let k = position_of(after, id);
            let k0 = if k < i { k } else { k + 1 };
            assert(items[k0].id == id);
            if k0 < i {
                assert(items[k0].id != items[i].id);
            } else {
                assert(items[i].id != items[k0].id);
            }
        }
        if has_id(items, id) && id != gone {
            let k = position_of(items, id);
            let k1 = if k < i { k } else { k - 1 };
            assert(after[k1].id == id);
        }
    }
    assert forall|id: Seq<char>| has_id(after, id) implies #[trigger] as_map(after)[id] == as_map(
        items,
    ).remove(gone)[id] by {
        let k = position_of(after, id);
        let k0 = if k < i { k } else { k + 1 };
        lemma_as_map_at(after, k);
        lemma_as_map_at(items, k0);
    }
    assert(as_map(after) =~= as_map(items).remove(gone));
}

/// The files among the first `n` items take no more than all of them.
pub proof fn lemma_total_prefix(items: Seq<ItemView>, n: int)
    requires
        0 <= n <= items.len(),
    ensures
        file_total(items.take(n)) <= file_total(items),
    decreases items.len() - n,
{
    if n < items.len() {
        lemma_total_prefix(items, n + 1);
        assert(items.take(n + 1).drop_last() =~= items.take(n));
    } else {
        assert(items.take(n) =~= items);
    }
}

/// The items after `item` took the place of the one with its id, or came
/// last where the id is new.
pub open spec fn upserted(items: Seq<ItemView>, item: ItemView) -> Seq<ItemView> {
    if has_id(items, item.id) {
        items.update(position_of(items, item.id), item)
    } else {
        items.push(item)
    }
}

/// The items without the one that has the id `id`.
pub open spec fn removed(items: Seq<ItemView>, id: Seq<char>) -> Seq<ItemView> {
    if has_id(items, id) {
        items.remove(position_of(items, id))
    } else {
        items
    }
}

/// What the item with the id `id` weighs, and 0 where there is none.
pub open spec fn weight_under(items: Seq<ItemView>, id: Seq<char>) -> nat {
    if has_id(items, id) {
        items[position_of(items, id)].weight()
    } else {
        0
    }
}

/// One change of a mirror.
pub enum Op {
    Upsert(ItemView),
    Delete(ItemView),
    Reset,
}

/// A mirror as the changes see it: the items in order, and a running total
/// that each change adjusts by what it adds and what it takes away.
pub struct Mirror {
    pub size: int,
    pub items: Seq<ItemView>,
}

impl Mirror {
    /// The mirror that holds nothing.
    pub open spec fn fresh() -> Mirror {
        Mirror { size: 0, items: Seq::empty() }
    }

    /// The mirror after one change.
    pub open spec fn after(self, op: Op) -> Mirror {
        match op {
            Op::Upsert(item) => Mirror {
                size: self.size + item.weight() - weight_under(self.items, item.id),
                items: upserted(self.items, item),
            },
            Op::Delete(item) => Mirror {
                size: self.size - weight_under(self.items, item.id),
                items: removed(self.items, item.id),
            },
            Op::Reset => Mirror::fresh(),
        }
    }

    /// The mirror after a run of changes, the first of them first.
    pub open spec fn after_all(self, ops: Seq<Op>) -> Mirror
        decreases ops.len(),
    {
        if ops.len() == 0 {
            self
        } else {
            self.after_all(ops.drop_last()).after(ops.last())
        }
    }

    /// No id occurs twice, and the total is the sum of the sizes of the
    /// files.
    pub open spec fn balanced(self) -> bool {
        &&& distinct_ids(self.items)
        &&& self.size == file_total(self.items)
    }

    /// The mapping from id to item that the mirror stands for.
    pub open spec fn map(self) -> Map<Seq<char>, ItemView> {
        as_map(self.items)
    }
}

/// A change keeps a mirror balanced, and does to the mapping what its name
/// says.
pub proof fn lemma_after_balanced(m: Mirror, op: Op)
    requires
        m.balanced(),
    ensures
        m.after(op).balanced(),
        match op {
            Op::Upsert(item) => m.after(op).map() == m.map().insert(item.id, item),
            Op::Delete(item) => m.after(op).map() == m.map().remove(item.id),
            Op::Reset => m.after(op).map() == Map::<Seq<char>, ItemView>::empty(),
        },
{
    match op {
        Op::Upsert(item) => {
            if has_id(m.items, item.id) {
                let i = position_of(m.items, item.id);
                lemma_total_update(m.items, i, item);
                lemma_as_map_update(m.items, i, item);
            } else {
                lemma_total_push(m.items, item);
                lemma_as_map_push(m.items, item);
            }
        },
        Op::Delete(item) => {
            if has_id(m.items, item.id) {
                let i = position_of(m.items, item.id);
                lemma_total_remove(m.items, i);
                lemma_as_map_remove(m.items, i);
            } else {
                assert(m.map() =~= m.map().remove(item.id));
            }
        },
        Op::Reset => {
            assert(Mirror::fresh().map() =~= Map::<Seq<char>, ItemView>::empty());
        },
    }
}

/// Whatever changes are made to a mirror that held nothing, in whatever
/// order, its total is the sum of the sizes of the files that it holds, and
/// no id occurs twice in it.
pub proof fn law_total_is_sum_of_files(ops: Seq<Op>)
    ensures
        Mirror::fresh().after_all(ops).balanced(),
        Mirror::fresh().after_all(ops).size == file_total(Mirror::fresh().after_all(ops).items),
    decreases ops.len(),
{
    if ops.len() > 0 {
        law_total_is_sum_of_files(ops.drop_last());
        lemma_after_balanced(Mirror::fresh().after_all(ops.drop_last()), ops.last());
    }
}

/// The mirror of a drive: its items, and the bytes that its files take.
///
/// `items` stands for a mapping from id to item, so no id occurs twice in
/// it, and `size` is kept equal to the sum of the sizes of the files.
pub struct DriveState {
    pub size: u64,
    pub items: Vec<Item>,
}

impl View for DriveState {
    type V = Map<Seq<char>, ItemView>;

    open spec fn view(&self) -> Map<Seq<char>, ItemView> {
        as_map(views(self.items@))
    }
}

impl DriveState {
    /// The items of the mirror, in the order in which their ids first came.
    pub open spec fn listing(&self) -> Seq<ItemView> {
        views(self.items@)
    }

    /// The mirror as the changes see it.
    pub open spec fn model(&self) -> Mirror {
        Mirror { size: self.size as int, items: self.listing() }
    }

    /// No id occurs twice, and `size` is the sum of the sizes of the files.
    pub open spec fn wf(&self) -> bool {
        self.model().balanced()
    }

    /// Whether `item` can be added without the total leaving `u64`.
    pub open spec fn has_room_for(&self, item: ItemView) -> bool {
        self.size + item.weight() <= u64::MAX
    }

    /// A mirror without items.
    pub fn new() -> (r: DriveState)
        ensures
            r.model() == Mirror::fresh(),
            r.wf(),
            r@ == Map::<Seq<char>, ItemView>::empty(),
    {
        let r = DriveState { size: 0, items: Vec::new() };
        proof {
            assert(r.listing() =~= Seq::<ItemView>::empty());
            assert(r@ =~= Map::<Seq<char>, ItemView>::empty());
        }
        r
    }

    /// Forgets every item. Returns the new total, which is 0.
    pub fn reset(&mut self) -> (r: u64)
        ensures
            final(self).model() == old(self).model().after(Op::Reset),
            final(self).wf(),
            final(self)@ == Map::<Seq<char>, ItemView>::empty(),
            r == 0,
    {
        self.size = 0;
        self.items.clear();
        proof {
            assert(self.listing() =~= Seq::<ItemView>::empty());
            assert(self@ =~= Map::<Seq<char>, ItemView>::empty());
        }
        self.size
    }

    /// The place of the item with the id `id`, if the mirror holds one.
    pub fn find(&self, id: &String) -> (r: Option<usize>)
        ensures
            match r {
                Some(i) => i < self.items.len() && self.listing()[i as int].id == id@,
                None => !has_id(self.listing(), id@),
            },
    {
        let mut i: usize = 0;
        while i < self.items.len()
            invariant
                i <= self.items.len(),
                forall|k: int| 0 <= k < i ==> (#[trigger] self.listing()[k]).id != id@,
            decreases self.items.len() - i,
        {
            if self.items[i].id == *id {
                return Some(i);
            }
            i += 1;
        }
        None
    }

    /// Whether `item` can be handed to `upsert`: the total stays within `u64`.
    pub fn accepts(&self, item: &Item) -> (r: bool)
        ensures
            r == self.has_room_for(item@),
    {
        !item.is_file() || item.size <= u64::MAX - self.size
    }

    /// Whether the mirror is well formed: computes what `wf` states.
    pub fn is_consistent(&self) -> (r: bool)
        ensures
            r == self.wf(),
    {
        let ghost all = self.listing();
        let mut total: u64 = 0;
        let mut i: usize = 0;
        while i < self.items.len()
            invariant
                i <= self.items.len(),
                all == self.listing(),
                distinct_ids(all.take(i as int)),
                total as nat == file_total(all.take(i as int)),
            decreases self.items.len() - i,
        {
            let mut j: usize = 0;
            while j < i
                invariant
                    j <= i < self.items.len(),
                    all == self.listing(),
                    forall|k: int| 0 <= k < j ==> (#[trigger] all[k]).id != all[i as int].id,
                decreases i - j,
            {
                if self.items[j].id == self.items[i].id {
                    assert(all[j as int].id == all[i as int].id);
                    return false;
                }
                j += 1;
            }
            proof {
                assert(all.take(i + 1).drop_last() =~= all.take(i as int));
                assert(all.take(i + 1).last() == all[i as int]);
                lemma_total_prefix(all, i + 1);
                assert forall|a: int, b: int| 0 <= a < b < i + 1 implies #[trigger] all.take(
                    i + 1,
                )[a].id != #[trigger] all.take(i + 1)[b].id by {
                    if b < i {
                        assert(all.take(i as int)[a].id != all.take(i as int)[b].id);
                    }
                }
            }
            if self.items[i].is_file() {
                if self.items[i].size > u64::MAX - total {
                    return false;
                }
                total += self.items[i].size;
            }
            i += 1;
        }
        assert(all.take(i as int) =~= all);
        total == self.size
    }

    /// Puts `item` in the place of the item with its id, or adds it at the
    /// end where the id is new. A file's size is added to the total before
    /// the size of the file that it replaces is taken off. Returns the new
    /// total.
    pub fn upsert(&mut self, item: Item) -> (r: u64)
        requires
            old(self).wf(),
            old(self).has_room_for(item@),
        ensures
            final(self).model() == old(self).model().after(Op::Upsert(item@)),
            final(self).wf(),
            final(self)@ == old(self)@.insert(item@.id, item@),
            r == final(self).size,
    {
        let ghost before = self.listing();
        if item.is_file() {
            self.size += item.size;
        }
        match self.find(&item.id) {
            Some(i) => {
                proof {
                    lemma_as_map_at(before, i as int);
                    lemma_total_bounds(before, i as int);
                    lemma_total_update(before, i as int, item@);
                    lemma_as_map_update(before, i as int, item@);
                }
                let previous_is_file = self.items[i].is_file();
                let previous_size = self.items[i].size;
                self.items.set(i, item);
                assert(self.listing() =~= before.update(i as int, item@));
                if previous_is_file {
                    self.size -= previous_size;
                }
            },
            None => {
                proof {
                    lemma_total_push(before, item@);
                    lemma_as_map_push(before, item@);
                }
                self.items.push(item);
                assert(self.listing() =~= before.push(item@));
            },
        }
        self.size
    }

    /// Takes out the item that has the id of `item`, if the mirror holds
    /// one, and takes a file's size off the total. Returns the new total.
    pub fn delete(&mut self, item: Item) -> (r: u64)
        requires
            old(self).wf(),
        ensures
            final(self).model() == old(self).model().after(Op::Delete(item@)),
            final(self).wf(),
            final(self)@ == old(self)@.remove(item@.id),
            r == final(self).size,
    {
        let ghost before = self.listing();
        match self.find(&item.id) {
            Some(i) => {
                proof {
                    lemma_as_map_at(before, i as int);
                    lemma_total_bounds(before, i as int);
                    lemma_total_remove(before, i as int);
                    lemma_as_map_remove(before, i as int);
                }
                let previous = self.items.remove(i);
                assert(self.listing() =~= before.remove(i as int));
                if previous.is_file() {
                    self.size -= previous.size;
                }
            },
            None => {
                assert(self@ =~= self@.remove(item@.id));
            },
        }
        self.size
    }
}

/// The address from which a first synchronisation of the drive `drive_id`
/// starts: it lists the whole drive, with the fields that the mirror keeps.
pub open spec fn bootstrap_link(drive_id: Seq<char>) -> Seq<char> {
    "https://graph.microsoft.com/v1.0/me/drives/"@ + drive_id
        + "/root/delta?select=id,name,size,parentReference,file,folder,package,deleted"@
}

/// Builds the address that `bootstrap_link` describes.
pub fn initial_link(drive_id: &str) -> (r: String)
    ensures
        r@ == bootstrap_link(drive_id@),
{
    let mut link = String::from_str("https://graph.microsoft.com/v1.0/me/drives/");
    link.append(drive_id);
    link.append("/root/delta?select=id,name,size,parentReference,file,folder,package,deleted");
    link
}

/// What is kept between two runs: the mirror, and the address at which the
/// next synchronisation resumes.
pub struct DriveSnapshot {
    pub delta_link: String,
    pub state: DriveState,
}

impl DriveSnapshot {
    /// The snapshot of a drive that was never synchronised: no items, and
    /// the address that lists the whole drive.
    pub fn default(drive_id: &str) -> (r: DriveSnapshot)
        ensures
            r.delta_link@ == bootstrap_link(drive_id@),
            r.state.model() == Mirror::fresh(),
            r.state.wf(),
            r.state@ == Map::<Seq<char>, ItemView>::empty(),
    {
        DriveSnapshot { delta_link: initial_link(drive_id), state: DriveState::new() }
    }
}

} // verus!
