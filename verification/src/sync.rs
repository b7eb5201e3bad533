//! The applier: how the batches that the fetcher hands over change the
//! mirror, and how a synchronisation ends.

use crate::fetch::Failure;
use crate::item::{views, DriveSnapshot, DriveState, Item, ItemView, Mirror, Op};
use vstd::prelude::*;

verus! {

/// What takes the items of a synchronisation in.
pub trait DriveItemHandler<DriveItem> {
    /// Whether the handler is in a state to take anything in. A handler
    /// that says nothing of it always is.
    open spec fn ready(&self) -> bool {
        true
    }

    /// Whether the handler can take `item` in as it stands. A handler that
    /// says nothing of it always can.
    open spec fn takes(&self, item: &DriveItem) -> bool {
        true
    }

    /// Forgets what was handled so far: the listing starts afresh.
    fn reset(&mut self)
        requires
            old(self).ready(),
        ensures
            final(self).ready(),
    ;

    /// Takes one item in.
    fn handle(&mut self, item: DriveItem)
        requires
            old(self).ready(),
            old(self).takes(&item),
        ensures
            final(self).ready(),
    ;
}

/// Whether no item is a tombstone.
pub open spec fn no_tombstones(items: Seq<ItemView>) -> bool {
    forall|i: int| 0 <= i < items.len() ==> !(#[trigger] items[i]).deleted
}

impl Mirror {
    /// The change that an item of a batch asks for: a tombstone deletes,
    /// any other item is put in.
    pub open spec fn op_for(item: ItemView) -> Op {
        if item.deleted {
            Op::Delete(item)
        } else {
            Op::Upsert(item)
        }
    }

    /// The mirror after an item of a batch was handled.
    pub open spec fn handled(self, item: ItemView) -> Mirror {
        self.after(Mirror::op_for(item))
    }

    /// The mirror after the items of a batch were handled in order.
    pub open spec fn handled_all(self, batch: Seq<ItemView>) -> Mirror
        decreases batch.len(),
    {
        if batch.len() == 0 {
            self
        } else {
            self.handled_all(batch.drop_last()).handled(batch.last())
        }
    }

    /// Whether `item` can be handled without the total leaving `u64`.
    pub open spec fn has_room_for(self, item: ItemView) -> bool {
        item.deleted || self.size + item.weight() <= u64::MAX
    }

    /// Whether each of the first `n` items of `batch` can be handled in its
    /// turn.
    pub open spec fn has_room_for_first(self, batch: Seq<ItemView>, n: int) -> bool {
        forall|k: int|
            0 <= k < n ==> self.handled_all(#[trigger] batch.take(k)).has_room_for(batch[k])
    }

    /// The mirror after a message of the fetcher: a batch is handled, and
    /// the signal without a batch empties the mirror.
    pub open spec fn delivered(self, message: Option<Seq<ItemView>>) -> Mirror {
        match message {
            Some(batch) => self.handled_all(batch),
            None => self.after(Op::Reset),
        }
    }

    /// The mirror after a run of messages, the first of them first.
    pub open spec fn delivered_all(self, messages: Seq<Option<Seq<ItemView>>>) -> Mirror
        decreases messages.len(),
    {
        if messages.len() == 0 {
            self
        } else {
            self.delivered_all(messages.drop_last()).delivered(messages.last())
        }
    }
}

/// An item of a batch that could not be handled: with it the total would
/// leave `u64`. The items before it were handled.
#[derive(Debug, Clone, Copy, PartialEq, Eq, Structural)]
pub struct TooLarge {
    pub index: usize,
}

impl DriveState {
    /// Whether `item` can be handed to `handle`.
    pub fn can_handle(&self, item: &Item) -> (r: bool)
        ensures
            r == self.model().has_room_for(item@),
    {
        item.is_deleted() || self.accepts(item)
    }

    /// Handles one item of a batch: deletes where it is a tombstone, puts
    /// it in where it is not. Returns the new total.
    pub fn handle(&mut self, item: Item) -> (r: u64)
        requires
            old(self).wf(),
            old(self).model().has_room_for(item@),
        ensures
            final(self).model() == old(self).model().handled(item@),
            final(self).wf(),
            r == final(self).size,
    {
        if item.is_deleted() {
            self.delete(item)
        } else {
            self.upsert(item)
        }
    }

    /// Handles the items of a batch in order, as long as the total stays
    /// within `u64`. Returns the new total, or the place of the first item
    /// that could not be handled.
    pub fn handle_batch(&mut self, batch: Vec<Item>) -> (r: Result<u64, TooLarge>)
        requires
            old(self).wf(),
        ensures
            final(self).wf(),
            match r {
                Ok(size) => {
                    &&& old(self).model().has_room_for_first(views(batch@), batch.len() as int)
                    &&& final(self).model() == old(self).model().handled_all(views(batch@))
                    &&& size == final(self).size
                },
                Err(refused) => {
                    &&& refused.index < batch.len()
                    &&& old(self).model().has_room_for_first(
                        views(batch@),
                        refused.index as int,
                    )
                    &&& !old(self).model().handled_all(
                        views(batch@).take(refused.index as int),
                    ).has_room_for(batch[refused.index as int]@)
                    &&& final(self).model() == old(self).model().handled_all(
                        views(batch@).take(refused.index as int),
                    )
                },
            },
    {
        let ghost all = views(batch@);
        let ghost start = self.model();
        let count = batch.len();
        let mut index: usize = 0;
        assert(all.take(0) =~= Seq::<ItemView>::empty());
        for item in it: batch.into_iter()
            invariant
                it.seq() == batch@,
                batch@.len() == count,
                all == views(batch@),
                index == it.index(),
                start == old(self).model(),
                self.wf(),
                start.has_room_for_first(all, index as int),
                self.model() == start.handled_all(all.take(index as int)),
        {
            proof {
                assert(all[index as int] == item@);
                assert(all.take(index + 1).drop_last() =~= all.take(index as int));
                assert(all.take(index + 1).last() == item@);
            }
            if !self.can_handle(&item) {
                return Err(TooLarge { index });
            }
            self.handle(item);
            index += 1;
        }
        assert(all.take(index as int) =~= all);
        Ok(self.size)
    }

    /// Takes a message of the fetcher in: handles a batch, and forgets
    /// every item at the signal without a batch. Returns the new total, or
    /// the place of the first item of the batch that could not be handled.
    pub fn deliver(&mut self, message: Option<Vec<Item>>) -> (r: Result<u64, TooLarge>)
        requires
            old(self).wf(),
        ensures
            final(self).wf(),
            match (message, r) {
                (None, Ok(size)) => {
                    &&& final(self).model() == old(self).model().delivered(None)
                    &&& size == 0
                },
                (Some(batch), Ok(size)) => {
                    &&& old(self).model().has_room_for_first(views(batch@), batch.len() as int)
                    &&& final(self).model() == old(self).model().delivered(Some(views(batch@)))
                    &&& size == final(self).size
                },
                (Some(batch), Err(refused)) => {
                    &&& refused.index < batch.len()
                    &&& old(self).model().has_room_for_first(
                        views(batch@),
                        refused.index as int,
                    )
                    &&& !old(self).model().handled_all(
                        views(batch@).take(refused.index as int),
                    ).has_room_for(batch[refused.index as int]@)
                    &&& final(self).model() == old(self).model().handled_all(
                        views(batch@).take(refused.index as int),
                    )
                },
                (None, Err(_)) => false,
            },
    {
        match message {
            Some(batch) => self.handle_batch(batch),
            None => Ok(self.reset()),
        }
    }
}

/// The mirror takes the items of a drive in: a tombstone deletes, any
/// other item is put in, and a fresh start empties the mirror.
impl DriveItemHandler<Item> for DriveState {
    open spec fn ready(&self) -> bool {
        self.wf()
    }

    open spec fn takes(&self, item: &Item) -> bool {
        self.model().has_room_for(item@)
    }

    fn reset(&mut self)
        ensures
            final(self).model() == old(self).model().after(Op::Reset),
    {
        DriveState::reset(self);
    }

    fn handle(&mut self, item: Item)
        ensures
            final(self).model() == old(self).model().handled(item@),
    {
        DriveState::handle(self, item);
    }
}

/// How the fetcher ended.
#[derive(Debug)]
pub enum FetchEnd {
    /// The listing is complete; the next one resumes from this address.
    Completed(String),
    /// The fetcher gave up.
    Aborted(Failure),
}

/// Ends a synchronisation: where the fetcher completed the listing, the
/// snapshot resumes from the address that it returned; where it gave up,
/// the snapshot is dropped and the failure handed on.
pub fn conclude(snapshot: DriveSnapshot, end: FetchEnd) -> (r: Result<DriveSnapshot, Failure>)
    ensures
        match (end, r) {
            (FetchEnd::Completed(link), Ok(done)) => {
                &&& done.delta_link@ == link@
                &&& done.state == snapshot.state
            },
            (FetchEnd::Aborted(failure), Err(e)) => e == failure,
            _ => false,
        },
{
    match end {
        FetchEnd::Completed(link) => Ok(DriveSnapshot { delta_link: link, state: snapshot.state }),
        FetchEnd::Aborted(failure) => Err(failure),
    }
}

/// Handling a batch keeps a mirror balanced.
pub proof fn lemma_handled_all_balanced(m: Mirror, batch: Seq<ItemView>)
    requires
        m.balanced(),
    ensures
        m.handled_all(batch).balanced(),
    decreases batch.len(),
{
    if batch.len() > 0 {
        lemma_handled_all_balanced(m, batch.drop_last());
        crate::item::lemma_after_balanced(
            m.handled_all(batch.drop_last()),
            Mirror::op_for(batch.last()),
        );
    }
}

/// Whatever messages a balanced mirror takes in, its total stays the sum of
/// the sizes of the files that it holds.
pub proof fn law_delivery_keeps_total(m: Mirror, messages: Seq<Option<Seq<ItemView>>>)
    requires
        m.balanced(),
    ensures
        m.delivered_all(messages).balanced(),
        m.delivered_all(messages).size == crate::item::file_total(m.delivered_all(messages).items),
    decreases messages.len(),
{
    if messages.len() > 0 {
        law_delivery_keeps_total(m, messages.drop_last());
        let front = m.delivered_all(messages.drop_last());
        match messages.last() {
            Some(batch) => lemma_handled_all_balanced(front, batch),
            None => crate::item::lemma_after_balanced(front, Op::Reset),
        }
    }
}

/// Handling an item brings no tombstone into a mirror.
pub proof fn lemma_handled_no_tombstones(m: Mirror, item: ItemView)
    requires
        no_tombstones(m.items),
    ensures
        no_tombstones(m.handled(item).items),
{
    let after = m.handled(item).items;
    assert forall|i: int| 0 <= i < after.len() implies !(#[trigger] after[i]).deleted by {
        if item.deleted {
            if crate::item::has_id(m.items, item.id) {
                let p = crate::item::position_of(m.items, item.id);
                let i0 = if i < p {
                    i
                } else {
                    i + 1
                };
                assert(after[i] == m.items[i0]);
            }
        } else {
            if crate::item::has_id(m.items, item.id) {
                let p = crate::item::position_of(m.items, item.id);
                if i != p {
                    assert(after[i] == m.items[i]);
                }
            } else {
                if i < m.items.len() {
                    assert(after[i] == m.items[i]);
                }
            }
        }
    }
}

/// Handling a batch brings no tombstone into a mirror.
pub proof fn lemma_handled_all_no_tombstones(m: Mirror, batch: Seq<ItemView>)
    requires
        no_tombstones(m.items),
    ensures
        no_tombstones(m.handled_all(batch).items),
    decreases batch.len(),
{
    if batch.len() > 0 {
        lemma_handled_all_no_tombstones(m, batch.drop_last());
        lemma_handled_no_tombstones(m.handled_all(batch.drop_last()), batch.last());
    }
}

/// A mirror that holds no tombstone holds none after any run of messages:
/// an item that is marked as deleted is never kept.
pub proof fn law_tombstones_never_kept(m: Mirror, messages: Seq<Option<Seq<ItemView>>>)
    requires
        no_tombstones(m.items),
    ensures
        no_tombstones(m.delivered_all(messages).items),
    decreases messages.len(),
{
    if messages.len() > 0 {
        law_tombstones_never_kept(m, messages.drop_last());
        match messages.last() {
            Some(batch) => lemma_handled_all_no_tombstones(
                m.delivered_all(messages.drop_last()),
                batch,
            ),
            None => {},
        }
    }
}

/// After the signal to start afresh, nothing that was delivered before it
/// is left: the mirror is what the messages after the signal make of a
/// mirror that held nothing.
pub proof fn law_reset_forgets(
    m: Mirror,
    before: Seq<Option<Seq<ItemView>>>,
    after: Seq<Option<Seq<ItemView>>>,
)
    ensures
        m.delivered_all(before.push(None) + after) == Mirror::fresh().delivered_all(after),
    decreases after.len(),
{
    let all = before.push(None) + after;
    if after.len() == 0 {
        assert(all =~= before.push(None));
        assert(all.drop_last() =~= before);
    } else {
        law_reset_forgets(m, before, after.drop_last());
        assert(all.drop_last() =~= before.push(None) + after.drop_last());
        assert(all.last() == after.last());
    }
}

} // verus!
