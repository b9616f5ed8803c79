use vstd::prelude::*;
use crate::arcdata::ArcData;
use crate::laws::law_exclusive_iff_count_is_one;
use crate::model::{ArcView, ArenaView};
use std::marker::PhantomData;

verus! {

/// The largest count from which a handle may still be cloned. It keeps the
/// count far from the end of its range, where it would wrap around.
pub const MAX_REFS: usize = usize::MAX / 3;

/// The storage that records live in. Each record is a heap allocation of its
/// own, reached through a slot. A slot is used for one record only: it is
/// filled when the record is made and emptied, and the record deallocated,
/// when the record's last handle goes.
///
/// An arena is plain data. Threads that share one give each operation
/// exclusive access to it, so that the operations take effect in some order.
pub struct Arena<T> {
    slots: Vec<Option<Box<ArcData<T>>>>,
}

/// A handle to a record in an [`Arena`]. Every handle counts for one in the
/// record's count, from the call that made it to the call that drops it.
/// A handle is used with the arena that made it.
pub struct Arc<T> {
    slot: usize,
    tag: Ghost<nat>,
    marker: PhantomData<T>,
}

impl<T> View for Arc<T> {
    type V = ArcView;

    closed spec fn view(&self) -> ArcView {
        ArcView { slot: self.slot as nat, tag: self.tag@ }
    }
}

impl<T> View for Arena<T> {
    type V = ArenaView<T>;

    closed spec fn view(&self) -> ArenaView<T> {
        ArenaView {
            slots: Seq::new(
                self.slots@.len(),
                |i: int|
                    match self.slots@[i] {
                        Some(record) => Some(record.view()),
                        None => None,
                    },
            ),
        }
    }
}

impl<T> Arena<T> {
    /// Every record in the arena counts exactly its live handles.
    pub closed spec fn wf(&self) -> bool {
        forall|i: int|
            0 <= i < self.slots@.len() ==> (#[trigger] self.slots@[i] matches Some(record)
                ==> record.wf())
    }

    /// An arena without records.
    pub fn new() -> (arena: Self)
        ensures
            arena.wf(),
            arena@.slots.len() == 0,
    {
        Arena { slots: Vec::new() }
    }

    /// In a well-formed arena every live record has a finite, non-empty set
    /// of handles.
    pub proof fn lemma_view_valid(&self)
        requires
            self.wf(),
        ensures
            self@.valid(),
    {
    }
}

impl<T> Arc<T> {
    /// Allocates a record for `data` with a count of one, in a slot that no
    /// record had before, and returns the handle to it.
    pub fn new(arena: &mut Arena<T>, data: T) -> (handle: Self)
        requires
            old(arena).wf(),
        ensures
            final(arena).wf(),
            handle@.slot == old(arena)@.slots.len(),
            final(arena)@ == old(arena)@.allocated(data, handle@.tag),
    {
        let slot: usize = arena.slots.len();
        arena.slots.push(Some(Box::new(ArcData::new(data))));
        Arc { slot, tag: Ghost(0), marker: PhantomData }
    }

    /// The count of the record that `self` refers to: the number of its live
    /// handles.
    pub fn ref_count(&self, arena: &Arena<T>) -> (count: usize)
        requires
            arena.wf(),
            arena@.owns(self@),
        ensures
            count == arena@.count(self@.slot),
    {
        self.data(arena).refs
    }

    /// The payload, for writing, if `this` is the only handle of its record,
    /// and `None` if the record has other handles. What is written through
    /// the reference is the record's payload from then on.
    pub fn get_mut<'a>(this: &'a mut Self, arena: &'a mut Arena<T>) -> (payload: Option<&'a mut T>)
        requires
            old(arena).wf(),
            old(arena)@.owns(old(this)@),
        ensures
            final(arena).wf(),
            *final(this) == *old(this),
            payload is Some <==> old(arena)@.exclusive(old(this)@),
            payload is Some <==> old(arena)@.count(old(this)@.slot) == 1,
            payload matches Some(p) ==> *p == old(arena)@.payload(old(this)@.slot),
            final(arena)@ == (match payload {
                Some(p) => old(arena)@.written(old(this)@.slot, *final(p)),
                None => old(arena)@,
            }),
    {
        proof {
            arena.lemma_view_valid();
            law_exclusive_iff_count_is_one(arena@, this@);
        }
        if this.data(arena).refs == 1 {
            Some(&mut this.data_mut(arena).data)
        } else {
            None
        }
    }

    /// The payload, for reading.
    pub fn deref<'a>(&self, arena: &'a Arena<T>) -> (payload: &'a T)
        requires
            arena.wf(),
            arena@.owns(self@),
        ensures
            *payload == arena@.payload(self@.slot),
    {
        &self.data(arena).data
    }

    /// A second handle to the record of `self`; the count goes up by one.
    pub fn clone(&self, arena: &mut Arena<T>) -> (twin: Self)
        requires
            old(arena).wf(),
            old(arena)@.owns(self@),
            old(arena)@.count(self@.slot) <= MAX_REFS,
        ensures
            final(arena).wf(),
            twin@.slot == self@.slot,
            !old(arena)@.handles(self@.slot).contains(twin@.tag),
            final(arena)@ == old(arena)@.cloned(self@, twin@.tag),
    {
        let record = self.data_mut(arena);
        let ghost fresh = record.next_tag@;
        record.refs = record.refs + 1;
        record.handles = Ghost(record.handles@.insert(fresh));
        record.next_tag = Ghost(fresh + 1);
        Arc { slot: self.slot, tag: Ghost(fresh), marker: PhantomData }
    }

    /// Gives up `self`; the count goes down by one, and the record is freed
    /// if `self` was its last handle.
    pub fn drop(self, arena: &mut Arena<T>)
        requires
            old(arena).wf(),
            old(arena)@.owns(self@),
        ensures
            final(arena).wf(),
            final(arena)@ == old(arena)@.dropped(self@),
    {
        let record = self.data_mut(arena);
        let previous: usize = record.refs;
        record.refs = previous - 1;
        record.handles = Ghost(record.handles@.remove(self.tag@));
        if previous == 1 {
            arena.slots[self.slot] = None;
        }
    }

    fn data<'a>(&self, arena: &'a Arena<T>) -> (record: &'a ArcData<T>)
        requires
            arena.wf(),
            arena@.owns(self@),
        ensures
            arena.slots@[self.slot as int] == Some(Box::new(*record)),
            record.wf(),
    {
        &**arena.slots[self.slot].as_ref().unwrap()
    }

    fn data_mut<'a>(&self, arena: &'a mut Arena<T>) -> (record: &'a mut ArcData<T>)
        requires
            old(arena).wf(),
            old(arena)@.owns(self@),
        ensures
            old(arena).slots@[self.slot as int] == Some(Box::new(*record)),
            record.wf(),
            final(arena).slots@ == old(arena).slots@.update(
                self.slot as int,
                Some(Box::new(*final(record))),
            ),
    {
        &mut **arena.slots[self.slot].as_mut().unwrap()
    }
}

} // verus!
