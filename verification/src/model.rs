use vstd::prelude::*;

verus! {

/// The identity of one handle: the slot of the record it refers to, and a tag
/// that tells it apart from the other handles of that record.
pub struct ArcView {
    pub slot: nat,
    pub tag: nat,
}

/// A live record as contracts see it: the payload, and the tags of the
/// handles that currently refer to it.
pub struct Record<T> {
    pub payload: T,
    pub handles: Set<nat>,
}

/// The arena as contracts see it: one entry per slot ever allocated, `None`
/// once the record of that slot has been freed.
#[verifier::ext_equal]
pub struct ArenaView<T> {
    pub slots: Seq<Option<Record<T>>>,
}

/// One operation on an arena. The operations of several threads on one arena
/// take effect one after the other; a sequence of events is the order in
/// which they did.
pub enum Event<T> {
    /// A record was allocated for `payload`, with one handle tagged `tag`.
    Allocated { payload: T, tag: nat },
    /// `handle` was cloned into a handle tagged `twin`.
    Cloned { handle: ArcView, twin: nat },
    /// `handle` was dropped.
    Dropped { handle: ArcView },
    /// `payload` was written through `handle`.
    Written { handle: ArcView, payload: T },
}

impl<T> Event<T> {
    /// The event clones a handle of the record in `slot`.
    pub open spec fn clones(self, slot: nat) -> bool {
        self matches Event::Cloned { handle, .. } && handle.slot == slot
    }

    /// The event drops a handle of the record in `slot`.
    pub open spec fn drops(self, slot: nat) -> bool {
        self matches Event::Dropped { handle } && handle.slot == slot
    }

    /// The event writes the payload of the record in `slot`.
    pub open spec fn writes(self, slot: nat) -> bool {
        self matches Event::Written { handle, .. } && handle.slot == slot
    }

    /// By how much the event changes the number of handles of the record in
    /// `slot`.
    pub open spec fn delta(self, slot: nat) -> int {
        if self.clones(slot) {
            1
        } else if self.drops(slot) {
            -1
        } else {
            0
        }
    }

    /// The payload that the record in `slot` has after the event, if it had
    /// `payload` before.
    pub open spec fn payload_after(self, slot: nat, payload: T) -> T {
        if self.writes(slot) {
            self->Written_payload
        } else {
            payload
        }
    }
}

impl<T> ArenaView<T> {
    /// The slot holds a record that has not been freed.
    pub open spec fn live(self, slot: nat) -> bool {
        slot < self.slots.len() && self.slots[slot as int] is Some
    }

    /// The slot was allocated and its record has been freed since.
    pub open spec fn freed(self, slot: nat) -> bool {
        slot < self.slots.len() && self.slots[slot as int] is None
    }

    /// The tags of the live handles of the record in `slot`.
    pub open spec fn handles(self, slot: nat) -> Set<nat> {
        self.slots[slot as int]->0.handles
    }

    /// The payload of the record in `slot`.
    pub open spec fn payload(self, slot: nat) -> T {
        self.slots[slot as int]->0.payload
    }

    /// The number of live handles of the record in `slot`.
    pub open spec fn count(self, slot: nat) -> nat {
        self.handles(slot).len()
    }

    /// The handle is one of the live handles of a live record.
    pub open spec fn owns(self, h: ArcView) -> bool {
        self.live(h.slot) && self.handles(h.slot).contains(h.tag)
    }

    /// The handle is the only live handle of a live record.
    pub open spec fn exclusive(self, h: ArcView) -> bool {
        self.live(h.slot) && self.handles(h.slot) == Set::<nat>::empty().insert(h.tag)
    }

    /// Every live record has a finite, non-empty set of handles.
    pub open spec fn valid(self) -> bool {
        forall|slot: nat| #[trigger]
            self.live(slot) ==> self.handles(slot).finite() && self.count(slot) >= 1
    }

    /// The arena after a new record was allocated for `payload`, with one
    /// handle tagged `tag`.
    pub open spec fn allocated(self, payload: T, tag: nat) -> Self {
        ArenaView {
            slots: self.slots.push(
                Some(Record { payload, handles: Set::<nat>::empty().insert(tag) }),
            ),
        }
    }

    /// The arena after the payload of the record in `slot` was replaced.
    pub open spec fn written(self, slot: nat, payload: T) -> Self {
        ArenaView {
            slots: self.slots.update(
                slot as int,
                Some(Record { payload, handles: self.handles(slot) }),
            ),
        }
    }

    /// The arena after `h` was cloned into a handle tagged `twin`.
    pub open spec fn cloned(self, h: ArcView, twin: nat) -> Self {
        ArenaView {
            slots: self.slots.update(
                h.slot as int,
                Some(
                    Record {
                        payload: self.payload(h.slot),
                        handles: self.handles(h.slot).insert(twin),
                    },
                ),
            ),
        }
    }

    /// The arena after `h` was dropped: the record is freed if `h` was its
    /// last handle, and has one handle less otherwise.
    pub open spec fn dropped(self, h: ArcView) -> Self {
        ArenaView {
            slots: self.slots.update(
                h.slot as int,
                if self.count(h.slot) == 1 {
                    None
                } else {
                    Some(
                        Record {
                            payload: self.payload(h.slot),
                            handles: self.handles(h.slot).remove(h.tag),
                        },
                    )
                },
            ),
        }
    }

    /// The event can happen in this arena: it goes through a live handle, a
    /// clone gets a tag that no live handle of the record has, and a write
    /// goes through the only handle of its record.
    pub open spec fn enabled(self, event: Event<T>) -> bool {
        match event {
            Event::Allocated { .. } => true,
            Event::Cloned { handle, twin } => self.owns(handle) && !self.handles(
                handle.slot,
            ).contains(twin),
            Event::Dropped { handle } => self.owns(handle),
            Event::Written { handle, .. } => self.exclusive(handle),
        }
    }

    /// The arena after the event.
    pub open spec fn after(self, event: Event<T>) -> Self {
        match event {
            Event::Allocated { payload, tag } => self.allocated(payload, tag),
            Event::Cloned { handle, twin } => self.cloned(handle, twin),
            Event::Dropped { handle } => self.dropped(handle),
            Event::Written { handle, payload } => self.written(handle.slot, payload),
        }
    }

    /// Each of the events can happen in the arena that the events before it
    /// leave.
    pub open spec fn admits(self, events: Seq<Event<T>>) -> bool
        decreases events.len(),
    {
        events.len() > 0 ==> self.enabled(events[0]) && self.after(events[0]).admits(
            events.drop_first(),
        )
    }

    /// The arena after all the events, in their order.
    pub open spec fn run(self, events: Seq<Event<T>>) -> Self
        decreases events.len(),
    {
        if events.len() == 0 {
            self
        } else {
            self.after(events[0]).run(events.drop_first())
        }
    }

    /// How many of the events free the record in `slot`.
    pub open spec fn frees(self, events: Seq<Event<T>>, slot: nat) -> nat
        decreases events.len(),
    {
        if events.len() == 0 {
            0
        } else {
            let next = self.after(events[0]);
            let freed_now: nat = if self.live(slot) && next.freed(slot) {
                1
            } else {
                0
            };
            freed_now + next.frees(events.drop_first(), slot)
        }
    }
}

/// How many of the events clone a handle of the record in `slot`.
pub open spec fn clones_of<T>(events: Seq<Event<T>>, slot: nat) -> nat
    decreases events.len(),
{
    if events.len() == 0 {
        0
    } else {
        let first: nat = if events[0].clones(slot) {
            1
        } else {
            0
        };
        first + clones_of(events.drop_first(), slot)
    }
}

/// How many of the events drop a handle of the record in `slot`.
pub open spec fn drops_of<T>(events: Seq<Event<T>>, slot: nat) -> nat
    decreases events.len(),
{
    if events.len() == 0 {
        0
    } else {
        let first: nat = if events[0].drops(slot) {
            1
        } else {
            0
        };
        first + drops_of(events.drop_first(), slot)
    }
}

/// The payload that the last of the events to write the record in `slot`
/// has written, and `payload` if none of them writes it.
pub open spec fn last_written<T>(events: Seq<Event<T>>, slot: nat, payload: T) -> T
    decreases events.len(),
{
    if events.len() == 0 {
        payload
    } else {
        last_written(events.drop_first(), slot, events[0].payload_after(slot, payload))
    }
}

} // verus!
