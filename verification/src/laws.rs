use vstd::prelude::*;
use crate::model::{clones_of, drops_of, last_written, ArcView, ArenaView, Event};

verus! {

/// One event leaves a valid arena valid and takes no slot away. A freed
/// record stays freed, and no event clones, drops or writes through a handle
/// of it. A live record is freed by the drop of its last handle and by
/// nothing else; while it lives, a clone of one of its handles adds one to
/// its count, a drop takes one off, and a write replaces its payload; any
/// other event leaves count and payload alone.
pub proof fn law_one_event<T>(arena: ArenaView<T>, event: Event<T>, slot: nat)
    requires
        arena.valid(),
        arena.enabled(event),
        slot < arena.slots.len(),
    ensures
        arena.after(event).valid(),
        arena.after(event).slots.len() >= arena.slots.len(),
        arena.freed(slot) ==> {
            &&& arena.after(event).freed(slot)
            &&& !event.clones(slot) && !event.drops(slot) && !event.writes(slot)
        },
        arena.live(slot) ==> {
            &&& arena.after(event).freed(slot) <==> event.drops(slot) && arena.count(slot) == 1
            &&& arena.after(event).live(slot) <==> !(event.drops(slot) && arena.count(slot) == 1)
        },
        arena.after(event).live(slot) ==> {
            &&& arena.live(slot)
            &&& arena.after(event).count(slot) == arena.count(slot) + event.delta(slot)
            &&& arena.after(event).payload(slot) == event.payload_after(slot, arena.payload(slot))
        },
{
    let next = arena.after(event);
    assert forall|s: nat| #[trigger] next.live(s) implies next.handles(s).finite()
        && next.count(s) >= 1 by {
        if s < arena.slots.len() {
            assert(arena.live(s));
        }
    }
}

/// The count of a live record is the number of its live handles: after any
/// events that an arena admits, the record's count is the count it had, plus
/// the clones of its handles, minus the drops of its handles.
pub proof fn law_count_is_live_handles<T>(arena: ArenaView<T>, events: Seq<Event<T>>, slot: nat)
    requires
        arena.valid(),
        arena.admits(events),
        arena.live(slot),
    ensures
        arena.run(events).valid(),
        arena.run(events).live(slot) ==> arena.run(events).count(slot) == arena.count(slot)
            + clones_of(events, slot) - drops_of(events, slot),
    decreases events.len(),
{
    if events.len() > 0 {
        let next = arena.after(events[0]);
        law_one_event(arena, events[0], slot);
        if next.live(slot) {
            law_count_is_live_handles(next, events.drop_first(), slot);
        } else {
            law_freed_is_final(next, events.drop_first(), slot);
        }
    }
}

/// A freed record stays freed: no event brings it back, none clones or drops
/// a handle of it, and none frees it again.
pub proof fn law_freed_is_final<T>(arena: ArenaView<T>, events: Seq<Event<T>>, slot: nat)
    requires
        arena.valid(),
        arena.admits(events),
        arena.freed(slot),
    ensures
        arena.run(events).valid(),
        arena.run(events).freed(slot),
        arena.frees(events, slot) == 0,
        clones_of(events, slot) == 0,
        drops_of(events, slot) == 0,
    decreases events.len(),
{
    if events.len() > 0 {
        law_one_event(arena, events[0], slot);
        law_freed_is_final(arena.after(events[0]), events.drop_first(), slot);
    }
}

/// A record is freed exactly once: among any events that an arena admits, at
/// most one frees the record, one does exactly if the record is freed in the
/// end, and that is when its handles were dropped as often as there were
/// handles at the start and clones since.
pub proof fn law_freed_exactly_once<T>(arena: ArenaView<T>, events: Seq<Event<T>>, slot: nat)
    requires
        arena.valid(),
        arena.admits(events),
        arena.live(slot),
    ensures
        arena.frees(events, slot) <= 1,
        arena.run(events).freed(slot) <==> arena.frees(events, slot) == 1,
        arena.run(events).freed(slot) <==> drops_of(events, slot) == arena.count(slot)
            + clones_of(events, slot),
        arena.run(events).freed(slot) || arena.run(events).live(slot),
    decreases events.len(),
{
    if events.len() > 0 {
        let next = arena.after(events[0]);
        law_one_event(arena, events[0], slot);
        if next.live(slot) {
            law_freed_exactly_once(next, events.drop_first(), slot);
        } else {
            law_freed_is_final(next, events.drop_first(), slot);
        }
    }
}

/// A handle is alone on its record exactly if the record's count is one, and
/// exactly if every live handle of the record is that handle.
pub proof fn law_exclusive_iff_count_is_one<T>(arena: ArenaView<T>, h: ArcView)
    requires
        arena.valid(),
        arena.owns(h),
    ensures
        arena.exclusive(h) <==> arena.count(h.slot) == 1,
        arena.exclusive(h) <==> forall|other: ArcView|
            other.slot == h.slot && arena.owns(other) ==> other == h,
{
    let handles = arena.handles(h.slot);
    let single = Set::<nat>::empty().insert(h.tag);
    if handles.len() == 1 {
        assert(handles.remove(h.tag).len() == 0);
        assert(handles =~= single);
    }
    if forall|other: ArcView| other.slot == h.slot && arena.owns(other) ==> other == h {
        assert forall|tag: nat| handles.contains(tag) implies tag == h.tag by {
            let other = ArcView { slot: h.slot, tag };
            assert(arena.owns(other));
        }
        assert(handles =~= single);
    }
}

/// A payload written through a handle is the payload that is read through
/// it afterwards. The write leaves every handle what it was, and every other
/// record as it was.
pub proof fn law_written_is_read<T>(arena: ArenaView<T>, h: ArcView, payload: T, other: ArcView)
    requires
        arena.owns(h),
    ensures
        arena.written(h.slot, payload).payload(h.slot) == payload,
        arena.written(h.slot, payload).owns(other) <==> arena.owns(other),
        arena.owns(other) ==> arena.written(h.slot, payload).handles(other.slot)
            == arena.handles(other.slot),
        arena.owns(other) && other.slot != h.slot ==> arena.written(h.slot, payload).payload(
            other.slot,
        ) == arena.payload(other.slot),
{
}

/// No write is lost: after any events that an arena admits, a record that is
/// still live holds the payload of the last write to it, and the payload it
/// had if there was none.
pub proof fn law_payload_is_last_write<T>(arena: ArenaView<T>, events: Seq<Event<T>>, slot: nat)
    requires
        arena.valid(),
        arena.admits(events),
        arena.live(slot),
    ensures
        arena.run(events).live(slot) ==> arena.run(events).payload(slot)
            == last_written(events, slot, arena.payload(slot)),
    decreases events.len(),
{
    if events.len() > 0 {
        let next = arena.after(events[0]);
        law_one_event(arena, events[0], slot);
        if next.live(slot) {
            law_payload_is_last_write(next, events.drop_first(), slot);
        } else {
            law_freed_is_final(next, events.drop_first(), slot);
        }
    }
}

/// A new record has one handle, the one that was returned for it, and stands
/// in a slot that no record had before. Every other handle stays what it was.
pub proof fn law_allocated_adds_one_handle<T>(
    arena: ArenaView<T>,
    payload: T,
    tag: nat,
    other: ArcView,
)
    ensures
        !arena.live(arena.slots.len()) && !arena.freed(arena.slots.len()),
        arena.allocated(payload, tag).exclusive(ArcView { slot: arena.slots.len(), tag }),
        arena.allocated(payload, tag).payload(arena.slots.len()) == payload,
        arena.allocated(payload, tag).owns(other) <==> arena.owns(other) || other == (ArcView {
            slot: arena.slots.len(),
            tag,
        }),
{
}

/// A clone adds one live handle, the twin, to the record of the handle that
/// was cloned. Every other handle stays what it was.
pub proof fn law_cloned_adds_one_handle<T>(
    arena: ArenaView<T>,
    h: ArcView,
    twin: nat,
    other: ArcView,
)
    requires
        arena.owns(h),
        !arena.handles(h.slot).contains(twin),
    ensures
        !arena.owns(ArcView { slot: h.slot, tag: twin }),
        arena.cloned(h, twin).owns(other) <==> arena.owns(other) || other == (ArcView {
            slot: h.slot,
            tag: twin,
        }),
        arena.cloned(h, twin).payload(h.slot) == arena.payload(h.slot),
{
}

/// A drop takes one live handle away, the one that was dropped: it is no
/// handle of its record any more, so it cannot be dropped again. Every other
/// handle stays what it was.
pub proof fn law_dropped_removes_one_handle<T>(arena: ArenaView<T>, h: ArcView, other: ArcView)
    requires
        arena.valid(),
        arena.owns(h),
    ensures
        !arena.dropped(h).owns(h),
        arena.dropped(h).owns(other) <==> arena.owns(other) && other != h,
        arena.dropped(h).live(h.slot) ==> arena.dropped(h).payload(h.slot)
            == arena.payload(h.slot),
{
    law_exclusive_iff_count_is_one(arena, h);
}

} // verus!
