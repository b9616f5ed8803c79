use vstd::prelude::*;
use crate::model::Record;

verus! {

/// The shared record: a count of the handles that refer to it, beside the
/// payload they share.
///
/// The ghost fields name the handles that the count stands for. Each handle
/// carries a tag; `handles` is the set of tags that are alive, and `next_tag`
/// lies above every tag that was ever given out for this record.
pub(crate) struct ArcData<T> {
    pub(crate) refs: usize,
    pub(crate) data: T,
    pub(crate) handles: Ghost<Set<nat>>,
    pub(crate) next_tag: Ghost<nat>,
}

impl<T> ArcData<T> {
    /// The record as contracts see it.
    pub(crate) open spec fn view(&self) -> Record<T> {
        Record { payload: self.data, handles: self.handles@ }
    }

    /// The count is the number of live handles, and there is at least one.
    pub(crate) open spec fn wf(&self) -> bool {
        &&& self.handles@.finite()
        &&& self.handles@.len() == self.refs
        &&& self.refs >= 1
        &&& forall|tag: nat| self.handles@.contains(tag) ==> tag < self.next_tag@
    }

    /// A record with a count of one, for the single handle tagged `0`.
    pub(crate) fn new(data: T) -> (record: Self)
        ensures
            record.wf(),
            record.refs == 1,
            record@ == (Record { payload: data, handles: Set::<nat>::empty().insert(0) }),
            record.next_tag@ == 1,
    {
        let ghost first = Set::<nat>::empty().insert(0);
        Self { refs: 1, data, handles: Ghost(first), next_tag: Ghost(1) }
    }
}

} // verus!
