//! Tracking which components changed since the observer last ran.

use vstd::prelude::*;
use specs::prelude::BitSet;

verus! {

/// The bit set of the `hibitset` crate, as `specs` hands it on. Nothing is
/// known of a value but what the functions below say.
#[verifier::external_type_specification]
#[verifier::external_body]
pub struct ExBitSet(BitSet);

/// The ids that a bit set holds.
pub uninterp spec fn bitset_ids(set: BitSet) -> Set<u32>;

/// The number of ids a bit set has room for: `2^24` where a machine word has
/// 64 bits and `2^20` where it has 32. Adding an id at or past the limit can
/// make the set panic.
pub open spec fn bitset_limit() -> nat {
    if usize::BITS == 64 {
        0x100_0000
    } else {
        0x10_0000
    }
}

/// `BitSet::new`: a set that holds no id.
#[verifier::external_body]
fn empty_bitset() -> (set: BitSet)
    ensures
        bitset_ids(set) == Set::<u32>::empty(),
{
    BitSet::new()
}

/// `BitSet::clear`: empties the set.
pub assume_specification[ BitSet::clear ](set: &mut BitSet)
    ensures
        bitset_ids(*final(set)) == Set::<u32>::empty(),
;

/// `BitSet::add`: puts `id` into the set and returns whether it was there
/// before. The set grows as needed for any id below its limit.
pub assume_specification[ BitSet::add ](set: &mut BitSet, id: u32) -> (was_there: bool)
    requires
        id < bitset_limit(),
    ensures
        bitset_ids(*final(set)) == bitset_ids(*old(set)).insert(id),
        was_there == bitset_ids(*old(set)).contains(id),
;

/// `BitSet::contains`: whether the set holds `id`.
pub assume_specification[ BitSet::contains ](set: &BitSet, id: u32) -> (held: bool)
    ensures
        held == bitset_ids(*set).contains(id),
;

/// What happened to the component of one entity.
#[derive(Clone, Copy, Debug, PartialEq, Eq, Structural, Hash)]
pub enum ComponentEvent {
    Inserted(u32),
    Modified(u32),
    Removed(u32),
}

/// Whether an event marks the entity `id` as changed: its component was
/// inserted or modified. A removal marks nothing.
pub open spec fn marks(event: ComponentEvent, id: u32) -> bool {
    match event {
        ComponentEvent::Inserted(i) => i == id,
        ComponentEvent::Modified(i) => i == id,
        ComponentEvent::Removed(_) => false,
    }
}

/// The entities that a run of events marks as changed.
pub open spec fn marked(events: Seq<ComponentEvent>) -> Set<u32> {
    Set::new(|id: u32| exists|k: int| 0 <= k < events.len() && marks(#[trigger] events[k], id))
}

/// Whether the bit set has room for every entity the events mark.
pub open spec fn within_limit(events: Seq<ComponentEvent>) -> bool {
    forall|k: int, id: u32|
        0 <= k < events.len() && #[trigger] marks(events[k], id) ==> id < bitset_limit()
}

/// Keeps the set of entities whose component changed in the latest run of
/// events.
pub struct ComponentChangeObserver {
    pub dirty: BitSet,
}

impl ComponentChangeObserver {
    /// The entities marked as changed.
    pub open spec fn dirty_ids(&self) -> Set<u32> {
        bitset_ids(self.dirty)
    }

    /// An observer with nothing marked.
    pub fn new() -> (o: ComponentChangeObserver)
        ensures
            o.dirty_ids() == Set::<u32>::empty(),
    {
        ComponentChangeObserver { dirty: empty_bitset() }
    }

    /// Whether every id the events mark has room in a bit set.
    pub fn has_room_for(events: &Vec<ComponentEvent>) -> (b: bool)
        ensures
            b == within_limit(events@),
    {
        let limit: u32 = if usize::BITS == 64 {
            0x100_0000
        } else {
            0x10_0000
        };
        let mut k: usize = 0;
        while k < events.len()
            invariant
                0 <= k <= events.len(),
                limit == bitset_limit(),
                within_limit(events@.take(k as int)),
            decreases events.len() - k,
        {
            let fits = match events[k] {
                ComponentEvent::Inserted(id) => id < limit,
                ComponentEvent::Modified(id) => id < limit,
                ComponentEvent::Removed(_) => true,
            };
            if !fits {
                proof {
                    let id = match events@[k as int] {
                        ComponentEvent::Inserted(id) => id,
                        ComponentEvent::Modified(id) => id,
                        ComponentEvent::Removed(id) => id,
                    };
                    assert(marks(events@[k as int], id) && id >= bitset_limit());
                }
                return false;
            }
            proof {
                assert forall|j: int, id: u32|
                    0 <= j < events@.take(k as int + 1).len() && #[trigger] marks(
                        events@.take(k as int + 1)[j],
                        id,
                    ) implies id < bitset_limit() by {
                    if j < k {
                        assert(marks(events@.take(k as int)[j], id));
                    }
                }
            }
            k = k + 1;
        }
        proof {
            assert(events@.take(events.len() as int) =~= events@);
        }
        true
    }

    /// Forgets what was marked and marks the entities whose component the
    /// events say was inserted or modified.
    pub fn run(&mut self, events: &Vec<ComponentEvent>)
        requires
            within_limit(events@),
        ensures
            final(self).dirty_ids() == marked(events@),
    {
        self.dirty.clear();
        let mut k: usize = 0;
        proof {
            assert(marked(events@.take(0)) =~= Set::<u32>::empty());
        }
        while k < events.len()
            invariant
                0 <= k <= events.len(),
                within_limit(events@),
                bitset_ids(self.dirty) == marked(events@.take(k as int)),
            decreases events.len() - k,
        {
            let ghost before = events@.take(k as int);
            let ghost after = events@.take(k as int + 1);
            proof {
                assert(after[k as int] == events@[k as int]);
                assert forall|j: int| 0 <= j < k implies before[j] == after[j] by {}
            }
            match events[k] {
                ComponentEvent::Inserted(id) => {
                    proof {
                        assert(marks(events@[k as int], id));
                    }
                    self.dirty.add(id);
                    proof {
                        lemma_marked_grows(before, after, id);
                    }
                },
                ComponentEvent::Modified(id) => {
                    proof {
                        assert(marks(events@[k as int], id));
                    }
                    self.dirty.add(id);
                    proof {
                        lemma_marked_grows(before, after, id);
                    }
                },
                ComponentEvent::Removed(_) => {
                    proof {
                        lemma_marked_stays(before, after);
                    }
                },
            }
            k = k + 1;
        }
        proof {
            assert(events@.take(events.len() as int) =~= events@);
        }
    }

    /// Whether the entity `id` is marked as changed.
    pub fn is_dirty(&self, id: u32) -> (b: bool)
        ensures
            b == self.dirty_ids().contains(id),
    {
        self.dirty.contains(id)
    }
}

/// One more event that marks `id` adds `id` to what is marked.
proof fn lemma_marked_grows(before: Seq<ComponentEvent>, after: Seq<ComponentEvent>, id: u32)
    requires
        after.len() == before.len() + 1,
        forall|j: int| 0 <= j < before.len() ==> before[j] == after[j],
        marks(after[before.len() as int], id),
        forall|other: u32| marks(after[before.len() as int], other) ==> other == id,
    ensures
        marked(after) == marked(before).insert(id),
{
    let last = before.len() as int;
    assert forall|x: u32| marked(after).contains(x) <==> marked(before).insert(id).contains(
        x,
    ) by {
        if marked(after).contains(x) {
            let k = choose|k: int| 0 <= k < after.len() && marks(#[trigger] after[k], x);
            if k < last {
                assert(marks(before[k], x));
            }
        }
        if marked(before).contains(x) {
            let k = choose|k: int| 0 <= k < before.len() && marks(#[trigger] before[k], x);
            assert(marks(after[k], x));
        }
        if x == id {
            assert(marks(after[last], x));
        }
    }
    assert(marked(after) =~= marked(before).insert(id));
}

/// One more event that marks nothing leaves what is marked as it is.
proof fn lemma_marked_stays(before: Seq<ComponentEvent>, after: Seq<ComponentEvent>)
    requires
        after.len() == before.len() + 1,
        forall|j: int| 0 <= j < before.len() ==> before[j] == after[j],
        forall|id: u32| !marks(after[before.len() as int], id),
    ensures
        marked(after) == marked(before),
{
    let last = before.len() as int;
    assert forall|x: u32| marked(after).contains(x) <==> marked(before).contains(x) by {
        if marked(after).contains(x) {
            let k = choose|k: int| 0 <= k < after.len() && marks(#[trigger] after[k], x);
            if k < last {
                assert(marks(before[k], x));
            }
        }
        if marked(before).contains(x) {
            let k = choose|k: int| 0 <= k < before.len() && marks(#[trigger] before[k], x);
            assert(marks(after[k], x));
        }
    }
    assert(marked(after) =~= marked(before));
}

} // verus!
