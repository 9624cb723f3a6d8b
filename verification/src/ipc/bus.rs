//! The cognitive bus: a bounded, priority-ordered message queue.
//!
//! Messages are kept in a binary max-heap keyed on (priority, earlier
//! timestamp), so the most urgent and, among equals, the oldest message is
//! consumed first.

use vstd::prelude::*;
use vstd::multiset::Multiset;
use crate::ipc::{IntentMessage, BusError, priority_rank};

verus! {

broadcast use vstd::seq_lib::group_seq_properties;

/// Maximum number of messages the bus holds.
pub const BUS_CAPACITY: usize = 128;

/// `a` is consumed before `b`: higher priority, or equal priority and older.
pub open spec fn outranks(a: IntentMessage, b: IntentMessage) -> bool {
    ||| priority_rank(a.priority) > priority_rank(b.priority)
    ||| (priority_rank(a.priority) == priority_rank(b.priority) && a.timestamp < b.timestamp)
}

/// Index of the parent of heap slot `i`.
pub open spec fn parent(i: int) -> int {
    (i - 1) / 2
}

/// Every slot is no more urgent than its parent.
pub open spec fn heap_ordered(s: Seq<IntentMessage>) -> bool {
    forall|i: int| 0 < i < s.len() ==> !outranks(#[trigger] s[i], s[parent(i)])
}

/// The bus state.
pub struct CognitiveBus {
    heap: Vec<IntentMessage>,
}

impl View for CognitiveBus {
    type V = Multiset<IntentMessage>;

    closed spec fn view(&self) -> Multiset<IntentMessage> {
        self.heap@.to_multiset()
    }
}

/// The root of an ordered heap outranks or ties with every element.
proof fn lemma_root_is_max(s: Seq<IntentMessage>, j: int)
    requires
        heap_ordered(s),
        0 <= j < s.len(),
    ensures
        !outranks(s[j], s[0]),
    decreases j,
{
    if j > 0 {
        assert(!outranks(s[j], s[parent(j)]));
        lemma_root_is_max(s, parent(j));
    }
}

proof fn lemma_swap_multiset(s: Seq<IntentMessage>, i: int, j: int)
    requires
        0 <= i < s.len(),
        0 <= j < s.len(),
    ensures
        s.update(i, s[j]).update(j, s[i]).to_multiset() =~= s.to_multiset(),
{
    broadcast use vstd::seq_lib::to_multiset_update;

    let t = s.update(i, s[j]);
    assert(t.to_multiset() =~= s.to_multiset().insert(s[j]).remove(s[i]));
    assert(t[j] == s[j]) by {
        if i != j {
        }
    }
    assert(t.update(j, s[i]).to_multiset() =~= t.to_multiset().insert(s[i]).remove(t[j]));
}

fn outranks_exec(a: &IntentMessage, b: &IntentMessage) -> (r: bool)
    ensures
        r == outranks(*a, *b),
{
    let ra = a.priority.rank();
    let rb = b.priority.rank();
    ra > rb || (ra == rb && a.timestamp < b.timestamp)
}

impl CognitiveBus {
    #[verifier::type_invariant]
    spec fn inv(self) -> bool {
        &&& heap_ordered(self.heap@)
        &&& self.heap@.len() <= BUS_CAPACITY
    }

    /// Number of messages in the bus (as a spec value).
    pub closed spec fn spec_len(&self) -> nat {
        self.heap@.len()
    }

    /// An empty bus.
    pub fn new() -> (b: Self)
        ensures
            b@ =~= Multiset::empty(),
    {
        CognitiveBus { heap: Vec::new() }
    }

    fn sift_up(heap: &mut Vec<IntentMessage>, start: usize)
        requires
            start + 1 == old(heap)@.len(),
            forall|i: int|
                0 < i < old(heap)@.len() && i != start ==> !outranks(
                    #[trigger] old(heap)@[i],
                    old(heap)@[parent(i)],
                ),
        ensures
            heap_ordered(final(heap)@),
            final(heap)@.to_multiset() =~= old(heap)@.to_multiset(),
            final(heap)@.len() == old(heap)@.len(),
    {
        let mut idx = start;
        while idx > 0
            invariant
                idx < heap@.len(),
                heap@.len() == old(heap)@.len(),
                heap@.to_multiset() =~= old(heap)@.to_multiset(),
                forall|i: int|
                    0 < i < heap@.len() && i != idx ==> !outranks(#[trigger] heap@[i], heap@[parent(i)]),
                idx > 0 ==> forall|c: int|
                    0 < c < heap@.len() && parent(c) == idx ==> !outranks(
                        #[trigger] heap@[c],
                        heap@[parent(idx as int)],
                    ),
            decreases idx,
        {
            let p = (idx - 1) / 2;
            if outranks_exec(&heap[idx], &heap[p]) {
                let a = heap[idx];
                let b = heap[p];
                proof {
                    lemma_swap_multiset(heap@, idx as int, p as int);
                }
                heap.set(idx, b);
                heap.set(p, a);
                idx = p;
            } else {
                return;
            }
        }
    }

    fn sift_down(heap: &mut Vec<IntentMessage>, start: usize)
        requires
            start == 0,
            old(heap)@.len() > 0,
            old(heap)@.len() <= BUS_CAPACITY,
            forall|i: int|
                0 < i < old(heap)@.len() && parent(i) != start ==> !outranks(
                    #[trigger] old(heap)@[i],
                    old(heap)@[parent(i)],
                ),
        ensures
            heap_ordered(final(heap)@),
            final(heap)@.to_multiset() =~= old(heap)@.to_multiset(),
            final(heap)@.len() == old(heap)@.len(),
    {
        let len = heap.len();
        let mut idx = start;
        loop
            invariant
                len == heap@.len(),
                len <= BUS_CAPACITY,
                idx < len,
                heap@.len() == old(heap)@.len(),
                heap@.to_multiset() =~= old(heap)@.to_multiset(),
                forall|i: int|
                    0 < i < heap@.len() && parent(i) != idx ==> !outranks(
                        #[trigger] heap@[i],
                        heap@[parent(i)],
                    ),
                idx > 0 ==> forall|c: int|
                    0 < c < heap@.len() && parent(c) == idx ==> !outranks(
                        #[trigger] heap@[c],
                        heap@[parent(idx as int)],
                    ),
            decreases len - idx,
        {
            let left = 2 * idx + 1;
            let right = 2 * idx + 2;
            let mut largest = idx;
            if left < len && outranks_exec(&heap[left], &heap[largest]) {
                largest = left;
            }
            if right < len && outranks_exec(&heap[right], &heap[largest]) {
                largest = right;
            }
            if largest != idx {
                let a = heap[idx];
                let b = heap[largest];
                proof {
                    lemma_swap_multiset(heap@, idx as int, largest as int);
                }
                heap.set(idx, b);
                heap.set(largest, a);
                idx = largest;
            } else {
                return;
            }
        }
    }

    /// Adds a message; fails with `QueueFull` when the bus is at capacity.
    pub fn push(&mut self, msg: IntentMessage) -> (r: Result<(), BusError>)
        ensures
            old(self).spec_len() >= BUS_CAPACITY ==> r == Err::<(), BusError>(BusError::QueueFull)
                && final(self)@ == old(self)@,
            old(self).spec_len() < BUS_CAPACITY ==> r is Ok && final(self)@ == old(self)@.insert(msg),
            final(self).spec_len() == final(self)@.len(),
    {
        proof {
            use_type_invariant(&*self);
        }
        if self.heap.len() >= BUS_CAPACITY {
            return Err(BusError::QueueFull);
        }
        let mut heap = Vec::new();
        std::mem::swap(&mut heap, &mut self.heap);
        let ghost before = heap@;
        heap.push(msg);
        let last = heap.len() - 1;
        Self::sift_up(&mut heap, last);
        assert(heap@.to_multiset() =~= before.to_multiset().insert(msg));
        self.heap = heap;
        Ok(())
    }

    /// Removes and returns the most urgent (and among equals the oldest)
    /// message; fails with `QueueEmpty` when the bus is empty.
    pub fn pop(&mut self) -> (r: Result<IntentMessage, BusError>)
        ensures
            old(self)@.len() == 0 ==> r == Err::<IntentMessage, BusError>(BusError::QueueEmpty)
                && final(self)@ == old(self)@,
            old(self)@.len() > 0 ==> r is Ok,
            r matches Ok(m) ==> {
                &&& old(self)@.contains(m)
                &&& final(self)@ == old(self)@.remove(m)
                &&& forall|x: IntentMessage| old(self)@.contains(x) ==> !outranks(x, m)
            },
            final(self).spec_len() == final(self)@.len(),
    {
        proof {
            use_type_invariant(&*self);
        }
        if self.heap.len() == 0 {
            return Err(BusError::QueueEmpty);
        }
        let mut heap = Vec::new();
        std::mem::swap(&mut heap, &mut self.heap);
        let ghost orig = heap@;
        let top = heap[0];
        proof {
            assert forall|x: IntentMessage| orig.to_multiset().contains(x) implies !outranks(
                x,
                top,
            ) by {
                assert(orig.contains(x));
                let j = choose|j: int| 0 <= j < orig.len() && orig[j] == x;
                lemma_root_is_max(orig, j);
            }
            assert(orig[0] == top);
            assert(orig.contains(top));
        }
        let last = heap.len() - 1;
        let a = heap[0];
        let b = heap[last];
        proof {
            lemma_swap_multiset(heap@, 0, last as int);
        }
        heap.set(0, b);
        heap.set(last, a);
        let ghost swapped = heap@;
        let popped = heap.pop();
        proof {
            assert(swapped =~= heap@.push(top));
            assert(swapped.to_multiset() =~= heap@.to_multiset().insert(top));
            assert(heap@.to_multiset() =~= orig.to_multiset().remove(top));
        }
        if heap.len() > 0 {
            Self::sift_down(&mut heap, 0);
        }
        self.heap = heap;
        Ok(top)
    }

    /// Number of messages in the bus.
    pub fn len(&self) -> (n: usize)
        ensures
            n == self@.len(),
            n == self.spec_len(),
    {
        self.heap.len()
    }

    /// True when the bus holds no message.
    pub fn is_empty(&self) -> (b: bool)
        ensures
            b == (self@.len() == 0),
    {
        self.heap.len() == 0
    }
}

/// Publishes a message (priority-aware). Fails with `QueueFull` when the bus
/// already holds `BUS_CAPACITY` messages.
pub fn publish(bus: &mut CognitiveBus, msg: IntentMessage) -> (r: Result<(), BusError>)
    ensures
        old(bus)@.len() >= BUS_CAPACITY ==> r == Err::<(), BusError>(BusError::QueueFull)
            && final(bus)@ == old(bus)@,
        old(bus)@.len() < BUS_CAPACITY ==> r is Ok && final(bus)@ == old(bus)@.insert(msg),
{
    proof {
        use_type_invariant(&*bus);
    }
    bus.push(msg)
}

/// Consumes the highest-priority message; among equal priorities the one with
/// the earliest timestamp. Fails with `QueueEmpty` on an empty bus.
pub fn consume(bus: &mut CognitiveBus) -> (r: Result<IntentMessage, BusError>)
    ensures
        old(bus)@.len() == 0 <==> r == Err::<IntentMessage, BusError>(BusError::QueueEmpty),
        old(bus)@.len() == 0 ==> final(bus)@ == old(bus)@,
        old(bus)@.len() > 0 ==> r is Ok,
        r matches Ok(m) ==> {
            &&& old(bus)@.contains(m)
            &&& final(bus)@ == old(bus)@.remove(m)
            &&& forall|x: IntentMessage| old(bus)@.contains(x) ==> !outranks(x, m)
        },
{
    bus.pop()
}

/// What is published to an empty bus is what the next consume returns.
pub proof fn lemma_lone_message(before: Multiset<IntentMessage>, msg: IntentMessage, m: IntentMessage)
    requires
        before.len() == 0,
        before.insert(msg).contains(m),
    ensures
        m == msg,
{
    assert(before =~= Multiset::empty());
}

/// Number of messages currently in the bus.
pub fn len(bus: &CognitiveBus) -> (n: usize)
    ensures
        n == bus@.len(),
{
    bus.len()
}

/// True when the bus is empty.
pub fn is_empty(bus: &CognitiveBus) -> (b: bool)
    ensures
        b == (bus@.len() == 0),
{
    bus.is_empty()
}

/// Maximum capacity of the bus.
pub fn capacity() -> (n: usize)
    ensures
        n == BUS_CAPACITY,
{
    BUS_CAPACITY
}

} // verus!
