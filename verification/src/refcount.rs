//! Reference counts of engine objects.

use std::collections::HashMap;
use vstd::prelude::*;
use vstd::std_specs::hash::*;

use crate::squirrel::{ref_counted, SQObject};

verus! {

broadcast use vstd::std_specs::hash::group_hash_axioms;

/// The reference counts of the engine objects that an operation touches, by address.
pub struct RefCounts {
    counts: HashMap<u64, i32>,
}

impl View for RefCounts {
    type V = Map<u64, int>;

    closed spec fn view(&self) -> Map<u64, int> {
        self.counts@.map_values(|c: i32| c as int)
    }
}

/// The address of the count that belongs to `obj`; none where it is not reference counted or
/// points nowhere.
pub open spec fn count_addr(obj: SQObject) -> Option<u64> {
    if ref_counted(obj.ty) && obj.val != 0 {
        Some(obj.val)
    } else {
        None
    }
}

/// The counts after one more reference to the object at `addr`.
pub open spec fn referenced(counts: Map<u64, int>, addr: u64) -> Map<u64, int> {
    counts.insert(addr, counts[addr] + 1)
}

/// The counts after one more reference to `obj`.
pub open spec fn incremented(counts: Map<u64, int>, obj: SQObject) -> Map<u64, int> {
    match count_addr(obj) {
        Some(addr) => referenced(counts, addr),
        None => counts,
    }
}

/// The counts after one reference to `obj` less.
pub open spec fn released(counts: Map<u64, int>, obj: SQObject) -> Map<u64, int> {
    match count_addr(obj) {
        Some(addr) => counts.insert(addr, counts[addr] - 1),
        None => counts,
    }
}

/// The object that giving up one reference to `obj` leaves without any reference.
pub open spec fn destroyed(counts: Map<u64, int>, obj: SQObject) -> Option<u64> {
    match count_addr(obj) {
        Some(addr) => if counts[addr] <= 1 {
            Some(addr)
        } else {
            None
        },
        None => None,
    }
}

/// The count that belongs to `obj`, if any, is among `counts` and can still grow.
pub open spec fn can_increment(counts: Map<u64, int>, obj: SQObject) -> bool {
    count_addr(obj) matches Some(addr) ==> counts.dom().contains(addr) && counts[addr] < i32::MAX
}

/// The count that belongs to `obj`, if any, is among `counts` and can still shrink.
pub open spec fn can_release(counts: Map<u64, int>, obj: SQObject) -> bool {
    count_addr(obj) matches Some(addr) ==> counts.dom().contains(addr) && counts[addr] > i32::MIN
}

/// The counts after one more reference to each of `objs`.
pub open spec fn incremented_all(counts: Map<u64, int>, objs: Seq<SQObject>) -> Map<u64, int>
    decreases objs.len(),
{
    if objs.len() == 0 {
        counts
    } else {
        incremented(incremented_all(counts, objs.drop_last()), objs.last())
    }
}

/// Each of `objs` can be counted when its turn comes.
pub open spec fn can_increment_all(counts: Map<u64, int>, objs: Seq<SQObject>) -> bool {
    forall|k: int|
        0 <= k < objs.len() ==> can_increment(
            incremented_all(counts, #[trigger] objs.take(k)),
            objs[k],
        )
}

/// How many of `objs` are references to the object at `addr`.
pub open spec fn references_to(objs: Seq<SQObject>, addr: u64) -> nat {
    objs.filter(|obj: SQObject| count_addr(obj) == Some(addr)).len()
}

/// Counting the next of `objs`.
pub proof fn lemma_incremented_all_next(counts: Map<u64, int>, objs: Seq<SQObject>, k: int)
    requires
        0 <= k < objs.len(),
    ensures
        incremented_all(counts, objs.take(k + 1)) == incremented(
            incremented_all(counts, objs.take(k)),
            objs[k],
        ),
{
    assert(objs.take(k + 1).drop_last() =~= objs.take(k));
    assert(objs.take(k + 1).last() == objs[k]);
}

/// Counting a list of references adds to each count the number of references to its object.
pub proof fn law_incremented_all_adds(counts: Map<u64, int>, objs: Seq<SQObject>, addr: u64)
    requires
        counts.dom().contains(addr),
    ensures
        incremented_all(counts, objs).dom().contains(addr),
        incremented_all(counts, objs)[addr] == counts[addr] + references_to(objs, addr),
    decreases objs.len(),
{
    reveal(Seq::filter);
    if objs.len() > 0 {
        law_incremented_all_adds(counts, objs.drop_last(), addr);
    }
}

/// An object that has no count, and is not among `objs`, gets none from counting them.
proof fn lemma_uncounted_stays(counts: Map<u64, int>, objs: Seq<SQObject>, addr: u64)
    requires
        !counts.dom().contains(addr),
        forall|i: int| 0 <= i < objs.len() ==> count_addr(#[trigger] objs[i]) != Some(addr),
    ensures
        !incremented_all(counts, objs).dom().contains(addr),
    decreases objs.len(),
{
    if objs.len() > 0 {
        lemma_uncounted_stays(counts, objs.drop_last(), addr);
    }
}

impl RefCounts {
    /// No counts at all.
    pub fn new() -> (r: Self)
        ensures
            r@ == Map::<u64, int>::empty(),
    {
        let r = RefCounts { counts: HashMap::new() };
        assert(r@ =~= Map::<u64, int>::empty());
        r
    }

    /// Records that the count at `addr` is `count`.
    pub fn set(&mut self, addr: u64, count: i32)
        ensures
            final(self)@ == old(self)@.insert(addr, count as int),
    {
        self.counts.insert(addr, count);
        assert(self@ =~= old(self)@.insert(addr, count as int));
    }

    /// The count at `addr`, if it is recorded.
    pub fn get(&self, addr: u64) -> (r: Option<i32>)
        ensures
            r is Some <==> self@.dom().contains(addr),
            r matches Some(count) ==> count == self@[addr],
    {
        match self.counts.get(&addr) {
            Some(count) => Some(*count),
            None => None,
        }
    }

    /// Counts one more reference to the object at `addr`.
    pub fn reference(&mut self, addr: u64)
        requires
            old(self)@.dom().contains(addr),
            old(self)@[addr] < i32::MAX,
        ensures
            final(self)@ == referenced(old(self)@, addr),
    {
        if let Some(count) = self.get(addr) {
            self.set(addr, count + 1);
        }
    }
}

/// The address whose count has to be at hand before `obj` is counted or released.
pub fn ref_count_addr(obj: SQObject) -> (addr: Option<u64>)
    ensures
        addr == count_addr(obj),
{
    if obj.ty.is_ref_counted() && obj.val != 0 {
        Some(obj.val)
    } else {
        None
    }
}

/// How many of the first `end` of `objs` are references to the object at `addr`.
fn earlier_references(objs: &Vec<SQObject>, end: usize, addr: u64) -> (found: usize)
    requires
        end <= objs.len(),
    ensures
        found == references_to(objs@.take(end as int), addr),
        found <= end,
{
    reveal(Seq::filter);
    let mut found: usize = 0;
    let mut i: usize = 0;
    while i < end
        invariant
            i <= end <= objs.len(),
            found <= i,
            found == references_to(objs@.take(i as int), addr),
        decreases end - i,
    {
        proof {
            reveal(Seq::filter);
            assert(objs@.take(i + 1).drop_last() =~= objs@.take(i as int));
            assert(objs@.take(i + 1).last() == objs[i as int]);
        }
        if let Some(other) = ref_count_addr(objs[i]) {
            if other == addr {
                found += 1;
            }
        }
        i += 1;
    }
    found
}

/// Whether each of `objs` can be counted when its turn comes.
pub fn can_count_all(counts: &RefCounts, objs: &Vec<SQObject>) -> (r: bool)
    ensures
        r == can_increment_all(counts@, objs@),
{
    let mut k: usize = 0;
    while k < objs.len()
        invariant
            k <= objs.len(),
            forall|i: int|
                0 <= i < k ==> (count_addr(#[trigger] objs[i]) matches Some(addr)
                    ==> counts@.dom().contains(addr)),
            forall|i: int|
                0 <= i < k ==> can_increment(
                    incremented_all(counts@, #[trigger] objs@.take(i)),
                    objs[i],
                ),
        decreases objs.len() - k,
    {
        let ghost earlier = objs@.take(k as int);
        if let Some(addr) = ref_count_addr(objs[k]) {
            match counts.get(addr) {
                None => {
                    proof {
                        assert forall|i: int| 0 <= i < earlier.len() implies count_addr(
                            #[trigger] earlier[i],
                        ) != Some(addr) by {
                            assert(earlier[i] == objs[i]);
                        }
                        lemma_uncounted_stays(counts@, earlier, addr);
                        assert(!can_increment(incremented_all(counts@, earlier), objs[k as int]));
                    }
                    return false;
                },
                Some(count) => {
                    let more = earlier_references(objs, k, addr);
                    proof {
                        law_incremented_all_adds(counts@, earlier, addr);
                    }
                    if count as i128 + more as i128 >= i32::MAX as i128 {
                        assert(!can_increment(incremented_all(counts@, earlier), objs[k as int]));
                        return false;
                    }
                },
            }
        }
        k += 1;
    }
    true
}

/// Whether a reference to `obj` can be given up.
pub fn can_free(counts: &RefCounts, obj: SQObject) -> (r: bool)
    ensures
        r == can_release(counts@, obj),
{
    match ref_count_addr(obj) {
        Some(addr) => match counts.get(addr) {
            Some(count) => count > i32::MIN,
            None => false,
        },
        None => true,
    }
}

/// Counts one more reference to `obj`, and hands it back.
pub fn increment_ref_sqobject(obj: SQObject, counts: &mut RefCounts) -> (r: SQObject)
    requires
        can_increment(old(counts)@, obj),
    ensures
        r == obj,
        final(counts)@ == incremented(old(counts)@, obj),
{
    if let Some(addr) = ref_count_addr(obj) {
        counts.reference(addr);
    }
    obj
}

/// Gives up one reference to `obj`. The result is the object that has to be destroyed because no
/// reference to it is left.
pub fn free_sqobject(obj: SQObject, counts: &mut RefCounts) -> (dead: Option<u64>)
    requires
        can_release(old(counts)@, obj),
    ensures
        final(counts)@ == released(old(counts)@, obj),
        dead == destroyed(old(counts)@, obj),
{
    if let Some(addr) = ref_count_addr(obj) {
        if let Some(count) = counts.get(addr) {
            let left: i32 = count - 1;
            counts.set(addr, left);
            if left <= 0 {
                return Some(addr);
            }
        }
    }
    None
}

/// Giving a reference up undoes counting it, and destroys no object that had a reference before.
pub proof fn law_release_undoes_increment(counts: Map<u64, int>, obj: SQObject)
    requires
        can_increment(counts, obj),
    ensures
        released(incremented(counts, obj), obj) == counts,
        destroyed(incremented(counts, obj), obj) matches Some(addr) ==> counts[addr] <= 0,
{
    assert(released(incremented(counts, obj), obj) =~= counts);
}

/// Counting a reference, or giving one up, touches no count but the object's own.
pub proof fn law_other_counts_stay(counts: Map<u64, int>, obj: SQObject, addr: u64)
    requires
        count_addr(obj) != Some(addr),
    ensures
        incremented(counts, obj).dom().contains(addr) == counts.dom().contains(addr),
        incremented(counts, obj)[addr] == counts[addr],
        released(counts, obj).dom().contains(addr) == counts.dom().contains(addr),
        released(counts, obj)[addr] == counts[addr],
{
}

/// A reference is counted by one, at the address of a value that is reference counted and points
/// somewhere, and for no other value; an object goes when no reference to it is left.
pub proof fn law_counted_by_one(counts: Map<u64, int>, obj: SQObject, addr: u64)
    ensures
        referenced(counts, addr) == counts.insert(addr, counts[addr] + 1),
        ref_counted(obj.ty) && obj.val != 0 ==> {
            &&& count_addr(obj) == Some(obj.val)
            &&& incremented(counts, obj) == counts.insert(obj.val, counts[obj.val] + 1)
            &&& released(counts, obj) == counts.insert(obj.val, counts[obj.val] - 1)
            &&& destroyed(counts, obj) == (if counts[obj.val] - 1 <= 0 {
                Some(obj.val)
            } else {
                None
            })
            &&& can_increment(counts, obj) <==> counts.dom().contains(obj.val) && counts[obj.val]
                < i32::MAX
            &&& can_release(counts, obj) <==> counts.dom().contains(obj.val) && counts[obj.val]
                > i32::MIN
        },
        !ref_counted(obj.ty) || obj.val == 0 ==> {
            &&& count_addr(obj) is None
            &&& incremented(counts, obj) == counts
            &&& released(counts, obj) == counts
            &&& destroyed(counts, obj) is None
            &&& can_increment(counts, obj)
            &&& can_release(counts, obj)
        },
{
}

/// One more reference in a list is one more to its own object, and to no other.
pub proof fn law_references_add_up(objs: Seq<SQObject>, obj: SQObject, addr: u64)
    ensures
        references_to(Seq::empty(), addr) == 0,
        references_to(objs.push(obj), addr) == references_to(objs, addr) + (if count_addr(obj)
            == Some(addr) {
            1int
        } else {
            0
        }),
{
    reveal(Seq::filter);
    assert(objs.push(obj).drop_last() =~= objs);
}

/// References that are counted one after the other are all counted.
pub proof fn law_counting_goes_on(counts: Map<u64, int>, objs: Seq<SQObject>, obj: SQObject)
    ensures
        incremented_all(counts, Seq::empty()) == counts,
        incremented_all(counts, objs.push(obj)) == incremented(incremented_all(counts, objs), obj),
        can_increment_all(counts, Seq::empty()),
        can_increment_all(counts, objs.push(obj)) <==> can_increment_all(counts, objs)
            && can_increment(incremented_all(counts, objs), obj),
{
    let more = objs.push(obj);
    assert(more.drop_last() =~= objs);
    assert(more.take(objs.len() as int) =~= objs);
    assert forall|k: int| 0 <= k < objs.len() implies more.take(k) == #[trigger] objs.take(k)
        && more[k] == objs[k] by {
        assert(more.take(k) =~= objs.take(k));
    }
    if can_increment_all(counts, more) {
        assert forall|k: int| 0 <= k < objs.len() implies can_increment(
            incremented_all(counts, #[trigger] objs.take(k)),
            objs[k],
        ) by {
            assert(more.take(k) == objs.take(k));
        }
        assert(can_increment(incremented_all(counts, more.take(objs.len() as int)), more.last()));
    }
    if can_increment_all(counts, objs) && can_increment(incremented_all(counts, objs), obj) {
        assert forall|k: int| 0 <= k < more.len() implies can_increment(
            incremented_all(counts, #[trigger] more.take(k)),
            more[k],
        ) by {
            if k < objs.len() {
                assert(more.take(k) == objs.take(k));
            }
        }
    }
}

} // verus!
