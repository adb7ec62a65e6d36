//! Sorting by time: a stable sort of bursts and messages, oldest first.

use crate::sutron::message::{Message, MessageView};
use crate::sutron::packet::{Burst, BurstView, Packet, PacketView};
use vstd::prelude::*;

verus! {

/// Whether time `a` does not come after time `b`; no time at all comes before every time.
pub open spec fn not_after(a: Option<i64>, b: Option<i64>) -> bool {
    match (a, b) {
        (None, _) => true,
        (Some(_), None) => false,
        (Some(x), Some(y)) => x <= y,
    }
}

/// Compares two times.
pub fn is_not_after(a: Option<i64>, b: Option<i64>) -> (r: bool)
    ensures
        r == not_after(a, b),
{
    match (a, b) {
        (None, _) => true,
        (Some(_), None) => false,
        (Some(x), Some(y)) => x <= y,
    }
}

/// `sorted` with `item` put behind the last of its items that does not come after it.
pub open spec fn insert_by_time<T>(sorted: Seq<T>, item: T, time: spec_fn(T) -> Option<i64>) -> Seq<
    T,
>
    decreases sorted.len(),
{
    if sorted.len() > 0 && !not_after(time(sorted.last()), time(item)) {
        insert_by_time(sorted.drop_last(), item, time).push(sorted.last())
    } else {
        sorted.push(item)
    }
}

/// The items from the oldest to the newest; items of the same time keep their order.
pub open spec fn sorted_by_time<T>(items: Seq<T>, time: spec_fn(T) -> Option<i64>) -> Seq<T>
    decreases items.len(),
{
    if items.len() == 0 {
        Seq::empty()
    } else {
        insert_by_time(sorted_by_time(items.drop_last(), time), items.last(), time)
    }
}

/// Whether no item comes after one that follows it.
pub open spec fn is_ordered<T>(items: Seq<T>, time: spec_fn(T) -> Option<i64>) -> bool {
    forall|i: int, j: int|
        0 <= i < j < items.len() ==> not_after(#[trigger] time(items[i]), #[trigger] time(items[j]))
}

/// An item is put at the one index behind which every item comes after it and
/// in front of which none does.
pub proof fn lemma_insert_by_time_at<T>(
    sorted: Seq<T>,
    item: T,
    time: spec_fn(T) -> Option<i64>,
    at: int,
)
    requires
        0 <= at <= sorted.len(),
        forall|j: int| at <= j < sorted.len() ==> !not_after(time(#[trigger] sorted[j]), time(item)),
        at > 0 ==> not_after(time(sorted[at - 1]), time(item)),
    ensures
        insert_by_time(sorted, item, time) == sorted.insert(at, item),
    decreases sorted.len(),
{
    if at == sorted.len() {
        assert(sorted.push(item) =~= sorted.insert(at, item));
    } else {
        assert(!not_after(time(sorted[sorted.len() - 1]), time(item)));
        lemma_insert_by_time_at(sorted.drop_last(), item, time, at);
        assert(sorted.drop_last().insert(at, item).push(sorted.last()) =~= sorted.insert(
            at,
            item,
        ));
    }
}

/// Putting an item into ordered items leaves them ordered, and adds the item
/// and nothing else.
pub proof fn lemma_insert_by_time<T>(sorted: Seq<T>, item: T, time: spec_fn(T) -> Option<i64>)
    requires
        is_ordered(sorted, time),
    ensures
        is_ordered(insert_by_time(sorted, item, time), time),
        insert_by_time(sorted, item, time).to_multiset() == sorted.to_multiset().insert(item),
        insert_by_time(sorted, item, time).len() == sorted.len() + 1,
    decreases sorted.len(),
{
    broadcast use vstd::seq_lib::group_to_multiset_ensures;

    let result = insert_by_time(sorted, item, time);
    if sorted.len() > 0 && !not_after(time(sorted.last()), time(item)) {
        let front = sorted.drop_last();
        let last = sorted.last();
        assert(is_ordered(front, time)) by {
            assert forall|i: int, j: int| 0 <= i < j < front.len() implies not_after(
                #[trigger] time(front[i]),
                #[trigger] time(front[j]),
            ) by {
                assert(front[i] == sorted[i] && front[j] == sorted[j]);
            }
        }
        lemma_insert_by_time(front, item, time);
        let inner = insert_by_time(front, item, time);
        assert(sorted =~= front.push(last));
        assert(result == inner.push(last));
        assert(result.to_multiset() =~= sorted.to_multiset().insert(item));
        assert forall|i: int, j: int| 0 <= i < j < result.len() implies not_after(
            #[trigger] time(result[i]),
            #[trigger] time(result[j]),
        ) by {
            if j < inner.len() {
                assert(result[i] == inner[i] && result[j] == inner[j]);
            } else {
                assert(result[j] == last);
                assert(result[i] == inner[i]);
                assert(inner.to_multiset().count(inner[i]) > 0);
                if inner[i] == item {
                } else {
                    assert(front.to_multiset().count(inner[i]) > 0);
                    assert(front.contains(inner[i]));
                    let k = choose|k: int| 0 <= k < front.len() && front[k] == inner[i];
                    assert(sorted[k] == inner[i]);
                    assert(not_after(time(sorted[k]), time(sorted[sorted.len() - 1])));
                }
            }
        }
    } else {
        assert(result == sorted.push(item));
        assert forall|i: int, j: int| 0 <= i < j < result.len() implies not_after(
            #[trigger] time(result[i]),
            #[trigger] time(result[j]),
        ) by {
            if j < sorted.len() {
                assert(result[i] == sorted[i] && result[j] == sorted[j]);
            } else {
                assert(result[j] == item);
                assert(result[i] == sorted[i]);
                if sorted.len() > 0 {
                    if i < sorted.len() - 1 {
                        assert(not_after(time(sorted[i]), time(sorted[sorted.len() - 1])));
                    }
                }
            }
        }
    }
}

/// Sorting puts the items in order of time, and keeps every item: what comes
/// out is what went in, rearranged.
pub proof fn lemma_sorted_by_time<T>(items: Seq<T>, time: spec_fn(T) -> Option<i64>)
    ensures
        is_ordered(sorted_by_time(items, time), time),
        sorted_by_time(items, time).to_multiset() == items.to_multiset(),
        sorted_by_time(items, time).len() == items.len(),
    decreases items.len(),
{
    broadcast use vstd::seq_lib::group_to_multiset_ensures;

    if items.len() == 0 {
        assert(sorted_by_time(items, time).to_multiset() =~= items.to_multiset());
    } else {
        lemma_sorted_by_time(items.drop_last(), time);
        lemma_insert_by_time(sorted_by_time(items.drop_last(), time), items.last(), time);
        assert(items =~= items.drop_last().push(items.last()));
    }
}

/// What arrived or began at some time, or at a time that is not known.
pub trait Timed: DeepView {
    /// The time of an item, by its view.
    spec fn time_of(view: <Self as DeepView>::V) -> Option<i64>;

    /// The time of this item.
    fn time(&self) -> (t: Option<i64>)
        ensures
            t == Self::time_of(self.deep_view()),
    ;
}

impl Timed for Burst {
    open spec fn time_of(view: BurstView) -> Option<i64> {
        view.time_of_session
    }

    fn time(&self) -> (t: Option<i64>) {
        self.time_of_session
    }
}

impl Timed for Packet {
    open spec fn time_of(view: PacketView) -> Option<i64> {
        view.datetime()
    }

    fn time(&self) -> (t: Option<i64>) {
        self.datetime()
    }
}

impl Timed for Message {
    open spec fn time_of(view: MessageView) -> Option<i64> {
        view.datetime
    }

    fn time(&self) -> (t: Option<i64>) {
        self.datetime
    }
}

/// The time of an item, as a value.
pub open spec fn time_reader<T: Timed>() -> spec_fn(<T as DeepView>::V) -> Option<i64> {
    |view: <T as DeepView>::V| T::time_of(view)
}

/// Sorts the items from the oldest to the newest; items of the same time keep their order.
pub fn sort_by_time<T: Timed>(items: Vec<T>) -> (sorted: Vec<T>)
    ensures
        sorted.deep_view() == sorted_by_time(items.deep_view(), time_reader::<T>()),
{
    let mut input: Vec<T> = items;
    let mut sorted: Vec<T> = Vec::new();
    let ghost all = input.deep_view();
    let ghost time = time_reader::<T>();
    let ghost mut done: int = 0;
    assert(all.skip(0) =~= all);
    assert(all.take(0) =~= Seq::<<T as DeepView>::V>::empty());
    assert(sorted.deep_view() =~= Seq::<<T as DeepView>::V>::empty());
    while input.len() > 0
        invariant
            0 <= done <= all.len(),
            time == time_reader::<T>(),
            input.deep_view() == all.skip(done),
            sorted.deep_view() == sorted_by_time(all.take(done), time),
        decreases input.len(),
    {
        let ghost rest = input.deep_view();
        assert(rest.len() == input.len());
        assert(done < all.len());
        let item: T = input.remove(0);
        assert(input.deep_view() =~= rest.remove(0));
        assert(rest.remove(0) =~= all.skip(done + 1));
        assert(item.deep_view() == rest[0]);
        let item_time: Option<i64> = item.time();
        let ghost before = sorted.deep_view();
        let mut at: usize = sorted.len();
        while at > 0 && !is_not_after(sorted[at - 1].time(), item_time)
            invariant
                at <= sorted.len(),
                before == sorted.deep_view(),
                time == time_reader::<T>(),
                item_time == time(item.deep_view()),
                forall|j: int|
                    at <= j < before.len() ==> !not_after(
                        time(#[trigger] before[j]),
                        time(item.deep_view()),
                    ),
            decreases at,
        {
            assert(before[at - 1] == sorted[at - 1].deep_view());
            at = at - 1;
        }
        proof {
            if at > 0 {
                assert(before[at - 1] == sorted[at - 1].deep_view());
            }
            lemma_insert_by_time_at(before, item.deep_view(), time, at as int);
            assert(all.take(done + 1).drop_last() =~= all.take(done));
            assert(all.take(done + 1).last() == item.deep_view());
        }
        sorted.insert(at, item);
        assert(sorted.deep_view() =~= before.insert(at as int, item.deep_view()));
        proof {
            done = done + 1;
        }
    }
    assert(all.take(done) =~= all);
    sorted
}

} // verus!
