use vstd::prelude::*;

use crate::store::{
    after_change, after_complete, after_create, after_remove, ascending_ids, ids_exhausted,
    is_listing, store_inv, StoreView,
};
use crate::task::TaskView;

verus! {

/// The state after the texts `ds` were created one after another.
pub open spec fn run_creates(s: StoreView, ds: Seq<Seq<char>>) -> StoreView
    decreases ds.len(),
{
    if ds.len() == 0 {
        s
    } else {
        after_create(run_creates(s, ds.drop_last()), ds.last())
    }
}

/// The ids that those creates returned, in order: each create returns the
/// counter of the state it ran on.
pub open spec fn created_ids(s: StoreView, ds: Seq<Seq<char>>) -> Seq<u32>
    decreases ds.len(),
{
    if ds.len() == 0 {
        Seq::empty()
    } else {
        created_ids(s, ds.drop_last()).push(run_creates(s, ds.drop_last()).next_id as u32)
    }
}

proof fn lemma_run_creates_counter(s: StoreView, ds: Seq<Seq<char>>)
    requires
        store_inv(s),
        s.next_id + ds.len() <= u32::MAX,
    ensures
        run_creates(s, ds).next_id == s.next_id + ds.len(),
        store_inv(run_creates(s, ds)),
        created_ids(s, ds).len() == ds.len(),
        forall|i: int|
            0 <= i < ds.len() ==> #[trigger] created_ids(s, ds)[i] == s.next_id + i,
        forall|k: u32|
            #[trigger] run_creates(s, ds).tasks.contains_key(k) ==> s.tasks.contains_key(k)
                || s.next_id <= k,
    decreases ds.len(),
{
    if ds.len() > 0 {
        let prev = ds.drop_last();
        lemma_run_creates_counter(s, prev);
        let p = run_creates(s, prev);
        assert forall|i: int| 0 <= i < ds.len() implies #[trigger] created_ids(s, ds)[i]
            == s.next_id + i by {
            if i < prev.len() {
                assert(created_ids(s, ds)[i] == created_ids(s, prev)[i]);
            }
        }
        assert forall|k: u32| #[trigger]
            after_create(p, ds.last()).tasks.contains_key(k) implies after_create(
            p,
            ds.last(),
        ).tasks[k].id == k && k < after_create(p, ds.last()).next_id by {
            if k != p.next_id as u32 {
                assert(p.tasks.contains_key(k));
            }
        }
    }
}

/// Over any run of creates that does not exhaust the ids, the returned ids
/// strictly increase, and none of them was the id of a task that was
/// already in the store.
pub proof fn lemma_created_ids_increase(s: StoreView, ds: Seq<Seq<char>>)
    requires
        store_inv(s),
        s.next_id + ds.len() <= u32::MAX,
    ensures
        created_ids(s, ds).len() == ds.len(),
        forall|i: int, j: int|
            0 <= i < j < ds.len() ==> created_ids(s, ds)[i] < created_ids(s, ds)[j],
        forall|i: int| 0 <= i < ds.len() ==> !s.tasks.contains_key(#[trigger] created_ids(s, ds)[i]),
{
    lemma_run_creates_counter(s, ds);
    assert forall|i: int| 0 <= i < ds.len() implies !s.tasks.contains_key(
        #[trigger] created_ids(s, ds)[i],
    ) by {
        let k = created_ids(s, ds)[i];
        if s.tasks.contains_key(k) {
            assert(k < s.next_id);
        }
    }
}

/// After a create, a listing holds exactly one entry with the new id, and it
/// carries the given text and is not completed. If no task had that text
/// before, it is also the only entry with that text.
pub proof fn lemma_create_then_list(s: StoreView, d: Seq<char>, l: Seq<TaskView>)
    requires
        store_inv(s),
        !ids_exhausted(s),
        is_listing(l, after_create(s, d).tasks),
    ensures
        exists|i: int|
            0 <= i < l.len() && l[i] == (TaskView {
                id: s.next_id as u32,
                completed: false,
                description: d,
            }),
        forall|i: int, j: int|
            0 <= i < l.len() && 0 <= j < l.len() && l[i].id == s.next_id && l[j].id == s.next_id
                ==> i == j,
        (forall|k: u32| #[trigger] s.tasks.contains_key(k) ==> s.tasks[k].description != d)
            ==> forall|i: int, j: int|
            0 <= i < l.len() && 0 <= j < l.len() && l[i].description == d && l[j].description
                == d ==> i == j,
{
    let id = s.next_id as u32;
    let m = after_create(s, d).tasks;
    assert(m.contains_key(id));
    let i0 = choose|i: int| 0 <= i < l.len() && l[i].id == id;
    assert(m.contains_key(l[i0].id));
    if forall|k: u32| #[trigger] s.tasks.contains_key(k) ==> s.tasks[k].description != d {
        assert forall|i: int, j: int|
            0 <= i < l.len() && 0 <= j < l.len() && l[i].description == d && l[j].description
                == d implies i == j by {
            assert(m.contains_key(l[i].id));
            assert(m.contains_key(l[j].id));
            if l[i].id != id {
                assert(s.tasks.contains_key(l[i].id));
            }
            if l[j].id != id {
                assert(s.tasks.contains_key(l[j].id));
            }
        }
    }
}

/// Changing an existing task sets its text and clears its flag, whatever the
/// flag was; every other task stays as it was.
pub proof fn lemma_change_resets(s: StoreView, id: u32, d: Seq<char>)
    requires
        store_inv(s),
        s.tasks.contains_key(id),
    ensures
        store_inv(after_change(s, id, d)),
        after_change(s, id, d).tasks[id].description == d,
        !after_change(s, id, d).tasks[id].completed,
        after_change(s, id, d).tasks.dom() == s.tasks.dom(),
        forall|k: u32| k != id && #[trigger] s.tasks.contains_key(k) ==> after_change(s, id, d).tasks[k]
            == s.tasks[k],
{
    assert(after_change(s, id, d).tasks.dom() =~= s.tasks.dom());
}

/// Completing an existing task sets its flag and keeps its text; every other
/// task stays as it was.
pub proof fn lemma_complete_keeps_text(s: StoreView, id: u32)
    requires
        store_inv(s),
        s.tasks.contains_key(id),
    ensures
        store_inv(after_complete(s, id)),
        after_complete(s, id).tasks[id].completed,
        after_complete(s, id).tasks[id].description == s.tasks[id].description,
        after_complete(s, id).tasks.dom() == s.tasks.dom(),
        forall|k: u32| k != id && #[trigger] s.tasks.contains_key(k) ==> after_complete(s, id).tasks[k]
            == s.tasks[k],
{
    assert(after_complete(s, id).tasks.dom() =~= s.tasks.dom());
}

/// Once a task is removed, no listing shows it, it is absent (so a change,
/// a completion or a removal of it fails with `NotFound`), and it stays
/// absent through any later run of creates: its id is never handed out again.
pub proof fn lemma_removed_stays_gone(s: StoreView, id: u32, l: Seq<TaskView>, ds: Seq<Seq<char>>)
    requires
        store_inv(s),
        s.tasks.contains_key(id),
        is_listing(l, after_remove(s, id).tasks),
        s.next_id + ds.len() <= u32::MAX,
    ensures
        !after_remove(s, id).tasks.contains_key(id),
        forall|i: int| 0 <= i < l.len() ==> l[i].id != id,
        !run_creates(after_remove(s, id), ds).tasks.contains_key(id),
{
    let r = after_remove(s, id);
    assert forall|i: int| 0 <= i < l.len() implies l[i].id != id by {
        assert(r.tasks.contains_key(l[i].id));
    }
    lemma_run_creates_counter(r, ds);
}

proof fn lemma_listing_prefix(l1: Seq<TaskView>, l2: Seq<TaskView>, m: Map<u32, TaskView>, n: int)
    requires
        is_listing(l1, m),
        is_listing(l2, m),
        0 <= n <= l1.len(),
        n <= l2.len(),
    ensures
        forall|i: int| 0 <= i < n ==> #[trigger] l1[i].id == l2[i].id,
    decreases n,
{
    if n > 0 {
        lemma_listing_prefix(l1, l2, m, n - 1);
        let i = n - 1;
        let x = l1[i].id;
        let y = l2[i].id;
        assert(m.contains_key(x));
        assert(m.contains_key(y));
        let j = choose|j: int| 0 <= j < l2.len() && l2[j].id == x;
        let k = choose|k: int| 0 <= k < l1.len() && l1[k].id == y;
        if j < i {
            assert(l1[j].id == l2[j].id);
        }
        if k < i {
            assert(l1[k].id == l2[k].id);
        }
    }
}

/// A listing is determined by the tasks: two listings of the same tasks are
/// the same sequence.
pub proof fn lemma_listing_unique(l1: Seq<TaskView>, l2: Seq<TaskView>, m: Map<u32, TaskView>)
    requires
        is_listing(l1, m),
        is_listing(l2, m),
    ensures
        l1 == l2,
{
    let n = if l1.len() <= l2.len() { l1.len() as int } else { l2.len() as int };
    lemma_listing_prefix(l1, l2, m, n);
    if l1.len() > l2.len() {
        let x = l1[n].id;
        assert(m.contains_key(x));
        let j = choose|j: int| 0 <= j < l2.len() && l2[j].id == x;
        assert(l1[j].id == l2[j].id);
    }
    if l2.len() > l1.len() {
        let y = l2[n].id;
        assert(m.contains_key(y));
        let k = choose|k: int| 0 <= k < l1.len() && l1[k].id == y;
        assert(l1[k].id == l2[k].id);
    }
    assert forall|i: int| 0 <= i < l1.len() implies l1[i] == l2[i] by {
        assert(l1[i].id == l2[i].id);
        assert(m.contains_key(l1[i].id));
        assert(m.contains_key(l2[i].id));
    }
    assert(l1 =~= l2);
}

} // verus!
