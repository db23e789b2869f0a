//! The mathematical model of the task store: a finite map from task id to
//! the task's record (title, description, done), the transition each storage
//! operation performs on it, and the laws those transitions obey.

use vstd::prelude::*;

verus! {

/// What one stored task amounts to: title, description, completion flag.
pub type TaskRec = (Seq<char>, Seq<char>, bool);

/// The abstract content of the store: one record per task id.
pub type TaskMap = Map<int, TaskRec>;

/// A single task as the store hands it out.
pub struct Task {
    pub id: i64,
    pub title: String,
    pub description: String,
    pub done: bool,
}

impl Task {
    /// The record a task stands for: title, description, done.
    pub open spec fn rec(&self) -> TaskRec {
        (self.title@, self.description@, self.done)
    }
}

/// Adding a task stores the given title and description, not yet done.
pub open spec fn spec_add(m: TaskMap, id: int, title: Seq<char>, description: Seq<char>) -> TaskMap {
    m.insert(id, (title, description, false))
}

/// Completing a task sets its done flag and keeps the rest of its record;
/// a missing id changes nothing.
pub open spec fn spec_complete(m: TaskMap, id: int) -> TaskMap {
    if m.dom().contains(id) {
        m.insert(id, (m[id].0, m[id].1, true))
    } else {
        m
    }
}

/// Deleting a task removes its row; a missing id changes nothing.
pub open spec fn spec_delete(m: TaskMap, id: int) -> TaskMap {
    m.remove(id)
}

/// A listing is faithful to the store content: every listed task is a stored
/// row with exactly its stored record, no id is listed twice, and every
/// stored row is listed.
pub open spec fn listing_matches(ts: Seq<Task>, m: TaskMap) -> bool {
    &&& forall|i: int|
        0 <= i < ts.len() ==> m.dom().contains((#[trigger] ts[i]).id as int) && m[ts[i].id as int]
            == ts[i].rec()
    &&& forall|i: int, j: int|
        0 <= i < j < ts.len() ==> (#[trigger] ts[i]).id != (#[trigger] ts[j]).id
    &&& forall|k: int|
        #[trigger] m.dom().contains(k) ==> exists|i: int|
            0 <= i < ts.len() && (#[trigger] ts[i]).id as int == k
}

/// A task added under a fresh id is stored exactly as given, not done, and
/// every other row keeps its record.
pub proof fn lemma_add_then_lookup(m: TaskMap, id: int, title: Seq<char>, description: Seq<char>)
    ensures
        spec_add(m, id, title, description).dom().contains(id),
        spec_add(m, id, title, description)[id] == (title, description, false),
        forall|k: int|
            k != id ==> (spec_add(m, id, title, description).dom().contains(k) <==> m.dom().contains(
                k,
            )),
        forall|k: int|
            k != id && m.dom().contains(k) ==> spec_add(m, id, title, description)[k] == m[k],
{
}

/// Completing a stored task leaves it stored with the same title and
/// description and done set, and every other row keeps its record.
pub proof fn lemma_complete_marks_done(m: TaskMap, id: int)
    requires
        m.dom().contains(id),
    ensures
        spec_complete(m, id).dom().contains(id),
        spec_complete(m, id)[id] == (m[id].0, m[id].1, true),
        forall|k: int|
            k != id ==> (spec_complete(m, id).dom().contains(k) <==> m.dom().contains(k)),
        forall|k: int| k != id && m.dom().contains(k) ==> spec_complete(m, id)[k] == m[k],
{
}

/// Completing the same task twice is the same as completing it once.
pub proof fn lemma_complete_idempotent(m: TaskMap, id: int)
    ensures
        spec_complete(spec_complete(m, id), id) == spec_complete(m, id),
{
    if m.dom().contains(id) {
        assert(spec_complete(spec_complete(m, id), id) =~= spec_complete(m, id));
    }
}

/// Completing or deleting an id that is not stored changes nothing at all.
pub proof fn lemma_missing_id_is_noop(m: TaskMap, id: int)
    requires
        !m.dom().contains(id),
    ensures
        spec_complete(m, id) == m,
        spec_delete(m, id) == m,
{
    assert(m.remove(id) =~= m);
}

/// After a delete the id is gone for good, and every other row keeps its
/// record.
pub proof fn lemma_delete_removes(m: TaskMap, id: int)
    ensures
        !spec_delete(m, id).dom().contains(id),
        forall|k: int| k != id ==> (spec_delete(m, id).dom().contains(k) <==> m.dom().contains(k)),
        forall|k: int| k != id && m.dom().contains(k) ==> spec_delete(m, id)[k] == m[k],
{
}

/// Adding a task under a fresh id grows the store by exactly one row.
pub proof fn lemma_add_fresh_counts(m: TaskMap, id: int, title: Seq<char>, description: Seq<char>)
    requires
        m.dom().finite(),
        !m.dom().contains(id),
    ensures
        spec_add(m, id, title, description).dom().finite(),
        spec_add(m, id, title, description).dom().len() == m.dom().len() + 1,
{
    broadcast use vstd::set::axiom_set_insert_len;

    assert(spec_add(m, id, title, description).dom() =~= m.dom().insert(id));
}

/// A batch of tasks to add: id, title and description for each.
pub type TaskBatch = Seq<(int, Seq<char>, Seq<char>)>;

/// Adding each task of a batch in turn, first element first.
pub open spec fn spec_add_all(m: TaskMap, batch: TaskBatch) -> TaskMap
    decreases batch.len(),
{
    if batch.len() == 0 {
        m
    } else {
        spec_add(
            spec_add_all(m, batch.drop_last()),
            batch.last().0,
            batch.last().1,
            batch.last().2,
        )
    }
}

/// The batch that a run of adds performs: the id each add was assigned
/// beside the title and description it was given.
pub open spec fn batch_of(ids: Seq<i64>, items: Seq<(String, String)>) -> TaskBatch {
    Seq::new(ids.len(), |i: int| (ids[i] as int, items[i].0@, items[i].1@))
}

/// The ids of a batch are distinct and none is already stored.
pub open spec fn batch_fresh(m: TaskMap, batch: TaskBatch) -> bool {
    &&& forall|i: int, j: int|
        0 <= i < j < batch.len() ==> (#[trigger] batch[i]).0 != (#[trigger] batch[j]).0
    &&& forall|i: int| 0 <= i < batch.len() ==> !m.dom().contains((#[trigger] batch[i]).0)
}

/// Adding a batch of distinct, fresh tasks grows the store by exactly the
/// size of the batch: a round of adds loses and duplicates nothing.
pub proof fn lemma_add_all_counts(m: TaskMap, batch: TaskBatch)
    requires
        m.dom().finite(),
        batch_fresh(m, batch),
    ensures
        spec_add_all(m, batch).dom().finite(),
        spec_add_all(m, batch).dom().len() == m.dom().len() + batch.len(),
    decreases batch.len(),
{
    if batch.len() > 0 {
        let prefix = batch.drop_last();
        assert(batch_fresh(m, prefix)) by {
            assert(forall|i: int| 0 <= i < prefix.len() ==> prefix[i] == batch[i]);
        }
        lemma_add_all_counts(m, prefix);
        let before = spec_add_all(m, prefix);
        assert(!before.dom().contains(batch.last().0)) by {
            lemma_add_all_domain(m, prefix);
            assert(forall|i: int| 0 <= i < prefix.len() ==> prefix[i] == batch[i]);
        }
        lemma_add_fresh_counts(before, batch.last().0, batch.last().1, batch.last().2);
    }
}

/// A batch add stores exactly the old rows and the batch ids.
pub proof fn lemma_add_all_domain(m: TaskMap, batch: TaskBatch)
    ensures
        forall|k: int|
            spec_add_all(m, batch).dom().contains(k) <==> (m.dom().contains(k) || exists|i: int|
                0 <= i < batch.len() && (#[trigger] batch[i]).0 == k),
    decreases batch.len(),
{
    if batch.len() > 0 {
        lemma_add_all_domain(m, batch.drop_last());
        assert forall|k: int| #[trigger]
            spec_add_all(m, batch).dom().contains(k) implies (m.dom().contains(k) || exists|i: int|
            0 <= i < batch.len() && (#[trigger] batch[i]).0 == k) by {
            if k == batch.last().0 {
                assert(batch[batch.len() - 1].0 == k);
            } else {
                assert(forall|i: int|
                    0 <= i < batch.len() - 1 ==> batch.drop_last()[i] == batch[i]);
            }
        }
        assert forall|k: int| (m.dom().contains(k) || exists|i: int|
            0 <= i < batch.len() && (#[trigger] batch[i]).0 == k) implies #[trigger]
            spec_add_all(m, batch).dom().contains(k) by {
            if !m.dom().contains(k) {
                let i = choose|i: int| 0 <= i < batch.len() && (#[trigger] batch[i]).0 == k;
                if i < batch.len() - 1 {
                    assert(batch.drop_last()[i] == batch[i]);
                }
            }
        }
    }
}

} // verus!
