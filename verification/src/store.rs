//! The item store: an in-memory, insertion-ordered cache of todo items.
//!
//! The remote store stays authoritative. Each operation on it is driven from
//! outside the library: the driver asks the cache what to do, performs one
//! remote call, and reports the outcome back through a commit method here,
//! which updates the cache only on success.

use vstd::prelude::*;
use crate::record::{RawRecord, Todo, decodes_to, id_of_key};

verus! {

/// Does the sequence hold an item with the given id?
pub open spec fn has_id(s: Seq<Todo>, id: i64) -> bool {
    exists|j: int| 0 <= j < s.len() && s[j].id == id
}

/// How many items with the given id the sequence holds.
pub open spec fn count_id(s: Seq<Todo>, id: i64) -> nat
    decreases s.len(),
{
    if s.len() == 0 {
        0
    } else {
        (if s.first().id == id {
            1nat
        } else {
            0nat
        }) + count_id(s.drop_first(), id)
    }
}

/// The sequence with every item of the given id removed, order kept.
pub open spec fn remove_id(s: Seq<Todo>, id: i64) -> Seq<Todo>
    decreases s.len(),
{
    if s.len() == 0 {
        s
    } else if s.first().id == id {
        remove_id(s.drop_first(), id)
    } else {
        seq![s.first()] + remove_id(s.drop_first(), id)
    }
}

/// j is the position of the first item with the given id.
pub open spec fn is_first_with_id(s: Seq<Todo>, id: i64, j: int) -> bool {
    &&& 0 <= j < s.len()
    &&& s[j].id == id
    &&& forall|k: int| 0 <= k < j ==> s[k].id != id
}

/// The same item, marked complete.
pub open spec fn completed(t: Todo) -> Todo {
    Todo { id: t.id, task: t.task, is_complete: true }
}

/// What `load_all` leaves behind: the items already cached, in place, then
/// one decoded item per returned record, in the records' order.
pub open spec fn loaded(pre: Seq<Todo>, recs: Seq<RawRecord>, post: Seq<Todo>) -> bool {
    &&& post.len() == pre.len() + recs.len()
    &&& forall|k: int| 0 <= k < pre.len() ==> post[k] == pre[k]
    &&& forall|k: int| 0 <= k < recs.len() ==> decodes_to(recs[k], post[pre.len() + k])
}

/// What the remote delete reported: the record existed and is gone, the key
/// was absent remotely, or the call failed.
pub enum DeleteStatus {
    /// The record existed remotely and was deleted.
    Removed,
    /// The key did not exist remotely.
    Missing,
    /// The remote call failed.
    Failed,
}

/// How many of the records decode to an item with the given id.
pub open spec fn count_decoded(recs: Seq<RawRecord>, id: i64) -> nat
    decreases recs.len(),
{
    if recs.len() == 0 {
        0
    } else {
        (if id_of_key(recs.first().key) == id {
            1nat
        } else {
            0nat
        }) + count_decoded(recs.drop_first(), id)
    }
}

/// The in-memory cache of todo items, in insertion order.
pub struct Todos {
    todos: Vec<Todo>,
}

impl View for Todos {
    type V = Seq<Todo>;

    closed spec fn view(&self) -> Seq<Todo> {
        self.todos@
    }
}

impl Todos {
    /// An empty cache.
    pub fn new() -> (s: Todos)
        ensures
            s@ == Seq::<Todo>::empty(),
    {
        let s = Todos { todos: Vec::new() };
        proof {
            assert(s@ =~= Seq::<Todo>::empty());
        }
        s
    }

    /// Whether an item with this id is cached. Serves as `create`'s guard:
    /// the driver must not issue the remote write when it returns true.
    pub fn has_todo(&self, id: i64) -> (r: bool)
        ensures
            r == has_id(self@, id),
    {
        let mut i: usize = 0;
        while i < self.todos.len()
            invariant
                i <= self@.len(),
                forall|k: int| 0 <= k < i ==> self@[k].id != id,
            decreases self@.len() - i,
        {
            if self.todos[i].id == id {
                proof {
                    assert(self@[i as int].id == id);
                }
                return true;
            }
            i += 1;
        }
        false
    }

    /// Commit step of `create`: the driver, having checked `has_todo` and
    /// issued the remote write, reports whether the write succeeded. On
    /// success the new item is appended, not yet complete; on failure the
    /// cache is untouched.
    pub fn create_todo(&mut self, task: String, id: i64, written: bool)
        requires
            !has_id(old(self)@, id),
        ensures
            written ==> final(self)@ == old(self)@.push(
                Todo { id, task, is_complete: false },
            ),
            !written ==> final(self)@ == old(self)@,
    {
        if written {
            self.todos.push(Todo { id, task, is_complete: false });
        }
    }

    /// Commit step of `complete`: the driver reports whether the remote
    /// update succeeded. On success the first cached item with the id is
    /// marked complete and nothing else changes; with no such item, or on
    /// failure, the cache is untouched.
    pub fn complete_todo(&mut self, id: i64, updated: bool)
        ensures
            updated && has_id(old(self)@, id) ==> exists|j: int|
                #[trigger] is_first_with_id(old(self)@, id, j)
                    && final(self)@ == old(self)@.update(j, completed(old(self)@[j])),
            !(updated && has_id(old(self)@, id)) ==> final(self)@ == old(self)@,
    {
        if !updated {
            return ;
        }
        let mut i: usize = 0;
        while i < self.todos.len()
            invariant
                updated,
                i <= self.todos@.len(),
                self.todos@ == old(self)@,
                forall|k: int| 0 <= k < i ==> self.todos@[k].id != id,
            decreases self.todos@.len() - i,
        {
            if self.todos[i].id == id {
                self.todos[i].is_complete = true;
                proof {
                    assert(is_first_with_id(old(self)@, id, i as int));
                    assert(has_id(old(self)@, id)) by {
                        assert(old(self)@[i as int].id == id);
                    }
                    assert(self.todos@ =~= old(self)@.update(
                        i as int,
                        completed(old(self)@[i as int]),
                    ));
                }
                return ;
            }
            i += 1;
        }
    }

    /// Commit step of `delete`: the driver reports the remote outcome. Only
    /// when the record existed remotely and was deleted are the cached items
    /// with the id dropped, the order of the rest kept; an absent key or a
    /// failed call leaves the cache untouched.
    pub fn delete_todo(&mut self, id: i64, status: DeleteStatus)
        ensures
            status is Removed ==> final(self)@ == remove_id(old(self)@, id),
            !(status is Removed) ==> final(self)@ == old(self)@,
    {
        match status {
            DeleteStatus::Removed => {
                let mut j: usize = self.todos.len();
                proof {
                    assert(old(self)@.skip(j as int) =~= Seq::<Todo>::empty());
                    assert(self.todos@ =~= old(self)@.take(j as int) + remove_id(
                        old(self)@.skip(j as int),
                        id,
                    ));
                }
                while j > 0
                    invariant
                        j <= old(self)@.len(),
                        self.todos@ == old(self)@.take(j as int) + remove_id(
                            old(self)@.skip(j as int),
                            id,
                        ),
                    decreases j,
                {
                    j = j - 1;
                    proof {
                        assert(old(self)@.skip(j as int).first() == old(self)@[j as int]);
                        assert(old(self)@.skip(j as int).drop_first() =~= old(self)@.skip(
                            j as int + 1,
                        ));
                        assert(self.todos@[j as int] == old(self)@[j as int]);
                    }
                    if self.todos[j].id == id {
                        self.todos.remove(j);
                        proof {
                            assert(self.todos@ =~= old(self)@.take(j as int) + remove_id(
                                old(self)@.skip(j as int),
                                id,
                            ));
                        }
                    } else {
                        proof {
                            assert(self.todos@ =~= old(self)@.take(j as int) + remove_id(
                                old(self)@.skip(j as int),
                                id,
                            ));
                        }
                    }
                }
                proof {
                    assert(old(self)@.skip(0) =~= old(self)@);
                    assert(self.todos@ =~= remove_id(old(self)@, id));
                }
            },
            _ => {},
        }
    }

    /// Commit step of `load_all`: append one decoded item per record the
    /// remote query returned, in order, with no reconciliation against the
    /// items already cached. Records of an earlier load are therefore
    /// duplicated by a later one.
    pub fn load_all(&mut self, records: Vec<RawRecord>)
        ensures
            loaded(old(self)@, records@, final(self)@),
    {
        let ghost rs = records@;
        let mut recs = records;
        proof {
            assert(rs.skip(0) =~= rs);
        }
        while recs.len() > 0
            invariant
                recs@.len() <= rs.len(),
                recs@ == rs.skip(rs.len() - recs@.len()),
                self.todos@.len() == old(self)@.len() + rs.len() - recs@.len(),
                forall|k: int| 0 <= k < old(self)@.len() ==> self.todos@[k] == old(self)@[k],
                forall|k: int|
                    0 <= k < rs.len() - recs@.len() ==> decodes_to(
                        rs[k],
                        self.todos@[old(self)@.len() + k],
                    ),
            decreases recs@.len(),
        {
            proof {
                assert(recs@.first() == rs[rs.len() - recs@.len()]);
                assert(recs@.remove(0) =~= rs.skip(rs.len() - (recs@.len() - 1)));
            }
            let r = recs.remove(0);
            let t = Todo::parse_todo(r);
            self.todos.push(t);
        }
    }

    /// How many items the cache holds.
    pub fn len(&self) -> (n: usize)
        ensures
            n == self@.len(),
    {
        self.todos.len()
    }

    /// The cached item at a position, in insertion order.
    pub fn get(&self, i: usize) -> (t: &Todo)
        requires
            i < self@.len(),
        ensures
            *t == self@[i as int],
    {
        &self.todos[i]
    }
}

/// Appending one item raises the count of its id by one and changes the
/// count of no other id.
pub proof fn lemma_count_push(s: Seq<Todo>, t: Todo, id: i64)
    ensures
        count_id(s.push(t), id) == count_id(s, id) + if t.id == id {
            1nat
        } else {
            0nat
        },
    decreases s.len(),
{
    if s.len() == 0 {
        assert(s.push(t).first() == t);
        assert(s.push(t).drop_first() =~= Seq::<Todo>::empty());
        assert(count_id(Seq::<Todo>::empty(), id) == 0);
        assert(count_id(s, id) == 0);
    } else {
        assert(s.push(t).first() == s.first());
        assert(s.push(t).drop_first() =~= s.drop_first().push(t));
        lemma_count_push(s.drop_first(), t, id);
    }
}

/// An id is present exactly when its count is positive.
pub proof fn lemma_has_id_iff_count(s: Seq<Todo>, id: i64)
    ensures
        has_id(s, id) <==> count_id(s, id) > 0,
    decreases s.len(),
{
    if s.len() == 0 {
    } else {
        lemma_has_id_iff_count(s.drop_first(), id);
        if has_id(s, id) {
            let j = choose|j: int| 0 <= j < s.len() && s[j].id == id;
            if j > 0 {
                assert(s.drop_first()[j - 1].id == id);
                assert(has_id(s.drop_first(), id));
            }
        }
        if count_id(s, id) > 0 {
            if s.first().id == id {
                assert(s[0].id == id);
            } else {
                let k = choose|k: int|
                    0 <= k < s.drop_first().len() && s.drop_first()[k].id == id;
                assert(s[k + 1].id == id);
            }
        }
    }
}

/// After a successful create of an id not yet cached, the cache holds
/// exactly one item with that id — the new item, with its task and not yet
/// complete — and the guard refuses a later create with the same id.
pub proof fn lemma_create_exactly_one(s: Seq<Todo>, t: Todo)
    requires
        !has_id(s, t.id),
    ensures
        count_id(s.push(t), t.id) == 1,
        forall|k: int|
            0 <= k < s.push(t).len() && #[trigger] s.push(t)[k].id == t.id ==> s.push(t)[k] == t,
        has_id(s.push(t), t.id),
{
    lemma_has_id_iff_count(s, t.id);
    lemma_count_push(s, t, t.id);
    lemma_has_id_iff_count(s.push(t), t.id);
    assert forall|k: int|
        0 <= k < s.push(t).len() && #[trigger] s.push(t)[k].id == t.id implies s.push(t)[k]
        == t by {
        if k < s.len() {
            assert(s[k].id == t.id);
            assert(has_id(s, t.id));
        }
    }
}

/// Removing an id leaves the count of every other id as it was, and no item
/// with the removed id behind.
pub proof fn lemma_remove_count(s: Seq<Todo>, id: i64, other: i64)
    ensures
        count_id(remove_id(s, id), other) == if other == id {
            0nat
        } else {
            count_id(s, other)
        },
    decreases s.len(),
{
    if s.len() == 0 {
    } else {
        lemma_remove_count(s.drop_first(), id, other);
        if s.first().id != id {
            let r = seq![s.first()] + remove_id(s.drop_first(), id);
            assert(r.first() == s.first());
            assert(r.drop_first() =~= remove_id(s.drop_first(), id));
        }
    }
}

/// When an id is absent, removing it changes nothing.
pub proof fn lemma_remove_absent_id(s: Seq<Todo>, id: i64)
    requires
        !has_id(s, id),
    ensures
        remove_id(s, id) == s,
    decreases s.len(),
{
    if s.len() == 0 {
    } else {
        assert(s[0].id != id);
        assert(!has_id(s.drop_first(), id)) by {
            if has_id(s.drop_first(), id) {
                let k = choose|k: int|
                    0 <= k < s.drop_first().len() && s.drop_first()[k].id == id;
                assert(s[k + 1].id == id);
            }
        }
        lemma_remove_absent_id(s.drop_first(), id);
        assert(seq![s.first()] + s.drop_first() =~= s);
    }
}

/// A delete that succeeded remotely removes exactly the cached items with
/// that id: none remain, every other id keeps its count, and when the id
/// was not cached at all the cache stays as it was.
pub proof fn lemma_delete_exact(s: Seq<Todo>, id: i64)
    ensures
        count_id(remove_id(s, id), id) == 0,
        forall|other: i64|
            other != id ==> #[trigger] count_id(remove_id(s, id), other) == count_id(s, other),
        !has_id(s, id) ==> remove_id(s, id) == s,
{
    lemma_remove_count(s, id, id);
    assert forall|other: i64|
        other != id implies #[trigger] count_id(remove_id(s, id), other) == count_id(
        s,
        other,
    ) by {
        lemma_remove_count(s, id, other);
    }
    if !has_id(s, id) {
        lemma_remove_absent_id(s, id);
    }
}

/// Marking the first cached item with an id complete flips only that item's
/// completion flag: its id and task, and every other item, stay as they were.
pub proof fn lemma_complete_changes_one(s: Seq<Todo>, id: i64, j: int)
    requires
        is_first_with_id(s, id, j),
    ensures
        ({
            let s2 = s.update(j, completed(s[j]));
            &&& s2.len() == s.len()
            &&& s2[j].id == s[j].id
            &&& s2[j].task == s[j].task
            &&& s2[j].is_complete
            &&& forall|k: int| 0 <= k < s.len() && k != j ==> s2[k] == s[k]
        }),
{
}

/// Counting an id distributes over concatenation.
pub proof fn lemma_count_append(a: Seq<Todo>, b: Seq<Todo>, id: i64)
    ensures
        count_id(a + b, id) == count_id(a, id) + count_id(b, id),
    decreases a.len(),
{
    if a.len() == 0 {
        assert(a + b =~= b);
    } else {
        assert((a + b).first() == a.first());
        assert((a + b).drop_first() =~= a.drop_first() + b);
        lemma_count_append(a.drop_first(), b, id);
    }
}

/// Items that decode the records one for one carry the records' id counts.
pub proof fn lemma_count_decoded_matches(recs: Seq<RawRecord>, items: Seq<Todo>, id: i64)
    requires
        items.len() == recs.len(),
        forall|k: int| 0 <= k < recs.len() ==> #[trigger] decodes_to(recs[k], items[k]),
    ensures
        count_id(items, id) == count_decoded(recs, id),
    decreases recs.len(),
{
    if recs.len() == 0 {
    } else {
        assert(decodes_to(recs[0], items[0]));
        assert forall|k: int|
            0 <= k < recs.drop_first().len() implies #[trigger] decodes_to(
            recs.drop_first()[k],
            items.drop_first()[k],
        ) by {
            assert(decodes_to(recs[k + 1], items[k + 1]));
        }
        lemma_count_decoded_matches(recs.drop_first(), items.drop_first(), id);
    }
}

/// One load appends the decoded records: the count of any id grows by the
/// number of records that decode to it.
pub proof fn lemma_loaded_count(pre: Seq<Todo>, recs: Seq<RawRecord>, post: Seq<Todo>, id: i64)
    requires
        loaded(pre, recs, post),
    ensures
        count_id(post, id) == count_id(pre, id) + count_decoded(recs, id),
{
    let tail = post.skip(pre.len() as int);
    assert(post =~= pre + tail);
    lemma_count_append(pre, tail, id);
    assert forall|k: int| 0 <= k < recs.len() implies #[trigger] decodes_to(
        recs[k],
        tail[k],
    ) by {
        assert(decodes_to(recs[k], post[pre.len() + k]));
        assert(tail[k] == post[pre.len() + k]);
    }
    lemma_count_decoded_matches(recs, tail, id);
}

/// Two loads of the same records with no write in between add the decoded
/// count of every id twice over: the documented duplication quirk of
/// repeated loads.
pub proof fn lemma_load_all_twice(
    s0: Seq<Todo>,
    recs: Seq<RawRecord>,
    s1: Seq<Todo>,
    s2: Seq<Todo>,
    id: i64,
)
    requires
        loaded(s0, recs, s1),
        loaded(s1, recs, s2),
    ensures
        count_id(s2, id) == count_id(s0, id) + 2 * count_decoded(recs, id),
{
    lemma_loaded_count(s0, recs, s1, id);
    lemma_loaded_count(s1, recs, s2, id);
}

} // verus!
