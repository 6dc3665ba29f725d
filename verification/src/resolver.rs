//! The entity resolver: find-or-insert of a dimension row by its natural key.
//!
//! A table is append-only and holds each natural key at most once. The row at
//! position `i` has the id `i + 1`, so an id, once handed out, stays with its
//! key for good. Callers share a table behind one lock; every call is then one
//! atomic step, and concurrent calls are some sequence of such steps.

use vstd::prelude::*;
use crate::errors::ErrorKind;

verus! {

/// The natural key of a dimension row: its name, the id of the project that
/// scopes it (branches and entities), and a qualifier beside the name (a
/// project's path, an entity's type).
#[derive(Clone, Debug, PartialEq, Eq)]
pub struct NaturalKey {
    pub parent: Option<u64>,
    pub name: String,
    pub qualifier: Option<String>,
}

/// A natural key as a mathematical value.
pub ghost struct KeyView {
    pub parent: Option<u64>,
    pub name: Seq<char>,
    pub qualifier: Option<Seq<char>>,
}

impl View for NaturalKey {
    type V = KeyView;

    open spec fn view(&self) -> KeyView {
        KeyView {
            parent: self.parent,
            name: self.name@,
            qualifier: match self.qualifier {
                Some(text) => Some(text@),
                None => None,
            },
        }
    }
}

impl NaturalKey {
    /// The key of an app or a language: its name alone.
    pub fn named(name: String) -> (key: NaturalKey)
        ensures
            key@ == (KeyView { parent: None, name: name@, qualifier: None }),
    {
        NaturalKey { parent: None, name, qualifier: None }
    }

    /// The key of a project: its name and its path.
    pub fn project(name: String, path: String) -> (key: NaturalKey)
        ensures
            key@ == (KeyView { parent: None, name: name@, qualifier: Some(path@) }),
    {
        NaturalKey { parent: None, name, qualifier: Some(path) }
    }

    /// The key of a branch: its name within the project `project_id`.
    pub fn branch(project_id: u64, name: String) -> (key: NaturalKey)
        ensures
            key@ == (KeyView { parent: Some(project_id), name: name@, qualifier: None }),
    {
        NaturalKey { parent: Some(project_id), name, qualifier: None }
    }

    /// The key of an entity: its name and type within the project
    /// `project_id`.
    pub fn entity(project_id: u64, name: String, entity_type: String) -> (key: NaturalKey)
        ensures
            key@ == (KeyView {
                parent: Some(project_id),
                name: name@,
                qualifier: Some(entity_type@),
            }),
    {
        NaturalKey { parent: Some(project_id), name, qualifier: Some(entity_type) }
    }

    /// Whether two keys are the same natural key.
    pub fn same_as(&self, other: &NaturalKey) -> (same: bool)
        ensures
            same == (self@ == other@),
    {
        let parents = match (self.parent, other.parent) {
            (Some(a), Some(b)) => a == b,
            (None, None) => true,
            _ => false,
        };
        let qualifiers = match (&self.qualifier, &other.qualifier) {
            (Some(a), Some(b)) => *a == *b,
            (None, None) => true,
            _ => false,
        };
        parents && qualifiers && self.name == other.name
    }
}

/// No key stands at two positions of `rows`.
pub open spec fn distinct_keys(rows: Seq<KeyView>) -> bool {
    forall|i: int, j: int| 0 <= i < j < rows.len() ==> rows[i] != rows[j]
}

/// The id of the row of `key` in `rows`, if there is one.
pub open spec fn id_of(rows: Seq<KeyView>, key: KeyView) -> Option<u64> {
    if rows.contains(key) {
        Some((rows.index_of(key) + 1) as u64)
    } else {
        None
    }
}

/// `rows` holds exactly one row for `key`.
pub open spec fn exactly_one_row(rows: Seq<KeyView>, key: KeyView) -> bool {
    exists|i: int|
        0 <= i < rows.len() && rows[i] == key && forall|j: int|
            0 <= j < rows.len() && rows[j] == key ==> j == i
}

/// Find-or-insert on the model: the rows afterwards, and the id returned.
/// An existing row is found; a missing one is appended while there is room;
/// with no room the call fails and leaves the rows as they were.
pub open spec fn resolved(rows: Seq<KeyView>, capacity: nat, key: KeyView) -> (
    Seq<KeyView>,
    Option<u64>,
) {
    if rows.contains(key) {
        (rows, id_of(rows, key))
    } else if rows.len() < capacity {
        (rows.push(key), Some((rows.len() + 1) as u64))
    } else {
        (rows, None)
    }
}

/// The rows before call number `index` of `calls`, a sequence of
/// find-or-insert calls made one after another on `rows`; at `calls.len()`,
/// the rows after all of them. Calls made concurrently under the table's lock
/// are such a sequence, in the order in which they took the lock.
pub open spec fn rows_before_call(
    rows: Seq<KeyView>,
    capacity: nat,
    calls: Seq<KeyView>,
    index: nat,
) -> Seq<KeyView>
    decreases index,
{
    if index == 0 {
        rows
    } else {
        resolved(
            rows_before_call(rows, capacity, calls, (index - 1) as nat),
            capacity,
            calls[index - 1],
        ).0
    }
}

/// The id that call number `index` of `calls` returns.
pub open spec fn id_from_call(
    rows: Seq<KeyView>,
    capacity: nat,
    calls: Seq<KeyView>,
    index: nat,
) -> Option<u64> {
    resolved(rows_before_call(rows, capacity, calls, index), capacity, calls[index as int]).1
}

/// One dimension table: rows in the order in which they were created, each
/// natural key at most once, and room for `capacity` rows.
#[derive(Clone, Debug)]
pub struct DimensionTable {
    rows: Vec<NaturalKey>,
    capacity: usize,
}

impl DimensionTable {
    /// The keys of the rows, in order; the row at position `i` has id `i + 1`.
    pub closed spec fn view(&self) -> Seq<KeyView> {
        Seq::new(self.rows@.len(), |i: int| self.rows@[i]@)
    }

    /// The number of rows that the table has room for.
    pub closed spec fn capacity(&self) -> nat {
        self.capacity as nat
    }

    /// The table's invariant: no key twice, and no more rows than there is
    /// room for.
    pub closed spec fn wf(&self) -> bool {
        &&& distinct_keys(self@)
        &&& self@.len() <= self.capacity
    }

    /// What the invariant says, for callers that cannot look inside.
    pub proof fn lemma_wf(&self)
        requires
            self.wf(),
        ensures
            distinct_keys(self@),
            self@.len() <= self.capacity() <= usize::MAX,
    {
    }

    /// An empty table with room for `capacity` rows.
    pub fn new(capacity: usize) -> (table: DimensionTable)
        ensures
            table.wf(),
            table@ == Seq::<KeyView>::empty(),
            table.capacity() == capacity,
    {
        let table = DimensionTable { rows: Vec::new(), capacity };
        assert(table@ =~= Seq::<KeyView>::empty());
        table
    }

    /// The number of rows.
    pub fn len(&self) -> (count: usize)
        ensures
            count == self@.len(),
    {
        self.rows.len()
    }

    /// The id of the row of `key`, if the table holds one.
    pub fn lookup(&self, key: &NaturalKey) -> (found: Option<u64>)
        requires
            self.wf(),
        ensures
            found == id_of(self@, key@),
    {
        let mut i: usize = 0;
        while i < self.rows.len()
            invariant
                self.wf(),
                i <= self.rows@.len(),
                forall|j: int| 0 <= j < i ==> self@[j] != key@,
            decreases self.rows@.len() - i,
        {
            if self.rows[i].same_as(key) {
                proof {
                    assert(self@[i as int] == key@);
                    lemma_id_of_position(self@, i as int);
                }
                return Some(i as u64 + 1);
            }
            i += 1;
        }
        assert(!self@.contains(key@));
        None
    }

    /// Returns the id of the row of `key`, creating the row if there is none.
    ///
    /// Fails only where the key is new and the table is full; the table is
    /// then unchanged.
    pub fn find_or_insert(&mut self, key: NaturalKey) -> (outcome: Result<u64, ErrorKind>)
        requires
            old(self).wf(),
        ensures
            final(self).wf(),
            final(self).capacity() == old(self).capacity(),
            final(self)@ == resolved(old(self)@, old(self).capacity(), key@).0,
            match outcome {
                Ok(id) => resolved(old(self)@, old(self).capacity(), key@).1 == Some(id),
                Err(kind) => kind == ErrorKind::PersistenceFailure && resolved(
                    old(self)@,
                    old(self).capacity(),
                    key@,
                ).1 is None,
            },
    {
        proof {
            lemma_resolved_keeps_table(self@, self.capacity(), key@);
        }
        match self.lookup(&key) {
            Some(id) => Ok(id),
            None => {
                let count = self.rows.len();
                if count < self.capacity {
                    self.rows.push(key);
                    assert(self@ =~= old(self)@.push(key@));
                    Ok(count as u64 + 1)
                } else {
                    Err(ErrorKind::PersistenceFailure)
                }
            },
        }
    }

    /// Takes back the rows after the first `count`: what a request appended
    /// before it failed. For the request that holds the store only; a row that
    /// another request has seen is never taken back.
    pub(crate) fn roll_back(&mut self, count: usize)
        requires
            old(self).wf(),
            count <= old(self)@.len(),
        ensures
            final(self).wf(),
            final(self).capacity() == old(self).capacity(),
            final(self)@ == old(self)@.subrange(0, count as int),
    {
        self.rows.truncate(count);
        assert(self@ =~= old(self)@.subrange(0, count as int));
    }
}

/// In rows with distinct keys, the row at position `i` has the id `i + 1`.
pub proof fn lemma_id_of_position(rows: Seq<KeyView>, i: int)
    requires
        distinct_keys(rows),
        0 <= i < rows.len(),
        rows.len() <= u64::MAX,
    ensures
        id_of(rows, rows[i]) == Some((i + 1) as u64),
{
    let key = rows[i];
    assert(rows.contains(key));
    let j = rows.index_of(key);
    assert(0 <= j < rows.len() && rows[j] == key);
    if j < i {
        assert(rows[j] != rows[i]);
    } else if i < j {
        assert(rows[i] != rows[j]);
    }
}

/// Find-or-insert keeps the keys distinct, only ever appends, and on success
/// leaves exactly one row for the key, at the id it returned.
pub proof fn lemma_resolved_keeps_table(rows: Seq<KeyView>, capacity: nat, key: KeyView)
    requires
        distinct_keys(rows),
        rows.len() <= capacity <= usize::MAX,
    ensures
        distinct_keys(resolved(rows, capacity, key).0),
        resolved(rows, capacity, key).0.len() <= capacity,
        rows.is_prefix_of(resolved(rows, capacity, key).0),
        resolved(rows, capacity, key).1 matches Some(id) ==> {
            &&& 1 <= id <= resolved(rows, capacity, key).0.len()
            &&& resolved(rows, capacity, key).0[id - 1] == key
            &&& exactly_one_row(resolved(rows, capacity, key).0, key)
            &&& id_of(resolved(rows, capacity, key).0, key) == Some(id)
        },
{
    let after = resolved(rows, capacity, key).0;
    if rows.contains(key) {
        let i = rows.index_of(key);
        assert(0 <= i < rows.len() && rows[i] == key);
        assert forall|j: int| 0 <= j < rows.len() && rows[j] == key implies j == i by {
            if j < i {
                assert(rows[j] != rows[i]);
            } else if i < j {
                assert(rows[i] != rows[j]);
            }
        }
    } else if rows.len() < capacity {
        let i = rows.len() as int;
        assert(after[i] == key);
        assert forall|a: int, b: int| 0 <= a < b < after.len() implies after[a] != after[b] by {
            if b == i {
                assert(rows[a] == after[a]);
                assert(rows.contains(after[a]));
            } else {
                assert(rows[a] != rows[b]);
            }
        }
        assert forall|j: int| 0 <= j < after.len() && after[j] == key implies j == i by {
            if j < i {
                assert(rows[j] == key);
                assert(rows.contains(key));
            }
        }
        lemma_id_of_position(after, i);
    }
}

/// Find-or-insert never moves a row: a key that had an id before a call for
/// any key keeps that id after it.
pub proof fn lemma_ids_are_stable(rows: Seq<KeyView>, capacity: nat, key: KeyView, other: KeyView)
    requires
        distinct_keys(rows),
        rows.len() <= capacity <= usize::MAX,
        id_of(rows, other) is Some,
    ensures
        id_of(resolved(rows, capacity, key).0, other) == id_of(rows, other),
{
    let after = resolved(rows, capacity, key).0;
    lemma_resolved_keeps_table(rows, capacity, key);
    let i = rows.index_of(other);
    assert(0 <= i < rows.len() && rows[i] == other);
    assert(after[i] == other);
    lemma_id_of_position(rows, i);
    lemma_id_of_position(after, i);
}

/// Idempotent resolution, two calls: the second call with a key returns the id
/// that the first returned and changes nothing.
pub proof fn lemma_resolution_is_idempotent(rows: Seq<KeyView>, capacity: nat, key: KeyView)
    requires
        distinct_keys(rows),
        rows.len() <= capacity <= usize::MAX,
        resolved(rows, capacity, key).1 is Some,
    ensures
        resolved(resolved(rows, capacity, key).0, capacity, key) == resolved(rows, capacity, key),
{
    lemma_resolved_keeps_table(rows, capacity, key);
    let after = resolved(rows, capacity, key).0;
    let id = resolved(rows, capacity, key).1->Some_0;
    assert(after[id - 1] == key);
    assert(after.contains(key));
}

/// However many calls are made, for whatever keys, the table keeps its
/// invariant, and a key that had an id before call number `from` has the same
/// id before call number `to`.
pub proof fn lemma_calls_keep_ids(
    rows: Seq<KeyView>,
    capacity: nat,
    calls: Seq<KeyView>,
    from: nat,
    to: nat,
    key: KeyView,
)
    requires
        distinct_keys(rows),
        rows.len() <= capacity <= usize::MAX,
        from <= to <= calls.len(),
    ensures
        distinct_keys(rows_before_call(rows, capacity, calls, to)),
        rows_before_call(rows, capacity, calls, to).len() <= capacity,
        id_of(rows_before_call(rows, capacity, calls, from), key) is Some ==> id_of(
            rows_before_call(rows, capacity, calls, to),
            key,
        ) == id_of(rows_before_call(rows, capacity, calls, from), key),
    decreases to,
{
    if to > 0 {
        let earlier = rows_before_call(rows, capacity, calls, (to - 1) as nat);
        if from < to {
            lemma_calls_keep_ids(rows, capacity, calls, from, (to - 1) as nat, key);
            lemma_resolved_keeps_table(earlier, capacity, calls[to - 1]);
            if id_of(rows_before_call(rows, capacity, calls, from), key) is Some {
                lemma_ids_are_stable(earlier, capacity, calls[to - 1], key);
            }
        } else {
            lemma_calls_keep_ids(rows, capacity, calls, (to - 1) as nat, (to - 1) as nat, key);
            lemma_resolved_keeps_table(earlier, capacity, calls[to - 1]);
        }
    }
}

/// Idempotent resolution: in any sequence of calls, two calls with the same
/// key return the same id, whatever other calls come before, between and
/// after them, and when all calls are done the table holds exactly one row
/// for that key.
pub proof fn lemma_calls_with_same_key_agree(
    rows: Seq<KeyView>,
    capacity: nat,
    calls: Seq<KeyView>,
    first: nat,
    second: nat,
)
    requires
        distinct_keys(rows),
        rows.len() <= capacity <= usize::MAX,
        first < second < calls.len(),
        calls[first as int] == calls[second as int],
        id_from_call(rows, capacity, calls, first) is Some,
    ensures
        id_from_call(rows, capacity, calls, second) == id_from_call(rows, capacity, calls, first),
        distinct_keys(rows_before_call(rows, capacity, calls, calls.len())),
        exactly_one_row(rows_before_call(rows, capacity, calls, calls.len()), calls[first as int]),
{
    let key = calls[first as int];
    let before = rows_before_call(rows, capacity, calls, first);
    let after = rows_before_call(rows, capacity, calls, first + 1);
    let end = rows_before_call(rows, capacity, calls, calls.len());
    lemma_calls_keep_ids(rows, capacity, calls, first, first, key);
    lemma_resolved_keeps_table(before, capacity, key);
    assert(after == resolved(before, capacity, key).0);
    lemma_calls_keep_ids(rows, capacity, calls, first + 1, second, key);
    lemma_calls_keep_ids(rows, capacity, calls, first + 1, calls.len(), key);
    let at_end = end.index_of(key);
    assert(end.contains(key));
    assert(0 <= at_end < end.len() && end[at_end] == key);
    assert forall|j: int| 0 <= j < end.len() && end[j] == key implies j == at_end by {
        if j < at_end {
            assert(end[j] != end[at_end]);
        } else if at_end < j {
            assert(end[at_end] != end[j]);
        }
    }
}

/// Scoped uniqueness: two different keys never share an id. In particular a
/// name under one project and the same name under another are two rows.
pub proof fn lemma_different_keys_different_ids(rows: Seq<KeyView>, first: KeyView, second: KeyView)
    requires
        distinct_keys(rows),
        rows.len() <= usize::MAX,
        first != second,
        id_of(rows, first) is Some,
    ensures
        id_of(rows, first) != id_of(rows, second),
{
    if rows.contains(second) {
        let i = rows.index_of(first);
        let j = rows.index_of(second);
        assert(rows[i] == first && rows[j] == second);
    }
}

/// Scoped uniqueness across calls: find-or-insert for one key and then for a
/// different key, where both succeed, returns two different ids.
pub proof fn lemma_resolving_different_keys(
    rows: Seq<KeyView>,
    capacity: nat,
    first: KeyView,
    second: KeyView,
)
    requires
        distinct_keys(rows),
        rows.len() <= capacity <= usize::MAX,
        first != second,
        resolved(rows, capacity, first).1 is Some,
        resolved(resolved(rows, capacity, first).0, capacity, second).1 is Some,
    ensures
        resolved(rows, capacity, first).1 != resolved(
            resolved(rows, capacity, first).0,
            capacity,
            second,
        ).1,
{
    let middle = resolved(rows, capacity, first).0;
    let last = resolved(middle, capacity, second).0;
    lemma_resolved_keeps_table(rows, capacity, first);
    lemma_resolved_keeps_table(middle, capacity, second);
    lemma_ids_are_stable(middle, capacity, second, first);
    lemma_different_keys_different_ids(last, first, second);
}

} // verus!
