//! Insertion-ordered tables.
//!
//! A table is a sequence of entries, each found again by its key. Two ways of
//! adding an entry are defined: `put`, where an entry replaces the one that
//! already has its key and keeps that one's place, and `put_new`, where an
//! entry whose key is taken is dropped. Both append an entry with a fresh
//! key, so a table built from nothing lists its keys in the order in which
//! they first came.
//!
//! The definitions and the laws that hold of them come first; the functions
//! that do the same on vectors come last. The document model builds its
//! operations, schemas and security schemes on these.

use vstd::prelude::*;

verus! {

/// An entry that has a key.
pub trait Keyed {
    type Key;

    spec fn key(&self) -> Self::Key;
}

/// The index of the first entry with `key`, or the length of `entries` when
/// no entry has it.
pub open spec fn first_index<E: Keyed>(entries: Seq<E>, key: E::Key) -> int
    decreases entries.len(),
{
    if entries.len() == 0 {
        0
    } else {
        let before = first_index(entries.drop_last(), key);
        if before < entries.len() - 1 {
            before
        } else if entries.last().key() == key {
            entries.len() - 1
        } else {
            entries.len() as int
        }
    }
}

/// The index of the last entry with `key`, or -1 when no entry has it.
pub open spec fn last_index<E: Keyed>(entries: Seq<E>, key: E::Key) -> int
    decreases entries.len(),
{
    if entries.len() == 0 {
        -1
    } else if entries.last().key() == key {
        entries.len() - 1
    } else {
        last_index(entries.drop_last(), key)
    }
}

/// Whether some entry has `key`.
pub open spec fn has_key<E: Keyed>(entries: Seq<E>, key: E::Key) -> bool {
    first_index(entries, key) < entries.len()
}

/// Whether no two entries share a key.
pub open spec fn distinct_keys<E: Keyed>(entries: Seq<E>) -> bool {
    forall|i: int, j: int|
        0 <= i < j < entries.len() ==> (#[trigger] entries[i]).key() != (#[trigger] entries[j]).key()
}

/// Adds `entry`, replacing in place the first entry that has its key.
pub open spec fn put<E: Keyed>(entries: Seq<E>, entry: E) -> Seq<E> {
    let at = first_index(entries, entry.key());
    if at < entries.len() {
        entries.update(at, entry)
    } else {
        entries.push(entry)
    }
}

/// Adds `entry` unless its key is taken.
pub open spec fn put_new<E: Keyed>(entries: Seq<E>, entry: E) -> Seq<E> {
    if has_key(entries, entry.key()) {
        entries
    } else {
        entries.push(entry)
    }
}

/// Adds the entries of `more` one after the other with `put`.
pub open spec fn put_all<E: Keyed>(entries: Seq<E>, more: Seq<E>) -> Seq<E>
    decreases more.len(),
{
    if more.len() == 0 {
        entries
    } else {
        put(put_all(entries, more.drop_last()), more.last())
    }
}

/// Adds the entries of `more` one after the other with `put_new`.
pub open spec fn put_all_new<E: Keyed>(entries: Seq<E>, more: Seq<E>) -> Seq<E>
    decreases more.len(),
{
    if more.len() == 0 {
        entries
    } else {
        put_new(put_all_new(entries, more.drop_last()), more.last())
    }
}

/// `first_index` is in range, points at an entry with the key, and no entry
/// before it has the key.
pub proof fn lemma_first_index<E: Keyed>(entries: Seq<E>, key: E::Key)
    ensures
        0 <= first_index(entries, key) <= entries.len(),
        has_key(entries, key) ==> entries[first_index(entries, key)].key() == key,
        forall|j: int| 0 <= j < first_index(entries, key) ==> (#[trigger] entries[j]).key() != key,
    decreases entries.len(),
{
    if entries.len() > 0 {
        let front = entries.drop_last();
        lemma_first_index(front, key);
        assert forall|j: int| 0 <= j < first_index(entries, key) implies (#[trigger] entries[j]).key()
            != key by {
            if j < front.len() {
                assert(front[j] == entries[j]);
            }
        }
    }
}

/// An index is the `first_index` of a key once the entry there has the key
/// and no entry before it has.
pub proof fn lemma_first_index_is<E: Keyed>(entries: Seq<E>, key: E::Key, at: int)
    requires
        0 <= at < entries.len(),
        entries[at].key() == key,
        forall|j: int| 0 <= j < at ==> (#[trigger] entries[j]).key() != key,
    ensures
        first_index(entries, key) == at,
{
    lemma_first_index(entries, key);
    let found = first_index(entries, key);
    lemma_key_found(entries, key, at);
    if found < at {
        assert(entries[found].key() != key);
    }
}

/// A key that some entry has is found.
pub proof fn lemma_key_found<E: Keyed>(entries: Seq<E>, key: E::Key, at: int)
    requires
        0 <= at < entries.len(),
        entries[at].key() == key,
    ensures
        first_index(entries, key) <= at,
        last_index(entries, key) >= at,
    decreases entries.len(),
{
    if at < entries.len() - 1 {
        let front = entries.drop_last();
        assert(front[at] == entries[at]);
        lemma_key_found(front, key, at);
        lemma_last_index(front, key);
    } else {
        lemma_first_index(entries.drop_last(), key);
    }
}

/// A key that no entry has is not found.
pub proof fn lemma_key_absent<E: Keyed>(entries: Seq<E>, key: E::Key)
    requires
        forall|j: int| 0 <= j < entries.len() ==> (#[trigger] entries[j]).key() != key,
    ensures
        !has_key(entries, key),
        last_index(entries, key) == -1,
    decreases entries.len(),
{
    if entries.len() > 0 {
        let front = entries.drop_last();
        assert forall|j: int| 0 <= j < front.len() implies (#[trigger] front[j]).key() != key by {
            assert(front[j] == entries[j]);
        }
        lemma_key_absent(front, key);
        assert(entries.last() == entries[entries.len() - 1]);
    }
}

/// `last_index` is in range, points at an entry with the key, and no entry
/// after it has the key.
pub proof fn lemma_last_index<E: Keyed>(entries: Seq<E>, key: E::Key)
    ensures
        -1 <= last_index(entries, key) < entries.len(),
        last_index(entries, key) >= 0 ==> entries[last_index(entries, key)].key() == key,
        forall|j: int|
            last_index(entries, key) < j < entries.len() ==> (#[trigger] entries[j]).key() != key,
    decreases entries.len(),
{
    if entries.len() > 0 && entries.last().key() != key {
        let front = entries.drop_last();
        lemma_last_index(front, key);
        assert forall|j: int| last_index(entries, key) < j < entries.len() implies (
        #[trigger] entries[j]).key() != key by {
            if j < front.len() {
                assert(front[j] == entries[j]);
            }
        }
    }
}

/// What appending one entry does to `first_index` and `last_index`.
pub proof fn lemma_index_after_push<E: Keyed>(entries: Seq<E>, entry: E, key: E::Key)
    ensures
        has_key(entries, key) ==> first_index(entries.push(entry), key) == first_index(
            entries,
            key,
        ),
        !has_key(entries, key) && entry.key() == key ==> first_index(entries.push(entry), key)
            == entries.len(),
        !has_key(entries, key) && entry.key() != key ==> !has_key(entries.push(entry), key),
        entry.key() == key ==> last_index(entries.push(entry), key) == entries.len(),
        entry.key() != key ==> last_index(entries.push(entry), key) == last_index(entries, key),
{
    let longer = entries.push(entry);
    assert(longer.drop_last() == entries);
    assert(longer.last() == entry);
    lemma_first_index(entries, key);
}

/// Two tables with the same keys in the same places find every key at the
/// same index.
pub proof fn lemma_same_keys<E: Keyed>(left: Seq<E>, right: Seq<E>, key: E::Key)
    requires
        left.len() == right.len(),
        forall|i: int| 0 <= i < left.len() ==> (#[trigger] left[i]).key() == right[i].key(),
    ensures
        first_index(left, key) == first_index(right, key),
    decreases left.len(),
{
    if left.len() > 0 {
        let l = left.drop_last();
        let r = right.drop_last();
        assert forall|i: int| 0 <= i < l.len() implies (#[trigger] l[i]).key() == r[i].key() by {
            assert(l[i] == left[i]);
            assert(r[i] == right[i]);
        }
        lemma_same_keys(l, r, key);
        assert(left.last() == left[left.len() - 1]);
        assert(right.last() == right[right.len() - 1]);
    }
}

/// `put` keeps every key where it is, and appends at most the new one.
pub proof fn lemma_put_keys<E: Keyed>(entries: Seq<E>, entry: E)
    ensures
        entries.len() <= put(entries, entry).len() <= entries.len() + 1,
        forall|i: int|
            0 <= i < entries.len() ==> (#[trigger] put(entries, entry)[i]).key() == entries[i].key(),
        has_key(entries, entry.key()) <==> put(entries, entry).len() == entries.len(),
        !has_key(entries, entry.key()) ==> put(entries, entry) == entries.push(entry),
        has_key(put(entries, entry), entry.key()),
        forall|key: E::Key|
            key != entry.key() ==> #[trigger] first_index(put(entries, entry), key) == (if has_key(
                entries,
                key,
            ) {
                first_index(entries, key)
            } else {
                put(entries, entry).len() as int
            }),
        first_index(put(entries, entry), entry.key()) == first_index(entries, entry.key()),
{
    let after = put(entries, entry);
    let at = first_index(entries, entry.key());
    lemma_first_index(entries, entry.key());
    if at < entries.len() {
        assert forall|key: E::Key| #[trigger]
            first_index(after, key) == first_index(entries, key) by {
            lemma_same_keys(after, entries, key);
        }
    } else {
        assert forall|key: E::Key| key != entry.key() implies #[trigger] first_index(after, key)
            == (if has_key(entries, key) {
            first_index(entries, key)
        } else {
            after.len() as int
        }) by {
            lemma_index_after_push(entries, entry, key);
            lemma_first_index(after, key);
        }
        lemma_index_after_push(entries, entry, entry.key());
    }
}

/// `put` keeps the keys distinct.
pub proof fn lemma_put_distinct<E: Keyed>(entries: Seq<E>, entry: E)
    requires
        distinct_keys(entries),
    ensures
        distinct_keys(put(entries, entry)),
{
    let after = put(entries, entry);
    lemma_put_keys(entries, entry);
    lemma_first_index(entries, entry.key());
    assert forall|i: int, j: int| 0 <= i < j < after.len() implies (#[trigger] after[i]).key() != (
    #[trigger] after[j]).key() by {
        if j < entries.len() {
            assert(after[i].key() == entries[i].key());
            assert(after[j].key() == entries[j].key());
        } else {
            assert(after[i].key() == entries[i].key());
        }
    }
}

/// `put_new` keeps the keys distinct.
pub proof fn lemma_put_new_distinct<E: Keyed>(entries: Seq<E>, entry: E)
    requires
        distinct_keys(entries),
    ensures
        distinct_keys(put_new(entries, entry)),
{
    lemma_first_index(entries, entry.key());
}

/// `put_all` keeps the keys distinct.
pub proof fn lemma_put_all_distinct<E: Keyed>(entries: Seq<E>, more: Seq<E>)
    requires
        distinct_keys(entries),
    ensures
        distinct_keys(put_all(entries, more)),
    decreases more.len(),
{
    if more.len() > 0 {
        lemma_put_all_distinct(entries, more.drop_last());
        lemma_put_distinct(put_all(entries, more.drop_last()), more.last());
    }
}

/// `put_all_new` keeps the keys distinct.
pub proof fn lemma_put_all_new_distinct<E: Keyed>(entries: Seq<E>, more: Seq<E>)
    requires
        distinct_keys(entries),
    ensures
        distinct_keys(put_all_new(entries, more)),
    decreases more.len(),
{
    if more.len() > 0 {
        lemma_put_all_new_distinct(entries, more.drop_last());
        lemma_put_new_distinct(put_all_new(entries, more.drop_last()), more.last());
    }
}

/// A key is found from the front exactly when it is found from the back;
/// where no key occurs twice, at the same place.
pub proof fn lemma_found_both_ways<E: Keyed>(entries: Seq<E>, key: E::Key)
    ensures
        has_key(entries, key) <==> last_index(entries, key) >= 0,
        has_key(entries, key) ==> first_index(entries, key) <= last_index(entries, key),
        has_key(entries, key) && distinct_keys(entries) ==> first_index(entries, key) == last_index(
            entries,
            key,
        ),
{
    lemma_first_index(entries, key);
    lemma_last_index(entries, key);
    if has_key(entries, key) {
        lemma_key_found(entries, key, first_index(entries, key));
    }
    if last_index(entries, key) >= 0 {
        lemma_key_found(entries, key, last_index(entries, key));
    }
}

/// The entry that a table holds under `key`: the first that has the key,
/// or none.
pub open spec fn entry_of<E: Keyed>(entries: Seq<E>, key: E::Key) -> Option<E> {
    if has_key(entries, key) {
        Some(entries[first_index(entries, key)])
    } else {
        None
    }
}

/// After `put`, the table holds the entry under its key, and under every
/// other key what it held.
pub proof fn lemma_entry_after_put<E: Keyed>(entries: Seq<E>, entry: E)
    ensures
        entry_of(put(entries, entry), entry.key()) == Some(entry),
        forall|key: E::Key|
            key != entry.key() ==> #[trigger] entry_of(put(entries, entry), key) == entry_of(
                entries,
                key,
            ),
{
    lemma_put_keys(entries, entry);
    lemma_first_index(entries, entry.key());
    assert forall|key: E::Key| key != entry.key() implies #[trigger] entry_of(
        put(entries, entry),
        key,
    ) == entry_of(entries, key) by {
        lemma_first_index(entries, key);
        assert(first_index(put(entries, entry), key) == (if has_key(entries, key) {
            first_index(entries, key)
        } else {
            put(entries, entry).len() as int
        }));
    }
}

/// After `put_new`, the table holds under every key what it held, and the
/// entry under its key where the key was free.
pub proof fn lemma_entry_after_put_new<E: Keyed>(entries: Seq<E>, entry: E)
    ensures
        forall|key: E::Key| #[trigger]
            entry_of(put_new(entries, entry), key) == (if has_key(entries, key) {
                entry_of(entries, key)
            } else if key == entry.key() {
                Some(entry)
            } else {
                None
            }),
{
    assert forall|key: E::Key| #[trigger]
        entry_of(put_new(entries, entry), key) == (if has_key(entries, key) {
            entry_of(entries, key)
        } else if key == entry.key() {
            Some(entry)
        } else {
            None
        }) by {
        lemma_first_index(entries, key);
        lemma_index_after_push(entries, entry, key);
    }
}

/// Key by key, what a table holds after `put_all`: the last entry of
/// `more` that has the key, or what the table held where `more` has none.
pub proof fn lemma_entry_after_put_all<E: Keyed>(entries: Seq<E>, more: Seq<E>, key: E::Key)
    ensures
        entry_of(put_all(entries, more), key) == (if last_index(more, key) >= 0 {
            Some(more[last_index(more, key)])
        } else {
            entry_of(entries, key)
        }),
    decreases more.len(),
{
    if more.len() > 0 {
        lemma_entry_after_put_all(entries, more.drop_last(), key);
        lemma_entry_after_put(put_all(entries, more.drop_last()), more.last());
        lemma_last_index(more.drop_last(), key);
        if more.last().key() != key && last_index(more, key) >= 0 {
            assert(more.drop_last()[last_index(more, key)] == more[last_index(more, key)]);
        }
    }
}

/// Key by key, what a table holds after `put_all_new`: what it held, or
/// where it held nothing the first entry of `more` that has the key.
pub proof fn lemma_entry_after_put_all_new<E: Keyed>(entries: Seq<E>, more: Seq<E>, key: E::Key)
    ensures
        entry_of(put_all_new(entries, more), key) == (if has_key(entries, key) {
            entry_of(entries, key)
        } else {
            entry_of(more, key)
        }),
    decreases more.len(),
{
    if more.len() > 0 {
        let front = more.drop_last();
        lemma_entry_after_put_all_new(entries, front, key);
        lemma_entry_after_put_new(put_all_new(entries, front), more.last());
        lemma_put_all_new_has_keys(entries, front);
        lemma_first_index(front, key);
        lemma_index_after_push(front, more.last(), key);
        assert(front.push(more.last()) == more);
        if has_key(front, key) {
            assert(front[first_index(front, key)] == more[first_index(front, key)]);
            assert(has_key(put_all_new(entries, front), front[first_index(front, key)].key()));
        }
    }
}

/// Adding two runs of entries one after the other is adding their
/// concatenation.
pub proof fn lemma_put_all_concat<E: Keyed>(entries: Seq<E>, first: Seq<E>, second: Seq<E>)
    ensures
        put_all(entries, first + second) == put_all(put_all(entries, first), second),
    decreases second.len(),
{
    if second.len() == 0 {
        assert(first + second == first);
    } else {
        assert((first + second).drop_last() == first + second.drop_last());
        assert((first + second).last() == second.last());
        lemma_put_all_concat(entries, first, second.drop_last());
    }
}

/// Adding two runs of entries one after the other is adding their
/// concatenation, for `put_new` as well.
pub proof fn lemma_put_all_new_concat<E: Keyed>(entries: Seq<E>, first: Seq<E>, second: Seq<E>)
    ensures
        put_all_new(entries, first + second) == put_all_new(put_all_new(entries, first), second),
    decreases second.len(),
{
    if second.len() == 0 {
        assert(first + second == first);
    } else {
        assert((first + second).drop_last() == first + second.drop_last());
        assert((first + second).last() == second.last());
        lemma_put_all_new_concat(entries, first, second.drop_last());
    }
}

/// What holds of a table built from nothing by `put`, entry by entry:
/// no key occurs twice; the table has exactly the keys that were put; each
/// entry is the last one that was put under its key; and the keys stand in
/// the order in which they were first put.
pub open spec fn last_wins<E: Keyed>(table: Seq<E>, all: Seq<E>) -> bool {
    &&& distinct_keys(table)
    &&& forall|key: E::Key| #[trigger] has_key(table, key) <==> has_key(all, key)
    &&& forall|i: int|
        0 <= i < table.len() ==> {
            &&& 0 <= last_index(all, (#[trigger] table[i]).key()) < all.len()
            &&& table[i] == all[last_index(all, table[i].key())]
        }
    &&& forall|i: int, j: int|
        0 <= i < j < table.len() ==> first_index(all, (#[trigger] table[i]).key()) < first_index(
            all,
            (#[trigger] table[j]).key(),
        )
}

/// What holds of a table built from nothing by `put_new`, entry by entry:
/// no key occurs twice; the table has exactly the keys that were put; each
/// entry is the first one that was put under its key; and the keys stand in
/// the order in which they were first put.
pub open spec fn first_wins<E: Keyed>(table: Seq<E>, all: Seq<E>) -> bool {
    &&& distinct_keys(table)
    &&& forall|key: E::Key| #[trigger] has_key(table, key) <==> has_key(all, key)
    &&& forall|i: int|
        0 <= i < table.len() ==> {
            &&& 0 <= first_index(all, (#[trigger] table[i]).key()) < all.len()
            &&& table[i] == all[first_index(all, table[i].key())]
        }
    &&& forall|i: int, j: int|
        0 <= i < j < table.len() ==> first_index(all, (#[trigger] table[i]).key()) < first_index(
            all,
            (#[trigger] table[j]).key(),
        )
}

/// One more `put` keeps `last_wins`.
proof fn lemma_last_wins_step<E: Keyed>(table: Seq<E>, all: Seq<E>, entry: E)
    requires
        last_wins(table, all),
    ensures
        last_wins(put(table, entry), all.push(entry)),
{
    let after = put(table, entry);
    let longer = all.push(entry);
    lemma_put_keys(table, entry);
    lemma_put_distinct(table, entry);
    lemma_first_index(table, entry.key());
    assert forall|key: E::Key| #[trigger] has_key(after, key) <==> has_key(longer, key) by {
        lemma_index_after_push(all, entry, key);
        lemma_first_index(longer, key);
        assert(has_key(table, key) <==> has_key(all, key));
        if key != entry.key() {
            assert(first_index(after, key) == (if has_key(table, key) {
                first_index(table, key)
            } else {
                after.len() as int
            }));
        }
    }
    assert forall|i: int| 0 <= i < after.len() implies {
        &&& 0 <= last_index(longer, (#[trigger] after[i]).key()) < longer.len()
        &&& after[i] == longer[last_index(longer, after[i].key())]
    } by {
        lemma_index_after_push(all, entry, after[i].key());
        if after[i].key() != entry.key() {
            assert(i < table.len());
            assert(after[i] == table[i]);
            assert(table[i] == all[last_index(all, table[i].key())]);
        } else {
            if i < table.len() {
                assert(after[i].key() == table[i].key());
                if i != first_index(table, entry.key()) {
                    assert(table[first_index(table, entry.key())].key() == table[i].key());
                }
            }
        }
    }
    assert forall|i: int, j: int| 0 <= i < j < after.len() implies first_index(
        longer,
        (#[trigger] after[i]).key(),
    ) < first_index(longer, (#[trigger] after[j]).key()) by {
        lemma_index_after_push(all, entry, after[i].key());
        lemma_index_after_push(all, entry, after[j].key());
        assert(after[i].key() == table[i].key());
        assert(has_key(table, table[i].key())) by {
            lemma_key_found(table, table[i].key(), i);
        }
        assert(has_key(all, table[i].key()));
        lemma_first_index(all, table[i].key());
        if j < table.len() {
            assert(after[j].key() == table[j].key());
            assert(has_key(table, table[j].key())) by {
                lemma_key_found(table, table[j].key(), j);
            }
            assert(has_key(all, table[j].key()));
        } else {
            assert(after == table.push(entry));
            assert(after[j] == entry);
            assert(!has_key(table, entry.key()));
            assert(!has_key(all, entry.key()));
        }
    }
}

/// One more `put_new` keeps `first_wins`.
proof fn lemma_first_wins_step<E: Keyed>(table: Seq<E>, all: Seq<E>, entry: E)
    requires
        first_wins(table, all),
    ensures
        first_wins(put_new(table, entry), all.push(entry)),
{
    let after = put_new(table, entry);
    let longer = all.push(entry);
    lemma_put_new_distinct(table, entry);
    lemma_first_index(table, entry.key());
    assert forall|key: E::Key| #[trigger] has_key(after, key) <==> has_key(longer, key) by {
        lemma_index_after_push(all, entry, key);
        lemma_index_after_push(table, entry, key);
        assert(has_key(table, key) <==> has_key(all, key));
        assert(has_key(table, entry.key()) <==> has_key(all, entry.key()));
        lemma_first_index(longer, key);
        lemma_first_index(after, key);
    }
    assert forall|i: int| 0 <= i < after.len() implies {
        &&& 0 <= first_index(longer, (#[trigger] after[i]).key()) < longer.len()
        &&& after[i] == longer[first_index(longer, after[i].key())]
    } by {
        lemma_index_after_push(all, entry, after[i].key());
        assert(has_key(table, entry.key()) <==> has_key(all, entry.key()));
        if i < table.len() {
            assert(after[i] == table[i]);
            assert(table[i] == all[first_index(all, table[i].key())]);
        }
    }
    assert forall|i: int, j: int| 0 <= i < j < after.len() implies first_index(
        longer,
        (#[trigger] after[i]).key(),
    ) < first_index(longer, (#[trigger] after[j]).key()) by {
        lemma_index_after_push(all, entry, after[i].key());
        lemma_index_after_push(all, entry, after[j].key());
        assert(has_key(table, entry.key()) <==> has_key(all, entry.key()));
        assert(after[i] == table[i]);
        assert(0 <= first_index(all, table[i].key()) < all.len());
        if j < table.len() {
            assert(after[j] == table[j]);
            assert(0 <= first_index(all, table[j].key()) < all.len());
        }
    }
}

/// A table built from nothing by `put` has no key twice, has every key that
/// was put, holds under each key the entry that was put last, and lists the
/// keys in the order in which they first came.
pub proof fn lemma_put_all_last_wins<E: Keyed>(all: Seq<E>)
    ensures
        last_wins(put_all(Seq::empty(), all), all),
    decreases all.len(),
{
    if all.len() == 0 {
        let table = put_all(Seq::<E>::empty(), all);
        assert forall|key: E::Key| #[trigger] has_key(table, key) <==> has_key(all, key) by {}
    } else {
        lemma_put_all_last_wins(all.drop_last());
        lemma_last_wins_step(put_all(Seq::empty(), all.drop_last()), all.drop_last(), all.last());
        assert(all.drop_last().push(all.last()) == all);
    }
}

/// A table built from nothing by `put_new` has no key twice, has every key
/// that was put, holds under each key the entry that was put first, and
/// lists the keys in the order in which they first came.
pub proof fn lemma_put_all_new_first_wins<E: Keyed>(all: Seq<E>)
    ensures
        first_wins(put_all_new(Seq::empty(), all), all),
    decreases all.len(),
{
    if all.len() == 0 {
        let table = put_all_new(Seq::<E>::empty(), all);
        assert forall|key: E::Key| #[trigger] has_key(table, key) <==> has_key(all, key) by {}
    } else {
        lemma_put_all_new_first_wins(all.drop_last());
        lemma_first_wins_step(
            put_all_new(Seq::empty(), all.drop_last()),
            all.drop_last(),
            all.last(),
        );
        assert(all.drop_last().push(all.last()) == all);
    }
}

/// Putting twice under one key is putting the second entry.
pub proof fn lemma_put_twice<E: Keyed>(entries: Seq<E>, first: E, second: E)
    requires
        first.key() == second.key(),
    ensures
        put(put(entries, first), second) == put(entries, second),
{
    lemma_put_keys(entries, first);
    lemma_first_index(entries, first.key());
    let at = first_index(entries, first.key());
    if at < entries.len() {
        assert(entries.update(at, first).update(at, second) =~= entries.update(at, second));
    } else {
        assert(entries.push(first).update(at, second) =~= entries.push(second));
    }
}

/// Two puts under different keys can change places once the table has the
/// key of one of them.
pub proof fn lemma_put_commutes<E: Keyed>(entries: Seq<E>, held: E, other: E)
    requires
        has_key(entries, held.key()),
        held.key() != other.key(),
    ensures
        put(put(entries, held), other) == put(put(entries, other), held),
{
    lemma_put_keys(entries, held);
    lemma_put_keys(entries, other);
    lemma_first_index(entries, held.key());
    lemma_first_index(entries, other.key());
    let here = first_index(entries, held.key());
    let there = first_index(entries, other.key());
    assert(first_index(put(entries, held), other.key()) == there);
    assert(first_index(put(entries, other), held.key()) == here);
    if there < entries.len() {
        assert(entries.update(here, held).update(there, other) =~= entries.update(
            there,
            other,
        ).update(here, held));
    } else {
        assert(entries.update(here, held).push(other) =~= entries.push(other).update(here, held));
    }
}

/// `put_all` keeps every key that the table had and has every key that was
/// put.
pub proof fn lemma_put_all_has_keys<E: Keyed>(entries: Seq<E>, more: Seq<E>)
    ensures
        forall|key: E::Key|
            has_key(entries, key) ==> #[trigger] has_key(put_all(entries, more), key),
        forall|i: int|
            0 <= i < more.len() ==> has_key(put_all(entries, more), (#[trigger] more[i]).key()),
    decreases more.len(),
{
    if more.len() > 0 {
        let front = more.drop_last();
        let before = put_all(entries, front);
        lemma_put_all_has_keys(entries, front);
        lemma_put_keys(before, more.last());
        assert forall|key: E::Key| has_key(before, key) implies #[trigger] has_key(
            put_all(entries, more),
            key,
        ) by {
            if key != more.last().key() {
                assert(first_index(put(before, more.last()), key) == first_index(before, key));
            }
        }
        assert forall|i: int| 0 <= i < more.len() implies has_key(
            put_all(entries, more),
            (#[trigger] more[i]).key(),
        ) by {
            if i < front.len() {
                assert(front[i] == more[i]);
                assert(has_key(before, front[i].key()));
            }
        }
    }
}

/// `put_all_new` keeps every key that the table had and has every key that
/// was put.
pub proof fn lemma_put_all_new_has_keys<E: Keyed>(entries: Seq<E>, more: Seq<E>)
    ensures
        forall|key: E::Key|
            has_key(entries, key) ==> #[trigger] has_key(put_all_new(entries, more), key),
        forall|i: int|
            0 <= i < more.len() ==> has_key(
                put_all_new(entries, more),
                (#[trigger] more[i]).key(),
            ),
    decreases more.len(),
{
    if more.len() > 0 {
        let front = more.drop_last();
        let before = put_all_new(entries, front);
        lemma_put_all_new_has_keys(entries, front);
        assert forall|key: E::Key| has_key(before, key) implies #[trigger] has_key(
            put_all_new(entries, more),
            key,
        ) by {
            lemma_index_after_push(before, more.last(), key);
        }
        lemma_index_after_push(before, more.last(), more.last().key());
        lemma_first_index(before.push(more.last()), more.last().key());
        assert forall|i: int| 0 <= i < more.len() implies has_key(
            put_all_new(entries, more),
            (#[trigger] more[i]).key(),
        ) by {
            if i < front.len() {
                assert(front[i] == more[i]);
                assert(has_key(before, front[i].key()));
            }
        }
    }
}

/// Where no key occurs twice in `more`, putting `more` with one entry
/// replaced by another of its key is putting `more` and then the other.
proof fn lemma_put_all_replaced<E: Keyed>(entries: Seq<E>, more: Seq<E>, at: int, entry: E)
    requires
        distinct_keys(more),
        0 <= at < more.len(),
        more[at].key() == entry.key(),
    ensures
        put_all(entries, more.update(at, entry)) == put(put_all(entries, more), entry),
    decreases more.len(),
{
    let front = more.drop_last();
    let before = put_all(entries, front);
    let replaced = more.update(at, entry);
    if at == more.len() - 1 {
        assert(replaced.drop_last() =~= front);
        assert(replaced.last() == entry);
        lemma_put_twice(before, more.last(), entry);
    } else {
        assert(replaced.drop_last() =~= front.update(at, entry));
        assert(replaced.last() == more.last());
        assert(front[at] == more[at]);
        assert(distinct_keys(front)) by {
            assert forall|i: int, j: int| 0 <= i < j < front.len() implies (#[trigger] front[i]).key()
                != (#[trigger] front[j]).key() by {
                assert(front[i] == more[i]);
                assert(front[j] == more[j]);
            }
        }
        lemma_put_all_replaced(entries, front, at, entry);
        lemma_put_all_has_keys(entries, front);
        assert(has_key(before, front[at].key()));
        assert(more[at].key() != more[more.len() - 1].key());
        lemma_put_commutes(before, entry, more.last());
    }
}

/// A table in which no key occurs twice is what `put` and `put_new` build
/// from its entries.
pub proof fn lemma_put_all_of_distinct<E: Keyed>(table: Seq<E>)
    requires
        distinct_keys(table),
    ensures
        put_all(Seq::empty(), table) == table,
        put_all_new(Seq::empty(), table) == table,
    decreases table.len(),
{
    if table.len() > 0 {
        let front = table.drop_last();
        assert(distinct_keys(front)) by {
            assert forall|i: int, j: int| 0 <= i < j < front.len() implies (#[trigger] front[i]).key()
                != (#[trigger] front[j]).key() by {
                assert(front[i] == table[i]);
                assert(front[j] == table[j]);
            }
        }
        lemma_put_all_of_distinct(front);
        assert forall|j: int| 0 <= j < front.len() implies (#[trigger] front[j]).key()
            != table.last().key() by {
            assert(front[j] == table[j]);
            assert(table.last() == table[table.len() - 1]);
        }
        lemma_key_absent(front, table.last().key());
        assert(front.push(table.last()) =~= table);
    }
}

/// Putting a table that was built from nothing by `put` is putting the
/// entries it was built from.
pub proof fn lemma_put_all_merged<E: Keyed>(entries: Seq<E>, all: Seq<E>)
    ensures
        put_all(entries, put_all(Seq::empty(), all)) == put_all(entries, all),
    decreases all.len(),
{
    if all.len() > 0 {
        let front = all.drop_last();
        let merged = put_all(Seq::<E>::empty(), front);
        lemma_put_all_merged(entries, front);
        lemma_put_all_last_wins(front);
        lemma_first_index(merged, all.last().key());
        let at = first_index(merged, all.last().key());
        if at < merged.len() {
            lemma_put_all_replaced(entries, merged, at, all.last());
        } else {
            assert(merged.push(all.last()).drop_last() =~= merged);
        }
    }
}

/// Putting a table that was built from nothing by `put_new` is putting the
/// entries it was built from.
pub proof fn lemma_put_all_new_merged<E: Keyed>(entries: Seq<E>, all: Seq<E>)
    ensures
        put_all_new(entries, put_all_new(Seq::empty(), all)) == put_all_new(entries, all),
    decreases all.len(),
{
    if all.len() > 0 {
        let front = all.drop_last();
        let merged = put_all_new(Seq::<E>::empty(), front);
        lemma_put_all_new_merged(entries, front);
        lemma_put_all_new_first_wins(front);
        if has_key(merged, all.last().key()) {
            assert(has_key(front, all.last().key()));
            lemma_first_index(front, all.last().key());
            lemma_put_all_new_has_keys(entries, front);
            assert(has_key(
                put_all_new(entries, front),
                front[first_index(front, all.last().key())].key(),
            ));
        } else {
            assert(merged.push(all.last()).drop_last() =~= merged);
        }
    }
}

/// The views of a run of values.
pub open spec fn models<T: View>(items: Seq<T>) -> Seq<T::V> {
    items.map_values(|item: T| item@)
}

/// A stored entry: a value whose view has a key, that can tell whether
/// another entry has the same key, and that can be copied.
pub trait Entry: View + Sized where Self::V: Keyed {
    fn same_key(&self, other: &Self) -> (same: bool)
        ensures
            same == (self@.key() == other@.key()),
    ;

    fn duplicate(&self) -> (copy: Self)
        ensures
            copy@ == self@,
    ;
}

/// The index of the first entry of `table` that has the key of `probe`, or
/// the length of `table` when none has.
pub fn find<E: Entry>(table: &Vec<E>, probe: &E) -> (at: usize) where E::V: Keyed
    ensures
        at == first_index(models(table@), probe@.key()),
{
    let mut at: usize = 0;
    while at < table.len()
        invariant
            at <= table.len(),
            forall|j: int| 0 <= j < at ==> (#[trigger] models(table@)[j]).key() != probe@.key(),
        decreases table.len() - at,
    {
        if table[at].same_key(probe) {
            proof {
                lemma_first_index_is(models(table@), probe@.key(), at as int);
            }
            return at;
        }
        at += 1;
    }
    proof {
        lemma_key_absent(models(table@), probe@.key());
        lemma_first_index(models(table@), probe@.key());
    }
    at
}

/// Adds `entry` to `table`: in the place of the first entry that has its
/// key, or at the end when no entry has it.
pub fn put_entry<E: Entry>(table: &mut Vec<E>, entry: E) where E::V: Keyed
    ensures
        models(final(table)@) == put(models(old(table)@), entry@),
{
    let at = find(table, &entry);
    if at < table.len() {
        table.set(at, entry);
        assert(models(table@) =~= models(old(table)@).update(at as int, entry@));
    } else {
        table.push(entry);
        assert(models(table@) =~= models(old(table)@).push(entry@));
    }
}

/// Adds `entry` to the end of `table` unless some entry has its key.
pub fn put_new_entry<E: Entry>(table: &mut Vec<E>, entry: E) where E::V: Keyed
    ensures
        models(final(table)@) == put_new(models(old(table)@), entry@),
{
    let at = find(table, &entry);
    if at >= table.len() {
        table.push(entry);
        assert(models(table@) =~= models(old(table)@).push(entry@));
    }
}

/// Adds a copy of each entry of `more` to `table` with `put_entry`, in the
/// order of `more`.
pub fn put_entries<E: Entry>(table: &mut Vec<E>, more: &Vec<E>) where E::V: Keyed
    ensures
        models(final(table)@) == put_all(models(old(table)@), models(more@)),
{
    let mut next: usize = 0;
    while next < more.len()
        invariant
            next <= more.len(),
            models(table@) == put_all(models(old(table)@), models(more@).take(next as int)),
        decreases more.len() - next,
    {
        put_entry(table, more[next].duplicate());
        proof {
            let taken = models(more@).take(next + 1);
            assert(taken.drop_last() =~= models(more@).take(next as int));
            assert(taken.last() == more[next as int]@);
        }
        next += 1;
    }
    assert(models(more@).take(more.len() as int) =~= models(more@));
}

/// Adds a copy of each entry of `more` to `table` with `put_new_entry`, in
/// the order of `more`.
pub fn put_new_entries<E: Entry>(table: &mut Vec<E>, more: &Vec<E>) where E::V: Keyed
    ensures
        models(final(table)@) == put_all_new(models(old(table)@), models(more@)),
{
    let mut next: usize = 0;
    while next < more.len()
        invariant
            next <= more.len(),
            models(table@) == put_all_new(models(old(table)@), models(more@).take(next as int)),
        decreases more.len() - next,
    {
        put_new_entry(table, more[next].duplicate());
        proof {
            let taken = models(more@).take(next + 1);
            assert(taken.drop_last() =~= models(more@).take(next as int));
            assert(taken.last() == more[next as int]@);
        }
        next += 1;
    }
    assert(models(more@).take(more.len() as int) =~= models(more@));
}

/// A copy of `table`, entry by entry.
pub fn duplicate_entries<E: Entry>(table: &Vec<E>) -> (copy: Vec<E>) where E::V: Keyed
    ensures
        models(copy@) == models(table@),
{
    let mut copy: Vec<E> = Vec::new();
    let mut next: usize = 0;
    while next < table.len()
        invariant
            next <= table.len(),
            models(copy@) == models(table@).take(next as int),
        decreases table.len() - next,
    {
        let ghost before = models(copy@);
        copy.push(table[next].duplicate());
        assert(models(copy@) =~= before.push(table[next as int]@));
        assert(before.push(table[next as int]@) =~= models(table@).take(next + 1));
        next += 1;
    }
    assert(models(table@).take(table.len() as int) =~= models(table@));
    copy
}

} // verus!
