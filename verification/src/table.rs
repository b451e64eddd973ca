//! Rows that are found again by a textual key: what the cache's tables share.

use vstd::prelude::*;

verus! {

/// A row with a textual key.
pub trait Keyed {
    /// The key this row is stored under.
    spec fn key(&self) -> Seq<char>;

    /// Hands out the key.
    fn key_text(&self) -> (r: &String)
        ensures
            r@ == self.key(),
    ;
}

/// Whether some row has the key `k`.
pub open spec fn has_key<T: Keyed>(rows: Seq<T>, k: Seq<char>) -> bool {
    exists|i: int| 0 <= i < rows.len() && (#[trigger] rows[i]).key() == k
}

/// An index at which a row has the key `k`, where one does.
pub open spec fn position<T: Keyed>(rows: Seq<T>, k: Seq<char>) -> int {
    choose|i: int| 0 <= i < rows.len() && (#[trigger] rows[i]).key() == k
}

/// Whether no two rows share a key.
pub open spec fn distinct_keys<T: Keyed>(rows: Seq<T>) -> bool {
    forall|i: int, j: int|
        0 <= i < j < rows.len() ==> (#[trigger] rows[i]).key() != (#[trigger] rows[j]).key()
}

/// The row with the key `k`, if there is one.
pub open spec fn lookup<T: Keyed>(rows: Seq<T>, k: Seq<char>) -> Option<T> {
    if has_key(rows, k) {
        Some(rows[position(rows, k)])
    } else {
        None
    }
}

/// The rows after `row` is written: in the place of the row with its key,
/// or at the end where no row has it.
pub open spec fn upserted<T: Keyed>(rows: Seq<T>, row: T) -> Seq<T> {
    if has_key(rows, row.key()) {
        rows.update(position(rows, row.key()), row)
    } else {
        rows.push(row)
    }
}

/// Among rows with distinct keys, a row is found at one index only.
pub proof fn lemma_position_unique<T: Keyed>(rows: Seq<T>, i: int)
    requires
        distinct_keys(rows),
        0 <= i < rows.len(),
    ensures
        has_key(rows, rows[i].key()),
        position(rows, rows[i].key()) == i,
        lookup(rows, rows[i].key()) == Some(rows[i]),
{
    let k = rows[i].key();
    let p = position(rows, k);
    assert(0 <= p < rows.len() && rows[p].key() == k);
    if p < i {
        assert(rows[p].key() != rows[i].key());
    } else if i < p {
        assert(rows[i].key() != rows[p].key());
    }
}

/// Writing a row keeps the keys distinct, keeps every other key's row, and
/// leaves the written row under its key.
pub proof fn lemma_upserted<T: Keyed>(rows: Seq<T>, row: T)
    requires
        distinct_keys(rows),
    ensures
        distinct_keys(upserted(rows, row)),
        lookup(upserted(rows, row), row.key()) == Some(row),
        forall|k: Seq<char>| k != row.key() ==> lookup(upserted(rows, row), k) == lookup(rows, k),
        forall|k: Seq<char>|
            has_key(upserted(rows, row), k) <==> (k == row.key() || has_key(rows, k)),
        upserted(rows, row).len() == if has_key(rows, row.key()) {
            rows.len()
        } else {
            rows.len() + 1
        },
        forall|p: int|
            0 <= p < rows.len() ==> (#[trigger] upserted(rows, row)[p]).key() == rows[p].key(),
{
    let after = upserted(rows, row);
    let at: int = if has_key(rows, row.key()) {
        position(rows, row.key())
    } else {
        rows.len() as int
    };
    assert(0 <= at < after.len());
    assert(after[at] == row);
    assert(after.len() >= rows.len());
    assert forall|i: int| 0 <= i < after.len() && i != at implies i < rows.len() && after[i]
        == rows[i] && #[trigger] after[i].key() != row.key() by {
        if has_key(rows, row.key()) {
            lemma_position_unique(rows, i);
        } else {
            assert(i < rows.len());
            assert(rows[i].key() != row.key());
        }
    }
    assert forall|i: int, j: int| 0 <= i < j < after.len() implies (#[trigger] after[i]).key() != (
    #[trigger] after[j]).key() by {
        if i != at && j != at {
            assert(rows[i].key() != rows[j].key());
        }
    }
    lemma_position_unique(after, at);
    assert forall|k: Seq<char>| k != row.key() implies lookup(after, k) == lookup(rows, k) by {
        if has_key(rows, k) {
            let p = position(rows, k);
            assert(p != at);
            assert(after[p] == rows[p]);
            lemma_position_unique(after, p);
        } else if has_key(after, k) {
            let p = position(after, k);
            assert(p != at);
            assert(rows[p].key() == k);
        }
    }
    assert forall|k: Seq<char>| has_key(after, k) <==> (k == row.key() || has_key(rows, k)) by {
        if has_key(rows, k) && k != row.key() {
            let p = position(rows, k);
            assert(after[p].key() == k);
        }
        if has_key(after, k) && k != row.key() {
            let p = position(after, k);
            assert(rows[p].key() == k);
        }
    }
}

/// Writing the same row twice leaves what writing it once leaves.
pub proof fn lemma_upserted_twice<T: Keyed>(rows: Seq<T>, row: T)
    requires
        distinct_keys(rows),
    ensures
        upserted(upserted(rows, row), row) == upserted(rows, row),
{
    let once = upserted(rows, row);
    lemma_upserted(rows, row);
    let p = position(once, row.key());
    assert(once[p].key() == row.key());
    assert(lookup(once, row.key()) == Some(row));
    assert(once.update(p, row) =~= once);
}

/// A row written under a key that is taken leaves one row under that key,
/// not two: the table is as long as before, every row keeps its place, and
/// the key leads to the row written last.
pub proof fn lemma_one_row_per_key<T: Keyed>(rows: Seq<T>, first: T, second: T)
    requires
        distinct_keys(rows),
        first.key() == second.key(),
    ensures
        upserted(upserted(rows, first), second).len() == upserted(rows, first).len(),
        distinct_keys(upserted(upserted(rows, first), second)),
        lookup(upserted(upserted(rows, first), second), first.key()) == Some(second),
        position(upserted(upserted(rows, first), second), first.key()) == position(
            upserted(rows, first),
            first.key(),
        ),
{
    let once = upserted(rows, first);
    lemma_upserted(rows, first);
    lemma_upserted(once, second);
    let twice = upserted(once, second);
    let p = position(once, first.key());
    assert(twice[p] == second);
    lemma_position_unique(twice, p);
}

/// The rows after `writes` are written one after the other.
pub open spec fn upserted_all<T: Keyed>(rows: Seq<T>, writes: Seq<T>) -> Seq<T>
    decreases writes.len(),
{
    if writes.len() == 0 {
        rows
    } else {
        upserted(upserted_all(rows, writes.drop_last()), writes.last())
    }
}

/// The last of `writes` that has the key `k`.
pub open spec fn last_write<T: Keyed>(writes: Seq<T>, k: Seq<char>) -> Option<T>
    decreases writes.len(),
{
    if writes.len() == 0 {
        None
    } else if writes.last().key() == k {
        Some(writes.last())
    } else {
        last_write(writes.drop_last(), k)
    }
}

/// After a run of writes every key holds the last row written under it, or
/// the row it held before; the rows that were there keep their places, and
/// the keys stay distinct.
pub proof fn lemma_upserted_all<T: Keyed>(rows: Seq<T>, writes: Seq<T>)
    requires
        distinct_keys(rows),
    ensures
        distinct_keys(upserted_all(rows, writes)),
        upserted_all(rows, writes).len() >= rows.len(),
        forall|p: int|
            0 <= p < rows.len() ==> (#[trigger] upserted_all(rows, writes)[p]).key()
                == rows[p].key(),
        forall|k: Seq<char>| #[trigger]
            lookup(upserted_all(rows, writes), k) == match last_write(writes, k) {
                Some(w) => Some(w),
                None => lookup(rows, k),
            },
        forall|k: Seq<char>| #[trigger]
            has_key(upserted_all(rows, writes), k) <==> has_key(rows, k) || last_write(writes, k)
                is Some,
    decreases writes.len(),
{
    if writes.len() > 0 {
        let before = upserted_all(rows, writes.drop_last());
        lemma_upserted_all(rows, writes.drop_last());
        lemma_upserted(before, writes.last());
        let out = upserted_all(rows, writes);
        assert forall|p: int| 0 <= p < rows.len() implies (#[trigger] out[p]).key()
            == rows[p].key() by {
            assert(before[p].key() == rows[p].key());
        }
        assert forall|k: Seq<char>| #[trigger]
            lookup(out, k) == match last_write(writes, k) {
                Some(w) => Some(w),
                None => lookup(rows, k),
            } by {
            if k != writes.last().key() {
                assert(lookup(out, k) == lookup(before, k));
            }
        }
        assert forall|k: Seq<char>| #[trigger]
            has_key(out, k) <==> has_key(rows, k) || last_write(writes, k) is Some by {
            assert(has_key(before, k) <==> has_key(rows, k) || last_write(writes.drop_last(), k)
                is Some);
        }
    }
}

/// Writing one run of rows and then another is writing the two runs as one.
pub proof fn lemma_upserted_all_concat<T: Keyed>(rows: Seq<T>, first: Seq<T>, second: Seq<T>)
    ensures
        upserted_all(rows, first + second) == upserted_all(upserted_all(rows, first), second),
    decreases second.len(),
{
    if second.len() == 0 {
        assert(first + second =~= first);
    } else {
        lemma_upserted_all_concat(rows, first, second.drop_last());
        assert((first + second).drop_last() =~= first + second.drop_last());
        assert((first + second).last() == second.last());
    }
}

/// The last row written under a key is one of the rows written, and has
/// that key; where a row with the key is written, there is a last one.
pub proof fn lemma_last_write<T: Keyed>(writes: Seq<T>, k: Seq<char>)
    ensures
        last_write(writes, k) matches Some(w) ==> w.key() == k && writes.contains(w),
        has_key(writes, k) <==> last_write(writes, k) is Some,
    decreases writes.len(),
{
    if writes.len() > 0 {
        let front = writes.drop_last();
        lemma_last_write(front, k);
        if writes.last().key() == k {
            assert(writes[writes.len() - 1] == writes.last());
        } else {
            if last_write(front, k) is Some {
                let w = last_write(front, k)->0;
                let i = choose|i: int| 0 <= i < front.len() && front[i] == w;
                assert(writes[i] == w);
            }
            if has_key(writes, k) {
                let i = choose|i: int| 0 <= i < writes.len() && (#[trigger] writes[i]).key() == k;
                assert(front[i].key() == k);
            }
            if has_key(front, k) {
                let i = choose|i: int| 0 <= i < front.len() && (#[trigger] front[i]).key() == k;
                assert(writes[i].key() == k);
            }
        }
    }
}

/// Two tables are one table where they are equally long, have the same key
/// at every place, and hold the same row under every key.
pub proof fn lemma_same_rows<T: Keyed>(a: Seq<T>, b: Seq<T>)
    requires
        distinct_keys(a),
        distinct_keys(b),
        a.len() == b.len(),
        forall|p: int| 0 <= p < a.len() ==> (#[trigger] a[p]).key() == b[p].key(),
        forall|k: Seq<char>| #[trigger] lookup(a, k) == lookup(b, k),
    ensures
        a == b,
{
    assert forall|p: int| 0 <= p < a.len() implies a[p] == b[p] by {
        lemma_position_unique(a, p);
        lemma_position_unique(b, p);
        assert(lookup(a, a[p].key()) == lookup(b, a[p].key()));
    }
    assert(a =~= b);
}

/// Writing a run of rows a second time changes nothing.
pub proof fn lemma_upserted_all_twice<T: Keyed>(rows: Seq<T>, writes: Seq<T>)
    requires
        distinct_keys(rows),
    ensures
        upserted_all(upserted_all(rows, writes), writes) == upserted_all(rows, writes),
{
    let once = upserted_all(rows, writes);
    let twice = upserted_all(once, writes);
    lemma_upserted_all(rows, writes);
    lemma_upserted_all(once, writes);
    if twice.len() > once.len() {
        let extra = twice[once.len() as int];
        let k = extra.key();
        assert(has_key(twice, k));
        assert(has_key(once, k));
        let p = position(once, k);
        assert(twice[p].key() == once[p].key());
        assert(twice[p].key() != twice[once.len() as int].key());
    }
    assert forall|k: Seq<char>| #[trigger] lookup(once, k) == lookup(twice, k) by {
        assert(lookup(twice, k) == match last_write(writes, k) {
            Some(w) => Some(w),
            None => lookup(once, k),
        });
        assert(lookup(once, k) == match last_write(writes, k) {
            Some(w) => Some(w),
            None => lookup(rows, k),
        });
    }
    lemma_same_rows(once, twice);
}

/// Finds the row with the key `k`.
pub fn find<T: Keyed>(rows: &Vec<T>, k: &String) -> (r: Option<usize>)
    requires
        distinct_keys(rows@),
    ensures
        r is Some == has_key(rows@, k@),
        r matches Some(i) ==> i < rows.len() && i == position(rows@, k@) && rows@[i as int].key()
            == k@,
{
    let mut i: usize = 0;
    while i < rows.len()
        invariant
            i <= rows.len(),
            distinct_keys(rows@),
            forall|j: int| 0 <= j < i ==> (#[trigger] rows@[j]).key() != k@,
        decreases rows.len() - i,
    {
        if *rows[i].key_text() == *k {
            proof {
                lemma_position_unique(rows@, i as int);
            }
            return Some(i);
        }
        i += 1;
    }
    None
}

/// Writes a row: over the row with its key, or at the end.
pub fn upsert<T: Keyed>(rows: &mut Vec<T>, row: T)
    requires
        distinct_keys(old(rows)@),
    ensures
        final(rows)@ == upserted(old(rows)@, row),
        distinct_keys(final(rows)@),
{
    proof {
        lemma_upserted(rows@, row);
    }
    match find(rows, row.key_text()) {
        Some(i) => {
            rows[i] = row;
        },
        None => {
            rows.push(row);
        },
    }
}

} // verus!
