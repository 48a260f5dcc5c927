//! Sequences of rows: looking a row up, and keys that occur once.

use vstd::prelude::*;

verus! {

/// The first row that is wanted, if there is one.
pub open spec fn first_match<A>(rows: Seq<A>, wanted: spec_fn(A) -> bool) -> Option<A>
    decreases rows.len(),
{
    if rows.len() == 0 {
        None
    } else {
        match first_match(rows.drop_last(), wanted) {
            Some(row) => Some(row),
            None => if wanted(rows.last()) {
                Some(rows.last())
            } else {
                None
            },
        }
    }
}

/// The place of the first row that is wanted, or the number of rows if
/// there is none.
pub open spec fn first_index<A>(rows: Seq<A>, wanted: spec_fn(A) -> bool) -> int
    decreases rows.len(),
{
    if rows.len() == 0 {
        0
    } else {
        let before = first_index(rows.drop_last(), wanted);
        if before < rows.len() - 1 {
            before
        } else if wanted(rows.last()) {
            rows.len() - 1
        } else {
            rows.len() as int
        }
    }
}

/// No two rows have the same key.
pub open spec fn distinct_by<A, K>(rows: Seq<A>, key: spec_fn(A) -> K) -> bool {
    forall|i: int, j: int|
        #![trigger rows[i], rows[j]]
        0 <= i < j < rows.len() ==> key(rows[i]) != key(rows[j])
}

/// No key occurs twice.
pub open spec fn no_repeats<K>(keys: Seq<K>) -> bool {
    forall|i: int, j: int| 0 <= i < j < keys.len() ==> keys[i] != keys[j]
}

/// The rows have distinct keys exactly when their keys, listed one for
/// one, hold no key twice.
pub proof fn lemma_distinct_by_keys<A, K>(rows: Seq<A>, key: spec_fn(A) -> K, keys: Seq<K>)
    requires
        keys.len() == rows.len(),
        forall|i: int| 0 <= i < rows.len() ==> keys[i] == key(#[trigger] rows[i]),
    ensures
        distinct_by(rows, key) == no_repeats(keys),
{
    if no_repeats(keys) {
        assert forall|i: int, j: int| 0 <= i < j < rows.len() implies key(rows[i]) != key(
            rows[j],
        ) by {
            assert(keys[i] != keys[j]);
        }
    }
    if distinct_by(rows, key) {
        assert forall|i: int, j: int| 0 <= i < j < keys.len() implies keys[i] != keys[j] by {
            assert(key(rows[i]) != key(rows[j]));
        }
    }
}

/// What `first_index` is: the least place that holds a wanted row.
pub proof fn lemma_first_index<A>(rows: Seq<A>, wanted: spec_fn(A) -> bool)
    ensures
        0 <= first_index(rows, wanted) <= rows.len(),
        forall|i: int| 0 <= i < first_index(rows, wanted) ==> !wanted(#[trigger] rows[i]),
        first_index(rows, wanted) < rows.len() ==> wanted(rows[first_index(rows, wanted)]),
        first_match(rows, wanted) == if first_index(rows, wanted) < rows.len() {
            Some(rows[first_index(rows, wanted)])
        } else {
            None
        },
    decreases rows.len(),
{
    if rows.len() > 0 {
        let init = rows.drop_last();
        lemma_first_index(init, wanted);
        assert(forall|i: int| 0 <= i < init.len() ==> init[i] == rows[i]);
    }
}

/// A place that holds a wanted row, with none before it, is the first index.
pub proof fn lemma_first_index_is<A>(rows: Seq<A>, wanted: spec_fn(A) -> bool, at: int)
    requires
        0 <= at <= rows.len(),
        forall|i: int| 0 <= i < at ==> !wanted(#[trigger] rows[i]),
        at < rows.len() ==> wanted(rows[at]),
    ensures
        first_index(rows, wanted) == at,
        first_match(rows, wanted) == if at < rows.len() {
            Some(rows[at])
        } else {
            None
        },
{
    lemma_first_index(rows, wanted);
    let found = first_index(rows, wanted);
    if found < at {
        assert(!wanted(rows[found]));
    } else if at < found {
        assert(!wanted(rows[at]));
    }
}

/// Adding a row with a new key keeps the keys distinct.
pub proof fn lemma_distinct_push<A, K>(rows: Seq<A>, key: spec_fn(A) -> K, row: A)
    requires
        distinct_by(rows, key),
        forall|i: int| 0 <= i < rows.len() ==> key(#[trigger] rows[i]) != key(row),
    ensures
        distinct_by(rows.push(row), key),
{
    let grown = rows.push(row);
    assert forall|i: int, j: int| 0 <= i < j < grown.len() implies key(grown[i]) != key(
        grown[j],
    ) by {
        if j < rows.len() {
            assert(key(rows[i]) != key(rows[j]));
        } else {
            assert(key(rows[i]) != key(row));
        }
    }
}

/// Replacing a row by one whose key no other row has keeps the keys
/// distinct.
pub proof fn lemma_distinct_update<A, K>(rows: Seq<A>, key: spec_fn(A) -> K, at: int, row: A)
    requires
        distinct_by(rows, key),
        0 <= at < rows.len(),
        forall|i: int| 0 <= i < rows.len() && i != at ==> key(#[trigger] rows[i]) != key(row),
    ensures
        distinct_by(rows.update(at, row), key),
{
    let changed = rows.update(at, row);
    assert forall|i: int, j: int| 0 <= i < j < changed.len() implies key(changed[i]) != key(
        changed[j],
    ) by {
        if i == at {
            assert(key(rows[j]) != key(row));
        } else if j == at {
            assert(key(rows[i]) != key(row));
        } else {
            assert(key(rows[i]) != key(rows[j]));
        }
    }
}

/// Where keys are distinct, every other row has another key than the row
/// at `at`.
pub proof fn lemma_distinct_from_others<A, K>(rows: Seq<A>, key: spec_fn(A) -> K, at: int)
    requires
        distinct_by(rows, key),
        0 <= at < rows.len(),
    ensures
        forall|i: int| 0 <= i < rows.len() && i != at ==> key(#[trigger] rows[i]) != key(rows[at]),
{
    assert forall|i: int| 0 <= i < rows.len() && i != at implies key(#[trigger] rows[i]) != key(
        rows[at],
    ) by {
        if i < at {
            assert(key(rows[i]) != key(rows[at]));
        } else {
            assert(key(rows[at]) != key(rows[i]));
        }
    }
}

/// Replacing a row by one with the same key keeps the keys distinct.
pub proof fn lemma_distinct_replace<A, K>(rows: Seq<A>, key: spec_fn(A) -> K, at: int, row: A)
    requires
        distinct_by(rows, key),
        0 <= at < rows.len(),
        key(row) == key(rows[at]),
    ensures
        distinct_by(rows.update(at, row), key),
{
    lemma_distinct_from_others(rows, key, at);
    lemma_distinct_update(rows, key, at, row);
}

/// Taking a row out keeps the keys distinct.
pub proof fn lemma_distinct_remove<A, K>(rows: Seq<A>, key: spec_fn(A) -> K, at: int)
    requires
        distinct_by(rows, key),
        0 <= at < rows.len(),
    ensures
        distinct_by(rows.remove(at), key),
        forall|i: int|
            0 <= i < rows.remove(at).len() ==> key(#[trigger] rows.remove(at)[i]) != key(rows[at]),
{
    let rest = rows.remove(at);
    assert forall|i: int, j: int| 0 <= i < j < rest.len() implies key(rest[i]) != key(rest[j]) by {
        let a = if i < at {
            i
        } else {
            i + 1
        };
        let b = if j < at {
            j
        } else {
            j + 1
        };
        assert(rest[i] == rows[a] && rest[j] == rows[b]);
        assert(key(rows[a]) != key(rows[b]));
    }
    assert forall|i: int| 0 <= i < rest.len() implies key(#[trigger] rest[i]) != key(rows[at]) by {
        let a = if i < at {
            i
        } else {
            i + 1
        };
        assert(rest[i] == rows[a]);
        if a < at {
            assert(key(rows[a]) != key(rows[at]));
        } else {
            assert(key(rows[at]) != key(rows[a]));
        }
    }
}

/// The rows that are kept, in their order.
pub open spec fn kept<A>(rows: Seq<A>, keep: spec_fn(A) -> bool) -> Seq<A>
    decreases rows.len(),
{
    if rows.len() == 0 {
        Seq::empty()
    } else if keep(rows.last()) {
        kept(rows.drop_last(), keep).push(rows.last())
    } else {
        kept(rows.drop_last(), keep)
    }
}

/// What `kept` holds: exactly the rows to keep, each from the given rows,
/// in the order in which they stood.
pub proof fn lemma_kept<A>(rows: Seq<A>, keep: spec_fn(A) -> bool)
    ensures
        kept(rows, keep).len() <= rows.len(),
        forall|i: int| 0 <= i < kept(rows, keep).len() ==> keep(#[trigger] kept(rows, keep)[i]),
        forall|i: int|
            0 <= i < kept(rows, keep).len() ==> rows.contains(#[trigger] kept(rows, keep)[i]),
        forall|i: int|
            0 <= i < rows.len() && keep(rows[i]) ==> kept(rows, keep).contains(#[trigger] rows[i]),
    decreases rows.len(),
{
    if rows.len() > 0 {
        let init = rows.drop_last();
        lemma_kept(init, keep);
        let out = kept(rows, keep);
        let before = kept(init, keep);
        assert forall|i: int| 0 <= i < out.len() implies rows.contains(#[trigger] out[i]) by {
            if i < before.len() {
                assert(init.contains(before[i]));
                let j = choose|j: int| 0 <= j < init.len() && init[j] == before[i];
                assert(rows[j] == before[i]);
            } else {
                assert(rows[rows.len() - 1] == out[i]);
            }
        }
        assert forall|i: int| 0 <= i < rows.len() && keep(rows[i]) implies out.contains(
            #[trigger] rows[i],
        ) by {
            if i < init.len() {
                assert(init[i] == rows[i]);
                assert(before.contains(init[i]));
                let j = choose|j: int| 0 <= j < before.len() && before[j] == init[i];
                assert(out[j] == rows[i]);
            } else {
                assert(out[out.len() - 1] == rows[i]);
            }
        }
    }
}

/// Where every row is to be kept, all are kept.
pub proof fn lemma_kept_all<A>(rows: Seq<A>, keep: spec_fn(A) -> bool)
    requires
        forall|i: int| 0 <= i < rows.len() ==> keep(#[trigger] rows[i]),
    ensures
        kept(rows, keep) == rows,
    decreases rows.len(),
{
    if rows.len() > 0 {
        let init = rows.drop_last();
        assert forall|i: int| 0 <= i < init.len() implies keep(#[trigger] init[i]) by {
            assert(init[i] == rows[i]);
        }
        lemma_kept_all(init, keep);
        assert(keep(rows[rows.len() - 1]));
        assert(init.push(rows.last()) =~= rows);
    } else {
        assert(rows =~= Seq::<A>::empty());
    }
}

/// Where every row but one is to be kept, that one is taken out.
pub proof fn lemma_kept_all_but<A>(rows: Seq<A>, keep: spec_fn(A) -> bool, at: int)
    requires
        0 <= at < rows.len(),
        !keep(rows[at]),
        forall|i: int| 0 <= i < rows.len() && i != at ==> keep(#[trigger] rows[i]),
    ensures
        kept(rows, keep) == rows.remove(at),
    decreases rows.len(),
{
    let init = rows.drop_last();
    if at == rows.len() - 1 {
        assert forall|i: int| 0 <= i < init.len() implies keep(#[trigger] init[i]) by {
            assert(init[i] == rows[i]);
        }
        lemma_kept_all(init, keep);
        assert(rows.remove(at) =~= init);
    } else {
        assert forall|i: int| 0 <= i < init.len() && i != at implies keep(#[trigger] init[i]) by {
            assert(init[i] == rows[i]);
        }
        assert(init[at] == rows[at]);
        lemma_kept_all_but(init, keep, at);
        assert(keep(rows[rows.len() - 1]));
        assert(init.remove(at).push(rows.last()) =~= rows.remove(at));
    }
}

/// Keeping some of the rows keeps their keys distinct.
pub proof fn lemma_kept_distinct<A, K>(
    rows: Seq<A>,
    keep: spec_fn(A) -> bool,
    key: spec_fn(A) -> K,
)
    requires
        distinct_by(rows, key),
    ensures
        distinct_by(kept(rows, keep), key),
    decreases rows.len(),
{
    if rows.len() > 0 {
        let init = rows.drop_last();
        assert(distinct_by(init, key)) by {
            assert forall|i: int, j: int| 0 <= i < j < init.len() implies key(init[i]) != key(
                init[j],
            ) by {
                assert(key(rows[i]) != key(rows[j]));
            }
        }
        lemma_kept_distinct(init, keep, key);
        if keep(rows.last()) {
            lemma_kept(init, keep);
            let before = kept(init, keep);
            assert forall|i: int| 0 <= i < before.len() implies key(#[trigger] before[i]) != key(
                rows.last(),
            ) by {
                assert(init.contains(before[i]));
                let j = choose|j: int| 0 <= j < init.len() && init[j] == before[i];
                assert(key(rows[j]) != key(rows[rows.len() - 1]));
            }
            lemma_distinct_push(before, key, rows.last());
        }
    }
}

/// `row` put into `sorted` behind every row that it does not stand before:
/// at the place of the first row that it stands before.
pub open spec fn insert_ordered<A>(sorted: Seq<A>, row: A, before: spec_fn(A, A) -> bool) -> Seq<
    A,
> {
    sorted.insert(first_index(sorted, |other: A| before(row, other)), row)
}

/// Where `row` stands before the row at `at` and before none of the rows
/// ahead of it, it is put at `at`.
pub proof fn lemma_insert_at<A>(sorted: Seq<A>, row: A, before: spec_fn(A, A) -> bool, at: int)
    requires
        0 <= at <= sorted.len(),
        forall|i: int| 0 <= i < at ==> !before(row, #[trigger] sorted[i]),
        at < sorted.len() ==> before(row, sorted[at]),
    ensures
        insert_ordered(sorted, row, before) == sorted.insert(at, row),
{
    let wanted = |other: A| before(row, other);
    lemma_first_index_is(sorted, wanted, at);
}

/// The rows in the order that `before` gives; rows of which neither stands
/// before the other keep the order in which they stood.
pub open spec fn ordered<A>(rows: Seq<A>, before: spec_fn(A, A) -> bool) -> Seq<A>
    decreases rows.len(),
{
    if rows.len() == 0 {
        Seq::empty()
    } else {
        insert_ordered(ordered(rows.drop_last(), before), rows.last(), before)
    }
}

/// No row stands before one that precedes it.
pub open spec fn in_order<A>(rows: Seq<A>, before: spec_fn(A, A) -> bool) -> bool {
    forall|i: int, j: int|
        #![trigger rows[i], rows[j]]
        0 <= i < j < rows.len() ==> !before(rows[j], rows[i])
}

/// `before` is a strict weak order: no two rows stand before each other,
/// and "does not stand before" is transitive.
pub open spec fn strict_weak<A>(before: spec_fn(A, A) -> bool) -> bool {
    &&& forall|a: A, b: A| #[trigger] before(a, b) ==> !before(b, a)
    &&& forall|a: A, b: A, c: A|
        !#[trigger] before(a, b) && !#[trigger] before(b, c) ==> !before(a, c)
}

/// Putting a row into rows that are in order leaves them in order, and adds
/// that row and nothing else.
pub proof fn lemma_insert_ordered<A>(sorted: Seq<A>, row: A, before: spec_fn(A, A) -> bool)
    requires
        strict_weak(before),
        in_order(sorted, before),
    ensures
        in_order(insert_ordered(sorted, row, before), before),
        insert_ordered(sorted, row, before).to_multiset() == sorted.to_multiset().insert(row),
        insert_ordered(sorted, row, before).len() == sorted.len() + 1,
{
    let wanted = |other: A| before(row, other);
    lemma_first_index(sorted, wanted);
    let at = first_index(sorted, wanted);
    let out = insert_ordered(sorted, row, before);
    assert forall|i: int, j: int| 0 <= i < j < out.len() implies !before(out[j], out[i]) by {
        if j < at {
            assert(out[i] == sorted[i] && out[j] == sorted[j]);
        } else if j == at {
            assert(out[i] == sorted[i]);
            assert(!wanted(sorted[i]));
        } else if i < at {
            assert(out[i] == sorted[i] && out[j] == sorted[j - 1]);
        } else if i == at {
            assert(out[j] == sorted[j - 1]);
            assert(wanted(sorted[at]));
            assert(!before(sorted[at], row));
            if j - 1 > at {
                assert(!before(sorted[j - 1], sorted[at]));
            }
        } else {
            assert(out[i] == sorted[i - 1] && out[j] == sorted[j - 1]);
        }
    }
    lemma_insert_multiset(sorted, at, row);
}

/// The rows in the order that a strict weak order gives are in order, and
/// are the given rows, each as often as it was given.
pub proof fn lemma_ordered<A>(rows: Seq<A>, before: spec_fn(A, A) -> bool)
    requires
        strict_weak(before),
    ensures
        in_order(ordered(rows, before), before),
        ordered(rows, before).to_multiset() == rows.to_multiset(),
        ordered(rows, before).len() == rows.len(),
    decreases rows.len(),
{
    broadcast use vstd::seq_lib::group_to_multiset_ensures;

    if rows.len() > 0 {
        let init = rows.drop_last();
        lemma_ordered(init, before);
        lemma_insert_ordered(ordered(init, before), rows.last(), before);
        assert(rows =~= init.push(rows.last()));
    } else {
        assert(rows =~= Seq::<A>::empty());
    }
}

/// The rows of an insertion: those before the place, the row, those after.
proof fn lemma_insert_multiset<A>(rows: Seq<A>, at: int, row: A)
    requires
        0 <= at <= rows.len(),
    ensures
        rows.insert(at, row).to_multiset() == rows.to_multiset().insert(row),
{
    broadcast use vstd::seq_lib::group_to_multiset_ensures;

    let left = rows.subrange(0, at);
    let right = rows.subrange(at, rows.len() as int);
    assert(rows =~= left + right);
    assert(rows.insert(at, row) =~= left.push(row) + right);
    vstd::seq_lib::lemma_multiset_commutative(left, right);
    vstd::seq_lib::lemma_multiset_commutative(left.push(row), right);
    assert(left.push(row).to_multiset() =~= left.to_multiset().insert(row));
    assert(rows.insert(at, row).to_multiset() =~= rows.to_multiset().insert(row));
}

} // verus!
