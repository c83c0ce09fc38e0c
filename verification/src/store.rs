//! The keyed in-memory entity store: one ordered family per entity kind,
//! each a sequence sorted by identifier in code-point (equivalently UTF-8
//! byte) order, with cursored pagination over it.

use vstd::prelude::*;

use crate::agent::{trust_store_wf, Agent};
use crate::fragment::Fragment;
use crate::relation::Relation;
use crate::tag::Tag;
use crate::text::{
    chars_lt, lemma_chars_lt_transitive, lemma_chars_lt_trichotomy, lower_of, spec_contains_sub,
    str_contains, str_eq, str_lt, unicode_lowercase,
};
use crate::transform::Transform;

verus! {

/// Entities stored under their own identifier.
pub trait HasUuid {
    /// The identifier in the mathematical world.
    spec fn spec_uuid(&self) -> Seq<char>;

    /// The identifier.
    fn uuid(&self) -> (r: &str)
        ensures
            r@ == self.spec_uuid(),
    ;
}

/// The family's keys are strictly increasing: sorted and duplicate-free.
pub open spec fn keys_sorted<T: HasUuid>(items: Seq<T>) -> bool {
    forall|i: int, j: int|
        0 <= i < j < items.len() ==> chars_lt(
            (#[trigger] items[i]).spec_uuid(),
            (#[trigger] items[j]).spec_uuid(),
        )
}

/// No two items share a key.
pub open spec fn keys_nodup<T: HasUuid>(items: Seq<T>) -> bool {
    forall|i: int, j: int|
        0 <= i < j < items.len() ==> (#[trigger] items[i]).spec_uuid() != (
        #[trigger] items[j]).spec_uuid()
}

/// Sorted families have no duplicate keys.
pub proof fn lemma_sorted_nodup<T: HasUuid>(items: Seq<T>)
    requires
        keys_sorted(items),
    ensures
        keys_nodup(items),
{
    assert forall|i: int, j: int|
        0 <= i < j < items.len() implies (#[trigger] items[i]).spec_uuid() != (
    #[trigger] items[j]).spec_uuid() by {
        lemma_chars_lt_trichotomy(items[i].spec_uuid(), items[j].spec_uuid());
    }
}

/// Whether some item carries the key.
pub open spec fn spec_has_key<T: HasUuid>(items: Seq<T>, key: Seq<char>) -> bool {
    exists|i: int| 0 <= i < items.len() && (#[trigger] items[i]).spec_uuid() == key
}

/// The first item carrying the key, if any.
pub open spec fn spec_get<T: HasUuid>(items: Seq<T>, key: Seq<char>) -> Option<T>
    decreases items.len(),
{
    if items.len() == 0 {
        None
    } else if items[0].spec_uuid() == key {
        Some(items[0])
    } else {
        spec_get(items.drop_first(), key)
    }
}

/// A found item means the key is present, and conversely.
pub proof fn lemma_get_has_key<T: HasUuid>(items: Seq<T>, key: Seq<char>)
    ensures
        spec_get(items, key) is Some <==> spec_has_key(items, key),
        match spec_get(items, key) {
            Some(t) => t.spec_uuid() == key && exists|i: int|
                0 <= i < items.len() && items[i] == t,
            None => true,
        },
    decreases items.len(),
{
    if items.len() > 0 {
        lemma_get_has_key(items.drop_first(), key);
        if items[0].spec_uuid() != key {
            if spec_has_key(items, key) {
                let i = choose|i: int|
                    0 <= i < items.len() && (#[trigger] items[i]).spec_uuid() == key;
                assert(items.drop_first()[i - 1] == items[i]);
                assert(spec_has_key(items.drop_first(), key));
            }
            if spec_has_key(items.drop_first(), key) {
                let i = choose|i: int|
                    0 <= i < items.drop_first().len() && (
                    #[trigger] items.drop_first()[i]).spec_uuid() == key;
                assert(items[i + 1] == items.drop_first()[i]);
            }
            match spec_get(items.drop_first(), key) {
                Some(t) => {
                    let i = choose|i: int|
                        0 <= i < items.drop_first().len() && items.drop_first()[i] == t;
                    assert(items[i + 1] == t);
                },
                None => {},
            }
        }
    }
}

/// The family after writing an item: it replaces the first item with the
/// same key, or is inserted before the first larger one.
pub open spec fn spec_put<T: HasUuid>(items: Seq<T>, item: T) -> Seq<T>
    decreases items.len(),
{
    if items.len() == 0 {
        seq![item]
    } else if chars_lt(items[0].spec_uuid(), item.spec_uuid()) {
        seq![items[0]] + spec_put(items.drop_first(), item)
    } else if items[0].spec_uuid() == item.spec_uuid() {
        seq![item] + items.drop_first()
    } else {
        seq![item] + items
    }
}

/// Reading back the key just written yields the item written; other keys
/// are untouched.
pub proof fn lemma_put_get<T: HasUuid>(items: Seq<T>, item: T, key: Seq<char>)
    ensures
        spec_get(spec_put(items, item), item.spec_uuid()) == Some(item),
        key != item.spec_uuid() ==> spec_get(spec_put(items, item), key) == spec_get(items, key),
    decreases items.len(),
{
    if items.len() == 0 {
        if key != item.spec_uuid() {
            assert(spec_put(items, item) =~= seq![item]);
            assert(spec_get(seq![item], key) == spec_get(seq![item].drop_first(), key));
            assert(seq![item].drop_first().len() == 0);
        }
    } else {
        lemma_put_get(items.drop_first(), item, key);
        let put = spec_put(items, item);
        if chars_lt(items[0].spec_uuid(), item.spec_uuid()) {
            assert(put[0] == items[0]);
            assert(put.drop_first() =~= spec_put(items.drop_first(), item));
            lemma_chars_lt_trichotomy(items[0].spec_uuid(), item.spec_uuid());
            if key != item.spec_uuid() {
                if items[0].spec_uuid() == key {
                    assert(spec_get(put, key) == Some(items[0]));
                    assert(spec_get(items, key) == Some(items[0]));
                } else {
                    assert(spec_get(put, key) == spec_get(put.drop_first(), key));
                    assert(spec_get(items, key) == spec_get(items.drop_first(), key));
                }
            }
        } else if items[0].spec_uuid() == item.spec_uuid() {
            assert(put =~= seq![item] + items.drop_first());
            assert((seq![item] + items.drop_first()).drop_first() =~= items.drop_first());
            if key != item.spec_uuid() {
                assert(spec_get(put, key) == spec_get(items.drop_first(), key));
                assert(spec_get(items, key) == spec_get(items.drop_first(), key));
            }
        } else {
            assert(put =~= seq![item] + items);
            assert((seq![item] + items).drop_first() =~= items);
            if key != item.spec_uuid() {
                assert(spec_get(put, key) == spec_get(items, key));
            }
        }
    }
}

/// Writing keeps the family's keys strictly increasing.
pub proof fn lemma_put_sorted<T: HasUuid>(items: Seq<T>, item: T)
    requires
        keys_sorted(items),
    ensures
        keys_sorted(spec_put(items, item)),
        spec_put(items, item).len() == if spec_has_key(items, item.spec_uuid()) {
            items.len()
        } else {
            items.len() + 1
        },
        forall|k: int|
            0 <= k < spec_put(items, item).len() ==> ((#[trigger] spec_put(items, item)[k])
                == item || exists|j: int| 0 <= j < items.len() && items[j] == spec_put(
                items,
                item,
            )[k]),
    decreases items.len(),
{
    let put = spec_put(items, item);
    if items.len() == 0 {
        assert(put =~= seq![item]);
    } else if chars_lt(items[0].spec_uuid(), item.spec_uuid()) {
        assert(keys_sorted(items.drop_first())) by {
            assert forall|i: int, j: int|
                0 <= i < j < items.drop_first().len() implies chars_lt(
                (#[trigger] items.drop_first()[i]).spec_uuid(),
                (#[trigger] items.drop_first()[j]).spec_uuid(),
            ) by {
                assert(items.drop_first()[i] == items[i + 1]);
                assert(items.drop_first()[j] == items[j + 1]);
            }
        }
        lemma_put_sorted(items.drop_first(), item);
        let sub = spec_put(items.drop_first(), item);
        assert(put =~= seq![items[0]] + sub);
        // the head is below every element of the written tail
        assert forall|k: int| 0 <= k < sub.len() implies chars_lt(
            items[0].spec_uuid(),
            (#[trigger] sub[k]).spec_uuid(),
        ) by {
            if sub[k] == item {
            } else {
                let j = choose|j: int|
                    0 <= j < items.drop_first().len() && items.drop_first()[j] == sub[k];
                assert(items[j + 1] == sub[k]);
            }
        }
        assert forall|i: int, j: int| 0 <= i < j < put.len() implies chars_lt(
            (#[trigger] put[i]).spec_uuid(),
            (#[trigger] put[j]).spec_uuid(),
        ) by {
            if i > 0 {
                assert(put[i] == sub[i - 1]);
                assert(put[j] == sub[j - 1]);
            } else {
                assert(put[j] == sub[j - 1]);
            }
        }
        // membership in the whole
        assert forall|k: int| 0 <= k < put.len() implies ((#[trigger] put[k]) == item || exists|
            j: int,
        | 0 <= j < items.len() && items[j] == put[k]) by {
            if k == 0 {
                assert(items[0] == put[0]);
            } else {
                assert(put[k] == sub[k - 1]);
                if sub[k - 1] != item {
                    let j = choose|j: int|
                        0 <= j < items.drop_first().len() && items.drop_first()[j] == sub[k - 1];
                    assert(items[j + 1] == put[k]);
                }
            }
        }
        if spec_has_key(items, item.spec_uuid()) {
            let i = choose|i: int|
                0 <= i < items.len() && (#[trigger] items[i]).spec_uuid() == item.spec_uuid();
            lemma_chars_lt_trichotomy(items[0].spec_uuid(), item.spec_uuid());
            assert(i > 0);
            assert(items.drop_first()[i - 1] == items[i]);
            assert(spec_has_key(items.drop_first(), item.spec_uuid()));
        }
        if spec_has_key(items.drop_first(), item.spec_uuid()) {
            let i = choose|i: int|
                0 <= i < items.drop_first().len() && (
                #[trigger] items.drop_first()[i]).spec_uuid() == item.spec_uuid();
            assert(items[i + 1] == items.drop_first()[i]);
            assert(spec_has_key(items, item.spec_uuid()));
        }
    } else if items[0].spec_uuid() == item.spec_uuid() {
        assert(put =~= seq![item] + items.drop_first());
        assert forall|i: int, j: int| 0 <= i < j < put.len() implies chars_lt(
            (#[trigger] put[i]).spec_uuid(),
            (#[trigger] put[j]).spec_uuid(),
        ) by {
            assert(put[j] == items[j]);
            if i > 0 {
                assert(put[i] == items[i]);
            }
        }
        assert forall|k: int| 0 <= k < put.len() implies ((#[trigger] put[k]) == item || exists|
            j: int,
        | 0 <= j < items.len() && items[j] == put[k]) by {
            if k > 0 {
                assert(items[k] == put[k]);
            }
        }
        assert(spec_has_key(items, item.spec_uuid()));
    } else {
        lemma_chars_lt_trichotomy(items[0].spec_uuid(), item.spec_uuid());
        assert(put =~= seq![item] + items);
        assert forall|i: int, j: int| 0 <= i < j < put.len() implies chars_lt(
            (#[trigger] put[i]).spec_uuid(),
            (#[trigger] put[j]).spec_uuid(),
        ) by {
            assert(put[j] == items[j - 1]);
            if i > 0 {
                assert(put[i] == items[i - 1]);
            } else {
                if j - 1 > 0 {
                    lemma_chars_lt_transitive(
                        item.spec_uuid(),
                        items[0].spec_uuid(),
                        items[j - 1].spec_uuid(),
                    );
                }
            }
        }
        assert forall|k: int| 0 <= k < put.len() implies ((#[trigger] put[k]) == item || exists|
            j: int,
        | 0 <= j < items.len() && items[j] == put[k]) by {
            if k > 0 {
                assert(items[k - 1] == put[k]);
            }
        }
        if spec_has_key(items, item.spec_uuid()) {
            let i = choose|i: int|
                0 <= i < items.len() && (#[trigger] items[i]).spec_uuid() == item.spec_uuid();
            if i > 0 {
                assert(chars_lt(items[0].spec_uuid(), items[i].spec_uuid()));
            }
            assert(false);
        }
    }
}

/// The family after deleting a key: the first item carrying it is removed.
pub open spec fn spec_delete<T: HasUuid>(items: Seq<T>, key: Seq<char>) -> Seq<T>
    decreases items.len(),
{
    if items.len() == 0 {
        items
    } else if items[0].spec_uuid() == key {
        items.drop_first()
    } else {
        seq![items[0]] + spec_delete(items.drop_first(), key)
    }
}

/// Deletion removes the key (when keys are unique) and touches no other.
pub proof fn lemma_delete_get<T: HasUuid>(items: Seq<T>, key: Seq<char>, other: Seq<char>)
    requires
        keys_nodup(items),
    ensures
        spec_get(spec_delete(items, key), key) is None,
        other != key ==> spec_get(spec_delete(items, key), other) == spec_get(items, other),
        keys_nodup(spec_delete(items, key)),
        spec_delete(items, key).len() == if spec_has_key(items, key) {
            items.len() - 1
        } else {
            items.len() as int
        },
    decreases items.len(),
{
    if items.len() > 0 {
        let rest = items.drop_first();
        assert(keys_nodup(rest)) by {
            assert forall|i: int, j: int|
                0 <= i < j < rest.len() implies (#[trigger] rest[i]).spec_uuid() != (
            #[trigger] rest[j]).spec_uuid() by {
                assert(rest[i] == items[i + 1]);
                assert(rest[j] == items[j + 1]);
            }
        }
        lemma_delete_get(rest, key, other);
        if items[0].spec_uuid() == key {
            // the head was the only carrier of the key
            lemma_get_has_key(rest, key);
            if spec_has_key(rest, key) {
                let i = choose|i: int|
                    0 <= i < rest.len() && (#[trigger] rest[i]).spec_uuid() == key;
                assert(items[i + 1] == rest[i]);
                assert(false);
            }
            assert(spec_has_key(items, key));
        } else {
            let del = spec_delete(items, key);
            assert(del =~= seq![items[0]] + spec_delete(rest, key));
            assert(del[0] == items[0]);
            assert(del.drop_first() =~= spec_delete(rest, key));
            assert(keys_nodup(del)) by {
                assert forall|i: int, j: int|
                    0 <= i < j < del.len() implies (#[trigger] del[i]).spec_uuid() != (
                #[trigger] del[j]).spec_uuid() by {
                    if i > 0 {
                        lemma_delete_membership(rest, key, i - 1);
                        lemma_delete_membership(rest, key, j - 1);
                    } else {
                        lemma_delete_membership(rest, key, j - 1);
                    }
                }
            }
            if spec_has_key(items, key) {
                let i = choose|i: int|
                    0 <= i < items.len() && (#[trigger] items[i]).spec_uuid() == key;
                assert(rest[i - 1] == items[i]);
                assert(spec_has_key(rest, key));
            }
            if spec_has_key(rest, key) {
                let i = choose|i: int|
                    0 <= i < rest.len() && (#[trigger] rest[i]).spec_uuid() == key;
                assert(items[i + 1] == rest[i]);
                assert(spec_has_key(items, key));
            }
        }
    }
}

/// Every element of a deletion's result came from the input.
proof fn lemma_delete_membership<T: HasUuid>(items: Seq<T>, key: Seq<char>, k: int)
    requires
        0 <= k < spec_delete(items, key).len(),
    ensures
        exists|j: int| 0 <= j < items.len() && items[j] == spec_delete(items, key)[k],
    decreases items.len(),
{
    if items.len() > 0 {
        if items[0].spec_uuid() == key {
            assert(items[k + 1] == items.drop_first()[k]);
        } else {
            let del = spec_delete(items, key);
            assert(del =~= seq![items[0]] + spec_delete(items.drop_first(), key));
            if k == 0 {
                assert(items[0] == del[0]);
            } else {
                lemma_delete_membership(items.drop_first(), key, k - 1);
                let j = choose|j: int|
                    0 <= j < items.drop_first().len() && items.drop_first()[j] == spec_delete(
                        items.drop_first(),
                        key,
                    )[k - 1];
                assert(items[j + 1] == del[k]);
            }
        }
    }
}

/// Find the first index carrying the key, scanning in order.
pub fn find_index<T: HasUuid>(items: &Vec<T>, uuid: &str) -> (r: Option<usize>)
    ensures
        match r {
            Some(i) => i < items@.len() && items@[i as int].spec_uuid() == uuid@ && spec_get(
                items@,
                uuid@,
            ) == Some(items@[i as int]) && forall|j: int|
                0 <= j < i ==> (#[trigger] items@[j]).spec_uuid() != uuid@,
            None => !spec_has_key(items@, uuid@) && spec_get(items@, uuid@) is None,
        },
{
    let n = items.len();
    let mut i: usize = 0;
    assert(items@.skip(0) == items@);
    while i < n
        invariant
            i <= n,
            n == items@.len(),
            forall|j: int| 0 <= j < i ==> (#[trigger] items@[j]).spec_uuid() != uuid@,
            spec_get(items@, uuid@) == spec_get(items@.skip(i as int), uuid@),
        decreases n - i,
    {
        proof {
            assert(items@.skip(i as int)[0] == items@[i as int]);
            assert(items@.skip(i as int).drop_first() =~= items@.skip(i as int + 1));
        }
        if str_eq(items[i].uuid(), uuid) {
            return Some(i);
        }
        i += 1;
    }
    proof {
        assert(items@.skip(n as int) =~= Seq::<T>::empty());
        lemma_get_has_key(items@, uuid@);
    }
    None
}

/// Write an item into the family at its ordered position.
pub fn put_item<T: HasUuid>(items: &mut Vec<T>, item: T)
    requires
        old(items)@.len() < usize::MAX,
    ensures
        final(items)@ == spec_put(old(items)@, item),
{
    let n = items.len();
    let mut i: usize = 0;
    assert(items@.skip(0) == items@);
    while i < n
        invariant
            i <= n,
            n == items@.len(),
            items@ == old(items)@,
            n < usize::MAX,
            forall|j: int|
                0 <= j < i ==> chars_lt((#[trigger] items@[j]).spec_uuid(), item.spec_uuid()),
            spec_put(old(items)@, item) == old(items)@.take(i as int) + spec_put(
                old(items)@.skip(i as int),
                item,
            ),
        decreases n - i,
    {
        proof {
            assert(items@.skip(i as int)[0] == items@[i as int]);
            assert(items@.skip(i as int).drop_first() =~= items@.skip(i as int + 1));
        }
        if str_lt(items[i].uuid(), item.uuid()) {
            proof {
                assert(old(items)@.take(i as int + 1) =~= old(items)@.take(i as int) + seq![
                    old(items)@[i as int],
                ]);
                assert(old(items)@.take(i as int) + (seq![old(items)@[i as int]] + spec_put(
                    old(items)@.skip(i as int + 1),
                    item,
                )) =~= old(items)@.take(i as int + 1) + spec_put(
                    old(items)@.skip(i as int + 1),
                    item,
                ));
            }
            i += 1;
        } else if str_eq(items[i].uuid(), item.uuid()) {
            items.set(i, item);
            proof {
                assert(old(items)@.skip(i as int).drop_first() =~= old(items)@.skip(i as int + 1));
                assert(final(items)@ =~= old(items)@.take(i as int) + (seq![item] + old(
                    items,
                )@.skip(i as int + 1)));
            }
            return ;
        } else {
            items.insert(i, item);
            proof {
                assert(final(items)@ =~= old(items)@.take(i as int) + (seq![item] + old(
                    items,
                )@.skip(i as int)));
            }
            return ;
        }
    }
    items.push(item);
    proof {
        assert(old(items)@.skip(n as int) =~= Seq::<T>::empty());
        assert(final(items)@ =~= old(items)@.take(n as int) + seq![item]);
    }
}

/// Delete the first item carrying the key; say whether one was there.
pub fn delete_item<T: HasUuid>(items: &mut Vec<T>, uuid: &str) -> (r: bool)
    ensures
        final(items)@ == spec_delete(old(items)@, uuid@),
        r == spec_has_key(old(items)@, uuid@),
{
    let n = items.len();
    let mut i: usize = 0;
    assert(items@.skip(0) == items@);
    while i < n
        invariant
            i <= n,
            n == items@.len(),
            items@ == old(items)@,
            forall|j: int| 0 <= j < i ==> (#[trigger] items@[j]).spec_uuid() != uuid@,
            spec_delete(old(items)@, uuid@) == old(items)@.take(i as int) + spec_delete(
                old(items)@.skip(i as int),
                uuid@,
            ),
        decreases n - i,
    {
        proof {
            assert(items@.skip(i as int)[0] == items@[i as int]);
            assert(items@.skip(i as int).drop_first() =~= items@.skip(i as int + 1));
        }
        if str_eq(items[i].uuid(), uuid) {
            items.remove(i);
            proof {
                assert(final(items)@ =~= old(items)@.take(i as int) + old(items)@.skip(
                    i as int + 1,
                ));
                assert(spec_delete(old(items)@.skip(i as int), uuid@) =~= old(items)@.skip(
                    i as int,
                ).drop_first());
            }
            return true;
        }
        proof {
            assert(old(items)@.take(i as int + 1) =~= old(items)@.take(i as int) + seq![
                old(items)@[i as int],
            ]);
            assert(old(items)@.take(i as int) + (seq![old(items)@[i as int]] + spec_delete(
                old(items)@.skip(i as int + 1),
                uuid@,
            )) =~= old(items)@.take(i as int + 1) + spec_delete(
                old(items)@.skip(i as int + 1),
                uuid@,
            ));
        }
        i += 1;
    }
    proof {
        assert(old(items)@.skip(n as int) =~= Seq::<T>::empty());
        assert(final(items)@ =~= old(items)@.take(n as int));
        assert(final(items)@ =~= old(items)@);
    }
    false
}

/// The first index whose key lies strictly after the cursor, and how many
/// items a page of `limit` from there holds, with the flag that more
/// remain. With no cursor the page starts at the front.
pub fn page_bounds<T: HasUuid>(items: &Vec<T>, cursor: Option<&str>, limit: usize) -> (r: (
    usize,
    usize,
    bool,
))
    requires
        keys_sorted(items@),
    ensures
        ({
            let (start, count, has_more) = r;
            &&& start <= items@.len()
            &&& count == if items@.len() - start <= limit {
                items@.len() - start
            } else {
                limit as int
            }
            &&& has_more == (items@.len() - start > limit)
            &&& match cursor {
                Some(c) => (forall|j: int|
                    0 <= j < start ==> !chars_lt(c@, (#[trigger] items@[j]).spec_uuid())) && (
                forall|j: int|
                    start <= j < items@.len() ==> chars_lt(
                        c@,
                        (#[trigger] items@[j]).spec_uuid(),
                    )),
                None => start == 0,
            }
        }),
{
    let n = items.len();
    let start: usize = match cursor {
        None => 0,
        Some(c) => {
            let mut i: usize = 0;
            while i < n
                invariant
                    i <= n,
                    n == items@.len(),
                    keys_sorted(items@),
                    cursor == Some(c),
                    forall|j: int|
                        0 <= j < i ==> !chars_lt(c@, (#[trigger] items@[j]).spec_uuid()),
                decreases n - i,
            {
                if str_lt(c, items[i].uuid()) {
                    proof {
                        assert forall|j: int|
                            i <= j < items@.len() implies chars_lt(
                            c@,
                            (#[trigger] items@[j]).spec_uuid(),
                        ) by {
                            if j > i {
                                lemma_chars_lt_transitive(
                                    c@,
                                    items@[i as int].spec_uuid(),
                                    items@[j].spec_uuid(),
                                );
                            }
                        }
                    }
                    return page_counts(n, i, limit);
                }
                i += 1;
            }
            n
        },
    };
    page_counts(n, start, limit)
}

/// The page size and the more-remaining flag for a start position.
fn page_counts(n: usize, start: usize, limit: usize) -> (r: (usize, usize, bool))
    requires
        start <= n,
    ensures
        ({
            let (s, count, has_more) = r;
            &&& s == start
            &&& count == if n - start <= limit {
                n - start
            } else {
                limit as int
            }
            &&& has_more == (n - start > limit)
        }),
{
    let remaining = n - start;
    if remaining <= limit {
        (start, remaining, false)
    } else {
        (start, limit, true)
    }
}

} // verus!

// The concrete store over the five entity families follows.

verus! {

/// Deleting keeps the family's keys strictly increasing.
pub proof fn lemma_delete_sorted<T: HasUuid>(items: Seq<T>, key: Seq<char>)
    requires
        keys_sorted(items),
    ensures
        keys_sorted(spec_delete(items, key)),
        forall|k: int|
            0 <= k < spec_delete(items, key).len() ==> exists|j: int|
                0 <= j < items.len() && items[j] == #[trigger] spec_delete(items, key)[k],
    decreases items.len(),
{
    let del = spec_delete(items, key);
    if items.len() > 0 {
        let rest = items.drop_first();
        assert(keys_sorted(rest)) by {
            assert forall|i: int, j: int|
                0 <= i < j < rest.len() implies chars_lt(
                (#[trigger] rest[i]).spec_uuid(),
                (#[trigger] rest[j]).spec_uuid(),
            ) by {
                assert(rest[i] == items[i + 1]);
                assert(rest[j] == items[j + 1]);
            }
        }
        lemma_delete_sorted(rest, key);
        if items[0].spec_uuid() == key {
            assert forall|k: int| 0 <= k < del.len() implies exists|j: int|
                0 <= j < items.len() && items[j] == #[trigger] del[k] by {
                assert(items[k + 1] == del[k]);
            }
        } else {
            let sub = spec_delete(rest, key);
            assert(del =~= seq![items[0]] + sub);
            assert forall|k: int| 0 <= k < del.len() implies exists|j: int|
                0 <= j < items.len() && items[j] == #[trigger] del[k] by {
                if k == 0 {
                    assert(items[0] == del[0]);
                } else {
                    assert(sub[k - 1] == del[k]);
                    let j = choose|j: int| 0 <= j < rest.len() && rest[j] == sub[k - 1];
                    assert(items[j + 1] == del[k]);
                }
            }
            assert forall|i: int, j: int| 0 <= i < j < del.len() implies chars_lt(
                (#[trigger] del[i]).spec_uuid(),
                (#[trigger] del[j]).spec_uuid(),
            ) by {
                assert(sub[j - 1] == del[j]);
                let b = choose|b: int| 0 <= b < rest.len() && rest[b] == sub[j - 1];
                assert(items[b + 1] == del[j]);
                if i == 0 {
                    assert(chars_lt(items[0].spec_uuid(), items[b + 1].spec_uuid()));
                } else {
                    assert(sub[i - 1] == del[i]);
                    let a = choose|a: int| 0 <= a < rest.len() && rest[a] == sub[i - 1];
                    assert(rest[a] == del[i] && rest[b] == del[j]);
                    if a < b {
                        assert(chars_lt(rest[a].spec_uuid(), rest[b].spec_uuid()));
                    } else if a == b {
                        assert(del[i] == del[j]);
                        assert(chars_lt(del[i].spec_uuid(), del[j].spec_uuid())) by {
                            lemma_delete_nodup_order(rest, key, i - 1, j - 1);
                        }
                    } else {
                        lemma_delete_nodup_order(rest, key, i - 1, j - 1);
                    }
                }
            }
        }
    }
}

/// Positions in a deletion's result keep their relative order from the
/// input, so a sorted input keeps the result's elements ordered.
proof fn lemma_delete_nodup_order<T: HasUuid>(items: Seq<T>, key: Seq<char>, i: int, j: int)
    requires
        keys_sorted(items),
        0 <= i < j < spec_delete(items, key).len(),
    ensures
        chars_lt(
            spec_delete(items, key)[i].spec_uuid(),
            spec_delete(items, key)[j].spec_uuid(),
        ),
    decreases items.len(),
{
    let del = spec_delete(items, key);
    let rest = items.drop_first();
    assert(items.len() > 0);
    assert(keys_sorted(rest)) by {
        assert forall|a: int, b: int|
            0 <= a < b < rest.len() implies chars_lt(
            (#[trigger] rest[a]).spec_uuid(),
            (#[trigger] rest[b]).spec_uuid(),
        ) by {
            assert(rest[a] == items[a + 1]);
            assert(rest[b] == items[b + 1]);
        }
    }
    if items[0].spec_uuid() == key {
        assert(del == rest);
    } else {
        let sub = spec_delete(rest, key);
        assert(del =~= seq![items[0]] + sub);
        if i == 0 {
            lemma_delete_sorted(rest, key);
            let b = choose|b: int| 0 <= b < rest.len() && rest[b] == sub[j - 1];
            assert(items[b + 1] == sub[j - 1]);
            assert(chars_lt(items[0].spec_uuid(), items[b + 1].spec_uuid()));
        } else {
            lemma_delete_nodup_order(rest, key, i - 1, j - 1);
        }
    }
}

/// The number of leading items whose key does not lie after the cursor:
/// where a page for this cursor starts in a sorted family.
pub open spec fn spec_start<T: HasUuid>(items: Seq<T>, cursor: Option<Seq<char>>) -> int
    decreases items.len(),
{
    match cursor {
        None => 0,
        Some(c) => {
            if items.len() == 0 {
                0
            } else if chars_lt(c, items[0].spec_uuid()) {
                0
            } else {
                1 + spec_start(items.drop_first(), cursor)
            }
        },
    }
}

/// In a sorted family the page boundary is the unique position with every
/// earlier key at or before the cursor and every later key after it.
pub proof fn lemma_start_at<T: HasUuid>(items: Seq<T>, c: Seq<char>, s: int)
    requires
        0 <= s <= items.len(),
        forall|j: int| 0 <= j < s ==> !chars_lt(c, (#[trigger] items[j]).spec_uuid()),
        forall|j: int| s <= j < items.len() ==> chars_lt(c, (#[trigger] items[j]).spec_uuid()),
    ensures
        spec_start(items, Some(c)) == s,
    decreases items.len(),
{
    if items.len() > 0 {
        let rest = items.drop_first();
        if s == 0 {
        } else {
            assert(!chars_lt(c, items[0].spec_uuid()));
            lemma_start_at(rest, c, s - 1);
        }
    }
}

/// A pagination cursor: either the start of a family or the last
/// identifier already seen.
#[derive(Debug)]
pub struct Cursor {
    pub last_uuid: Option<String>,
}

impl Clone for Cursor {
    /// A copy with the same position.
    fn clone(&self) -> (r: Self)
        ensures
            r.spec_key() == self.spec_key(),
    {
        Cursor {
            last_uuid: match &self.last_uuid {
                Some(u) => Some(u.clone()),
                None => None,
            },
        }
    }
}

impl Cursor {
    /// The key the cursor stands after, if any.
    pub open spec fn spec_key(&self) -> Option<Seq<char>> {
        match self.last_uuid {
            Some(u) => Some(u@),
            None => None,
        }
    }

    /// The cursor at the start of a family.
    pub fn start() -> (r: Cursor)
        ensures
            r.spec_key() is None,
    {
        Cursor { last_uuid: None }
    }

    /// The cursor just after the given identifier.
    pub fn from_uuid(uuid: String) -> (r: Cursor)
        ensures
            r.spec_key() == Some(uuid@),
    {
        Cursor { last_uuid: Some(uuid) }
    }

    /// Read a cursor from its text form; empty text means the start.
    pub fn from_string(s: &str) -> (r: Option<Cursor>)
        ensures
            match r {
                Some(c) => c.spec_key() == if s@.len() == 0 {
                    None::<Seq<char>>
                } else {
                    Some(s@)
                },
                None => false,
            },
    {
        if s.unicode_len() == 0 {
            Some(Cursor::start())
        } else {
            Some(Cursor::from_uuid(crate::text::to_owned_string(s)))
        }
    }

    /// The cursor's text form; the start renders as empty text.
    pub fn to_string(&self) -> (r: String)
        ensures
            r@ == match self.spec_key() {
                Some(k) => k,
                None => Seq::<char>::empty(),
            },
    {
        match &self.last_uuid {
            Some(u) => u.clone(),
            None => String::new(),
        }
    }
}

/// One page of a listing.
#[derive(Debug)]
pub struct ListResult<T> {
    pub items: Vec<T>,
    pub next_cursor: Option<String>,
    pub has_more: bool,
}

impl HasUuid for crate::agent::Agent {
    open spec fn spec_uuid(&self) -> Seq<char> {
        self.uuid@
    }

    fn uuid(&self) -> (r: &str) {
        self.uuid.as_str()
    }
}

impl HasUuid for crate::fragment::Fragment {
    open spec fn spec_uuid(&self) -> Seq<char> {
        self.uuid@
    }

    fn uuid(&self) -> (r: &str) {
        self.uuid.as_str()
    }
}

impl HasUuid for crate::relation::Relation {
    open spec fn spec_uuid(&self) -> Seq<char> {
        self.uuid@
    }

    fn uuid(&self) -> (r: &str) {
        self.uuid.as_str()
    }
}

impl HasUuid for crate::tag::Tag {
    open spec fn spec_uuid(&self) -> Seq<char> {
        self.uuid@
    }

    fn uuid(&self) -> (r: &str) {
        self.uuid.as_str()
    }
}

impl HasUuid for crate::transform::Transform {
    open spec fn spec_uuid(&self) -> Seq<char> {
        self.uuid@
    }

    fn uuid(&self) -> (r: &str) {
        self.uuid.as_str()
    }
}

} // verus!

// The concrete entity store.

verus! {

/// What a returned page means for a family `items` and cursor key `ck`:
/// the page holds the first `limit` item values strictly after the cursor,
/// `has_more` says whether any were left, and the next cursor names the
/// last returned identifier exactly when more remain and the page is not
/// empty.
pub open spec fn spec_list_ok<T: HasUuid + View>(
    items: Seq<T>,
    ck: Option<Seq<char>>,
    limit: int,
    out: Seq<<T as View>::V>,
    next: Option<Seq<char>>,
    has_more: bool,
) -> bool {
    let start = spec_start(items, ck);
    let count = if items.len() - start <= limit {
        items.len() - start
    } else {
        limit
    };
    &&& out.len() == count
    &&& (forall|j: int| 0 <= j < count ==> out[j] == (#[trigger] items[start + j])@)
    &&& has_more == (items.len() - start > limit)
    &&& next == if has_more && limit > 0 {
        Some(items[start + limit - 1].spec_uuid())
    } else {
        None::<Seq<char>>
    }
}

impl<T> ListResult<T> {
    /// The key the next cursor names, if any.
    pub open spec fn next_cursor_key(&self) -> Option<Seq<char>> {
        match self.next_cursor {
            Some(u) => Some(u@),
            None => None,
        }
    }
}

/// The five entity families, each sorted by identifier, with every stored
/// agent's embedded trust levels within `[-1, 1]`.
#[derive(Debug)]
pub struct EntityStore {
    pub agents: Vec<Agent>,
    pub fragments: Vec<Fragment>,
    pub relations: Vec<Relation>,
    pub tags: Vec<Tag>,
    pub transforms: Vec<Transform>,
}

impl EntityStore {
    /// The store's invariant: all families sorted by identifier, stored
    /// agents' trust edges within `[-1, 1]`.
    pub open spec fn wf(&self) -> bool {
        &&& keys_sorted(self.agents@)
        &&& keys_sorted(self.fragments@)
        &&& keys_sorted(self.relations@)
        &&& keys_sorted(self.tags@)
        &&& keys_sorted(self.transforms@)
        &&& forall|i: int|
            0 <= i < self.agents@.len() ==> trust_store_wf(
                (#[trigger] self.agents@[i])@.trust,
            )
    }

    /// An empty store.
    pub fn new() -> (r: EntityStore)
        ensures
            r.wf(),
            r.agents@.len() == 0,
            r.fragments@.len() == 0,
            r.relations@.len() == 0,
            r.tags@.len() == 0,
            r.transforms@.len() == 0,
    {
        EntityStore {
            agents: Vec::new(),
            fragments: Vec::new(),
            relations: Vec::new(),
            tags: Vec::new(),
            transforms: Vec::new(),
        }
    }

    /// Write a agent under its identifier, replacing any existing record.
    pub fn put_agent(&mut self, item: Agent)
        requires
            old(self).wf(),
            old(self).agents@.len() < usize::MAX,
            trust_store_wf(item@.trust),
        ensures
            final(self).agents@ == spec_put(old(self).agents@, item),
            final(self).fragments@ == old(self).fragments@,
            final(self).relations@ == old(self).relations@,
            final(self).tags@ == old(self).tags@,
            final(self).transforms@ == old(self).transforms@,
            final(self).wf(),
    {
        proof {
            lemma_put_sorted(self.agents@, item);
        }
        put_item(&mut self.agents, item);
    }

    /// Read a agent by identifier; the record comes back by value.
    pub fn get_agent(&self, uuid: &str) -> (r: Option<Agent>)
        ensures
            match spec_get(self.agents@, uuid@) {
                Some(st) => r matches Some(a) && a@ == st@,
                None => r is None,
            },
    {
        match find_index(&self.agents, uuid) {
            Some(i) => Some(self.agents[i].clone()),
            None => None,
        }
    }

    /// Delete a agent by identifier; deletion is idempotent.
    pub fn delete_agent(&mut self, uuid: &str) -> (r: bool)
        requires
            old(self).wf(),
        ensures
            final(self).agents@ == spec_delete(old(self).agents@, uuid@),
            final(self).fragments@ == old(self).fragments@,
            final(self).relations@ == old(self).relations@,
            final(self).tags@ == old(self).tags@,
            final(self).transforms@ == old(self).transforms@,
            final(self).wf(),
            r == spec_has_key(old(self).agents@, uuid@),
    {
        proof {
            lemma_delete_sorted(self.agents@, uuid@);
        }
        delete_item(&mut self.agents, uuid)
    }

    /// One page of the agent family, in identifier order strictly after the
    /// cursor.
    pub fn list_agents(&self, cursor: &Cursor, limit: usize) -> (r: ListResult<Agent>)
        requires
            self.wf(),
        ensures
            spec_list_ok(self.agents@, cursor.spec_key(), limit as int, r.items@.map_values(|t: Agent| t@), r.next_cursor_key(), r.has_more),
    {
        let copt: Option<&str> = match &cursor.last_uuid {
            Some(u) => Some(u.as_str()),
            None => None,
        };
        let (start, count, has_more) = page_bounds(&self.agents, copt, limit);
        let n = self.agents.len();
        proof {
            match copt {
                Some(c) => {
                    lemma_start_at(self.agents@, c@, start as int);
                },
                None => {},
            }
        }
        let mut items: Vec<Agent> = Vec::new();
        let mut i: usize = 0;
        while i < count
            invariant
                i <= count,
                n == self.agents@.len(),
                start + count <= n,
                items@.len() == i,
                forall|j: int| 0 <= j < i ==> (#[trigger] items@[j])@ == self.agents@[start + j]@,
            decreases count - i,
        {
            items.push(self.agents[start + i].clone());
            i += 1;
        }
        let next_cursor: Option<String> = if has_more && limit > 0 {
            Some(crate::text::to_owned_string(self.agents[start + count - 1].uuid()))
        } else {
            None
        };
        let r = ListResult { items, next_cursor, has_more };
        proof {
            assert(r.items@.map_values(|t: Agent| t@) =~= Seq::new(
                count as nat,
                |j: int| self.agents@[start + j]@,
            ));
        }
        r
    }

    /// How many agents are stored.
    pub fn count_agents(&self) -> (r: u64)
        ensures
            r == self.agents@.len(),
    {
        self.agents.len() as u64
    }

    /// Write a fragment under its identifier, replacing any existing record.
    pub fn put_fragment(&mut self, item: Fragment)
        requires
            old(self).wf(),
            old(self).fragments@.len() < usize::MAX,
        ensures
            final(self).fragments@ == spec_put(old(self).fragments@, item),
            final(self).agents@ == old(self).agents@,
            final(self).relations@ == old(self).relations@,
            final(self).tags@ == old(self).tags@,
            final(self).transforms@ == old(self).transforms@,
            final(self).wf(),
    {
        proof {
            lemma_put_sorted(self.fragments@, item);
        }
        put_item(&mut self.fragments, item);
    }

    /// Read a fragment by identifier; the record comes back by value.
    pub fn get_fragment(&self, uuid: &str) -> (r: Option<Fragment>)
        ensures
            match spec_get(self.fragments@, uuid@) {
                Some(st) => r matches Some(a) && a@ == st@,
                None => r is None,
            },
    {
        match find_index(&self.fragments, uuid) {
            Some(i) => Some(self.fragments[i].clone()),
            None => None,
        }
    }

    /// Delete a fragment by identifier; deletion is idempotent.
    pub fn delete_fragment(&mut self, uuid: &str) -> (r: bool)
        requires
            old(self).wf(),
        ensures
            final(self).fragments@ == spec_delete(old(self).fragments@, uuid@),
            final(self).agents@ == old(self).agents@,
            final(self).relations@ == old(self).relations@,
            final(self).tags@ == old(self).tags@,
            final(self).transforms@ == old(self).transforms@,
            final(self).wf(),
            r == spec_has_key(old(self).fragments@, uuid@),
    {
        proof {
            lemma_delete_sorted(self.fragments@, uuid@);
        }
        delete_item(&mut self.fragments, uuid)
    }

    /// One page of the fragment family, in identifier order strictly after the
    /// cursor.
    pub fn list_fragments(&self, cursor: &Cursor, limit: usize) -> (r: ListResult<Fragment>)
        requires
            self.wf(),
        ensures
            spec_list_ok(self.fragments@, cursor.spec_key(), limit as int, r.items@.map_values(|t: Fragment| t@), r.next_cursor_key(), r.has_more),
    {
        let copt: Option<&str> = match &cursor.last_uuid {
            Some(u) => Some(u.as_str()),
            None => None,
        };
        let (start, count, has_more) = page_bounds(&self.fragments, copt, limit);
        let n = self.fragments.len();
        proof {
            match copt {
                Some(c) => {
                    lemma_start_at(self.fragments@, c@, start as int);
                },
                None => {},
            }
        }
        let mut items: Vec<Fragment> = Vec::new();
        let mut i: usize = 0;
        while i < count
            invariant
                i <= count,
                n == self.fragments@.len(),
                start + count <= n,
                items@.len() == i,
                forall|j: int| 0 <= j < i ==> (#[trigger] items@[j])@ == self.fragments@[start + j]@,
            decreases count - i,
        {
            items.push(self.fragments[start + i].clone());
            i += 1;
        }
        let next_cursor: Option<String> = if has_more && limit > 0 {
            Some(crate::text::to_owned_string(self.fragments[start + count - 1].uuid()))
        } else {
            None
        };
        let r = ListResult { items, next_cursor, has_more };
        proof {
            assert(r.items@.map_values(|t: Fragment| t@) =~= Seq::new(
                count as nat,
                |j: int| self.fragments@[start + j]@,
            ));
        }
        r
    }

    /// How many fragments are stored.
    pub fn count_fragments(&self) -> (r: u64)
        ensures
            r == self.fragments@.len(),
    {
        self.fragments.len() as u64
    }

    /// Write a relation under its identifier, replacing any existing record.
    pub fn put_relation(&mut self, item: Relation)
        requires
            old(self).wf(),
            old(self).relations@.len() < usize::MAX,
        ensures
            final(self).relations@ == spec_put(old(self).relations@, item),
            final(self).agents@ == old(self).agents@,
            final(self).fragments@ == old(self).fragments@,
            final(self).tags@ == old(self).tags@,
            final(self).transforms@ == old(self).transforms@,
            final(self).wf(),
    {
        proof {
            lemma_put_sorted(self.relations@, item);
        }
        put_item(&mut self.relations, item);
    }

    /// Read a relation by identifier; the record comes back by value.
    pub fn get_relation(&self, uuid: &str) -> (r: Option<Relation>)
        ensures
            match spec_get(self.relations@, uuid@) {
                Some(st) => r matches Some(a) && a@ == st@,
                None => r is None,
            },
    {
        match find_index(&self.relations, uuid) {
            Some(i) => Some(self.relations[i].clone()),
            None => None,
        }
    }

    /// Delete a relation by identifier; deletion is idempotent.
    pub fn delete_relation(&mut self, uuid: &str) -> (r: bool)
        requires
            old(self).wf(),
        ensures
            final(self).relations@ == spec_delete(old(self).relations@, uuid@),
            final(self).agents@ == old(self).agents@,
            final(self).fragments@ == old(self).fragments@,
            final(self).tags@ == old(self).tags@,
            final(self).transforms@ == old(self).transforms@,
            final(self).wf(),
            r == spec_has_key(old(self).relations@, uuid@),
    {
        proof {
            lemma_delete_sorted(self.relations@, uuid@);
        }
        delete_item(&mut self.relations, uuid)
    }

    /// One page of the relation family, in identifier order strictly after the
    /// cursor.
    pub fn list_relations(&self, cursor: &Cursor, limit: usize) -> (r: ListResult<Relation>)
        requires
            self.wf(),
        ensures
            spec_list_ok(self.relations@, cursor.spec_key(), limit as int, r.items@.map_values(|t: Relation| t@), r.next_cursor_key(), r.has_more),
    {
        let copt: Option<&str> = match &cursor.last_uuid {
            Some(u) => Some(u.as_str()),
            None => None,
        };
        let (start, count, has_more) = page_bounds(&self.relations, copt, limit);
        let n = self.relations.len();
        proof {
            match copt {
                Some(c) => {
                    lemma_start_at(self.relations@, c@, start as int);
                },
                None => {},
            }
        }
        let mut items: Vec<Relation> = Vec::new();
        let mut i: usize = 0;
        while i < count
            invariant
                i <= count,
                n == self.relations@.len(),
                start + count <= n,
                items@.len() == i,
                forall|j: int| 0 <= j < i ==> (#[trigger] items@[j])@ == self.relations@[start + j]@,
            decreases count - i,
        {
            items.push(self.relations[start + i].clone());
            i += 1;
        }
        let next_cursor: Option<String> = if has_more && limit > 0 {
            Some(crate::text::to_owned_string(self.relations[start + count - 1].uuid()))
        } else {
            None
        };
        let r = ListResult { items, next_cursor, has_more };
        proof {
            assert(r.items@.map_values(|t: Relation| t@) =~= Seq::new(
                count as nat,
                |j: int| self.relations@[start + j]@,
            ));
        }
        r
    }

    /// How many relations are stored.
    pub fn count_relations(&self) -> (r: u64)
        ensures
            r == self.relations@.len(),
    {
        self.relations.len() as u64
    }

    /// Write a tag under its identifier, replacing any existing record.
    pub fn put_tag(&mut self, item: Tag)
        requires
            old(self).wf(),
            old(self).tags@.len() < usize::MAX,
        ensures
            final(self).tags@ == spec_put(old(self).tags@, item),
            final(self).agents@ == old(self).agents@,
            final(self).fragments@ == old(self).fragments@,
            final(self).relations@ == old(self).relations@,
            final(self).transforms@ == old(self).transforms@,
            final(self).wf(),
    {
        proof {
            lemma_put_sorted(self.tags@, item);
        }
        put_item(&mut self.tags, item);
    }

    /// Read a tag by identifier; the record comes back by value.
    pub fn get_tag(&self, uuid: &str) -> (r: Option<Tag>)
        ensures
            match spec_get(self.tags@, uuid@) {
                Some(st) => r matches Some(a) && a@ == st@,
                None => r is None,
            },
    {
        match find_index(&self.tags, uuid) {
            Some(i) => Some(self.tags[i].clone()),
            None => None,
        }
    }

    /// Delete a tag by identifier; deletion is idempotent.
    pub fn delete_tag(&mut self, uuid: &str) -> (r: bool)
        requires
            old(self).wf(),
        ensures
            final(self).tags@ == spec_delete(old(self).tags@, uuid@),
            final(self).agents@ == old(self).agents@,
            final(self).fragments@ == old(self).fragments@,
            final(self).relations@ == old(self).relations@,
            final(self).transforms@ == old(self).transforms@,
            final(self).wf(),
            r == spec_has_key(old(self).tags@, uuid@),
    {
        proof {
            lemma_delete_sorted(self.tags@, uuid@);
        }
        delete_item(&mut self.tags, uuid)
    }

    /// One page of the tag family, in identifier order strictly after the
    /// cursor.
    pub fn list_tags(&self, cursor: &Cursor, limit: usize) -> (r: ListResult<Tag>)
        requires
            self.wf(),
        ensures
            spec_list_ok(self.tags@, cursor.spec_key(), limit as int, r.items@.map_values(|t: Tag| t@), r.next_cursor_key(), r.has_more),
    {
        let copt: Option<&str> = match &cursor.last_uuid {
            Some(u) => Some(u.as_str()),
            None => None,
        };
        let (start, count, has_more) = page_bounds(&self.tags, copt, limit);
        let n = self.tags.len();
        proof {
            match copt {
                Some(c) => {
                    lemma_start_at(self.tags@, c@, start as int);
                },
                None => {},
            }
        }
        let mut items: Vec<Tag> = Vec::new();
        let mut i: usize = 0;
        while i < count
            invariant
                i <= count,
                n == self.tags@.len(),
                start + count <= n,
                items@.len() == i,
                forall|j: int| 0 <= j < i ==> (#[trigger] items@[j])@ == self.tags@[start + j]@,
            decreases count - i,
        {
            items.push(self.tags[start + i].clone());
            i += 1;
        }
        let next_cursor: Option<String> = if has_more && limit > 0 {
            Some(crate::text::to_owned_string(self.tags[start + count - 1].uuid()))
        } else {
            None
        };
        let r = ListResult { items, next_cursor, has_more };
        proof {
            assert(r.items@.map_values(|t: Tag| t@) =~= Seq::new(
                count as nat,
                |j: int| self.tags@[start + j]@,
            ));
        }
        r
    }

    /// How many tags are stored.
    pub fn count_tags(&self) -> (r: u64)
        ensures
            r == self.tags@.len(),
    {
        self.tags.len() as u64
    }

    /// Write a transform under its identifier, replacing any existing record.
    pub fn put_transform(&mut self, item: Transform)
        requires
            old(self).wf(),
            old(self).transforms@.len() < usize::MAX,
        ensures
            final(self).transforms@ == spec_put(old(self).transforms@, item),
            final(self).agents@ == old(self).agents@,
            final(self).fragments@ == old(self).fragments@,
            final(self).relations@ == old(self).relations@,
            final(self).tags@ == old(self).tags@,
            final(self).wf(),
    {
        proof {
            lemma_put_sorted(self.transforms@, item);
        }
        put_item(&mut self.transforms, item);
    }

    /// Read a transform by identifier; the record comes back by value.
    pub fn get_transform(&self, uuid: &str) -> (r: Option<Transform>)
        ensures
            match spec_get(self.transforms@, uuid@) {
                Some(st) => r matches Some(a) && a@ == st@,
                None => r is None,
            },
    {
        match find_index(&self.transforms, uuid) {
            Some(i) => Some(self.transforms[i].clone()),
            None => None,
        }
    }

    /// Delete a transform by identifier; deletion is idempotent.
    pub fn delete_transform(&mut self, uuid: &str) -> (r: bool)
        requires
            old(self).wf(),
        ensures
            final(self).transforms@ == spec_delete(old(self).transforms@, uuid@),
            final(self).agents@ == old(self).agents@,
            final(self).fragments@ == old(self).fragments@,
            final(self).relations@ == old(self).relations@,
            final(self).tags@ == old(self).tags@,
            final(self).wf(),
            r == spec_has_key(old(self).transforms@, uuid@),
    {
        proof {
            lemma_delete_sorted(self.transforms@, uuid@);
        }
        delete_item(&mut self.transforms, uuid)
    }

    /// One page of the transform family, in identifier order strictly after the
    /// cursor.
    pub fn list_transforms(&self, cursor: &Cursor, limit: usize) -> (r: ListResult<Transform>)
        requires
            self.wf(),
        ensures
            spec_list_ok(self.transforms@, cursor.spec_key(), limit as int, r.items@.map_values(|t: Transform| t@), r.next_cursor_key(), r.has_more),
    {
        let copt: Option<&str> = match &cursor.last_uuid {
            Some(u) => Some(u.as_str()),
            None => None,
        };
        let (start, count, has_more) = page_bounds(&self.transforms, copt, limit);
        let n = self.transforms.len();
        proof {
            match copt {
                Some(c) => {
                    lemma_start_at(self.transforms@, c@, start as int);
                },
                None => {},
            }
        }
        let mut items: Vec<Transform> = Vec::new();
        let mut i: usize = 0;
        while i < count
            invariant
                i <= count,
                n == self.transforms@.len(),
                start + count <= n,
                items@.len() == i,
                forall|j: int| 0 <= j < i ==> (#[trigger] items@[j])@ == self.transforms@[start + j]@,
            decreases count - i,
        {
            items.push(self.transforms[start + i].clone());
            i += 1;
        }
        let next_cursor: Option<String> = if has_more && limit > 0 {
            Some(crate::text::to_owned_string(self.transforms[start + count - 1].uuid()))
        } else {
            None
        };
        let r = ListResult { items, next_cursor, has_more };
        proof {
            assert(r.items@.map_values(|t: Transform| t@) =~= Seq::new(
                count as nat,
                |j: int| self.transforms@[start + j]@,
            ));
        }
        r
    }

    /// How many transforms are stored.
    pub fn count_transforms(&self) -> (r: u64)
        ensures
            r == self.transforms@.len(),
    {
        self.transforms.len() as u64
    }

}

} // verus!

// Scanning lookups over the families.

verus! {

/// The fragments whose lower-cased content contains the lower-cased query,
/// in family order, the first `limit` of them.
pub open spec fn spec_search(items: Seq<Fragment>, q: Seq<char>, limit: int) -> Seq<Fragment>
    decreases items.len(),
{
    if items.len() == 0 || limit <= 0 {
        Seq::<Fragment>::empty()
    } else if spec_contains_sub(lower_of(items[0]@.content), lower_of(q)) {
        seq![items[0]] + spec_search(items.drop_first(), q, limit - 1)
    } else {
        spec_search(items.drop_first(), q, limit)
    }
}

/// Every search result is one of the scanned fragments.
pub proof fn lemma_search_membership(items: Seq<Fragment>, q: Seq<char>, limit: int)
    ensures
        spec_search(items, q, limit).len() <= limit || limit < 0,
        forall|k: int|
            0 <= k < spec_search(items, q, limit).len() ==> exists|j: int|
                0 <= j < items.len() && items[j] == #[trigger] spec_search(items, q, limit)[k],
    decreases items.len(),
{
    let out = spec_search(items, q, limit);
    if items.len() == 0 || limit <= 0 {
    } else if spec_contains_sub(lower_of(items[0]@.content), lower_of(q)) {
        lemma_search_membership(items.drop_first(), q, limit - 1);
        let sub = spec_search(items.drop_first(), q, limit - 1);
        assert forall|k: int| 0 <= k < out.len() implies exists|j: int|
            0 <= j < items.len() && items[j] == #[trigger] out[k] by {
            if k == 0 {
                assert(items[0] == out[0]);
            } else {
                assert(sub[k - 1] == out[k]);
                let j = choose|j: int|
                    0 <= j < items.drop_first().len() && items.drop_first()[j] == sub[k - 1];
                assert(items[j + 1] == out[k]);
            }
        }
    } else {
        lemma_search_membership(items.drop_first(), q, limit);
        assert forall|k: int| 0 <= k < out.len() implies exists|j: int|
            0 <= j < items.len() && items[j] == #[trigger] out[k] by {
            let j = choose|j: int|
                0 <= j < items.drop_first().len() && items.drop_first()[j] == out[k];
            assert(items[j + 1] == out[k]);
        }
    }
}

/// Search results of a duplicate-free family have duplicate-free
/// identifiers.
pub proof fn lemma_search_nodup(items: Seq<Fragment>, q: Seq<char>, limit: int)
    requires
        keys_nodup(items),
    ensures
        keys_nodup(spec_search(items, q, limit)),
    decreases items.len(),
{
    let out = spec_search(items, q, limit);
    if items.len() == 0 || limit <= 0 {
    } else {
        let rest = items.drop_first();
        assert(keys_nodup(rest)) by {
            assert forall|i: int, j: int|
                0 <= i < j < rest.len() implies (#[trigger] rest[i]).spec_uuid() != (
            #[trigger] rest[j]).spec_uuid() by {
                assert(rest[i] == items[i + 1]);
                assert(rest[j] == items[j + 1]);
            }
        }
        if spec_contains_sub(lower_of(items[0]@.content), lower_of(q)) {
            lemma_search_nodup(rest, q, limit - 1);
            lemma_search_membership(rest, q, limit - 1);
            let sub = spec_search(rest, q, limit - 1);
            assert forall|i: int, j: int|
                0 <= i < j < out.len() implies (#[trigger] out[i]).spec_uuid() != (
            #[trigger] out[j]).spec_uuid() by {
                if i == 0 {
                    assert(sub[j - 1] == out[j]);
                    let b = choose|b: int| 0 <= b < rest.len() && rest[b] == sub[j - 1];
                    assert(items[b + 1] == out[j]);
                    assert(items[0].spec_uuid() != items[b + 1].spec_uuid());
                } else {
                    assert(sub[i - 1] == out[i]);
                    assert(sub[j - 1] == out[j]);
                }
            }
        } else {
            lemma_search_nodup(rest, q, limit);
        }
    }
}

/// The first tag carrying the name, if any.
pub open spec fn spec_tag_by_name(items: Seq<Tag>, name: Seq<char>) -> Option<Tag>
    decreases items.len(),
{
    if items.len() == 0 {
        None
    } else if items[0].name@ == name {
        Some(items[0])
    } else {
        spec_tag_by_name(items.drop_first(), name)
    }
}

/// Whether any tag carries the name.
pub open spec fn spec_has_tag_name(items: Seq<Tag>, name: Seq<char>) -> bool {
    exists|i: int| 0 <= i < items.len() && (#[trigger] items[i]).name@ == name
}

/// A found tag means the name is taken, and conversely.
pub proof fn lemma_tag_by_name(items: Seq<Tag>, name: Seq<char>)
    ensures
        spec_tag_by_name(items, name) is Some <==> spec_has_tag_name(items, name),
        match spec_tag_by_name(items, name) {
            Some(t) => t.name@ == name,
            None => true,
        },
    decreases items.len(),
{
    if items.len() > 0 {
        lemma_tag_by_name(items.drop_first(), name);
        if items[0].name@ != name {
            if spec_has_tag_name(items, name) {
                let i = choose|i: int| 0 <= i < items.len() && (#[trigger] items[i]).name@ == name;
                assert(items.drop_first()[i - 1] == items[i]);
            }
            if spec_has_tag_name(items.drop_first(), name) {
                let i = choose|i: int|
                    0 <= i < items.drop_first().len() && (#[trigger] items.drop_first()[i]).name@
                        == name;
                assert(items[i + 1] == items.drop_first()[i]);
            }
        }
    }
}

/// The relations whose source entity is `e`, in family order.
pub open spec fn spec_relations_from(items: Seq<Relation>, e: Seq<char>) -> Seq<Relation>
    decreases items.len(),
{
    if items.len() == 0 {
        Seq::<Relation>::empty()
    } else if items[0].from.entity@ == e {
        seq![items[0]] + spec_relations_from(items.drop_first(), e)
    } else {
        spec_relations_from(items.drop_first(), e)
    }
}

/// The relations whose target entity is `e`, in family order.
pub open spec fn spec_relations_to(items: Seq<Relation>, e: Seq<char>) -> Seq<Relation>
    decreases items.len(),
{
    if items.len() == 0 {
        Seq::<Relation>::empty()
    } else if items[0].to.entity@ == e {
        seq![items[0]] + spec_relations_to(items.drop_first(), e)
    } else {
        spec_relations_to(items.drop_first(), e)
    }
}

impl EntityStore {
    /// Fragments whose content contains the query, letter case ignored, in
    /// family order, capped at `limit`.
    pub fn search_fragments(&self, query: &str, limit: usize) -> (r: Vec<Fragment>)
        ensures
            ({
                let found = spec_search(self.fragments@, query@, limit as int);
                r@.len() == found.len() && forall|k: int|
                    0 <= k < found.len() ==> (#[trigger] r@[k])@ == found[k]@
            }),
    {
        let query_lower = unicode_lowercase(query);
        let n = self.fragments.len();
        let mut results: Vec<Fragment> = Vec::new();
        let ghost collected: Seq<Fragment> = Seq::empty();
        let mut collected_t = Ghost(collected);
        let mut i: usize = 0;
        assert(self.fragments@.skip(0) == self.fragments@);
        while i < n
            invariant
                i <= n,
                n == self.fragments@.len(),
                results@.len() == collected_t@.len(),
                results@.len() <= limit,
                query_lower@ == lower_of(query@),
                forall|k: int|
                    0 <= k < collected_t@.len() ==> (#[trigger] results@[k])@ == collected_t@[k]@,
                collected_t@ + spec_search(
                    self.fragments@.skip(i as int),
                    query@,
                    limit - results@.len(),
                ) == spec_search(self.fragments@, query@, limit as int),
            decreases n - i,
        {
            if results.len() >= limit {
                proof {
                    assert(spec_search(
                        self.fragments@.skip(i as int),
                        query@,
                        limit - results@.len(),
                    ) =~= Seq::<Fragment>::empty());
                    assert(collected_t@ =~= spec_search(self.fragments@, query@, limit as int));
                }
                return results;
            }
            proof {
                assert(self.fragments@.skip(i as int)[0] == self.fragments@[i as int]);
                assert(self.fragments@.skip(i as int).drop_first() =~= self.fragments@.skip(
                    i as int + 1,
                ));
            }
            let content_lower = unicode_lowercase(self.fragments[i].content.as_str());
            if str_contains(content_lower.as_str(), query_lower.as_str()) {
                results.push(self.fragments[i].clone());
                proof {
                    collected_t@ = collected_t@.push(self.fragments@[i as int]);
                    assert(collected_t@ + spec_search(
                        self.fragments@.skip(i as int + 1),
                        query@,
                        limit - results@.len(),
                    ) =~= spec_search(self.fragments@, query@, limit as int));
                }
            }
            i += 1;
        }
        proof {
            assert(self.fragments@.skip(n as int) =~= Seq::<Fragment>::empty());
            assert(collected_t@ =~= spec_search(self.fragments@, query@, limit as int));
        }
        results
    }

    /// The tag carrying this exact name, if one is stored.
    pub fn find_tag_by_name(&self, name: &str) -> (r: Option<Tag>)
        ensures
            match spec_tag_by_name(self.tags@, name@) {
                Some(st) => r matches Some(t) && t@ == st@,
                None => r is None,
            },
            r is Some <==> spec_has_tag_name(self.tags@, name@),
    {
        proof {
            lemma_tag_by_name(self.tags@, name@);
        }
        let n = self.tags.len();
        let mut i: usize = 0;
        assert(self.tags@.skip(0) == self.tags@);
        while i < n
            invariant
                i <= n,
                n == self.tags@.len(),
                spec_tag_by_name(self.tags@, name@) == spec_tag_by_name(
                    self.tags@.skip(i as int),
                    name@,
                ),
            decreases n - i,
        {
            proof {
                assert(self.tags@.skip(i as int)[0] == self.tags@[i as int]);
                assert(self.tags@.skip(i as int).drop_first() =~= self.tags@.skip(i as int + 1));
            }
            if str_eq(self.tags[i].name.as_str(), name) {
                return Some(self.tags[i].clone());
            }
            i += 1;
        }
        proof {
            assert(self.tags@.skip(n as int) =~= Seq::<Tag>::empty());
        }
        None
    }

    /// The relations whose source entity is `from_entity`, in family order.
    pub fn get_relations_by_from(&self, from_entity: &str) -> (r: Vec<Relation>)
        ensures
            ({
                let found = spec_relations_from(self.relations@, from_entity@);
                r@.len() == found.len() && forall|k: int|
                    0 <= k < found.len() ==> (#[trigger] r@[k])@ == found[k]@
            }),
    {
        let n = self.relations.len();
        let mut results: Vec<Relation> = Vec::new();
        let ghost collected: Seq<Relation> = Seq::empty();
        let mut collected_t = Ghost(collected);
        let mut i: usize = 0;
        assert(self.relations@.skip(0) == self.relations@);
        while i < n
            invariant
                i <= n,
                n == self.relations@.len(),
                results@.len() == collected_t@.len(),
                forall|k: int|
                    0 <= k < collected_t@.len() ==> (#[trigger] results@[k])@ == collected_t@[k]@,
                collected_t@ + spec_relations_from(self.relations@.skip(i as int), from_entity@)
                    == spec_relations_from(self.relations@, from_entity@),
            decreases n - i,
        {
            proof {
                assert(self.relations@.skip(i as int)[0] == self.relations@[i as int]);
                assert(self.relations@.skip(i as int).drop_first() =~= self.relations@.skip(
                    i as int + 1,
                ));
            }
            if str_eq(self.relations[i].from.entity.as_str(), from_entity) {
                results.push(self.relations[i].clone());
                proof {
                    collected_t@ = collected_t@.push(self.relations@[i as int]);
                    assert(collected_t@ + spec_relations_from(
                        self.relations@.skip(i as int + 1),
                        from_entity@,
                    ) =~= spec_relations_from(self.relations@, from_entity@));
                }
            }
            i += 1;
        }
        proof {
            assert(self.relations@.skip(n as int) =~= Seq::<Relation>::empty());
            assert(collected_t@ =~= spec_relations_from(self.relations@, from_entity@));
        }
        results
    }

    /// The relations whose target entity is `to_entity`, in family order.
    pub fn get_relations_by_to(&self, to_entity: &str) -> (r: Vec<Relation>)
        ensures
            ({
                let found = spec_relations_to(self.relations@, to_entity@);
                r@.len() == found.len() && forall|k: int|
                    0 <= k < found.len() ==> (#[trigger] r@[k])@ == found[k]@
            }),
    {
        let n = self.relations.len();
        let mut results: Vec<Relation> = Vec::new();
        let ghost collected: Seq<Relation> = Seq::empty();
        let mut collected_t = Ghost(collected);
        let mut i: usize = 0;
        assert(self.relations@.skip(0) == self.relations@);
        while i < n
            invariant
                i <= n,
                n == self.relations@.len(),
                results@.len() == collected_t@.len(),
                forall|k: int|
                    0 <= k < collected_t@.len() ==> (#[trigger] results@[k])@ == collected_t@[k]@,
                collected_t@ + spec_relations_to(self.relations@.skip(i as int), to_entity@)
                    == spec_relations_to(self.relations@, to_entity@),
            decreases n - i,
        {
            proof {
                assert(self.relations@.skip(i as int)[0] == self.relations@[i as int]);
                assert(self.relations@.skip(i as int).drop_first() =~= self.relations@.skip(
                    i as int + 1,
                ));
            }
            if str_eq(self.relations[i].to.entity.as_str(), to_entity) {
                results.push(self.relations[i].clone());
                proof {
                    collected_t@ = collected_t@.push(self.relations@[i as int]);
                    assert(collected_t@ + spec_relations_to(
                        self.relations@.skip(i as int + 1),
                        to_entity@,
                    ) =~= spec_relations_to(self.relations@, to_entity@));
                }
            }
            i += 1;
        }
        proof {
            assert(self.relations@.skip(n as int) =~= Seq::<Relation>::empty());
            assert(collected_t@ =~= spec_relations_to(self.relations@, to_entity@));
        }
        results
    }
}

} // verus!

// Laws of the store.

verus! {

/// Every trust level embedded in any stored agent lies within `[-1, 1]`.
pub proof fn lemma_stored_trust_bounded(store: EntityStore)
    requires
        store.wf(),
    ensures
        forall|i: int, j: int|
            0 <= i < store.agents@.len() && 0 <= j < (#[trigger] store.agents@[i])@.trust.trusts.len()
                ==> -(crate::codec::SCALE as int) <= (#[trigger] store.agents@[i]@.trust.trusts[j]).trust
                <= crate::codec::SCALE as int,
{
    assert forall|i: int, j: int|
        0 <= i < store.agents@.len() && 0 <= j < (#[trigger] store.agents@[i])@.trust.trusts.len()
            implies -(crate::codec::SCALE as int) <= (#[trigger] store.agents@[i]@.trust.trusts[j]).trust
            <= crate::codec::SCALE as int by {
        assert(crate::agent::trust_store_wf(store.agents@[i]@.trust));
    }
}

/// Pagination is exhaustive and never repeats: a page covers exactly the
/// positions `[start, start + count)` of the family (`spec_list_ok` says
/// so), and when more remain, the next cursor resumes at exactly
/// `start + limit`. Following pages until `has_more` clears therefore
/// visits every stored identifier exactly once.
pub proof fn lemma_pagination_chain<T: HasUuid + View>(
    items: Seq<T>,
    ck: Option<Seq<char>>,
    limit: int,
    out: Seq<<T as View>::V>,
    next: Option<Seq<char>>,
    has_more: bool,
)
    requires
        keys_sorted(items),
        spec_list_ok(items, ck, limit, out, next, has_more),
        limit > 0,
    ensures
        has_more ==> (next matches Some(nk) && spec_start(items, Some(nk)) == spec_start(
            items,
            ck,
        ) + limit),
        !has_more ==> out.len() == items.len() - spec_start(items, ck),
{
    let start = spec_start(items, ck);
    lemma_start_bounds(items, ck);
    if has_more {
        let nk = items[start + limit - 1].spec_uuid();
        assert(next == Some(nk));
        assert forall|j: int| 0 <= j < start + limit implies !chars_lt(
            nk,
            (#[trigger] items[j]).spec_uuid(),
        ) by {
            if j < start + limit - 1 {
                assert(chars_lt(items[j].spec_uuid(), nk));
                lemma_chars_lt_trichotomy(items[j].spec_uuid(), nk);
            } else {
                lemma_chars_lt_trichotomy(nk, nk);
            }
        }
        assert forall|j: int| start + limit <= j < items.len() implies chars_lt(
            nk,
            (#[trigger] items[j]).spec_uuid(),
        ) by {
            assert(chars_lt(items[start + limit - 1].spec_uuid(), items[j].spec_uuid()));
        }
        lemma_start_at(items, nk, start + limit);
    }
}

/// A chain of pages over one family with one page size: the first starts
/// at the beginning, each following page starts at the cursor the
/// previous one returned, and only the last reports no more.
pub open spec fn spec_page_chain<T: HasUuid + View>(
    items: Seq<T>,
    limit: int,
    cursors: Seq<Option<Seq<char>>>,
    outs: Seq<Seq<<T as View>::V>>,
    nexts: Seq<Option<Seq<char>>>,
    mores: Seq<bool>,
) -> bool {
    &&& outs.len() >= 1
    &&& cursors.len() == outs.len()
    &&& nexts.len() == outs.len()
    &&& mores.len() == outs.len()
    &&& cursors[0] is None
    &&& (forall|p: int|
        0 <= p < outs.len() ==> spec_list_ok(
            items,
            cursors[p],
            limit,
            #[trigger] outs[p],
            nexts[p],
            mores[p],
        ))
    &&& (forall|p: int|
        0 <= p < outs.len() - 1 ==> mores[p] && #[trigger] cursors[p + 1] == nexts[p])
    &&& !mores[outs.len() - 1]
}

/// The pages from position `p` on cover exactly the family from that
/// page's start position to the end.
#[verifier::rlimit(100)]
proof fn lemma_chain_suffix<T: HasUuid + View>(
    items: Seq<T>,
    limit: int,
    cursors: Seq<Option<Seq<char>>>,
    outs: Seq<Seq<<T as View>::V>>,
    nexts: Seq<Option<Seq<char>>>,
    mores: Seq<bool>,
    p: int,
)
    requires
        keys_sorted(items),
        limit > 0,
        spec_page_chain(items, limit, cursors, outs, nexts, mores),
        0 <= p < outs.len(),
    ensures
        outs.skip(p).flatten() == Seq::new(
            (items.len() - spec_start(items, cursors[p])) as nat,
            |i: int| items[spec_start(items, cursors[p]) + i]@,
        ),
    decreases outs.len() - p,
{
    let s = spec_start(items, cursors[p]);
    lemma_start_bounds(items, cursors[p]);
    let tail = outs.skip(p);
    assert(tail.len() == outs.len() - p);
    assert(tail[0] == outs[p]);
    assert(tail.flatten() == tail.first() + tail.drop_first().flatten());
    if p == outs.len() - 1 {
        assert(!mores[p]);
        assert(outs[p].len() == items.len() - s);
        assert(tail.drop_first() =~= Seq::<Seq<<T as View>::V>>::empty());
        assert(Seq::<Seq<<T as View>::V>>::empty().flatten() =~= Seq::<<T as View>::V>::empty());
        assert(tail.flatten() =~= Seq::new(
            (items.len() - s) as nat,
            |i: int| items[s + i]@,
        ));
    } else {
        lemma_chain_suffix(items, limit, cursors, outs, nexts, mores, p + 1);
        lemma_pagination_chain(items, cursors[p], limit, outs[p], nexts[p], mores[p]);
        assert(spec_start(items, cursors[p + 1]) == s + limit);
        assert(tail.drop_first() =~= outs.skip(p + 1));
        assert(outs[p].len() == limit);
        assert(tail.flatten() =~= Seq::new(
            (items.len() - s) as nat,
            |i: int| items[s + i]@,
        )) by {
            assert forall|i: int| 0 <= i < items.len() - s implies tail.flatten()[i] == items[s
                + i]@ by {
                if i < limit {
                    assert(tail.flatten()[i] == outs[p][i]);
                } else {
                    assert(tail.flatten()[i] == outs.skip(p + 1).flatten()[i - limit]);
                    assert(outs.skip(p + 1).flatten()[i - limit] == items[s + limit + (i
                        - limit)]@);
                }
            }
        }
    }
}

/// Chained listing is exhaustive and never repeats: following the
/// returned cursors with one positive page size until `has_more` clears
/// yields every stored record exactly once, in storage order.
pub proof fn lemma_pagination_exhaustive<T: HasUuid + View>(
    items: Seq<T>,
    limit: int,
    cursors: Seq<Option<Seq<char>>>,
    outs: Seq<Seq<<T as View>::V>>,
    nexts: Seq<Option<Seq<char>>>,
    mores: Seq<bool>,
)
    requires
        keys_sorted(items),
        limit > 0,
        spec_page_chain(items, limit, cursors, outs, nexts, mores),
    ensures
        outs.flatten() == Seq::new(items.len(), |i: int| items[i]@),
{
    lemma_chain_suffix(items, limit, cursors, outs, nexts, mores, 0);
    assert(outs.skip(0) =~= outs);
    assert(spec_start(items, cursors[0]) == 0);
    assert(Seq::new((items.len() - 0) as nat, |i: int| items[0 + i]@) =~= Seq::new(
        items.len(),
        |i: int| items[i]@,
    ));
}

/// The page boundary lies within the family.
proof fn lemma_start_bounds<T: HasUuid>(items: Seq<T>, ck: Option<Seq<char>>)
    ensures
        0 <= spec_start(items, ck) <= items.len(),
    decreases items.len(),
{
    match ck {
        None => {},
        Some(c) => {
            if items.len() > 0 && !chars_lt(c, items[0].spec_uuid()) {
                lemma_start_bounds(items.drop_first(), ck);
            }
        },
    }
}

} // verus!
