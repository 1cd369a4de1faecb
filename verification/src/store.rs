//! What a run takes for granted of the store: how a scan answers and what a
//! delete leaves behind. The store is a finite set of keys.

use vstd::prelude::*;
use vstd::seq_lib::seq_to_set_is_finite;
use vstd::set_lib::{lemma_len_subset, lemma_set_difference_len, lemma_set_subset_finite};
use crate::key::{
    ascending, in_range, key_le, key_lt, lemma_key_le_transitive, lemma_key_lt_irreflexive,
};

verus! {

/// The keys of `store` from `lo` up to, not including, `hi`.
pub open spec fn range_keys(store: Set<Seq<u8>>, lo: Seq<u8>, hi: Seq<u8>) -> Set<Seq<u8>> {
    store.filter(|key: Seq<u8>| in_range(key, lo, hi))
}

/// Whether `page` is what a scan of `store` from `lo` up to `hi` for `limit`
/// keys returns: keys of the range in ascending order, no more than `limit`,
/// the lowest ones first, and all of them where they are fewer than `limit`.
pub open spec fn scan_honours(
    store: Set<Seq<u8>>,
    lo: Seq<u8>,
    hi: Seq<u8>,
    limit: nat,
    page: Seq<Seq<u8>>,
) -> bool {
    &&& ascending(page)
    &&& page.len() <= limit
    &&& forall|i: int| 0 <= i < page.len() ==> range_keys(store, lo, hi).contains(#[trigger] page[i])
    &&& forall|key: Seq<u8>, i: int|
        #![trigger range_keys(store, lo, hi).contains(key), page[i]]
        range_keys(store, lo, hi).contains(key) && !page.contains(key) && 0 <= i < page.len()
            ==> key_lt(page[i], key)
    &&& page.len() < limit ==> forall|key: Seq<u8>| #[trigger]
        range_keys(store, lo, hi).contains(key) ==> page.contains(key)
}

/// The store after a delete of `batch` went through: the keys of `batch`
/// are gone, whether they were there or not, and no other key is.
pub open spec fn after_delete(store: Set<Seq<u8>>, batch: Seq<Seq<u8>>) -> Set<Seq<u8>> {
    store.difference(batch.to_set())
}

/// A delete removes each key it was given and leaves every other key alone.
pub proof fn lemma_delete_exact(store: Set<Seq<u8>>, batch: Seq<Seq<u8>>)
    ensures
        forall|i: int| 0 <= i < batch.len() ==> !after_delete(store, batch).contains(#[trigger] batch[i]),
        forall|key: Seq<u8>| !batch.contains(key) ==> (#[trigger] after_delete(store, batch).contains(key) <==> store.contains(key)),
        store.finite() ==> after_delete(store, batch).finite(),
{
    if store.finite() {
        lemma_set_subset_finite(store, after_delete(store, batch));
    }
}

/// Deleting a batch a second time changes nothing: the keys are already
/// gone, and that is no failure.
pub proof fn lemma_delete_idempotent(store: Set<Seq<u8>>, batch: Seq<Seq<u8>>)
    ensures
        after_delete(after_delete(store, batch), batch) == after_delete(store, batch),
{
    assert(after_delete(after_delete(store, batch), batch) =~= after_delete(store, batch));
}

/// Two deletes, whether their batches overlap or not, leave what one delete
/// of both batches together leaves, in either order.
pub proof fn lemma_delete_overlapping(store: Set<Seq<u8>>, a: Seq<Seq<u8>>, b: Seq<Seq<u8>>)
    ensures
        after_delete(after_delete(store, a), b) == after_delete(store, a + b),
        after_delete(after_delete(store, a), b) == after_delete(after_delete(store, b), a),
{
    assert forall|key: Seq<u8>| (a + b).contains(key) <==> a.contains(key) || b.contains(key) by {
        if a.contains(key) {
            let i = choose|i: int| 0 <= i < a.len() && a[i] == key;
            assert((a + b)[i] == key);
        }
        if b.contains(key) {
            let i = choose|i: int| 0 <= i < b.len() && b[i] == key;
            assert((a + b)[a.len() + i] == key);
        }
        if (a + b).contains(key) {
            let i = choose|i: int| 0 <= i < (a + b).len() && (a + b)[i] == key;
            if i < a.len() {
                assert(a[i] == key);
            } else {
                assert(b[i - a.len()] == key);
            }
        }
    }
    assert(after_delete(after_delete(store, a), b) =~= after_delete(store, a + b));
    assert(after_delete(after_delete(store, a), b) =~= after_delete(after_delete(store, b), a));
}

/// An ascending page holds no key twice.
pub proof fn lemma_ascending_distinct(page: Seq<Seq<u8>>)
    requires
        ascending(page),
    ensures
        page.no_duplicates(),
        page.to_set().len() == page.len(),
{
    assert forall|i: int, j: int| 0 <= i < page.len() && 0 <= j < page.len() && i != j implies page[i]
        != page[j] by {
        lemma_key_lt_irreflexive(page[i]);
        if i < j {
            assert(key_lt(page[i], page[j]));
        } else {
            assert(key_lt(page[j], page[i]));
        }
    }
    page.unique_seq_to_set();
}

/// A page that honours a scan holds as many keys as the limit allows: all
/// the keys of the range, or `limit` of them where the range holds more.
pub proof fn lemma_page_is_full(
    store: Set<Seq<u8>>,
    lo: Seq<u8>,
    hi: Seq<u8>,
    limit: nat,
    page: Seq<Seq<u8>>,
)
    requires
        store.finite(),
        scan_honours(store, lo, hi, limit, page),
    ensures
        range_keys(store, lo, hi).finite(),
        page.to_set().subset_of(range_keys(store, lo, hi)),
        page.len() == if range_keys(store, lo, hi).len() < limit {
            range_keys(store, lo, hi).len()
        } else {
            limit
        },
{
    let range = range_keys(store, lo, hi);
    store.lemma_len_filter(|key: Seq<u8>| in_range(key, lo, hi));
    lemma_ascending_distinct(page);
    assert forall|key: Seq<u8>| page.to_set().contains(key) implies range.contains(key) by {
        let i = choose|i: int| 0 <= i < page.len() && page[i] == key;
        assert(range.contains(page[i]));
    }
    lemma_len_subset(page.to_set(), range);
    if page.len() < limit {
        assert(range =~= page.to_set());
    }
}

/// After the keys of a page are deleted, what is left of the range from the
/// page's last key on is the old range without the page.
pub proof fn lemma_range_after_page(
    store: Set<Seq<u8>>,
    lo: Seq<u8>,
    hi: Seq<u8>,
    limit: nat,
    page: Seq<Seq<u8>>,
)
    requires
        store.finite(),
        page.len() > 0,
        scan_honours(store, lo, hi, limit, page),
    ensures
        key_le(lo, page.last()),
        range_keys(after_delete(store, page), page.last(), hi) == range_keys(store, lo, hi).difference(
            page.to_set(),
        ),
        range_keys(after_delete(store, page), page.last(), hi).len() == range_keys(store, lo, hi).len()
            - page.len(),
        after_delete(store, page).finite(),
{
    let range = range_keys(store, lo, hi);
    let last = page.last();
    let left = range_keys(after_delete(store, page), last, hi);
    lemma_page_is_full(store, lo, hi, limit, page);
    lemma_ascending_distinct(page);
    lemma_delete_exact(store, page);
    assert(range.contains(page[page.len() - 1]));
    assert forall|key: Seq<u8>| left.contains(key) <==> range.difference(page.to_set()).contains(
        key,
    ) by {
        if left.contains(key) {
            lemma_key_le_transitive(lo, last, key);
        }
        if range.contains(key) && !page.contains(key) {
            assert(key_lt(page[page.len() - 1], key));
        }
    }
    assert(left =~= range.difference(page.to_set()));
    seq_to_set_is_finite(page);
    lemma_set_difference_len(range, page.to_set());
    assert(range.intersect(page.to_set()) =~= page.to_set());
}

} // verus!
