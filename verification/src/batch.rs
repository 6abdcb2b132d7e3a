//! Partitioning an ordered input into batches of bounded size.

use vstd::prelude::*;

verus! {

/// The number of batches that `len` items make at `size` items a batch: the
/// quotient `len / size`, rounded up.
pub open spec fn batch_count(len: nat, size: nat) -> nat
    recommends
        size >= 1,
{
    ((len + size - 1) / (size as int)) as nat
}

/// The index of the first item of batch `i`.
pub open spec fn batch_start(i: int, size: nat) -> int {
    i * size
}

/// The index behind the last item of batch `i`.
pub open spec fn batch_end(i: int, size: nat, len: nat) -> int {
    if (i + 1) * size <= len {
        (i + 1) * size
    } else {
        len as int
    }
}

/// Batch `i` of `items`: the items from `i * size` up to, and without,
/// `min((i + 1) * size, len)`.
pub open spec fn batch_at<T>(items: Seq<T>, size: nat, i: int) -> Seq<T> {
    items.subrange(batch_start(i, size), batch_end(i, size, items.len()))
}

/// The batches of `items`, in index order.
pub open spec fn batches_of<T>(items: Seq<T>, size: nat) -> Seq<Seq<T>> {
    Seq::new(batch_count(items.len(), size), |i: int| batch_at(items, size, i))
}

proof fn lemma_count_step(k: nat, size: nat, len: nat)
    by (nonlinear_arith)
    requires
        size >= 1,
        k * size < len,
        len <= (k + 1) * size,
    ensures
        batch_count(len, size) == k + 1,
{
}

proof fn lemma_count_empty(size: nat)
    by (nonlinear_arith)
    requires
        size >= 1,
    ensures
        batch_count(0, size) == 0,
{
}

/// The batches that were cut from an input, each as the sequence of its items.
pub open spec fn batch_views<T>(batches: Seq<&[T]>) -> Seq<Seq<T>> {
    batches.map_values(|batch: &[T]| batch@)
}

/// Splits `items` into consecutive batches of `size` items; only the last
/// batch may hold fewer. Nothing is copied: each batch borrows from `items`.
pub fn partition<'a, T>(items: &'a [T], size: usize) -> (batches: Vec<&'a [T]>)
    requires
        size >= 1,
    ensures
        batches.len() == batch_count(items@.len(), size as nat),
        forall|i: int|
            0 <= i < batches.len() ==> (#[trigger] batches[i])@ == batch_at(items@, size as nat, i),
        batch_views(batches@) == batches_of(items@, size as nat),
        batch_views(batches@).flatten() == items@,
{
    let len = items.len();
    let mut batches: Vec<&'a [T]> = Vec::new();
    let mut start: usize = 0;
    proof {
        lemma_count_empty(size as nat);
        assert(0 * size == 0) by (nonlinear_arith);
    }
    while start < len
        invariant
            size >= 1,
            len == items@.len(),
            start <= len,
            start < len ==> start == batches.len() * size,
            start == len ==> batches.len() == batch_count(len as nat, size as nat),
            forall|i: int|
                0 <= i < batches.len() ==> (#[trigger] batches[i])@ == batch_at(
                    items@,
                    size as nat,
                    i,
                ),
        decreases len - start,
    {
        let end: usize = if len - start > size {
            start + size
        } else {
            len
        };
        let ghost k = batches.len() as nat;
        proof {
            assert((k + 1) * size == k * size + size) by (nonlinear_arith);
            if end == len {
                lemma_count_step(k, size as nat, len as nat);
            }
        }
        let batch: &'a [T] = &items[start..end];
        batches.push(batch);
        start = end;
    }
    proof {
        assert(batch_views(batches@) =~= batches_of(items@, size as nat));
        lemma_batches_concat(items@, size as nat);
    }
    batches
}

/// The number of items in `batches`, all together.
pub open spec fn total_len<T>(batches: Seq<Seq<T>>) -> nat
    decreases batches.len(),
{
    if batches.len() == 0 {
        0
    } else {
        total_len(batches.drop_last()) + batches.last().len()
    }
}

/// The count is the quotient rounded up: it is the least number of batches of
/// `size` items that hold `len` items.
pub proof fn lemma_batch_count_is_ceiling(len: nat, size: nat)
    by (nonlinear_arith)
    requires
        size >= 1,
    ensures
        batch_count(len, size) * size >= len,
        len > 0 ==> (batch_count(len, size) - 1) * size < len,
        len == 0 ==> batch_count(len, size) == 0,
{
}

/// Where each batch begins and ends: batches are non-empty, lie within the
/// input, follow one another without gap or overlap, and the last one ends
/// where the input ends.
pub proof fn lemma_batch_bounds(len: nat, size: nat, i: int)
    requires
        size >= 1,
        0 <= i < batch_count(len, size),
    ensures
        0 <= batch_start(i, size) < batch_end(i, size, len) <= len,
        batch_end(i, size, len) - batch_start(i, size) <= size,
        i + 1 < batch_count(len, size) ==> batch_end(i, size, len) == batch_start(i + 1, size),
        i + 1 < batch_count(len, size) ==> batch_end(i, size, len) - batch_start(i, size) == size,
        i + 1 == batch_count(len, size) ==> batch_end(i, size, len) == len,
{
    let count = batch_count(len, size) as int;
    lemma_batch_count_is_ceiling(len, size);
    assert(i * size <= (count - 1) * size) by (nonlinear_arith)
        requires
            0 <= i <= count - 1,
            size >= 1,
    ;
    assert((i + 1) * size == i * size + size) by (nonlinear_arith);
    if i + 1 < count {
        assert((i + 1) * size <= (count - 1) * size) by (nonlinear_arith)
            requires
                0 <= i + 1 <= count - 1,
                size >= 1,
        ;
    }
}

/// Every batch holds at least one item and at most `size`; every batch but
/// the last holds exactly `size`.
pub proof fn lemma_batch_sizes<T>(items: Seq<T>, size: nat, i: int)
    requires
        size >= 1,
        0 <= i < batch_count(items.len(), size),
    ensures
        1 <= batch_at(items, size, i).len() <= size,
        i + 1 < batch_count(items.len(), size) ==> batch_at(items, size, i).len() == size,
{
    lemma_batch_bounds(items.len(), size, i);
}

proof fn lemma_batches_prefix<T>(items: Seq<T>, size: nat, k: int)
    requires
        size >= 1,
        0 <= k <= batch_count(items.len(), size),
    ensures
        batches_of(items, size).take(k).flatten() == items.take(
            if k == batch_count(items.len(), size) {
                items.len() as int
            } else {
                k * size
            },
        ),
        total_len(batches_of(items, size).take(k)) == if k == batch_count(items.len(), size) {
            items.len() as int
        } else {
            k * size
        },
    decreases k,
{
    let batches = batches_of(items, size);
    lemma_batch_count_is_ceiling(items.len(), size);
    if k == 0 {
        assert(batches.take(0) =~= Seq::<Seq<T>>::empty());
        assert(0 * size == 0) by (nonlinear_arith);
        assert(items.take(0) =~= Seq::<T>::empty());
    } else {
        lemma_batches_prefix(items, size, k - 1);
        lemma_batch_bounds(items.len(), size, k - 1);
        let front = batches.take(k - 1);
        let batch = batches[k - 1];
        assert(batches.take(k) =~= front.push(batch));
        assert(batches.take(k).drop_last() =~= front);
        front.lemma_flatten_push(batch);
        assert(items.take(batch_start(k - 1, size)) + batch =~= items.take(
            batch_end(k - 1, size, items.len()),
        ));
    }
}

/// Joined in index order, the batches give back the input: nothing is lost,
/// doubled or moved.
pub proof fn lemma_batches_concat<T>(items: Seq<T>, size: nat)
    requires
        size >= 1,
    ensures
        batches_of(items, size).flatten() == items,
{
    let batches = batches_of(items, size);
    lemma_batches_prefix(items, size, batches.len() as int);
    assert(batches.take(batches.len() as int) =~= batches);
    assert(items.take(items.len() as int) =~= items);
}

/// The sizes of the batches add up to the number of items.
pub proof fn lemma_batches_total<T>(items: Seq<T>, size: nat)
    requires
        size >= 1,
    ensures
        total_len(batches_of(items, size)) == items.len(),
{
    let batches = batches_of(items, size);
    lemma_batches_prefix(items, size, batches.len() as int);
    assert(batches.take(batches.len() as int) =~= batches);
}

} // verus!
