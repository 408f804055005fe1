//! Cutting an ordered run of records into consecutive groups of bounded size.
//!
//! Every group but the last is full; the last holds what is left and is
//! never empty. The groups borrow from the run, so no record is copied.

use vstd::prelude::*;
use vstd::slice::slice_subrange;

verus! {

/// The number of records in a full batch.
pub const BATCH_SIZE: usize = 1000;

/// Number of batches that `len` records fill when a batch holds at most
/// `capacity` of them.
pub open spec fn batch_count(len: nat, capacity: nat) -> nat
    recommends
        capacity > 0,
{
    ((len + capacity - 1) / (capacity as int)) as nat
}

/// The batch at position `index`: the records from `index * capacity` up to
/// the next multiple of `capacity`, or up to the last record where the run
/// ends before that.
pub open spec fn batch_at<T>(entries: Seq<T>, capacity: nat, index: int) -> Seq<T>
    recommends
        capacity > 0,
        0 <= index < batch_count(entries.len(), capacity),
{
    let start = index * capacity;
    let end = if start + capacity <= entries.len() {
        start + capacity
    } else {
        entries.len() as int
    };
    entries.subrange(start, end)
}

/// All batches of a run, in order.
pub open spec fn batches_of<T>(entries: Seq<T>, capacity: nat) -> Seq<Seq<T>>
    recommends
        capacity > 0,
{
    Seq::new(batch_count(entries.len(), capacity), |index: int| batch_at(entries, capacity, index))
}

/// The runs that a vector of slices holds.
pub open spec fn slice_views<T>(slices: Seq<&[T]>) -> Seq<Seq<T>> {
    slices.map_values(|s: &[T]| s@)
}

/// The batches of a run reach just past its last record: all but the last
/// are full and lie inside the run, and the last ends the run.
pub proof fn lemma_batch_count_bounds(len: nat, capacity: nat)
    requires
        capacity > 0,
    ensures
        len == 0 <==> batch_count(len, capacity) == 0,
        len > 0 ==> (batch_count(len, capacity) - 1) * capacity < len,
        len <= batch_count(len, capacity) * capacity,
{
    let c = capacity as int;
    let x = len + c - 1;
    let n = x / c;
    vstd::arithmetic::div_mod::lemma_fundamental_div_mod(x, c);
    vstd::arithmetic::div_mod::lemma_mod_bound(x, c);
    assert(n >= 0) by (nonlinear_arith)
        requires
            x >= 0,
            c > 0,
            x == c * n + x % c,
            0 <= x % c < c,
    ;
    assert((n - 1) * c == c * n - c) by (nonlinear_arith);
    assert(n * c == c * n) by (nonlinear_arith);
    if len == 0 {
        assert(n == 0) by (nonlinear_arith)
            requires
                c - 1 == c * n + x % c,
                0 <= x % c < c,
                c > 0,
                n >= 0,
        ;
    } else {
        assert(n > 0) by (nonlinear_arith)
            requires
                x == c * n + x % c,
                0 <= x % c < c,
                x >= c,
                n >= 0,
        ;
    }
}

/// The only count of batches of which all but the last lie inside the run
/// and which together reach its end is [`batch_count`].
proof fn lemma_batch_count_unique(len: nat, capacity: nat, k: int)
    requires
        capacity > 0,
        0 <= k,
        k * capacity < len <= (k + 1) * capacity,
    ensures
        batch_count(len, capacity) == k + 1,
{
    lemma_batch_count_bounds(len, capacity);
    let n = batch_count(len, capacity) as int;
    let c = capacity as int;
    assert(n <= k + 1) by (nonlinear_arith)
        requires
            (n - 1) * c < len,
            len <= (k + 1) * c,
            c > 0,
    ;
    assert(n >= k + 1) by (nonlinear_arith)
        requires
            k * c < len,
            len <= n * c,
            c > 0,
    ;
}

/// How long each batch is: `capacity` for all but the last, and for the last
/// what is left, which is at least one record and at most `capacity`.
pub proof fn lemma_batch_len<T>(entries: Seq<T>, capacity: nat, index: int)
    requires
        capacity > 0,
        0 <= index < batch_count(entries.len(), capacity),
    ensures
        0 < batch_at(entries, capacity, index).len() <= capacity,
        index < batch_count(entries.len(), capacity) - 1 ==> batch_at(
            entries,
            capacity,
            index,
        ).len() == capacity,
        index == batch_count(entries.len(), capacity) - 1 ==> batch_at(
            entries,
            capacity,
            index,
        ).len() == entries.len() - index * capacity,
{
    lemma_batch_count_bounds(entries.len(), capacity);
    let n = batch_count(entries.len(), capacity) as int;
    let c = capacity as int;
    let len = entries.len() as int;
    assert(index * c <= (n - 1) * c) by (nonlinear_arith)
        requires
            index <= n - 1,
            c > 0,
    ;
    assert(0 <= index * c) by (nonlinear_arith)
        requires
            0 <= index,
            c > 0,
    ;
    if index < n - 1 {
        assert(index * c + c <= (n - 1) * c) by (nonlinear_arith)
            requires
                index + 1 <= n - 1,
                c > 0,
        ;
    } else {
        assert(index * c + c == n * c) by (nonlinear_arith)
            requires
                index + 1 == n,
        ;
    }
}

/// The first `count` batches, joined in order, are the run up to the end of
/// the last of them.
proof fn lemma_batches_join_prefix<T>(entries: Seq<T>, capacity: nat, count: int)
    requires
        capacity > 0,
        0 <= count <= batch_count(entries.len(), capacity),
    ensures
        batches_of(entries, capacity).take(count).flatten() == entries.subrange(
            0,
            if count * capacity <= entries.len() {
                count * capacity
            } else {
                entries.len() as int
            },
        ),
    decreases count,
{
    let all = batches_of(entries, capacity);
    let c = capacity as int;
    if count == 0 {
        assert(count * c == 0) by (nonlinear_arith)
            requires
                count == 0,
        ;
    } else {
        lemma_batches_join_prefix(entries, capacity, count - 1);
        lemma_batch_len(entries, capacity, count - 1);
        lemma_batch_count_bounds(entries.len(), capacity);
        let last = batch_at(entries, capacity, count - 1);
        assert(all.take(count) =~= all.take(count - 1).push(last));
        all.take(count - 1).lemma_flatten_push(last);
        assert(count * c == (count - 1) * c + c) by (nonlinear_arith);
        assert((count - 1) * c < entries.len()) by (nonlinear_arith)
            requires
                count - 1 <= batch_count(entries.len(), capacity) - 1,
                (batch_count(entries.len(), capacity) - 1) * c < entries.len(),
                c > 0,
        ;
        assert(0 <= (count - 1) * c) by (nonlinear_arith)
            requires
                count >= 1,
                c > 0,
        ;
        assert(all.take(count).flatten() =~= entries.subrange(
            0,
            if count * c <= entries.len() {
                count * c
            } else {
                entries.len() as int
            },
        ));
    }
}

/// Joined in order, the batches of a run are the run.
pub proof fn lemma_batches_join<T>(entries: Seq<T>, capacity: nat)
    requires
        capacity > 0,
    ensures
        batches_of(entries, capacity).flatten() == entries,
{
    let all = batches_of(entries, capacity);
    let n = batch_count(entries.len(), capacity) as int;
    lemma_batches_join_prefix(entries, capacity, n);
    lemma_batch_count_bounds(entries.len(), capacity);
    assert(all.take(n) =~= all);
}

/// An empty run has no batch, and no other run has none.
pub proof fn lemma_no_batch_iff_empty<T>(entries: Seq<T>, capacity: nat)
    requires
        capacity > 0,
    ensures
        batches_of(entries, capacity).len() == 0 <==> entries.len() == 0,
{
    lemma_batch_count_bounds(entries.len(), capacity);
}

/// Cuts `entries` into batches of `capacity` records, the last one holding
/// what is left.
pub fn batches<'a, T>(entries: &'a [T], capacity: usize) -> (r: Vec<&'a [T]>)
    requires
        capacity > 0,
    ensures
        slice_views(r@) == batches_of(entries@, capacity as nat),
        slice_views(r@).flatten() == entries@,
        r@.len() == 0 <==> entries@.len() == 0,
        forall|i: int| 0 <= i < r@.len() ==> 0 < (#[trigger] r@[i])@.len() <= capacity,
        forall|i: int| 0 <= i < r@.len() - 1 ==> (#[trigger] r@[i])@.len() == capacity,
{
    let len = entries.len();
    let ghost all = batches_of(entries@, capacity as nat);
    let mut out: Vec<&'a [T]> = Vec::new();
    let mut start: usize = 0;
    proof {
        lemma_batch_count_bounds(len as nat, capacity as nat);
        assert(0 * capacity == 0) by (nonlinear_arith);
    }
    while start < len
        invariant
            capacity > 0,
            len == entries@.len(),
            all == batches_of(entries@, capacity as nat),
            start <= len,
            out@.len() <= all.len(),
            start < len ==> start == out@.len() * capacity,
            start == len ==> out@.len() == all.len(),
            slice_views(out@) == all.take(out@.len() as int),
        decreases len - start,
    {
        let ghost k = out@.len() as int;
        let end: usize = if len - start > capacity {
            start + capacity
        } else {
            len
        };
        proof {
            assert((k + 1) * capacity == k * capacity + capacity) by (nonlinear_arith);
            if end == len {
                lemma_batch_count_unique(len as nat, capacity as nat, k);
            } else {
                lemma_batch_count_bounds(len as nat, capacity as nat);
                assert(k + 1 < all.len()) by (nonlinear_arith)
                    requires
                        (k + 1) * capacity < len,
                        len <= all.len() * capacity,
                        capacity > 0,
                ;
            }
        }
        out.push(slice_subrange(entries, start, end));
        proof {
            assert(all.take(k + 1) =~= all.take(k).push(batch_at(entries@, capacity as nat, k)));
        }
        start = end;
    }
    proof {
        lemma_batches_join(entries@, capacity as nat);
        lemma_no_batch_iff_empty(entries@, capacity as nat);
        assert forall|i: int| 0 <= i < out@.len() implies 0 < (#[trigger] out@[i])@.len()
            <= capacity && (i < out@.len() - 1 ==> out@[i]@.len() == capacity) by {
            lemma_batch_len(entries@, capacity as nat, i);
            assert(slice_views(out@)[i] == out@[i]@);
        }
    }
    out
}

} // verus!
