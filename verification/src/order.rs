//! Putting things in order, such that things that stand alike stay as they
//! were.
use vstd::prelude::*;

verus! {

/// Whether `before` orders things: nothing comes before what comes before it,
/// and what lies between two that are in order parts them somewhere.
pub open spec fn is_order<A>(before: spec_fn(A, A) -> bool) -> bool {
    &&& forall|x: A, y: A| #[trigger] before(x, y) ==> !before(y, x)
    &&& forall|x: A, y: A, z: A|
        #![trigger before(x, z), before(x, y)]
        before(x, z) ==> before(x, y) || before(y, z)
}

/// Things in order with one more put in: behind everything that it does not
/// come before.
pub open spec fn put_in<A>(rows: Seq<A>, e: A, before: spec_fn(A, A) -> bool) -> Seq<A>
    decreases rows.len(),
{
    if rows.len() > 0 && before(e, rows.last()) {
        put_in(rows.drop_last(), e, before).push(rows.last())
    } else {
        rows.push(e)
    }
}

/// Things put in order, one after the other.
pub open spec fn sorted<A>(rows: Seq<A>, before: spec_fn(A, A) -> bool) -> Seq<A>
    decreases rows.len(),
{
    if rows.len() == 0 {
        rows
    } else {
        put_in(sorted(rows.drop_last(), before), rows.last(), before)
    }
}

/// Whether no thing comes before one that stands in front of it.
pub open spec fn in_order<A>(rows: Seq<A>, before: spec_fn(A, A) -> bool) -> bool {
    forall|i: int, j: int|
        0 <= i < j < rows.len() ==> !before(#[trigger] rows[j], #[trigger] rows[i])
}

/// The things that stand alike with `x`.
pub open spec fn alike<A>(rows: Seq<A>, x: A, before: spec_fn(A, A) -> bool) -> Seq<A> {
    rows.filter(|e: A| !before(e, x) && !before(x, e))
}

/// Where a thing is put in.
pub proof fn put_in_is_insert<A>(rows: Seq<A>, e: A, before: spec_fn(A, A) -> bool, k: int)
    requires
        0 <= k <= rows.len(),
        forall|j: int| k <= j < rows.len() ==> before(e, #[trigger] rows[j]),
        k > 0 ==> !before(e, rows[k - 1]),
    ensures
        put_in(rows, e, before) == rows.insert(k, e),
    decreases rows.len(),
{
    if k < rows.len() {
        put_in_is_insert(rows.drop_last(), e, before, k);
        assert(rows.drop_last().insert(k, e).push(rows.last()) =~= rows.insert(k, e));
    } else {
        assert(rows.push(e) =~= rows.insert(k, e));
    }
}

proof fn put_in_keeps_order<A>(rows: Seq<A>, e: A, before: spec_fn(A, A) -> bool)
    requires
        is_order(before),
        in_order(rows, before),
    ensures
        in_order(put_in(rows, e, before), before),
        put_in(rows, e, before).len() == rows.len() + 1,
        put_in(rows, e, before).to_multiset() == rows.to_multiset().insert(e),
        forall|i: int|
            0 <= i < put_in(rows, e, before).len() ==> #[trigger] put_in(rows, e, before)[i] == e
                || rows.contains(put_in(rows, e, before)[i]),
    decreases rows.len(),
{
    broadcast use vstd::seq_lib::group_to_multiset_ensures;

    let out = put_in(rows, e, before);
    if rows.len() > 0 && before(e, rows.last()) {
        let rest = rows.drop_last();
        let inner = put_in(rest, e, before);
        put_in_keeps_order(rest, e, before);
        vstd::seq_lib::to_multiset_build(inner, rows.last());
        vstd::seq_lib::to_multiset_build(rest, rows.last());
        assert(rows =~= rest.push(rows.last()));
        assert(out.to_multiset() =~= rows.to_multiset().insert(e));
        assert forall|i: int| 0 <= i < out.len() implies #[trigger] out[i] == e || rows.contains(
            out[i],
        ) by {
            if i < inner.len() {
                assert(out[i] == inner[i]);
                if inner[i] != e {
                    let k = choose|k: int| 0 <= k < rest.len() && rest[k] == inner[i];
                    assert(rows[k] == out[i]);
                }
            } else {
                assert(rows[rows.len() - 1] == out[i]);
            }
        }
        assert forall|i: int, j: int| 0 <= i < j < out.len() implies !before(
            #[trigger] out[j],
            #[trigger] out[i],
        ) by {
            assert(out[i] == inner[i]);
            if j < inner.len() {
                assert(out[j] == inner[j]);
            } else if inner[i] != e {
                let k = choose|k: int| 0 <= k < rest.len() && rest[k] == inner[i];
                assert(rows[k] == rest[k]);
                assert(rows[rows.len() - 1] == rows.last());
            }
        }
    } else {
        assert(out == rows.push(e));
        vstd::seq_lib::to_multiset_build(rows, e);
        assert forall|i: int, j: int| 0 <= i < j < out.len() implies !before(
            #[trigger] out[j],
            #[trigger] out[i],
        ) by {
            assert(out[i] == rows[i]);
            if j < rows.len() {
                assert(out[j] == rows[j]);
            } else {
                let last = rows.last();
                assert(rows[rows.len() - 1] == last);
                if i < rows.len() - 1 {
                    assert(!before(rows[rows.len() - 1], rows[i]));
                }
                if before(e, rows[i]) {
                    assert(before(e, last) || before(last, rows[i]));
                }
            }
        }
    }
}

proof fn put_in_behind_the_alike<A>(rows: Seq<A>, e: A, x: A, before: spec_fn(A, A) -> bool)
    requires
        is_order(before),
    ensures
        alike(put_in(rows, e, before), x, before) == alike(rows.push(e), x, before),
    decreases rows.len(),
{
    if rows.len() > 0 && before(e, rows.last()) {
        let p = |d: A| !before(d, x) && !before(x, d);
        let rest = rows.drop_last();
        let last = rows.last();
        put_in_behind_the_alike(rest, e, x, before);
        put_in(rest, e, before).lemma_filter_push(last, p);
        rest.lemma_filter_push(e, p);
        rest.lemma_filter_push(last, p);
        rows.lemma_filter_push(e, p);
        assert(rows =~= rest.push(last));
        if p(e) && p(last) {
            assert(before(e, x) || before(x, last));
        }
    }
}

/// Putting in order loses and invents nothing, leaves nothing behind what it
/// comes before, and keeps what stands alike as it was.
pub proof fn sorting_is_stable<A>(rows: Seq<A>, before: spec_fn(A, A) -> bool)
    requires
        is_order(before),
    ensures
        sorted(rows, before).len() == rows.len(),
        sorted(rows, before).to_multiset() == rows.to_multiset(),
        in_order(sorted(rows, before), before),
        forall|x: A| #[trigger] alike(sorted(rows, before), x, before) == alike(rows, x, before),
    decreases rows.len(),
{
    if rows.len() > 0 {
        let rest = rows.drop_last();
        let e = rows.last();
        let done = sorted(rest, before);
        sorting_is_stable(rest, before);
        put_in_keeps_order(done, e, before);
        vstd::seq_lib::to_multiset_build(rest, e);
        assert(rows =~= rest.push(e));
        assert forall|x: A| #[trigger]
            alike(sorted(rows, before), x, before) == alike(rows, x, before) by {
            let p = |d: A| !before(d, x) && !before(x, d);
            put_in_behind_the_alike(done, e, x, before);
            done.lemma_filter_push(e, p);
            rest.lemma_filter_push(e, p);
            assert(alike(done, x, before) == alike(rest, x, before));
        }
    }
}

/// What is put in order was there before.
pub proof fn sorted_holds_the_same<A>(rows: Seq<A>, before: spec_fn(A, A) -> bool, e: A)
    requires
        is_order(before),
    ensures
        sorted(rows, before).contains(e) <==> rows.contains(e),
{
    sorting_is_stable(rows, before);
    broadcast use vstd::seq_lib::group_to_multiset_ensures;

    assert(sorted(rows, before).to_multiset().count(e) == rows.to_multiset().count(e));
}

} // verus!
