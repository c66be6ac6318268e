//! Filter/sort stage: drops self-authored items and orders the rest by
//! recency, newest first, with a stable order among equal timestamps.
//!
//! The mathematical model is `spec_process`: filter out items whose reason
//! tag is the self-authored marker, then apply `sort_desc`, an insertion
//! sort that places a later-arriving item after every earlier item with the
//! same or a newer timestamp. Stability is therefore part of the model
//! itself: ties on `updated_at` keep their original response order.

use vstd::prelude::*;

use crate::notification::Notification;

verus! {

/// An item is actionable unless the consumer authored it themselves.
pub open spec fn is_actionable(n: Notification) -> bool {
    n.reason@ != "author"@
}

/// The actionable items of a batch, in their original order.
pub open spec fn actionable_of(s: Seq<Notification>) -> Seq<Notification> {
    s.filter(|n: Notification| is_actionable(n))
}

/// Ordered by `updated_at` descending (non-strictly: ties are allowed).
pub open spec fn sorted_desc(s: Seq<Notification>) -> bool {
    forall|a: int, b: int|
        #![trigger s[a], s[b]]
        0 <= a <= b < s.len() ==> s[a].updated_at >= s[b].updated_at
}

/// Inserts `x` into a sequence, after every leading element whose timestamp
/// is at least `x`'s. On a sorted-descending sequence this is the stable
/// insertion position: `x` lands behind all earlier items it ties with.
pub open spec fn insert_desc(x: Notification, s: Seq<Notification>) -> Seq<Notification>
    decreases s.len(),
{
    if s.len() == 0 {
        seq![x]
    } else if s.first().updated_at >= x.updated_at {
        seq![s.first()] + insert_desc(x, s.drop_first())
    } else {
        seq![x] + s
    }
}

/// Stable insertion sort, newest first: items are taken in input order and
/// each is inserted behind the already-placed items it ties with.
pub open spec fn sort_desc(s: Seq<Notification>) -> Seq<Notification>
    decreases s.len(),
{
    if s.len() == 0 {
        Seq::empty()
    } else {
        insert_desc(s.last(), sort_desc(s.drop_last()))
    }
}

/// What the filter/sort stage returns for a batch: its actionable items,
/// stably sorted by recency descending.
pub open spec fn spec_process(s: Seq<Notification>) -> Seq<Notification> {
    sort_desc(actionable_of(s))
}

/// Number of leading elements of `s` whose timestamp is at least `x`'s.
spec fn ge_prefix_len(x: Notification, s: Seq<Notification>) -> int
    decreases s.len(),
{
    if s.len() == 0 {
        0
    } else if s.first().updated_at >= x.updated_at {
        1 + ge_prefix_len(x, s.drop_first())
    } else {
        0
    }
}

proof fn lemma_ge_prefix_len_props(x: Notification, s: Seq<Notification>)
    ensures
        0 <= ge_prefix_len(x, s) <= s.len(),
        forall|j: int| 0 <= j < ge_prefix_len(x, s) ==> s[j].updated_at >= x.updated_at,
        ge_prefix_len(x, s) < s.len() ==> s[ge_prefix_len(x, s)].updated_at < x.updated_at,
    decreases s.len(),
{
    if s.len() > 0 && s.first().updated_at >= x.updated_at {
        lemma_ge_prefix_len_props(x, s.drop_first());
        assert forall|j: int| 0 <= j < ge_prefix_len(x, s) implies s[j].updated_at
            >= x.updated_at by {
            if j > 0 {
                assert(s.drop_first()[j - 1] == s[j]);
            }
        }
    }
}

/// Where `i` is the boundary between the leading elements at least as recent
/// as `x` and the rest, inserting `x` splits the sequence exactly there.
proof fn lemma_insert_desc_split(x: Notification, s: Seq<Notification>, i: int)
    requires
        0 <= i <= s.len(),
        forall|j: int| 0 <= j < i ==> s[j].updated_at >= x.updated_at,
        i < s.len() ==> s[i].updated_at < x.updated_at,
    ensures
        insert_desc(x, s) == s.take(i) + seq![x] + s.skip(i),
    decreases i,
{
    if i == 0 {
        assert(insert_desc(x, s) =~= s.take(0) + seq![x] + s.skip(0));
    } else {
        let t = s.drop_first();
        assert(forall|j: int| 0 <= j < i - 1 ==> t[j].updated_at >= x.updated_at);
        lemma_insert_desc_split(x, t, i - 1);
        assert(seq![s.first()] + (t.take(i - 1) + seq![x] + t.skip(i - 1)) =~= s.take(i)
            + seq![x] + s.skip(i));
    }
}

/// Inserting into a sorted-descending sequence at the boundary keeps it
/// sorted descending.
proof fn lemma_sorted_after_insert(x: Notification, s: Seq<Notification>, i: int)
    requires
        sorted_desc(s),
        0 <= i <= s.len(),
        forall|j: int| 0 <= j < i ==> s[j].updated_at >= x.updated_at,
        i < s.len() ==> s[i].updated_at < x.updated_at,
    ensures
        sorted_desc(s.take(i) + seq![x] + s.skip(i)),
{
    let r = s.take(i) + seq![x] + s.skip(i);
    assert forall|a: int, b: int| 0 <= a <= b < r.len() implies r[a].updated_at
        >= r[b].updated_at by {
        if a < i {
            assert(r[a] == s[a]);
        } else if a == i {
            assert(r[a] == x);
        } else {
            assert(r[a] == s[a - 1]);
        }
        if b < i {
            assert(r[b] == s[b]);
        } else if b == i {
            assert(r[b] == x);
        } else {
            assert(r[b] == s[b - 1]);
        }
    }
}

/// Inserting `x` into a sorted-descending sequence keeps it sorted.
proof fn lemma_insert_desc_sorted(x: Notification, s: Seq<Notification>)
    requires
        sorted_desc(s),
    ensures
        sorted_desc(insert_desc(x, s)),
{
    let i = ge_prefix_len(x, s);
    lemma_ge_prefix_len_props(x, s);
    lemma_insert_desc_split(x, s, i);
    lemma_sorted_after_insert(x, s, i);
}

/// Every element of `insert_desc(x, s)` is `x` or an element of `s`.
proof fn lemma_insert_desc_elems(x: Notification, s: Seq<Notification>)
    ensures
        forall|k: int|
            0 <= k < insert_desc(x, s).len() ==> (#[trigger] insert_desc(x, s)[k] == x
                || s.contains(insert_desc(x, s)[k])),
{
    let i = ge_prefix_len(x, s);
    lemma_ge_prefix_len_props(x, s);
    lemma_insert_desc_split(x, s, i);
    let r = insert_desc(x, s);
    assert forall|k: int| 0 <= k < r.len() implies (r[k] == x || s.contains(r[k])) by {
        if k < i {
            assert(r[k] == s[k]);
            assert(s.contains(r[k]));
        } else if k > i {
            assert(r[k] == s[k - 1]);
            assert(s.contains(r[k]));
        }
    }
}

/// The spec sort of any batch is sorted descending.
pub proof fn lemma_sort_desc_sorted(s: Seq<Notification>)
    ensures
        sorted_desc(sort_desc(s)),
    decreases s.len(),
{
    if s.len() > 0 {
        lemma_sort_desc_sorted(s.drop_last());
        lemma_insert_desc_sorted(s.last(), sort_desc(s.drop_last()));
    }
}

/// Every element of `sort_desc(s)` is an element of `s`.
proof fn lemma_sort_desc_elems(s: Seq<Notification>)
    ensures
        forall|k: int|
            0 <= k < sort_desc(s).len() ==> s.contains(#[trigger] sort_desc(s)[k]),
    decreases s.len(),
{
    if s.len() > 0 {
        let t = s.drop_last();
        lemma_sort_desc_elems(t);
        lemma_insert_desc_elems(s.last(), sort_desc(t));
        assert forall|k: int| 0 <= k < sort_desc(s).len() implies s.contains(
            #[trigger] sort_desc(s)[k],
        ) by {
            let e = sort_desc(s)[k];
            if e == s.last() {
                assert(s[s.len() - 1] == e);
            } else {
                assert(sort_desc(t).contains(e));
                let j = choose|j: int| 0 <= j < sort_desc(t).len() && sort_desc(t)[j] == e;
                assert(t.contains(e));
                let m = choose|m: int| 0 <= m < t.len() && t[m] == e;
                assert(s[m] == e);
            }
        }
    }
}

/// A sequence that is already sorted descending comes back unchanged: the
/// sort never reorders ties, so it is the identity on sorted input.
pub proof fn lemma_sort_desc_of_sorted(s: Seq<Notification>)
    requires
        sorted_desc(s),
    ensures
        sort_desc(s) == s,
    decreases s.len(),
{
    if s.len() > 0 {
        let t = s.drop_last();
        lemma_sort_desc_of_sorted(t);
        lemma_insert_desc_split(s.last(), t, t.len() as int);
        assert(t.take(t.len() as int) + seq![s.last()] + t.skip(t.len() as int) =~= s);
    }
}

/// A batch whose elements are all actionable is left whole by the filter.
proof fn lemma_actionable_of_all_kept(s: Seq<Notification>)
    requires
        forall|k: int| 0 <= k < s.len() ==> is_actionable(#[trigger] s[k]),
    ensures
        actionable_of(s) == s,
    decreases s.len(),
{
    reveal(Seq::filter);
    if s.len() > 0 {
        let t = s.drop_last();
        assert(forall|k: int| 0 <= k < t.len() ==> is_actionable(#[trigger] t[k]));
        lemma_actionable_of_all_kept(t);
        assert(is_actionable(s.last()));
        assert(actionable_of(s) =~= s);
    } else {
        assert(actionable_of(s) =~= s);
    }
}

/// Appending one item to a batch either appends it to the actionable items
/// or leaves them unchanged, depending on its reason tag.
proof fn lemma_actionable_of_push(s: Seq<Notification>, x: Notification)
    ensures
        is_actionable(x) ==> actionable_of(s.push(x)) == actionable_of(s).push(x),
        !is_actionable(x) ==> actionable_of(s.push(x)) == actionable_of(s),
{
    reveal(Seq::filter);
    assert(s.push(x).drop_last() =~= s);
    assert(s.push(x).last() == x);
}

/// Sorting a batch extended by one item is inserting that item into the
/// sorted batch.
proof fn lemma_sort_desc_push(s: Seq<Notification>, x: Notification)
    ensures
        sort_desc(s.push(x)) == insert_desc(x, sort_desc(s)),
{
    assert(s.push(x).drop_last() =~= s);
    assert(s.push(x).last() == x);
}

/// Insertion adds exactly one occurrence of the inserted item and keeps
/// every other count.
proof fn lemma_insert_desc_multiset(x: Notification, s: Seq<Notification>)
    ensures
        insert_desc(x, s).to_multiset() == s.to_multiset().insert(x),
    decreases s.len(),
{
    broadcast use vstd::seq_lib::group_to_multiset_ensures;
    broadcast use vstd::multiset::group_multiset_axioms;

    let r = insert_desc(x, s);
    if s.len() == 0 {
        assert(r =~= Seq::<Notification>::empty().push(x));
    } else if s.first().updated_at >= x.updated_at {
        let t = s.drop_first();
        lemma_insert_desc_multiset(x, t);
        assert(r.remove(0) =~= insert_desc(x, t));
        assert(s.remove(0) =~= t);
        let e = s[0];
        assert(r[0] == e);
        assert(r.contains(e));
        assert(s.contains(e));
        assert(r.to_multiset().remove(e) == t.to_multiset().insert(x));
        assert(s.to_multiset().remove(e) == t.to_multiset());
        assert(r.to_multiset().count(e) > 0);
        assert(s.to_multiset().count(e) > 0);
        assert forall|y: Notification|
            r.to_multiset().count(y) == s.to_multiset().insert(x).count(y) by {
            assert(r.to_multiset().remove(e).count(y) == t.to_multiset().insert(x).count(y));
            assert(s.to_multiset().remove(e).count(y) == t.to_multiset().count(y));
        }
        assert(r.to_multiset() =~= s.to_multiset().insert(x));
    } else {
        assert(r.remove(0) =~= s);
        assert(r[0] == x);
        assert(r.contains(x));
        assert(r.to_multiset().remove(x) == s.to_multiset());
        assert(r.to_multiset().count(x) > 0);
        assert forall|y: Notification|
            r.to_multiset().count(y) == s.to_multiset().insert(x).count(y) by {
            assert(r.to_multiset().remove(x).count(y) == s.to_multiset().count(y));
        }
        assert(r.to_multiset() =~= s.to_multiset().insert(x));
    }
}

/// Sorting permutes: every item keeps its multiplicity.
pub proof fn lemma_sort_desc_multiset(s: Seq<Notification>)
    ensures
        sort_desc(s).to_multiset() == s.to_multiset(),
    decreases s.len(),
{
    broadcast use vstd::seq_lib::group_to_multiset_ensures;

    if s.len() > 0 {
        let t = s.drop_last();
        lemma_sort_desc_multiset(t);
        lemma_insert_desc_multiset(s.last(), sort_desc(t));
        assert(t.push(s.last()) =~= s);
    }
}

/// The processed batch holds each actionable input item exactly as often as
/// the input does — the stage neither drops nor duplicates deliverable
/// items, it only reorders what the filter keeps.
pub proof fn lemma_process_counts(s: Seq<Notification>)
    ensures
        spec_process(s).to_multiset() == actionable_of(s).to_multiset(),
{
    lemma_sort_desc_multiset(actionable_of(s));
}

/// The filter/sort stage is idempotent: processing an already-processed
/// batch returns it unchanged, because its self-authored items are gone and
/// the stable sort is the identity on sorted input.
pub proof fn lemma_process_idempotent(s: Seq<Notification>)
    ensures
        spec_process(spec_process(s)) == spec_process(s),
{
    broadcast use vstd::seq_lib::group_filter_ensures;

    let f = actionable_of(s);
    let r = sort_desc(f);
    lemma_sort_desc_sorted(f);
    lemma_sort_desc_elems(f);
    assert forall|k: int| 0 <= k < r.len() implies is_actionable(#[trigger] r[k]) by {
        assert(f.contains(r[k]));
        let j = choose|j: int| 0 <= j < f.len() && f[j] == r[k];
        assert(is_actionable(f[j]));
    }
    lemma_actionable_of_all_kept(r);
    lemma_sort_desc_of_sorted(r);
}

/// Inserts `x` into a vector already sorted by recency descending, behind
/// every leading item at least as recent as `x`.
fn insert_by_recency(v: Vec<Notification>, x: Notification) -> (r: Vec<Notification>)
    requires
        sorted_desc(v@),
    ensures
        r@ == insert_desc(x, v@),
        sorted_desc(r@),
{
    let mut idx: usize = 0;
    while idx < v.len()
        invariant
            idx <= v@.len(),
            forall|j: int| 0 <= j < idx ==> v@[j].updated_at >= x.updated_at,
        ensures
            idx <= v@.len(),
            forall|j: int| 0 <= j < idx ==> v@[j].updated_at >= x.updated_at,
            idx < v@.len() ==> v@[idx as int].updated_at < x.updated_at,
        decreases v@.len() - idx,
    {
        if v[idx].updated_at < x.updated_at {
            break ;
        }
        idx = idx + 1;
    }
    proof {
        lemma_insert_desc_split(x, v@, idx as int);
        lemma_sorted_after_insert(x, v@, idx as int);
        assert(v@.subrange(0, idx as int).push(x).add(
            v@.subrange(idx as int, v@.len() as int),
        ) =~= v@.take(idx as int) + seq![x] + v@.skip(idx as int));
    }
    let mut r = v;
    r.insert(idx, x);
    r
}

/// Filter/sort stage of one poll cycle: drops the self-authored items and
/// returns the rest ordered by `updated_at` descending, ties keeping their
/// original response order. Pure: the result is a function of the batch.
pub fn process(items: Vec<Notification>) -> (r: Vec<Notification>)
    ensures
        r@ == spec_process(items@),
        sorted_desc(r@),
{
    let marker: String = "author".to_owned();
    let mut rest = items;
    let ghost orig: Seq<Notification> = rest@;
    let ghost mut done: Seq<Notification> = Seq::empty();
    let mut out: Vec<Notification> = Vec::new();
    proof {
        reveal(Seq::filter);
        assert(actionable_of(done) =~= Seq::<Notification>::empty());
    }
    while rest.len() > 0
        invariant
            orig == done + rest@,
            out@ == spec_process(done),
            sorted_desc(out@),
            marker@ == "author"@,
        decreases rest.len(),
    {
        let ghost prev_done = done;
        let ghost prev_rest = rest@;
        let x = rest.remove(0);
        proof {
            done = done.push(x);
            assert(prev_done.push(x) + prev_rest.remove(0) =~= prev_done + prev_rest);
            lemma_actionable_of_push(prev_done, x);
        }
        if !(x.reason == marker) {
            proof {
                lemma_sort_desc_push(actionable_of(prev_done), x);
            }
            out = insert_by_recency(out, x);
        }
    }
    proof {
        assert(done + rest@ =~= done);
    }
    out
}

} // verus!
