//! Stable ordering by descending size.

use vstd::prelude::*;

verus! {

/// Something that is ranked by a size.
pub trait BySize: Sized {
    /// The size by which the value is ranked.
    spec fn size_key(&self) -> u64;

    /// Reads the size by which the value is ranked.
    fn size_key_of(&self) -> (k: u64)
        ensures
            k == self.size_key(),
    ;
}

/// The size of a ranked value, as a function.
pub open spec fn size_of<T: BySize>() -> spec_fn(T) -> int {
    |x: T| x.size_key() as int
}

/// `s` runs from the largest size to the smallest.
pub open spec fn is_descending<T>(s: Seq<T>, size: spec_fn(T) -> int) -> bool {
    forall|i: int, j: int| 0 <= i < j < s.len() ==> size(s[i]) >= size(s[j])
}

/// `x` put into the descending sequence `sorted`: behind everything that is
/// larger, in front of everything that is not.
pub open spec fn insert_desc<T>(sorted: Seq<T>, x: T, size: spec_fn(T) -> int) -> Seq<T>
    decreases sorted.len(),
{
    if sorted.len() == 0 {
        seq![x]
    } else if size(sorted.first()) > size(x) {
        seq![sorted.first()] + insert_desc(sorted.drop_first(), x, size)
    } else {
        seq![x] + sorted
    }
}

/// `s` in descending order of size. Values of equal size keep the order
/// they had in `s`.
pub open spec fn sort_desc<T>(s: Seq<T>, size: spec_fn(T) -> int) -> Seq<T>
    decreases s.len(),
{
    if s.len() == 0 {
        s
    } else {
        insert_desc(sort_desc(s.drop_first(), size), s.first(), size)
    }
}

/// Inserting is placing the value at the first position whose size does not
/// exceed its own.
pub proof fn lemma_insert_desc_at<T>(sorted: Seq<T>, x: T, size: spec_fn(T) -> int, at: int)
    requires
        0 <= at <= sorted.len(),
        forall|k: int| 0 <= k < at ==> size(sorted[k]) > size(x),
        at < sorted.len() ==> size(sorted[at]) <= size(x),
    ensures
        insert_desc(sorted, x, size) == sorted.insert(at, x),
    decreases at,
{
    if at == 0 {
        assert(seq![x] + sorted =~= sorted.insert(0, x));
    } else {
        let rest = sorted.drop_first();
        assert forall|k: int| 0 <= k < at - 1 implies size(rest[k]) > size(x) by {
            assert(rest[k] == sorted[k + 1]);
        }
        lemma_insert_desc_at(rest, x, size, at - 1);
        assert(seq![sorted.first()] + rest.insert(at - 1, x) =~= sorted.insert(at, x));
    }
}

/// Inserting adds one value and keeps all others.
pub proof fn lemma_insert_desc_multiset<T>(sorted: Seq<T>, x: T, size: spec_fn(T) -> int)
    ensures
        insert_desc(sorted, x, size).len() == sorted.len() + 1,
        insert_desc(sorted, x, size).to_multiset() == sorted.to_multiset().insert(x),
    decreases sorted.len(),
{
    broadcast use vstd::seq_lib::group_to_multiset_ensures;

    if sorted.len() == 0 {
        assert(seq![x] =~= Seq::<T>::empty().push(x));
        assert(sorted =~= Seq::<T>::empty());
    } else if size(sorted.first()) > size(x) {
        let rest = sorted.drop_first();
        lemma_insert_desc_multiset(rest, x, size);
        let tail = insert_desc(rest, x, size);
        assert(seq![sorted.first()] + tail =~= tail.insert(0, sorted.first()));
        assert(sorted =~= rest.insert(0, sorted.first()));
        assert(insert_desc(sorted, x, size).to_multiset() =~= sorted.to_multiset().insert(x));
    } else {
        assert(seq![x] + sorted =~= sorted.insert(0, x));
    }
}

/// What stands in the sequence after inserting is the value inserted or
/// stood in it before.
pub proof fn lemma_insert_desc_members<T>(sorted: Seq<T>, x: T, size: spec_fn(T) -> int)
    ensures
        forall|i: int|
            0 <= i < insert_desc(sorted, x, size).len() ==> #[trigger] insert_desc(
                sorted,
                x,
                size,
            )[i] == x || sorted.contains(insert_desc(sorted, x, size)[i]),
    decreases sorted.len(),
{
    let out = insert_desc(sorted, x, size);
    if sorted.len() == 0 {
    } else if size(sorted.first()) > size(x) {
        let rest = sorted.drop_first();
        let tail = insert_desc(rest, x, size);
        lemma_insert_desc_members(rest, x, size);
        assert forall|i: int| 0 <= i < out.len() implies #[trigger] out[i] == x || sorted.contains(
            out[i],
        ) by {
            if i > 0 {
                assert(out[i] == tail[i - 1]);
                if tail[i - 1] != x {
                    let k = choose|k: int| 0 <= k < rest.len() && rest[k] == tail[i - 1];
                    assert(sorted[k + 1] == out[i]);
                }
            } else {
                assert(sorted[0] == out[0]);
            }
        }
    } else {
        assert forall|i: int| 0 <= i < out.len() implies #[trigger] out[i] == x || sorted.contains(
            out[i],
        ) by {
            if i > 0 {
                assert(sorted[i - 1] == out[i]);
            }
        }
    }
}

/// Inserting into a descending sequence gives a descending sequence.
pub proof fn lemma_insert_desc_descending<T>(sorted: Seq<T>, x: T, size: spec_fn(T) -> int)
    requires
        is_descending(sorted, size),
    ensures
        is_descending(insert_desc(sorted, x, size), size),
    decreases sorted.len(),
{
    let out = insert_desc(sorted, x, size);
    if sorted.len() == 0 {
    } else if size(sorted.first()) > size(x) {
        let rest = sorted.drop_first();
        let tail = insert_desc(rest, x, size);
        assert forall|i: int, j: int| 0 <= i < j < rest.len() implies size(rest[i])
            >= size(rest[j]) by {
            assert(rest[i] == sorted[i + 1] && rest[j] == sorted[j + 1]);
        }
        lemma_insert_desc_descending(rest, x, size);
        lemma_insert_desc_members(rest, x, size);
        assert forall|i: int, j: int| 0 <= i < j < out.len() implies size(out[i])
            >= size(out[j]) by {
            assert(out[j] == tail[j - 1]);
            if i > 0 {
                assert(out[i] == tail[i - 1]);
            } else if tail[j - 1] != x {
                let k = choose|k: int| 0 <= k < rest.len() && rest[k] == tail[j - 1];
                assert(rest[k] == sorted[k + 1]);
            }
        }
    } else {
        assert forall|i: int, j: int| 0 <= i < j < out.len() implies size(out[i])
            >= size(out[j]) by {
            assert(out[j] == sorted[j - 1]);
            if i > 0 {
                assert(out[i] == sorted[i - 1]);
            }
        }
    }
}

/// What `sort_desc` gives is in descending order and holds the same values
/// as its argument, each as often.
pub proof fn lemma_sort_desc<T>(s: Seq<T>, size: spec_fn(T) -> int)
    ensures
        is_descending(sort_desc(s, size), size),
        sort_desc(s, size).len() == s.len(),
        sort_desc(s, size).to_multiset() == s.to_multiset(),
    decreases s.len(),
{
    broadcast use vstd::seq_lib::group_to_multiset_ensures;

    if s.len() > 0 {
        let rest = s.drop_first();
        lemma_sort_desc(rest, size);
        lemma_insert_desc_descending(sort_desc(rest, size), s.first(), size);
        lemma_insert_desc_multiset(sort_desc(rest, size), s.first(), size);
        assert(s =~= rest.insert(0, s.first()));
    }
}

/// Sorting neither adds a value nor loses one.
pub proof fn lemma_sort_desc_contains<T>(s: Seq<T>, size: spec_fn(T) -> int, x: T)
    ensures
        sort_desc(s, size).contains(x) <==> s.contains(x),
{
    lemma_sort_desc(s, size);
    vstd::seq_lib::to_multiset_contains(s, x);
    vstd::seq_lib::to_multiset_contains(sort_desc(s, size), x);
}

/// Holds of the values whose size is `k`.
pub open spec fn has_size<T>(size: spec_fn(T) -> int, k: int) -> spec_fn(T) -> bool {
    |x: T| size(x) == k
}

/// Of a single value, those that the predicate holds of are that value or
/// none.
proof fn lemma_filter_one<T>(x: T, p: spec_fn(T) -> bool)
    ensures
        seq![x].filter(p) == if p(x) {
            seq![x]
        } else {
            Seq::<T>::empty()
        },
{
    let none = Seq::<T>::empty();
    assert(none.filter(p) =~= none) by {
        reveal(Seq::filter);
    }
    none.lemma_filter_push(x, p);
    assert(none.push(x) =~= seq![x]);
}

/// Inserting puts the value in front of the values of its own size and
/// leaves the values of every size in their order.
pub proof fn lemma_insert_desc_keeps_order<T>(sorted: Seq<T>, x: T, size: spec_fn(T) -> int, k: int)
    ensures
        insert_desc(sorted, x, size).filter(has_size(size, k)) == if size(x) == k {
            seq![x] + sorted.filter(has_size(size, k))
        } else {
            sorted.filter(has_size(size, k))
        },
    decreases sorted.len(),
{
    let p = has_size(size, k);
    lemma_filter_one(x, p);
    if sorted.len() == 0 {
        assert(sorted.filter(p) =~= Seq::<T>::empty()) by {
            reveal(Seq::filter);
        }
        assert(seq![x] + Seq::<T>::empty() =~= seq![x]);
    } else if size(sorted.first()) > size(x) {
        let first = seq![sorted.first()];
        let rest = sorted.drop_first();
        lemma_insert_desc_keeps_order(rest, x, size, k);
        Seq::filter_distributes_over_add(first, insert_desc(rest, x, size), p);
        Seq::filter_distributes_over_add(first, rest, p);
        assert(first + rest =~= sorted);
        lemma_filter_one(sorted.first(), p);
        if size(x) == k {
            assert(Seq::<T>::empty() + (seq![x] + rest.filter(p)) =~= seq![x] + (Seq::<T>::empty()
                + rest.filter(p)));
        }
    } else {
        Seq::filter_distributes_over_add(seq![x], sorted, p);
        if size(x) != k {
            assert(Seq::<T>::empty() + sorted.filter(p) =~= sorted.filter(p));
        }
    }
}

/// Sorting is stable: the values of any one size stand in the sorted
/// sequence in the order in which they stood before.
pub proof fn lemma_sort_desc_stable<T>(s: Seq<T>, size: spec_fn(T) -> int, k: int)
    ensures
        sort_desc(s, size).filter(has_size(size, k)) == s.filter(has_size(size, k)),
    decreases s.len(),
{
    let p = has_size(size, k);
    if s.len() > 0 {
        let first = seq![s.first()];
        let rest = s.drop_first();
        lemma_sort_desc_stable(rest, size, k);
        lemma_insert_desc_keeps_order(sort_desc(rest, size), s.first(), size, k);
        Seq::filter_distributes_over_add(first, rest, p);
        assert(first + rest =~= s);
        lemma_filter_one(s.first(), p);
        if size(s.first()) != k {
            assert(Seq::<T>::empty() + rest.filter(p) =~= rest.filter(p));
        }
    }
}

/// No two values of `s` have the same key.
pub open spec fn distinct_by<T, K>(s: Seq<T>, key: spec_fn(T) -> K) -> bool {
    forall|i: int, j: int| 0 <= i < j < s.len() ==> key(s[i]) != key(s[j])
}

/// Inserting a value with a new key keeps the keys distinct.
pub proof fn lemma_insert_desc_distinct<T, K>(
    sorted: Seq<T>,
    x: T,
    size: spec_fn(T) -> int,
    key: spec_fn(T) -> K,
)
    requires
        distinct_by(sorted, key),
        forall|k: int| 0 <= k < sorted.len() ==> key(#[trigger] sorted[k]) != key(x),
    ensures
        distinct_by(insert_desc(sorted, x, size), key),
    decreases sorted.len(),
{
    let out = insert_desc(sorted, x, size);
    if sorted.len() == 0 {
    } else if size(sorted.first()) > size(x) {
        let rest = sorted.drop_first();
        let tail = insert_desc(rest, x, size);
        assert forall|i: int, j: int| 0 <= i < j < rest.len() implies key(rest[i]) != key(
            rest[j],
        ) by {
            assert(rest[i] == sorted[i + 1] && rest[j] == sorted[j + 1]);
        }
        assert forall|k: int| 0 <= k < rest.len() implies key(#[trigger] rest[k]) != key(x) by {
            assert(rest[k] == sorted[k + 1]);
        }
        lemma_insert_desc_distinct(rest, x, size, key);
        lemma_insert_desc_members(rest, x, size);
        assert forall|i: int, j: int| 0 <= i < j < out.len() implies key(out[i]) != key(out[j]) by {
            assert(out[j] == tail[j - 1]);
            if i > 0 {
                assert(out[i] == tail[i - 1]);
            } else if tail[j - 1] != x {
                let k = choose|k: int| 0 <= k < rest.len() && rest[k] == tail[j - 1];
                assert(rest[k] == sorted[k + 1]);
            } else {
                assert(key(sorted[0]) != key(x));
            }
        }
    } else {
        assert forall|i: int, j: int| 0 <= i < j < out.len() implies key(out[i]) != key(out[j]) by {
            assert(out[j] == sorted[j - 1]);
            if i > 0 {
                assert(out[i] == sorted[i - 1]);
            }
        }
    }
}

/// Sorting keeps the keys distinct.
pub proof fn lemma_sort_desc_distinct<T, K>(s: Seq<T>, size: spec_fn(T) -> int, key: spec_fn(T) -> K)
    requires
        distinct_by(s, key),
    ensures
        distinct_by(sort_desc(s, size), key),
    decreases s.len(),
{
    if s.len() > 0 {
        let rest = s.drop_first();
        let sorted = sort_desc(rest, size);
        assert forall|i: int, j: int| 0 <= i < j < rest.len() implies key(rest[i]) != key(
            rest[j],
        ) by {
            assert(rest[i] == s[i + 1] && rest[j] == s[j + 1]);
        }
        lemma_sort_desc_distinct(rest, size, key);
        assert forall|k: int| 0 <= k < sorted.len() implies key(#[trigger] sorted[k]) != key(
            s.first(),
        ) by {
            assert(sorted.contains(sorted[k]));
            lemma_sort_desc_contains(rest, size, sorted[k]);
            let m = choose|m: int| 0 <= m < rest.len() && rest[m] == sorted[k];
            assert(rest[m] == s[m + 1]);
        }
        lemma_insert_desc_distinct(sorted, s.first(), size, key);
    }
}

/// Choosing among the values keeps the keys distinct.
pub proof fn lemma_filter_distinct<T, K>(s: Seq<T>, chosen: spec_fn(T) -> bool, key: spec_fn(T) -> K)
    requires
        distinct_by(s, key),
    ensures
        distinct_by(s.filter(chosen), key),
    decreases s.len(),
{
    reveal(Seq::filter);
    if s.len() > 0 {
        let init = s.drop_last();
        let kept = init.filter(chosen);
        assert forall|i: int, j: int| 0 <= i < j < init.len() implies key(init[i]) != key(
            init[j],
        ) by {
            assert(init[i] == s[i] && init[j] == s[j]);
        }
        lemma_filter_distinct(init, chosen, key);
        if chosen(s.last()) {
            let out = kept.push(s.last());
            assert forall|i: int, j: int| 0 <= i < j < out.len() implies key(out[i]) != key(
                out[j],
            ) by {
                if j == kept.len() {
                    assert(kept.contains(kept[i]));
                    init.lemma_filter_contains_rev(chosen, kept[i]);
                    let m = choose|m: int| 0 <= m < init.len() && init[m] == kept[i];
                    assert(init[m] == s[m]);
                }
            }
        }
    }
}

/// Inserting and then mapping is mapping and then inserting, where the
/// mapping keeps the sizes.
pub proof fn lemma_insert_desc_map<A, B>(
    sorted: Seq<A>,
    x: A,
    f: spec_fn(A) -> B,
    size_a: spec_fn(A) -> int,
    size_b: spec_fn(B) -> int,
)
    requires
        forall|a: A| size_b(#[trigger] f(a)) == size_a(a),
    ensures
        insert_desc(sorted.map_values(f), f(x), size_b) == insert_desc(sorted, x, size_a).map_values(
            f,
        ),
    decreases sorted.len(),
{
    let mapped = sorted.map_values(f);
    if sorted.len() == 0 {
        assert(seq![f(x)] =~= seq![x].map_values(f));
    } else if size_a(sorted.first()) > size_a(x) {
        lemma_insert_desc_map(sorted.drop_first(), x, f, size_a, size_b);
        assert(mapped.drop_first() =~= sorted.drop_first().map_values(f));
        assert(seq![mapped.first()] + insert_desc(sorted.drop_first(), x, size_a).map_values(f) =~= (
        seq![sorted.first()] + insert_desc(sorted.drop_first(), x, size_a)).map_values(f));
    } else {
        assert(seq![f(x)] + mapped =~= (seq![x] + sorted).map_values(f));
    }
}

/// Sorting and then mapping is mapping and then sorting, where the mapping
/// keeps the sizes.
pub proof fn lemma_sort_desc_map<A, B>(
    s: Seq<A>,
    f: spec_fn(A) -> B,
    size_a: spec_fn(A) -> int,
    size_b: spec_fn(B) -> int,
)
    requires
        forall|a: A| size_b(#[trigger] f(a)) == size_a(a),
    ensures
        sort_desc(s.map_values(f), size_b) == sort_desc(s, size_a).map_values(f),
    decreases s.len(),
{
    if s.len() == 0 {
        assert(s.map_values(f) =~= sort_desc(s, size_a).map_values(f));
    } else {
        lemma_sort_desc_map(s.drop_first(), f, size_a, size_b);
        assert(s.map_values(f).drop_first() =~= s.drop_first().map_values(f));
        lemma_insert_desc_map(sort_desc(s.drop_first(), size_a), s.first(), f, size_a, size_b);
    }
}

/// Sorts by descending size; values of equal size keep their order.
pub fn sort_by_size_desc<T: BySize>(v: Vec<T>) -> (r: Vec<T>)
    ensures
        r@ == sort_desc(v@, size_of::<T>()),
{
    let mut rest = v;
    let ghost all = rest@;
    let mut out: Vec<T> = Vec::new();
    assert(all.skip(all.len() as int) =~= Seq::<T>::empty());
    while rest.len() > 0
        invariant
            rest@ == all.take(rest.len() as int),
            rest.len() <= all.len(),
            out@ == sort_desc(all.skip(rest.len() as int), size_of::<T>()),
        decreases rest.len(),
    {
        let ghost n = rest.len() as int;
        let x = rest.pop().unwrap();
        let key = x.size_key_of();
        let mut at: usize = 0;
        while at < out.len() && out[at].size_key_of() > key
            invariant
                at <= out.len(),
                key == x.size_key(),
                forall|k: int| 0 <= k < at ==> out@[k].size_key() > x.size_key(),
            decreases out.len() - at,
        {
            at += 1;
        }
        proof {
            lemma_insert_desc_at(out@, x, size_of::<T>(), at as int);
            assert(all.skip(n - 1).first() == x);
            assert(all.skip(n - 1).drop_first() =~= all.skip(n));
            assert(rest@ =~= all.take(n - 1));
        }
        out.insert(at, x);
    }
    assert(all.skip(0) =~= all);
    out
}

} // verus!
