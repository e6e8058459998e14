//! Stable sorting.
use crate::text;
use vstd::prelude::*;

verus! {

/// A type whose values are ranked by a total preorder.
pub trait Sortable: Sized {
    /// Whether `self` ranks before `other` or alike.
    spec fn at_most(self, other: Self) -> bool;

    proof fn at_most_total(a: Self, b: Self)
        ensures
            a.at_most(b) || b.at_most(a),
    ;

    proof fn at_most_transitive(a: Self, b: Self, c: Self)
        requires
            a.at_most(b),
            b.at_most(c),
        ensures
            a.at_most(c),
    ;

    fn is_at_most(&self, other: &Self) -> (r: bool)
        ensures
            r == self.at_most(*other),
    ;
}

/// Whether a list stands in the order of its ranks.
pub open spec fn sorted<T: Sortable>(s: Seq<T>) -> bool {
    forall|i: int, j: int| 0 <= i < j < s.len() ==> (#[trigger] s[i]).at_most(#[trigger] s[j])
}

/// The test for values that rank alike.
pub open spec fn alike<T: Sortable>(x: T) -> spec_fn(T) -> bool {
    |t: T| t.at_most(x) && x.at_most(t)
}

/// Whether `after` is `before` in sorted order, with the values that rank alike in the order
/// in which they came.
pub open spec fn stable_sort_of<T: Sortable>(before: Seq<T>, after: Seq<T>) -> bool {
    &&& sorted(after)
    &&& after.to_multiset() == before.to_multiset()
    &&& forall|x: T| after.filter(#[trigger] alike(x)) == before.filter(alike(x))
}

proof fn insert_keeps_stable<T: Sortable>(rest: Seq<T>, sorted_rest: Seq<T>, x: T, p: int)
    requires
        stable_sort_of(rest, sorted_rest),
        0 <= p <= sorted_rest.len(),
        forall|i: int| 0 <= i < p ==> !x.at_most(#[trigger] sorted_rest[i]),
        p < sorted_rest.len() ==> x.at_most(sorted_rest[p]),
    ensures
        stable_sort_of(seq![x] + rest, sorted_rest.insert(p, x)),
{
    broadcast use vstd::seq_lib::group_to_multiset_ensures;

    let before = seq![x] + rest;
    let after = sorted_rest.insert(p, x);
    assert(before =~= rest.insert(0, x));
    vstd::seq_lib::to_multiset_insert(rest, 0, x);
    vstd::seq_lib::to_multiset_insert(sorted_rest, p, x);
    assert forall|i: int, j: int| 0 <= i < j < after.len() implies (#[trigger] after[i]).at_most(
        #[trigger] after[j],
    ) by {
        if i < p && j == p {
            T::at_most_total(x, sorted_rest[i]);
        } else if i == p {
            if j - 1 > p {
                T::at_most_transitive(x, sorted_rest[p], sorted_rest[j - 1]);
            }
        } else if i < p && j > p {
            assert(after[j] == sorted_rest[j - 1]);
        }
    }
    let low = sorted_rest.take(p);
    let high = sorted_rest.skip(p);
    assert(sorted_rest =~= low + high);
    assert(after =~= low + (seq![x] + high));
    assert forall|y: T| after.filter(#[trigger] alike(y)) == before.filter(alike(y)) by {
        let f = alike(y);
        Seq::<T>::filter_distributes_over_add(low, seq![x] + high, f);
        Seq::<T>::filter_distributes_over_add(seq![x], high, f);
        Seq::<T>::filter_distributes_over_add(low, high, f);
        Seq::<T>::filter_distributes_over_add(seq![x], rest, f);
        assert(sorted_rest.filter(f) == rest.filter(f));
        reveal_with_fuel(Seq::filter, 2);
        if f(x) {
            assert(low.filter(f).len() == 0) by {
                if low.filter(f).len() > 0 {
                    low.lemma_filter_pred(f, 0);
                    let e = low.filter(f)[0];
                    filter_element(low, f, 0);
                    let i = choose|i: int| 0 <= i < low.len() && low[i] == e;
                    assert(sorted_rest[i] == e);
                    T::at_most_transitive(x, y, e);
                }
            }
            assert(low.filter(f) =~= seq![]);
            assert(after.filter(f) =~= seq![x].filter(f) + rest.filter(f));
        } else {
            assert(seq![x].drop_last() =~= seq![]);
            assert(seq![x].filter(f) =~= seq![]);
            assert(after.filter(f) =~= low.filter(f) + high.filter(f));
            assert(before.filter(f) =~= rest.filter(f));
        }
    }
}

/// What a filter keeps stood in the list.
pub proof fn filter_element<T>(s: Seq<T>, f: spec_fn(T) -> bool, k: int)
    requires
        0 <= k < s.filter(f).len(),
    ensures
        s.contains(s.filter(f)[k]),
        f(s.filter(f)[k]),
    decreases s.len(),
{
    reveal(Seq::filter);
    if s.len() > 0 {
        let head = s.drop_last();
        if k < head.filter(f).len() {
            filter_element(head, f, k);
            let i = choose|i: int| 0 <= i < head.len() && head[i] == head.filter(f)[k];
            assert(s[i] == head[i]);
        } else {
            assert(s[s.len() - 1] == s.last());
        }
    }
}

/// Sorts a list; values that rank alike keep their order.
pub fn sort<T: Sortable>(items: Vec<T>) -> (out: Vec<T>)
    ensures
        stable_sort_of(items@, out@),
{
    let ghost all = items@;
    let mut rest = items;
    let mut out: Vec<T> = Vec::new();
    assert(all.skip(all.len() as int) =~= Seq::<T>::empty());
    while rest.len() > 0
        invariant
            rest@.len() <= all.len(),
            rest@ == all.take(rest@.len() as int),
            stable_sort_of(all.skip(rest@.len() as int), out@),
        decreases rest@.len(),
    {
        let ghost before = rest@;
        let ghost done = out@;
        let x: T = match rest.pop() {
            Some(x) => x,
            None => {
                return out;
            },
        };
        let mut p: usize = 0;
        while p < out.len() && !x.is_at_most(&out[p])
            invariant
                p <= out@.len(),
                out@ == done,
                forall|i: int| 0 <= i < p ==> !x.at_most(#[trigger] out@[i]),
            decreases out@.len() - p,
        {
            p = p + 1;
        }
        proof {
            insert_keeps_stable(all.skip(before.len() as int), out@, x, p as int);
            assert(x == all[before.len() - 1]);
            assert(all.skip(before.len() - 1) =~= seq![x] + all.skip(before.len() as int));
        }
        out.insert(p, x);
        assert(rest@ =~= all.take(rest@.len() as int));
    }
    assert(all.skip(0) =~= all);
    out
}

/// The list from its end to its start.
pub fn reversed<T>(items: Vec<T>) -> (out: Vec<T>)
    ensures
        out@ == items@.reverse(),
{
    let ghost all = items@;
    let mut rest = items;
    let mut out: Vec<T> = Vec::new();
    while rest.len() > 0
        invariant
            rest@.len() <= all.len(),
            rest@ == all.take(rest@.len() as int),
            out@.len() == all.len() - rest@.len(),
            forall|i: int| 0 <= i < out@.len() ==> #[trigger] out@[i] == all[all.len() - 1 - i],
        decreases rest@.len(),
    {
        match rest.pop() {
            Some(item) => {
                out.push(item);
                assert(rest@ =~= all.take(rest@.len() as int));
            },
            None => {},
        }
    }
    assert(out@ =~= all.reverse());
    out
}

impl Sortable for String {
    open spec fn at_most(self, other: Self) -> bool {
        text::le(self@, other@)
    }

    proof fn at_most_total(a: Self, b: Self) {
        text::lt_total(a@, b@);
    }

    proof fn at_most_transitive(a: Self, b: Self, c: Self) {
        if a@ != b@ && b@ != c@ {
            text::lt_transitive(a@, b@, c@);
        }
    }

    fn is_at_most(&self, other: &Self) -> (r: bool) {
        text::less_or_same(self.as_str(), other.as_str())
    }
}

/// Whether texts stand in increasing order, with repetitions.
pub open spec fn texts_sorted(s: Seq<Seq<char>>) -> bool {
    forall|i: int, j: int| 0 <= i < j < s.len() ==> text::le(#[trigger] s[i], #[trigger] s[j])
}

/// Sorts texts.
pub fn sort_texts(items: Vec<String>) -> (out: Vec<String>)
    ensures
        texts_sorted(text::texts(out@)),
        text::texts(out@).to_multiset() == text::texts(items@).to_multiset(),
{
    let ghost before = items@;
    let out = sort(items);
    proof {
        multiset_of_texts(before, out@);
    }
    out
}

/// Lists of strings with the same members have the same texts.
proof fn multiset_of_texts(a: Seq<String>, b: Seq<String>)
    requires
        a.to_multiset() == b.to_multiset(),
    ensures
        text::texts(a).to_multiset() == text::texts(b).to_multiset(),
    decreases a.len(),
{
    broadcast use vstd::seq_lib::group_to_multiset_ensures;

    vstd::seq_lib::to_multiset_len(a);
    vstd::seq_lib::to_multiset_len(b);
    if a.len() == 0 {
        assert(text::texts(a) =~= text::texts(b));
    } else {
        let x = a.last();
        assert(a[a.len() - 1] == x);
        assert(a.to_multiset().count(x) > 0);
        assert(b.contains(x));
        let i = choose|i: int| 0 <= i < b.len() && b[i] == x;
        let rest = b.remove(i);
        vstd::seq_lib::to_multiset_remove(b, i);
        vstd::seq_lib::to_multiset_remove(a, a.len() - 1);
        assert(a.drop_last() =~= a.remove(a.len() - 1));
        multiset_of_texts(a.drop_last(), rest);
        assert(text::texts(a) =~= text::texts(a.drop_last()).push(x@));
        assert(text::texts(b) =~= text::texts(rest).insert(i, x@));
        vstd::seq_lib::to_multiset_insert(text::texts(rest), i, x@);
        vstd::seq_lib::to_multiset_build(text::texts(a.drop_last()), x@);
    }
}

} // verus!
