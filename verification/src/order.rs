//! The order of records.
//!
//! Records are ordered by the name of their module and, within a module, by
//! their own name. Names are compared as texts are: by their UTF-8 encodings,
//! byte by byte. Sorting is stable: records that compare equal keep the order
//! in which they were given.

use crate::extract::{ApiFunctionInfo, ApiFunctionView};
use crate::text::{lemma_text_lt_order, text_eq, text_less, text_lt};
use vstd::prelude::*;
use vstd::seq_lib::to_multiset_insert;

verus! {

/// Whether `a` is to come before `b`: its module's name is less, or, where
/// `by_function` is set, the modules' names are equal and its own name is
/// less.
pub open spec fn precedes(a: ApiFunctionView, b: ApiFunctionView, by_function: bool) -> bool {
    ||| text_lt(a.module_name, b.module_name)
    ||| by_function && a.module_name == b.module_name && text_lt(a.function_name, b.function_name)
}

/// Where the record `x` goes into the order `r` of records of `s`: behind
/// the last one that it does not precede.
pub open spec fn order_point(
    s: Seq<ApiFunctionView>,
    r: Seq<int>,
    x: ApiFunctionView,
    by_function: bool,
) -> int
    decreases r.len(),
{
    if r.len() > 0 && precedes(x, s[r.last()], by_function) {
        order_point(s, r.drop_last(), x, by_function)
    } else {
        r.len() as int
    }
}

/// The positions of the first `n` records of `s`, in sorted order.
pub open spec fn sort_order(s: Seq<ApiFunctionView>, n: nat, by_function: bool) -> Seq<int>
    decreases n,
{
    if n == 0 {
        Seq::empty()
    } else {
        let r = sort_order(s, (n - 1) as nat, by_function);
        r.insert(order_point(s, r, s[n - 1], by_function), n - 1)
    }
}

/// The records of `s`, sorted.
pub open spec fn sorted(s: Seq<ApiFunctionView>, by_function: bool) -> Seq<ApiFunctionView> {
    sort_order(s, s.len(), by_function).map_values(|i: int| s[i])
}

/// `precedes` is a strict weak order: nothing precedes itself, and if `a`
/// precedes `c` then, whatever `b` is, `a` precedes `b` or `b` precedes `c`.
pub proof fn lemma_precedes_order(
    a: ApiFunctionView,
    b: ApiFunctionView,
    c: ApiFunctionView,
    by_function: bool,
)
    ensures
        !precedes(a, a, by_function),
        !(precedes(a, b, by_function) && precedes(b, a, by_function)),
        precedes(a, c, by_function) ==> precedes(a, b, by_function) || precedes(b, c, by_function),
{
    lemma_text_lt_order(a.module_name, b.module_name, c.module_name);
    lemma_text_lt_order(b.module_name, c.module_name, a.module_name);
    lemma_text_lt_order(a.module_name, c.module_name, b.module_name);
    lemma_text_lt_order(a.function_name, b.function_name, c.function_name);
    lemma_text_lt_order(b.function_name, c.function_name, a.function_name);
    lemma_text_lt_order(a.function_name, c.function_name, b.function_name);
}

proof fn lemma_order_point(s: Seq<ApiFunctionView>, r: Seq<int>, x: ApiFunctionView, by_function: bool)
    ensures
        0 <= order_point(s, r, x, by_function) <= r.len(),
        forall|k: int|
            order_point(s, r, x, by_function) <= k < r.len() ==> precedes(
                x,
                s[#[trigger] r[k]],
                by_function,
            ),
        order_point(s, r, x, by_function) > 0 ==> !precedes(
            x,
            s[r[order_point(s, r, x, by_function) - 1]],
            by_function,
        ),
    decreases r.len(),
{
    if r.len() > 0 && precedes(x, s[r.last()], by_function) {
        lemma_order_point(s, r.drop_last(), x, by_function);
        let p = order_point(s, r, x, by_function);
        assert forall|k: int| p <= k < r.len() implies precedes(x, s[#[trigger] r[k]], by_function) by {
            if k < r.len() - 1 {
                assert(r[k] == r.drop_last()[k]);
            }
        }
        if p > 0 {
            assert(r[p - 1] == r.drop_last()[p - 1]);
        }
    }
}

/// What sorting gives: each position once, records in order, and records
/// that compare equal in the order in which they were given.
pub proof fn lemma_sort_order(s: Seq<ApiFunctionView>, n: nat, by_function: bool)
    requires
        n <= s.len(),
    ensures
        sort_order(s, n, by_function).len() == n,
        forall|k: int| 0 <= k < n ==> 0 <= #[trigger] sort_order(s, n, by_function)[k] < n,
        forall|j: int, k: int|
            0 <= j < k < n ==> #[trigger] sort_order(s, n, by_function)[j] != #[trigger] sort_order(
                s,
                n,
                by_function,
            )[k],
        forall|j: int, k: int|
            0 <= j < k < n ==> !precedes(
                s[#[trigger] sort_order(s, n, by_function)[k]],
                s[#[trigger] sort_order(s, n, by_function)[j]],
                by_function,
            ),
        forall|j: int, k: int|
            0 <= j < k < n && !precedes(
                s[#[trigger] sort_order(s, n, by_function)[j]],
                s[#[trigger] sort_order(s, n, by_function)[k]],
                by_function,
            ) ==> sort_order(s, n, by_function)[j] < sort_order(s, n, by_function)[k],
    decreases n,
{
    if n > 0 {
        let r = sort_order(s, (n - 1) as nat, by_function);
        let x = s[n - 1];
        let p = order_point(s, r, x, by_function);
        let o = sort_order(s, n, by_function);
        lemma_sort_order(s, (n - 1) as nat, by_function);
        lemma_order_point(s, r, x, by_function);
        assert(o == r.insert(p, n - 1));
        assert forall|k: int| 0 <= k < p implies !precedes(x, s[#[trigger] r[k]], by_function) by {
            if k < p - 1 {
                lemma_precedes_order(x, s[r[p - 1]], s[r[k]], by_function);
            }
        }
        assert forall|j: int, k: int| 0 <= j < k < n implies !precedes(
            s[#[trigger] o[k]],
            s[#[trigger] o[j]],
            by_function,
        ) by {
            if k == p {
                assert(o[j] == r[j]);
            } else if j == p {
                assert(o[k] == r[k - 1]);
                lemma_precedes_order(x, s[r[k - 1]], x, by_function);
            } else {
                let jj = if j < p { j } else { j - 1 };
                let kk = if k < p { k } else { k - 1 };
                assert(o[j] == r[jj] && o[k] == r[kk]);
            }
        }
        assert forall|j: int, k: int| 0 <= j < k < n implies #[trigger] o[j] != #[trigger] o[k] by {
            let jj = if j < p { j } else { j - 1 };
            let kk = if k < p { k } else { k - 1 };
            if j != p && k != p {
                assert(o[j] == r[jj] && o[k] == r[kk]);
            } else if j == p {
                assert(o[k] == r[kk]);
            } else {
                assert(o[j] == r[jj]);
            }
        }
        assert forall|j: int, k: int|
            0 <= j < k < n && !precedes(s[#[trigger] o[j]], s[#[trigger] o[k]], by_function) implies o[j]
            < o[k] by {
            let jj = if j < p { j } else { j - 1 };
            let kk = if k < p { k } else { k - 1 };
            if j != p && k != p {
                assert(o[j] == r[jj] && o[k] == r[kk]);
            } else if j == p {
                assert(o[k] == r[kk]);
            } else {
                assert(o[j] == r[jj]);
            }
        }
        assert forall|k: int| 0 <= k < n implies 0 <= #[trigger] o[k] < n by {
            let kk = if k < p { k } else { k - 1 };
            if k != p {
                assert(o[k] == r[kk]);
            }
        }
    }
}

/// Sorting only reorders: the sorted records are the given ones, each as
/// often, and no record stands before one that precedes it.
pub proof fn lemma_sorted(s: Seq<ApiFunctionView>, by_function: bool)
    ensures
        sorted(s, by_function).len() == s.len(),
        sorted(s, by_function).to_multiset() == s.to_multiset(),
        forall|j: int, k: int|
            0 <= j < k < s.len() ==> !precedes(
                #[trigger] sorted(s, by_function)[k],
                #[trigger] sorted(s, by_function)[j],
                by_function,
            ),
{
    lemma_sort_order(s, s.len(), by_function);
    lemma_sorted_prefix(s, s.len(), by_function);
    assert(s.take(s.len() as int) =~= s);
}

proof fn lemma_sorted_prefix(s: Seq<ApiFunctionView>, n: nat, by_function: bool)
    requires
        n <= s.len(),
    ensures
        sort_order(s, n, by_function).map_values(|i: int| s[i]).to_multiset() == s.take(
            n as int,
        ).to_multiset(),
    decreases n,
{
    let pick = |i: int| s[i];
    if n == 0 {
        assert(sort_order(s, n, by_function).map_values(pick) =~= s.take(0));
    } else {
        let r = sort_order(s, (n - 1) as nat, by_function);
        let p = order_point(s, r, s[n - 1], by_function);
        lemma_sorted_prefix(s, (n - 1) as nat, by_function);
        lemma_order_point(s, r, s[n - 1], by_function);
        assert(sort_order(s, n, by_function).map_values(pick) =~= r.map_values(pick).insert(
            p,
            s[n - 1],
        ));
        to_multiset_insert(r.map_values(pick), p, s[n - 1]);
        assert(s.take(n as int) =~= s.take(n - 1).push(s[n - 1]));
        vstd::seq_lib::to_multiset_build(s.take(n - 1), s[n - 1]);
    }
}

/// Tells whether `a` is to come before `b`.
pub fn comes_first(a: &ApiFunctionInfo, b: &ApiFunctionInfo, by_function: bool) -> (r: bool)
    ensures
        r == precedes(a@, b@, by_function),
{
    if text_less(a.module_name.as_str(), b.module_name.as_str()) {
        true
    } else {
        by_function && text_eq(a.module_name.as_str(), b.module_name.as_str()) && text_less(
            a.function_name.as_str(),
            b.function_name.as_str(),
        )
    }
}

/// The positions of the records of `functions`, in sorted order.
pub fn sorted_positions(functions: &Vec<ApiFunctionInfo>, by_function: bool) -> (order: Vec<usize>)
    ensures
        order@.map_values(|i: usize| i as int) == sort_order(
            functions.deep_view(),
            functions.len() as nat,
            by_function,
        ),
        forall|k: int| 0 <= k < order.len() ==> #[trigger] order[k] < functions.len(),
        order.len() == functions.len(),
{
    let ghost s = functions.deep_view();
    let mut order: Vec<usize> = Vec::new();
    assert(order@.map_values(|i: usize| i as int) =~= sort_order(s, 0, by_function));
    for n in 0..functions.len()
        invariant
            s == functions.deep_view(),
            order.len() == n,
            forall|k: int| 0 <= k < order.len() ==> #[trigger] order[k] < n,
            order@.map_values(|i: usize| i as int) == sort_order(s, n as nat, by_function),
    {
        let ghost r = sort_order(s, n as nat, by_function);
        let ghost x = s[n as int];
        let mut p: usize = order.len();
        assert(r.take(p as int) =~= r);
        while p > 0 && comes_first(&functions[n], &functions[order[p - 1]], by_function)
            invariant
                s == functions.deep_view(),
                n < functions.len(),
                x == s[n as int],
                p <= order.len(),
                order.len() == r.len(),
                forall|k: int| 0 <= k < order.len() ==> #[trigger] order[k] < n,
                order@.map_values(|i: usize| i as int) == r,
                order_point(s, r, x, by_function) == order_point(s, r.take(p as int), x, by_function),
            decreases p,
        {
            proof {
                let t = r.take(p as int);
                assert(t.last() == r[p - 1]);
                assert(r[p - 1] == order[p - 1] as int);
                assert(t.drop_last() =~= r.take(p - 1));
            }
            p -= 1;
        }
        proof {
            let t = r.take(p as int);
            if p > 0 {
                assert(t.last() == r[p - 1]);
                assert(r[p - 1] == order[p - 1] as int);
            }
            assert(order_point(s, t, x, by_function) == p);
        }
        order.insert(p, n);
        assert(order@.map_values(|i: usize| i as int) =~= r.insert(p as int, n as int));
    }
    order
}

} // verus!
