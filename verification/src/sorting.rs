//! Putting texts in ascending order.

use vstd::prelude::*;
use crate::text::{
    chars_of, lemma_lex_asymmetric, lemma_lex_irreflexive, lemma_lex_total, lemma_lex_transitive,
    lex_less, sorts_before,
};

verus! {

/// `sorted` with `x` put before the first entry that it sorts before.
pub open spec fn inserted(sorted: Seq<Seq<char>>, x: Seq<char>) -> Seq<Seq<char>>
    decreases sorted.len(),
{
    if sorted.len() == 0 {
        seq![x]
    } else if lex_less(x, sorted[0]) {
        seq![x] + sorted
    } else {
        seq![sorted[0]] + inserted(sorted.drop_first(), x)
    }
}

/// The entries of `list` in ascending order.
pub open spec fn sorted_of(list: Seq<Seq<char>>) -> Seq<Seq<char>>
    decreases list.len(),
{
    if list.len() == 0 {
        Seq::empty()
    } else {
        inserted(sorted_of(list.drop_last()), list.last())
    }
}

/// No entry sorts before an earlier one.
pub open spec fn non_descending(list: Seq<Seq<char>>) -> bool {
    forall|i: int, j: int| 0 <= i < j < list.len() ==> !lex_less(list[j], list[i])
}

/// Every entry sorts before all later ones.
pub open spec fn ascending(list: Seq<Seq<char>>) -> bool {
    forall|i: int, j: int| 0 <= i < j < list.len() ==> lex_less(list[i], list[j])
}

/// `a` and `b` hold the same texts.
pub open spec fn same_members(a: Seq<Seq<char>>, b: Seq<Seq<char>>) -> bool {
    forall|x: Seq<char>| a.contains(x) <==> b.contains(x)
}

/// Putting `x` before the first entry that it sorts before is an insertion
/// at that index.
pub proof fn lemma_inserted_at(sorted: Seq<Seq<char>>, x: Seq<char>, at: int)
    requires
        0 <= at <= sorted.len(),
        forall|k: int| 0 <= k < at ==> !lex_less(x, sorted[k]),
        at < sorted.len() ==> lex_less(x, sorted[at]),
    ensures
        inserted(sorted, x) == sorted.insert(at, x),
    decreases sorted.len(),
{
    if sorted.len() == 0 {
        assert(sorted.insert(at, x) =~= seq![x]);
    } else if at == 0 {
        assert(sorted.insert(0, x) =~= seq![x] + sorted);
    } else {
        let rest = sorted.drop_first();
        assert forall|k: int| 0 <= k < at - 1 implies !lex_less(x, rest[k]) by {
            assert(rest[k] == sorted[k + 1]);
        }
        lemma_inserted_at(rest, x, at - 1);
        assert(sorted.insert(at, x) =~= seq![sorted[0]] + rest.insert(at - 1, x));
    }
}

/// Where `x` lands in `sorted`: some index splits the old entries around it.
pub proof fn lemma_inserted_shape(sorted: Seq<Seq<char>>, x: Seq<char>) -> (at: int)
    ensures
        0 <= at <= sorted.len(),
        inserted(sorted, x) == sorted.insert(at, x),
        forall|k: int| 0 <= k < at ==> !lex_less(x, sorted[k]),
        at < sorted.len() ==> lex_less(x, sorted[at]),
    decreases sorted.len(),
{
    if sorted.len() == 0 {
        assert(sorted.insert(0, x) =~= seq![x]);
        0
    } else if lex_less(x, sorted[0]) {
        assert(sorted.insert(0, x) =~= seq![x] + sorted);
        0
    } else {
        let rest = sorted.drop_first();
        let at = lemma_inserted_shape(rest, x);
        assert forall|k: int| 0 <= k < at + 1 implies !lex_less(x, sorted[k]) by {
            if k > 0 {
                assert(sorted[k] == rest[k - 1]);
            }
        }
        assert(sorted.insert(at + 1, x) =~= seq![sorted[0]] + rest.insert(at, x));
        at + 1
    }
}

/// Inserting keeps what was there and adds `x`.
pub proof fn lemma_inserted_members(sorted: Seq<Seq<char>>, x: Seq<char>)
    ensures
        inserted(sorted, x).len() == sorted.len() + 1,
        forall|y: Seq<char>| inserted(sorted, x).contains(y) <==> (y == x || sorted.contains(y)),
{
    let at = lemma_inserted_shape(sorted, x);
    let out = sorted.insert(at, x);
    assert forall|y: Seq<char>| out.contains(y) <==> (y == x || sorted.contains(y)) by {
        if out.contains(y) {
            let i = choose|i: int| 0 <= i < out.len() && out[i] == y;
            if i < at {
                assert(sorted[i] == y);
            } else if i > at {
                assert(sorted[i - 1] == y);
            }
        }
        if y == x {
            assert(out[at] == x);
        }
        if sorted.contains(y) {
            let i = choose|i: int| 0 <= i < sorted.len() && sorted[i] == y;
            if i < at {
                assert(out[i] == y);
            } else {
                assert(out[i + 1] == y);
            }
        }
    }
}

/// Inserting into an ordered list gives an ordered list.
pub proof fn lemma_inserted_order(sorted: Seq<Seq<char>>, x: Seq<char>)
    requires
        non_descending(sorted),
    ensures
        non_descending(inserted(sorted, x)),
{
    let at = lemma_inserted_shape(sorted, x);
    let out = sorted.insert(at, x);
    assert forall|i: int, j: int| 0 <= i < j < out.len() implies !lex_less(out[j], out[i]) by {
        if j == at {
            // out[i] is an old entry before the landing place
            assert(out[i] == sorted[i]);
            if lex_less(x, sorted[i]) {
                assert(false);
            }
        } else if i == at {
            // out[j] is an old entry at or after the landing place
            assert(out[j] == sorted[j - 1]);
            if j - 1 > at {
                assert(!lex_less(sorted[j - 1], sorted[at]));
            }
            if lex_less(sorted[j - 1], x) {
                lemma_lex_transitive(sorted[j - 1], x, sorted[at]);
                if j - 1 == at {
                    lemma_lex_irreflexive(sorted[at]);
                }
            }
        } else {
            let a = if i < at {
                i
            } else {
                i - 1
            };
            let b = if j < at {
                j
            } else {
                j - 1
            };
            assert(out[i] == sorted[a] && out[j] == sorted[b]);
        }
    }
}

/// Sorting keeps the length and the members and leaves the list ordered.
pub proof fn lemma_sorted_of(list: Seq<Seq<char>>)
    ensures
        sorted_of(list).len() == list.len(),
        same_members(sorted_of(list), list),
        non_descending(sorted_of(list)),
    decreases list.len(),
{
    if list.len() > 0 {
        let front = list.drop_last();
        lemma_sorted_of(front);
        lemma_inserted_members(sorted_of(front), list.last());
        lemma_inserted_order(sorted_of(front), list.last());
        assert forall|x: Seq<char>| sorted_of(list).contains(x) <==> list.contains(x) by {
            if list.contains(x) {
                let i = choose|i: int| 0 <= i < list.len() && list[i] == x;
                if i < list.len() - 1 {
                    assert(front[i] == x);
                }
            }
            if front.contains(x) {
                let i = choose|i: int| 0 <= i < front.len() && front[i] == x;
                assert(list[i] == x);
            }
            if x == list.last() {
                assert(list[list.len() - 1] == x);
            }
        }
    }
}

/// Sorting a list without repetitions leaves every entry strictly before
/// the ones after it.
pub proof fn lemma_sorted_of_distinct(list: Seq<Seq<char>>)
    requires
        list.no_duplicates(),
    ensures
        ascending(sorted_of(list)),
        sorted_of(list).no_duplicates(),
    decreases list.len(),
{
    if list.len() > 0 {
        let front = list.drop_last();
        let x = list.last();
        lemma_sorted_of_distinct(front);
        lemma_sorted_of(front);
        lemma_sorted_of(list);
        let base = sorted_of(front);
        let at = lemma_inserted_shape(base, x);
        let out = base.insert(at, x);
        assert(!base.contains(x)) by {
            if base.contains(x) {
                assert(front.contains(x));
                let i = choose|i: int| 0 <= i < front.len() && front[i] == x;
                assert(list[i] == list[list.len() - 1]);
            }
        }
        assert forall|i: int, j: int| 0 <= i < j < out.len() implies out[i] != out[j] by {
            let a = if i < at {
                i
            } else {
                i - 1
            };
            let b = if j < at {
                j
            } else {
                j - 1
            };
            if i == at {
                assert(out[j] == base[b]);
            } else if j == at {
                assert(out[i] == base[a]);
            } else {
                assert(out[i] == base[a] && out[j] == base[b]);
            }
        }
        assert forall|i: int, j: int| 0 <= i < j < out.len() implies lex_less(out[i], out[j]) by {
            if !lex_less(out[i], out[j]) {
                lemma_lex_total(out[i], out[j]);
            }
        }
    }
}

/// An ascending list is determined by its members.
pub proof fn lemma_ascending_unique(a: Seq<Seq<char>>, b: Seq<Seq<char>>)
    requires
        ascending(a),
        ascending(b),
        same_members(a, b),
    ensures
        a == b,
    decreases a.len(),
{
    if a.len() == 0 {
        if b.len() > 0 {
            assert(b.contains(b[0]));
        }
        assert(a =~= b);
    } else if b.len() == 0 {
        assert(a.contains(a[0]));
    } else {
        assert(a.contains(a[0]) && b.contains(b[0]));
        let i = choose|i: int| 0 <= i < b.len() && b[i] == a[0];
        let j = choose|j: int| 0 <= j < a.len() && a[j] == b[0];
        if i > 0 && j > 0 {
            lemma_lex_asymmetric(b[0], b[i]);
        }
        if i > 0 && j == 0 {
            lemma_lex_irreflexive(b[0]);
        }
        if j > 0 && i == 0 {
            lemma_lex_irreflexive(a[0]);
        }
        assert(a[0] == b[0]);
        let ra = a.drop_first();
        let rb = b.drop_first();
        assert forall|x: Seq<char>| ra.contains(x) <==> rb.contains(x) by {
            if ra.contains(x) {
                let k = choose|k: int| 0 <= k < ra.len() && ra[k] == x;
                assert(a[k + 1] == x);
                assert(a.contains(x));
                let m = choose|m: int| 0 <= m < b.len() && b[m] == x;
                if m == 0 {
                    lemma_lex_irreflexive(x);
                    assert(lex_less(a[0], a[k + 1]));
                }
                assert(rb[m - 1] == x);
            }
            if rb.contains(x) {
                let k = choose|k: int| 0 <= k < rb.len() && rb[k] == x;
                assert(b[k + 1] == x);
                assert(b.contains(x));
                let m = choose|m: int| 0 <= m < a.len() && a[m] == x;
                if m == 0 {
                    lemma_lex_irreflexive(x);
                    assert(lex_less(b[0], b[k + 1]));
                }
                assert(ra[m - 1] == x);
            }
        }
        assert forall|i: int, j: int| 0 <= i < j < ra.len() implies lex_less(ra[i], ra[j]) by {
            assert(ra[i] == a[i + 1] && ra[j] == a[j + 1]);
        }
        assert forall|i: int, j: int| 0 <= i < j < rb.len() implies lex_less(rb[i], rb[j]) by {
            assert(rb[i] == b[i + 1] && rb[j] == b[j + 1]);
        }
        lemma_ascending_unique(ra, rb);
        assert(a =~= seq![a[0]] + ra);
        assert(b =~= seq![b[0]] + rb);
    }
}

/// The first index of `sorted` whose entry `x` sorts before, or its length.
fn insertion_point(sorted: &Vec<String>, x: &Vec<char>) -> (at: usize)
    ensures
        at <= sorted.len(),
        forall|k: int| 0 <= k < at ==> !lex_less(x@, sorted[k]@),
        at < sorted.len() ==> lex_less(x@, sorted[at as int]@),
{
    let mut at: usize = 0;
    while at < sorted.len()
        invariant
            at <= sorted.len(),
            forall|k: int| 0 <= k < at ==> !lex_less(x@, sorted[k]@),
        decreases sorted.len() - at,
    {
        let y = chars_of(sorted[at].as_str());
        if sorts_before(x, &y) {
            return at;
        }
        at += 1;
    }
    at
}

/// The entries of `list` in ascending order.
pub fn sort_strings(list: &Vec<String>) -> (r: Vec<String>)
    ensures
        r.deep_view() == sorted_of(list.deep_view()),
{
    let mut out: Vec<String> = Vec::new();
    let mut i: usize = 0;
    assert(list.deep_view().take(0) =~= Seq::<Seq<char>>::empty());
    assert(out.deep_view() =~= Seq::<Seq<char>>::empty());
    while i < list.len()
        invariant
            i <= list.len(),
            out.deep_view() == sorted_of(list.deep_view().take(i as int)),
        decreases list.len() - i,
    {
        let x = chars_of(list[i].as_str());
        let at = insertion_point(&out, &x);
        let ghost before = out.deep_view();
        proof {
            assert forall|k: int| 0 <= k < at implies !lex_less(x@, before[k]) by {
                assert(before[k] == out[k]@);
            }
            assert(before.len() == out.len());
            if at < out.len() {
                assert(before[at as int] == out[at as int]@);
            }
            lemma_inserted_at(before, x@, at as int);
        }
        out.insert(at, list[i].clone());
        proof {
            assert(out.deep_view() =~= before.insert(at as int, x@));
            let upto = list.deep_view().take(i + 1);
            assert(upto.drop_last() =~= list.deep_view().take(i as int));
            assert(upto.last() == x@);
        }
        i += 1;
    }
    assert(list.deep_view().take(i as int) =~= list.deep_view());
    out
}

} // verus!
