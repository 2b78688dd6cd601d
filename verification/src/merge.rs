//! The mathematical model of merging two element sequences.
//!
//! `merge_seqs` is the stable two-way merge: it repeatedly moves the smaller
//! front element into the output and, on ties, prefers the first sequence.
//! The lemmas here state the laws of that model: a merge of sorted inputs is
//! sorted, its length is the sum of the input lengths, it holds exactly the
//! elements of both inputs, a merge with an empty input returns the other
//! input unchanged, and a tie between the fronts is resolved in favour of the
//! first sequence.

use vstd::multiset::Multiset;
use vstd::prelude::*;

verus! {

/// The sequence is non-decreasing.
pub open spec fn sorted(s: Seq<i64>) -> bool {
    forall|i: int, j: int| 0 <= i <= j < s.len() ==> s[i] <= s[j]
}

/// The elements of an optional front value: one element when present, none
/// otherwise.
pub open spec fn opt_seq<T>(v: Option<T>) -> Seq<T> {
    match v {
        None => Seq::empty(),
        Some(x) => seq![x],
    }
}

/// The stable merge of `a` and `b`: whichever front element is smaller moves
/// first, and when the fronts are equal the element of `a` moves first.
pub open spec fn merge_seqs(a: Seq<i64>, b: Seq<i64>) -> Seq<i64>
    decreases a.len() + b.len(),
{
    if a.len() == 0 {
        b
    } else if b.len() == 0 {
        a
    } else if a[0] <= b[0] {
        seq![a[0]] + merge_seqs(a.drop_first(), b)
    } else {
        seq![b[0]] + merge_seqs(a, b.drop_first())
    }
}

/// Merging with an empty sequence returns the other sequence unchanged.
pub proof fn lemma_merge_seqs_empty(a: Seq<i64>, b: Seq<i64>)
    ensures
        merge_seqs(a, Seq::<i64>::empty()) == a,
        merge_seqs(Seq::<i64>::empty(), b) == b,
{
    if a.len() == 0 {
        assert(a =~= Seq::<i64>::empty());
    }
}

/// The merge is as long as both inputs together.
pub proof fn lemma_merge_seqs_len(a: Seq<i64>, b: Seq<i64>)
    ensures
        merge_seqs(a, b).len() == a.len() + b.len(),
    decreases a.len() + b.len(),
{
    if a.len() == 0 || b.len() == 0 {
    } else if a[0] <= b[0] {
        lemma_merge_seqs_len(a.drop_first(), b);
    } else {
        lemma_merge_seqs_len(a, b.drop_first());
    }
}

/// The merge holds exactly the elements of both inputs, multiplicity
/// included.
pub proof fn lemma_merge_seqs_multiset(a: Seq<i64>, b: Seq<i64>)
    ensures
        merge_seqs(a, b).to_multiset() == a.to_multiset().add(b.to_multiset()),
    decreases a.len() + b.len(),
{
    broadcast use vstd::seq_lib::group_to_multiset_ensures;
    broadcast use vstd::multiset::group_multiset_axioms;

    if a.len() == 0 {
        assert(a.to_multiset() =~= Multiset::<i64>::empty());
        assert(merge_seqs(a, b).to_multiset() =~= a.to_multiset().add(b.to_multiset()));
    } else if b.len() == 0 {
        assert(b.to_multiset() =~= Multiset::<i64>::empty());
        assert(merge_seqs(a, b).to_multiset() =~= a.to_multiset().add(b.to_multiset()));
    } else if a[0] <= b[0] {
        lemma_merge_seqs_multiset(a.drop_first(), b);
        vstd::seq_lib::lemma_multiset_commutative(seq![a[0]], merge_seqs(a.drop_first(), b));
        assert(seq![a[0]] =~= Seq::<i64>::empty().push(a[0]));
        assert(seq![a[0]].to_multiset() =~= Multiset::<i64>::empty().insert(a[0]));
        assert(a =~= seq![a[0]] + a.drop_first());
        vstd::seq_lib::lemma_multiset_commutative(seq![a[0]], a.drop_first());
        assert(merge_seqs(a, b).to_multiset() =~= a.to_multiset().add(b.to_multiset()));
    } else {
        lemma_merge_seqs_multiset(a, b.drop_first());
        vstd::seq_lib::lemma_multiset_commutative(seq![b[0]], merge_seqs(a, b.drop_first()));
        assert(seq![b[0]] =~= Seq::<i64>::empty().push(b[0]));
        assert(seq![b[0]].to_multiset() =~= Multiset::<i64>::empty().insert(b[0]));
        assert(b =~= seq![b[0]] + b.drop_first());
        vstd::seq_lib::lemma_multiset_commutative(seq![b[0]], b.drop_first());
        assert(merge_seqs(a, b).to_multiset() =~= a.to_multiset().add(b.to_multiset()));
    }
}

/// A sorted tail stays sorted.
proof fn lemma_sorted_drop_first(s: Seq<i64>)
    requires
        s.len() > 0,
        sorted(s),
    ensures
        sorted(s.drop_first()),
{
    assert forall|i: int, j: int|
        0 <= i <= j < s.drop_first().len() implies s.drop_first()[i] <= s.drop_first()[j] by {
        assert(s.drop_first()[i] == s[i + 1]);
        assert(s.drop_first()[j] == s[j + 1]);
    }
}

/// Placing an element that is at most the head in front of a sorted sequence
/// keeps it sorted.
proof fn lemma_sorted_cons(x: i64, s: Seq<i64>)
    requires
        sorted(s),
        s.len() > 0 ==> x <= s[0],
    ensures
        sorted(seq![x] + s),
{
    let t = seq![x] + s;
    assert forall|i: int, j: int| 0 <= i <= j < t.len() implies t[i] <= t[j] by {
        if i == 0 {
            if j > 0 {
                assert(t[j] == s[j - 1]);
                assert(s[0] <= s[j - 1]);
            }
        } else {
            assert(t[i] == s[i - 1]);
            assert(t[j] == s[j - 1]);
        }
    }
}

/// The first element of a merge of non-empty inputs is one of the two front
/// elements.
proof fn lemma_merge_seqs_first(a: Seq<i64>, b: Seq<i64>)
    requires
        a.len() > 0 || b.len() > 0,
    ensures
        merge_seqs(a, b).len() > 0,
        a.len() > 0 && b.len() > 0 ==> merge_seqs(a, b)[0] == a[0] || merge_seqs(a, b)[0] == b[0],
        a.len() > 0 && b.len() == 0 ==> merge_seqs(a, b)[0] == a[0],
        a.len() == 0 && b.len() > 0 ==> merge_seqs(a, b)[0] == b[0],
{
    lemma_merge_seqs_len(a, b);
}

/// A merge of sorted inputs is sorted.
pub proof fn lemma_merge_seqs_sorted(a: Seq<i64>, b: Seq<i64>)
    requires
        sorted(a),
        sorted(b),
    ensures
        sorted(merge_seqs(a, b)),
    decreases a.len() + b.len(),
{
    if a.len() == 0 || b.len() == 0 {
    } else if a[0] <= b[0] {
        let rest = merge_seqs(a.drop_first(), b);
        lemma_sorted_drop_first(a);
        lemma_merge_seqs_sorted(a.drop_first(), b);
        lemma_merge_seqs_first(a.drop_first(), b);
        assert(rest.len() > 0 ==> a[0] <= rest[0]) by {
            if a.drop_first().len() > 0 {
                assert(a.drop_first()[0] == a[1]);
            }
        }
        lemma_sorted_cons(a[0], rest);
    } else {
        let rest = merge_seqs(a, b.drop_first());
        lemma_sorted_drop_first(b);
        lemma_merge_seqs_sorted(a, b.drop_first());
        lemma_merge_seqs_first(a, b.drop_first());
        assert(rest.len() > 0 ==> b[0] <= rest[0]) by {
            if b.drop_first().len() > 0 {
                assert(b.drop_first()[0] == b[1]);
            }
        }
        lemma_sorted_cons(b[0], rest);
    }
}

/// A merge of sorted inputs is sorted, is as long as both inputs together,
/// and holds exactly the elements of both inputs.
pub proof fn lemma_merge_seqs_correct(a: Seq<i64>, b: Seq<i64>)
    requires
        sorted(a),
        sorted(b),
    ensures
        sorted(merge_seqs(a, b)),
        merge_seqs(a, b).len() == a.len() + b.len(),
        merge_seqs(a, b).to_multiset() == a.to_multiset().add(b.to_multiset()),
{
    lemma_merge_seqs_sorted(a, b);
    lemma_merge_seqs_len(a, b);
    lemma_merge_seqs_multiset(a, b);
}

/// Stability: when the two front elements are equal, the element of the
/// first sequence is placed first.
pub proof fn lemma_merge_seqs_tie(a: Seq<i64>, b: Seq<i64>)
    requires
        a.len() > 0,
        b.len() > 0,
        a[0] == b[0],
    ensures
        merge_seqs(a, b)[0] == a[0],
        merge_seqs(a, b) == seq![a[0]] + merge_seqs(a.drop_first(), b),
{
}

} // verus!
