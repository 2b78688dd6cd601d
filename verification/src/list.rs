//! A singly linked list backed by an arena of nodes.
//!
//! The nodes live in a growable buffer that the list owns; `head` is the
//! index of the head node, and each node's successor is the slot that
//! follows it. Appending pushes a node at the end of the buffer in constant
//! time, and popping moves the head value out, clears its slot and advances
//! `head`, also in constant time. A value is released exactly once: by the
//! pop that returns it, by the drain inside a merge, or when the list
//! itself is dropped. `length` always counts the live nodes, and the open
//! part of `wf` states so publicly.

use vstd::prelude::*;

use crate::decimal::{dec_int, write_int};
use crate::merge::{lemma_merge_seqs_empty, lemma_merge_seqs_len, lemma_merge_seqs_multiset,
    lemma_merge_seqs_sorted, merge_seqs, opt_seq, sorted};
use vstd::string::StringExecFns;

verus! {

/// The rendering of a sequence of elements: their decimal forms from head
/// to tail, separated by ", ", with no trailing separator.
pub open spec fn render_seq(s: Seq<i64>) -> Seq<char>
    decreases s.len(),
{
    if s.len() == 0 {
        Seq::empty()
    } else if s.len() == 1 {
        dec_int(s[0] as int)
    } else {
        dec_int(s[0] as int) + seq![',', ' '] + render_seq(s.drop_first())
    }
}

/// The rendering of a sequence of text elements: the texts from head to
/// tail, separated by ", ", with no trailing separator.
pub open spec fn render_strings(s: Seq<String>) -> Seq<char>
    decreases s.len(),
{
    if s.len() == 0 {
        Seq::empty()
    } else if s.len() == 1 {
        s[0]@
    } else {
        s[0]@ + seq![',', ' '] + render_strings(s.drop_first())
    }
}

/// Extending a rendered sequence by one element appends ", " and the new
/// element's decimal form (or just the decimal form, to an empty sequence).
proof fn lemma_render_seq_push(s: Seq<i64>, x: i64)
    ensures
        render_seq(s.push(x)) == if s.len() == 0 {
            dec_int(x as int)
        } else {
            render_seq(s) + seq![',', ' '] + dec_int(x as int)
        },
    decreases s.len(),
{
    let t = s.push(x);
    if s.len() == 0 {
        assert(t.len() == 1);
        assert(t[0] == x);
    } else if s.len() == 1 {
        assert(t.len() == 2);
        assert(t[0] == s[0]);
        assert(t.drop_first() =~= Seq::<i64>::empty().push(x));
        assert(t.drop_first()[0] == x);
        assert(render_seq(t.drop_first()) == dec_int(x as int));
        assert(render_seq(t) == dec_int(t[0] as int) + seq![',', ' '] + render_seq(t.drop_first()));
        assert(render_seq(s) == dec_int(s[0] as int));
        assert(render_seq(t) =~= render_seq(s) + seq![',', ' '] + dec_int(x as int));
    } else {
        lemma_render_seq_push(s.drop_first(), x);
        assert(t.drop_first() =~= s.drop_first().push(x));
        assert(t[0] == s[0]);
        assert(render_seq(t) =~= render_seq(s) + seq![',', ' '] + dec_int(x as int));
    }
}

/// Extending a rendered text sequence by one element appends ", " and the
/// new text (or just the text, to an empty sequence).
proof fn lemma_render_strings_push(s: Seq<String>, x: String)
    ensures
        render_strings(s.push(x)) == if s.len() == 0 {
            x@
        } else {
            render_strings(s) + seq![',', ' '] + x@
        },
    decreases s.len(),
{
    let t = s.push(x);
    if s.len() == 0 {
        assert(t.len() == 1);
        assert(t[0] == x);
    } else if s.len() == 1 {
        assert(t.len() == 2);
        assert(t[0] == s[0]);
        assert(t.drop_first() =~= Seq::<String>::empty().push(x));
        assert(t.drop_first()[0] == x);
        assert(render_strings(t.drop_first()) == x@);
        assert(render_strings(t) == t[0]@ + seq![',', ' '] + render_strings(t.drop_first()));
        assert(render_strings(s) == s[0]@);
        assert(render_strings(t) =~= render_strings(s) + seq![',', ' '] + x@);
    } else {
        lemma_render_strings_push(s.drop_first(), x);
        assert(t.drop_first() =~= s.drop_first().push(x));
        assert(t[0] == s[0]);
        assert(render_strings(t) =~= render_strings(s) + seq![',', ' '] + x@);
    }
}

/// One node of the arena. Its successor, when it has one, is the node in
/// the next slot of the buffer.
pub struct Node<T> {
    pub(crate) val: T,
}

impl<T> Node<T> {
    pub(crate) fn new(t: T) -> (node: Node<T>)
        ensures
            node.val == t,
    {
        Node { val: t }
    }
}

pub struct LinkedList<T> {
    pub length: u32,
    pub buf: Vec<Option<Node<T>>>,
    pub head: usize,
}

impl<T> LinkedList<T> {
    /// The list abstracted as the sequence of its elements, head first.
    pub closed spec fn as_seq(self) -> Seq<T> {
        if self.head <= self.buf@.len() {
            Seq::new(
                (self.buf@.len() - self.head) as nat,
                |i: int| self.buf@[self.head + i].unwrap().val,
            )
        } else {
            Seq::empty()
        }
    }

    /// The buffer holds cleared slots before `head` and live nodes from
    /// `head` to its end.
    pub closed spec fn arena_ok(self) -> bool {
        &&& self.head <= self.buf@.len()
        &&& forall|i: int| 0 <= i < self.head ==> self.buf@[i] is None
        &&& forall|i: int| self.head <= i < self.buf@.len() ==> self.buf@[i] is Some
    }

    /// The arena is consistent and `length` counts the elements of the
    /// list: `length` always equals `self@.len()`.
    pub open spec fn wf(self) -> bool {
        &&& self.arena_ok()
        &&& self.length == self@.len()
    }
}

impl<T> View for LinkedList<T> {
    type V = Seq<T>;

    open spec fn view(&self) -> Seq<T> {
        self.as_seq()
    }
}

impl<T> Default for LinkedList<T> {
    fn default() -> (list: Self)
        ensures
            list.wf(),
            list@ == Seq::<T>::empty(),
            list.length == 0,
    {
        Self::new()
    }
}

impl<T> LinkedList<T> {
    pub fn new() -> (list: Self)
        ensures
            list.wf(),
            list@ == Seq::<T>::empty(),
            list.length == 0,
    {
        let list = LinkedList { length: 0, buf: Vec::new(), head: 0 };
        proof {
            assert(list@ =~= Seq::<T>::empty());
        }
        list
    }

    /// Appends `obj` as the new tail of the list.
    pub fn add(&mut self, obj: T)
        requires
            old(self).wf(),
            old(self)@.len() < u32::MAX,
        ensures
            final(self).wf(),
            final(self)@ == old(self)@.push(obj),
            final(self).length == old(self).length + 1,
    {
        self.buf.push(Some(Node::new(obj)));
        self.length = self.length + 1;
        proof {
            assert(self@ =~= old(self)@.push(obj));
        }
    }

    /// Returns the element at zero-based position `index`, or `None` when
    /// `index` is at or past the count.
    pub fn get(&self, index: u32) -> (r: Option<&T>)
        requires
            self.wf(),
        ensures
            index < self@.len() ==> r == Some(&self@[index as int]),
            index >= self@.len() ==> r is None,
    {
        if index < self.length {
            let n = self.buf.len();
            proof {
                assert(self.head + (index as int) < n);
            }
            let idx: usize = self.head + (index as usize);
            match &self.buf[idx] {
                Some(node) => {
                    proof {
                        assert(self@[index as int] == self.buf@[idx as int].unwrap().val);
                    }
                    Some(&node.val)
                },
                None => {
                    proof {
                        assert(false);
                    }
                    None
                },
            }
        } else {
            None
        }
    }

    /// Removes and returns the head element, or `None` when the list is
    /// empty. An empty result leaves the list untouched; otherwise the head
    /// slot is cleared and the count goes down by one.
    pub fn pop_front(&mut self) -> (r: Option<T>)
        requires
            old(self).wf(),
        ensures
            final(self).wf(),
            old(self)@.len() == 0 ==> {
                &&& r is None
                &&& *final(self) == *old(self)
            },
            old(self)@.len() > 0 ==> {
                &&& r == Some(old(self)@[0])
                &&& final(self)@ == old(self)@.drop_first()
                &&& final(self).length == old(self).length - 1
            },
    {
        if self.length == 0 {
            None
        } else {
            let h = self.head;
            let n = self.buf.len();
            proof {
                assert(h < n);
                assert(self.buf@[h as int] is Some);
            }
            let slot = self.buf[h].take();
            match slot {
                Some(node) => {
                    self.head = h + 1;
                    self.length = self.length - 1;
                    proof {
                        assert(old(self)@[0] == node.val);
                        assert(self@ =~= old(self)@.drop_first());
                    }
                    Some(node.val)
                },
                None => {
                    proof {
                        assert(false);
                    }
                    None
                },
            }
        }
    }
}

impl LinkedList<i64> {
    /// Consumes two lists and returns one list that holds the elements of
    /// both, produced by the stable two-way merge: the smaller front element
    /// moves first and a tie is resolved in favour of `list_a`. When both
    /// inputs are sorted in non-decreasing order, so is the result. Each
    /// element is moved exactly once, by one pop and one append.
    pub fn merge(list_a: LinkedList<i64>, list_b: LinkedList<i64>) -> (merged: Self)
        requires
            list_a.wf(),
            list_b.wf(),
            list_a@.len() + list_b@.len() <= u32::MAX,
        ensures
            merged.wf(),
            merged@ == merge_seqs(list_a@, list_b@),
            merged@.len() == list_a@.len() + list_b@.len(),
            merged@.to_multiset() == list_a@.to_multiset().add(list_b@.to_multiset()),
            sorted(list_a@) && sorted(list_b@) ==> sorted(merged@),
            list_a@.len() == 0 ==> merged@ == list_b@,
            list_b@.len() == 0 ==> merged@ == list_a@,
    {
        let ghost ga = list_a@;
        let ghost gb = list_b@;
        let mut rest_a = list_a;
        let mut rest_b = list_b;
        let mut merged = LinkedList::<i64>::new();
        let mut a_val = rest_a.pop_front();
        let mut b_val = rest_b.pop_front();
        proof {
            assert(opt_seq(a_val) + rest_a@ =~= ga);
            assert(opt_seq(b_val) + rest_b@ =~= gb);
            assert(merged@ + merge_seqs(ga, gb) =~= merge_seqs(ga, gb));
        }
        while a_val.is_some() && b_val.is_some()
            invariant
                rest_a.wf(),
                rest_b.wf(),
                merged.wf(),
                a_val is None ==> rest_a@.len() == 0,
                b_val is None ==> rest_b@.len() == 0,
                merged@ + merge_seqs(opt_seq(a_val) + rest_a@, opt_seq(b_val) + rest_b@)
                    == merge_seqs(ga, gb),
                merged@.len() + opt_seq(a_val).len() + rest_a@.len() + opt_seq(b_val).len()
                    + rest_b@.len() == ga.len() + gb.len(),
                ga.len() + gb.len() <= u32::MAX,
            decreases opt_seq(a_val).len() + rest_a@.len() + opt_seq(b_val).len() + rest_b@.len(),
        {
            let ghost fa = opt_seq(a_val) + rest_a@;
            let ghost fb = opt_seq(b_val) + rest_b@;
            let a = a_val.unwrap();
            let b = b_val.unwrap();
            if a <= b {
                proof {
                    assert(merge_seqs(fa, fb) == seq![fa[0]] + merge_seqs(fa.drop_first(), fb));
                }
                merged.add(a);
                a_val = rest_a.pop_front();
                proof {
                    assert(opt_seq(a_val) + rest_a@ =~= fa.drop_first());
                    assert(merged@ + merge_seqs(fa.drop_first(), fb) =~= merge_seqs(ga, gb));
                }
            } else {
                proof {
                    assert(merge_seqs(fa, fb) == seq![fb[0]] + merge_seqs(fa, fb.drop_first()));
                }
                merged.add(b);
                b_val = rest_b.pop_front();
                proof {
                    assert(opt_seq(b_val) + rest_b@ =~= fb.drop_first());
                    assert(merged@ + merge_seqs(fa, fb.drop_first()) =~= merge_seqs(ga, gb));
                }
            }
        }
        match (a_val, b_val) {
            (Some(a), None) => {
                proof {
                    let fa = opt_seq(a_val) + rest_a@;
                    assert(opt_seq(b_val) + rest_b@ =~= Seq::<i64>::empty());
                    lemma_merge_seqs_empty(fa, Seq::<i64>::empty());
                    assert(merged@ + fa =~= merge_seqs(ga, gb));
                    assert(fa.drop_first() =~= rest_a@);
                }
                merged.add(a);
                while rest_a.length != 0
                    invariant
                        rest_a.wf(),
                        merged.wf(),
                        merged@ + rest_a@ == merge_seqs(ga, gb),
                        merged@.len() + rest_a@.len() == ga.len() + gb.len(),
                        ga.len() + gb.len() <= u32::MAX,
                    decreases rest_a@.len(),
                {
                    let val = rest_a.pop_front().unwrap();
                    merged.add(val);
                    proof {
                        assert(merged@ + rest_a@ =~= merge_seqs(ga, gb));
                    }
                }
            },
            (None, Some(b)) => {
                proof {
                    let fb = opt_seq(b_val) + rest_b@;
                    assert(opt_seq(a_val) + rest_a@ =~= Seq::<i64>::empty());
                    lemma_merge_seqs_empty(Seq::<i64>::empty(), fb);
                    assert(merged@ + fb =~= merge_seqs(ga, gb));
                    assert(fb.drop_first() =~= rest_b@);
                }
                merged.add(b);
                while rest_b.length != 0
                    invariant
                        rest_b.wf(),
                        merged.wf(),
                        merged@ + rest_b@ == merge_seqs(ga, gb),
                        merged@.len() + rest_b@.len() == ga.len() + gb.len(),
                        ga.len() + gb.len() <= u32::MAX,
                    decreases rest_b@.len(),
                {
                    let val = rest_b.pop_front().unwrap();
                    merged.add(val);
                    proof {
                        assert(merged@ + rest_b@ =~= merge_seqs(ga, gb));
                    }
                }
            },
            (None, None) => {
                proof {
                    assert(opt_seq(a_val) + rest_a@ =~= Seq::<i64>::empty());
                    assert(opt_seq(b_val) + rest_b@ =~= Seq::<i64>::empty());
                    lemma_merge_seqs_empty(Seq::<i64>::empty(), Seq::<i64>::empty());
                    assert(merged@ + Seq::<i64>::empty() =~= merged@);
                }
            },
            (Some(_), Some(_)) => {
                proof {
                    assert(false);
                }
            },
        }
        proof {
            assert(merged@ + Seq::<i64>::empty() =~= merged@);
            lemma_merge_seqs_len(ga, gb);
            lemma_merge_seqs_multiset(ga, gb);
            if sorted(ga) && sorted(gb) {
                lemma_merge_seqs_sorted(ga, gb);
            }
            if ga.len() == 0 {
                assert(ga =~= Seq::<i64>::empty());
                lemma_merge_seqs_empty(ga, gb);
            }
            if gb.len() == 0 {
                assert(gb =~= Seq::<i64>::empty());
                lemma_merge_seqs_empty(ga, gb);
            }
        }
        merged
    }

    /// The human-readable rendering of the list: its elements from head to
    /// tail separated by ", ", and the empty string for an empty list.
    pub fn render(&self) -> (r: String)
        requires
            self.wf(),
        ensures
            r@ == render_seq(self@),
    {
        let mut out = String::new();
        let mut i: u32 = 0;
        proof {
            assert(self@.take(0) =~= Seq::<i64>::empty());
        }
        while i < self.length
            invariant
                self.wf(),
                i <= self.length,
                out@ == render_seq(self@.take(i as int)),
            decreases self.length - i,
        {
            let ghost prefix = self@.take(i as int);
            if i > 0 {
                out.append(", ");
            }
            let v = *self.get(i).unwrap();
            write_int(v, &mut out);
            proof {
                reveal_strlit(", ");
                assert(", "@ =~= seq![',', ' ']);
                lemma_render_seq_push(prefix, v);
                assert(self@.take(i as int + 1) =~= prefix.push(v));
                assert(out@ =~= render_seq(self@.take(i as int + 1)));
            }
            i = i + 1;
        }
        proof {
            assert(self@.take(self.length as int) =~= self@);
        }
        out
    }
}

impl LinkedList<String> {
    /// The human-readable rendering of the list: its elements from head to
    /// tail separated by ", ", and the empty string for an empty list.
    pub fn render(&self) -> (r: String)
        requires
            self.wf(),
        ensures
            r@ == render_strings(self@),
    {
        let mut out = String::new();
        let mut i: u32 = 0;
        proof {
            assert(self@.take(0) =~= Seq::<String>::empty());
        }
        while i < self.length
            invariant
                self.wf(),
                i <= self.length,
                out@ == render_strings(self@.take(i as int)),
            decreases self.length - i,
        {
            let ghost prefix = self@.take(i as int);
            if i > 0 {
                out.append(", ");
            }
            let v = self.get(i).unwrap();
            out.append(v.as_str());
            proof {
                reveal_strlit(", ");
                assert(", "@ =~= seq![',', ' ']);
                lemma_render_strings_push(prefix, *v);
                assert(self@.take(i as int + 1) =~= prefix.push(*v));
                assert(out@ =~= render_strings(self@.take(i as int + 1)));
            }
            i = i + 1;
        }
        proof {
            assert(self@.take(self.length as int) =~= self@);
        }
        out
    }
}

} // verus!
