//! Iterators over a [`PinArray`].
use vstd::prelude::*;

use crate::PinArray;

verus! {

/// Iterator over references to the elements of a [`PinArray`], in index order.
pub struct Iter<'p, T, const SZ: usize> {
    i: usize,
    els: &'p PinArray<T, SZ>,
}

impl<'p, T, const SZ: usize> Iter<'p, T, SZ> {
    #[verifier::type_invariant]
    spec fn cursor_in_bounds(self) -> bool {
        self.i <= SZ
    }

    /// The index of the element that `next` returns.
    pub closed spec fn index(&self) -> nat {
        self.i as nat
    }

    /// The elements of the array iterated over.
    pub closed spec fn source(&self) -> Seq<T> {
        self.els@
    }

    /// The elements still to come, in the order `next` returns them.
    pub open spec fn remaining(&self) -> Seq<T> {
        self.source().subrange(self.index() as int, SZ as int)
    }

    /// Creates an iterator over all elements of `els`, starting at index 0.
    pub fn new(els: &'p PinArray<T, SZ>) -> (r: Self)
        ensures
            r.index() == 0,
            r.source() == els@,
            r.remaining() == els@,
    {
        proof {
            els.lemma_len();
        }
        Iter { i: 0, els }
    }

    /// The next element, or `None` once all `SZ` were returned.
    pub fn next(&mut self) -> (r: Option<&'p T>)
        ensures
            final(self).source() == old(self).source(),
            old(self).index() < SZ ==> r == Some(&old(self).source()[old(self).index() as int])
                && final(self).index() == old(self).index() + 1,
            old(self).index() >= SZ ==> r is None && final(self).index() == old(self).index(),
            old(self).remaining().len() == 0 <==> r is None,
            r is Some ==> old(self).remaining() == seq![*r->0] + final(self).remaining(),
            r is None ==> final(self).remaining() == old(self).remaining(),
    {
        proof {
            use_type_invariant(&*self);
            self.els.lemma_len();
        }
        if self.i >= SZ {
            None
        } else {
            let item = self.els.get(self.i);
            self.i = self.i + 1;
            proof {
                assert(old(self).remaining() =~= seq![old(self).source()[old(self).index() as int]]
                    + self.remaining());
            }
            item
        }
    }

    /// The number of elements still to come, `SZ` minus the index.
    pub fn len(&self) -> (r: usize)
        ensures
            r == SZ - self.index(),
            r == self.remaining().len(),
    {
        proof {
            use_type_invariant(self);
            self.els.lemma_len();
        }
        SZ - self.i
    }
}

/// Iterator over exclusive handles to the elements of a [`PinArray`], in index order.
///
/// It holds the part of the array that it has not handed out yet; each call to
/// `next` splits the first element off that part, so no two handles overlap.
/// `rest` is public because the contracts of `new` and `next` follow what is
/// written through the handles back to the array by way of it; since `T: Unpin`,
/// reaching the elements through it moves nothing that must stay in place.
pub struct IterMut<'p, T: Unpin, const SZ: usize> {
    /// The elements not yet handed out.
    pub rest: &'p mut [T],
}

impl<'p, T: Unpin, const SZ: usize> IterMut<'p, T, SZ> {
    /// The number of elements not yet handed out.
    pub open spec fn remaining(&self) -> nat {
        self.rest@.len()
    }

    /// The index of the element that `next` hands out.
    pub open spec fn index(&self) -> int {
        SZ - self.remaining()
    }

    /// Creates an iterator over all elements of `parent`.
    pub fn new(parent: &'p mut PinArray<T, SZ>) -> (r: Self)
        ensures
            r.rest@ == old(parent)@,
            final(parent)@ == final(r.rest)@,
    {
        IterMut { rest: parent.as_mut_slice() }
    }

    /// The next handle, or `None` once every element was handed out.
    pub fn next(&mut self) -> (r: Option<&'p mut T>)
        ensures
            old(self).rest@.len() == 0 ==> r is None && final(self).rest@.len() == 0
                && final(old(self).rest)@ == old(self).rest@,
            old(self).rest@.len() > 0 ==> r is Some && *r->0 == old(self).rest@[0]
                && final(self).index() == old(self).index() + 1
                && final(self).rest@ == old(self).rest@.drop_first()
                && final(old(self).rest)@ == seq![*final(r->0)] + final(final(self).rest)@,
    {
        let mut taken: &'p mut [T] = &mut [];
        core::mem::swap(&mut self.rest, &mut taken);
        if taken.len() == 0 {
            return None;
        }
        let (head, tail) = taken.split_at_mut(1);
        self.rest = tail;
        head.first_mut()
    }

    /// The number of handles still to come.
    pub fn len(&self) -> (r: usize)
        ensures
            r == self.remaining(),
    {
        self.rest.len()
    }
}

/// Handles split one at a time off the front of a sequence land in index order.
///
/// `parts[0]` is the whole sequence and each step splits `firsts[k]` off the front
/// of `parts[k]`, leaving `parts[k + 1]`, as `IterMut::next` does both to the
/// values the elements hold now and to those they hold once the lock ends. Then
/// the `k`-th handle is element `k`: the one that `get_pin(k)` and slot `k` of
/// `as_pin_array` reach. So `IterMut` gives each index exactly once, and what is
/// written through its `k`-th handle is what element `k` holds afterwards.
pub proof fn lemma_split_in_index_order<T>(whole: Seq<T>, parts: Seq<Seq<T>>, firsts: Seq<T>)
    requires
        parts.len() == firsts.len() + 1,
        parts[0] == whole,
        forall|k: int| 0 <= k < firsts.len() ==> #[trigger] parts[k] == seq![firsts[k]] + parts[k + 1],
    ensures
        whole == firsts + parts[firsts.len() as int],
        forall|k: int| 0 <= k < firsts.len() ==> whole[k] == firsts[k],
    decreases firsts.len(),
{
    if firsts.len() > 0 {
        let n = firsts.len() - 1;
        lemma_split_in_index_order(whole, parts.subrange(0, n + 1), firsts.subrange(0, n));
        assert(parts[n] == seq![firsts[n]] + parts[n + 1]);
        assert(whole =~= firsts + parts[firsts.len() as int]);
    } else {
        assert(whole =~= firsts + parts[0]);
    }
    assert forall|k: int| 0 <= k < firsts.len() implies whole[k] == firsts[k] by {
        assert(whole[k] == (firsts + parts[firsts.len() as int])[k]);
    }
}

} // verus!
