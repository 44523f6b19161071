//! The bounded recency cache: an insertion-ordered list of the most recently
//! seen items, used in follow mode to suppress re-emission of lines delivered
//! again by duplicate filesystem notifications.

use std::collections::VecDeque;
use vstd::math::min;
use vstd::prelude::*;

verus! {

/// Equality as the cache compares its items.
pub trait CacheItem: Sized {
    spec fn item_eq(&self, other: &Self) -> bool;

    fn eq_item(&self, other: &Self) -> (r: bool)
        ensures
            r == self.item_eq(other),
    ;
}

impl CacheItem for u32 {
    open spec fn item_eq(&self, other: &Self) -> bool {
        self == other
    }

    fn eq_item(&self, other: &Self) -> (r: bool) {
        *self == *other
    }
}

impl CacheItem for String {
    open spec fn item_eq(&self, other: &Self) -> bool {
        self@ == other@
    }

    fn eq_item(&self, other: &Self) -> (r: bool) {
        self.eq(other)
    }
}

/// Whether some element of `s` equals `x`.
pub open spec fn contains_eq<T: CacheItem>(s: Seq<T>, x: T) -> bool {
    exists|k: int| 0 <= k < s.len() && s[k].item_eq(&x)
}

/// Whether `j` is the first position of `s` whose element equals `x`.
pub open spec fn is_first_eq<T: CacheItem>(s: Seq<T>, x: T, j: int) -> bool {
    &&& 0 <= j < s.len()
    &&& s[j].item_eq(&x)
    &&& forall|k: int| 0 <= k < j ==> !s[k].item_eq(&x)
}

/// The first position of `s` whose element equals `x` (meaningful only when
/// one exists).
pub open spec fn first_eq_index<T: CacheItem>(s: Seq<T>, x: T) -> int
    decreases s.len(),
{
    if s.len() == 0 {
        0
    } else if s[0].item_eq(&x) {
        0
    } else {
        1 + first_eq_index(s.drop_first(), x)
    }
}

/// `first_eq_index` is what its name says: the unique first matching position.
pub proof fn lemma_first_eq_index<T: CacheItem>(s: Seq<T>, x: T)
    requires
        contains_eq(s, x),
    ensures
        is_first_eq(s, x, first_eq_index(s, x)),
        forall|j: int| is_first_eq(s, x, j) ==> j == first_eq_index(s, x),
    decreases s.len(),
{
    if s.len() > 0 && !s[0].item_eq(&x) {
        assert(contains_eq(s.drop_first(), x)) by {
            let k = choose|k: int| 0 <= k < s.len() && s[k].item_eq(&x);
            assert(s.drop_first()[k - 1].item_eq(&x));
        }
        lemma_first_eq_index(s.drop_first(), x);
        let f = first_eq_index(s.drop_first(), x);
        assert(s[f + 1].item_eq(&x));
        assert forall|k: int| 0 <= k < f + 1 implies !s[k].item_eq(&x) by {
            if k > 0 {
                assert(s.drop_first()[k - 1] == s[k]);
            }
        }
        assert forall|j: int| is_first_eq(s, x, j) implies j == f + 1 by {
            assert(is_first_eq(s.drop_first(), x, j - 1)) by {
                assert(forall|k: int| 0 <= k < j - 1 ==> s.drop_first()[k] == s[k + 1]);
            }
        }
    }
}

/// What pushing `x` into a recency list `s` of capacity `cap` yields: the new
/// list, and whether `x` was fresh. A present item moves to the front; a
/// fresh one is inserted at the front, the back evicted beyond capacity.
pub open spec fn spec_cache_push<T: CacheItem>(s: Seq<T>, x: T, cap: nat) -> (Seq<T>, bool) {
    if contains_eq(s, x) {
        (seq![x] + s.remove(first_eq_index(s, x)), false)
    } else {
        ((seq![x] + s).take(min(cap as int, s.len() as int + 1)), true)
    }
}

/// The bounded recency cache: most recently seen items first, never more than
/// its capacity.
pub struct Cache<T: CacheItem> {
    list: VecDeque<T>,
    size: usize,
}

impl<T: CacheItem> Cache<T> {
    /// The cached items, most recently seen first.
    pub closed spec fn model(&self) -> Seq<T> {
        self.list@
    }

    /// The capacity bound.
    pub closed spec fn capacity(&self) -> nat {
        self.size as nat
    }

    /// The cache never outgrows its capacity.
    pub open spec fn wf(&self) -> bool {
        self.model().len() <= self.capacity()
    }

    /// An empty cache of the given capacity.
    pub fn new(size: u8) -> (r: Self)
        ensures
            r.model() == Seq::<T>::empty(),
            r.capacity() == size as nat,
            r.wf(),
    {
        Cache { list: VecDeque::new(), size: size as usize }
    }

    /// How many items the cache currently holds.
    pub fn len(&self) -> (r: usize)
        ensures
            r == self.model().len(),
    {
        self.list.len()
    }

    /// Records `item` as the most recently seen. Returns true when `item` was
    /// not cached (the caller should emit it), false when it was (a recent
    /// duplicate: the caller must suppress it, and the item moves to the
    /// front). Evicts from the back beyond capacity.
    pub fn push(&mut self, item: T) -> (r: bool)
        requires
            old(self).wf(),
        ensures
            final(self).wf(),
            final(self).capacity() == old(self).capacity(),
            r == spec_cache_push(old(self).model(), item, old(self).capacity()).1,
            final(self).model() == spec_cache_push(old(self).model(), item, old(self).capacity()).0,
    {
        let ghost s0 = self.list@;
        let mut pos: Option<usize> = None;
        let mut i: usize = 0;
        while i < self.list.len()
            invariant
                i <= self.list@.len(),
                self.list@ == s0,
                self.size == old(self).size,
                match pos {
                    Some(j) => is_first_eq(s0, item, j as int) && j < i,
                    None => forall|k: int| 0 <= k < i ==> !s0[k].item_eq(&item),
                },
            decreases self.list@.len() - i,
        {
            if pos.is_none() {
                if self.list[i].eq_item(&item) {
                    pos = Some(i);
                }
            }
            i = i + 1;
        }
        let result = match pos {
            Some(j) => {
                self.list.remove(j);
                proof {
                    lemma_first_eq_index(s0, item);
                }
                false
            },
            None => true,
        };
        self.list.push_front(item);
        let ghost target = self.list@;
        proof {
            if result {
                assert(!contains_eq(s0, item));
                assert(target == seq![item] + s0);
            } else {
                assert(target == seq![item] + s0.remove(first_eq_index(s0, item)));
                assert(target.len() <= self.size);
            }
        }
        while self.list.len() > self.size
            invariant
                self.list@ =~= target.take(self.list@.len() as int),
                self.list@.len() <= target.len(),
                self.list@.len() >= min(self.size as int, target.len() as int),
                self.size == old(self).size,
            decreases self.list@.len(),
        {
            proof {
                assert(self.list@.len() > 0);
            }
            self.list.pop_back();
            proof {
                assert(self.list@ =~= target.take(self.list@.len() as int));
            }
        }
        proof {
            assert(self.list@.len() == min(self.size as int, target.len() as int));
            if result {
                assert(self.list@ == (seq![item] + s0).take(
                    min(self.size as int, s0.len() as int + 1),
                ));
            } else {
                assert(self.list@ =~= target);
            }
        }
        result
    }
}

} // verus!

