//! A set of broadcast values, kept as a strictly increasing vector.

use vstd::prelude::*;

verus! {

/// Strictly increasing: sorted and free of duplicates.
pub open spec fn strictly_increasing(s: Seq<usize>) -> bool {
    forall|i: int, j: int| 0 <= i < j < s.len() ==> s[i] < s[j]
}

/// A finite set of `usize` values, stored in strictly increasing order.
///
/// Its view is the mathematical set of its elements; the ordering of the
/// backing vector is an internal invariant and shows up only in the
/// snapshots that [`ValueSet::to_vec`] hands out.
pub struct ValueSet {
    values: Vec<usize>,
}

impl View for ValueSet {
    type V = Set<usize>;

    closed spec fn view(&self) -> Set<usize> {
        self.values@.to_set()
    }
}

impl ValueSet {
    #[verifier::type_invariant]
    spec fn inv(self) -> bool {
        strictly_increasing(self.values@)
    }

    pub fn new() -> (s: Self)
        ensures
            s@ == Set::<usize>::empty(),
    {
        let s = ValueSet { values: Vec::new() };
        proof {
            assert(s.values@.to_set() =~= Set::<usize>::empty());
        }
        s
    }

    pub fn contains(&self, v: usize) -> (r: bool)
        ensures
            r == self@.contains(v),
    {
        proof {
            use_type_invariant(self);
        }
        let mut i: usize = 0;
        while i < self.values.len()
            invariant
                0 <= i <= self.values.len(),
                forall|j: int| 0 <= j < i ==> self.values@[j] != v,
            decreases self.values.len() - i,
        {
            if self.values[i] == v {
                return true;
            }
            i += 1;
        }
        false
    }

    /// Adds `v`; reports whether it was newly added.
    pub fn insert(&mut self, v: usize) -> (newly: bool)
        ensures
            final(self)@ == old(self)@.insert(v),
            newly == !old(self)@.contains(v),
    {
        proof {
            use_type_invariant(&*self);
        }
        let ghost pre = self.values@;
        let mut i: usize = 0;
        while i < self.values.len() && self.values[i] < v
            invariant
                0 <= i <= self.values.len(),
                self.values@ == pre,
                pre == old(self).values@,
                strictly_increasing(pre),
                forall|j: int| 0 <= j < i ==> pre[j] < v,
            decreases self.values.len() - i,
        {
            i += 1;
        }
        if i < self.values.len() && self.values[i] == v {
            proof {
                assert(pre.contains(v));
                assert(self@.insert(v) =~= self@);
            }
            false
        } else {
            proof {
                assert forall|j: int| 0 <= j < pre.len() implies pre[j] != v by {
                    if i <= j {
                        assert(strictly_increasing(pre));
                        assert(i < pre.len() ==> pre[i as int] <= pre[j]);
                    }
                }
                assert(!pre.to_set().contains(v));
                pre.insert_ensures(i as int, v);
            }
            let mut vals: Vec<usize> = Vec::new();
            std::mem::swap(&mut vals, &mut self.values);
            vals.insert(i, v);
            proof {
                let post = vals@;
                assert(strictly_increasing(post)) by {
                    assert forall|p: int, q: int| 0 <= p < q < post.len() implies post[p]
                        < post[q] by {
                        if q < i {
                        } else if p < i && q == i {
                        } else if p < i && q > i {
                            assert(post[q] == pre[q - 1]);
                            assert(i < pre.len() ==> pre[i as int] > v);
                        } else if p == i {
                            assert(post[q] == pre[q - 1]);
                            assert(q - 1 >= i);
                            assert(i < pre.len() ==> pre[i as int] > v);
                            assert(pre[q - 1] >= pre[i as int]);
                        } else {
                            assert(post[p] == pre[p - 1] && post[q] == pre[q - 1]);
                        }
                    }
                }
                assert(post.to_set() =~= pre.to_set().insert(v)) by {
                    assert(post[i as int] == v);
                    assert forall|x: usize| post.to_set().contains(x) implies pre.to_set().insert(
                        v,
                    ).contains(x) by {
                        let k = choose|k: int| 0 <= k < post.len() && post[k] == x;
                        if k < i {
                            assert(pre[k] == x);
                        } else if k > i {
                            assert(pre[k - 1] == x);
                        }
                    }
                    assert forall|x: usize| pre.to_set().insert(v).contains(x) implies
                        post.to_set().contains(x) by {
                        if x == v {
                            assert(post[i as int] == x);
                        } else {
                            let k = choose|k: int| 0 <= k < pre.len() && pre[k] == x;
                            if k < i {
                                assert(post[k] == x);
                            } else {
                                assert(post[k + 1] == x);
                            }
                        }
                    }
                }
            }
            self.values = vals;
            true
        }
    }

    /// Removes `v` if present.
    pub fn remove(&mut self, v: usize)
        ensures
            final(self)@ == old(self)@.remove(v),
    {
        proof {
            use_type_invariant(&*self);
        }
        let ghost pre = self.values@;
        let mut i: usize = 0;
        while i < self.values.len()
            invariant
                0 <= i <= self.values.len(),
                self.values@ == pre,
                pre == old(self).values@,
                strictly_increasing(pre),
                forall|j: int| 0 <= j < i ==> pre[j] != v,
            decreases self.values.len() - i,
        {
            if self.values[i] == v {
                proof {
                    pre.remove_ensures(i as int);
                }
                let mut vals: Vec<usize> = Vec::new();
                std::mem::swap(&mut vals, &mut self.values);
                vals.remove(i);
                proof {
                    let post = vals@;
                    assert(strictly_increasing(post)) by {
                        assert forall|p: int, q: int| 0 <= p < q < post.len() implies post[p]
                            < post[q] by {
                            if p < i && q >= i {
                                assert(post[q] == pre[q + 1]);
                            } else if p >= i {
                                assert(post[p] == pre[p + 1] && post[q] == pre[q + 1]);
                            }
                        }
                    }
                    assert(post.to_set() =~= pre.to_set().remove(v)) by {
                        assert forall|x: usize| post.to_set().contains(x) implies pre.to_set().remove(
                            v,
                        ).contains(x) by {
                            let k = choose|k: int| 0 <= k < post.len() && post[k] == x;
                            if k < i {
                                assert(pre[k] == x);
                                assert(x != v) by {
                                    assert(pre[k] < pre[i as int]);
                                }
                            } else {
                                assert(pre[k + 1] == x);
                                assert(x != v) by {
                                    assert(pre[i as int] < pre[k + 1]);
                                }
                            }
                        }
                        assert forall|x: usize| pre.to_set().remove(v).contains(x) implies
                            post.to_set().contains(x) by {
                            let k = choose|k: int| 0 <= k < pre.len() && pre[k] == x;
                            if k < i {
                                assert(post[k] == x);
                            } else {
                                assert(k != i);
                                assert(post[k - 1] == x);
                            }
                        }
                    }
                }
                self.values = vals;
                return ;
            }
            i += 1;
        }
        proof {
            assert(!pre.to_set().contains(v));
            assert(pre.to_set().remove(v) =~= pre.to_set());
        }
    }

    pub fn is_empty(&self) -> (r: bool)
        ensures
            r == self@.is_empty(),
    {
        proof {
            use_type_invariant(self);
            if self.values@.len() > 0 {
                assert(self@.contains(self.values@[0]));
            } else {
                assert(self@ =~= Set::<usize>::empty());
            }
        }
        self.values.len() == 0
    }

    /// A snapshot of the set, in strictly increasing order.
    pub fn to_vec(&self) -> (r: Vec<usize>)
        ensures
            r@.to_set() == self@,
            strictly_increasing(r@),
    {
        proof {
            use_type_invariant(self);
        }
        let mut r: Vec<usize> = Vec::new();
        let mut i: usize = 0;
        while i < self.values.len()
            invariant
                0 <= i <= self.values.len(),
                r@ == self.values@.subrange(0, i as int),
            decreases self.values.len() - i,
        {
            r.push(self.values[i]);
            proof {
                assert(r@ =~= self.values@.subrange(0, i + 1));
            }
            i += 1;
        }
        proof {
            assert(r@ =~= self.values@);
        }
        r
    }
}

} // verus!
