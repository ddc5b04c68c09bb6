//! A ring buffer of fixed capacity.

use vstd::prelude::*;

verus! {

/// The elements of a ring buffer of capacity `cap` holding `v` after `x` is
/// pushed: `x` comes last, and the oldest element goes when `cap` were held.
pub open spec fn after_push<T>(v: Seq<T>, x: T, cap: nat) -> Seq<T> {
    if v.len() < cap {
        v.push(x)
    } else {
        v.drop_first().push(x)
    }
}

/// The elements of a ring buffer of capacity `cap` holding `v` after the
/// elements of `xs` are pushed in order.
pub open spec fn after_pushes<T>(v: Seq<T>, xs: Seq<T>, cap: nat) -> Seq<T>
    decreases xs.len(),
{
    if xs.len() == 0 {
        v
    } else {
        after_push(after_pushes(v, xs.drop_last(), cap), xs.last(), cap)
    }
}

/// A ring buffer that starts empty holds the newest `cap` of the elements
/// pushed onto it, oldest first, or all of them when fewer were pushed.
pub proof fn law_keeps_newest<T>(xs: Seq<T>, cap: nat)
    requires
        cap > 0,
    ensures
        after_pushes(Seq::<T>::empty(), xs, cap) == xs.subrange(
            if xs.len() > cap {
                xs.len() - cap
            } else {
                0
            },
            xs.len() as int,
        ),
    decreases xs.len(),
{
    if xs.len() > 0 {
        let init = xs.drop_last();
        law_keeps_newest(init, cap);
        let r = after_pushes(Seq::<T>::empty(), init, cap);
        if init.len() < cap {
            assert(r.push(xs.last()) =~= xs);
        } else {
            assert(r.drop_first().push(xs.last()) =~= xs.subrange(xs.len() - cap, xs.len() as int));
        }
    }
}

/// A ring buffer that keeps at most `CAP` elements; pushing onto a full
/// buffer removes its oldest element.
pub struct RingBuf<T, const CAP: usize> {
    buf: Vec<T>,
    first: usize,
}

impl<T, const CAP: usize> View for RingBuf<T, CAP> {
    type V = Seq<T>;

    /// The elements, oldest first.
    closed spec fn view(&self) -> Seq<T> {
        self.buf@.subrange(self.first as int, self.buf@.len() as int) + self.buf@.subrange(
            0,
            self.first as int,
        )
    }
}

impl<T, const CAP: usize> RingBuf<T, CAP> {
    #[verifier::type_invariant]
    spec fn inv(self) -> bool {
        &&& self.buf@.len() <= CAP
        &&& self.first == 0 || (self.first < CAP && self.buf@.len() == CAP)
    }

    /// The number of elements that the storage holds after the oldest one,
    /// in storage order; they come last in [`RingBuf::as_slices`].
    pub closed spec fn wrapped(&self) -> nat {
        self.first as nat
    }

    /// An empty ring buffer.
    pub fn new() -> (r: RingBuf<T, CAP>)
        ensures
            r@ == Seq::<T>::empty(),
            r.wrapped() == 0,
    {
        let r = RingBuf { buf: Vec::new(), first: 0 };
        assert(r@ =~= Seq::<T>::empty());
        r
    }

    /// The number of elements.
    pub fn len(&self) -> (r: usize)
        ensures
            r == self@.len(),
            r <= CAP,
    {
        proof {
            use_type_invariant(self);
        }
        self.buf.len()
    }

    /// Whether the buffer holds no element.
    pub fn is_empty(&self) -> (r: bool)
        ensures
            r <==> self@.len() == 0,
    {
        proof {
            use_type_invariant(self);
        }
        self.buf.len() == 0
    }

    /// Pushes `value` as the newest element; when `CAP` elements are held
    /// already, the oldest is removed.
    pub fn push(&mut self, value: T)
        requires
            CAP > 0,
        ensures
            final(self)@ == after_push(old(self)@, value, CAP as nat),
            final(self).wrapped() == if old(self)@.len() < CAP {
                0
            } else {
                (old(self).wrapped() + 1) % (CAP as nat)
            },
    {
        let ghost old_view = self@;
        let mut taken = RingBuf { buf: Vec::new(), first: 0 };
        core::mem::swap(self, &mut taken);
        proof {
            use_type_invariant(&taken);
        }
        let RingBuf { mut buf, first } = taken;
        proof {
            lemma_wrap(first + 1, CAP as int);
        }
        if buf.len() < CAP {
            buf.push(value);
            *self = RingBuf { buf, first: 0 };
            assert(self@ =~= old_view.push(value));
        } else {
            buf.set(first, value);
            let next = if first + 1 == CAP {
                0
            } else {
                first + 1
            };
            *self = RingBuf { buf, first: next };
            assert(self@ =~= old_view.drop_first().push(value));
        }
    }

    /// Removes all elements, oldest first.
    pub fn clear(&mut self)
        ensures
            final(self)@ == Seq::<T>::empty(),
            final(self).wrapped() == 0,
    {
        let mut taken = RingBuf { buf: Vec::new(), first: 0 };
        core::mem::swap(self, &mut taken);
        proof {
            use_type_invariant(&taken);
        }
        let RingBuf { mut buf, first } = taken;
        {
            let _older = buf.split_off(first);
        }
        buf.clear();
        *self = RingBuf { buf, first: 0 };
        assert(self@ =~= Seq::<T>::empty());
    }

    /// The elements as two slices: first the oldest ones up to the end of
    /// the storage, then the [`RingBuf::wrapped`] ones from its start.
    pub fn as_slices(&self) -> (r: (&[T], &[T]))
        ensures
            r.0@ + r.1@ == self@,
            r.1@.len() == self.wrapped(),
    {
        proof {
            use_type_invariant(self);
        }
        let s = self.buf.as_slice();
        let front = &s[self.first..s.len()];
        let back = &s[0..self.first];
        (front, back)
    }

    /// An iterator over the elements, oldest first.
    pub fn iter(&self) -> (r: Iter<'_, T, CAP>)
        ensures
            r@ == self@,
    {
        proof {
            use_type_invariant(self);
        }
        let r = Iter { buf: &self.buf, len: self.buf.len(), first: self.first };
        assert forall|k: int| 0 <= k < r@.len() implies r@[k] == self@[k] by {
            lemma_wrap(self.first + k, CAP as int);
        }
        assert(r@ =~= self@);
        r
    }
}

impl<T, const CAP: usize> Default for RingBuf<T, CAP> {
    /// An empty ring buffer.
    fn default() -> (r: RingBuf<T, CAP>)
        ensures
            r@ == Seq::<T>::empty(),
    {
        RingBuf::new()
    }
}

/// Reduces `x` modulo `m` for `x` below twice `m`.
proof fn lemma_wrap(x: int, m: int)
    requires
        0 <= x < 2 * m,
    ensures
        x % m == if x < m {
            x
        } else {
            x - m
        },
{
    assert(x % m == if x < m {
        x
    } else {
        x - m
    }) by (nonlinear_arith)
        requires
            0 <= x < 2 * m,
    ;
}

/// An iterator over the elements of a [`RingBuf`], oldest first.
pub struct Iter<'a, T, const CAP: usize> {
    buf: &'a Vec<T>,
    len: usize,
    first: usize,
}

impl<'a, T, const CAP: usize> View for Iter<'a, T, CAP> {
    type V = Seq<T>;

    /// The elements not yet returned, in order.
    closed spec fn view(&self) -> Seq<T> {
        Seq::new(self.len as nat, |k: int| self.buf@[(self.first + k) % (CAP as int)])
    }
}

impl<'a, T, const CAP: usize> Iter<'a, T, CAP> {
    #[verifier::type_invariant]
    spec fn inv(self) -> bool {
        &&& self.buf@.len() <= CAP
        &&& self.len <= self.buf@.len()
        &&& self.first < CAP || (self.first == 0 && self.len == 0)
        &&& self.first + self.len <= self.buf@.len() || self.buf@.len() == CAP
    }

    /// Returns the oldest element not yet returned.
    pub fn next(&mut self) -> (r: Option<&'a T>)
        ensures
            r is Some <==> old(self)@.len() > 0,
            r matches Some(v) ==> *v == old(self)@[0] && final(self)@ == old(self)@.drop_first(),
            r is None ==> final(self)@ == old(self)@,
    {
        proof {
            use_type_invariant(&*self);
        }
        if self.len == 0 {
            None
        } else {
            let ghost old_view = self@;
            let ghost old_first = self.first as int;
            proof {
                lemma_wrap(old_first, CAP as int);
            }
            let v = &self.buf[self.first];
            self.len = self.len - 1;
            if self.first + 1 == CAP {
                self.first = 0;
            } else {
                self.first = self.first + 1;
            }
            assert forall|k: int| 0 <= k < self@.len() implies self@[k] == old_view.drop_first()[k] by {
                lemma_wrap(old_first + k, CAP as int);
                lemma_wrap(old_first + 1 + k, CAP as int);
                lemma_wrap(old_first + 1, CAP as int);
                lemma_wrap(k, CAP as int);
            }
            assert(self@ =~= old_view.drop_first());
            Some(v)
        }
    }

    /// The number of elements not yet returned.
    pub fn len(&self) -> (r: usize)
        ensures
            r == self@.len(),
    {
        self.len
    }
}

} // verus!
