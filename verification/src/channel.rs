//! A borrowed, read-only view over one channel's samples inside a buffer.

use crate::util::{lemma_mul_distrib, lemma_mul_le_mono};
use vstd::prelude::*;

verus! {

/// What remains of a sequence of samples after dropping `n` frames from the
/// front: elements `[min(n, len), len)`. Never negative in length.
pub open spec fn window_tail<T>(s: Seq<T>, n: int) -> Seq<T> {
    if n < s.len() {
        s.skip(n)
    } else {
        Seq::empty()
    }
}

/// What remains of a sequence of samples after keeping at most the first `n`
/// frames: elements `[0, min(n, len))`.
pub open spec fn window_limit<T>(s: Seq<T>, n: int) -> Seq<T> {
    if n < s.len() {
        s.take(n)
    } else {
        s
    }
}

/// A read-only view over one channel's samples.
///
/// The view walks `len` frames starting at index `base` of the backing
/// storage, moving `stride` positions per frame. A planar channel has stride
/// one; an interleaved channel's stride is the buffer's channel count.
pub struct Channel<'a, T> {
    buf: &'a Vec<T>,
    base: usize,
    stride: usize,
    len: usize,
}

impl<'a, T> View for Channel<'a, T> {
    type V = Seq<T>;

    closed spec fn view(&self) -> Seq<T> {
        Seq::new(self.len as nat, |i: int| self.buf@[self.base + i * self.stride])
    }
}

impl<'a, T> Channel<'a, T> {
    /// Every visible frame lies inside the backing storage.
    pub closed spec fn wf(&self) -> bool {
        self.len > 0 ==> self.stride >= 1 && self.base + (self.len - 1) * self.stride
            < self.buf@.len()
    }

    /// A view over `len` frames of `buf`, one every `stride` elements
    /// starting at `base`.
    pub(crate) fn from_parts(buf: &'a Vec<T>, base: usize, stride: usize, len: usize) -> (r:
        Channel<'a, T>)
        requires
            len > 0 ==> stride >= 1 && base + (len - 1) * stride < buf@.len(),
        ensures
            r.wf(),
            r@ == Seq::new(len as nat, |i: int| buf@[base + i * stride]),
    {
        Channel { buf, base, stride, len }
    }

    /// The number of frames visible through this view.
    pub fn len(&self) -> (r: usize)
        ensures
            r == self@.len(),
    {
        self.len
    }

    /// Drop the first `n` frames of the view; if `n` exceeds the length the
    /// result is empty. No sample data moves.
    pub fn tail(self, n: usize) -> (r: Channel<'a, T>)
        requires
            self.wf(),
        ensures
            r.wf(),
            r@ == window_tail(self@, n as int),
    {
        if n >= self.len {
            let r = Channel { buf: self.buf, base: self.base, stride: self.stride, len: 0 };
            proof {
                assert(r@ =~= window_tail(self@, n as int));
            }
            r
        } else {
            let blen = self.buf.len();
            proof {
                lemma_mul_le_mono(n as int, (self.len - 1) as int, self.stride as int);
                lemma_mul_distrib((self.len - n - 1) as int, n as int, self.stride as int);
            }
            let r = Channel {
                buf: self.buf,
                base: self.base + n * self.stride,
                stride: self.stride,
                len: self.len - n,
            };
            proof {
                assert forall|i: int| 0 <= i < r@.len() implies r@[i] == self@.skip(n as int)[i] by {
                    lemma_mul_distrib(i, n as int, self.stride as int);
                }
                assert(r@ =~= window_tail(self@, n as int));
            }
            r
        }
    }

    /// Keep at most the first `n` frames of the view. No sample data moves.
    pub fn limit(self, n: usize) -> (r: Channel<'a, T>)
        requires
            self.wf(),
        ensures
            r.wf(),
            r@ == window_limit(self@, n as int),
    {
        if n >= self.len {
            self
        } else {
            proof {
                if n > 0 {
                    lemma_mul_le_mono((n - 1) as int, (self.len - 1) as int, self.stride as int);
                }
            }
            let r = Channel { buf: self.buf, base: self.base, stride: self.stride, len: n };
            proof {
                assert(r@ =~= window_limit(self@, n as int));
            }
            r
        }
    }
}

impl<'a, T: Copy> Channel<'a, T> {
    /// The sample of frame `i` of this view.
    pub fn get(&self, i: usize) -> (r: T)
        requires
            self.wf(),
            i < self@.len(),
        ensures
            r == self@[i as int],
    {
        let blen = self.buf.len();
        proof {
            lemma_mul_le_mono(i as int, (self.len - 1) as int, self.stride as int);
        }
        let idx = self.base + i * self.stride;
        self.buf[idx]
    }
}

/// Windowing law: dropping zero frames from the front is the identity.
pub proof fn lemma_tail_zero<T>(s: Seq<T>)
    ensures
        window_tail(s, 0) == s,
{
    if 0 < s.len() {
        assert(s.skip(0) =~= s);
    } else {
        assert(window_tail(s, 0) =~= s);
    }
}

/// Windowing law: of a view of length `L`, `tail(n)` leaves `max(0, L - n)`
/// frames; in particular `tail(L)` leaves an empty view.
pub proof fn lemma_tail_len<T>(s: Seq<T>, n: int)
    requires
        0 <= n,
    ensures
        window_tail(s, n).len() == if n <= s.len() {
            s.len() - n
        } else {
            0
        },
{
}

/// Windowing law: dropping the front twice composes additively — `tail(n1)`
/// followed by `tail(n2)` sees exactly what `tail(n1 + n2)` sees.
pub proof fn lemma_tail_tail<T>(s: Seq<T>, n1: int, n2: int)
    requires
        0 <= n1,
        0 <= n2,
    ensures
        window_tail(window_tail(s, n1), n2) == window_tail(s, n1 + n2),
{
    if n1 < s.len() {
        let t1 = s.skip(n1);
        if n2 < t1.len() {
            assert(t1.skip(n2) =~= s.skip(n1 + n2));
        } else {
            assert(window_tail(t1, n2) =~= window_tail(s, n1 + n2));
        }
    } else {
        assert(window_tail(window_tail(s, n1), n2) =~= window_tail(s, n1 + n2));
    }
}

} // verus!
