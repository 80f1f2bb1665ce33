//! Stateless windowing wrappers narrowing the visible frame range.
//!
//! `skip(n)` hides a buffer's first `n` frames, `limit(n)` keeps at most its
//! first `n`. Both clamp instead of failing, compose freely, and copy no
//! sample data: the per-channel views handed out already reflect the window.

use crate::buf::{Buf, Channels, ExactSizeBuf};
use crate::channel::{window_limit, window_tail, Channel};
use crate::util::{min_usize, sat_sub_usize, umin, usat_sub};
use vstd::prelude::*;

verus! {

/// A window over `buf` that hides its first `amount` frames.
pub struct Skip<B> {
    buf: B,
    amount: usize,
}

/// Hide the first `amount` frames of `buf`; if `amount` exceeds the frame
/// count the window is empty.
pub fn skip<B>(buf: B, amount: usize) -> (r: Skip<B>)
    ensures
        r.inner() == buf,
        r.amount() == amount,
{
    Skip { buf, amount }
}

impl<B> Skip<B> {
    /// The wrapped buffer, as contracts see it.
    pub closed spec fn inner(&self) -> B {
        self.buf
    }

    /// How many leading frames the window hides, as contracts see it.
    pub closed spec fn amount(&self) -> usize {
        self.amount
    }
}

impl<B: Buf> Buf for Skip<B> {
    open spec fn inv(&self) -> bool {
        self.inner().inv()
    }

    open spec fn spec_channels(&self) -> usize {
        self.inner().spec_channels()
    }

    open spec fn spec_frames_hint(&self) -> Option<usize> {
        match self.inner().spec_frames_hint() {
            Some(h) => Some(sat_sub_usize(h, self.amount())),
            None => None,
        }
    }

    fn channels(&self) -> usize {
        self.buf.channels()
    }

    fn frames_hint(&self) -> Option<usize> {
        match self.buf.frames_hint() {
            Some(h) => Some(usat_sub(h, self.amount)),
            None => None,
        }
    }
}

impl<B: ExactSizeBuf> ExactSizeBuf for Skip<B> {
    open spec fn spec_frames(&self) -> usize {
        sat_sub_usize(self.inner().spec_frames(), self.amount())
    }

    fn frames(&self) -> usize {
        usat_sub(self.buf.frames(), self.amount)
    }
}

impl<T: Copy, B: Channels<T>> Channels<T> for Skip<B> {
    open spec fn data(&self) -> Seq<Seq<T>> {
        Seq::new(
            self.inner().data().len(),
            |c: int| window_tail(self.inner().data()[c], self.amount() as int),
        )
    }

    proof fn data_wf(&self) {
        self.inner().data_wf();
    }

    fn channel(&self, channel: usize) -> (r: Channel<'_, T>) {
        proof {
            self.buf.data_wf();
        }
        let r = self.buf.channel(channel).tail(self.amount);
        proof {
            assert(r@ == self.data()[channel as int]);
        }
        r
    }
}

/// A window over `buf` that keeps at most its first `amount` frames.
pub struct Limit<B> {
    buf: B,
    amount: usize,
}

/// Keep at most the first `amount` frames of `buf`.
pub fn limit<B>(buf: B, amount: usize) -> (r: Limit<B>)
    ensures
        r.inner() == buf,
        r.amount() == amount,
{
    Limit { buf, amount }
}

impl<B> Limit<B> {
    /// The wrapped buffer, as contracts see it.
    pub closed spec fn inner(&self) -> B {
        self.buf
    }

    /// How many leading frames the window keeps at most, as contracts see it.
    pub closed spec fn amount(&self) -> usize {
        self.amount
    }
}

impl<B: Buf> Buf for Limit<B> {
    open spec fn inv(&self) -> bool {
        self.inner().inv()
    }

    open spec fn spec_channels(&self) -> usize {
        self.inner().spec_channels()
    }

    open spec fn spec_frames_hint(&self) -> Option<usize> {
        match self.inner().spec_frames_hint() {
            Some(h) => Some(min_usize(h, self.amount())),
            None => None,
        }
    }

    fn channels(&self) -> usize {
        self.buf.channels()
    }

    fn frames_hint(&self) -> Option<usize> {
        match self.buf.frames_hint() {
            Some(h) => Some(umin(h, self.amount)),
            None => None,
        }
    }
}

impl<B: ExactSizeBuf> ExactSizeBuf for Limit<B> {
    open spec fn spec_frames(&self) -> usize {
        min_usize(self.inner().spec_frames(), self.amount())
    }

    fn frames(&self) -> usize {
        umin(self.buf.frames(), self.amount)
    }
}

impl<T: Copy, B: Channels<T>> Channels<T> for Limit<B> {
    open spec fn data(&self) -> Seq<Seq<T>> {
        Seq::new(
            self.inner().data().len(),
            |c: int| window_limit(self.inner().data()[c], self.amount() as int),
        )
    }

    proof fn data_wf(&self) {
        self.inner().data_wf();
    }

    fn channel(&self, channel: usize) -> (r: Channel<'_, T>) {
        proof {
            self.buf.data_wf();
        }
        let r = self.buf.channel(channel).limit(self.amount);
        proof {
            assert(r@ == self.data()[channel as int]);
        }
        r
    }
}

} // verus!
