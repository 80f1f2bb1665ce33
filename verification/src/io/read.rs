//! A read adapter layering "remaining frames" bookkeeping over a buffer.

use crate::buf::{Buf, Channels, ExactSizeBuf, ReadBuf};
use crate::channel::{lemma_tail_len, lemma_tail_tail, window_tail, Channel};
use crate::util::{min_usize, sat_sub_usize, umin, usat_sub};
use vstd::prelude::*;

verus! {

/// Make a buffer into a read adapter.
///
/// The adapter starts with every frame of the wrapped buffer unread and
/// behaves, once frames are consumed, as if the consumed frames had been
/// removed from the front: its frame count and channel views cover exactly
/// the unread remainder.
pub struct Read<B> {
    buf: B,
    available: usize,
}

impl<B> Read<B> {
    /// The wrapped buffer, as contracts see it.
    pub closed spec fn inner(&self) -> B {
        self.buf
    }

    /// The unread frame counter, as contracts see it.
    pub closed spec fn spec_available(&self) -> usize {
        self.available
    }
}

impl<B: ExactSizeBuf> Read<B> {
    /// Construct a new read adapter: all of `buf`'s frames are unread.
    pub fn new(buf: B) -> (r: Read<B>)
        requires
            buf.inv(),
        ensures
            r.inner() == buf,
            r.spec_available() == buf.spec_frames(),
    {
        let available = buf.frames();
        Read { buf, available }
    }

    /// Access the underlying buffer.
    pub fn as_ref(&self) -> (r: &B)
        ensures
            *r == self.inner(),
    {
        &self.buf
    }

    /// Access the underlying buffer mutably.
    pub fn as_mut(&mut self) -> (r: &mut B)
        ensures
            *r == old(self).inner(),
            final(self).inner() == *final(r),
            final(self).spec_available() == old(self).spec_available(),
    {
        &mut self.buf
    }

    /// Convert into the underlying buffer.
    pub fn into_inner(self) -> (r: B)
        ensures
            r == self.inner(),
    {
        self.buf
    }

    /// Set the number of frames read, counted from the front of the wrapped
    /// buffer; the unread count becomes the rest, saturating at zero.
    pub fn set_read(&mut self, read: usize)
        requires
            old(self).inv(),
        ensures
            final(self).inner() == old(self).inner(),
            final(self).spec_available() == sat_sub_usize(old(self).inner().spec_frames(), read),
    {
        let total = self.buf.frames();
        self.available = usat_sub(total, read);
    }
}

impl<B: Buf> Buf for Read<B> {
    open spec fn inv(&self) -> bool {
        self.inner().inv()
    }

    open spec fn spec_channels(&self) -> usize {
        self.inner().spec_channels()
    }

    open spec fn spec_frames_hint(&self) -> Option<usize> {
        self.inner().spec_frames_hint()
    }

    fn channels(&self) -> usize {
        self.buf.channels()
    }

    fn frames_hint(&self) -> Option<usize> {
        self.buf.frames_hint()
    }
}

impl<B: ExactSizeBuf> ExactSizeBuf for Read<B> {
    /// The logical frame count: the frames still in front of the cursor.
    open spec fn spec_frames(&self) -> usize {
        min_usize(self.spec_available(), self.inner().spec_frames())
    }

    fn frames(&self) -> usize {
        umin(self.available, self.buf.frames())
    }
}

impl<T: Copy, B: Channels<T>> Channels<T> for Read<B> {
    open spec fn data(&self) -> Seq<Seq<T>> {
        Seq::new(
            self.inner().data().len(),
            |c: int|
                window_tail(
                    self.inner().data()[c],
                    self.inner().spec_frames() - self.spec_frames(),
                ),
        )
    }

    proof fn data_wf(&self) {
        self.inner().data_wf();
        assert forall|c: int| 0 <= c < self.data().len() implies (#[trigger] self.data()[c]).len()
            == self.spec_frames() by {
            lemma_tail_len(
                self.inner().data()[c],
                self.inner().spec_frames() - self.spec_frames(),
            );
        }
    }

    fn channel(&self, channel: usize) -> (r: Channel<'_, T>) {
        proof {
            self.buf.data_wf();
        }
        let total = self.buf.frames();
        let rem = umin(self.available, total);
        let r = self.buf.channel(channel).tail(total - rem);
        proof {
            assert(r@ == self.data()[channel as int]);
        }
        r
    }
}

impl<T: Copy, B: Channels<T>> ReadBuf<T> for Read<B> {
    open spec fn rdata(&self) -> Seq<Seq<T>> {
        self.inner().data()
    }

    open spec fn spec_consumed(&self) -> usize {
        sat_sub_usize(self.inner().spec_frames(), self.spec_remaining())
    }

    open spec fn spec_remaining(&self) -> usize {
        min_usize(self.spec_available(), self.inner().spec_frames())
    }

    proof fn read_wf(&self) {
        self.inner().data_wf();
    }

    fn remaining(&self) -> usize {
        umin(self.available, self.buf.frames())
    }

    fn advance(&mut self, n: usize) {
        let total = self.buf.frames();
        let rem = umin(self.available, total);
        self.available = usat_sub(rem, n);
        proof {
            let full = old(self).inner().data();
            let before = old(self).inner().spec_frames() - old(self).spec_frames();
            let after = self.inner().spec_frames() - self.spec_frames();
            assert forall|c: int| 0 <= c < full.len() implies #[trigger] self.data()[c]
                == window_tail(old(self).data()[c], n as int) by {
                lemma_tail_tail(full[c], before, n as int);
                if after != before + n {
                    old(self).inner().data_wf();
                    assert(window_tail(full[c], after) == window_tail(full[c], before + n));
                }
            }
        }
    }
}

/// Consumption tracking: a fresh read adapter — one whose unread counter
/// equals its buffer's frame count, as `Read::new` creates it — reports every
/// frame remaining. `ReadBuf::advance` then guarantees that advancing by any
/// `k`, over-large ones included, leaves `remaining().saturating_sub(k)`.
pub proof fn lemma_fresh_read_remaining<T: Copy, B: Channels<T>>(r: Read<B>)
    requires
        r.inv(),
        r.spec_available() == r.inner().spec_frames(),
    ensures
        r.spec_remaining() == r.inner().spec_frames(),
{
}

} // verus!
