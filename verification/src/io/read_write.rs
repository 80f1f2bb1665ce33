//! A combined adapter: one buffer drained and filled in the same pass.

use crate::buf::{Buf, Channels, ChannelsMut, ExactSizeBuf, ReadBuf, WriteBuf};
use crate::channel::{lemma_tail_len, lemma_tail_tail, window_limit, window_tail, Channel};
use crate::util::{sat_sub_usize, umin, usat_sub};
use vstd::prelude::*;

verus! {

/// Make a buffer into an adapter that composes a read tracker and a write
/// tracker over the same storage.
///
/// Frames written through the write side become readable through the read
/// side: the readable window is what has been written but not yet read, and
/// the free capacity is what has not been written.
pub struct ReadWrite<B> {
    buf: B,
    read: usize,
    written: usize,
}

impl<B> ReadWrite<B> {
    /// The wrapped buffer, as contracts see it.
    pub closed spec fn inner(&self) -> B {
        self.buf
    }

    /// The frames read so far, as contracts see it.
    pub closed spec fn spec_read_count(&self) -> usize {
        self.read
    }

    /// The frames written so far, as contracts see it.
    pub closed spec fn spec_written_count(&self) -> usize {
        self.written
    }
}

impl<B: ExactSizeBuf> ReadWrite<B> {
    /// Construct a new read/write adapter with nothing written and nothing
    /// read.
    pub fn new(buf: B) -> (r: ReadWrite<B>)
        requires
            buf.inv(),
        ensures
            r.inner() == buf,
            r.spec_read_count() == 0,
            r.spec_written_count() == 0,
            r.inv(),
    {
        ReadWrite { buf, read: 0, written: 0 }
    }

    /// Access the underlying buffer.
    pub fn as_ref(&self) -> (r: &B)
        ensures
            *r == self.inner(),
    {
        &self.buf
    }

    /// Convert into the underlying buffer.
    pub fn into_inner(self) -> (r: B)
        ensures
            r == self.inner(),
    {
        self.buf
    }
}

impl<B: ExactSizeBuf> Buf for ReadWrite<B> {
    open spec fn inv(&self) -> bool {
        self.inner().inv() && self.spec_read_count() <= self.spec_written_count()
            && self.spec_written_count() <= self.inner().spec_frames()
    }

    open spec fn spec_channels(&self) -> usize {
        self.inner().spec_channels()
    }

    open spec fn spec_frames_hint(&self) -> Option<usize> {
        self.inner().spec_frames_hint()
    }

    fn channels(&self) -> usize {
        self.buf.channels()
    }

    fn frames_hint(&self) -> Option<usize> {
        self.buf.frames_hint()
    }
}

impl<B: ExactSizeBuf> ExactSizeBuf for ReadWrite<B> {
    /// The logical frame count: written but not yet read.
    open spec fn spec_frames(&self) -> usize {
        sat_sub_usize(self.spec_written_count(), self.spec_read_count())
    }

    fn frames(&self) -> usize {
        usat_sub(self.written, self.read)
    }
}

impl<T: Copy, B: Channels<T>> Channels<T> for ReadWrite<B> {
    open spec fn data(&self) -> Seq<Seq<T>> {
        Seq::new(
            self.inner().data().len(),
            |c: int|
                window_tail(
                    window_limit(self.inner().data()[c], self.spec_written_count() as int),
                    self.spec_read_count() as int,
                ),
        )
    }

    proof fn data_wf(&self) {
        self.inner().data_wf();
        assert forall|c: int| 0 <= c < self.data().len() implies (#[trigger] self.data()[c]).len()
            == self.spec_frames() by {
            lemma_tail_len(
                window_limit(self.inner().data()[c], self.spec_written_count() as int),
                self.spec_read_count() as int,
            );
        }
    }

    fn channel(&self, channel: usize) -> (r: Channel<'_, T>) {
        proof {
            self.buf.data_wf();
        }
        let r = self.buf.channel(channel).limit(self.written).tail(self.read);
        proof {
            assert(r@ == self.data()[channel as int]);
        }
        r
    }
}

impl<T: Copy, B: Channels<T>> ReadBuf<T> for ReadWrite<B> {
    open spec fn rdata(&self) -> Seq<Seq<T>> {
        Seq::new(
            self.inner().data().len(),
            |c: int| window_limit(self.inner().data()[c], self.spec_written_count() as int),
        )
    }

    open spec fn spec_consumed(&self) -> usize {
        self.spec_read_count()
    }

    open spec fn spec_remaining(&self) -> usize {
        sat_sub_usize(self.spec_written_count(), self.spec_read_count())
    }

    proof fn read_wf(&self) {
        self.inner().data_wf();
        assert forall|c: int| 0 <= c < self.rdata().len() implies (#[trigger] self.rdata()[c]).len()
            == self.spec_consumed() + self.spec_remaining() by {
        }
    }

    fn remaining(&self) -> usize {
        usat_sub(self.written, self.read)
    }

    fn advance(&mut self, n: usize) {
        let rem = usat_sub(self.written, self.read);
        let step = umin(n, rem);
        self.read = self.read + step;
        proof {
            assert(self.rdata() =~= old(self).rdata());
            let full = old(self).inner().data();
            assert forall|c: int| 0 <= c < full.len() implies #[trigger] self.data()[c]
                == window_tail(old(self).data()[c], n as int) by {
                let row = window_limit(full[c], old(self).spec_written_count() as int);
                lemma_tail_tail(row, old(self).spec_read_count() as int, n as int);
                if old(self).spec_read_count() + n != self.spec_read_count() {
                    old(self).inner().data_wf();
                    assert(window_tail(row, old(self).spec_read_count() + n) == window_tail(
                        row,
                        self.spec_read_count() as int,
                    ));
                }
            }
        }
    }
}

impl<T: Copy, B: ChannelsMut<T>> WriteBuf<T> for ReadWrite<B> {
    open spec fn wdata(&self) -> Seq<Seq<T>> {
        self.inner().data()
    }

    open spec fn spec_written(&self) -> usize {
        self.spec_written_count()
    }

    open spec fn spec_remaining_mut(&self) -> usize {
        sat_sub_usize(self.inner().spec_frames(), self.spec_written_count())
    }

    proof fn wdata_wf(&self) {
        self.inner().data_wf();
    }

    fn remaining_mut(&self) -> usize {
        usat_sub(self.buf.frames(), self.written)
    }

    fn put(&mut self, channel: usize, offset: usize, value: T) {
        self.buf.set(channel, self.written + offset, value);
    }

    fn advance_mut(&mut self, n: usize) {
        let total = self.buf.frames();
        let cap = usat_sub(total, self.written);
        let step = umin(n, cap);
        self.written = self.written + step;
    }
}

} // verus!
