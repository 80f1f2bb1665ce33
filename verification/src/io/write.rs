//! A write adapter tracking the remaining write capacity of a buffer.

use crate::buf::{Buf, ChannelsMut, ExactSizeBuf, WriteBuf};
use crate::util::{sat_sub_usize, usat_sub};
use vstd::prelude::*;

verus! {

/// Make a buffer into a write adapter.
///
/// The adapter starts with the whole buffer as free capacity; every frame
/// written moves the cursor forward, so later writes land after earlier ones.
pub struct Write<B> {
    buf: B,
    available: usize,
}

impl<B> Write<B> {
    /// The wrapped buffer, as contracts see it.
    pub closed spec fn inner(&self) -> B {
        self.buf
    }

    /// The free-capacity counter, as contracts see it.
    pub closed spec fn spec_available(&self) -> usize {
        self.available
    }
}

impl<B: ExactSizeBuf> Write<B> {
    /// Construct a new write adapter: all of `buf`'s frames are free capacity.
    pub fn new(buf: B) -> (r: Write<B>)
        requires
            buf.inv(),
        ensures
            r.inner() == buf,
            r.spec_available() == buf.spec_frames(),
            r.inv(),
    {
        let available = buf.frames();
        Write { buf, available }
    }

    /// Access the underlying buffer.
    pub fn as_ref(&self) -> (r: &B)
        ensures
            *r == self.inner(),
    {
        &self.buf
    }

    /// Convert into the underlying buffer.
    pub fn into_inner(self) -> (r: B)
        ensures
            r == self.inner(),
    {
        self.buf
    }

    /// Set the number of frames written, counted from the front of the
    /// wrapped buffer; the free capacity becomes the rest, saturating at zero.
    pub fn set_written(&mut self, written: usize)
        requires
            old(self).inv(),
        ensures
            final(self).inner() == old(self).inner(),
            final(self).spec_available() == sat_sub_usize(
                old(self).inner().spec_frames(),
                written,
            ),
            final(self).inv(),
    {
        let total = self.buf.frames();
        self.available = usat_sub(total, written);
    }
}

impl<B: ExactSizeBuf> Buf for Write<B> {
    open spec fn inv(&self) -> bool {
        self.inner().inv() && self.spec_available() <= self.inner().spec_frames()
    }

    open spec fn spec_channels(&self) -> usize {
        self.inner().spec_channels()
    }

    open spec fn spec_frames_hint(&self) -> Option<usize> {
        self.inner().spec_frames_hint()
    }

    fn channels(&self) -> usize {
        self.buf.channels()
    }

    fn frames_hint(&self) -> Option<usize> {
        self.buf.frames_hint()
    }
}

impl<T: Copy, B: ChannelsMut<T>> WriteBuf<T> for Write<B> {
    open spec fn wdata(&self) -> Seq<Seq<T>> {
        self.inner().data()
    }

    open spec fn spec_written(&self) -> usize {
        sat_sub_usize(self.inner().spec_frames(), self.spec_available())
    }

    open spec fn spec_remaining_mut(&self) -> usize {
        self.spec_available()
    }

    proof fn wdata_wf(&self) {
        self.inner().data_wf();
    }

    fn remaining_mut(&self) -> usize {
        self.available
    }

    fn put(&mut self, channel: usize, offset: usize, value: T) {
        let total = self.buf.frames();
        let written = total - self.available;
        self.buf.set(channel, written + offset, value);
    }

    fn advance_mut(&mut self, n: usize) {
        self.available = usat_sub(self.available, n);
    }
}

} // verus!
