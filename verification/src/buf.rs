//! Capability traits describing what a buffer type exposes.
//!
//! A buffer type implements exactly the capabilities it can honour: a
//! channel count and frame-count hint ([`Buf`]), an exact frame count
//! ([`ExactSizeBuf`]), per-channel read access ([`Channels`]) and per-channel
//! write access ([`ChannelsMut`]). Consumers are generic over the capability
//! set they require; a type lacking a capability cannot be used where that
//! capability is demanded.

use crate::channel::{window_tail, Channel};
use crate::util::sat_sub_usize;
use vstd::prelude::*;

verus! {

/// The base capability: a channel count and a best-effort frame-count hint.
pub trait Buf {
    /// Structural well-formedness of the buffer. Every other capability is
    /// only promised on well-formed values.
    spec fn inv(&self) -> bool;

    /// The channel count, as contracts see it.
    spec fn spec_channels(&self) -> usize;

    /// The frame-count hint, as contracts see it.
    spec fn spec_frames_hint(&self) -> Option<usize>;

    /// The number of channels of the buffer.
    fn channels(&self) -> (r: usize)
        requires
            self.inv(),
        ensures
            r == self.spec_channels(),
    ;

    /// A best-effort hint of how many frames the buffer holds; `None` for
    /// sources of unknown length.
    fn frames_hint(&self) -> (r: Option<usize>)
        requires
            self.inv(),
        ensures
            r == self.spec_frames_hint(),
    ;
}

/// The exact-frame-count capability: the buffer knows precisely how many
/// frames it holds, and every channel view it hands out has that length.
pub trait ExactSizeBuf: Buf {
    /// The exact frame count, as contracts see it.
    spec fn spec_frames(&self) -> usize;

    /// The exact number of frames of the buffer.
    fn frames(&self) -> (r: usize)
        requires
            self.inv(),
        ensures
            r == self.spec_frames(),
    ;
}

/// The per-channel read capability: the buffer's samples as a channel-major
/// logical grid, one row per channel.
pub trait Channels<T: Copy>: ExactSizeBuf {
    /// The logical content: one sequence of samples per channel.
    spec fn data(&self) -> Seq<Seq<T>>;

    /// The content has one row per channel and `spec_frames()` samples per row.
    proof fn data_wf(&self)
        requires
            self.inv(),
        ensures
            self.data().len() == self.spec_channels(),
            forall|c: int|
                0 <= c < self.data().len() ==> (#[trigger] self.data()[c]).len()
                    == self.spec_frames(),
    ;

    /// The view of channel `channel`; requesting a channel outside
    /// `0..channels()` is a contract violation.
    fn channel(&self, channel: usize) -> (r: Channel<'_, T>)
        requires
            self.inv(),
            channel < self.spec_channels(),
        ensures
            r.wf(),
            r@ == self.data()[channel as int],
    ;
}

/// The per-channel write capability: samples can be overwritten in place,
/// one at a time, without disturbing the buffer's shape.
pub trait ChannelsMut<T: Copy>: Channels<T> {
    /// Overwrite the sample of frame `frame` of channel `channel`.
    fn set(&mut self, channel: usize, frame: usize, value: T)
        requires
            old(self).inv(),
            channel < old(self).spec_channels(),
            frame < old(self).spec_frames(),
        ensures
            final(self).inv(),
            final(self).spec_channels() == old(self).spec_channels(),
            final(self).spec_frames() == old(self).spec_frames(),
            final(self).spec_frames_hint() == old(self).spec_frames_hint(),
            final(self).data() == old(self).data().update(
                channel as int,
                old(self).data()[channel as int].update(frame as int, value),
            ),
    ;
}

/// The streaming-read capability: bookkeeping of how many frames remain
/// unread. The adapter behaves as if consumed frames had been removed from
/// the front, so the content seen through [`Channels`] is exactly the unread
/// remainder.
pub trait ReadBuf<T: Copy>: Channels<T> {
    /// The full readable content, consumed frames included, one row per
    /// channel.
    spec fn rdata(&self) -> Seq<Seq<T>>;

    /// Frames consumed so far, counted from the front.
    spec fn spec_consumed(&self) -> usize;

    /// The remaining unread frame count, as contracts see it.
    spec fn spec_remaining(&self) -> usize;

    /// Reading splits the full content, without altering it: each row is the
    /// consumed prefix followed by the unread remainder, and what the buffer
    /// still shows is exactly that remainder.
    proof fn read_wf(&self)
        requires
            self.inv(),
        ensures
            self.spec_remaining() == self.spec_frames(),
            self.rdata().len() == self.spec_channels(),
            forall|c: int|
                0 <= c < self.rdata().len() ==> (#[trigger] self.rdata()[c]).len()
                    == self.spec_consumed() + self.spec_remaining(),
            forall|c: int|
                0 <= c < self.rdata().len() ==> self.data()[c] == window_tail(
                    #[trigger] self.rdata()[c],
                    self.spec_consumed() as int,
                ),
    ;

    /// The number of frames that remain to be read.
    fn remaining(&self) -> (r: usize)
        requires
            self.inv(),
        ensures
            r == self.spec_remaining(),
    ;

    /// Consume `n` frames from the front. Over-advancing saturates at zero:
    /// it is defined to clamp, never to fail.
    fn advance(&mut self, n: usize)
        requires
            old(self).inv(),
        ensures
            final(self).inv(),
            final(self).spec_remaining() == sat_sub_usize(old(self).spec_remaining(), n),
            final(self).spec_channels() == old(self).spec_channels(),
            final(self).rdata() == old(self).rdata(),
            final(self).spec_consumed() == old(self).spec_consumed() + (
            old(self).spec_remaining() - final(self).spec_remaining()),
            final(self).data().len() == old(self).data().len(),
            forall|c: int|
                0 <= c < old(self).data().len() ==> #[trigger] final(self).data()[c]
                    == window_tail(old(self).data()[c], n as int),
    ;
}

/// The streaming-write capability: the buffer's full content together with a
/// write cursor splitting every channel into frames already written and
/// remaining capacity.
pub trait WriteBuf<T: Copy>: Buf {
    /// The full underlying content, one row per channel.
    spec fn wdata(&self) -> Seq<Seq<T>>;

    /// Frames already written, counted from the front.
    spec fn spec_written(&self) -> usize;

    /// The remaining write capacity in frames.
    spec fn spec_remaining_mut(&self) -> usize;

    /// Each channel row is the written prefix followed by the remaining
    /// capacity.
    proof fn wdata_wf(&self)
        requires
            self.inv(),
        ensures
            self.wdata().len() == self.spec_channels(),
            forall|c: int|
                0 <= c < self.wdata().len() ==> (#[trigger] self.wdata()[c]).len()
                    == self.spec_written() + self.spec_remaining_mut(),
    ;

    /// The number of frames that can still be written.
    fn remaining_mut(&self) -> (r: usize)
        requires
            self.inv(),
        ensures
            r == self.spec_remaining_mut(),
    ;

    /// Overwrite the sample `offset` frames past the write cursor in channel
    /// `channel`, without moving the cursor.
    fn put(&mut self, channel: usize, offset: usize, value: T)
        requires
            old(self).inv(),
            channel < old(self).spec_channels(),
            offset < old(self).spec_remaining_mut(),
        ensures
            final(self).inv(),
            final(self).spec_channels() == old(self).spec_channels(),
            final(self).spec_written() == old(self).spec_written(),
            final(self).spec_remaining_mut() == old(self).spec_remaining_mut(),
            final(self).wdata() == old(self).wdata().update(
                channel as int,
                old(self).wdata()[channel as int].update(
                    old(self).spec_written() + offset as int,
                    value,
                ),
            ),
    ;

    /// Move the write cursor forward by `n` frames, saturating at the end of
    /// the capacity; the stored samples do not change.
    fn advance_mut(&mut self, n: usize)
        requires
            old(self).inv(),
        ensures
            final(self).inv(),
            final(self).spec_channels() == old(self).spec_channels(),
            final(self).spec_remaining_mut() == sat_sub_usize(old(self).spec_remaining_mut(), n),
            final(self).spec_written() == old(self).spec_written() + (
            old(self).spec_remaining_mut() - final(self).spec_remaining_mut()),
            final(self).wdata() == old(self).wdata(),
    ;
}

} // verus!
