//! Concrete multi-channel storage in planar layout.

use crate::buf::{Buf, Channels, ChannelsMut, ExactSizeBuf};
use crate::channel::Channel;
use crate::util::{lemma_grid_index_bound, lemma_grid_index_injective};
use vstd::prelude::*;

verus! {

/// The channel-major logical grid of a planar sample sequence: row `c`
/// holds, for every frame `f`, the sample stored at `c * frames + f`.
pub open spec fn planar_grid<T>(samples: Seq<T>, channels: usize, frames: usize) -> Seq<Seq<T>> {
    Seq::new(
        channels as nat,
        |c: int| Seq::new(frames as nat, |f: int| samples[c * (frames as int) + f]),
    )
}

/// Multi-channel storage in planar layout: all frames of one channel are
/// contiguous, so channel `c` occupies indices `c * frames` up to but not
/// including `(c + 1) * frames`.
#[derive(Clone)]
pub struct Sequential<T> {
    data: Vec<T>,
    channels: usize,
    frames: usize,
}

impl<T> Sequential<T> {
    /// The raw planar sample sequence, as contracts see it.
    pub closed spec fn spec_samples(&self) -> Seq<T> {
        self.data@
    }

    /// The stored channel count, as contracts see it.
    pub closed spec fn spec_channel_count(&self) -> usize {
        self.channels
    }

    /// The stored frame count, as contracts see it.
    pub closed spec fn spec_frame_count(&self) -> usize {
        self.frames
    }

    /// Wrap a planar sample vector as a `channels x frames` buffer.
    pub fn from_vec(data: Vec<T>, channels: usize, frames: usize) -> (r: Sequential<T>)
        requires
            data@.len() == channels * frames,
        ensures
            r.inv(),
            r.spec_channel_count() == channels,
            r.spec_frame_count() == frames,
            r.spec_samples() == data@,
    {
        Sequential { data, channels, frames }
    }
}

impl<T: Copy> Sequential<T> {
    /// A `channels x frames` buffer with every sample set to `value`.
    pub fn filled(channels: usize, frames: usize, value: T) -> (r: Sequential<T>)
        requires
            channels * frames <= usize::MAX,
        ensures
            r.inv(),
            r.spec_channel_count() == channels,
            r.spec_frame_count() == frames,
            forall|i: int| 0 <= i < r.spec_samples().len() ==> r.spec_samples()[i] == value,
    {
        proof {
            if frames > 0 && channels > 0 {
                lemma_grid_index_bound((channels - 1) as int, (frames - 1) as int, channels as int,
                    frames as int);
            } else {
                assert(channels * frames == 0) by (nonlinear_arith)
                    requires frames == 0 || channels == 0;
            }
        }
        let total: usize = channels * frames;
        let mut data: Vec<T> = Vec::new();
        let mut i: usize = 0;
        while i < total
            invariant
                i <= total,
                data@.len() == i,
                forall|j: int| 0 <= j < i ==> data@[j] == value,
            decreases total - i,
        {
            data.push(value);
            i = i + 1;
        }
        Sequential { data, channels, frames }
    }

    /// The sample of frame `frame` of channel `channel`.
    pub fn get(&self, channel: usize, frame: usize) -> (r: T)
        requires
            self.inv(),
            channel < self.spec_channel_count(),
            frame < self.spec_frame_count(),
        ensures
            r == self.data()[channel as int][frame as int],
    {
        let n = self.data.len();
        proof {
            lemma_grid_index_bound(channel as int, frame as int, self.channels as int,
                self.frames as int);
        }
        let idx = channel * self.frames + frame;
        self.data[idx]
    }
}

impl<T> Buf for Sequential<T> {
    open spec fn inv(&self) -> bool {
        self.spec_samples().len() == self.spec_channel_count() * self.spec_frame_count()
    }

    open spec fn spec_channels(&self) -> usize {
        self.spec_channel_count()
    }

    open spec fn spec_frames_hint(&self) -> Option<usize> {
        Some(self.spec_frame_count())
    }

    fn channels(&self) -> usize {
        self.channels
    }

    fn frames_hint(&self) -> Option<usize> {
        Some(self.frames)
    }
}

impl<T> ExactSizeBuf for Sequential<T> {
    open spec fn spec_frames(&self) -> usize {
        self.spec_frame_count()
    }

    fn frames(&self) -> usize {
        self.frames
    }
}

impl<T: Copy> Channels<T> for Sequential<T> {
    open spec fn data(&self) -> Seq<Seq<T>> {
        planar_grid(self.spec_samples(), self.spec_channel_count(), self.spec_frame_count())
    }

    proof fn data_wf(&self) {
    }

    fn channel(&self, channel: usize) -> (r: Channel<'_, T>) {
        let n = self.data.len();
        proof {
            if self.frames > 0 {
                lemma_grid_index_bound(channel as int, (self.frames - 1) as int,
                    self.channels as int, self.frames as int);
            }
        }
        let base = if self.frames > 0 {
            channel * self.frames
        } else {
            0
        };
        let r = Channel::from_parts(&self.data, base, 1, self.frames);
        proof {
            assert(r@ =~= self.data()[channel as int]);
        }
        r
    }
}

impl<T: Copy> ChannelsMut<T> for Sequential<T> {
    fn set(&mut self, channel: usize, frame: usize, value: T) {
        let n = self.data.len();
        proof {
            lemma_grid_index_bound(channel as int, frame as int, self.channels as int,
                self.frames as int);
        }
        let idx = channel * self.frames + frame;
        self.data[idx] = value;
        proof {
            let expect = old(self).data().update(
                channel as int,
                old(self).data()[channel as int].update(frame as int, value),
            );
            assert forall|c: int, f: int|
                0 <= c < self.data().len() && 0 <= f < self.data()[c].len() implies self.data()[c][f]
                == expect[c][f] by {
                lemma_grid_index_bound(c, f, self.channels as int, self.frames as int);
                if c * (self.frames as int) + f == idx {
                    lemma_grid_index_injective(c, f, channel as int, frame as int,
                        self.frames as int);
                }
            }
            assert forall|c: int| 0 <= c < self.data().len() implies self.data()[c] =~= expect[c] by {
            }
            assert(self.data() =~= expect);
        }
    }
}

} // verus!
