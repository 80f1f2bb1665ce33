//! Concrete multi-channel storage in interleaved layout.

use crate::buf::{Buf, Channels, ChannelsMut, ExactSizeBuf};
use crate::channel::Channel;
use crate::util::{lemma_grid_index_bound, lemma_grid_index_injective, lemma_mul_distrib};
use vstd::prelude::*;

verus! {

/// The channel-major logical grid of an interleaved sample sequence: row `c`
/// holds, for every frame `f`, the sample stored at `f * channels + c`.
pub open spec fn interleaved_grid<T>(samples: Seq<T>, channels: usize, frames: usize) -> Seq<
    Seq<T>,
> {
    Seq::new(
        channels as nat,
        |c: int| Seq::new(frames as nat, |f: int| samples[f * (channels as int) + c]),
    )
}

/// Multi-channel storage in interleaved layout: the samples of one frame for
/// all channels are contiguous, so channel `c` occupies every `channels`-th
/// element starting at index `c`.
#[derive(Clone)]
pub struct Interleaved<T> {
    data: Vec<T>,
    channels: usize,
    frames: usize,
}

impl<T> Interleaved<T> {
    /// The raw interleaved sample sequence, as contracts see it.
    pub closed spec fn spec_samples(&self) -> Seq<T> {
        self.data@
    }

    /// The stored channel count, as contracts see it.
    pub closed spec fn spec_channel_count(&self) -> usize {
        self.channels
    }

    /// The stored frame count, as contracts see it.
    pub closed spec fn spec_frame_count(&self) -> usize {
        self.frames
    }

    /// Wrap an interleaved sample vector as a `channels x frames` buffer.
    pub fn from_vec(data: Vec<T>, channels: usize, frames: usize) -> (r: Interleaved<T>)
        requires
            data@.len() == frames * channels,
        ensures
            r.inv(),
            r.spec_channel_count() == channels,
            r.spec_frame_count() == frames,
            r.spec_samples() == data@,
    {
        Interleaved { data, channels, frames }
    }
}

impl<T: Copy> Interleaved<T> {
    /// A `channels x frames` buffer with every sample set to `value`.
    pub fn filled(channels: usize, frames: usize, value: T) -> (r: Interleaved<T>)
        requires
            frames * channels <= usize::MAX,
        ensures
            r.inv(),
            r.spec_channel_count() == channels,
            r.spec_frame_count() == frames,
            forall|i: int| 0 <= i < r.spec_samples().len() ==> r.spec_samples()[i] == value,
    {
        proof {
            if frames > 0 && channels > 0 {
                lemma_grid_index_bound((frames - 1) as int, (channels - 1) as int, frames as int,
                    channels as int);
            } else {
                assert(frames * channels == 0) by (nonlinear_arith)
                    requires frames == 0 || channels == 0;
            }
        }
        let total: usize = frames * channels;
        let mut data: Vec<T> = Vec::new();
        let mut i: usize = 0;
        while i < total
            invariant
                i <= total,
                data@.len() == i,
                forall|j: int| 0 <= j < i ==> data@[j] == value,
            decreases total - i,
        {
            data.push(value);
            i = i + 1;
        }
        Interleaved { data, channels, frames }
    }

    /// The sample of frame `frame` of channel `channel`.
    pub fn get(&self, channel: usize, frame: usize) -> (r: T)
        requires
            self.inv(),
            channel < self.spec_channel_count(),
            frame < self.spec_frame_count(),
        ensures
            r == self.data()[channel as int][frame as int],
    {
        let n = self.data.len();
        proof {
            lemma_grid_index_bound(frame as int, channel as int, self.frames as int,
                self.channels as int);
        }
        let idx = frame * self.channels + channel;
        self.data[idx]
    }
}

impl<T> Buf for Interleaved<T> {
    open spec fn inv(&self) -> bool {
        self.spec_samples().len() == self.spec_frame_count() * self.spec_channel_count()
    }

    open spec fn spec_channels(&self) -> usize {
        self.spec_channel_count()
    }

    open spec fn spec_frames_hint(&self) -> Option<usize> {
        Some(self.spec_frame_count())
    }

    fn channels(&self) -> usize {
        self.channels
    }

    fn frames_hint(&self) -> Option<usize> {
        Some(self.frames)
    }
}

impl<T> ExactSizeBuf for Interleaved<T> {
    open spec fn spec_frames(&self) -> usize {
        self.spec_frame_count()
    }

    fn frames(&self) -> usize {
        self.frames
    }
}

impl<T: Copy> Channels<T> for Interleaved<T> {
    open spec fn data(&self) -> Seq<Seq<T>> {
        interleaved_grid(self.spec_samples(), self.spec_channel_count(), self.spec_frame_count())
    }

    proof fn data_wf(&self) {
    }

    fn channel(&self, channel: usize) -> (r: Channel<'_, T>) {
        proof {
            if self.frames > 0 {
                lemma_mul_distrib((self.frames - 1) as int, 1, self.channels as int);
            }
        }
        let r = Channel::from_parts(&self.data, channel, self.channels, self.frames);
        proof {
            assert(r@ =~= self.data()[channel as int]);
        }
        r
    }
}

impl<T: Copy> ChannelsMut<T> for Interleaved<T> {
    fn set(&mut self, channel: usize, frame: usize, value: T) {
        let n = self.data.len();
        proof {
            lemma_grid_index_bound(frame as int, channel as int, self.frames as int,
                self.channels as int);
        }
        let idx = frame * self.channels + channel;
        self.data[idx] = value;
        proof {
            let expect = old(self).data().update(
                channel as int,
                old(self).data()[channel as int].update(frame as int, value),
            );
            assert forall|c: int, f: int|
                0 <= c < self.data().len() && 0 <= f < self.data()[c].len() implies self.data()[c][f]
                == expect[c][f] by {
                lemma_grid_index_bound(f, c, self.frames as int, self.channels as int);
                if f * (self.channels as int) + c == idx {
                    lemma_grid_index_injective(f, c, frame as int, channel as int,
                        self.channels as int);
                }
            }
            assert forall|c: int| 0 <= c < self.data().len() implies self.data()[c] =~= expect[c] by {
            }
            assert(self.data() =~= expect);
        }
    }
}

} // verus!
