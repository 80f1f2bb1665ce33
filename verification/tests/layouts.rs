//! Planar storage and streaming between different physical layouts.

use rotary::buf::{Buf, Channels, ChannelsMut, ExactSizeBuf, ReadBuf, WriteBuf};
use rotary::interleaved::Interleaved;
use rotary::io::{copy_remaining, Read, Write};
use rotary::sequential::Sequential;

#[test]
fn planar_views_reflect_layout() {
    // Two channels of three frames: [10, 20, 30] and [40, 50, 60].
    let buf = Sequential::from_vec(vec![10, 20, 30, 40, 50, 60], 2, 3);
    assert_eq!(buf.channels(), 2);
    assert_eq!(buf.frames(), 3);
    assert_eq!(buf.frames_hint(), Some(3));
    let left = buf.channel(0);
    assert_eq!(left.len(), 3);
    assert_eq!(left.get(0), 10);
    assert_eq!(left.get(2), 30);
    let right = buf.channel(1);
    assert_eq!(right.get(0), 40);
    assert_eq!(right.get(2), 60);
}

#[test]
fn planar_set_changes_one_sample() {
    let mut buf = Sequential::filled(2, 2, 0i32);
    buf.set(1, 0, 7);
    assert_eq!(buf.get(0, 0), 0);
    assert_eq!(buf.get(0, 1), 0);
    assert_eq!(buf.get(1, 0), 7);
    assert_eq!(buf.get(1, 1), 0);
}

#[test]
fn planar_channel_tail_drops_the_front() {
    let buf = Sequential::from_vec(vec![1, 2, 3, 4], 1, 4);
    let tail = buf.channel(0).tail(2);
    assert_eq!(tail.len(), 2);
    assert_eq!(tail.get(0), 3);
    assert_eq!(tail.get(1), 4);
}

#[test]
fn copy_interleaved_into_planar() {
    // Interleaved [1, 2, 3] / [4, 5, 6] into planar storage.
    let from = Interleaved::from_vec(vec![1, 4, 2, 5, 3, 6], 2, 3);
    let mut source = Read::new(from);
    let mut to = Write::new(Sequential::filled(2, 3, 0i32));
    let n = copy_remaining(&mut source, &mut to);
    assert_eq!(n, 3);
    assert_eq!(source.remaining(), 0);
    let dest = to.into_inner();
    assert_eq!(dest.get(0, 0), 1);
    assert_eq!(dest.get(0, 1), 2);
    assert_eq!(dest.get(0, 2), 3);
    assert_eq!(dest.get(1, 0), 4);
    assert_eq!(dest.get(1, 1), 5);
    assert_eq!(dest.get(1, 2), 6);
}

#[test]
fn copy_planar_into_interleaved() {
    let from = Sequential::from_vec(vec![1, 2, 3, 4, 5, 6], 2, 3);
    let mut source = Read::new(from);
    let mut to = Write::new(Interleaved::filled(2, 3, 0i32));
    let n = copy_remaining(&mut source, &mut to);
    assert_eq!(n, 3);
    let dest = to.into_inner();
    assert_eq!(dest.get(0, 0), 1);
    assert_eq!(dest.get(0, 2), 3);
    assert_eq!(dest.get(1, 0), 4);
    assert_eq!(dest.get(1, 2), 6);
}
