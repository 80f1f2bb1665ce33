//! Channel views and the stateless windowing wrappers.

use rotary::buf::{Buf, Channels, ExactSizeBuf};
use rotary::channel::Channel;
use rotary::interleaved::Interleaved;
use rotary::window::{limit, skip};

fn two_by_four() -> Interleaved<i32> {
    // Two channels of four frames, both holding [1, 2, 3, 4].
    Interleaved::from_vec(vec![1, 1, 2, 2, 3, 3, 4, 4], 2, 4)
}

fn collect(ch: &Channel<'_, i32>) -> Vec<i32> {
    let mut out = Vec::new();
    let mut i: usize = 0;
    while i < ch.len() {
        out.push(ch.get(i));
        i += 1;
    }
    out
}

#[test]
fn channel_views_reflect_layout() {
    let buf = two_by_four();
    assert_eq!(buf.channels(), 2);
    assert_eq!(buf.frames(), 4);
    assert_eq!(buf.frames_hint(), Some(4));
    assert_eq!(collect(&buf.channel(0)), vec![1, 2, 3, 4]);
    assert_eq!(collect(&buf.channel(1)), vec![1, 2, 3, 4]);
}

#[test]
fn tail_drops_the_front() {
    let buf = two_by_four();
    let ch = buf.channel(0);
    assert_eq!(ch.len(), 4);
    assert_eq!(collect(&ch.tail(2)), vec![3, 4]);
}

#[test]
fn tail_zero_is_identity() {
    let buf = two_by_four();
    let ch = buf.channel(1);
    assert_eq!(collect(&ch.tail(0)), vec![1, 2, 3, 4]);
}

#[test]
fn tail_length_clamps_at_zero() {
    let buf = two_by_four();
    assert_eq!(buf.channel(0).tail(1).len(), 3);
    assert_eq!(buf.channel(0).tail(4).len(), 0);
    assert_eq!(buf.channel(0).tail(9).len(), 0);
}

#[test]
fn tail_composes_additively() {
    let buf = two_by_four();
    let once = collect(&buf.channel(0).tail(3));
    let twice = collect(&buf.channel(0).tail(1).tail(2));
    assert_eq!(once, twice);
    assert_eq!(once, vec![4]);
}

#[test]
fn limit_keeps_the_front() {
    let buf = two_by_four();
    assert_eq!(collect(&buf.channel(0).limit(2)), vec![1, 2]);
    assert_eq!(collect(&buf.channel(0).limit(9)), vec![1, 2, 3, 4]);
}

#[test]
fn skip_wrapper_narrows_frames() {
    let buf = skip(two_by_four(), 2);
    assert_eq!(buf.channels(), 2);
    assert_eq!(buf.frames(), 2);
    assert_eq!(buf.frames_hint(), Some(2));
    assert_eq!(collect(&buf.channel(0)), vec![3, 4]);
}

#[test]
fn skip_clamps_past_the_end() {
    let buf = skip(two_by_four(), 7);
    assert_eq!(buf.frames(), 0);
    assert_eq!(buf.channel(1).len(), 0);
}

#[test]
fn limit_wrapper_narrows_frames() {
    let buf = limit(two_by_four(), 3);
    assert_eq!(buf.frames(), 3);
    assert_eq!(buf.frames_hint(), Some(3));
    assert_eq!(collect(&buf.channel(1)), vec![1, 2, 3]);
}

#[test]
fn skip_then_limit_intersects() {
    let buf = limit(skip(two_by_four(), 2), 1);
    assert_eq!(buf.frames(), 1);
    assert_eq!(collect(&buf.channel(0)), vec![3]);
}
