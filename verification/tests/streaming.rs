//! The streaming copy: draining, chunking, mismatches and edge cases.

use rotary::buf::{Buf, Channels, ExactSizeBuf, ReadBuf, WriteBuf};
use rotary::interleaved::Interleaved;
use rotary::io::{copy_remaining, Read, ReadWrite, Write};
use rotary::window::{limit, skip};

fn two_by_four() -> Interleaved<i32> {
    // Two channels of four frames, both holding [1, 2, 3, 4].
    Interleaved::from_vec(vec![1, 1, 2, 2, 3, 3, 4, 4], 2, 4)
}

fn channel_values(buf: &Interleaved<i32>, channel: usize) -> Vec<i32> {
    let mut out = Vec::new();
    let mut f: usize = 0;
    while f < buf.frames() {
        out.push(buf.get(channel, f));
        f += 1;
    }
    out
}

#[test]
fn round_trip_reproduces_the_source() {
    let from = two_by_four();
    let mut source = Read::new(from);
    let mut to = ReadWrite::new(Interleaved::filled(2, 4, 0i32));
    let copied = copy_remaining(&mut source, &mut to);
    assert_eq!(copied, 4);
    let back = to.into_inner();
    assert_eq!(channel_values(&back, 0), vec![1, 2, 3, 4]);
    assert_eq!(channel_values(&back, 1), vec![1, 2, 3, 4]);
}

#[test]
fn windowed_copies_fill_the_destination_in_order() {
    let from = two_by_four();
    let mut to = ReadWrite::new(Interleaved::filled(2, 4, 0i32));

    let first = copy_remaining(&mut Read::new(limit(skip(from.clone(), 2), 1)), &mut to);
    let second = copy_remaining(&mut Read::new(limit(from, 1)), &mut to);
    assert_eq!(first, 1);
    assert_eq!(second, 1);

    let dest = to.into_inner();
    assert_eq!(channel_values(&dest, 0), vec![3, 1, 0, 0]);
    assert_eq!(channel_values(&dest, 1), vec![3, 1, 0, 0]);
}

#[test]
fn repeated_calls_drain_the_smaller_side() {
    let mut source = Read::new(two_by_four());
    let mut to = Write::new(Interleaved::filled(2, 9, 0i32));
    let mut total: usize = 0;
    let mut calls: usize = 0;
    loop {
        let n = copy_remaining(&mut source, &mut to);
        if n == 0 {
            break;
        }
        total += n;
        calls += 1;
        assert!(calls < 100);
    }
    assert_eq!(total, 4);
    assert_eq!(source.remaining(), 0);
    assert_eq!(to.remaining_mut(), 5);
}

#[test]
fn chunked_draining_moves_the_same_total() {
    // The same source streamed in one-frame chunks: the total matches the
    // single-pass drain, however many calls are used.
    let from = two_by_four();
    let mut to = ReadWrite::new(Interleaved::filled(2, 4, 0i32));
    let mut total: usize = 0;
    let mut start: usize = 0;
    while start < 4 {
        let mut piece = Read::new(limit(skip(from.clone(), start), 1));
        total += copy_remaining(&mut piece, &mut to);
        start += 1;
    }
    assert_eq!(total, 4);
    assert_eq!(copy_remaining(&mut Read::new(from), &mut to), 0);
    let dest = to.into_inner();
    assert_eq!(channel_values(&dest, 0), vec![1, 2, 3, 4]);
}

#[test]
fn counters_decrease_by_exactly_the_report() {
    let mut source = Read::new(two_by_four());
    let mut to = Write::new(Interleaved::filled(2, 2, 0i32));
    let n = copy_remaining(&mut source, &mut to);
    assert_eq!(n, 2);
    assert_eq!(source.remaining(), 4 - n);
    assert_eq!(to.remaining_mut(), 2 - n);
    let n2 = copy_remaining(&mut source, &mut to);
    assert_eq!(n2, 0);
    assert_eq!(source.remaining(), 2);
}

#[test]
fn channel_mismatch_copies_only_shared_channels() {
    let mut source = Read::new(two_by_four());
    let mut to = Write::new(Interleaved::filled(1, 6, 9i32));
    let n = copy_remaining(&mut source, &mut to);
    assert_eq!(n, 4);
    assert_eq!(source.remaining(), 4 - n);
    let dest = to.into_inner();
    assert_eq!(channel_values(&dest, 0), vec![1, 2, 3, 4, 9, 9]);
    // The source buffer itself is untouched, its second channel included.
    let kept = source.into_inner();
    assert_eq!(channel_values(&kept, 0), vec![1, 2, 3, 4]);
    assert_eq!(channel_values(&kept, 1), vec![1, 2, 3, 4]);
}

#[test]
fn extra_destination_channels_stay_untouched() {
    let one = Interleaved::from_vec(vec![5, 6], 1, 2);
    let mut source = Read::new(one);
    let mut to = Write::new(Interleaved::filled(3, 2, 0i32));
    let n = copy_remaining(&mut source, &mut to);
    assert_eq!(n, 2);
    let dest = to.into_inner();
    assert_eq!(channel_values(&dest, 0), vec![5, 6]);
    assert_eq!(channel_values(&dest, 1), vec![0, 0]);
    assert_eq!(channel_values(&dest, 2), vec![0, 0]);
}

#[test]
fn zero_channel_buffers_copy_nothing() {
    let none = Interleaved::from_vec(Vec::new(), 0, 4);
    assert_eq!(none.channels(), 0);
    assert_eq!(none.frames(), 4);
    let mut source = Read::new(none);
    let mut to = Write::new(Interleaved::filled(2, 4, 0i32));
    assert_eq!(copy_remaining(&mut source, &mut to), 0);
    assert_eq!(to.remaining_mut(), 4);

    let mut full = Read::new(two_by_four());
    let mut empty = Write::new(Interleaved::from_vec(Vec::new(), 0, 4));
    assert_eq!(copy_remaining(&mut full, &mut empty), 0);
    assert_eq!(full.remaining(), 4);
}

#[test]
fn zero_frame_buffers_copy_nothing() {
    let none = Interleaved::from_vec(Vec::new(), 2, 0);
    let mut source = Read::new(none);
    let mut to = Write::new(Interleaved::filled(2, 4, 0i32));
    assert_eq!(copy_remaining(&mut source, &mut to), 0);

    let mut full = Read::new(two_by_four());
    let mut cramped = Write::new(Interleaved::from_vec(Vec::new(), 2, 0));
    assert_eq!(copy_remaining(&mut full, &mut cramped), 0);
    assert_eq!(full.remaining(), 4);
}
