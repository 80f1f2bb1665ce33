//! The read, write and combined adapters' bookkeeping.

use rotary::buf::{Buf, Channels, ChannelsMut, ExactSizeBuf, ReadBuf, WriteBuf};
use rotary::interleaved::Interleaved;
use rotary::io::{Read, ReadWrite, Write};

fn two_by_four() -> Interleaved<i32> {
    Interleaved::from_vec(vec![1, 1, 2, 2, 3, 3, 4, 4], 2, 4)
}

#[test]
fn fresh_read_has_all_frames_remaining() {
    let r = Read::new(two_by_four());
    assert_eq!(r.remaining(), 4);
}

#[test]
fn advance_subtracts_saturating() {
    let mut r = Read::new(two_by_four());
    r.advance(1);
    assert_eq!(r.remaining(), 3);
    r.advance(2);
    assert_eq!(r.remaining(), 1);
    r.advance(5);
    assert_eq!(r.remaining(), 0);
}

#[test]
fn over_advancing_a_fresh_read_clamps() {
    let mut r = Read::new(two_by_four());
    r.advance(100);
    assert_eq!(r.remaining(), 0);
    r.advance(1);
    assert_eq!(r.remaining(), 0);
}

#[test]
fn read_views_drop_consumed_frames() {
    let mut r = Read::new(two_by_four());
    r.advance(3);
    assert_eq!(r.frames(), 1);
    let ch = r.channel(0);
    assert_eq!(ch.len(), 1);
    assert_eq!(ch.get(0), 4);
}

#[test]
fn set_read_recomputes_remaining() {
    let mut r = Read::new(two_by_four());
    r.set_read(1);
    assert_eq!(r.remaining(), 3);
    r.set_read(9);
    assert_eq!(r.remaining(), 0);
    r.set_read(0);
    assert_eq!(r.remaining(), 4);
}

#[test]
fn read_forwards_buffer_shape() {
    let r = Read::new(two_by_four());
    assert_eq!(r.channels(), 2);
    assert_eq!(r.frames_hint(), Some(4));
}

#[test]
fn read_exposes_its_buffer() {
    let mut r = Read::new(two_by_four());
    assert_eq!(r.as_ref().frames(), 4);
    r.as_mut().set(0, 0, 9);
    assert_eq!(r.as_ref().get(0, 0), 9);
    let inner = r.into_inner();
    assert_eq!(inner.get(0, 0), 9);
    assert_eq!(inner.get(1, 0), 1);
}

#[test]
fn fresh_write_has_all_capacity() {
    let w = Write::new(Interleaved::filled(2, 4, 0i32));
    assert_eq!(w.remaining_mut(), 4);
    assert_eq!(w.channels(), 2);
}

#[test]
fn write_put_lands_after_the_cursor() {
    let mut w = Write::new(Interleaved::filled(1, 4, 0i32));
    w.put(0, 0, 7);
    w.advance_mut(1);
    w.put(0, 0, 8);
    w.advance_mut(1);
    assert_eq!(w.remaining_mut(), 2);
    let buf = w.into_inner();
    assert_eq!(buf.get(0, 0), 7);
    assert_eq!(buf.get(0, 1), 8);
    assert_eq!(buf.get(0, 2), 0);
}

#[test]
fn write_advance_saturates() {
    let mut w = Write::new(Interleaved::filled(2, 3, 0i32));
    w.advance_mut(10);
    assert_eq!(w.remaining_mut(), 0);
}

#[test]
fn set_written_recomputes_capacity() {
    let mut w = Write::new(Interleaved::filled(2, 4, 0i32));
    w.set_written(3);
    assert_eq!(w.remaining_mut(), 1);
    w.set_written(9);
    assert_eq!(w.remaining_mut(), 0);
    assert_eq!(w.as_ref().frames(), 4);
}

#[test]
fn read_write_composes_both_trackers() {
    let mut rw = ReadWrite::new(Interleaved::filled(1, 4, 0i32));
    assert_eq!(rw.remaining_mut(), 4);
    assert_eq!(rw.remaining(), 0);
    rw.put(0, 0, 5);
    rw.put(0, 1, 6);
    rw.advance_mut(2);
    assert_eq!(rw.remaining_mut(), 2);
    assert_eq!(rw.remaining(), 2);
    let ch = rw.channel(0);
    assert_eq!(ch.len(), 2);
    assert_eq!(ch.get(0), 5);
    assert_eq!(ch.get(1), 6);
    rw.advance(1);
    assert_eq!(rw.remaining(), 1);
    assert_eq!(rw.channel(0).get(0), 6);
    assert_eq!(rw.as_ref().get(0, 0), 5);
    let inner = rw.into_inner();
    assert_eq!(inner.get(0, 1), 6);
}
