//! The streaming copy: drain a read adapter into a write adapter.

use crate::buf::{Buf, Channels, ExactSizeBuf, ReadBuf, WriteBuf};
use crate::channel::{lemma_tail_zero, window_tail};
use crate::util::{min_usize, umin};
use vstd::prelude::*;

verus! {

/// How many frames one invocation of the streaming copy moves: the smaller
/// of the two sides' remaining counts, or zero when the sides share no
/// channel.
pub open spec fn transfer_len(rs: usize, rd: usize, cs: usize, cd: usize) -> usize {
    if cs == 0 || cd == 0 {
        0
    } else {
        min_usize(rs, rd)
    }
}

/// `row` with `patch` written over its samples starting at position `at`.
pub open spec fn spliced<T>(row: Seq<T>, patch: Seq<T>, at: int) -> Seq<T> {
    row.take(at) + patch + row.skip(at + patch.len())
}

/// Move as many frames as possible from `from` into `to` in one invocation.
///
/// The transfer length is the smaller of both sides' remaining counts (zero
/// when either side has no channel); both cursors advance by exactly the
/// reported count, so repeated calls stream a long source through a small
/// destination. Channel-count mismatch copies only the shared channels:
/// extra destination channels are untouched, extra source channels unread.
/// Both sides carry the same sample type, so samples move unconverted.
/// A zero-length transfer is a normal result, not an error.
pub fn copy_remaining<T: Copy, R: ReadBuf<T>, W: WriteBuf<T>>(from: &mut R, to: &mut W) -> (n:
    usize)
    requires
        old(from).inv(),
        old(to).inv(),
    ensures
        final(from).inv(),
        final(to).inv(),
        n == transfer_len(
            old(from).spec_remaining(),
            old(to).spec_remaining_mut(),
            old(from).spec_channels(),
            old(to).spec_channels(),
        ),
        final(from).spec_channels() == old(from).spec_channels(),
        final(to).spec_channels() == old(to).spec_channels(),
        final(from).spec_remaining() == old(from).spec_remaining() - n,
        final(from).rdata() == old(from).rdata(),
        final(from).spec_consumed() == old(from).spec_consumed() + n,
        final(to).spec_remaining_mut() == old(to).spec_remaining_mut() - n,
        final(to).spec_written() == old(to).spec_written() + n,
        final(from).data().len() == old(from).data().len(),
        forall|c: int|
            0 <= c < old(from).data().len() ==> #[trigger] final(from).data()[c] == window_tail(
                old(from).data()[c],
                n as int,
            ),
        final(to).wdata().len() == old(to).wdata().len(),
        forall|c: int|
            0 <= c < min_usize(old(from).spec_channels(), old(to).spec_channels())
                ==> #[trigger] final(to).wdata()[c] == spliced(
                old(to).wdata()[c],
                old(from).data()[c].take(n as int),
                old(to).spec_written() as int,
            ),
        forall|c: int|
            min_usize(old(from).spec_channels(), old(to).spec_channels()) <= c < old(
                to,
            ).wdata().len() ==> #[trigger] final(to).wdata()[c] == old(to).wdata()[c],
{
    let ghost from0 = *from;
    let ghost to0 = *to;
    let rs = from.remaining();
    let rd = to.remaining_mut();
    let cs = from.channels();
    let cd = to.channels();
    let n = umin(rs, rd);
    let shared = umin(cs, cd);
    proof {
        from0.data_wf();
        from0.read_wf();
        to0.wdata_wf();
    }
    if cs == 0 || cd == 0 || n == 0 {
        proof {
            assert forall|c: int| 0 <= c < from.data().len() implies #[trigger] from.data()[c]
                == window_tail(from.data()[c], 0) by {
                lemma_tail_zero(from.data()[c]);
            }
            assert forall|c: int| 0 <= c < shared implies #[trigger] to.wdata()[c] == spliced(
                to.wdata()[c],
                from.data()[c].take(0),
                to.spec_written() as int,
            ) by {
                assert(spliced(to.wdata()[c], from.data()[c].take(0), to.spec_written() as int)
                    =~= to.wdata()[c]);
            }
        }
        return 0;
    }
    let mut c: usize = 0;
    while c < shared
        invariant
            to.inv(),
            c <= shared,
            *from == from0,
            from0.inv(),
            to0.inv(),
            shared == min_usize(cs, cd),
            cs == from0.spec_channels(),
            cd == to0.spec_channels(),
            rs == from0.spec_remaining(),
            rd == to0.spec_remaining_mut(),
            n == min_usize(rs, rd),
            n <= rs && n <= rd,
            to.spec_channels() == to0.spec_channels(),
            to.spec_written() == to0.spec_written(),
            to.spec_remaining_mut() == to0.spec_remaining_mut(),
            to.wdata().len() == to0.wdata().len(),
            forall|k: int|
                0 <= k < c ==> #[trigger] to.wdata()[k] == spliced(
                    to0.wdata()[k],
                    from0.data()[k].take(n as int),
                    to0.spec_written() as int,
                ),
            forall|k: int| c <= k < to.wdata().len() ==> #[trigger] to.wdata()[k] == to0.wdata()[k],
        decreases shared - c,
    {
        proof {
            from0.data_wf();
            from0.read_wf();
            to0.wdata_wf();
        }
        let ch = from.channel(c);
        let mut f: usize = 0;
        while f < n
            invariant
                to.inv(),
                f <= n,
                c < shared,
                ch.wf(),
                ch@ == from0.data()[c as int],
                ch@.len() == rs,
                to0.inv(),
                shared == min_usize(cs, cd),
                cd == to0.spec_channels(),
                rd == to0.spec_remaining_mut(),
                n <= rs && n <= rd,
                to.spec_channels() == to0.spec_channels(),
                to.spec_written() == to0.spec_written(),
                to.spec_remaining_mut() == to0.spec_remaining_mut(),
                to.wdata().len() == to0.wdata().len(),
                forall|k: int|
                    0 <= k < c ==> #[trigger] to.wdata()[k] == spliced(
                        to0.wdata()[k],
                        from0.data()[k].take(n as int),
                        to0.spec_written() as int,
                    ),
                forall|k: int|
                    c < k < to.wdata().len() ==> #[trigger] to.wdata()[k] == to0.wdata()[k],
                to.wdata()[c as int].len() == to0.wdata()[c as int].len(),
                forall|i: int|
                    0 <= i < to.wdata()[c as int].len() ==> #[trigger] to.wdata()[c as int][i] == (
                    if to0.spec_written() <= i < to0.spec_written() + f {
                        ch@[i - to0.spec_written()]
                    } else {
                        to0.wdata()[c as int][i]
                    }),
            decreases n - f,
        {
            proof {
                to.wdata_wf();
                to0.wdata_wf();
            }
            let v = ch.get(f);
            to.put(c, f, v);
            f = f + 1;
        }
        proof {
            to0.wdata_wf();
            assert(to.wdata()[c as int] =~= spliced(
                to0.wdata()[c as int],
                from0.data()[c as int].take(n as int),
                to0.spec_written() as int,
            ));
        }
        c = c + 1;
    }
    from.advance(n);
    to.advance_mut(n);
    n
}

/// The running total of a sequence of maximal streaming passes over one
/// source and one destination: each pass moves the smaller of the two
/// remaining counts, exactly as `copy_remaining` reports for buffers that
/// share at least one channel.
pub open spec fn drained_after(rs: int, rd: int, k: nat) -> int
    decreases k,
{
    if k == 0 {
        0
    } else {
        let m = if rs <= rd {
            rs
        } else {
            rd
        };
        m + drained_after(rs - m, rd - m, (k - 1) as nat)
    }
}

/// Chunking invariance: the first pass exhausts one side, every further pass
/// moves zero frames, and so calling the copy repeatedly until it reports
/// zero drains exactly `min(rs, rd)` frames in total — however many calls
/// were used to do so.
pub proof fn lemma_chunking_invariance(rs: int, rd: int, k: nat)
    requires
        0 <= rs,
        0 <= rd,
        1 <= k,
    ensures
        drained_after(rs, rd, k) == if rs <= rd {
            rs
        } else {
            rd
        },
    decreases k,
{
    let m = if rs <= rd {
        rs
    } else {
        rd
    };
    if k > 1 {
        lemma_chunking_invariance(rs - m, rd - m, (k - 1) as nat);
    } else {
        assert(drained_after(rs - m, rd - m, 0) == 0);
    }
}

} // verus!
