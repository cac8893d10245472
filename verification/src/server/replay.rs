//! Frames that are kept for clients that connect later.

use std::collections::VecDeque;

use vstd::prelude::*;

use crate::text::views;

verus! {

/// How many frames are kept.
pub const REPLAY_CAPACITY: usize = 1000;

/// The latest frames, from old to new.
#[derive(Debug)]
pub struct ReplayBuffer {
    frames: VecDeque<String>,
}

impl View for ReplayBuffer {
    type V = Seq<Seq<char>>;

    closed spec fn view(&self) -> Seq<Seq<char>> {
        views(self.frames@)
    }
}

/// What is kept after one more frame: where there is no room for it, the oldest
/// goes.
pub open spec fn kept(frames: Seq<Seq<char>>, frame: Seq<char>) -> Seq<Seq<char>> {
    if frames.len() == REPLAY_CAPACITY {
        frames.drop_first().push(frame)
    } else {
        frames.push(frame)
    }
}

impl ReplayBuffer {
    /// Whether no more is kept than there is room for.
    pub open spec fn well_formed(self) -> bool {
        self@.len() <= REPLAY_CAPACITY
    }

    /// No frames.
    pub fn new() -> (r: ReplayBuffer)
        ensures
            r.well_formed(),
            r@ == Seq::<Seq<char>>::empty(),
    {
        let r = ReplayBuffer { frames: VecDeque::new() };
        assert(r@ =~= Seq::<Seq<char>>::empty());
        r
    }

    /// Keeps a frame.
    pub fn push_frame(&mut self, frame: String)
        requires
            old(self).well_formed(),
        ensures
            final(self).well_formed(),
            final(self)@ == kept(old(self)@, frame@),
    {
        if self.frames.len() == REPLAY_CAPACITY {
            self.frames.pop_front();
            assert(self@ =~= old(self)@.drop_first());
        }
        let ghost before = self@;
        self.frames.push_back(frame);
        assert(self@ =~= before.push(frame@));
    }

    /// The frames for a client that connects now, from old to new.
    pub fn snapshot(&self) -> (r: Vec<String>)
        ensures
            views(r@) == self@,
    {
        let mut all: Vec<String> = Vec::new();
        let mut i: usize = 0;
        while i < self.frames.len()
            invariant
                i <= self.frames.len(),
                all.len() == i,
                forall|j: int| 0 <= j < i ==> (#[trigger] all@[j])@ == self.frames@[j]@,
            decreases self.frames.len() - i,
        {
            all.push(self.frames[i].clone());
            i = i + 1;
        }
        assert(views(all@) =~= self@);
        all
    }
}

/// What is kept after some more frames.
pub open spec fn all_kept(frames: Seq<Seq<char>>, more: Seq<Seq<char>>) -> Seq<Seq<char>>
    decreases more.len(),
{
    if more.len() == 0 {
        frames
    } else {
        kept(all_kept(frames, more.drop_last()), more.last())
    }
}

/// A client that connects is told the latest frames without a gap, up to the
/// capacity.
pub proof fn law_the_latest_frames_are_replayed(frames: Seq<Seq<char>>)
    ensures
        all_kept(Seq::empty(), frames) == frames.skip(
            if frames.len() > REPLAY_CAPACITY {
                frames.len() - REPLAY_CAPACITY
            } else {
                0
            },
        ),
    decreases frames.len(),
{
    if frames.len() > 0 {
        let before = frames.drop_last();
        law_the_latest_frames_are_replayed(before);
        let so_far = all_kept(Seq::empty(), before);
        if before.len() >= REPLAY_CAPACITY {
            let n = before.len() - REPLAY_CAPACITY;
            assert(so_far =~= before.skip(n));
            assert(so_far.drop_first().push(frames.last()) =~= frames.skip(n + 1));
        } else {
            assert(so_far =~= before);
            assert(so_far.push(frames.last()) =~= frames);
            assert(frames.skip(0) =~= frames);
        }
    }
}

/// A client that connects between two frames misses none and gets none twice: what
/// it is told at once and what follows are the frames from some moment on, all of
/// them in their order.
pub proof fn law_nothing_is_lost_on_connecting(earlier: Seq<Seq<char>>, later: Seq<Seq<char>>)
    ensures
        all_kept(Seq::empty(), earlier) + later == (earlier + later).skip(
            if earlier.len() > REPLAY_CAPACITY {
                earlier.len() - REPLAY_CAPACITY
            } else {
                0
            },
        ),
{
    law_the_latest_frames_are_replayed(earlier);
    let missed: int = if earlier.len() > REPLAY_CAPACITY {
        earlier.len() - REPLAY_CAPACITY
    } else {
        0
    };
    assert(earlier.skip(missed) + later =~= (earlier + later).skip(missed));
}

/// A frame is kept behind all others. As long as fewer than 1000 are kept none goes, and then
/// the oldest goes.
pub proof fn law_a_thousand_frames_are_kept(frames: Seq<Seq<char>>, frame: Seq<char>)
    requires
        frames.len() <= 1000,
    ensures
        frames.len() < 1000 ==> kept(frames, frame) == frames.push(frame),
        frames.len() == 1000 ==> kept(frames, frame).len() == 1000 && kept(frames, frame).last()
            == frame && forall|i: int|
            0 <= i < 999 ==> #[trigger] kept(frames, frame)[i] == frames[i + 1],
{
}

} // verus!
