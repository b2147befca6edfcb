//! The per-guild playback queue: an ordered sequence of tracks addressed
//! by 1-based position. This is pure data-structure logic; coupling to the
//! player state machine lives in the session.
use vstd::prelude::*;
use vstd::seq_lib::group_to_multiset_ensures;
use vstd::seq_lib::to_multiset_update;
use crate::track::Track;

verus! {

/// Where a newly enqueued track goes: appended at the back, or placed as
/// the next entry to play.
#[derive(Clone, Copy, Debug, PartialEq, Eq, Structural)]
pub enum Placement {
    Front,
    Back,
}

/// The sequence with the entries at `i` and `j` exchanged (identity when
/// `i == j`).
pub open spec fn seq_swapped<A>(s: Seq<A>, i: int, j: int) -> Seq<A> {
    s.update(i, s[j]).update(j, s[i])
}

/// Exchanging two entries of a sequence does not change its multiset of
/// elements.
pub proof fn lemma_seq_swapped_multiset<A>(s: Seq<A>, i: int, j: int)
    requires
        0 <= i < s.len(),
        0 <= j < s.len(),
    ensures
        seq_swapped(s, i, j).to_multiset() == s.to_multiset(),
{
    broadcast use group_to_multiset_ensures;
    broadcast use to_multiset_update;
    broadcast use vstd::multiset::group_multiset_axioms;

    if i == j {
        assert(seq_swapped(s, i, j) =~= s);
    } else {
        let s1 = s.update(i, s[j]);
        assert(s.contains(s[i]));
        assert(s1.contains(s[j])) by {
            assert(s1[j] == s[j]);
        }
        assert(seq_swapped(s, i, j).to_multiset() =~= s.to_multiset());
    }
}

/// Exchanging two entries at positions past the head commutes with
/// dropping the head.
pub proof fn lemma_seq_swapped_tail<A>(s: Seq<A>, i: int, j: int)
    requires
        1 <= i < s.len(),
        1 <= j < s.len(),
    ensures
        seq_swapped(s, i, j).subrange(1, s.len() as int) == seq_swapped(
            s.subrange(1, s.len() as int),
            i - 1,
            j - 1,
        ),
{
    assert(seq_swapped(s, i, j).subrange(1, s.len() as int) =~= seq_swapped(
        s.subrange(1, s.len() as int),
        i - 1,
        j - 1,
    ));
}

/// Exchanging a pair of entries twice restores the original sequence.
pub proof fn lemma_seq_swapped_involution<A>(s: Seq<A>, i: int, j: int)
    requires
        0 <= i < s.len(),
        0 <= j < s.len(),
    ensures
        seq_swapped(seq_swapped(s, i, j), i, j) == s,
{
    assert(seq_swapped(seq_swapped(s, i, j), i, j) =~= s);
}

/// One step of the tail shuffle: the entry at index `k` is exchanged with
/// the entry the pick selects among indices `1 ..= k`.
pub open spec fn tail_shuffle_step(s: Seq<Track>, pick: u64, k: int) -> Seq<Track>
    recommends
        1 <= k < s.len(),
{
    seq_swapped(s, k, 1 + (pick as int % k))
}

/// The queue contents after the picks from index `i` on have been applied,
/// working from the last index of the sequence down towards index 2.
/// Index 0 is never a swap target, so the head stays in place.
pub open spec fn tail_shuffled_from(s: Seq<Track>, picks: Seq<u64>, i: int) -> Seq<Track>
    decreases picks.len() - i,
{
    if i < 0 || i >= picks.len() || s.len() - 1 - i < 2 {
        s
    } else {
        tail_shuffled_from(tail_shuffle_step(s, picks[i], s.len() - 1 - i), picks, i + 1)
    }
}

/// The queue contents after a whole Fisher-Yates pass over the positions
/// past the head, driven by the given picks.
pub open spec fn tail_shuffled(s: Seq<Track>, picks: Seq<u64>) -> Seq<Track> {
    tail_shuffled_from(s, picks, 0)
}

/// Ordered sequence of tracks for one guild, addressed externally by
/// 1-based position; position 1 is the active entry.
pub struct Queue {
    pub tracks: Vec<Track>,
}

impl View for Queue {
    type V = Seq<Track>;

    open spec fn view(&self) -> Seq<Track> {
        self.tracks@
    }
}

impl Queue {
    pub fn new() -> (r: Queue)
        ensures
            r@ == Seq::<Track>::empty(),
    {
        Queue { tracks: Vec::new() }
    }

    pub fn len(&self) -> (r: usize)
        ensures
            r == self@.len(),
    {
        self.tracks.len()
    }

    pub fn is_empty(&self) -> (r: bool)
        ensures
            r == (self@.len() == 0),
    {
        self.tracks.len() == 0
    }

    /// Read-only access to the track at a 1-based position.
    pub fn peek(&self, pos: usize) -> (r: &Track)
        requires
            1 <= pos <= self@.len(),
        ensures
            *r == self@[pos - 1],
    {
        &self.tracks[pos - 1]
    }

    pub fn push_back(&mut self, t: Track)
        ensures
            final(self)@ == old(self)@.push(t),
    {
        self.tracks.push(t);
    }

    /// Insert at a 1-based position, shifting later entries back.
    pub fn insert_at(&mut self, pos: usize, t: Track)
        requires
            1 <= pos <= old(self)@.len() + 1,
        ensures
            final(self)@ == old(self)@.insert(pos - 1, t),
    {
        self.tracks.insert(pos - 1, t);
    }

    /// Remove the track at a 1-based position, shifting later entries
    /// forward.
    pub fn remove_at(&mut self, pos: usize) -> (r: Track)
        requires
            1 <= pos <= old(self)@.len(),
        ensures
            r == old(self)@[pos - 1],
            final(self)@ == old(self)@.remove(pos - 1),
    {
        self.tracks.remove(pos - 1)
    }

    /// Remove every track at once.
    pub fn clear(&mut self)
        ensures
            final(self)@ == Seq::<Track>::empty(),
    {
        self.tracks.clear();
    }

    /// Exchange the tracks at two 1-based positions.
    pub fn swap(&mut self, pos_a: usize, pos_b: usize)
        requires
            1 <= pos_a <= old(self)@.len(),
            1 <= pos_b <= old(self)@.len(),
            pos_a != pos_b,
        ensures
            final(self)@ == seq_swapped(old(self)@, pos_a - 1, pos_b - 1),
    {
        let (i, j) = if pos_a < pos_b {
            (pos_a - 1, pos_b - 1)
        } else {
            (pos_b - 1, pos_a - 1)
        };
        let tj = self.tracks.remove(j);
        let ti = self.tracks.remove(i);
        self.tracks.insert(i, tj);
        self.tracks.insert(j, ti);
        proof {
            assert(self.tracks@ =~= seq_swapped(old(self)@, pos_a - 1, pos_b - 1));
        }
    }

    /// Reorder the positions past the head by a Fisher-Yates pass driven by
    /// the given picks (one uniform draw per step, supplied by the caller).
    /// The head never moves, and the picks pin the outcome down exactly.
    pub fn shuffle_tail(&mut self, picks: &Vec<u64>)
        ensures
            final(self)@ == tail_shuffled(old(self)@, picks@),
            final(self)@.len() == old(self)@.len(),
            old(self)@.len() > 0 ==> final(self)@[0] == old(self)@[0],
            final(self)@.to_multiset() == old(self)@.to_multiset(),
            old(self)@.len() > 0 ==> final(self)@.subrange(1, final(self)@.len() as int)
                .to_multiset() == old(self)@.subrange(1, old(self)@.len() as int).to_multiset(),
    {
        let ghost orig = self.tracks@;
        let n = self.tracks.len();
        let mut i: usize = 0;
        while i < picks.len() && n >= 3 && i <= n - 3
            invariant
                0 <= i <= picks@.len(),
                self.tracks@.len() == n,
                n == orig.len(),
                tail_shuffled(orig, picks@) == tail_shuffled_from(self.tracks@, picks@, i as int),
                n > 0 ==> self.tracks@[0] == orig[0],
                self.tracks@.to_multiset() == orig.to_multiset(),
                n > 0 ==> self.tracks@.subrange(1, n as int).to_multiset() == orig.subrange(
                    1,
                    n as int,
                ).to_multiset(),
            decreases picks@.len() - i,
        {
            let ghost pre = self.tracks@;
            let k = n - 1 - i;
            let j = 1 + (picks[i] % (k as u64)) as usize;
            proof {
                assert(1 <= j <= k) by {
                    assert(picks@[i as int] as int % (k as int) < k as int) by (nonlinear_arith)
                        requires k >= 1;
                    assert(picks@[i as int] as int % (k as int) >= 0) by (nonlinear_arith)
                        requires k >= 1;
                }
            }
            if j != k {
                self.swap(k + 1, j + 1);
            }
            proof {
                assert(self.tracks@ =~= tail_shuffle_step(pre, picks@[i as int], k as int));
                assert(tail_shuffled_from(pre, picks@, i as int) == tail_shuffled_from(
                    self.tracks@,
                    picks@,
                    i as int + 1,
                ));
                lemma_seq_swapped_multiset(pre, k as int, j as int);
                lemma_seq_swapped_tail(pre, k as int, j as int);
                lemma_seq_swapped_multiset(
                    pre.subrange(1, n as int),
                    k as int - 1,
                    j as int - 1,
                );
            }
            i = i + 1;
        }
        proof {
            assert(tail_shuffled_from(self.tracks@, picks@, i as int) == self.tracks@);
        }
    }
}

} // verus!
