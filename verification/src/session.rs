//! One guild's live voice session: the voice binding, the owned queue and
//! the owned player state, mutated only as a whole. In the running system
//! each session sits behind its own exclusive lock, so every method here is
//! one atomic step in the per-guild order of commands.
use vstd::prelude::*;
use crate::error::CommandError;
use crate::player::PlayerState;
use crate::queue::{
    lemma_seq_swapped_involution, seq_swapped, tail_shuffled, Placement, Queue,
};
use crate::track::Track;

verus! {

/// What the audio transport is asked to do after a session operation:
/// possibly stop the stream it is playing, then possibly start a new one.
#[derive(Debug)]
pub struct TransportDirective {
    pub stop_current: bool,
    pub start: Option<Track>,
}

impl TransportDirective {
    /// A directive that asks nothing of the transport.
    pub open spec fn spec_silent() -> TransportDirective {
        TransportDirective { stop_current: false, start: None }
    }

    pub fn silent() -> (r: TransportDirective)
        ensures
            r == TransportDirective::spec_silent(),
    {
        TransportDirective { stop_current: false, start: None }
    }
}

/// The mathematical state of a session: what the contracts speak of.
pub struct SessionModel {
    pub guild_id: u64,
    pub voice_channel_id: u64,
    pub reply_channel_id: u64,
    pub tracks: Seq<Track>,
    pub player: PlayerState,
}

impl SessionModel {
    /// Session invariant: an empty queue means an idle player, and an
    /// active player always holds exactly the track at position 1, so no
    /// queue mutation can leave it referencing a missing track.
    pub open spec fn wf(self) -> bool {
        &&& (self.tracks.len() == 0 ==> self.player is Idle)
        &&& (match self.player.current() {
            Some(t) => self.tracks.len() > 0 && self.tracks[0] == t,
            None => true,
        })
    }

    /// The same binding with a new queue and player.
    pub open spec fn with_state(self, tracks: Seq<Track>, player: PlayerState) -> SessionModel {
        SessionModel {
            guild_id: self.guild_id,
            voice_channel_id: self.voice_channel_id,
            reply_channel_id: self.reply_channel_id,
            tracks,
            player,
        }
    }

    /// State after enqueueing: into an empty queue the track becomes
    /// position 1 and playback starts (the boolean); into a non-empty queue
    /// it goes to the back, or — for Front — right after the active track,
    /// or to position 1 when the player is idle.
    pub open spec fn enqueued(self, t: Track, placement: Placement) -> (SessionModel, bool) {
        if self.tracks.len() == 0 {
            (self.with_state(seq![t], PlayerState::Playing(t)), true)
        } else if placement is Back {
            (self.with_state(self.tracks.push(t), self.player), false)
        } else if self.player is Idle {
            (self.with_state(self.tracks.insert(0, t), self.player), false)
        } else {
            (self.with_state(self.tracks.insert(1, t), self.player), false)
        }
    }

    /// State, removed track and transport directive of `remove_at` on a
    /// valid position. Removing position 1 while the player is active stops
    /// the transport and advances to the new position 1, or to idle when
    /// the queue ran empty; any other removal touches no transport.
    pub open spec fn removed_at(self, pos: int) -> (SessionModel, Track, TransportDirective)
        recommends
            1 <= pos <= self.tracks.len(),
    {
        let t = self.tracks[pos - 1];
        let rest = self.tracks.remove(pos - 1);
        if pos == 1 && self.player.is_active() {
            if rest.len() > 0 {
                (
                    self.with_state(rest, PlayerState::Playing(rest[0])),
                    t,
                    TransportDirective { stop_current: true, start: Some(rest[0]) },
                )
            } else {
                (
                    self.with_state(rest, PlayerState::Idle),
                    t,
                    TransportDirective { stop_current: true, start: None },
                )
            }
        } else {
            (self.with_state(rest, self.player), t, TransportDirective::spec_silent())
        }
    }

    /// State after swapping two valid, distinct positions: a pure reorder.
    /// An active player follows the occupant of position 1, and no
    /// transport directive is issued, so the stream is never restarted.
    pub open spec fn swapped(self, pos_a: int, pos_b: int) -> SessionModel
        recommends
            1 <= pos_a <= self.tracks.len(),
            1 <= pos_b <= self.tracks.len(),
    {
        let ts = seq_swapped(self.tracks, pos_a - 1, pos_b - 1);
        let player = match self.player {
            PlayerState::Idle => PlayerState::Idle,
            PlayerState::Playing(_) => PlayerState::Playing(ts[0]),
            PlayerState::Paused(_) => PlayerState::Paused(ts[0]),
        };
        self.with_state(ts, player)
    }

    /// State after a shuffle driven by the given picks: position 1 is never
    /// touched and the player is untouched.
    pub open spec fn shuffled(self, picks: Seq<u64>) -> SessionModel {
        self.with_state(tail_shuffled(self.tracks, picks), self.player)
    }

    /// State and directive of `stop`: the queue is cleared, the player goes
    /// idle, and a live stream is stopped.
    pub open spec fn stopped(self) -> (SessionModel, TransportDirective) {
        (
            self.with_state(Seq::empty(), PlayerState::Idle),
            TransportDirective { stop_current: self.player.is_active(), start: None },
        )
    }

    /// State after a failed play-start: the player reverts to idle and the
    /// queue keeps the track, so a later skip or retry stays possible.
    pub open spec fn play_start_reverted(self) -> SessionModel {
        self.with_state(self.tracks, PlayerState::Idle)
    }

    /// Total version of `remove_at`: an invalid position changes nothing.
    pub open spec fn removed_at_total(self, pos: int) -> SessionModel {
        if 1 <= pos <= self.tracks.len() {
            self.removed_at(pos).0
        } else {
            self
        }
    }

    /// Total version of `skip`: from an idle player nothing changes.
    pub open spec fn skipped_total(self) -> SessionModel {
        if self.player.is_active() {
            self.removed_at(1).0
        } else {
            self
        }
    }
}

/// Removing any valid position keeps the session invariant.
pub proof fn lemma_remove_preserves_wf(m: SessionModel, pos: int)
    requires
        m.wf(),
    ensures
        m.removed_at_total(pos).wf(),
{
    if 1 <= pos <= m.tracks.len() {
        let rest = m.tracks.remove(pos - 1);
        if !(pos == 1 && m.player.is_active()) && m.player.is_active() {
            assert(rest[0] == m.tracks[0]);
        }
    }
}

/// A skip keeps the session invariant.
pub proof fn lemma_skip_preserves_wf(m: SessionModel)
    requires
        m.wf(),
    ensures
        m.skipped_total().wf(),
{
    lemma_remove_preserves_wf(m, 1);
}

/// Commands for one guild are serialized by the session's exclusive lock,
/// so two commands that arrive together take effect as the two atomic steps
/// of one of the two sequential orders. Both orders of a skip and a
/// removal of position 1 — the canonical racing pair — keep the session
/// well-formed, so neither order can leave a corrupted state.
pub proof fn lemma_command_orders_wf(m: SessionModel)
    requires
        m.wf(),
    ensures
        m.skipped_total().removed_at_total(1).wf(),
        m.removed_at_total(1).skipped_total().wf(),
{
    lemma_skip_preserves_wf(m);
    lemma_remove_preserves_wf(m.skipped_total(), 1);
    lemma_remove_preserves_wf(m, 1);
    lemma_skip_preserves_wf(m.removed_at_total(1));
}

/// Swapping the same valid, distinct pair twice restores the session
/// exactly: `swap` is an involution.
pub proof fn lemma_swap_involution(m: SessionModel, pos_a: int, pos_b: int)
    requires
        m.wf(),
        1 <= pos_a <= m.tracks.len(),
        1 <= pos_b <= m.tracks.len(),
        pos_a != pos_b,
    ensures
        m.swapped(pos_a, pos_b).swapped(pos_a, pos_b) == m,
{
    lemma_seq_swapped_involution(m.tracks, pos_a - 1, pos_b - 1);
    let m1 = m.swapped(pos_a, pos_b);
    let m2 = m1.swapped(pos_a, pos_b);
    assert(m2.tracks == m.tracks);
    match m.player {
        PlayerState::Idle => {},
        PlayerState::Playing(_) => {
            assert(m2.player == PlayerState::Playing(m.tracks[0]));
        },
        PlayerState::Paused(_) => {
            assert(m2.player == PlayerState::Paused(m.tracks[0]));
        },
    }
}

/// One guild's session: its voice binding plus its queue and player,
/// guarded in the running system by one exclusive lock per guild.
pub struct Session {
    pub guild_id: u64,
    pub voice_channel_id: u64,
    pub reply_channel_id: u64,
    pub queue: Queue,
    pub player: PlayerState,
}

impl View for Session {
    type V = SessionModel;

    open spec fn view(&self) -> SessionModel {
        SessionModel {
            guild_id: self.guild_id,
            voice_channel_id: self.voice_channel_id,
            reply_channel_id: self.reply_channel_id,
            tracks: self.queue@,
            player: self.player,
        }
    }
}

impl Session {
    pub open spec fn wf(self) -> bool {
        self@.wf()
    }

    /// A fresh session: empty queue, idle player, bound to the given voice
    /// channel and reply channel.
    pub fn new(guild_id: u64, voice_channel_id: u64, reply_channel_id: u64) -> (r: Session)
        ensures
            r.wf(),
            r@.guild_id == guild_id,
            r@.voice_channel_id == voice_channel_id,
            r@.reply_channel_id == reply_channel_id,
            r@.tracks.len() == 0,
            r@.player is Idle,
    {
        Session {
            guild_id,
            voice_channel_id,
            reply_channel_id,
            queue: Queue::new(),
            player: PlayerState::Idle,
        }
    }

    pub fn queue_len(&self) -> (r: usize)
        ensures
            r == self@.tracks.len(),
    {
        self.queue.len()
    }

    /// Read-only access to the track at a 1-based position.
    pub fn track_at(&self, pos: usize) -> (r: Option<&Track>)
        ensures
            r is Some <==> 1 <= pos <= self@.tracks.len(),
            r matches Some(t) ==> *t == self@.tracks[pos - 1],
    {
        if 1 <= pos && pos <= self.queue.len() {
            Some(self.queue.peek(pos))
        } else {
            None
        }
    }

    /// The track the player currently holds, if any.
    pub fn now_playing(&self) -> (r: Option<&Track>)
        ensures
            r is Some <==> self@.player.current() is Some,
            r matches Some(t) ==> self@.player.current() == Some(*t),
    {
        self.player.current_track()
    }

    /// Enqueue a validated track. Returns the new queue length and, when
    /// the queue was empty and playback starts, the track to hand to the
    /// transport.
    pub fn enqueue(&mut self, t: Track, placement: Placement) -> (r: (usize, Option<Track>))
        requires
            old(self).wf(),
        ensures
            final(self).wf(),
            final(self)@ == old(self)@.enqueued(t, placement).0,
            r.0 == old(self)@.tracks.len() + 1,
            r.0 == final(self)@.tracks.len(),
            r.1 == (if old(self)@.tracks.len() == 0 {
                Some(t)
            } else {
                None::<Track>
            }),
            placement is Front && old(self)@.player.is_active() ==> final(self)@.tracks[0] == old(
                self,
            )@.tracks[0] && final(self)@.tracks[1] == t,
    {
        if self.queue.is_empty() {
            let for_player = t.clone();
            let for_transport = t.clone();
            self.queue.push_back(t);
            self.player = PlayerState::Playing(for_player);
            proof {
                assert(self.queue@ =~= seq![self.queue@[0]]);
                assert(final(self)@ == old(self)@.enqueued(t, placement).0);
            }
            (self.queue.len(), Some(for_transport))
        } else {
            match placement {
                Placement::Back => self.queue.push_back(t),
                Placement::Front => {
                    if self.player.is_idle() {
                        self.queue.insert_at(1, t);
                    } else {
                        self.queue.insert_at(2, t);
                    }
                },
            }
            (self.queue.len(), None)
        }
    }

    /// Remove the track at a 1-based position. Fails with
    /// `PositionOutOfRange` — and changes nothing — when the position is
    /// not in 1 ..= length. Removing position 1 while playing or paused
    /// stops the transport and advances to the new position 1 (or idle).
    pub fn remove_at(&mut self, pos: usize) -> (r: Result<
        (Track, TransportDirective),
        CommandError,
    >)
        requires
            old(self).wf(),
        ensures
            final(self).wf(),
            1 <= pos <= old(self)@.tracks.len() ==> {
                let (m, t, d) = old(self)@.removed_at(pos as int);
                &&& r matches Ok(ok)
                &&& final(self)@ == m
                &&& r->Ok_0.0 == t
                &&& r->Ok_0.1 == d
            },
            !(1 <= pos <= old(self)@.tracks.len()) ==> r == Err::<(Track, TransportDirective),
                CommandError,
            >(CommandError::PositionOutOfRange) && final(self)@ == old(self)@,
    {
        let len = self.queue.len();
        if pos < 1 || pos > len {
            return Err(CommandError::PositionOutOfRange);
        }
        let was_active = !self.player.is_idle();
        let removed = self.queue.remove_at(pos);
        if pos == 1 && was_active {
            if self.queue.is_empty() {
                self.player = PlayerState::Idle;
                Ok((removed, TransportDirective { stop_current: true, start: None }))
            } else {
                let head = self.queue.peek(1).clone();
                let for_transport = head.clone();
                self.player = PlayerState::Playing(head);
                Ok((removed, TransportDirective { stop_current: true, start: Some(for_transport) }))
            }
        } else {
            proof {
                if self@.player.is_active() {
                    assert(self.queue@[0] == old(self)@.tracks[0]);
                }
            }
            Ok((removed, TransportDirective::silent()))
        }
    }

    /// Skip the current track: valid only while playing or paused.
    /// Identical to removing position 1; returns the new queue length
    /// (0 means the player is now idle) and the transport directive.
    pub fn skip(&mut self) -> (r: Result<(usize, TransportDirective), CommandError>)
        requires
            old(self).wf(),
        ensures
            final(self).wf(),
            !old(self)@.player.is_active() ==> r == Err::<(usize, TransportDirective),
                CommandError,
            >(CommandError::InvalidState) && final(self)@ == old(self)@,
            old(self)@.player.is_active() ==> {
                let (m, t, d) = old(self)@.removed_at(1);
                &&& r matches Ok(ok)
                &&& final(self)@ == m
                &&& r->Ok_0.0 == final(self)@.tracks.len()
                &&& r->Ok_0.0 + 1 == old(self)@.tracks.len()
                &&& r->Ok_0.1 == d
                &&& (r->Ok_0.0 == 0 ==> final(self)@.player is Idle)
            },
    {
        if self.player.is_idle() {
            return Err(CommandError::InvalidState);
        }
        match self.remove_at(1) {
            Ok((_, directive)) => Ok((self.queue.len(), directive)),
            Err(e) => Err(e),
        }
    }

    /// Swap the tracks at two 1-based positions: fails with
    /// `InvalidArgument` when the positions are equal, with
    /// `PositionOutOfRange` when either is out of bounds; both failures
    /// change nothing. On success returns the two tracks that moved, in
    /// argument order; playback is never interrupted.
    pub fn swap(&mut self, pos_a: usize, pos_b: usize) -> (r: Result<(Track, Track), CommandError>)
        requires
            old(self).wf(),
        ensures
            final(self).wf(),
            pos_a == pos_b ==> r == Err::<(Track, Track), CommandError>(
                CommandError::InvalidArgument,
            ) && final(self)@ == old(self)@,
            pos_a != pos_b && !(1 <= pos_a <= old(self)@.tracks.len() && 1 <= pos_b <= old(
                self,
            )@.tracks.len()) ==> r == Err::<(Track, Track), CommandError>(
                CommandError::PositionOutOfRange,
            ) && final(self)@ == old(self)@,
            pos_a != pos_b && 1 <= pos_a <= old(self)@.tracks.len() && 1 <= pos_b <= old(
                self,
            )@.tracks.len() ==> {
                &&& r matches Ok(ok)
                &&& final(self)@ == old(self)@.swapped(pos_a as int, pos_b as int)
                &&& r->Ok_0.0 == old(self)@.tracks[pos_a - 1]
                &&& r->Ok_0.1 == old(self)@.tracks[pos_b - 1]
            },
    {
        if pos_a == pos_b {
            return Err(CommandError::InvalidArgument);
        }
        let len = self.queue.len();
        if pos_a < 1 || pos_a > len || pos_b < 1 || pos_b > len {
            return Err(CommandError::PositionOutOfRange);
        }
        let moved_a = self.queue.peek(pos_a).clone();
        let moved_b = self.queue.peek(pos_b).clone();
        self.queue.swap(pos_a, pos_b);
        match &self.player {
            PlayerState::Idle => {},
            PlayerState::Playing(_) => {
                let head = self.queue.peek(1).clone();
                self.player = PlayerState::Playing(head);
            },
            PlayerState::Paused(_) => {
                let head = self.queue.peek(1).clone();
                self.player = PlayerState::Paused(head);
            },
        }
        Ok((moved_a, moved_b))
    }

    /// Reorder the positions past 1 by a Fisher-Yates pass driven by the
    /// given picks (one uniform draw per step, supplied by the caller, so
    /// the outcome is pinned down exactly). Position 1 and the player are
    /// never touched, and the tracks past position 1 are only rearranged.
    pub fn shuffle(&mut self, picks: &Vec<u64>)
        requires
            old(self).wf(),
        ensures
            final(self).wf(),
            final(self)@ == old(self)@.shuffled(picks@),
            final(self)@.tracks.len() == old(self)@.tracks.len(),
            old(self)@.tracks.len() > 0 ==> final(self)@.tracks[0] == old(self)@.tracks[0],
            final(self)@.player == old(self)@.player,
            old(self)@.tracks.len() > 0 ==> final(self)@.tracks.subrange(
                1,
                final(self)@.tracks.len() as int,
            ).to_multiset() == old(self)@.tracks.subrange(
                1,
                old(self)@.tracks.len() as int,
            ).to_multiset(),
    {
        self.queue.shuffle_tail(picks);
    }

    /// Pause: valid only while playing.
    pub fn pause(&mut self) -> (r: Result<(), CommandError>)
        requires
            old(self).wf(),
        ensures
            final(self).wf(),
            old(self)@.player is Playing ==> r is Ok && final(self)@ == old(self)@.with_state(
                old(self)@.tracks,
                PlayerState::Paused(old(self)@.player->Playing_0),
            ),
            !(old(self)@.player is Playing) ==> r == Err::<(), CommandError>(
                CommandError::InvalidState,
            ) && final(self)@ == old(self)@,
    {
        match &self.player {
            PlayerState::Playing(t) => {
                let t2 = t.clone();
                self.player = PlayerState::Paused(t2);
                Ok(())
            },
            _ => Err(CommandError::InvalidState),
        }
    }

    /// Resume: valid only while paused.
    pub fn resume(&mut self) -> (r: Result<(), CommandError>)
        requires
            old(self).wf(),
        ensures
            final(self).wf(),
            old(self)@.player is Paused ==> r is Ok && final(self)@ == old(self)@.with_state(
                old(self)@.tracks,
                PlayerState::Playing(old(self)@.player->Paused_0),
            ),
            !(old(self)@.player is Paused) ==> r == Err::<(), CommandError>(
                CommandError::InvalidState,
            ) && final(self)@ == old(self)@,
    {
        match &self.player {
            PlayerState::Paused(t) => {
                let t2 = t.clone();
                self.player = PlayerState::Playing(t2);
                Ok(())
            },
            _ => Err(CommandError::InvalidState),
        }
    }

    /// Stop: valid from any state. Clears the whole queue, goes idle, and
    /// directs the transport to stop whatever was live.
    pub fn stop(&mut self) -> (r: TransportDirective)
        requires
            old(self).wf(),
        ensures
            final(self).wf(),
            final(self)@ == old(self)@.stopped().0,
            r == old(self)@.stopped().1,
    {
        let was_active = !self.player.is_idle();
        self.queue.clear();
        self.player = PlayerState::Idle;
        TransportDirective { stop_current: was_active, start: None }
    }

    /// Roll back a play-start the transport could not perform: the player
    /// reverts to idle and the queue is untouched, so the player never
    /// claims to be playing without a live transport.
    pub fn play_start_failed(&mut self)
        requires
            old(self).wf(),
        ensures
            final(self).wf(),
            final(self)@ == old(self)@.play_start_reverted(),
    {
        self.player = PlayerState::Idle;
    }
}

} // verus!
