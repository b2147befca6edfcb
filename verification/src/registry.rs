//! The process-wide registry: at most one session per guild identifier.
//! Created on join, destroyed on leave or on an external disconnect — both
//! converge on `remove`, which tears the whole session down in one step.
//! In the running system the registry's own map sits behind a brief lock of
//! its own, held only across these insert/remove steps, never across a
//! suspension point; each session then has its own exclusive lock.
use vstd::prelude::*;
use crate::error::CommandError;
use crate::session::{Session, SessionModel, TransportDirective};

verus! {

/// No two entries are for the same guild: the central invariant.
pub open spec fn distinct_guilds(s: Seq<Session>) -> bool {
    forall|i: int, j: int|
        0 <= i < j < s.len() ==> s[i].guild_id != s[j].guild_id
}

pub open spec fn all_wf(s: Seq<Session>) -> bool {
    forall|i: int| 0 <= i < s.len() ==> (#[trigger] s[i]).wf()
}

pub open spec fn seq_contains_guild(s: Seq<Session>, g: u64) -> bool {
    exists|i: int| 0 <= i < s.len() && (#[trigger] s[i]).guild_id == g
}

pub open spec fn seq_index_of(s: Seq<Session>, g: u64) -> int {
    choose|i: int| 0 <= i < s.len() && (#[trigger] s[i]).guild_id == g
}

pub open spec fn seq_session_for(s: Seq<Session>, g: u64) -> SessionModel {
    s[seq_index_of(s, g)]@
}

/// A join for guild `g` into voice channel `v` would be refused: the guild
/// already has a session bound to that very channel.
pub open spec fn seq_join_would_conflict(s: Seq<Session>, g: u64, v: u64) -> bool {
    seq_contains_guild(s, g) && seq_session_for(s, g).voice_channel_id == v
}

/// With distinct guilds, an index holding a guild is the index looked up
/// for it.
pub proof fn lemma_index_of_unique(s: Seq<Session>, i: int, g: u64)
    requires
        distinct_guilds(s),
        0 <= i < s.len(),
        s[i].guild_id == g,
    ensures
        seq_contains_guild(s, g),
        seq_index_of(s, g) == i,
{
    assert(seq_contains_guild(s, g));
    let j = seq_index_of(s, g);
    if j < i {
        assert(s[j].guild_id != s[i].guild_id);
    } else if i < j {
        assert(s[i].guild_id != s[j].guild_id);
    }
}

/// Removing one guild's entry keeps the registry invariant, removes exactly
/// that guild, and leaves every other guild's session untouched.
pub proof fn lemma_remove_guild(s: Seq<Session>, g: u64)
    requires
        distinct_guilds(s),
        all_wf(s),
        seq_contains_guild(s, g),
    ensures
        ({
            let post = s.remove(seq_index_of(s, g));
            &&& distinct_guilds(post)
            &&& all_wf(post)
            &&& !seq_contains_guild(post, g)
            &&& forall|g2: u64|
                g2 != g ==> (seq_contains_guild(post, g2) <==> seq_contains_guild(s, g2))
            &&& forall|g2: u64|
                g2 != g && seq_contains_guild(s, g2) ==> seq_session_for(post, g2)
                    == seq_session_for(s, g2)
        }),
{
    let idx = seq_index_of(s, g);
    assert(0 <= idx < s.len() && s[idx].guild_id == g);
    let post = s.remove(idx);
    assert forall|k: int| 0 <= k < post.len() implies post[k] == (if k < idx {
        s[k]
    } else {
        s[k + 1]
    }) by {}
    assert forall|k: int| 0 <= k < post.len() implies (#[trigger] post[k]).guild_id != g by {
        if k < idx {
            assert(s[k].guild_id != s[idx].guild_id);
        } else {
            assert(s[idx].guild_id != s[k + 1].guild_id);
        }
    }
    assert forall|g2: u64| g2 != g && seq_contains_guild(s, g2) implies seq_contains_guild(
        post,
        g2,
    ) && seq_session_for(post, g2) == seq_session_for(s, g2) by {
        let j = seq_index_of(s, g2);
        lemma_index_of_unique(s, j, g2);
        assert(j != idx);
        let j2 = if j < idx {
            j
        } else {
            j - 1
        };
        assert(post[j2] == s[j]);
        lemma_index_of_unique(post, j2, g2);
    }
    assert forall|g2: u64| g2 != g && seq_contains_guild(post, g2) implies seq_contains_guild(
        s,
        g2,
    ) by {
        let k = choose|k: int| 0 <= k < post.len() && (#[trigger] post[k]).guild_id == g2;
        if k < idx {
            assert(s[k].guild_id == g2);
        } else {
            assert(s[k + 1].guild_id == g2);
        }
    }
}

/// Appending a session for a guild not yet present keeps the invariant,
/// registers exactly that session, and leaves every other guild untouched.
pub proof fn lemma_push_guild(s: Seq<Session>, x: Session)
    requires
        distinct_guilds(s),
        all_wf(s),
        !seq_contains_guild(s, x.guild_id),
        x.wf(),
    ensures
        ({
            let post = s.push(x);
            &&& distinct_guilds(post)
            &&& all_wf(post)
            &&& seq_contains_guild(post, x.guild_id)
            &&& seq_session_for(post, x.guild_id) == x@
            &&& forall|g2: u64|
                g2 != x.guild_id ==> (seq_contains_guild(post, g2) <==> seq_contains_guild(s, g2))
            &&& forall|g2: u64|
                g2 != x.guild_id && seq_contains_guild(s, g2) ==> seq_session_for(post, g2)
                    == seq_session_for(s, g2)
        }),
{
    let post = s.push(x);
    let n = s.len() as int;
    assert forall|k: int| 0 <= k < n implies (#[trigger] post[k]).guild_id != x.guild_id by {
        assert(post[k] == s[k]);
        if s[k].guild_id == x.guild_id {
            assert(seq_contains_guild(s, x.guild_id));
        }
    }
    assert(post[n] == x);
    lemma_index_of_unique(post, n, x.guild_id);
    assert forall|g2: u64| g2 != x.guild_id && seq_contains_guild(s, g2) implies seq_contains_guild(
        post,
        g2,
    ) && seq_session_for(post, g2) == seq_session_for(s, g2) by {
        let j = seq_index_of(s, g2);
        lemma_index_of_unique(s, j, g2);
        assert(post[j] == s[j]);
        lemma_index_of_unique(post, j, g2);
    }
    assert forall|g2: u64| g2 != x.guild_id && seq_contains_guild(post, g2)
        implies seq_contains_guild(s, g2) by {
        let k = choose|k: int| 0 <= k < post.len() && (#[trigger] post[k]).guild_id == g2;
        assert(k != n);
        assert(s[k].guild_id == g2);
    }
}

/// Replacing one guild's session by another session for the same guild
/// keeps the invariant and leaves every other guild untouched.
pub proof fn lemma_update_guild(s: Seq<Session>, x: Session)
    requires
        distinct_guilds(s),
        all_wf(s),
        seq_contains_guild(s, x.guild_id),
        x.wf(),
    ensures
        ({
            let post = s.update(seq_index_of(s, x.guild_id), x);
            &&& distinct_guilds(post)
            &&& all_wf(post)
            &&& seq_contains_guild(post, x.guild_id)
            &&& seq_session_for(post, x.guild_id) == x@
            &&& forall|g2: u64|
                g2 != x.guild_id ==> (seq_contains_guild(post, g2) <==> seq_contains_guild(s, g2))
            &&& forall|g2: u64|
                g2 != x.guild_id && seq_contains_guild(s, g2) ==> seq_session_for(post, g2)
                    == seq_session_for(s, g2)
        }),
{
    let idx = seq_index_of(s, x.guild_id);
    assert(0 <= idx < s.len() && s[idx].guild_id == x.guild_id);
    let post = s.update(idx, x);
    assert forall|k: int| 0 <= k < post.len() implies post[k] == (if k == idx {
        x
    } else {
        s[k]
    }) by {}
    assert forall|i: int, j: int| 0 <= i < j < post.len() implies post[i].guild_id
        != post[j].guild_id by {
        if i == idx {
            assert(s[i].guild_id == x.guild_id);
        } else if j == idx {
            assert(s[j].guild_id == x.guild_id);
        }
    }
    lemma_index_of_unique(post, idx, x.guild_id);
    assert forall|g2: u64| g2 != x.guild_id && seq_contains_guild(s, g2) implies seq_contains_guild(
        post,
        g2,
    ) && seq_session_for(post, g2) == seq_session_for(s, g2) by {
        let j = seq_index_of(s, g2);
        lemma_index_of_unique(s, j, g2);
        assert(j != idx);
        lemma_index_of_unique(post, j, g2);
    }
    assert forall|g2: u64| g2 != x.guild_id && seq_contains_guild(post, g2)
        implies seq_contains_guild(s, g2) by {
        let k = choose|k: int| 0 <= k < post.len() && (#[trigger] post[k]).guild_id == g2;
        assert(k != idx);
        assert(s[k].guild_id == g2);
    }
}

/// Map from guild identifier to that guild's one session.
pub struct SessionRegistry {
    pub sessions: Vec<Session>,
}

/// Every guild but `g` keeps its session untouched between the two
/// registry states: no operation reaches across guild boundaries.
pub open spec fn others_preserved(pre: SessionRegistry, post: SessionRegistry, g: u64) -> bool {
    &&& forall|g2: u64|
        g2 != g ==> (post.contains_guild(g2) <==> pre.contains_guild(g2))
    &&& forall|g2: u64|
        g2 != g && pre.contains_guild(g2) ==> post.session_for(g2) == pre.session_for(g2)
}

/// Preservation of the other guilds is transitive across two steps.
pub proof fn lemma_others_preserved_trans(
    a: SessionRegistry,
    b: SessionRegistry,
    c: SessionRegistry,
    g: u64,
)
    requires
        others_preserved(a, b, g),
        others_preserved(b, c, g),
    ensures
        others_preserved(a, c, g),
{
    assert forall|g2: u64| g2 != g implies (c.contains_guild(g2) <==> a.contains_guild(g2)) by {
        assert(b.contains_guild(g2) <==> a.contains_guild(g2));
    }
    assert forall|g2: u64| g2 != g && a.contains_guild(g2) implies c.session_for(g2)
        == a.session_for(g2) by {
        assert(b.contains_guild(g2));
        assert(b.session_for(g2) == a.session_for(g2));
    }
}

impl SessionRegistry {
    pub open spec fn wf(self) -> bool {
        &&& distinct_guilds(self.sessions@)
        &&& all_wf(self.sessions@)
    }

    pub open spec fn contains_guild(self, g: u64) -> bool {
        seq_contains_guild(self.sessions@, g)
    }

    pub open spec fn session_for(self, g: u64) -> SessionModel {
        seq_session_for(self.sessions@, g)
    }

    /// A join for this guild and voice channel would be refused: the guild
    /// is already bound to that very channel.
    pub open spec fn join_would_conflict(self, g: u64, voice_channel_id: u64) -> bool {
        seq_join_would_conflict(self.sessions@, g, voice_channel_id)
    }

    pub fn new() -> (r: SessionRegistry)
        ensures
            r.wf(),
            forall|g: u64| !r.contains_guild(g),
    {
        SessionRegistry { sessions: Vec::new() }
    }

    /// The number of live sessions.
    pub fn session_count(&self) -> (r: usize)
        ensures
            r == self.sessions@.len(),
    {
        self.sessions.len()
    }

    fn find(&self, guild_id: u64) -> (r: Option<usize>)
        requires
            self.wf(),
        ensures
            r is Some <==> self.contains_guild(guild_id),
            r matches Some(i) ==> i < self.sessions@.len() && self.sessions@[i as int].guild_id
                == guild_id && i as int == seq_index_of(self.sessions@, guild_id),
    {
        let n = self.sessions.len();
        let mut i: usize = 0;
        while i < n
            invariant
                self.wf(),
                n == self.sessions@.len(),
                0 <= i <= n,
                forall|j: int| 0 <= j < i ==> self.sessions@[j].guild_id != guild_id,
            decreases n - i,
        {
            if self.sessions[i].guild_id == guild_id {
                proof {
                    lemma_index_of_unique(self.sessions@, i as int, guild_id);
                }
                return Some(i);
            }
            i = i + 1;
        }
        proof {
            if self.contains_guild(guild_id) {
                let k = seq_index_of(self.sessions@, guild_id);
                lemma_index_of_unique(self.sessions@, k, guild_id);
            }
        }
        None
    }

    /// Read-only access to the guild's session.
    pub fn get(&self, guild_id: u64) -> (r: Option<&Session>)
        requires
            self.wf(),
        ensures
            r is Some <==> self.contains_guild(guild_id),
            r matches Some(s) ==> s@ == self.session_for(guild_id) && s.wf(),
    {
        match self.find(guild_id) {
            Some(i) => Some(&self.sessions[i]),
            None => None,
        }
    }

    /// Whether the guild has a live session — the "bound to a voice
    /// channel" precondition of every mutating command but join.
    pub fn is_connected(&self, guild_id: u64) -> (r: bool)
        requires
            self.wf(),
        ensures
            r == self.contains_guild(guild_id),
    {
        match self.find(guild_id) {
            Some(_) => true,
            None => false,
        }
    }

    /// Take the guild's session out of the map, to operate on it under the
    /// guild's exclusive lock; `put` returns it.
    pub fn take(&mut self, guild_id: u64) -> (r: Option<Session>)
        requires
            old(self).wf(),
        ensures
            final(self).wf(),
            !old(self).contains_guild(guild_id) ==> r is None && *final(self) == *old(self),
            old(self).contains_guild(guild_id) ==> {
                &&& r matches Some(s)
                &&& s@ == old(self).session_for(guild_id)
                &&& s.guild_id == guild_id
                &&& s.wf()
                &&& !final(self).contains_guild(guild_id)
                &&& others_preserved(*old(self), *final(self), guild_id)
            },
    {
        match self.find(guild_id) {
            Some(i) => {
                proof {
                    lemma_remove_guild(self.sessions@, guild_id);
                }
                let s = self.sessions.remove(i);
                Some(s)
            },
            None => None,
        }
    }

    /// Return a session taken with `take` (or a fresh one) to the map.
    pub fn put(&mut self, s: Session)
        requires
            old(self).wf(),
            s.wf(),
            !old(self).contains_guild(s.guild_id),
        ensures
            final(self).wf(),
            final(self).contains_guild(s.guild_id),
            final(self).session_for(s.guild_id) == s@,
            others_preserved(*old(self), *final(self), s.guild_id),
    {
        proof {
            lemma_push_guild(self.sessions@, s);
        }
        self.sessions.push(s);
    }

    /// Create the guild's session bound to the caller's voice channel, or
    /// rebind an existing session to a new channel. Fails with
    /// `AlreadyConnected` — and changes nothing — only when the guild's
    /// session is already bound to that very channel. Returns whether a
    /// session was created (as opposed to rebound).
    pub fn get_or_create(&mut self, guild_id: u64, voice_channel_id: u64, reply_channel_id: u64)
        -> (r: Result<bool, CommandError>)
        requires
            old(self).wf(),
        ensures
            final(self).wf(),
            old(self).join_would_conflict(guild_id, voice_channel_id) ==> r == Err::<
                bool,
                CommandError,
            >(CommandError::AlreadyConnected) && *final(self) == *old(self),
            !old(self).join_would_conflict(guild_id, voice_channel_id) ==> {
                &&& r == Ok::<bool, CommandError>(!old(self).contains_guild(guild_id))
                &&& final(self).contains_guild(guild_id)
                &&& final(self).session_for(guild_id).guild_id == guild_id
                &&& final(self).session_for(guild_id).voice_channel_id == voice_channel_id
                &&& final(self).session_for(guild_id).reply_channel_id == reply_channel_id
                &&& (old(self).contains_guild(guild_id) ==> final(self).session_for(guild_id).tracks
                    == old(self).session_for(guild_id).tracks && final(self).session_for(
                    guild_id,
                ).player == old(self).session_for(guild_id).player)
                &&& (!old(self).contains_guild(guild_id) ==> final(self).session_for(
                    guild_id,
                ).tracks.len() == 0 && final(self).session_for(guild_id).player is Idle)
                &&& others_preserved(*old(self), *final(self), guild_id)
            },
    {
        match self.find(guild_id) {
            Some(i) => {
                if self.sessions[i].voice_channel_id == voice_channel_id {
                    return Err(CommandError::AlreadyConnected);
                }
                let ghost pre = self.sessions@;
                let mut s = self.sessions.remove(i);
                s.voice_channel_id = voice_channel_id;
                s.reply_channel_id = reply_channel_id;
                self.sessions.insert(i, s);
                proof {
                    assert(self.sessions@ =~= pre.update(i as int, self.sessions@[i as int]));
                    lemma_update_guild(pre, self.sessions@[i as int]);
                }
                Ok(false)
            },
            None => {
                let s = Session::new(guild_id, voice_channel_id, reply_channel_id);
                proof {
                    lemma_push_guild(self.sessions@, s);
                }
                self.sessions.push(s);
                Ok(true)
            },
        }
    }

    /// Tear the guild's session down in one step: the queue, the player and
    /// the voice binding all go at once, and the transport is told to stop
    /// anything live. Safe to call for a guild with no session.
    pub fn remove(&mut self, guild_id: u64) -> (r: Option<TransportDirective>)
        requires
            old(self).wf(),
        ensures
            final(self).wf(),
            !old(self).contains_guild(guild_id) ==> r is None && *final(self) == *old(self),
            old(self).contains_guild(guild_id) ==> {
                &&& r matches Some(d)
                &&& d.stop_current == old(self).session_for(guild_id).player.is_active()
                &&& d.start is None
                &&& !final(self).contains_guild(guild_id)
                &&& others_preserved(*old(self), *final(self), guild_id)
            },
    {
        match self.take(guild_id) {
            Some(s) => {
                let stop = !s.player.is_idle();
                Some(TransportDirective { stop_current: stop, start: None })
            },
            None => None,
        }
    }
}

/// Destroying a guild's session frees its registry slot: after the removal
/// a join for that guild cannot be refused as already connected, whatever
/// voice channel the caller now occupies.
pub proof fn lemma_leave_then_join(pre: Seq<Session>, g: u64)
    requires
        distinct_guilds(pre),
        all_wf(pre),
        seq_contains_guild(pre, g),
    ensures
        ({
            let post = pre.remove(seq_index_of(pre, g));
            &&& !seq_contains_guild(post, g)
            &&& forall|v: u64| !seq_join_would_conflict(post, g, v)
        }),
{
    lemma_remove_guild(pre, g);
}

} // verus!
