//! The command adapter: validates arguments, checks preconditions, drives
//! the guild's session, and formats the reply. Each function is one command
//! as a user issues it, taken with plain values; the gateway that parses
//! command text and the transport that streams audio sit outside and act on
//! the returned reply and transport directive. Validation is pure: nothing
//! is mutated until every check has passed.
use vstd::prelude::*;
use vstd::string::StringExecFns;
use crate::error::CommandError;
use crate::numfmt::{dec_str, u64_to_string};
use crate::player::PlayerState;
use crate::queue::Placement;
use crate::registry::{lemma_others_preserved_trans, others_preserved, SessionRegistry};
use crate::session::TransportDirective;
use crate::track::Track;
use crate::validate::{
    dec_value, is_absolute_url, is_valid_position_arg, parse_position, stripped, validate_url,
};

verus! {

/// What a command hands back on success: the text to send to the reply
/// channel, and what the audio transport must do.
#[derive(Debug)]
pub struct Reply {
    pub message: String,
    pub transport: TransportDirective,
}

pub open spec fn joined_reply_message(voice_channel_id: u64) -> Seq<char> {
    "Joined <#"@ + dec_str(voice_channel_id as nat) + ">"@
}

pub open spec fn play_reply_message(prior_len: int) -> Seq<char> {
    if prior_len == 0 {
        "Started playing the song"@
    } else {
        "Added song to queue: position "@ + dec_str(prior_len as nat)
    }
}

pub open spec fn swap_reply_message(moved_a: Track, moved_b: Track) -> Seq<char> {
    "Swapped `"@ + moved_a.spec_display_name() + "` and `"@ + moved_b.spec_display_name() + "`"@
}

pub open spec fn skip_reply_message(remaining: int) -> Seq<char> {
    "Song skipped: "@ + dec_str(remaining as nat) + " in queue."@
}

pub open spec fn removed_reply_message(removed: Track) -> Seq<char> {
    "Removed: `"@ + removed.spec_display_name() + "`"@
}

pub open spec fn now_playing_message(current: Option<Track>) -> Seq<char> {
    match current {
        Some(t) => "Now playing: `"@ + t.spec_display_name() + "`"@,
        None => "Nothing is playing"@,
    }
}

/// One numbered line per track, 1-based, from index `i` on.
pub open spec fn listing_from(tracks: Seq<Track>, i: int) -> Seq<char>
    decreases tracks.len() - i,
{
    if i < 0 || i >= tracks.len() {
        Seq::empty()
    } else {
        dec_str((i + 1) as nat) + ". "@ + tracks[i].spec_display_name() + "\n"@ + listing_from(
            tracks,
            i + 1,
        )
    }
}

pub open spec fn queue_listing(tracks: Seq<Track>) -> Seq<char> {
    if tracks.len() == 0 {
        "Queue is empty"@
    } else {
        listing_from(tracks, 0)
    }
}

/// Create the guild's session, binding it to the caller's voice channel,
/// or rebind an existing session to the caller's new channel. A caller in
/// no voice channel is refused; a session already bound to the caller's
/// channel is refused as already connected.
pub fn join(
    reg: &mut SessionRegistry,
    guild_id: u64,
    caller_voice_channel: Option<u64>,
    reply_channel_id: u64,
) -> (r: Result<Reply, CommandError>)
    requires
        old(reg).wf(),
    ensures
        final(reg).wf(),
        caller_voice_channel is None ==> r == Err::<Reply, CommandError>(CommandError::PreconditionFailed)
            && *final(reg) == *old(reg),
        caller_voice_channel matches Some(v) ==> {
            &&& (old(reg).join_would_conflict(guild_id, v) ==> r == Err::<Reply, CommandError>(
                CommandError::AlreadyConnected,
            ) && *final(reg) == *old(reg))
            &&& (!old(reg).join_would_conflict(guild_id, v) ==> {
            &&& r matches Ok(rep)
            &&& rep.message@ == joined_reply_message(v)
            &&& rep.transport == TransportDirective::spec_silent()
            &&& final(reg).contains_guild(guild_id)
            &&& final(reg).session_for(guild_id).guild_id == guild_id
            &&& final(reg).session_for(guild_id).voice_channel_id == v
            &&& final(reg).session_for(guild_id).reply_channel_id == reply_channel_id
            &&& (!old(reg).contains_guild(guild_id) ==> final(reg).session_for(
                guild_id,
            ).tracks.len() == 0 && final(reg).session_for(guild_id).player is Idle)
            &&& (old(reg).contains_guild(guild_id) ==> final(reg).session_for(guild_id).tracks
                == old(reg).session_for(guild_id).tracks && final(reg).session_for(guild_id).player
                == old(reg).session_for(guild_id).player)
            &&& others_preserved(*old(reg), *final(reg), guild_id)
            })
        },
{
    let v = match caller_voice_channel {
        Some(v) => v,
        None => {
            return Err(CommandError::PreconditionFailed);
        },
    };
    match reg.get_or_create(guild_id, v, reply_channel_id) {
        Ok(_) => {
            let num = u64_to_string(v);
            let message = String::from_str("Joined <#").concat(num.as_str()).concat(">");
            proof {
                assert(message@ =~= joined_reply_message(v));
            }
            Ok(Reply { message, transport: TransportDirective::silent() })
        },
        Err(e) => Err(e),
    }
}

/// Destroy the guild's session: queue, player and voice binding go in one
/// step, and anything live is stopped. Refused when no session exists.
pub fn leave(reg: &mut SessionRegistry, guild_id: u64) -> (r: Result<Reply, CommandError>)
    requires
        old(reg).wf(),
    ensures
        final(reg).wf(),
        !old(reg).contains_guild(guild_id) ==> r == Err::<Reply, CommandError>(CommandError::PreconditionFailed) && *final(reg) == *old(reg),
        old(reg).contains_guild(guild_id) ==> {
            &&& r matches Ok(rep)
            &&& rep.message@ == "Left voice"@
            &&& rep.transport.stop_current == old(reg).session_for(guild_id).player.is_active()
            &&& rep.transport.start is None
            &&& !final(reg).contains_guild(guild_id)
            &&& others_preserved(*old(reg), *final(reg), guild_id)
        },
{
    match reg.remove(guild_id) {
        Some(d) => Ok(Reply { message: String::from_str("Left voice"), transport: d }),
        None => Err(CommandError::PreconditionFailed),
    }
}

/// Enqueue a URL at the back of the guild's queue. Into an empty queue the
/// track starts playing at once and the reply says so; otherwise the reply
/// names the track's queue position (counted behind position 1).
pub fn play(reg: &mut SessionRegistry, guild_id: u64, url_arg: &str, requested_by: u64) -> (r:
    Result<Reply, CommandError>)
    requires
        old(reg).wf(),
    ensures
        final(reg).wf(),
        !old(reg).contains_guild(guild_id) ==> r == Err::<Reply, CommandError>(CommandError::PreconditionFailed) && *final(reg) == *old(reg),
        old(reg).contains_guild(guild_id) && !is_absolute_url(stripped(url_arg@)) ==> r == Err::<Reply, CommandError>(CommandError::InvalidArgument) && *final(reg) == *old(reg),
        old(reg).contains_guild(guild_id) && is_absolute_url(stripped(url_arg@)) ==> {
            let m0 = old(reg).session_for(guild_id);
            let m1 = final(reg).session_for(guild_id);
            &&& r matches Ok(rep)
            &&& final(reg).contains_guild(guild_id)
            &&& m1.guild_id == m0.guild_id
            &&& m1.voice_channel_id == m0.voice_channel_id
            &&& m1.reply_channel_id == m0.reply_channel_id
            &&& m1.tracks.len() == m0.tracks.len() + 1
            &&& m1.tracks.drop_last() == m0.tracks
            &&& m1.tracks.last().url@ == stripped(url_arg@)
            &&& m1.tracks.last().title is None
            &&& m1.tracks.last().requested_by == requested_by
            &&& (m0.tracks.len() == 0 ==> m1.player == PlayerState::Playing(m1.tracks[0])
                && rep.transport.start == Some(m1.tracks[0]))
            &&& (m0.tracks.len() > 0 ==> m1.player == m0.player && rep.transport.start is None)
            &&& rep.transport.stop_current == false
            &&& rep.message@ == play_reply_message(m0.tracks.len() as int)
            &&& others_preserved(*old(reg), *final(reg), guild_id)
        },
{
    if !reg.is_connected(guild_id) {
        return Err(CommandError::PreconditionFailed);
    }
    let url = match validate_url(url_arg) {
        Some(u) => u,
        None => {
            return Err(CommandError::InvalidArgument);
        },
    };
    let ghost pre = *reg;
    let mut s = match reg.take(guild_id) {
        Some(s) => s,
        None => {
            return Err(CommandError::PreconditionFailed);
        },
    };
    let ghost mid = *reg;
    let ghost m0 = s@;
    let track = Track::new(url, requested_by);
    let (new_len, started) = s.enqueue(track, Placement::Back);
    proof {
        if m0.tracks.len() == 0 {
            assert(s@.tracks =~= seq![s@.tracks[0]]);
        }
        assert(s@.tracks.drop_last() =~= m0.tracks);
    }
    let prior_len = new_len - 1;
    let message = if prior_len == 0 {
        String::from_str("Started playing the song")
    } else {
        String::from_str("Added song to queue: position ").concat(
            u64_to_string(prior_len as u64).as_str(),
        )
    };
    proof {
        assert(message@ =~= play_reply_message(m0.tracks.len() as int));
    }
    let transport = TransportDirective { stop_current: false, start: started };
    reg.put(s);
    proof {
        lemma_others_preserved_trans(pre, mid, *reg, guild_id);
    }
    Ok(Reply { message, transport })
}

/// Enqueue a URL as the next track: right behind the active track, or at
/// position 1 when the player is idle; into an empty queue it starts
/// playing at once. Position 1 is never displaced while something is
/// playing or paused.
pub fn play_next(reg: &mut SessionRegistry, guild_id: u64, url_arg: &str, requested_by: u64) -> (r:
    Result<Reply, CommandError>)
    requires
        old(reg).wf(),
    ensures
        final(reg).wf(),
        !old(reg).contains_guild(guild_id) ==> r == Err::<Reply, CommandError>(CommandError::PreconditionFailed) && *final(reg) == *old(reg),
        old(reg).contains_guild(guild_id) && !is_absolute_url(stripped(url_arg@)) ==> r == Err::<Reply, CommandError>(CommandError::InvalidArgument) && *final(reg) == *old(reg),
        old(reg).contains_guild(guild_id) && is_absolute_url(stripped(url_arg@)) ==> {
            let m0 = old(reg).session_for(guild_id);
            let m1 = final(reg).session_for(guild_id);
            let at = if m0.tracks.len() == 0 || m0.player is Idle {
                0int
            } else {
                1int
            };
            &&& r matches Ok(rep)
            &&& final(reg).contains_guild(guild_id)
            &&& m1.guild_id == m0.guild_id
            &&& m1.voice_channel_id == m0.voice_channel_id
            &&& m1.reply_channel_id == m0.reply_channel_id
            &&& m1.tracks.len() == m0.tracks.len() + 1
            &&& m1.tracks.remove(at) == m0.tracks
            &&& m1.tracks[at].url@ == stripped(url_arg@)
            &&& m1.tracks[at].title is None
            &&& m1.tracks[at].requested_by == requested_by
            &&& (m0.player.is_active() ==> m1.tracks[0] == m0.tracks[0] && m1.tracks[1]
                == m1.tracks[at])
            &&& (m0.tracks.len() == 0 ==> m1.player == PlayerState::Playing(m1.tracks[0])
                && rep.transport.start == Some(m1.tracks[0]))
            &&& (m0.tracks.len() > 0 ==> m1.player == m0.player && rep.transport.start is None)
            &&& rep.transport.stop_current == false
            &&& rep.message@ == "Added song to front of queue"@
            &&& others_preserved(*old(reg), *final(reg), guild_id)
        },
{
    if !reg.is_connected(guild_id) {
        return Err(CommandError::PreconditionFailed);
    }
    let url = match validate_url(url_arg) {
        Some(u) => u,
        None => {
            return Err(CommandError::InvalidArgument);
        },
    };
    let ghost pre = *reg;
    let mut s = match reg.take(guild_id) {
        Some(s) => s,
        None => {
            return Err(CommandError::PreconditionFailed);
        },
    };
    let ghost mid = *reg;
    let ghost m0 = s@;
    let track = Track::new(url, requested_by);
    let (_, started) = s.enqueue(track, Placement::Front);
    proof {
        if m0.tracks.len() == 0 {
            assert(s@.tracks =~= seq![s@.tracks[0]]);
            assert(s@.tracks.remove(0) =~= m0.tracks);
        } else if m0.player is Idle {
            assert(s@.tracks.remove(0) =~= m0.tracks);
        } else {
            assert(s@.tracks.remove(1) =~= m0.tracks);
        }
    }
    let transport = TransportDirective { stop_current: false, start: started };
    reg.put(s);
    proof {
        lemma_others_preserved_trans(pre, mid, *reg, guild_id);
    }
    Ok(Reply { message: String::from_str("Added song to front of queue"), transport })
}

/// Swap the tracks at two 1-based positions, given as the user typed them.
/// A pure reorder: playback is never interrupted, and the reply names the
/// two tracks that moved.
pub fn swap(reg: &mut SessionRegistry, guild_id: u64, pos_a_arg: &str, pos_b_arg: &str) -> (r:
    Result<Reply, CommandError>)
    requires
        old(reg).wf(),
    ensures
        final(reg).wf(),
        !old(reg).contains_guild(guild_id) ==> r == Err::<Reply, CommandError>(CommandError::PreconditionFailed) && *final(reg) == *old(reg),
        old(reg).contains_guild(guild_id) && !(is_valid_position_arg(pos_a_arg@)
            && is_valid_position_arg(pos_b_arg@)) ==> r == Err::<Reply, CommandError>(CommandError::InvalidArgument) && *final(reg) == *old(reg),
        old(reg).contains_guild(guild_id) && is_valid_position_arg(pos_a_arg@)
            && is_valid_position_arg(pos_b_arg@) ==> {
            let a = dec_value(pos_a_arg@) as int;
            let b = dec_value(pos_b_arg@) as int;
            let m0 = old(reg).session_for(guild_id);
            &&& (a == b ==> r == Err::<Reply, CommandError>(CommandError::InvalidArgument) && final(reg).contains_guild(guild_id) && final(reg).session_for(guild_id) == m0
                && others_preserved(*old(reg), *final(reg), guild_id))
            &&& (a != b && !(1 <= a <= m0.tracks.len() && 1 <= b <= m0.tracks.len()) ==> r == Err::<
                Reply,
                CommandError,
            >(CommandError::PositionOutOfRange) && final(reg).contains_guild(guild_id)
                && final(reg).session_for(guild_id) == m0
                && others_preserved(*old(reg), *final(reg), guild_id))
            &&& (a != b && 1 <= a <= m0.tracks.len() && 1 <= b <= m0.tracks.len() ==> {
                &&& r matches Ok(rep)
                &&& final(reg).contains_guild(guild_id)
                &&& final(reg).session_for(guild_id) == m0.swapped(a, b)
                &&& rep.message@ == swap_reply_message(m0.tracks[a - 1], m0.tracks[b - 1])
                &&& rep.transport == TransportDirective::spec_silent()
                &&& others_preserved(*old(reg), *final(reg), guild_id)
            })
        },
{
    if !reg.is_connected(guild_id) {
        return Err(CommandError::PreconditionFailed);
    }
    let pos_a = match parse_position(pos_a_arg) {
        Some(p) => p,
        None => {
            return Err(CommandError::InvalidArgument);
        },
    };
    let pos_b = match parse_position(pos_b_arg) {
        Some(p) => p,
        None => {
            return Err(CommandError::InvalidArgument);
        },
    };
    let ghost pre = *reg;
    let mut s = match reg.take(guild_id) {
        Some(s) => s,
        None => {
            return Err(CommandError::PreconditionFailed);
        },
    };
    let ghost mid = *reg;
    let ghost m0 = s@;
    match s.swap(pos_a, pos_b) {
        Ok((moved_a, moved_b)) => {
            let name_a = moved_a.display_name();
            let name_b = moved_b.display_name();
            let message = String::from_str("Swapped `").concat(name_a.as_str()).concat(
                "` and `",
            ).concat(name_b.as_str()).concat("`");
            proof {
                assert(message@ =~= swap_reply_message(
                    m0.tracks[pos_a - 1],
                    m0.tracks[pos_b - 1],
                ));
            }
            reg.put(s);
            proof {
                lemma_others_preserved_trans(pre, mid, *reg, guild_id);
            }
            Ok(Reply { message, transport: TransportDirective::silent() })
        },
        Err(e) => {
            reg.put(s);
            proof {
                lemma_others_preserved_trans(pre, mid, *reg, guild_id);
            }
            Err(e)
        },
    }
}

/// Reorder the positions past 1 by a Fisher-Yates pass over the given
/// picks (one uniform random draw per step, supplied by the caller, which
/// keeps this step deterministic). Position 1 and the player are never
/// touched.
pub fn shuffle(reg: &mut SessionRegistry, guild_id: u64, picks: &Vec<u64>) -> (r: Result<
    Reply,
    CommandError,
>)
    requires
        old(reg).wf(),
    ensures
        final(reg).wf(),
        !old(reg).contains_guild(guild_id) ==> r == Err::<Reply, CommandError>(CommandError::PreconditionFailed) && *final(reg) == *old(reg),
        old(reg).contains_guild(guild_id) ==> {
            let m0 = old(reg).session_for(guild_id);
            let m1 = final(reg).session_for(guild_id);
            &&& r matches Ok(rep)
            &&& final(reg).contains_guild(guild_id)
            &&& m1 == m0.shuffled(picks@)
            &&& m1.tracks.len() == m0.tracks.len()
            &&& (m0.tracks.len() > 0 ==> m1.tracks[0] == m0.tracks[0])
            &&& (m0.tracks.len() > 0 ==> m1.tracks.subrange(1, m1.tracks.len() as int)
                .to_multiset() == m0.tracks.subrange(1, m0.tracks.len() as int).to_multiset())
            &&& m1.player == m0.player
            &&& rep.message@ == "Queue Shuffled :game_die:!"@
            &&& rep.transport == TransportDirective::spec_silent()
            &&& others_preserved(*old(reg), *final(reg), guild_id)
        },
{
    let ghost pre = *reg;
    let mut s = match reg.take(guild_id) {
        Some(s) => s,
        None => {
            return Err(CommandError::PreconditionFailed);
        },
    };
    let ghost mid = *reg;
    s.shuffle(picks);
    reg.put(s);
    proof {
        lemma_others_preserved_trans(pre, mid, *reg, guild_id);
    }
    Ok(Reply {
        message: String::from_str("Queue Shuffled :game_die:!"),
        transport: TransportDirective::silent(),
    })
}

/// Skip the current track and advance to the next (or to idle); the reply
/// reports how many tracks remain.
pub fn skip(reg: &mut SessionRegistry, guild_id: u64) -> (r: Result<Reply, CommandError>)
    requires
        old(reg).wf(),
    ensures
        final(reg).wf(),
        !old(reg).contains_guild(guild_id) ==> r == Err::<Reply, CommandError>(CommandError::PreconditionFailed) && *final(reg) == *old(reg),
        old(reg).contains_guild(guild_id) ==> {
            let m0 = old(reg).session_for(guild_id);
            let m1 = final(reg).session_for(guild_id);
            &&& (!m0.player.is_active() ==> r == Err::<Reply, CommandError>(CommandError::InvalidState)
                && final(reg).contains_guild(guild_id) && m1 == m0 && others_preserved(
                *old(reg),
                *final(reg),
                guild_id,
            ))
            &&& (m0.player.is_active() ==> {
                &&& r matches Ok(rep)
                &&& final(reg).contains_guild(guild_id)
                &&& m1 == m0.removed_at(1).0
                &&& m1.tracks.len() + 1 == m0.tracks.len()
                &&& (m1.tracks.len() == 0 ==> m1.player is Idle)
                &&& rep.transport == m0.removed_at(1).2
                &&& rep.message@ == skip_reply_message(m0.tracks.len() - 1)
                &&& others_preserved(*old(reg), *final(reg), guild_id)
            })
        },
{
    let ghost pre = *reg;
    let mut s = match reg.take(guild_id) {
        Some(s) => s,
        None => {
            return Err(CommandError::PreconditionFailed);
        },
    };
    let ghost mid = *reg;
    let ghost m0 = s@;
    match s.skip() {
        Ok((remaining, directive)) => {
            let message = String::from_str("Song skipped: ").concat(
                u64_to_string(remaining as u64).as_str(),
            ).concat(" in queue.");
            proof {
                assert(message@ =~= skip_reply_message(m0.tracks.len() - 1));
            }
            reg.put(s);
            proof {
                lemma_others_preserved_trans(pre, mid, *reg, guild_id);
            }
            Ok(Reply { message, transport: directive })
        },
        Err(e) => {
            reg.put(s);
            proof {
                lemma_others_preserved_trans(pre, mid, *reg, guild_id);
            }
            Err(e)
        },
    }
}

/// Pause the playing track.
pub fn pause(reg: &mut SessionRegistry, guild_id: u64) -> (r: Result<Reply, CommandError>)
    requires
        old(reg).wf(),
    ensures
        final(reg).wf(),
        !old(reg).contains_guild(guild_id) ==> r == Err::<Reply, CommandError>(CommandError::PreconditionFailed) && *final(reg) == *old(reg),
        old(reg).contains_guild(guild_id) ==> {
            let m0 = old(reg).session_for(guild_id);
            let m1 = final(reg).session_for(guild_id);
            &&& (!(m0.player is Playing) ==> r == Err::<Reply, CommandError>(CommandError::InvalidState)
                && final(reg).contains_guild(guild_id) && m1 == m0 && others_preserved(
                *old(reg),
                *final(reg),
                guild_id,
            ))
            &&& (m0.player is Playing ==> {
                &&& r matches Ok(rep)
                &&& final(reg).contains_guild(guild_id)
                &&& m1 == m0.with_state(m0.tracks, PlayerState::Paused(m0.player->Playing_0))
                &&& rep.message@ == "Track paused"@
                &&& rep.transport == TransportDirective::spec_silent()
                &&& others_preserved(*old(reg), *final(reg), guild_id)
            })
        },
{
    let ghost pre = *reg;
    let mut s = match reg.take(guild_id) {
        Some(s) => s,
        None => {
            return Err(CommandError::PreconditionFailed);
        },
    };
    let ghost mid = *reg;
    let outcome = s.pause();
    reg.put(s);
    proof {
        lemma_others_preserved_trans(pre, mid, *reg, guild_id);
    }
    match outcome {
        Ok(()) => Ok(Reply {
            message: String::from_str("Track paused"),
            transport: TransportDirective::silent(),
        }),
        Err(e) => Err(e),
    }
}

/// Resume the paused track.
pub fn resume(reg: &mut SessionRegistry, guild_id: u64) -> (r: Result<Reply, CommandError>)
    requires
        old(reg).wf(),
    ensures
        final(reg).wf(),
        !old(reg).contains_guild(guild_id) ==> r == Err::<Reply, CommandError>(CommandError::PreconditionFailed) && *final(reg) == *old(reg),
        old(reg).contains_guild(guild_id) ==> {
            let m0 = old(reg).session_for(guild_id);
            let m1 = final(reg).session_for(guild_id);
            &&& (!(m0.player is Paused) ==> r == Err::<Reply, CommandError>(CommandError::InvalidState)
                && final(reg).contains_guild(guild_id) && m1 == m0 && others_preserved(
                *old(reg),
                *final(reg),
                guild_id,
            ))
            &&& (m0.player is Paused ==> {
                &&& r matches Ok(rep)
                &&& final(reg).contains_guild(guild_id)
                &&& m1 == m0.with_state(m0.tracks, PlayerState::Playing(m0.player->Paused_0))
                &&& rep.message@ == "Track resumed"@
                &&& rep.transport == TransportDirective::spec_silent()
                &&& others_preserved(*old(reg), *final(reg), guild_id)
            })
        },
{
    let ghost pre = *reg;
    let mut s = match reg.take(guild_id) {
        Some(s) => s,
        None => {
            return Err(CommandError::PreconditionFailed);
        },
    };
    let ghost mid = *reg;
    let outcome = s.resume();
    reg.put(s);
    proof {
        lemma_others_preserved_trans(pre, mid, *reg, guild_id);
    }
    match outcome {
        Ok(()) => Ok(Reply {
            message: String::from_str("Track resumed"),
            transport: TransportDirective::silent(),
        }),
        Err(e) => Err(e),
    }
}

/// Stop playback and clear the whole queue; valid from any player state.
pub fn stop(reg: &mut SessionRegistry, guild_id: u64) -> (r: Result<Reply, CommandError>)
    requires
        old(reg).wf(),
    ensures
        final(reg).wf(),
        !old(reg).contains_guild(guild_id) ==> r == Err::<Reply, CommandError>(CommandError::PreconditionFailed) && *final(reg) == *old(reg),
        old(reg).contains_guild(guild_id) ==> {
            let m0 = old(reg).session_for(guild_id);
            let m1 = final(reg).session_for(guild_id);
            &&& r matches Ok(rep)
            &&& final(reg).contains_guild(guild_id)
            &&& m1 == m0.stopped().0
            &&& m1.tracks.len() == 0
            &&& m1.player is Idle
            &&& rep.transport == m0.stopped().1
            &&& rep.message@ == "Queue cleared."@
            &&& others_preserved(*old(reg), *final(reg), guild_id)
        },
{
    let ghost pre = *reg;
    let mut s = match reg.take(guild_id) {
        Some(s) => s,
        None => {
            return Err(CommandError::PreconditionFailed);
        },
    };
    let ghost mid = *reg;
    let directive = s.stop();
    reg.put(s);
    proof {
        lemma_others_preserved_trans(pre, mid, *reg, guild_id);
    }
    Ok(Reply { message: String::from_str("Queue cleared."), transport: directive })
}

/// Remove the track at a 1-based position (default 1 when no argument is
/// given); removing position 1 advances playback like a skip. The reply
/// names the removed track.
pub fn remove_at(reg: &mut SessionRegistry, guild_id: u64, pos_arg: Option<&str>) -> (r: Result<
    Reply,
    CommandError,
>)
    requires
        old(reg).wf(),
    ensures
        final(reg).wf(),
        !old(reg).contains_guild(guild_id) ==> r == Err::<Reply, CommandError>(CommandError::PreconditionFailed) && *final(reg) == *old(reg),
        pos_arg matches Some(a) ==> (old(reg).contains_guild(guild_id) && !is_valid_position_arg(
            a@,
        ) ==> r == Err::<Reply, CommandError>(CommandError::InvalidArgument) && *final(reg) == *old(
            reg,
        )),
        old(reg).contains_guild(guild_id) && (match pos_arg {
            Some(a) => is_valid_position_arg(a@),
            None => true,
        }) ==> {
            let pos = match pos_arg {
                Some(a) => dec_value(a@) as int,
                None => 1int,
            };
            let m0 = old(reg).session_for(guild_id);
            let m1 = final(reg).session_for(guild_id);
            &&& (!(1 <= pos <= m0.tracks.len()) ==> r == Err::<Reply, CommandError>(CommandError::PositionOutOfRange) && final(reg).contains_guild(guild_id) && m1
                == m0 && others_preserved(*old(reg), *final(reg), guild_id))
            &&& (1 <= pos <= m0.tracks.len() ==> {
                &&& r matches Ok(rep)
                &&& final(reg).contains_guild(guild_id)
                &&& m1 == m0.removed_at(pos).0
                &&& rep.transport == m0.removed_at(pos).2
                &&& rep.message@ == removed_reply_message(m0.tracks[pos - 1])
                &&& others_preserved(*old(reg), *final(reg), guild_id)
            })
        },
{
    if !reg.is_connected(guild_id) {
        return Err(CommandError::PreconditionFailed);
    }
    let pos: usize = match pos_arg {
        Some(a) => match parse_position(a) {
            Some(p) => p,
            None => {
                return Err(CommandError::InvalidArgument);
            },
        },
        None => 1,
    };
    let ghost pre = *reg;
    let mut s = match reg.take(guild_id) {
        Some(s) => s,
        None => {
            return Err(CommandError::PreconditionFailed);
        },
    };
    let ghost mid = *reg;
    let ghost m0 = s@;
    match s.remove_at(pos) {
        Ok((removed, directive)) => {
            let name = removed.display_name();
            let message = String::from_str("Removed: `").concat(name.as_str()).concat("`");
            proof {
                assert(message@ =~= removed_reply_message(m0.tracks[pos - 1]));
            }
            reg.put(s);
            proof {
                lemma_others_preserved_trans(pre, mid, *reg, guild_id);
            }
            Ok(Reply { message, transport: directive })
        },
        Err(e) => {
            reg.put(s);
            proof {
                lemma_others_preserved_trans(pre, mid, *reg, guild_id);
            }
            Err(e)
        },
    }
}

/// Report the current track, if any. Read-only: no precondition, no
/// mutation.
pub fn now_playing(reg: &SessionRegistry, guild_id: u64) -> (r: Reply)
    requires
        reg.wf(),
    ensures
        r.transport == TransportDirective::spec_silent(),
        reg.contains_guild(guild_id) ==> r.message@ == now_playing_message(
            reg.session_for(guild_id).player.current(),
        ),
        !reg.contains_guild(guild_id) ==> r.message@ == now_playing_message(None::<Track>),
{
    match reg.get(guild_id) {
        Some(s) => match s.now_playing() {
            Some(t) => {
                let name = t.display_name();
                let message = String::from_str("Now playing: `").concat(name.as_str()).concat("`");
                proof {
                    assert(message@ =~= now_playing_message(s@.player.current()));
                }
                Reply { message, transport: TransportDirective::silent() }
            },
            None => Reply {
                message: String::from_str("Nothing is playing"),
                transport: TransportDirective::silent(),
            },
        },
        None => Reply {
            message: String::from_str("Nothing is playing"),
            transport: TransportDirective::silent(),
        },
    }
}

/// Format the whole queue, one numbered line per track. Read-only: no
/// precondition, no mutation; a guild with no session shows an empty
/// queue.
pub fn queue(reg: &SessionRegistry, guild_id: u64) -> (r: Reply)
    requires
        reg.wf(),
    ensures
        r.transport == TransportDirective::spec_silent(),
        reg.contains_guild(guild_id) ==> r.message@ == queue_listing(
            reg.session_for(guild_id).tracks,
        ),
        !reg.contains_guild(guild_id) ==> r.message@ == queue_listing(Seq::empty()),
{
    let s = match reg.get(guild_id) {
        Some(s) => s,
        None => {
            return Reply {
                message: String::from_str("Queue is empty"),
                transport: TransportDirective::silent(),
            };
        },
    };
    let n = s.queue_len();
    if n == 0 {
        return Reply {
            message: String::from_str("Queue is empty"),
            transport: TransportDirective::silent(),
        };
    }
    let mut message = String::new();
    let mut i: usize = 0;
    while i < n
        invariant
            0 <= i <= n,
            n == s@.tracks.len(),
            message@ + listing_from(s@.tracks, i as int) == listing_from(s@.tracks, 0),
        decreases n - i,
    {
        let ghost before = message@;
        let t = match s.track_at(i + 1) {
            Some(t) => t,
            None => {
                proof {
                    assert(false);
                }
                return Reply {
                    message: String::from_str("Queue is empty"),
                    transport: TransportDirective::silent(),
                };
            },
        };
        let name = t.display_name();
        let line = u64_to_string((i + 1) as u64).concat(". ").concat(name.as_str()).concat("\n");
        message.append(line.as_str());
        proof {
            assert(line@ =~= dec_str((i + 1) as nat) + ". "@ + s@.tracks[i as int]
                .spec_display_name() + "\n"@);
            assert(listing_from(s@.tracks, i as int) =~= line@ + listing_from(
                s@.tracks,
                i as int + 1,
            ));
            assert(message@ + listing_from(s@.tracks, i as int + 1) =~= before + listing_from(
                s@.tracks,
                i as int,
            ));
        }
        i = i + 1;
    }
    proof {
        assert(listing_from(s@.tracks, n as int) =~= Seq::<char>::empty());
        assert(message@ =~= listing_from(s@.tracks, 0));
    }
    Reply { message, transport: TransportDirective::silent() }
}

/// Roll back a play-start the transport could not perform: the guild's
/// player reverts to idle, the track stays in the queue for a retry, and
/// the failure to surface is returned.
pub fn play_start_failed(reg: &mut SessionRegistry, guild_id: u64) -> (r: CommandError)
    requires
        old(reg).wf(),
    ensures
        final(reg).wf(),
        r == CommandError::NoAudioSource,
        !old(reg).contains_guild(guild_id) ==> *final(reg) == *old(reg),
        old(reg).contains_guild(guild_id) ==> {
            &&& final(reg).contains_guild(guild_id)
            &&& final(reg).session_for(guild_id) == old(reg).session_for(
                guild_id,
            ).play_start_reverted()
            &&& others_preserved(*old(reg), *final(reg), guild_id)
        },
{
    let ghost pre = *reg;
    match reg.take(guild_id) {
        Some(mut s) => {
            let ghost mid = *reg;
            s.play_start_failed();
            reg.put(s);
            proof {
                lemma_others_preserved_trans(pre, mid, *reg, guild_id);
            }
        },
        None => {},
    }
    CommandError::NoAudioSource
}

} // verus!
