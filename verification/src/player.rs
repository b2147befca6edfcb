//! The per-guild player state machine: idle, playing a current track, or
//! paused on it. Transitions are driven by the session, which couples them
//! to queue mutations and transport directives.
use vstd::prelude::*;
use crate::track::Track;

verus! {

pub enum PlayerState {
    Idle,
    Playing(Track),
    Paused(Track),
}

impl PlayerState {
    /// The track the player currently holds, if any.
    pub open spec fn current(self) -> Option<Track> {
        match self {
            PlayerState::Idle => None,
            PlayerState::Playing(t) => Some(t),
            PlayerState::Paused(t) => Some(t),
        }
    }

    /// Playing or paused: a transport is (or claims to be) live.
    pub open spec fn is_active(self) -> bool {
        !(self is Idle)
    }

    pub fn is_idle(&self) -> (r: bool)
        ensures
            r == (*self is Idle),
    {
        match self {
            PlayerState::Idle => true,
            _ => false,
        }
    }

    pub fn is_playing(&self) -> (r: bool)
        ensures
            r == (*self is Playing),
    {
        match self {
            PlayerState::Playing(_) => true,
            _ => false,
        }
    }

    pub fn is_paused(&self) -> (r: bool)
        ensures
            r == (*self is Paused),
    {
        match self {
            PlayerState::Paused(_) => true,
            _ => false,
        }
    }

    /// Read-only access to the current track.
    pub fn current_track(&self) -> (r: Option<&Track>)
        ensures
            r is Some <==> self.current() is Some,
            r matches Some(t) ==> self.current() == Some(*t),
    {
        match self {
            PlayerState::Idle => None,
            PlayerState::Playing(t) => Some(t),
            PlayerState::Paused(t) => Some(t),
        }
    }
}

} // verus!
