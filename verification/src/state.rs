use vstd::prelude::*;
use crate::errors::AudioError;

verus! {

/// Player lifecycle state. It is mutated only through the allow-listed
/// transition table below; every operation checks the current state first.
#[derive(Debug, Clone, Copy, PartialEq, Eq, Structural)]
pub enum PlayerState {
    /// No audio loaded.
    Idle,
    /// Audio is loading.
    Loading,
    /// Audio is loaded and ready to play.
    Ready,
    /// Audio is currently playing.
    Playing,
    /// Audio is paused.
    Paused,
    /// Playback has stopped.
    Stopped,
    /// The player encountered an error; recoverable only through a fresh load.
    Error,
}

/// The allow-list of state transitions. The error state is reachable only
/// from loading, ready and playing, and is left only by a fresh load.
pub open spec fn transition_allowed(from: PlayerState, to: PlayerState) -> bool {
    match (from, to) {
        (PlayerState::Idle, PlayerState::Loading) => true,
        (PlayerState::Loading, PlayerState::Ready) => true,
        (PlayerState::Loading, PlayerState::Error) => true,
        (PlayerState::Ready, PlayerState::Playing) => true,
        (PlayerState::Ready, PlayerState::Loading) => true,
        (PlayerState::Ready, PlayerState::Idle) => true,
        (PlayerState::Ready, PlayerState::Error) => true,
        (PlayerState::Playing, PlayerState::Paused) => true,
        (PlayerState::Playing, PlayerState::Stopped) => true,
        (PlayerState::Playing, PlayerState::Error) => true,
        (PlayerState::Paused, PlayerState::Playing) => true,
        (PlayerState::Paused, PlayerState::Stopped) => true,
        (PlayerState::Stopped, PlayerState::Idle) => true,
        (PlayerState::Stopped, PlayerState::Loading) => true,
        (PlayerState::Error, PlayerState::Loading) => true,
        _ => false,
    }
}

/// Playback status. Volume and playback rate are carried in thousandths, so
/// full volume and normal speed are both 1000.
#[derive(Debug, Clone, Copy, PartialEq, Eq, Structural)]
pub struct PlaybackStatus {
    /// Current playback position in milliseconds.
    pub position_ms: u64,
    /// Total duration in milliseconds.
    pub duration_ms: u64,
    /// Volume in thousandths, between 0 and 1000.
    pub volume_permille: u32,
    /// Playback rate in thousandths of normal speed; always positive.
    pub rate_permille: u32,
    /// Whether the player is buffering.
    pub buffering: bool,
}

impl PlaybackStatus {
    pub open spec fn wf(&self) -> bool {
        &&& self.volume_permille <= 1000
        &&& self.rate_permille > 0
    }
}

impl Default for PlaybackStatus {
    fn default() -> (s: Self)
        ensures
            s.position_ms == 0,
            s.duration_ms == 0,
            s.volume_permille == 1000,
            s.rate_permille == 1000,
            !s.buffering,
            s.wf(),
    {
        Self {
            position_ms: 0,
            duration_ms: 0,
            volume_permille: 1000,
            rate_permille: 1000,
            buffering: false,
        }
    }
}

/// Holds the player state and the playback status, and guards every state
/// change behind the transition allow-list.
pub struct PlayerStateContainer {
    state: PlayerState,
    status: PlaybackStatus,
}

impl PlayerStateContainer {
    pub closed spec fn spec_state(&self) -> PlayerState {
        self.state
    }

    pub closed spec fn spec_status(&self) -> PlaybackStatus {
        self.status
    }

    pub open spec fn wf(&self) -> bool {
        self.spec_status().wf()
    }

    pub fn new() -> (c: Self)
        ensures
            c.spec_state() == PlayerState::Idle,
            c.spec_status() == (PlaybackStatus {
                position_ms: 0,
                duration_ms: 0,
                volume_permille: 1000,
                rate_permille: 1000,
                buffering: false,
            }),
            c.wf(),
    {
        Self { state: PlayerState::Idle, status: PlaybackStatus::default() }
    }

    pub fn get_state(&self) -> (s: PlayerState)
        ensures
            s == self.spec_state(),
    {
        self.state
    }

    pub fn get_status(&self) -> (s: PlaybackStatus)
        ensures
            s == self.spec_status(),
    {
        self.status
    }

    /// Checks that the current state is `from` and that the pair stands in the
    /// transition table; answers with the invalid-state error otherwise.
    pub fn validate_state_transition(&self, from: PlayerState, to: PlayerState) -> (r: Result<
        (),
        AudioError,
    >)
        ensures
            r is Ok <==> self.spec_state() == from && transition_allowed(from, to),
            r is Err ==> (r->Err_0 is InvalidState),
    {
        if self.state != from {
            return Err(
                AudioError::InvalidState(String::from_str("current state differs from expected")),
            );
        }
        if Self::allowed(from, to) {
            Ok(())
        } else {
            Err(AudioError::InvalidState(String::from_str("state transition not allowed")))
        }
    }

    fn allowed(from: PlayerState, to: PlayerState) -> (b: bool)
        ensures
            b == transition_allowed(from, to),
    {
        match (from, to) {
            (PlayerState::Idle, PlayerState::Loading) => true,
            (PlayerState::Loading, PlayerState::Ready) => true,
            (PlayerState::Loading, PlayerState::Error) => true,
            (PlayerState::Ready, PlayerState::Playing) => true,
            (PlayerState::Ready, PlayerState::Loading) => true,
            (PlayerState::Ready, PlayerState::Idle) => true,
            (PlayerState::Ready, PlayerState::Error) => true,
            (PlayerState::Playing, PlayerState::Paused) => true,
            (PlayerState::Playing, PlayerState::Stopped) => true,
            (PlayerState::Playing, PlayerState::Error) => true,
            (PlayerState::Paused, PlayerState::Playing) => true,
            (PlayerState::Paused, PlayerState::Stopped) => true,
            (PlayerState::Stopped, PlayerState::Idle) => true,
            (PlayerState::Stopped, PlayerState::Loading) => true,
            (PlayerState::Error, PlayerState::Loading) => true,
            _ => false,
        }
    }

    /// Moves to `to` when the transition table allows it from the current
    /// state; otherwise fails with the invalid-state error and leaves the
    /// state unchanged.
    pub fn try_transition(&mut self, to: PlayerState) -> (r: Result<(), AudioError>)
        ensures
            r is Ok <==> transition_allowed(old(self).spec_state(), to),
            r is Ok ==> final(self).spec_state() == to,
            r is Err ==> *final(self) == *old(self) && (r->Err_0 is InvalidState),
            final(self).spec_status() == old(self).spec_status(),
    {
        let current = self.state;
        match self.validate_state_transition(current, to) {
            Ok(()) => {
                self.state = to;
                Ok(())
            },
            Err(e) => Err(e),
        }
    }

    pub fn set_status(&mut self, status: PlaybackStatus)
        ensures
            final(self).spec_status() == status,
            final(self).spec_state() == old(self).spec_state(),
    {
        self.status = status;
    }

    /// Any pair outside the allow-list is refused with the invalid-state
    /// error and the state is left unchanged; any pair inside it is taken.
    pub proof fn lemma_transition_table_is_exact(
        pre: Self,
        post: Self,
        to: PlayerState,
        r: Result<(), AudioError>,
    )
        requires
            r is Ok <==> transition_allowed(pre.spec_state(), to),
            r is Ok ==> post.spec_state() == to,
            r is Err ==> post.spec_state() == pre.spec_state() && (r->Err_0 is InvalidState),
        ensures
            !transition_allowed(pre.spec_state(), to) ==> (r is Err) && post.spec_state()
                == pre.spec_state() && (r->Err_0 is InvalidState),
            transition_allowed(pre.spec_state(), to) ==> (r is Ok) && post.spec_state() == to,
    {
    }
}

} // verus!
