use vstd::prelude::*;
use vstd::pervasive::VecAdditionalExecFns;
use crate::errors::AudioError;
use crate::ring::AudioRingBuffer;
use crate::state::PlaybackStatus;
use crate::state::PlayerState;
use crate::state::PlayerStateContainer;
use crate::state::transition_allowed;

verus! {

/// What a player was asked to play. The identity decides whether a running
/// engine is reused with a seek or torn down and rebuilt.
#[derive(Debug, Clone)]
pub enum SourceKind {
    /// A remote stream.
    Http(String),
    /// A local file path.
    File(String),
}

impl SourceKind {
    pub open spec fn spec_same(&self, other: &SourceKind) -> bool {
        match (self, other) {
            (SourceKind::Http(a), SourceKind::Http(b)) => a@ == b@,
            (SourceKind::File(a), SourceKind::File(b)) => a@ == b@,
            _ => false,
        }
    }

    /// Whether the two name the same source.
    pub fn same_source(&self, other: &SourceKind) -> (r: bool)
        ensures
            r == self.spec_same(other),
    {
        match (self, other) {
            (SourceKind::Http(a), SourceKind::Http(b)) => a.eq(b),
            (SourceKind::File(a), SourceKind::File(b)) => a.eq(b),
            _ => false,
        }
    }
}

/// Saturating 64-bit add, for counters that must never wrap.
pub open spec fn sat_add_u64(a: int, b: int) -> int {
    if a + b <= u64::MAX {
        a + b
    } else {
        u64::MAX as int
    }
}

/// Interleaved PCM after channel shaping: a mono packet headed for a stereo
/// renderer has each sample doubled; anything else passes through.
pub open spec fn spec_upmixed(pcm: Seq<u32>, in_channels: u16, out_channels: u16) -> Seq<u32> {
    if in_channels == 1 && out_channels == 2 {
        Seq::new((pcm.len() * 2) as nat, |i: int| pcm[i / 2])
    } else {
        pcm
    }
}

/// Duplicates every sample: mono to stereo.
pub fn mono_to_stereo(pcm: &Vec<u32>) -> (r: Vec<u32>)
    requires
        pcm@.len() * 2 <= usize::MAX,
    ensures
        r@ == Seq::new((pcm@.len() * 2) as nat, |i: int| pcm@[i / 2]),
{
    let n = pcm.len();
    let mut r: Vec<u32> = Vec::new();
    let mut i: usize = 0;
    while i < n
        invariant
            n == pcm@.len(),
            n * 2 <= usize::MAX,
            i <= n,
            r@ == Seq::new((i * 2) as nat, |k: int| pcm@[k / 2]),
        decreases n - i,
    {
        let s = pcm[i];
        r.push(s);
        r.push(s);
        proof {
            assert(r@ =~= Seq::new(((i + 1) * 2) as nat, |k: int| pcm@[k / 2])) by {
                assert forall|k: int| 0 <= k < (i + 1) * 2 implies r@[k] == pcm@[k / 2] by {
                    if k < i * 2 {
                        assert(r@[k] == Seq::new((i * 2) as nat, |k: int| pcm@[k / 2])[k]);
                    } else {
                        assert(k / 2 == i as int);
                    }
                }
            }
        }
        i = i + 1;
    }
    r
}

/// One decode-loop decision: what the decode thread does next.
#[derive(Debug, Clone, Copy, PartialEq, Eq, Structural)]
pub enum DecodeStep {
    /// The stop flag is set: leave the loop.
    Stop,
    /// Not playing and the buffer is nearly full: sleep briefly, then retry.
    PrebufferWait,
    /// A seek is pending: re-seek the demuxer to this time, then continue.
    Seek(u64),
    /// Pull and decode the next packet.
    NextPacket,
}

/// The state one playback engine shares between the control API, the decode
/// thread and the render callback: the ring buffer and the flags and
/// counters beside it. Callers serialize access around it.
pub struct PlaybackEngine {
    ring: AudioRingBuffer,
    position_ms: u64,
    duration_ms: u64,
    playing: bool,
    stop_requested: bool,
    pending_seek: Option<u64>,
}

/// Ring-buffer fullness, in thousandths, above which a non-playing engine
/// stops prebuffering and waits.
pub const PREBUFFER_FULL_PERMILLE: u32 = 900;

impl PlaybackEngine {
    pub closed spec fn spec_ring(&self) -> AudioRingBuffer {
        self.ring
    }

    pub closed spec fn spec_position_ms(&self) -> int {
        self.position_ms as int
    }

    pub closed spec fn spec_duration_ms(&self) -> int {
        self.duration_ms as int
    }

    pub closed spec fn spec_playing(&self) -> bool {
        self.playing
    }

    pub closed spec fn spec_stop_requested(&self) -> bool {
        self.stop_requested
    }

    pub closed spec fn spec_pending_seek(&self) -> Option<u64> {
        self.pending_seek
    }

    pub open spec fn wf(&self) -> bool {
        self.spec_ring().wf()
    }

    /// A new engine: an empty ring of the given capacity, counters at zero,
    /// paused, no stop requested, no seek pending.
    pub fn new(ring_capacity: usize) -> (e: Self)
        requires
            ring_capacity >= 1,
        ensures
            e.wf(),
            e.spec_ring().capacity() == ring_capacity,
            e.spec_ring().contents() == Seq::<u32>::empty(),
            e.spec_position_ms() == 0,
            e.spec_duration_ms() == 0,
            !e.spec_playing(),
            !e.spec_stop_requested(),
            e.spec_pending_seek() is None,
    {
        Self {
            ring: AudioRingBuffer::new(ring_capacity),
            position_ms: 0,
            duration_ms: 0,
            playing: false,
            stop_requested: false,
            pending_seek: None,
        }
    }

    /// Once the track format is known, resizes the ring to about five
    /// seconds of interleaved audio, discarding anything buffered; rates and
    /// channel counts of zero are lifted to one.
    pub fn configure_format(&mut self, sample_rate: u32, channels: u16)
        requires
            old(self).wf(),
        ensures
            final(self).wf(),
            final(self).spec_ring().contents() == Seq::<u32>::empty(),
            final(self).spec_ring().capacity() == ({
                let rate = if sample_rate == 0 {
                    1int
                } else {
                    sample_rate as int
                };
                let ch = if channels == 0 {
                    1int
                } else {
                    channels as int
                };
                if rate * ch * 5 <= 0x7FFF_FFFF {
                    rate * ch * 5
                } else {
                    0x7FFF_FFFF
                }
            }),
            final(self).spec_position_ms() == old(self).spec_position_ms(),
            final(self).spec_duration_ms() == old(self).spec_duration_ms(),
            final(self).spec_playing() == old(self).spec_playing(),
            final(self).spec_stop_requested() == old(self).spec_stop_requested(),
            final(self).spec_pending_seek() == old(self).spec_pending_seek(),
    {
        let rate: u64 = if sample_rate == 0 {
            1
        } else {
            sample_rate as u64
        };
        let ch: u64 = if channels == 0 {
            1
        } else {
            channels as u64
        };
        proof {
            assert(5 <= rate as int * ch as int * 5 <= 0xFFFF_FFFF * 0xFFFF * 5)
                by (nonlinear_arith)
                requires
                    1 <= rate <= 0xFFFF_FFFF,
                    1 <= ch <= 0xFFFF,
            ;
        }
        let samples: u64 = rate * ch * 5;
        let capacity: usize = if samples <= 0x7FFF_FFFF {
            samples as usize
        } else {
            0x7FFF_FFFF
        };
        self.ring.resize(capacity);
    }

    pub fn set_duration(&mut self, duration_ms: u64)
        ensures
            final(self).spec_duration_ms() == duration_ms,
            final(self).spec_ring() == old(self).spec_ring(),
            final(self).spec_position_ms() == old(self).spec_position_ms(),
            final(self).spec_playing() == old(self).spec_playing(),
            final(self).spec_stop_requested() == old(self).spec_stop_requested(),
            final(self).spec_pending_seek() == old(self).spec_pending_seek(),
    {
        self.duration_ms = duration_ms;
    }

    pub fn position_ms(&self) -> (r: u64)
        ensures
            r == self.spec_position_ms(),
    {
        self.position_ms
    }

    pub fn duration_ms(&self) -> (r: u64)
        ensures
            r == self.spec_duration_ms(),
    {
        self.duration_ms
    }

    pub fn is_playing(&self) -> (r: bool)
        ensures
            r == self.spec_playing(),
    {
        self.playing
    }

    /// Whether a stop was requested and the engine's threads should exit.
    pub fn is_stop_requested(&self) -> (r: bool)
        ensures
            r == self.spec_stop_requested(),
    {
        self.stop_requested
    }

    /// How many samples sit in the ring, waiting for the renderer.
    pub fn buffered_samples(&self) -> (n: usize)
        requires
            self.wf(),
        ensures
            n == self.spec_ring().spec_available_read(),
    {
        self.ring.available_read()
    }

    /// Raises the shared playing flag; the decode loop and the render
    /// callback both read it.
    pub fn play(&mut self)
        ensures
            final(self).spec_playing(),
            final(self).spec_ring() == old(self).spec_ring(),
            final(self).spec_position_ms() == old(self).spec_position_ms(),
            final(self).spec_duration_ms() == old(self).spec_duration_ms(),
            final(self).spec_stop_requested() == old(self).spec_stop_requested(),
            final(self).spec_pending_seek() == old(self).spec_pending_seek(),
    {
        self.playing = true;
    }

    pub fn pause(&mut self)
        ensures
            !final(self).spec_playing(),
            final(self).spec_ring() == old(self).spec_ring(),
            final(self).spec_position_ms() == old(self).spec_position_ms(),
            final(self).spec_duration_ms() == old(self).spec_duration_ms(),
            final(self).spec_stop_requested() == old(self).spec_stop_requested(),
            final(self).spec_pending_seek() == old(self).spec_pending_seek(),
    {
        self.playing = false;
    }

    /// Asks the decode loop to exit; playback stops at once.
    pub fn request_stop(&mut self)
        ensures
            !final(self).spec_playing(),
            final(self).spec_stop_requested(),
            final(self).spec_ring() == old(self).spec_ring(),
            final(self).spec_position_ms() == old(self).spec_position_ms(),
            final(self).spec_duration_ms() == old(self).spec_duration_ms(),
            final(self).spec_pending_seek() == old(self).spec_pending_seek(),
    {
        self.playing = false;
        self.stop_requested = true;
    }

    /// Clears the buffered audio, moves the reported position, and leaves
    /// the target in the pending-seek slot; a newer request overwrites an
    /// unconsumed older one, last writer winning.
    pub fn request_seek(&mut self, target_ms: u64)
        requires
            old(self).wf(),
        ensures
            final(self).wf(),
            final(self).spec_ring().capacity() == old(self).spec_ring().capacity(),
            final(self).spec_ring().contents() == Seq::<u32>::empty(),
            final(self).spec_position_ms() == target_ms,
            final(self).spec_pending_seek() == Some(target_ms),
            final(self).spec_playing() == old(self).spec_playing(),
            final(self).spec_stop_requested() == old(self).spec_stop_requested(),
            final(self).spec_duration_ms() == old(self).spec_duration_ms(),
    {
        self.ring.clear();
        self.position_ms = target_ms;
        self.pending_seek = Some(target_ms);
    }

    /// One decode-loop decision, in priority order: a stop request ends the
    /// loop; a nearly full ring while paused asks for a prebuffer wait; a
    /// pending seek is consumed, clearing the ring; otherwise the next
    /// packet is pulled.
    pub fn decode_tick(&mut self) -> (step: DecodeStep)
        requires
            old(self).wf(),
        ensures
            final(self).wf(),
            final(self).spec_ring().capacity() == old(self).spec_ring().capacity(),
            old(self).spec_stop_requested() ==> step == DecodeStep::Stop && *final(self) == *old(
                self,
            ),
            !old(self).spec_stop_requested() && !old(self).spec_playing() && old(
                self,
            ).spec_ring().used() * 1000 / old(self).spec_ring().capacity()
                > PREBUFFER_FULL_PERMILLE ==> step == DecodeStep::PrebufferWait && *final(self)
                == *old(self),
            !old(self).spec_stop_requested() && (old(self).spec_playing() || old(
                self,
            ).spec_ring().used() * 1000 / old(self).spec_ring().capacity()
                <= PREBUFFER_FULL_PERMILLE) ==> match old(self).spec_pending_seek() {
                Some(t) => step == DecodeStep::Seek(t) && (final(self).spec_pending_seek() is None)
                    && final(self).spec_ring().contents() == Seq::<u32>::empty()
                    && final(self).spec_position_ms() == t && final(self).spec_playing() == old(
                    self,
                ).spec_playing() && !final(self).spec_stop_requested(),
                None => step == DecodeStep::NextPacket && *final(self) == *old(self),
            },
    {
        if self.stop_requested {
            return DecodeStep::Stop;
        }
        if !self.playing && self.ring.fullness_permille() > PREBUFFER_FULL_PERMILLE {
            return DecodeStep::PrebufferWait;
        }
        match self.pending_seek {
            Some(target) => {
                self.pending_seek = None;
                self.ring.clear();
                self.position_ms = target;
                DecodeStep::Seek(target)
            },
            None => DecodeStep::NextPacket,
        }
    }

    /// Takes one decoded packet: upmixes mono to stereo when the renderer
    /// is stereo, writes what fits into the ring, and, when playing,
    /// advances the position by the whole frames written. Excess samples
    /// are dropped, never blocked on.
    pub fn handle_packet(
        &mut self,
        pcm: &Vec<u32>,
        in_channels: u16,
        out_channels: u16,
        sample_rate: u32,
    ) -> (written: usize)
        requires
            old(self).wf(),
            pcm@.len() * 2 <= usize::MAX,
            out_channels >= 1,
            sample_rate >= 1,
        ensures
            final(self).wf(),
            final(self).spec_ring().capacity() == old(self).spec_ring().capacity(),
            ({
                let shaped = spec_upmixed(pcm@, in_channels, out_channels);
                let fits = if shaped.len() <= old(self).spec_ring().spec_available_write() {
                    shaped.len() as int
                } else {
                    old(self).spec_ring().spec_available_write()
                };
                &&& written == fits
                &&& final(self).spec_ring().contents() == old(self).spec_ring().contents()
                    + shaped.take(fits)
                &&& final(self).spec_position_ms() == if old(self).spec_playing() {
                    sat_add_u64(
                        old(self).spec_position_ms(),
                        (fits / out_channels as int) * 1000 / sample_rate as int,
                    )
                } else {
                    old(self).spec_position_ms()
                }
            }),
            final(self).spec_playing() == old(self).spec_playing(),
            final(self).spec_stop_requested() == old(self).spec_stop_requested(),
            final(self).spec_pending_seek() == old(self).spec_pending_seek(),
            final(self).spec_duration_ms() == old(self).spec_duration_ms(),
    {
        let written: usize = if in_channels == 1 && out_channels == 2 {
            let stereo = mono_to_stereo(pcm);
            self.ring.write(&stereo)
        } else {
            self.ring.write(pcm)
        };
        let frames = written / out_channels as usize;
        if self.playing {
            let inc: u128 = frames as u128 * 1000 / sample_rate as u128;
            proof {
                assert(frames as int * 1000 / sample_rate as int <= frames as int * 1000) by {
                    vstd::arithmetic::div_mod::lemma_div_is_ordered_by_denominator(
                        frames as int * 1000,
                        1,
                        sample_rate as int,
                    );
                    assert(frames as int * 1000 / 1 == frames as int * 1000);
                }
                assert(frames as int * 1000 >= 0) by (nonlinear_arith)
                    requires
                        frames as int >= 0,
                ;
            }
            self.position_ms = if inc > (u64::MAX - self.position_ms) as u128 {
                u64::MAX
            } else {
                self.position_ms + inc as u64
            };
        }
        written
    }

    /// Fills the render callback's buffer: when paused, or when the ring
    /// runs short, the remainder is silence — the consumer never blocks.
    /// Answers how many samples came from the ring.
    pub fn render_fill(&mut self, out: &mut Vec<u32>) -> (filled: usize)
        requires
            old(self).wf(),
        ensures
            final(self).wf(),
            final(self).spec_ring().capacity() == old(self).spec_ring().capacity(),
            !old(self).spec_playing() ==> filled == 0 && final(self).spec_ring().contents() == old(
                self,
            ).spec_ring().contents() && final(out)@ == Seq::new(
                old(out)@.len(),
                |i: int| 0u32,
            ),
            old(self).spec_playing() ==> ({
                let have = old(self).spec_ring().spec_available_read();
                let take = if old(out)@.len() <= have {
                    old(out)@.len() as int
                } else {
                    have
                };
                &&& filled == take
                &&& final(out)@ == old(self).spec_ring().contents().take(take) + Seq::new(
                    (old(out)@.len() - take) as nat,
                    |i: int| 0u32,
                )
                &&& final(self).spec_ring().contents() == old(self).spec_ring().contents().skip(
                    take,
                )
            }),
            final(out)@.len() == old(out)@.len(),
            final(self).spec_playing() == old(self).spec_playing(),
            final(self).spec_position_ms() == old(self).spec_position_ms(),
    {
        if !self.playing {
            zero_fill(out, 0);
            proof {
                assert(out@ =~= Seq::new(old(out)@.len(), |i: int| 0u32));
            }
            return 0;
        }
        let filled = self.ring.read(out);
        zero_fill(out, filled);
        proof {
            let have = old(self).spec_ring().spec_available_read();
            let take = if old(out)@.len() <= have {
                old(out)@.len() as int
            } else {
                have
            };
            assert(out@ =~= old(self).spec_ring().contents().take(take) + Seq::new(
                (old(out)@.len() - take) as nat,
                |i: int| 0u32,
            ));
        }
        filled
    }
}

/// What a load must do with the running engine: a load of the source already
/// playing reuses the engine and seeks to the start; anything else tears the
/// old engine down — stop signalled, renderer dropped, decode thread joined —
/// before a new one is built, so at most one decode thread and one open
/// hardware stream exist at a time.
#[derive(Debug, Clone, Copy, PartialEq, Eq, Structural)]
pub enum LoadPlan {
    /// Keep the running engine; seek it to this time.
    Reuse { seek_ms: u64 },
    /// Stop and join the old engine, then build a fresh one.
    Rebuild,
}

/// The player: holds the guarded state machine and decides what the caller
/// must do with engines, threads and devices, which live outside it.
pub struct PodiumPlayer {
    state: PlayerStateContainer,
    loaded: bool,
    engine_running: bool,
    last_source: Option<SourceKind>,
}

impl PodiumPlayer {
    pub closed spec fn spec_state(&self) -> PlayerState {
        self.state.spec_state()
    }

    pub closed spec fn spec_status(&self) -> PlaybackStatus {
        self.state.spec_status()
    }

    pub closed spec fn spec_loaded(&self) -> bool {
        self.loaded
    }

    pub closed spec fn spec_engine_running(&self) -> bool {
        self.engine_running
    }

    pub closed spec fn spec_last_source(&self) -> Option<SourceKind> {
        self.last_source
    }

    pub open spec fn wf(&self) -> bool {
        self.spec_status().wf()
    }

    pub fn new() -> (p: Self)
        ensures
            p.wf(),
            p.spec_state() == PlayerState::Idle,
            !p.spec_loaded(),
            !p.spec_engine_running(),
            p.spec_last_source() is None,
    {
        Self {
            state: PlayerStateContainer::new(),
            loaded: false,
            engine_running: false,
            last_source: None,
        }
    }

    pub fn get_state(&self) -> (s: PlayerState)
        ensures
            s == self.spec_state(),
    {
        self.state.get_state()
    }

    pub fn get_status(&self) -> (s: PlaybackStatus)
        ensures
            s == self.spec_status(),
    {
        self.state.get_status()
    }

    fn ensure_loaded(&self) -> (r: Result<(), AudioError>)
        ensures
            r is Ok <==> self.spec_loaded(),
            r is Err ==> (r->Err_0 is InvalidState),
    {
        if self.loaded {
            Ok(())
        } else {
            Err(AudioError::InvalidState(String::from_str("audio not loaded")))
        }
    }

    /// Starts loading a source. From playing or paused the player first
    /// stops, as a load tears the old engine down; a load during an ongoing
    /// load is refused. On success the state is loading, the position and
    /// duration reset, and the plan says whether the running engine is
    /// reused — only for the same source — or rebuilt.
    pub fn begin_load(&mut self, source: SourceKind) -> (r: Result<LoadPlan, AudioError>)
        requires
            old(self).wf(),
        ensures
            final(self).wf(),
            r is Ok <==> old(self).spec_state() != PlayerState::Loading,
            r is Err ==> *final(self) == *old(self) && (r->Err_0 is InvalidState),
            r matches Ok(plan) ==> ({
                &&& final(self).spec_state() == PlayerState::Loading
                &&& final(self).spec_loaded()
                &&& final(self).spec_status().position_ms == 0
                &&& final(self).spec_status().duration_ms == 0
                &&& final(self).spec_status().buffering == (source is Http)
                &&& final(self).spec_status().volume_permille == old(
                    self,
                ).spec_status().volume_permille
                &&& final(self).spec_status().rate_permille == old(self).spec_status().rate_permille
                &&& plan == if old(self).spec_engine_running() && (old(self).spec_last_source()
                    matches Some(prev) && prev.spec_same(&source)) {
                    LoadPlan::Reuse { seek_ms: 0 }
                } else {
                    LoadPlan::Rebuild
                }
                &&& final(self).spec_engine_running()
                &&& (final(self).spec_last_source() matches Some(s) && s.spec_same(&source))
            }),
    {
        let current = self.state.get_state();
        if current == PlayerState::Loading {
            return Err(AudioError::InvalidState(String::from_str("already loading")));
        }
        if current == PlayerState::Playing || current == PlayerState::Paused {
            match self.state.try_transition(PlayerState::Stopped) {
                Ok(()) => {},
                Err(_) => {
                    proof {
                        assert(false);
                    }
                    return Err(AudioError::InvalidState(String::from_str("unreachable")));
                },
            }
        }
        match self.state.try_transition(PlayerState::Loading) {
            Ok(()) => {},
            Err(_) => {
                proof {
                    assert(false);
                }
                return Err(AudioError::InvalidState(String::from_str("unreachable")));
            },
        }
        let buffering = match &source {
            SourceKind::Http(_) => true,
            SourceKind::File(_) => false,
        };
        let mut status = self.state.get_status();
        status.position_ms = 0;
        status.duration_ms = 0;
        status.buffering = buffering;
        self.state.set_status(status);
        let plan = match (&self.last_source, self.engine_running) {
            (Some(prev), true) => {
                if prev.same_source(&source) {
                    LoadPlan::Reuse { seek_ms: 0 }
                } else {
                    LoadPlan::Rebuild
                }
            },
            _ => LoadPlan::Rebuild,
        };
        self.loaded = true;
        self.engine_running = true;
        self.last_source = Some(source);
        Ok(plan)
    }

    /// Ends a load: to ready when the engine came up, to the error state
    /// when it did not. Legal only while loading.
    pub fn finish_load(&mut self, success: bool) -> (r: Result<(), AudioError>)
        requires
            old(self).wf(),
        ensures
            final(self).wf(),
            r is Ok <==> old(self).spec_state() == PlayerState::Loading,
            r is Err ==> *final(self) == *old(self) && (r->Err_0 is InvalidState),
            r is Ok ==> final(self).spec_state() == (if success {
                PlayerState::Ready
            } else {
                PlayerState::Error
            }) && final(self).spec_engine_running() == success,
    {
        let current = self.state.get_state();
        if current != PlayerState::Loading {
            return Err(AudioError::InvalidState(String::from_str("not loading")));
        }
        let target = if success {
            PlayerState::Ready
        } else {
            PlayerState::Error
        };
        self.engine_running = success;
        match self.state.try_transition(target) {
            Ok(()) => Ok(()),
            Err(e) => {
                proof {
                    assert(false);
                }
                Err(e)
            },
        }
    }

    /// Starts or resumes playback; legal exactly where the transition table
    /// lets the current state reach playing, and only with audio loaded.
    pub fn play(&mut self) -> (r: Result<(), AudioError>)
        requires
            old(self).wf(),
        ensures
            final(self).wf(),
            r is Ok <==> old(self).spec_loaded() && transition_allowed(
                old(self).spec_state(),
                PlayerState::Playing,
            ),
            r is Err ==> final(self).spec_state() == old(self).spec_state() && (r->Err_0
                is InvalidState),
            r is Ok ==> final(self).spec_state() == PlayerState::Playing && !final(self).spec_status().buffering,
    {
        match self.ensure_loaded() {
            Ok(()) => {},
            Err(e) => {
                return Err(e);
            },
        }
        match self.state.try_transition(PlayerState::Playing) {
            Ok(()) => {
                let mut status = self.state.get_status();
                status.buffering = false;
                self.state.set_status(status);
                Ok(())
            },
            Err(e) => Err(e),
        }
    }

    /// Pauses playback; legal only while playing.
    pub fn pause(&mut self) -> (r: Result<(), AudioError>)
        requires
            old(self).wf(),
        ensures
            final(self).wf(),
            r is Ok <==> transition_allowed(old(self).spec_state(), PlayerState::Paused),
            r is Err ==> *final(self) == *old(self) && (r->Err_0 is InvalidState),
            r is Ok ==> final(self).spec_state() == PlayerState::Paused,
    {
        self.state.try_transition(PlayerState::Paused)
    }

    /// Stops playback and resets the position; legal where the table lets
    /// the current state reach stopped.
    pub fn stop(&mut self) -> (r: Result<(), AudioError>)
        requires
            old(self).wf(),
        ensures
            final(self).wf(),
            r is Ok <==> transition_allowed(old(self).spec_state(), PlayerState::Stopped),
            r is Err ==> *final(self) == *old(self) && (r->Err_0 is InvalidState),
            r is Ok ==> final(self).spec_state() == PlayerState::Stopped && final(self).spec_status().position_ms == 0,
    {
        match self.state.try_transition(PlayerState::Stopped) {
            Ok(()) => {
                let mut status = self.state.get_status();
                status.position_ms = 0;
                self.state.set_status(status);
                Ok(())
            },
            Err(e) => Err(e),
        }
    }

    /// Reports a mid-stream failure — a decode or container error after
    /// loading succeeded: the player moves to the sticky error state, legal
    /// exactly where the table lets the current state reach it (loading,
    /// ready, playing), and the engine is to be stopped and joined. The
    /// error state is then left only by a fresh load.
    pub fn fail(&mut self) -> (r: Result<(), AudioError>)
        requires
            old(self).wf(),
        ensures
            final(self).wf(),
            r is Ok <==> transition_allowed(old(self).spec_state(), PlayerState::Error),
            r is Err ==> *final(self) == *old(self) && (r->Err_0 is InvalidState),
            r is Ok ==> final(self).spec_state() == PlayerState::Error
                && !final(self).spec_engine_running(),
    {
        match self.state.try_transition(PlayerState::Error) {
            Ok(()) => {
                self.engine_running = false;
                Ok(())
            },
            Err(e) => Err(e),
        }
    }

    /// Accepts a seek: the reported position moves at once, and the engine
    /// is to consume the target from its pending-seek slot. Needs loaded
    /// audio; the state does not change.
    pub fn seek(&mut self, position_ms: u64) -> (r: Result<(), AudioError>)
        requires
            old(self).wf(),
        ensures
            final(self).wf(),
            r is Ok <==> old(self).spec_loaded(),
            r is Err ==> *final(self) == *old(self) && (r->Err_0 is InvalidState),
            final(self).spec_state() == old(self).spec_state(),
            r is Ok ==> final(self).spec_status().position_ms == position_ms,
    {
        match self.ensure_loaded() {
            Ok(()) => {},
            Err(e) => {
                return Err(e);
            },
        }
        let mut status = self.state.get_status();
        status.position_ms = position_ms;
        self.state.set_status(status);
        Ok(())
    }

    /// Sets the volume, clamped into the unit range: anything above full
    /// volume is held at full volume.
    pub fn set_volume(&mut self, volume_permille: u32)
        requires
            old(self).wf(),
        ensures
            final(self).wf(),
            final(self).spec_state() == old(self).spec_state(),
            final(self).spec_status().volume_permille == (if volume_permille <= 1000 {
                volume_permille as int
            } else {
                1000int
            }),
    {
        let clamped = if volume_permille <= 1000 {
            volume_permille
        } else {
            1000
        };
        let mut status = self.state.get_status();
        status.volume_permille = clamped;
        self.state.set_status(status);
    }

    /// Sets the playback rate; a rate of zero or below is refused and
    /// nothing changes.
    pub fn set_playback_rate(&mut self, rate_permille: u32) -> (r: Result<(), AudioError>)
        requires
            old(self).wf(),
        ensures
            final(self).wf(),
            r is Ok <==> rate_permille > 0,
            r is Err ==> *final(self) == *old(self) && (r->Err_0 is InvalidState),
            r is Ok ==> final(self).spec_status().rate_permille == rate_permille && final(self).spec_state() == old(self).spec_state(),
    {
        if rate_permille == 0 {
            return Err(AudioError::InvalidState(String::from_str("playback rate must be > 0")));
        }
        let mut status = self.state.get_status();
        status.rate_permille = rate_permille;
        self.state.set_status(status);
        Ok(())
    }

    /// Carries the decode thread's progress into the reported status.
    pub fn update_progress(&mut self, position_ms: u64, duration_ms: u64)
        requires
            old(self).wf(),
        ensures
            final(self).wf(),
            final(self).spec_state() == old(self).spec_state(),
            final(self).spec_status().position_ms == position_ms,
            final(self).spec_status().duration_ms == duration_ms,
            final(self).spec_status().volume_permille == old(self).spec_status().volume_permille,
            final(self).spec_status().rate_permille == old(self).spec_status().rate_permille,
    {
        let mut status = self.state.get_status();
        status.position_ms = position_ms;
        status.duration_ms = duration_ms;
        self.state.set_status(status);
    }

    /// Releases the player: the engine is to be stopped and joined, and the
    /// player returns to idle, stopping first where the table routes it
    /// through the stopped state. The error state is sticky and stays,
    /// recoverable only by a fresh load, and an ongoing load is left alone.
    pub fn release(&mut self)
        requires
            old(self).wf(),
        ensures
            final(self).wf(),
            !final(self).spec_loaded(),
            !final(self).spec_engine_running(),
            transition_allowed(old(self).spec_state(), PlayerState::Idle) || transition_allowed(
                old(self).spec_state(),
                PlayerState::Stopped,
            ) ==> final(self).spec_state() == PlayerState::Idle,
            !transition_allowed(old(self).spec_state(), PlayerState::Idle)
                && !transition_allowed(old(self).spec_state(), PlayerState::Stopped) ==> final(self).spec_state() == old(self).spec_state(),
    {
        self.loaded = false;
        self.engine_running = false;
        match self.state.try_transition(PlayerState::Idle) {
            Ok(()) => {},
            Err(_) => {
                match self.state.try_transition(PlayerState::Stopped) {
                    Ok(()) => {
                        match self.state.try_transition(PlayerState::Idle) {
                            Ok(()) => {},
                            Err(_) => {
                                proof {
                                    assert(false);
                                }
                            },
                        }
                    },
                    Err(_) => {},
                }
            },
        }
    }
}

/// One playback pipeline from source bytes to rendered audio: the player's
/// guarded control surface and the engine state its threads share.
pub struct Session {
    /// The control surface: state machine, status, load planning.
    pub player: PodiumPlayer,
    /// The shared engine: ring buffer, counters and flags.
    pub engine: PlaybackEngine,
}

/// Ring capacity a session starts with, before the track format is known:
/// five seconds of stereo at 48 kHz.
pub const SESSION_RING_CAPACITY: usize = 480000;

impl Session {
    /// A fresh pipeline: an idle player and a paused, empty engine.
    pub fn new() -> (s: Self)
        ensures
            s.player.wf(),
            s.player.spec_state() == PlayerState::Idle,
            !s.player.spec_loaded(),
            s.engine.wf(),
            s.engine.spec_ring().capacity() == SESSION_RING_CAPACITY,
            s.engine.spec_ring().contents() == Seq::<u32>::empty(),
            !s.engine.spec_playing(),
            !s.engine.spec_stop_requested(),
    {
        Self { player: PodiumPlayer::new(), engine: PlaybackEngine::new(SESSION_RING_CAPACITY) }
    }
}

/// Overwrites everything from `from` on with silence.
fn zero_fill(out: &mut Vec<u32>, from: usize)
    requires
        from <= old(out)@.len(),
    ensures
        final(out)@.len() == old(out)@.len(),
        final(out)@ == old(out)@.take(from as int) + Seq::new(
            (old(out)@.len() - from) as nat,
            |i: int| 0u32,
        ),
{
    let n = out.len();
    let mut i: usize = from;
    while i < n
        invariant
            n == out@.len(),
            n == old(out)@.len(),
            from <= i <= n,
            forall|j: int| 0 <= j < from ==> out@[j] == old(out)@[j],
            forall|j: int| from <= j < i ==> out@[j] == 0u32,
            forall|j: int| i <= j < n ==> out@[j] == old(out)@[j],
        decreases n - i,
    {
        out.set(i, 0u32);
        i = i + 1;
    }
    proof {
        assert(out@ =~= old(out)@.take(from as int) + Seq::new(
            (old(out)@.len() - from) as nat,
            |i: int| 0u32,
        ));
    }
}

} // verus!
