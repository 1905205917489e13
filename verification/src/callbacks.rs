use vstd::prelude::*;
use crate::state::PlayerState;

verus! {

/// Player events fanned out to registered listeners.
pub enum CallbackEvent {
    /// The player state changed.
    StateChanged { old_state: PlayerState, new_state: PlayerState },
    /// The playback position advanced.
    PositionChanged { position_ms: u64, duration_ms: u64 },
    /// Playback reached the end.
    PlaybackCompleted,
    /// A playback error was reported.
    Error { message: String },
    /// The buffering flag changed.
    BufferingChanged { buffering: bool },
    /// The volume changed, in thousandths.
    VolumeChanged { volume_permille: u32 },
    /// The playback rate changed, in thousandths.
    PlaybackRateChanged { rate_permille: u32 },
}

/// Only position updates are rate-limited; every other event kind is
/// delivered unthrottled.
pub open spec fn spec_throttled_kind(event: &CallbackEvent) -> bool {
    event is PositionChanged
}

/// One listener's throttle: position updates are delivered at most once per
/// interval, tracked by the time the last one was let through.
pub struct ThrottledCallback {
    last_position_update_ms: u64,
    position_update_interval_ms: u64,
}

impl ThrottledCallback {
    pub closed spec fn spec_last_ms(&self) -> int {
        self.last_position_update_ms as int
    }

    pub closed spec fn spec_interval_ms(&self) -> int {
        self.position_update_interval_ms as int
    }

    /// Whether an event arriving at `now_ms` is delivered: position updates
    /// only once the interval has elapsed since the last delivered one, and
    /// every other kind always.
    pub open spec fn spec_should_deliver(&self, event: &CallbackEvent, now_ms: int) -> bool {
        if spec_throttled_kind(event) {
            now_ms - self.spec_last_ms() >= self.spec_interval_ms()
        } else {
            true
        }
    }

    /// A fresh throttle counts its first interval from `now_ms`.
    pub fn new(update_interval_ms: u64, now_ms: u64) -> (t: Self)
        ensures
            t.spec_interval_ms() == update_interval_ms,
            t.spec_last_ms() == now_ms,
    {
        Self {
            last_position_update_ms: now_ms,
            position_update_interval_ms: update_interval_ms,
        }
    }

    /// Decides one delivery and, when a position update goes through, starts
    /// the next interval at `now_ms`.
    pub fn dispatch(&mut self, event: &CallbackEvent, now_ms: u64) -> (deliver: bool)
        requires
            now_ms >= old(self).spec_last_ms(),
        ensures
            deliver == old(self).spec_should_deliver(event, now_ms as int),
            final(self).spec_interval_ms() == old(self).spec_interval_ms(),
            final(self).spec_last_ms() == if spec_throttled_kind(event) && deliver {
                now_ms as int
            } else {
                old(self).spec_last_ms()
            },
    {
        match event {
            CallbackEvent::PositionChanged { .. } => {
                let elapsed = now_ms - self.last_position_update_ms;
                if elapsed >= self.position_update_interval_ms {
                    self.last_position_update_ms = now_ms;
                    true
                } else {
                    false
                }
            },
            _ => true,
        }
    }

    /// Rate limiting: once a position update is delivered, every further
    /// position update inside the configured interval is dropped, so a
    /// window shorter than the interval sees at most one delivery.
    pub proof fn lemma_at_most_one_delivery_per_window(&self, event: &CallbackEvent, now_ms: int)
        requires
            spec_throttled_kind(event),
            now_ms - self.spec_last_ms() < self.spec_interval_ms(),
        ensures
            !self.spec_should_deliver(event, now_ms),
    {
    }

    /// No throttling for the other kinds: they are always delivered and
    /// leave the throttle untouched.
    pub proof fn lemma_other_kinds_always_deliver(&self, event: &CallbackEvent, now_ms: int)
        requires
            !spec_throttled_kind(event),
        ensures
            self.spec_should_deliver(event, now_ms),
    {
    }
}

/// The registered listeners' throttles, by listener index; the listeners
/// themselves live with the caller, which delivers to the indices this
/// manager picks.
pub struct CallbackManager {
    callbacks: Vec<ThrottledCallback>,
}

impl CallbackManager {
    pub closed spec fn spec_callbacks(&self) -> Seq<ThrottledCallback> {
        self.callbacks@
    }

    pub fn new() -> (m: Self)
        ensures
            m.spec_callbacks() == Seq::<ThrottledCallback>::empty(),
    {
        Self { callbacks: Vec::new() }
    }

    /// Registers one listener with its own throttle interval; its index is
    /// the answer.
    pub fn add_callback(&mut self, throttle_ms: u64, now_ms: u64) -> (index: usize)
        ensures
            index == old(self).spec_callbacks().len(),
            final(self).spec_callbacks().len() == old(self).spec_callbacks().len() + 1,
            final(self).spec_callbacks() == old(self).spec_callbacks().push(
                final(self).spec_callbacks().last(),
            ),
            final(self).spec_callbacks().last().spec_interval_ms() == throttle_ms,
            final(self).spec_callbacks().last().spec_last_ms() == now_ms,
    {
        let index = self.callbacks.len();
        self.callbacks.push(ThrottledCallback::new(throttle_ms, now_ms));
        proof {
            assert(self.callbacks@ =~= old(self).callbacks@.push(self.callbacks@.last()));
        }
        index
    }

    pub fn clear_callbacks(&mut self)
        ensures
            final(self).spec_callbacks() == Seq::<ThrottledCallback>::empty(),
    {
        self.callbacks.clear();
    }

    pub fn callback_count(&self) -> (n: usize)
        ensures
            n == self.spec_callbacks().len(),
    {
        self.callbacks.len()
    }

    /// Fans one event out: answers, in increasing order, the indices of the
    /// listeners that receive it — every listener for an unthrottled kind,
    /// and for position updates exactly those whose interval has elapsed,
    /// whose throttles then restart at `now_ms`.
    pub fn dispatch_event(&mut self, event: &CallbackEvent, now_ms: u64) -> (deliver_to: Vec<usize>)
        requires
            forall|i: int|
                0 <= i < old(self).spec_callbacks().len() ==> now_ms >= (#[trigger] old(self).spec_callbacks()[i]).spec_last_ms(),
        ensures
            final(self).spec_callbacks().len() == old(self).spec_callbacks().len(),
            forall|a: int, b: int|
                0 <= a < b < deliver_to@.len() ==> deliver_to@[a] < deliver_to@[b],
            forall|i: int|
                0 <= i < deliver_to@.len() ==> 0 <= #[trigger] deliver_to@[i] < old(self).spec_callbacks().len(),
            forall|k: int|
                0 <= k < old(self).spec_callbacks().len() ==> ((#[trigger] old(self).spec_callbacks()[k]).spec_should_deliver(event, now_ms as int) <==> deliver_to@.contains(
                    k as usize,
                )),
            forall|k: int|
                0 <= k < old(self).spec_callbacks().len() ==> (#[trigger] final(self).spec_callbacks()[k]).spec_interval_ms() == old(self).spec_callbacks()[k].spec_interval_ms() && final(self).spec_callbacks()[k].spec_last_ms() == (if spec_throttled_kind(event) && old(self).spec_callbacks()[k].spec_should_deliver(event, now_ms as int) {
                    now_ms as int
                } else {
                    old(self).spec_callbacks()[k].spec_last_ms()
                }),
    {
        let n = self.callbacks.len();
        let mut deliver_to: Vec<usize> = Vec::new();
        let mut i: usize = 0;
        while i < n
            invariant
                n == old(self).spec_callbacks().len(),
                self.callbacks@.len() == n,
                i <= n,
                forall|j: int|
                    0 <= j < n ==> now_ms >= (#[trigger] old(self).spec_callbacks()[j]).spec_last_ms(),
                forall|j: int|
                    i <= j < n ==> #[trigger] self.callbacks@[j] == old(self).spec_callbacks()[j],
                forall|a: int, b: int|
                    0 <= a < b < deliver_to@.len() ==> deliver_to@[a] < deliver_to@[b],
                forall|j: int| 0 <= j < deliver_to@.len() ==> 0 <= #[trigger] deliver_to@[j] < i,
                forall|k: int|
                    0 <= k < i ==> ((#[trigger] old(self).spec_callbacks()[k]).spec_should_deliver(
                        event,
                        now_ms as int,
                    ) <==> deliver_to@.contains(k as usize)),
                forall|k: int|
                    0 <= k < i ==> (#[trigger] self.callbacks@[k]).spec_interval_ms() == old(self).spec_callbacks()[k].spec_interval_ms() && self.callbacks@[k].spec_last_ms()
                        == (if spec_throttled_kind(event) && old(self).spec_callbacks()[k].spec_should_deliver(event, now_ms as int) {
                        now_ms as int
                    } else {
                        old(self).spec_callbacks()[k].spec_last_ms()
                    }),
            decreases n - i,
        {
            let ghost pre = deliver_to@;
            let cb = vstd::std_specs::vec::vec_index_mut(&mut self.callbacks, i);
            let deliver = cb.dispatch(event, now_ms);
            if deliver {
                deliver_to.push(i);
            }
            proof {
                assert forall|k: int| 0 <= k < i + 1 implies ((#[trigger] old(self).spec_callbacks()[k]).spec_should_deliver(event, now_ms as int)
                    <==> deliver_to@.contains(k as usize)) by {
                    if k < i {
                        if pre.contains(k as usize) {
                            let w = choose|w: int| 0 <= w < pre.len() && pre[w] == k as usize;
                            assert(deliver_to@[w] == k as usize);
                        }
                        if deliver_to@.contains(k as usize) {
                            let w = choose|w: int|
                                0 <= w < deliver_to@.len() && deliver_to@[w] == k as usize;
                            if w < pre.len() {
                                assert(pre[w] == k as usize);
                            }
                        }
                    } else {
                        if deliver {
                            assert(deliver_to@[deliver_to@.len() - 1] == i as usize);
                        } else {
                            if deliver_to@.contains(k as usize) {
                                let w = choose|w: int|
                                    0 <= w < deliver_to@.len() && deliver_to@[w] == k as usize;
                                assert(deliver_to@[w] < i as usize);
                            }
                        }
                    }
                }
            }
            i = i + 1;
        }
        deliver_to
    }
}

} // verus!
