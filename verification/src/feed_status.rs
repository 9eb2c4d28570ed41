//! Connection status of the realtime websocket workers.
//!
//! Every worker run carries the generation it was started with; events of
//! an older generation are ignored, so a replaced worker cannot overwrite
//! the status of its successor.
use vstd::prelude::*;

verus! {

/// Status of the public (or candle) websocket worker.
pub struct FeedStatus {
    pub generation: u64,
    pub connected: bool,
    pub last_error: Option<String>,
    pub last_connected_at: Option<i64>,
    pub last_message_at: Option<i64>,
    pub reconnect_count: u64,
    /// Whether a worker task is registered for the current generation.
    pub task_running: bool,
}

pub open spec fn opt_text(o: Option<String>) -> Option<Seq<char>> {
    match o {
        Some(s) => Some(s@),
        None => None,
    }
}

impl FeedStatus {
    /// The status seen through views.
    pub open spec fn model(&self) -> (u64, bool, Option<Seq<char>>, Option<i64>, Option<i64>, u64, bool) {
        (
            self.generation,
            self.connected,
            opt_text(self.last_error),
            self.last_connected_at,
            self.last_message_at,
            self.reconnect_count,
            self.task_running,
        )
    }

    /// A worker that has never run.
    pub fn new() -> (s: FeedStatus)
        ensures
            s.generation == 0,
            !s.connected,
            s.last_error is None,
            s.last_connected_at is None,
            s.last_message_at is None,
            s.reconnect_count == 0,
            !s.task_running,
    {
        FeedStatus {
            generation: 0,
            connected: false,
            last_error: None,
            last_connected_at: None,
            last_message_at: None,
            reconnect_count: 0,
            task_running: false,
        }
    }

    /// Starts a new generation: the old worker is dropped, the feed reads as
    /// disconnected without error. Returns the new generation.
    pub fn restart(&mut self) -> (g: u64)
        ensures
            g == final(self).generation,
            g == (if old(self).generation < u64::MAX {
                (old(self).generation + 1) as u64
            } else {
                u64::MAX
            }),
            !final(self).connected,
            final(self).last_error is None,
            !final(self).task_running,
            final(self).last_connected_at == old(self).last_connected_at,
            final(self).last_message_at == old(self).last_message_at,
            final(self).reconnect_count == old(self).reconnect_count,
    {
        self.generation = self.generation.saturating_add(1);
        self.connected = false;
        self.last_error = None;
        self.task_running = false;
        self.generation
    }

    /// Registers the spawned worker, if its generation is still current.
    pub fn register_task(&mut self, generation: u64) -> (kept: bool)
        ensures
            kept == (generation == old(self).generation),
            kept ==> final(self).model() == (
                old(self).generation,
                old(self).connected,
                opt_text(old(self).last_error),
                old(self).last_connected_at,
                old(self).last_message_at,
                old(self).reconnect_count,
                true,
            ),
            !kept ==> final(self).model() == old(self).model(),
    {
        if self.generation == generation {
            self.task_running = true;
            true
        } else {
            false
        }
    }

    /// The worker of `generation` connected at `now`.
    pub fn mark_connected(&mut self, generation: u64, now: i64)
        ensures
            generation != old(self).generation ==> final(self).model() == old(self).model(),
            generation == old(self).generation ==> final(self).model() == (
                old(self).generation,
                true,
                None::<Seq<char>>,
                Some(now),
                Some(now),
                old(self).reconnect_count,
                old(self).task_running,
            ),
    {
        if self.generation != generation {
            return;
        }
        self.connected = true;
        self.last_connected_at = Some(now);
        self.last_message_at = Some(now);
        self.last_error = None;
    }

    /// The worker of `generation` received a message at `now`.
    pub fn mark_message(&mut self, generation: u64, now: i64)
        ensures
            generation != old(self).generation ==> final(self).model() == old(self).model(),
            generation == old(self).generation ==> final(self).model() == (
                old(self).generation,
                old(self).connected,
                opt_text(old(self).last_error),
                old(self).last_connected_at,
                Some(now),
                old(self).reconnect_count,
                old(self).task_running,
            ),
    {
        if self.generation == generation {
            self.last_message_at = Some(now);
        }
    }

    /// The worker of `generation` reports an error (or clears it).
    pub fn set_last_error(&mut self, generation: u64, error: Option<String>)
        ensures
            generation != old(self).generation ==> final(self).model() == old(self).model(),
            generation == old(self).generation ==> final(self).model() == (
                old(self).generation,
                old(self).connected,
                opt_text(error),
                old(self).last_connected_at,
                old(self).last_message_at,
                old(self).reconnect_count,
                old(self).task_running,
            ),
    {
        if self.generation == generation {
            self.last_error = error;
        }
    }

    /// The worker of `generation` lost its connection; the error replaces
    /// the previous one and one more reconnect is counted.
    pub fn mark_disconnected(&mut self, generation: u64, error: Option<String>)
        ensures
            generation != old(self).generation ==> final(self).model() == old(self).model(),
            generation == old(self).generation ==> final(self).model() == (
                old(self).generation,
                false,
                opt_text(error),
                old(self).last_connected_at,
                old(self).last_message_at,
                if old(self).reconnect_count < u64::MAX {
                    (old(self).reconnect_count + 1) as u64
                } else {
                    u64::MAX
                },
                old(self).task_running,
            ),
    {
        if self.generation != generation {
            return;
        }
        self.connected = false;
        self.last_error = error;
        self.reconnect_count = self.reconnect_count.saturating_add(1);
    }

    /// The worker of `generation` has ended.
    pub fn mark_worker_finished(&mut self, generation: u64)
        ensures
            generation != old(self).generation ==> final(self).model() == old(self).model(),
            generation == old(self).generation ==> final(self).model() == (
                old(self).generation,
                false,
                opt_text(old(self).last_error),
                old(self).last_connected_at,
                old(self).last_message_at,
                old(self).reconnect_count,
                false,
            ),
    {
        if self.generation != generation {
            return;
        }
        self.connected = false;
        self.task_running = false;
    }

    /// Whether the worker of `generation` should keep running, given
    /// whether anything is still subscribed.
    pub fn should_continue(&self, generation: u64, subscribed: bool) -> (b: bool)
        ensures
            b == (self.generation == generation && subscribed),
    {
        self.generation == generation && subscribed
    }
}

/// Status of one mode's private (or business) websocket worker. A field is
/// `None` until the worker of that mode first set it.
pub struct ModeFeedStatus {
    pub generation: Option<u64>,
    pub connected: Option<bool>,
    pub last_error: Option<String>,
    pub last_connected_at: Option<i64>,
    pub last_message_at: Option<i64>,
    pub reconnect_count: Option<u64>,
    pub task_running: bool,
}

impl ModeFeedStatus {
    pub open spec fn model(&self) -> (
        Option<u64>,
        Option<bool>,
        Option<Seq<char>>,
        Option<i64>,
        Option<i64>,
        Option<u64>,
        bool,
    ) {
        (
            self.generation,
            self.connected,
            opt_text(self.last_error),
            self.last_connected_at,
            self.last_message_at,
            self.reconnect_count,
            self.task_running,
        )
    }

    /// Whether events of `generation` belong to the current worker.
    pub open spec fn is_current(&self, generation: u64) -> bool {
        self.generation == Some(generation)
    }

    /// A mode whose worker has never run.
    pub fn new() -> (s: ModeFeedStatus)
        ensures
            s.model() == (
                None::<u64>,
                None::<bool>,
                None::<Seq<char>>,
                None::<i64>,
                None::<i64>,
                None::<u64>,
                false,
            ),
    {
        ModeFeedStatus {
            generation: None,
            connected: None,
            last_error: None,
            last_connected_at: None,
            last_message_at: None,
            reconnect_count: None,
            task_running: false,
        }
    }

    /// Starts a new generation for the mode. Returns it.
    pub fn restart(&mut self) -> (g: u64)
        ensures
            final(self).generation == Some(g),
            g == (match old(self).generation {
                None => 1,
                Some(p) => if p < u64::MAX {
                    (p + 1) as u64
                } else {
                    u64::MAX
                },
            }),
            final(self).connected == Some(false),
            final(self).last_error is None,
            !final(self).task_running,
            final(self).last_connected_at == old(self).last_connected_at,
            final(self).last_message_at == old(self).last_message_at,
            final(self).reconnect_count == old(self).reconnect_count,
    {
        let previous = match self.generation {
            Some(p) => p,
            None => 0,
        };
        let g = previous.saturating_add(1);
        self.generation = Some(g);
        self.connected = Some(false);
        self.last_error = None;
        self.task_running = false;
        g
    }

    /// Registers the spawned worker, if its generation is still current.
    pub fn register_task(&mut self, generation: u64) -> (kept: bool)
        ensures
            kept == old(self).is_current(generation),
            kept ==> final(self).task_running && final(self).generation == old(self).generation
                && final(self).connected == old(self).connected && opt_text(final(self).last_error)
                == opt_text(old(self).last_error) && final(self).last_connected_at == old(
                self,
            ).last_connected_at && final(self).last_message_at == old(self).last_message_at
                && final(self).reconnect_count == old(self).reconnect_count,
            !kept ==> final(self).model() == old(self).model(),
    {
        if self.generation == Some(generation) {
            self.task_running = true;
            true
        } else {
            false
        }
    }

    /// The mode's worker of `generation` connected at `now`.
    pub fn mark_connected(&mut self, generation: u64, now: i64)
        ensures
            !old(self).is_current(generation) ==> final(self).model() == old(self).model(),
            old(self).is_current(generation) ==> final(self).model() == (
                old(self).generation,
                Some(true),
                None::<Seq<char>>,
                Some(now),
                Some(now),
                old(self).reconnect_count,
                old(self).task_running,
            ),
    {
        if self.generation != Some(generation) {
            return;
        }
        self.connected = Some(true);
        self.last_connected_at = Some(now);
        self.last_message_at = Some(now);
        self.last_error = None;
    }

    /// The mode's worker of `generation` received a message at `now`.
    pub fn mark_message(&mut self, generation: u64, now: i64)
        ensures
            !old(self).is_current(generation) ==> final(self).model() == old(self).model(),
            old(self).is_current(generation) ==> final(self).model() == (
                old(self).generation,
                old(self).connected,
                opt_text(old(self).last_error),
                old(self).last_connected_at,
                Some(now),
                old(self).reconnect_count,
                old(self).task_running,
            ),
    {
        if self.generation == Some(generation) {
            self.last_message_at = Some(now);
        }
    }

    /// The mode's worker of `generation` reports an error; `None` clears it.
    pub fn set_last_error(&mut self, generation: u64, error: Option<String>)
        ensures
            !old(self).is_current(generation) ==> final(self).model() == old(self).model(),
            old(self).is_current(generation) ==> final(self).model() == (
                old(self).generation,
                old(self).connected,
                opt_text(error),
                old(self).last_connected_at,
                old(self).last_message_at,
                old(self).reconnect_count,
                old(self).task_running,
            ),
    {
        if self.generation != Some(generation) {
            return;
        }
        self.last_error = error;
    }

    /// The mode's worker of `generation` lost its connection. An error
    /// replaces the previous one; without one the previous error stays. One
    /// more reconnect is counted.
    pub fn mark_disconnected(&mut self, generation: u64, error: Option<String>)
        requires
            old(self).reconnect_count matches Some(c) ==> c < u64::MAX,
        ensures
            !old(self).is_current(generation) ==> final(self).model() == old(self).model(),
            old(self).is_current(generation) ==> final(self).model() == (
                old(self).generation,
                Some(false),
                if error is Some {
                    opt_text(error)
                } else {
                    opt_text(old(self).last_error)
                },
                old(self).last_connected_at,
                old(self).last_message_at,
                Some(
                    (match old(self).reconnect_count {
                        Some(c) => c + 1,
                        None => 1,
                    }) as u64,
                ),
                old(self).task_running,
            ),
    {
        if self.generation != Some(generation) {
            return;
        }
        self.connected = Some(false);
        if error.is_some() {
            self.last_error = error;
        }
        let count = match self.reconnect_count {
            Some(c) => c + 1,
            None => 1,
        };
        self.reconnect_count = Some(count);
    }

    /// The mode's worker of `generation` has ended.
    pub fn mark_worker_finished(&mut self, generation: u64)
        ensures
            !old(self).is_current(generation) ==> final(self).model() == old(self).model(),
            old(self).is_current(generation) ==> final(self).model() == (
                old(self).generation,
                Some(false),
                opt_text(old(self).last_error),
                old(self).last_connected_at,
                old(self).last_message_at,
                old(self).reconnect_count,
                false,
            ),
    {
        if self.generation != Some(generation) {
            return;
        }
        self.connected = Some(false);
        self.task_running = false;
    }

    /// Whether the mode's worker of `generation` should keep running.
    pub fn should_continue(&self, generation: u64, subscribed: bool) -> (b: bool)
        ensures
            b == (self.is_current(generation) && subscribed),
    {
        self.generation == Some(generation) && subscribed
    }
}


/// The next reconnect delay: double the current one, at most `max_ms`.
pub fn next_reconnect_delay(current_ms: u64, max_ms: u64) -> (d: u64)
    requires
        current_ms <= u64::MAX / 2,
    ensures
        d == (if current_ms * 2 <= max_ms {
            current_ms * 2
        } else {
            max_ms as int
        }),
{
    let doubled = current_ms * 2;
    if doubled <= max_ms {
        doubled
    } else {
        max_ms
    }
}

/// What a websocket worker does after one connection run.
pub enum WorkerStep {
    /// The run ended cleanly: connect again with the initial delay restored.
    Reconnect { next_delay_ms: u64 },
    /// The run failed and the feed is still wanted: wait, then retry with a
    /// longer delay.
    Retry { sleep_ms: u64, next_delay_ms: u64 },
    /// The run failed and the feed is no longer wanted: stop.
    Stop,
}

/// Decides a worker's next step after a connection run, given whether the
/// run failed and whether its generation is still current and subscribed.
pub fn after_connection_run(failed: bool, still_wanted: bool, delay_ms: u64, initial_ms: u64, max_ms: u64) -> (step: WorkerStep)
    requires
        failed && still_wanted ==> delay_ms <= u64::MAX / 2,
    ensures
        !failed ==> step == (WorkerStep::Reconnect { next_delay_ms: initial_ms }),
        failed && !still_wanted ==> step is Stop,
        failed && still_wanted ==> step == (WorkerStep::Retry {
            sleep_ms: delay_ms,
            next_delay_ms: if delay_ms * 2 <= max_ms {
                (delay_ms * 2) as u64
            } else {
                max_ms
            },
        }),
{
    if !failed {
        return WorkerStep::Reconnect { next_delay_ms: initial_ms };
    }
    if !still_wanted {
        return WorkerStep::Stop;
    }
    WorkerStep::Retry { sleep_ms: delay_ms, next_delay_ms: next_reconnect_delay(delay_ms, max_ms) }
}

} // verus!
