//! The reconnecting listener: it connects to a websocket feed, follows it
//! until it ends, and retries with a doubling delay capped at
//! `MAX_RECONNECT_DELAY_SECS`, until a shutdown is requested.
use vstd::prelude::*;
use vstd::arithmetic::power2::{pow2, lemma_pow2_unfold};
use crate::config::MAX_RECONNECT_DELAY_SECS;
use crate::websocket::ConnectionResult;

verus! {

/// What happened since the listener's last action.
#[derive(Debug, Clone, PartialEq, Eq)]
pub enum ListenerEvent {
    /// A shutdown was requested (checked before each attempt and during each wait).
    ShutdownRequested,
    /// The connection attempt failed.
    ConnectFailed,
    /// The connection attempt succeeded.
    Connected,
    /// The connection ended this way.
    ConnectionClosed(ConnectionResult),
    /// The wait before the next attempt is over.
    WaitElapsed,
}

/// What the listener does next.
#[derive(Debug, Clone, Copy, PartialEq, Eq)]
pub enum ListenerAction {
    /// Try to connect.
    Connect,
    /// Follow the connection that was just made.
    RunConnection,
    /// Wait this many seconds, then report `WaitElapsed`.
    Wait(u64),
    /// Stop listening.
    Stop,
}

/// The listener's state between two actions.
#[derive(Debug)]
pub struct Listener {
    reconnect_delay_secs: u64,
    stopped: bool,
}

/// The wait that follows a wait of `d` seconds: twice as long, at most the cap.
pub open spec fn next_delay(d: int) -> int {
    if 2 * d < MAX_RECONNECT_DELAY_SECS {
        2 * d
    } else {
        MAX_RECONNECT_DELAY_SECS as int
    }
}

/// The wait after `k` failed attempts in a row, starting from a wait of `d`.
pub open spec fn delay_after_failures(d: int, k: nat) -> int
    decreases k,
{
    if k == 0 {
        d
    } else {
        next_delay(delay_after_failures(d, (k - 1) as nat))
    }
}

/// The events after which the listener stops.
pub open spec fn stops_listener(e: ListenerEvent) -> bool {
    ||| e is ShutdownRequested
    ||| e matches ListenerEvent::ConnectionClosed(ConnectionResult::Shutdown)
}

/// The wait after an event that does not stop the listener, from a wait of
/// `d`: a connection resets it to one second, the end of a wait doubles it
/// up to the cap, other events leave it.
pub open spec fn delay_after_event(d: int, e: ListenerEvent) -> int {
    match e {
        ListenerEvent::Connected => 1,
        ListenerEvent::WaitElapsed => next_delay(d),
        _ => d,
    }
}

/// The wait after the events `es`, one after the other, from a wait of `d`.
pub open spec fn delay_after_events(d: int, es: Seq<ListenerEvent>) -> int
    decreases es.len(),
{
    if es.len() == 0 {
        d
    } else {
        delay_after_event(delay_after_events(d, es.drop_last()), es.last())
    }
}

/// How many waits ended since the last successful connection (or since the
/// start, when there was none).
pub open spec fn waits_since_connect(es: Seq<ListenerEvent>) -> nat
    decreases es.len(),
{
    if es.len() == 0 {
        0
    } else {
        match es.last() {
            ListenerEvent::Connected => 0,
            ListenerEvent::WaitElapsed => waits_since_connect(es.drop_last()) + 1,
            _ => waits_since_connect(es.drop_last()),
        }
    }
}

/// `2^k` seconds, capped at `MAX_RECONNECT_DELAY_SECS`.
pub open spec fn capped_wait(k: nat) -> int {
    if pow2(k) < MAX_RECONNECT_DELAY_SECS {
        pow2(k) as int
    } else {
        MAX_RECONNECT_DELAY_SECS as int
    }
}

impl Listener {
    #[verifier::type_invariant]
    spec fn delay_in_range(self) -> bool {
        1 <= self.reconnect_delay_secs <= MAX_RECONNECT_DELAY_SECS
    }

    /// The wait, in seconds, before the next attempt if the current one fails.
    pub closed spec fn delay(self) -> int {
        self.reconnect_delay_secs as int
    }

    /// Whether the listener has stopped.
    pub closed spec fn is_stopped(self) -> bool {
        self.stopped
    }

    /// A listener about to make its first attempt, with a one-second wait.
    pub fn new() -> (l: Listener)
        ensures
            l.delay() == 1,
            !l.is_stopped(),
    {
        Listener { reconnect_delay_secs: 1, stopped: false }
    }

    /// The current wait, in seconds; always between one second and the cap.
    pub fn reconnect_delay_secs(&self) -> (d: u64)
        ensures
            d == self.delay(),
            1 <= d <= MAX_RECONNECT_DELAY_SECS,
    {
        proof {
            use_type_invariant(self);
        }
        self.reconnect_delay_secs
    }

    /// The listener's decision after an event. A shutdown request, or a
    /// connection that ended by shutdown, stops it for good. A failed attempt
    /// or a lost connection waits the current delay. A successful connection
    /// resets the delay to one second and is followed. After a wait the delay
    /// doubles, up to the cap, and the listener tries again.
    pub fn step(&mut self, event: ListenerEvent) -> (action: ListenerAction)
        ensures
            old(self).is_stopped() ==> action == ListenerAction::Stop && *final(self) == *old(self),
            !old(self).is_stopped() && !stops_listener(event) ==> !final(self).is_stopped()
                && final(self).delay() == delay_after_event(old(self).delay(), event),
            !old(self).is_stopped() ==> match event {
                ListenerEvent::ShutdownRequested => action == ListenerAction::Stop
                    && final(self).is_stopped() && final(self).delay() == old(self).delay(),
                ListenerEvent::ConnectFailed => action == ListenerAction::Wait(
                    old(self).delay() as u64,
                ) && *final(self) == *old(self),
                ListenerEvent::Connected => action == ListenerAction::RunConnection
                    && !final(self).is_stopped() && final(self).delay() == 1,
                ListenerEvent::ConnectionClosed(ConnectionResult::Shutdown) => action
                    == ListenerAction::Stop && final(self).is_stopped() && final(self).delay()
                    == old(self).delay(),
                ListenerEvent::ConnectionClosed(ConnectionResult::Disconnected(_)) => action
                    == ListenerAction::Wait(old(self).delay() as u64) && *final(self) == *old(self),
                ListenerEvent::WaitElapsed => action == ListenerAction::Connect
                    && !final(self).is_stopped() && final(self).delay() == next_delay(
                    old(self).delay(),
                ),
            },
    {
        proof {
            use_type_invariant(&*self);
        }
        if self.stopped {
            return ListenerAction::Stop;
        }
        match event {
            ListenerEvent::ShutdownRequested => {
                self.stopped = true;
                ListenerAction::Stop
            },
            ListenerEvent::ConnectFailed => ListenerAction::Wait(self.reconnect_delay_secs),
            ListenerEvent::Connected => {
                self.reconnect_delay_secs = 1;
                ListenerAction::RunConnection
            },
            ListenerEvent::ConnectionClosed(ConnectionResult::Shutdown) => {
                self.stopped = true;
                ListenerAction::Stop
            },
            ListenerEvent::ConnectionClosed(ConnectionResult::Disconnected(_)) => {
                ListenerAction::Wait(self.reconnect_delay_secs)
            },
            ListenerEvent::WaitElapsed => {
                let doubled = self.reconnect_delay_secs * 2;
                self.reconnect_delay_secs =
                    if doubled < MAX_RECONNECT_DELAY_SECS {
                        doubled
                    } else {
                        MAX_RECONNECT_DELAY_SECS
                    };
                ListenerAction::Connect
            },
        }
    }
}

/// Over a whole run that is not stopped, starting from a fresh listener:
/// the wait is `2^k` seconds capped at `MAX_RECONNECT_DELAY_SECS`, where `k`
/// counts the waits since the last successful connection. So the waits go
/// 1, 2, 4, 8, 16, 30, 30, ... while every attempt fails, and back to 1 after
/// a connection.
pub proof fn lemma_backoff_over_run(es: Seq<ListenerEvent>)
    requires
        forall|i: int| 0 <= i < es.len() ==> !stops_listener(#[trigger] es[i]),
    ensures
        delay_after_events(1, es) == capped_wait(waits_since_connect(es)),
    decreases es.len(),
{
    if es.len() == 0 {
        assert(pow2(0) == 1) by {
            vstd::arithmetic::power2::lemma2_to64();
        }
    } else {
        let init = es.drop_last();
        assert forall|i: int| 0 <= i < init.len() implies !stops_listener(#[trigger] init[i]) by {
            assert(init[i] == es[i]);
        }
        lemma_backoff_over_run(init);
        let k = waits_since_connect(init);
        match es.last() {
            ListenerEvent::Connected => {
                assert(pow2(0) == 1) by {
                    vstd::arithmetic::power2::lemma2_to64();
                }
            },
            ListenerEvent::WaitElapsed => {
                lemma_pow2_unfold(k + 1);
            },
            _ => {},
        }
    }
}

/// After `k` failed attempts in a row from a fresh one-second wait, the
/// wait is `2^k` seconds, capped at `MAX_RECONNECT_DELAY_SECS`.
pub proof fn lemma_backoff_doubles_to_cap(k: nat)
    ensures
        delay_after_failures(1, k) == if pow2(k) < MAX_RECONNECT_DELAY_SECS {
            pow2(k) as int
        } else {
            MAX_RECONNECT_DELAY_SECS as int
        },
    decreases k,
{
    if k > 0 {
        lemma_backoff_doubles_to_cap((k - 1) as nat);
        lemma_pow2_unfold(k);
    } else {
        assert(pow2(0) == 1) by {
            vstd::arithmetic::power2::lemma2_to64();
        }
    }
}

/// The wait never leaves the range from one second to the cap, whatever
/// the number of failures.
pub proof fn lemma_backoff_bounded(d: int, k: nat)
    requires
        1 <= d <= MAX_RECONNECT_DELAY_SECS,
    ensures
        1 <= delay_after_failures(d, k) <= MAX_RECONNECT_DELAY_SECS,
    decreases k,
{
    if k > 0 {
        lemma_backoff_bounded(d, (k - 1) as nat);
    }
}

} // verus!
