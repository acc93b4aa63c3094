//! The client side of a connection: connect, open, close by the user,
//! unexpected close, and reconnection with exponential backoff.
use vstd::arithmetic::power2::*;
use vstd::prelude::*;

verus! {

/// Longest wait before a reconnection attempt, in milliseconds.
pub const MAX_BACKOFF_MS: u32 = 32000;

/// Wait before the first reconnection attempt, in milliseconds.
pub const BASE_BACKOFF_MS: u32 = 1000;

/// Wait before a reconnection attempt when `retries` attempts have been
/// made since the connection was last open: doubles with each attempt, up
/// to a ceiling.
pub open spec fn backoff_ms(retries: nat) -> nat {
    let d = (BASE_BACKOFF_MS * pow2(retries)) as nat;
    if d < MAX_BACKOFF_MS {
        d
    } else {
        MAX_BACKOFF_MS as nat
    }
}

/// Waits never shrink as attempts accumulate.
pub proof fn lemma_backoff_monotone(a: nat, b: nat)
    requires
        a <= b,
    ensures
        backoff_ms(a) <= backoff_ms(b),
{
    if a < b {
        lemma_pow2_strictly_increases(a, b);
    }
}

/// The wait before a reconnection attempt.
pub fn backoff_delay(retries: u32) -> (r: u32)
    ensures
        r == backoff_ms(retries as nat),
{
    let mut d: u32 = BASE_BACKOFF_MS;
    let mut i: u32 = 0;
    proof {
        lemma2_to64();
    }
    while i < retries && d < MAX_BACKOFF_MS
        invariant
            i <= retries,
            d == BASE_BACKOFF_MS * pow2(i as nat),
            d <= 2 * MAX_BACKOFF_MS,
        decreases retries - i,
    {
        proof {
            lemma_pow2_unfold((i + 1) as nat);
        }
        d = d * 2;
        i = i + 1;
    }
    if d < MAX_BACKOFF_MS {
        d
    } else {
        proof {
            if i < retries {
                lemma_pow2_strictly_increases(i as nat, retries as nat);
            }
        }
        MAX_BACKOFF_MS
    }
}

/// Where a connection stands.
#[derive(Clone, Copy, Debug, PartialEq, Eq, Structural)]
pub enum Phase {
    /// A connection attempt is under way.
    Connecting,
    /// The connection is open.
    Open,
    /// The user asked to close; waiting for the close to complete.
    Closing,
    /// Closed, with no attempt planned.
    Closed,
    /// Closed unexpectedly; a reconnection attempt is scheduled.
    Reconnecting,
}

/// What happened to the connection.
#[derive(Clone, Copy, Debug, PartialEq, Eq, Structural)]
pub enum LinkEvent {
    /// The handshake succeeded.
    Opened,
    /// The user asked to close.
    UserClose,
    /// The connection closed; `clean` when both sides agreed to it.
    Closed { clean: bool },
    /// The transport reported an error.
    Failed,
    /// The scheduled wait is over.
    RetryDue,
}

/// What the caller does next.
#[derive(Clone, Copy, Debug, PartialEq, Eq, Structural)]
pub enum LinkAction {
    /// Nothing.
    Idle,
    /// Send `INIT`; first drop the scheduled attempt when `cancel_retry`.
    SendInit { cancel_retry: bool },
    /// Close the connection.
    CloseSocket,
    /// Drop the scheduled attempt.
    CancelRetry,
    /// After `delay_ms`, report `RetryDue`; this is attempt number
    /// `attempt`.
    ScheduleRetry { attempt: u32, delay_ms: u32 },
    /// Open a new connection.
    OpenSocket,
}

/// The state of a connection and the attempts made since it was last open.
#[derive(Clone, Copy, Debug, PartialEq, Eq, Structural)]
pub struct Link {
    pub phase: Phase,
    pub retries: u32,
}

/// The attempt that follows `retries`; the count stops at its ceiling.
pub open spec fn next_retries(retries: u32) -> u32 {
    if retries < u32::MAX {
        (retries + 1) as u32
    } else {
        retries
    }
}

/// The state after an unexpected close or an error in a live phase.
pub open spec fn schedule(s: Link) -> (Link, LinkAction) {
    (
        Link { phase: Phase::Reconnecting, retries: s.retries },
        LinkAction::ScheduleRetry {
            attempt: next_retries(s.retries),
            delay_ms: backoff_ms(s.retries as nat) as u32,
        },
    )
}

/// One transition of the connection.
pub open spec fn link_step(s: Link, e: LinkEvent) -> (Link, LinkAction) {
    let live = s.phase == Phase::Open || s.phase == Phase::Connecting;
    match e {
        LinkEvent::Opened => (
            Link { phase: Phase::Open, retries: 0 },
            LinkAction::SendInit { cancel_retry: s.phase == Phase::Reconnecting },
        ),
        LinkEvent::UserClose => if live {
            (Link { phase: Phase::Closing, ..s }, LinkAction::CloseSocket)
        } else if s.phase == Phase::Reconnecting {
            (Link { phase: Phase::Closed, ..s }, LinkAction::CancelRetry)
        } else {
            (s, LinkAction::Idle)
        },
        LinkEvent::Closed { clean } => if live && !clean {
            schedule(s)
        } else if s.phase == Phase::Reconnecting {
            (s, LinkAction::Idle)
        } else {
            (Link { phase: Phase::Closed, ..s }, LinkAction::Idle)
        },
        LinkEvent::Failed => if live {
            schedule(s)
        } else {
            (s, LinkAction::Idle)
        },
        LinkEvent::RetryDue => if s.phase == Phase::Reconnecting {
            (
                Link { phase: Phase::Connecting, retries: next_retries(s.retries) },
                LinkAction::OpenSocket,
            )
        } else {
            (s, LinkAction::Idle)
        },
    }
}

impl Link {
    pub open spec fn new_spec() -> Link {
        Link { phase: Phase::Connecting, retries: 0 }
    }

    /// A connection whose first attempt is under way.
    pub fn new() -> (r: Link)
        ensures
            r == Link::new_spec(),
    {
        Link { phase: Phase::Connecting, retries: 0 }
    }

    fn schedule_retry(&mut self) -> (r: LinkAction)
        ensures
            (*final(self), r) == schedule(*old(self)),
    {
        let attempt = if self.retries < u32::MAX {
            self.retries + 1
        } else {
            self.retries
        };
        let delay_ms = backoff_delay(self.retries);
        self.phase = Phase::Reconnecting;
        LinkAction::ScheduleRetry { attempt, delay_ms }
    }

    /// Applies `e` and tells what to do.
    pub fn on_event(&mut self, e: LinkEvent) -> (r: LinkAction)
        ensures
            (*final(self), r) == link_step(*old(self), e),
    {
        let live = self.phase == Phase::Open || self.phase == Phase::Connecting;
        match e {
            LinkEvent::Opened => {
                let cancel_retry = self.phase == Phase::Reconnecting;
                self.phase = Phase::Open;
                self.retries = 0;
                LinkAction::SendInit { cancel_retry }
            },
            LinkEvent::UserClose => {
                if live {
                    self.phase = Phase::Closing;
                    LinkAction::CloseSocket
                } else if self.phase == Phase::Reconnecting {
                    self.phase = Phase::Closed;
                    LinkAction::CancelRetry
                } else {
                    LinkAction::Idle
                }
            },
            LinkEvent::Closed { clean } => {
                if live && !clean {
                    self.schedule_retry()
                } else if self.phase == Phase::Reconnecting {
                    LinkAction::Idle
                } else {
                    self.phase = Phase::Closed;
                    LinkAction::Idle
                }
            },
            LinkEvent::Failed => {
                if live {
                    self.schedule_retry()
                } else {
                    LinkAction::Idle
                }
            },
            LinkEvent::RetryDue => {
                if self.phase == Phase::Reconnecting {
                    self.phase = Phase::Connecting;
                    self.retries = if self.retries < u32::MAX {
                        self.retries + 1
                    } else {
                        self.retries
                    };
                    LinkAction::OpenSocket
                } else {
                    LinkAction::Idle
                }
            },
        }
    }
}

/// The waits of the attempts that one transition schedules.
pub open spec fn delays_of(a: LinkAction) -> Seq<u32> {
    match a {
        LinkAction::ScheduleRetry { delay_ms, .. } => seq![delay_ms],
        _ => Seq::empty(),
    }
}

/// The waits of every attempt scheduled while `events` happen from `s`.
pub open spec fn retry_delays(s: Link, events: Seq<LinkEvent>) -> Seq<u32>
    decreases events.len(),
{
    if events.len() == 0 {
        Seq::empty()
    } else {
        let (next, a) = link_step(s, events[0]);
        delays_of(a) + retry_delays(next, events.drop_first())
    }
}

pub open spec fn non_decreasing(d: Seq<u32>) -> bool {
    forall|i: int, j: int| 0 <= i <= j < d.len() ==> d[i] <= d[j]
}

pub open spec fn never_opens(events: Seq<LinkEvent>) -> bool {
    forall|i: int| 0 <= i < events.len() ==> events[i] != LinkEvent::Opened
}

/// Without a successful open, the scheduled waits never shrink, and none
/// is shorter than the wait that the current attempt count gives.
pub proof fn lemma_retry_delays_non_decreasing(s: Link, events: Seq<LinkEvent>)
    requires
        never_opens(events),
    ensures
        non_decreasing(retry_delays(s, events)),
        forall|i: int|
            0 <= i < retry_delays(s, events).len() ==> backoff_ms(s.retries as nat) <= #[trigger] retry_delays(
                s,
                events,
            )[i],
    decreases events.len(),
{
    if events.len() > 0 {
        let (next, a) = link_step(s, events[0]);
        let rest = events.drop_first();
        assert(events[0] != LinkEvent::Opened);
        assert(never_opens(rest)) by {
            assert forall|i: int| 0 <= i < rest.len() implies rest[i] != LinkEvent::Opened by {
                assert(rest[i] == events[i + 1]);
            }
        }
        lemma_retry_delays_non_decreasing(next, rest);
        assert(s.retries <= next.retries);
        lemma_backoff_monotone(s.retries as nat, next.retries as nat);
        lemma_backoff_below_max(s.retries as nat);
        let d = retry_delays(s, events);
        assert(d == delays_of(a) + retry_delays(next, rest));
    }
}

proof fn lemma_backoff_below_max(r: nat)
    ensures
        backoff_ms(r) <= MAX_BACKOFF_MS,
{
}

/// From a state with no scheduled attempt, the first wait scheduled is the
/// one that the current attempt count gives.
pub proof fn lemma_first_delay(s: Link, events: Seq<LinkEvent>)
    requires
        never_opens(events),
        s.phase != Phase::Reconnecting,
        retry_delays(s, events).len() > 0,
    ensures
        retry_delays(s, events)[0] == backoff_ms(s.retries as nat),
    decreases events.len(),
{
    let (next, a) = link_step(s, events[0]);
    let rest = events.drop_first();
    lemma_backoff_below_max(s.retries as nat);
    if delays_of(a).len() == 0 {
        assert(events[0] != LinkEvent::Opened);
        assert(never_opens(rest)) by {
            assert forall|i: int| 0 <= i < rest.len() implies rest[i] != LinkEvent::Opened by {
                assert(rest[i] == events[i + 1]);
            }
        }
        assert(retry_delays(s, events) =~= retry_delays(next, rest));
        lemma_first_delay(next, rest);
    }
}

/// A successful open starts the waits over: after it, the scheduled waits
/// again begin with the shortest one and never shrink until the next open.
pub proof fn lemma_open_resets_backoff(s: Link, events: Seq<LinkEvent>)
    requires
        never_opens(events),
    ensures
        link_step(s, LinkEvent::Opened).0.retries == 0,
        non_decreasing(retry_delays(link_step(s, LinkEvent::Opened).0, events)),
        retry_delays(link_step(s, LinkEvent::Opened).0, events).len() > 0 ==> retry_delays(
            link_step(s, LinkEvent::Opened).0,
            events,
        )[0] == backoff_ms(0),
{
    let open = link_step(s, LinkEvent::Opened).0;
    lemma_retry_delays_non_decreasing(open, events);
    if retry_delays(open, events).len() > 0 {
        lemma_first_delay(open, events);
    }
}

} // verus!
