//! The polling driver: when to sleep, when to ask the wallet whether it is
//! there, and when to scan.

use crate::scanner::SAFETY_MARGIN;
use vstd::prelude::*;

verus! {

/// The usual seconds between two rounds.
pub const POLL_INTERVAL_SECS: u64 = 2;

/// The usual seconds to wait after a round that failed.
pub const BACKOFF_SECS: u64 = 10;

/// The times and the margin that a listener works with.
#[derive(Clone, Copy, Debug, PartialEq, Eq, Structural)]
pub struct PollPolicy {
    /// The seconds between two rounds.
    pub interval_secs: u64,
    /// The seconds to wait after a round that failed.
    pub backoff_secs: u64,
    /// The blocks below the checkpoint that each scan looks at again.
    pub safety_margin: u64,
}

/// What the listener is waiting for.
#[derive(Clone, Copy, Debug, PartialEq, Eq, Structural)]
pub enum ListenerState {
    /// The end of the pause before a round.
    Resting,
    /// The wallet's answer to a ping.
    Pinging,
    /// The end of a scan.
    Scanning,
    /// The end of the pause after a failure.
    BackingOff,
}

/// What happened since the listener's last action.
#[derive(Clone, Copy, Debug, PartialEq, Eq, Structural)]
pub enum ListenerEvent {
    /// The pause is over.
    Woke,
    /// The wallet answered the ping.
    PingSucceeded,
    /// The wallet did not answer the ping.
    PingFailed,
    /// The scan ran to its end.
    ScanSucceeded,
    /// The scan broke off on an error.
    ScanFailed,
}

/// What the listener asks to be done next.
#[derive(Clone, Copy, Debug, PartialEq, Eq, Structural)]
pub enum ListenerAction {
    /// Pause for this many seconds, then report `Woke`.
    Sleep(u64),
    /// Ping the wallet, then report how it went.
    Ping,
    /// Run one scan, then report how it went.
    Scan,
}

/// The policy with the usual times: two seconds between rounds, ten after a
/// failure, ten blocks of margin.
pub open spec fn standard_policy() -> PollPolicy {
    PollPolicy { interval_secs: 2, backoff_secs: 10, safety_margin: 10 }
}

/// What the listener waits for after `event` came while it waited for
/// `state`. An event that the state does not expect starts a new round.
pub open spec fn next_state(state: ListenerState, event: ListenerEvent) -> ListenerState {
    match (state, event) {
        (ListenerState::Resting, ListenerEvent::Woke) => ListenerState::Pinging,
        (ListenerState::Pinging, ListenerEvent::PingSucceeded) => ListenerState::Scanning,
        (ListenerState::Pinging, ListenerEvent::PingFailed) => ListenerState::BackingOff,
        (ListenerState::Scanning, ListenerEvent::ScanFailed) => ListenerState::BackingOff,
        _ => ListenerState::Resting,
    }
}

/// What the listener asks for on entering `state`.
pub open spec fn action_of(policy: PollPolicy, state: ListenerState) -> ListenerAction {
    match state {
        ListenerState::Resting => ListenerAction::Sleep(policy.interval_secs),
        ListenerState::Pinging => ListenerAction::Ping,
        ListenerState::Scanning => ListenerAction::Scan,
        ListenerState::BackingOff => ListenerAction::Sleep(policy.backoff_secs),
    }
}

impl PollPolicy {
    /// The policy with the usual times and margin.
    pub fn standard() -> (policy: PollPolicy)
        ensures
            policy == standard_policy(),
    {
        PollPolicy {
            interval_secs: POLL_INTERVAL_SECS,
            backoff_secs: BACKOFF_SECS,
            safety_margin: SAFETY_MARGIN,
        }
    }
}

/// The driver of the settlement scanner. It decides; its caller sleeps,
/// pings and scans as it says, and reports back.
#[derive(Clone, Copy, Debug)]
pub struct TransactionListener {
    policy: PollPolicy,
    state: ListenerState,
}

impl TransactionListener {
    /// The policy that the listener works with.
    pub closed spec fn policy(&self) -> PollPolicy {
        self.policy
    }

    /// What the listener is waiting for.
    pub closed spec fn state(&self) -> ListenerState {
        self.state
    }

    /// A listener at the start of its first round, which has just asked for
    /// `self.pending()`: the pause between rounds.
    pub fn new(policy: PollPolicy) -> (listener: TransactionListener)
        ensures
            listener.policy() == policy,
            listener.state() == ListenerState::Resting,
    {
        TransactionListener { policy, state: ListenerState::Resting }
    }

    /// What the listener is waiting for.
    pub fn current_state(&self) -> (state: ListenerState)
        ensures
            state == self.state(),
    {
        self.state
    }

    /// The scan policy's margin below the checkpoint.
    pub fn safety_margin(&self) -> (margin: u64)
        ensures
            margin == self.policy().safety_margin,
    {
        self.policy.safety_margin
    }

    /// The action that the listener last asked for.
    pub fn pending(&self) -> (action: ListenerAction)
        ensures
            action == action_of(self.policy(), self.state()),
    {
        match self.state {
            ListenerState::Resting => ListenerAction::Sleep(self.policy.interval_secs),
            ListenerState::Pinging => ListenerAction::Ping,
            ListenerState::Scanning => ListenerAction::Scan,
            ListenerState::BackingOff => ListenerAction::Sleep(self.policy.backoff_secs),
        }
    }

    /// Takes note of `event` and says what to do next. After the pause the
    /// wallet is pinged; after a ping that succeeded a scan runs; after a
    /// ping or a scan that failed comes the longer pause and then a new
    /// round; after a scan that succeeded a new round starts. There is no
    /// event on which the listener stops.
    pub fn on_event(&mut self, event: ListenerEvent) -> (action: ListenerAction)
        ensures
            final(self).policy() == old(self).policy(),
            final(self).state() == next_state(old(self).state(), event),
            action == action_of(final(self).policy(), final(self).state()),
    {
        let next = match (self.state, event) {
            (ListenerState::Resting, ListenerEvent::Woke) => ListenerState::Pinging,
            (ListenerState::Pinging, ListenerEvent::PingSucceeded) => ListenerState::Scanning,
            (ListenerState::Pinging, ListenerEvent::PingFailed) => ListenerState::BackingOff,
            (ListenerState::Scanning, ListenerEvent::ScanFailed) => ListenerState::BackingOff,
            _ => ListenerState::Resting,
        };
        self.state = next;
        self.pending()
    }
}

} // verus!
