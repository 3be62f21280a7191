//! The reconnect policy of the streaming request driver, as a state machine
//! that an outside loop drives: it reports what happened, the machine says
//! what to do next.

use vstd::prelude::*;

verus! {

/// The wait before the first reconnect attempt, in seconds.
pub const INITIAL_DELAY_SECS: u64 = 1;

/// The factor by which each further wait grows.
pub const BACKOFF_FACTOR: u64 = 2;

/// The longest wait, in seconds.
pub const MAX_DELAY_SECS: u64 = 60;

/// The wait before the next attempt after `failures` consecutive failed
/// attempts or drops: none before the first attempt, then 1 s, doubling,
/// at most 60 s.
pub open spec fn delay_after(failures: nat) -> nat
    decreases failures,
{
    if failures == 0 {
        0
    } else if failures == 1 {
        INITIAL_DELAY_SECS as nat
    } else {
        let d = BACKOFF_FACTOR as nat * delay_after((failures - 1) as nat);
        if d > MAX_DELAY_SECS as nat {
            MAX_DELAY_SECS as nat
        } else {
            d
        }
    }
}

/// Two to the power `n`.
pub open spec fn two_to(n: nat) -> nat
    decreases n,
{
    if n == 0 {
        1
    } else {
        2 * two_to((n - 1) as nat)
    }
}

/// The wait after `failures` consecutive failures, in seconds.
pub fn reconnect_delay_secs(failures: u32) -> (r: u64)
    ensures
        r == delay_after(failures as nat),
        r <= MAX_DELAY_SECS,
{
    if failures == 0 {
        return 0;
    }
    let mut d: u64 = INITIAL_DELAY_SECS;
    let mut k: u32 = 1;
    while k < failures
        invariant
            1 <= k <= failures,
            d == delay_after(k as nat),
            d <= MAX_DELAY_SECS,
        decreases failures - k,
    {
        let next = BACKOFF_FACTOR * d;
        d = if next > MAX_DELAY_SECS {
            MAX_DELAY_SECS
        } else {
            next
        };
        k = k + 1;
    }
    d
}

/// The waits double from one second until they reach the cap of sixty
/// seconds, and stay there: 1, 2, 4, 8, 16, 32, 60, 60, ...
pub proof fn lemma_backoff_doubles_to_cap(failures: nat)
    requires
        failures >= 1,
    ensures
        delay_after(failures) == if two_to((failures - 1) as nat) < 60 {
            two_to((failures - 1) as nat)
        } else {
            60
        },
    decreases failures,
{
    if failures > 1 {
        lemma_backoff_doubles_to_cap((failures - 1) as nat);
        assert(two_to((failures - 1) as nat) == 2 * two_to((failures - 2) as nat));
    }
}

/// Where the driver stands.
#[derive(PartialEq, Eq, Structural, Debug, Clone, Copy)]
pub enum DriverState {
    /// The first attempt to open the stream is under way.
    Connecting,
    /// The stream is open and events arrive.
    Streaming,
    /// An attempt failed or the stream dropped; `failures` such events in a
    /// row so far.
    Reconnecting { failures: u32 },
    /// The server ended the stream cleanly.
    Closed,
    /// The stream failed for good.
    Failed,
}

/// What the outside loop saw.
#[derive(PartialEq, Eq, Structural, Debug, Clone, Copy)]
pub enum DriverSignal {
    /// The request was answered and the stream is open.
    Connected,
    /// The request could not be made or was refused.
    ConnectFailed,
    /// The open stream broke off.
    Dropped,
    /// The server ended the stream cleanly.
    EndOfStream,
    /// An error that no retry mends.
    Fatal,
}

/// What the outside loop does next.
#[derive(PartialEq, Eq, Structural, Debug, Clone, Copy)]
pub enum DriverAction {
    /// Wait this many seconds, then send the request again.
    Reopen { wait_secs: u64 },
    /// Read the next event.
    Read,
    /// Stop without a word.
    Stop,
    /// Report the error and stop.
    Report,
}

impl DriverState {
    pub open spec fn is_terminal(self) -> bool {
        self is Closed || self is Failed
    }
}

/// One more failure, short of overflow.
pub open spec fn bump(failures: u32) -> u32 {
    if failures < u32::MAX {
        (failures + 1) as u32
    } else {
        failures
    }
}

/// The number of failures in a row once one more attempt failed or the
/// stream dropped: one more while reconnecting, else the first.
pub open spec fn failures_after(s: DriverState) -> u32 {
    match s {
        DriverState::Reconnecting { failures } => bump(failures),
        _ => 1,
    }
}

/// The transition of the driver on a signal: the next state and the action.
pub open spec fn transition(s: DriverState, sig: DriverSignal) -> (DriverState, DriverAction) {
    if s.is_terminal() {
        (s, DriverAction::Stop)
    } else {
        match sig {
            DriverSignal::Fatal => (DriverState::Failed, DriverAction::Report),
            DriverSignal::EndOfStream => (DriverState::Closed, DriverAction::Stop),
            DriverSignal::Connected => (DriverState::Streaming, DriverAction::Read),
            DriverSignal::ConnectFailed | DriverSignal::Dropped => (
                DriverState::Reconnecting { failures: failures_after(s) },
                DriverAction::Reopen { wait_secs: delay_after(failures_after(s) as nat) as u64 },
            ),
        }
    }
}

/// The state in which a stream starts, and the first action: open it at once.
pub fn start() -> (r: (DriverState, DriverAction))
    ensures
        r == (DriverState::Connecting, DriverAction::Reopen { wait_secs: 0 }),
{
    (DriverState::Connecting, DriverAction::Reopen { wait_secs: 0 })
}

fn retry(failures: u32) -> (r: (DriverState, DriverAction))
    ensures
        r == (DriverState::Reconnecting { failures: bump(failures) }, DriverAction::Reopen {
            wait_secs: delay_after(bump(failures) as nat) as u64,
        }),
{
    let f = if failures < u32::MAX {
        failures + 1
    } else {
        failures
    };
    (DriverState::Reconnecting { failures: f }, DriverAction::Reopen {
        wait_secs: reconnect_delay_secs(f),
    })
}

/// The driver's step on a signal. The first attempt is made at once; a
/// failed attempt or a dropped stream is tried again after a growing wait,
/// with no limit on the attempts; a clean end is silent; any other failure
/// is reported.
pub fn step(s: DriverState, sig: DriverSignal) -> (r: (DriverState, DriverAction))
    ensures
        r == transition(s, sig),
{
    match s {
        DriverState::Closed | DriverState::Failed => (s, DriverAction::Stop),
        _ => match sig {
            DriverSignal::Fatal => (DriverState::Failed, DriverAction::Report),
            DriverSignal::EndOfStream => (DriverState::Closed, DriverAction::Stop),
            DriverSignal::Connected => (DriverState::Streaming, DriverAction::Read),
            DriverSignal::ConnectFailed | DriverSignal::Dropped => match s {
                DriverState::Reconnecting { failures } => retry(failures),
                _ => retry(0),
            },
        },
    }
}

} // verus!
