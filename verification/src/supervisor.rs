//! The serial-link lifecycle: a state machine deciding, for each transport
//! event, the next connection state and the action the surrounding loop
//! must take. The loop itself — opening, reading, sleeping — lives outside
//! the library; every decision lives here.

use vstd::prelude::*;
use vstd::string::StrSliceExecFns;

verus! {

/// Consecutive reopen failures before the long backoff kicks in.
pub const FAILURE_THRESHOLD: u32 = 3;

/// The short retry pause, in milliseconds.
pub const SHORT_RETRY_DELAY_MS: u64 = 1000;

/// The long escalated pause, in milliseconds.
pub const LONG_RETRY_DELAY_MS: u64 = 10000;

/// The pause after a read that returned nothing, in milliseconds.
pub const IDLE_PAUSE_MS: u64 = 10;

/// Where the serial link stands.
#[derive(Clone, Copy, PartialEq, Eq, Structural, Debug)]
pub enum ConnectionState {
    /// Never opened yet; the initial state, never re-entered once open.
    Disconnected,
    /// The link delivers lines.
    Open,
    /// The link failed; `failures` counts the consecutive reopen attempts
    /// that failed since the last escalation or success.
    Reconnecting { failures: u32 },
}

/// What the transport reported.
#[derive(Clone, Copy, PartialEq, Eq, Structural, Debug)]
pub enum ConnectionEvent {
    /// An open or reopen attempt succeeded.
    OpenSucceeded,
    /// An open or reopen attempt failed.
    OpenFailed,
    /// A line was read and handed to the assembler.
    LineRead,
    /// A read returned nothing; the link idles.
    ReadIdle,
    /// A read timed out, which is benign.
    ReadTimedOut,
    /// A read failed with a real transport error.
    ReadFailed,
    /// The shutdown signal fired.
    QuitRequested,
}

/// What the loop around the state machine must do next.
#[derive(Clone, Copy, PartialEq, Eq, Structural, Debug)]
pub enum SupervisorAction {
    /// Write the device-rate command to the transport, then keep reading.
    SendRateCommand,
    /// Keep reading.
    Proceed,
    /// Pause briefly (`IDLE_PAUSE_MS`), then keep reading.
    PauseBriefly,
    /// Retry the read at once.
    RetryNow,
    /// Sleep `SHORT_RETRY_DELAY_MS`, then attempt to reopen.
    BackoffShort,
    /// Sleep `LONG_RETRY_DELAY_MS`, then attempt to reopen.
    BackoffLong,
    /// Close the transport and stop; only the shutdown signal, or a failure
    /// of the very first open, causes this.
    Stop,
}

/// A reachable state: the failure counter stays under the threshold,
/// because reaching it escalates and resets the counter.
pub open spec fn state_wf(s: ConnectionState) -> bool {
    match s {
        ConnectionState::Reconnecting { failures } => failures < FAILURE_THRESHOLD,
        _ => true,
    }
}

/// One decision of the supervisor. `high_rate` says whether the
/// configuration asks for the device's high-sample-rate command on every
/// (re)open. The shutdown signal stops the loop from any state; a failure
/// of the very first open is fatal; a read failure moves to reconnecting;
/// reopen failures back off, escalating to the long pause — and resetting
/// the counter — once `FAILURE_THRESHOLD` consecutive failures are reached.
pub open spec fn spec_step(s: ConnectionState, e: ConnectionEvent, high_rate: bool) -> (
    ConnectionState,
    SupervisorAction,
) {
    match e {
        ConnectionEvent::QuitRequested => (s, SupervisorAction::Stop),
        ConnectionEvent::OpenSucceeded => (
            ConnectionState::Open,
            if high_rate {
                SupervisorAction::SendRateCommand
            } else {
                SupervisorAction::Proceed
            },
        ),
        ConnectionEvent::OpenFailed => match s {
            ConnectionState::Disconnected => (ConnectionState::Disconnected, SupervisorAction::Stop),
            _ => {
                let failures: u32 = match s {
                    ConnectionState::Reconnecting { failures } => failures,
                    _ => 0,
                };
                if failures + 1 >= FAILURE_THRESHOLD {
                    (ConnectionState::Reconnecting { failures: 0 }, SupervisorAction::BackoffLong)
                } else {
                    (
                        ConnectionState::Reconnecting { failures: (failures + 1) as u32 },
                        SupervisorAction::BackoffShort,
                    )
                }
            },
        },
        ConnectionEvent::LineRead => (s, SupervisorAction::Proceed),
        ConnectionEvent::ReadIdle => (s, SupervisorAction::PauseBriefly),
        ConnectionEvent::ReadTimedOut => (s, SupervisorAction::RetryNow),
        ConnectionEvent::ReadFailed => match s {
            ConnectionState::Open => (
                ConnectionState::Reconnecting { failures: 0 },
                SupervisorAction::BackoffShort,
            ),
            _ => (s, SupervisorAction::Proceed),
        },
    }
}

/// Decides the next state and the loop's next action for one event.
pub fn step(s: ConnectionState, e: ConnectionEvent, high_rate: bool) -> (r: (
    ConnectionState,
    SupervisorAction,
))
    ensures
        r == spec_step(s, e, high_rate),
        state_wf(s) ==> state_wf(r.0),
{
    match e {
        ConnectionEvent::QuitRequested => (s, SupervisorAction::Stop),
        ConnectionEvent::OpenSucceeded => (
            ConnectionState::Open,
            if high_rate {
                SupervisorAction::SendRateCommand
            } else {
                SupervisorAction::Proceed
            },
        ),
        ConnectionEvent::OpenFailed => match s {
            ConnectionState::Disconnected => (ConnectionState::Disconnected, SupervisorAction::Stop),
            ConnectionState::Open => (
                ConnectionState::Reconnecting { failures: 1 },
                SupervisorAction::BackoffShort,
            ),
            ConnectionState::Reconnecting { failures } => {
                if failures >= FAILURE_THRESHOLD - 1 {
                    (ConnectionState::Reconnecting { failures: 0 }, SupervisorAction::BackoffLong)
                } else {
                    (
                        ConnectionState::Reconnecting { failures: failures + 1 },
                        SupervisorAction::BackoffShort,
                    )
                }
            },
        },
        ConnectionEvent::LineRead => (s, SupervisorAction::Proceed),
        ConnectionEvent::ReadIdle => (s, SupervisorAction::PauseBriefly),
        ConnectionEvent::ReadTimedOut => (s, SupervisorAction::RetryNow),
        ConnectionEvent::ReadFailed => match s {
            ConnectionState::Open => (
                ConnectionState::Reconnecting { failures: 0 },
                SupervisorAction::BackoffShort,
            ),
            _ => (s, SupervisorAction::Proceed),
        },
    }
}

/// A successful open always clears the failure count: whatever came before,
/// the machine stands in `Open`, which carries no failures.
pub proof fn lemma_open_resets_failures(s: ConnectionState, high_rate: bool)
    ensures
        spec_step(s, ConnectionEvent::OpenSucceeded, high_rate).0 == ConnectionState::Open,
        state_wf(spec_step(s, ConnectionEvent::OpenSucceeded, high_rate).0),
{
}

/// Three consecutive reopen failures escalate: starting a reconnect, the
/// first two failures ask for the short backoff and count up; the third
/// asks for the long backoff and resets the counter to zero.
pub proof fn lemma_reconnect_escalation(high_rate: bool)
    ensures
        ({
            let s0 = ConnectionState::Reconnecting { failures: 0 };
            let r1 = spec_step(s0, ConnectionEvent::OpenFailed, high_rate);
            let r2 = spec_step(r1.0, ConnectionEvent::OpenFailed, high_rate);
            let r3 = spec_step(r2.0, ConnectionEvent::OpenFailed, high_rate);
            &&& r1 == (
                ConnectionState::Reconnecting { failures: 1u32 },
                SupervisorAction::BackoffShort,
            )
            &&& r2 == (
                ConnectionState::Reconnecting { failures: 2u32 },
                SupervisorAction::BackoffShort,
            )
            &&& r3 == (
                ConnectionState::Reconnecting { failures: 0u32 },
                SupervisorAction::BackoffLong,
            )
        }),
{
}

/// The fixed device-configuration frame asking a receiver for the 100 ms
/// (10 Hz) measurement rate; written to the transport at open and after
/// every successful reopen when the configuration asks for it.
pub fn ubx_rate_command() -> (r: Vec<u8>)
    ensures
        r@ == seq![
            0xb5u8,
            0x62u8,
            0x06u8,
            0x08u8,
            0x06u8,
            0x00u8,
            0x64u8,
            0x00u8,
            0x01u8,
            0x00u8,
            0x01u8,
            0x00u8,
            0x7au8,
            0x12u8,
        ],
{
    let r: Vec<u8> = vec![
        0xb5,
        0x62,
        0x06,
        0x08,
        0x06,
        0x00,
        0x64,
        0x00,
        0x01,
        0x00,
        0x01,
        0x00,
        0x7a,
        0x12,
    ];
    assert(r@ =~= seq![
        0xb5u8,
        0x62u8,
        0x06u8,
        0x08u8,
        0x06u8,
        0x00u8,
        0x64u8,
        0x00u8,
        0x01u8,
        0x00u8,
        0x01u8,
        0x00u8,
        0x7au8,
        0x12u8,
    ]);
    r
}

/// Whether an input line is the quit token that fires the shutdown signal.
pub fn is_quit_line(line: &str) -> (r: bool)
    ensures
        r == (line@ == "q"@),
{
    proof {
        reveal_strlit("q");
    }
    let r = line.unicode_len() == 1 && line.get_char(0) == 'q';
    proof {
        if r {
            assert(line@ =~= "q"@);
        }
    }
    r
}

} // verus!
