//! The reconciliation scheduler as a state machine.
//!
//! The engine cycles through `Running` (a reconciliation cycle is in
//! flight), `Waiting` (armed until the next tick) and `Stopped`.  The step
//! function below fixes every transition; the process around the library
//! feeds it events (a timer firing, a cycle finishing, a runtime interval
//! change, a shutdown request) and performs the returned action.  Two
//! properties are pinned down and proved: re-arming after an interval
//! change keeps the original tick anchor, so reconfiguration neither drifts
//! nor double-fires; and a shutdown request never interrupts an in-flight
//! cycle, it is honored at the next waiting boundary.

use vstd::prelude::*;

use crate::addr::{format_ipv4, format_ipv6_list, spec_format_ipv4, spec_format_ipv6_list};
use crate::check::{Ipv4CheckResult, Ipv6CheckResult};
use crate::error::SleepIntervalError;

verus! {

/// Which address families the configuration enables.
#[derive(Debug, Clone, Copy, PartialEq, Eq, Structural)]
pub enum IpVersion {
    V4,
    V6,
    ALL,
}

impl IpVersion {
    /// Reads a mode back from the store's integer column: 1 is IPv4 only,
    /// 2 IPv6 only, 3 both; anything else is unrecognized.
    pub fn from_stored(value: i32) -> (r: Option<IpVersion>)
        ensures
            r == if value == 1 {
                Some(IpVersion::V4)
            } else if value == 2 {
                Some(IpVersion::V6)
            } else if value == 3 {
                Some(IpVersion::ALL)
            } else {
                None::<IpVersion>
            },
    {
        match value {
            1 => Some(IpVersion::V4),
            2 => Some(IpVersion::V6),
            3 => Some(IpVersion::ALL),
            _ => None,
        }
    }

    /// Converts for the store's integer column.
    pub fn to_stored(self) -> (r: i32)
        ensures
            r == match self {
                IpVersion::V4 => 1i32,
                IpVersion::V6 => 2i32,
                IpVersion::ALL => 3i32,
            },
    {
        match self {
            IpVersion::V4 => 1,
            IpVersion::V6 => 2,
            IpVersion::ALL => 3,
        }
    }
}

/// Which checkers one cycle runs: IPv4 and/or IPv6.
pub fn cycle_plan(mode: &IpVersion) -> (r: (bool, bool))
    ensures
        r.0 == (mode is V4 || mode is ALL),
        r.1 == (mode is V6 || mode is ALL),
{
    match mode {
        IpVersion::V4 => (true, false),
        IpVersion::V6 => (false, true),
        IpVersion::ALL => (true, true),
    }
}

/// A validated poll interval: a positive number of seconds.
#[derive(Debug, Clone, Copy, PartialEq, Eq, Structural)]
pub struct SleepInterval {
    /// The period in seconds; always at least 1.
    pub secs: u64,
}

impl SleepInterval {
    /// Every constructed interval is positive.
    pub open spec fn wf(self) -> bool {
        self.secs >= 1
    }

    /// Validates a number of seconds; zero is rejected.
    pub fn new(value: u64) -> (r: Result<SleepInterval, SleepIntervalError>)
        ensures
            match r {
                Ok(s) => s.secs == value && s.wf() && value > 0,
                Err(e) => value == 0 && e == SleepIntervalError::NonPositive,
            },
    {
        if value == 0 {
            Err(SleepIntervalError::NonPositive)
        } else {
            Ok(SleepInterval { secs: value })
        }
    }

    /// The period in seconds.
    pub fn get(self) -> (r: u64)
        ensures
            r == self.secs,
    {
        self.secs
    }

    /// Reads an interval back from the store's signed column; zero and
    /// negative values are rejected.
    pub fn from_stored(value: i64) -> (r: Result<SleepInterval, SleepIntervalError>)
        ensures
            match r {
                Ok(s) => value > 0 && s.secs == value,
                Err(e) => value <= 0 && e == SleepIntervalError::NonPositive,
            },
    {
        if value <= 0 {
            Err(SleepIntervalError::NonPositive)
        } else {
            Ok(SleepInterval { secs: value as u64 })
        }
    }

    /// Converts for the store's signed column; an interval beyond that
    /// column's range is rejected.
    pub fn to_stored(self) -> (r: Result<i64, SleepIntervalError>)
        ensures
            match r {
                Ok(v) => self.secs <= i64::MAX && v == self.secs,
                Err(e) => self.secs > i64::MAX && e == SleepIntervalError::Overflow,
            },
    {
        if self.secs <= 0x7fff_ffff_ffff_ffff {
            Ok(self.secs as i64)
        } else {
            Err(SleepIntervalError::Overflow)
        }
    }
}

/// The poll interval a cycle uses when the store cannot provide one: ten
/// seconds.
pub fn interval_or_default(stored: Option<u64>) -> (r: u64)
    ensures
        r == match stored {
            Some(v) => v,
            None => 10u64,
        },
{
    match stored {
        Some(v) => v,
        None => 10,
    }
}

/// One row for the history store: the stored text of the address(es)
/// reported before, if any, and of the newly reported ones.
#[derive(Debug, Clone)]
pub struct HistoryRow {
    pub old_ip: Option<Vec<u8>>,
    pub new_ip: Vec<u8>,
}

/// The IPv4 row a result owes: present exactly when the family changed,
/// holding the formatted previous and new addresses.
pub open spec fn spec_v4_row(ipv4: Ipv4CheckResult, row: Option<HistoryRow>) -> bool {
    match ipv4.current {
        Some(c) => row matches Some(row) && row.new_ip@ == spec_format_ipv4(c) && (match
        ipv4.previous {
            Some(p) => row.old_ip matches Some(o) && o@ == spec_format_ipv4(p),
            None => row.old_ip is None,
        }),
        None => row is None,
    }
}

/// The IPv6 row a result owes: present exactly when the family changed,
/// holding the comma-joined previous and new address lists.
pub open spec fn spec_v6_row(ipv6: Ipv6CheckResult, row: Option<HistoryRow>) -> bool {
    match ipv6.current {
        Some(c) => row matches Some(row) && row.new_ip@ == spec_format_ipv6_list(c@) && (match
        ipv6.previous {
            Some(p) => row.old_ip matches Some(o) && o@ == spec_format_ipv6_list(p@),
            None => row.old_ip is None,
        }),
        None => row is None,
    }
}

/// What one successful update persists: a row per family that actually
/// changed, with the addresses in their stored text form (IPv6 lists
/// comma-joined).  A family whose `current` is absent writes nothing.
pub fn history_rows(ipv4: &Ipv4CheckResult, ipv6: &Ipv6CheckResult) -> (r: (
    Option<HistoryRow>,
    Option<HistoryRow>,
))
    ensures
        spec_v4_row(*ipv4, r.0),
        spec_v6_row(*ipv6, r.1),
{
    let v4_row = match &ipv4.current {
        Some(c) => {
            let old_ip = match &ipv4.previous {
                Some(p) => Some(format_ipv4(p)),
                None => None,
            };
            Some(HistoryRow { old_ip, new_ip: format_ipv4(c) })
        },
        None => None,
    };
    let v6_row = match &ipv6.current {
        Some(c) => {
            let old_ip = match &ipv6.previous {
                Some(p) => Some(format_ipv6_list(p)),
                None => None,
            };
            Some(HistoryRow { old_ip, new_ip: format_ipv6_list(c) })
        },
        None => None,
    };
    (v4_row, v6_row)
}

/// What one cycle persists, gated on the provider's answer: nothing at
/// all unless the update succeeded, and on success exactly the rows of
/// the families that changed.  A failed or rejected update leaves the
/// history store untouched.
pub fn persist_plan(updated: bool, ipv4: &Ipv4CheckResult, ipv6: &Ipv6CheckResult) -> (r: (
    Option<HistoryRow>,
    Option<HistoryRow>,
))
    ensures
        !updated ==> r.0 is None && r.1 is None,
        updated ==> spec_v4_row(*ipv4, r.0) && spec_v6_row(*ipv6, r.1),
{
    if updated {
        history_rows(ipv4, ipv6)
    } else {
        (None, None)
    }
}

/// A state of the reconciliation loop.  Times are milliseconds on the
/// driving process's monotonic clock.
#[derive(Debug, Clone, Copy, PartialEq, Eq, Structural)]
pub enum EngineState {
    /// A cycle is in flight.  `anchor_ms` is the instant this cycle's tick
    /// fired; `shutdown_pending` records a shutdown request to honor once
    /// the cycle completes.
    Running { interval_secs: u64, anchor_ms: u64, shutdown_pending: bool },
    /// Armed: the next cycle starts at `deadline_ms`, which always equals
    /// the anchor plus the interval.
    Waiting { interval_secs: u64, anchor_ms: u64, deadline_ms: u64 },
    /// The loop has exited.
    Stopped,
}

/// An event the loop can observe.
#[derive(Debug, Clone, Copy, PartialEq, Eq, Structural)]
pub enum EngineEvent {
    /// The in-flight cycle completed (successfully or not: a failed cycle
    /// is logged and abandoned, never fatal).
    CycleFinished,
    /// The armed timer fired.
    TimerFired,
    /// The administrative side changed the poll interval; only the most
    /// recent value matters.
    IntervalChanged(u64),
    /// Process shutdown was requested.
    ShutdownRequested,
}

/// What the driving process must do after a step.
#[derive(Debug, Clone, Copy, PartialEq, Eq, Structural)]
pub enum EngineAction {
    /// Start a reconciliation cycle.
    RunCycle,
    /// Sleep until the given instant (or re-arm the timer for it).
    Sleep { until_ms: u64 },
    /// Exit the loop.
    Exit,
    /// Nothing to do; keep observing events.
    Continue,
}

/// The next tick's instant: the anchor plus the interval, saturating.
pub open spec fn spec_deadline(anchor_ms: u64, interval_secs: u64) -> u64 {
    let ms = if interval_secs * 1000 > u64::MAX {
        u64::MAX
    } else {
        (interval_secs * 1000) as u64
    };
    if anchor_ms + ms > u64::MAX {
        u64::MAX
    } else {
        (anchor_ms + ms) as u64
    }
}

/// The transition relation of the loop, one step per observed event.
pub open spec fn spec_step(s: EngineState, e: EngineEvent) -> (EngineState, EngineAction) {
    match s {
        EngineState::Running { interval_secs, anchor_ms, shutdown_pending } => match e {
            EngineEvent::CycleFinished => if shutdown_pending {
                (EngineState::Stopped, EngineAction::Exit)
            } else {
                let d = spec_deadline(anchor_ms, interval_secs);
                (
                    EngineState::Waiting { interval_secs, anchor_ms, deadline_ms: d },
                    EngineAction::Sleep { until_ms: d },
                )
            },
            EngineEvent::IntervalChanged(n) => (
                EngineState::Running { interval_secs: n, anchor_ms, shutdown_pending },
                EngineAction::Continue,
            ),
            EngineEvent::ShutdownRequested => (
                EngineState::Running { interval_secs, anchor_ms, shutdown_pending: true },
                EngineAction::Continue,
            ),
            EngineEvent::TimerFired => (s, EngineAction::Continue),
        },
        EngineState::Waiting { interval_secs, anchor_ms, deadline_ms } => match e {
            EngineEvent::TimerFired => (
                EngineState::Running {
                    interval_secs,
                    anchor_ms: deadline_ms,
                    shutdown_pending: false,
                },
                EngineAction::RunCycle,
            ),
            EngineEvent::IntervalChanged(n) => {
                let d = spec_deadline(anchor_ms, n);
                (
                    EngineState::Waiting { interval_secs: n, anchor_ms, deadline_ms: d },
                    EngineAction::Sleep { until_ms: d },
                )
            },
            EngineEvent::ShutdownRequested => (EngineState::Stopped, EngineAction::Exit),
            EngineEvent::CycleFinished => (s, EngineAction::Continue),
        },
        EngineState::Stopped => (EngineState::Stopped, EngineAction::Exit),
    }
}

/// The next tick's instant, computed without overflow.
pub fn next_deadline_ms(anchor_ms: u64, interval_secs: u64) -> (r: u64)
    ensures
        r == spec_deadline(anchor_ms, interval_secs),
{
    let ms: u64 = if interval_secs > u64::MAX / 1000 {
        u64::MAX
    } else {
        interval_secs * 1000
    };
    if anchor_ms > u64::MAX - ms {
        u64::MAX
    } else {
        anchor_ms + ms
    }
}

/// Performs one transition of the loop.
pub fn engine_step(s: EngineState, e: EngineEvent) -> (r: (EngineState, EngineAction))
    ensures
        r == spec_step(s, e),
{
    match s {
        EngineState::Running { interval_secs, anchor_ms, shutdown_pending } => match e {
            EngineEvent::CycleFinished => {
                if shutdown_pending {
                    (EngineState::Stopped, EngineAction::Exit)
                } else {
                    let d = next_deadline_ms(anchor_ms, interval_secs);
                    (
                        EngineState::Waiting { interval_secs, anchor_ms, deadline_ms: d },
                        EngineAction::Sleep { until_ms: d },
                    )
                }
            },
            EngineEvent::IntervalChanged(n) => (
                EngineState::Running { interval_secs: n, anchor_ms, shutdown_pending },
                EngineAction::Continue,
            ),
            EngineEvent::ShutdownRequested => (
                EngineState::Running { interval_secs, anchor_ms, shutdown_pending: true },
                EngineAction::Continue,
            ),
            EngineEvent::TimerFired => (s, EngineAction::Continue),
        },
        EngineState::Waiting { interval_secs, anchor_ms, deadline_ms } => match e {
            EngineEvent::TimerFired => (
                EngineState::Running {
                    interval_secs,
                    anchor_ms: deadline_ms,
                    shutdown_pending: false,
                },
                EngineAction::RunCycle,
            ),
            EngineEvent::IntervalChanged(n) => {
                let d = next_deadline_ms(anchor_ms, n);
                (
                    EngineState::Waiting { interval_secs: n, anchor_ms, deadline_ms: d },
                    EngineAction::Sleep { until_ms: d },
                )
            },
            EngineEvent::ShutdownRequested => (EngineState::Stopped, EngineAction::Exit),
            EngineEvent::CycleFinished => (s, EngineAction::Continue),
        },
        EngineState::Stopped => (EngineState::Stopped, EngineAction::Exit),
    }
}

/// The invariant of a well-formed loop state: an armed deadline is always
/// the anchor plus the interval, never an instant computed from anything
/// else.
pub open spec fn state_wf(s: EngineState) -> bool {
    s matches EngineState::Waiting { interval_secs, anchor_ms, deadline_ms } ==> deadline_ms
        == spec_deadline(anchor_ms, interval_secs)
}

/// Every transition preserves the deadline invariant: however the loop is
/// driven, a waiting state's deadline is the anchor plus the interval.
pub proof fn lemma_step_preserves_wf(s: EngineState, e: EngineEvent)
    requires
        state_wf(s),
    ensures
        state_wf(spec_step(s, e).0),
{
}

/// Reconfiguration preserves the tick anchor: an interval change observed
/// while waiting re-arms the timer at the original anchor plus the new
/// interval, never at "now" plus the new interval, so the next tick neither
/// drifts nor fires early.
pub proof fn lemma_reconfigure_preserves_anchor(
    interval_secs: u64,
    anchor_ms: u64,
    deadline_ms: u64,
    new_interval: u64,
)
    ensures
        spec_step(
            EngineState::Waiting { interval_secs, anchor_ms, deadline_ms },
            EngineEvent::IntervalChanged(new_interval),
        ) == (
            (EngineState::Waiting {
                interval_secs: new_interval,
                anchor_ms,
                deadline_ms: spec_deadline(anchor_ms, new_interval),
            }),
            (EngineAction::Sleep { until_ms: spec_deadline(anchor_ms, new_interval) }),
        ),
{
}

/// When several interval changes arrive before the timer fires, the last
/// one wins: the armed deadline is the one computed from the latest value,
/// still against the original anchor.
pub proof fn lemma_last_interval_change_wins(
    interval_secs: u64,
    anchor_ms: u64,
    deadline_ms: u64,
    first: u64,
    second: u64,
)
    ensures
        ({
            let mid = spec_step(
                EngineState::Waiting { interval_secs, anchor_ms, deadline_ms },
                EngineEvent::IntervalChanged(first),
            ).0;
            spec_step(mid, EngineEvent::IntervalChanged(second)).0
        }) == (EngineState::Waiting {
            interval_secs: second,
            anchor_ms,
            deadline_ms: spec_deadline(anchor_ms, second),
        }),
{
}

/// A shutdown request never aborts an in-flight cycle: observed while
/// `Running` it only marks the state, the action is to keep going; the loop
/// exits exactly when that cycle completes, without arming another timer.
/// Observed while `Waiting`, the loop exits at once and starts no cycle.
pub proof fn lemma_shutdown_defers_to_cycle_boundary(
    interval_secs: u64,
    anchor_ms: u64,
    deadline_ms: u64,
)
    ensures
        spec_step(
            EngineState::Running { interval_secs, anchor_ms, shutdown_pending: false },
            EngineEvent::ShutdownRequested,
        ) == (
            EngineState::Running { interval_secs, anchor_ms, shutdown_pending: true },
            EngineAction::Continue,
        ),
        spec_step(
            EngineState::Running { interval_secs, anchor_ms, shutdown_pending: true },
            EngineEvent::CycleFinished,
        ) == (EngineState::Stopped, EngineAction::Exit),
        spec_step(
            EngineState::Waiting { interval_secs, anchor_ms, deadline_ms },
            EngineEvent::ShutdownRequested,
        ) == (EngineState::Stopped, EngineAction::Exit),
{
}

} // verus!
