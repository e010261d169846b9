//! A dynamic-DNS reconciliation engine.
//!
//! The library keeps a DNS host record synchronized with a network's changing
//! public address: it diffs freshly observed interface addresses against the
//! previously recorded ones, decides whether anything reportable has changed,
//! plans the provider update request, and drives a cancellable, reconfigurable
//! scheduling loop.  All decision logic lives here, verified; the surrounding
//! process performs the network and storage side effects.

mod addr;
mod check;
mod error;
mod lookup;
mod retry;
mod scheduler;
mod settings;
mod text;
mod token;
mod updater;

pub use addr::{
    Ipv4Address, Ipv6Address, format_ipv4, format_ipv6, format_ipv6_list, lemma_ipv4_round_trip,
    lemma_ipv6_list_round_trip, lemma_ipv6_round_trip, parse_ipv4, parse_ipv6, parse_ipv6_list,
    spec_format_ipv4, spec_format_ipv6, spec_format_ipv6_list, spec_parse_ipv4, spec_parse_ipv6,
    spec_parse_ipv6_list,
};
pub use check::{
    CheckResult, ExternalPlan, Ipv4CheckResult, Ipv4Checker, Ipv6CheckResult, Ipv6Checker,
    Ipv6Evaluation, Ipv6HistorySnapshot, lemma_no_redundant_report, spec_new_addrs,
    spec_retained_addrs,
};
pub use error::{AuthError, DynDnsError, NetworkError, SleepIntervalError};
pub use lookup::{
    InterfaceAddress, LocalIpv4Lookup, LocalIpv6Lookup, PlainTextIpParser, spec_first_v4,
    spec_v6_candidates,
};
pub use retry::{
    RetryDecision, RetryPolicy, RetryState, lemma_zero_delay_stays_zero, spec_backoff_delay,
};
pub use scheduler::{
    EngineAction, EngineEvent, EngineState, HistoryRow, IpVersion, SleepInterval, cycle_plan,
    engine_step, history_rows, interval_or_default, lemma_last_interval_change_wins,
    lemma_reconfigure_preserves_anchor, lemma_shutdown_defers_to_cycle_boundary,
    lemma_step_preserves_wf, next_deadline_ms, persist_plan, spec_deadline, spec_step,
    spec_v4_row, spec_v6_row, state_wf,
};
pub use settings::{Auth, Log, LogStyle};
pub use text::{bytes_eq, spec_split, spec_trim, trim_bytes};
pub use token::{
    Claims, RefreshTokenPayload, b64url_of, random_urlsafe_string, sha256_of, spec_dot_split,
    split_refresh_token,
};
pub use updater::{
    DynDnsAuth, DynDnsUpdater, UpdateRequest, myip_text, spec_good_token, spec_myip_text,
    spec_status_success, spec_update_url, update_succeeded,
};
