//! Engine behavior: checkers, retry plan, updater decisions, scheduler.

use dyndns::{
    CheckResult, DynDnsAuth, DynDnsUpdater, EngineAction, EngineEvent, EngineState, ExternalPlan,
    IpVersion, Ipv4Address, Ipv4Checker, Ipv6Address, Ipv6Checker, Ipv6HistorySnapshot,
    RetryDecision, RetryPolicy, RetryState, SleepInterval, SleepIntervalError, cycle_plan,
    engine_step, history_rows, persist_plan,
    interval_or_default, update_succeeded,
};

fn v4(a: u8, b: u8, c: u8, d: u8) -> Ipv4Address {
    Ipv4Address { o0: a, o1: b, o2: c, o3: d }
}

fn v6(g0: u16, g7: u16) -> Ipv6Address {
    Ipv6Address { g0, g1: 0xdb8, g2: 0, g3: 0, g4: 0, g5: 0, g6: 0, g7 }
}

#[test]
fn ipv4_idempotent_when_address_unchanged() {
    let stored = v4(10, 0, 0, 5);
    let checker = Ipv4Checker::new(Some(stored));
    let result = checker.check(v4(10, 0, 0, 5));
    assert!(result.previous.is_none());
    assert!(result.current.is_none());
    assert!(result.external.is_none());
}

#[test]
fn ipv4_reports_a_changed_address() {
    let checker = Ipv4Checker::new(Some(v4(10, 0, 0, 5)));
    let result = checker.check(v4(10, 0, 0, 6));
    assert_eq!(result.previous, Some(v4(10, 0, 0, 5)));
    assert_eq!(result.current, Some(v4(10, 0, 0, 6)));
    assert_eq!(result.external, Some(v4(10, 0, 0, 6)));
}

#[test]
fn ipv4_first_run_reports_without_previous() {
    let checker = Ipv4Checker::new(None);
    let result = checker.check(v4(192, 0, 2, 1));
    assert_eq!(result.previous, None);
    assert_eq!(result.current, Some(v4(192, 0, 2, 1)));
    assert_eq!(result.external, Some(v4(192, 0, 2, 1)));
}

#[test]
fn ipv6_new_address_introduced() {
    let a = v6(0x2001, 1);
    let b = v6(0x2001, 2);
    let c = v6(0x2001, 3);
    let history = Ipv6HistorySnapshot::new(None, vec![a, b]);
    let checker = Ipv6Checker::new(Some(history));
    let eval = checker.evaluate(vec![a, c]);
    assert_eq!(eval.current, Some(vec![c]));
    assert_eq!(eval.previous, Some(vec![a]));
}

#[test]
fn ipv6_all_known_addresses_vanish_falls_back_to_latest() {
    let a = v6(0x2001, 1);
    let b = v6(0x2001, 2);
    let c = v6(0x2001, 3);
    let history = Ipv6HistorySnapshot::new(None, vec![a, b]);
    let checker = Ipv6Checker::new(Some(history));
    let eval = checker.evaluate(vec![c]);
    assert_eq!(eval.current, Some(vec![c]));
    assert_eq!(eval.previous, Some(vec![a, b]));
}

#[test]
fn ipv6_no_new_addresses_reports_nothing() {
    let a = v6(0x2001, 1);
    let b = v6(0x2001, 2);
    let history = Ipv6HistorySnapshot::new(Some(vec![b]), vec![a]);
    let checker = Ipv6Checker::new(Some(history));
    let eval = checker.evaluate(vec![a, b]);
    assert!(eval.current.is_none());
}

#[test]
fn ipv6_first_run_reports_everything() {
    let a = v6(0x2001, 1);
    let b = v6(0x2001, 2);
    let checker = Ipv6Checker::new(None);
    let eval = checker.evaluate(vec![a, b]);
    assert_eq!(eval.previous, None);
    assert_eq!(eval.current, Some(vec![a, b]));
}

#[test]
fn single_new_address_needs_no_lookup() {
    let c = v6(0x2001, 3);
    let history = Ipv6HistorySnapshot::new(None, vec![v6(0x2001, 1), v6(0x2001, 2)]);
    let eval = Ipv6Checker::new(Some(history)).evaluate(vec![c]);
    assert_eq!(eval.external_plan(), ExternalPlan::UseSingle(c));
    // Whatever a lookup might have said is ignored: the single address wins.
    let result = eval.into_result(Some(v6(0xfd00, 9)));
    assert_eq!(result.external, Some(c));
}

#[test]
fn several_new_addresses_need_exactly_one_lookup() {
    let c = v6(0x2001, 3);
    let d = v6(0x2001, 4);
    let eval = Ipv6Checker::new(None).evaluate(vec![c, d]);
    assert_eq!(eval.external_plan(), ExternalPlan::NeedsLookup);
    let result = eval.into_result(Some(d));
    assert_eq!(result.external, Some(d));
}

#[test]
fn no_change_plans_no_lookup_and_no_external() {
    let a = v6(0x2001, 1);
    let history = Ipv6HistorySnapshot::new(None, vec![a]);
    let eval = Ipv6Checker::new(Some(history)).evaluate(vec![a]);
    assert_eq!(eval.external_plan(), ExternalPlan::NoReport);
    let result = eval.into_result(Some(v6(0xfd00, 9)));
    assert_eq!(result.external, None);
}

#[test]
fn retry_plan_three_attempts_backoff_doubles() {
    let policy = RetryPolicy::new(3, 200);
    assert_eq!(policy.max_attempts, 3);
    // Sleeps precede attempts 2 and 3; none follows the final attempt.
    assert_eq!(policy.backoff_plan(), vec![200, 400]);
}

#[test]
fn retry_steps_stop_after_the_final_attempt() {
    // max_attempts = 3, initial delay 200 ms, every attempt failing: the
    // second attempt is preceded by a 200 ms pause, the third by 400 ms,
    // and the third failure is handed back to the caller.
    let policy = RetryPolicy::new(3, 200);
    let s1 = policy.start();
    assert_eq!(s1, RetryState { attempt: 1, delay_ms: 200 });
    let s2 = match policy.on_failure(s1) {
        RetryDecision::Retry { sleep_ms, next } => {
            assert_eq!(sleep_ms, 200);
            next
        }
        RetryDecision::GiveUp => panic!("attempt 1 must be retried"),
    };
    let s3 = match policy.on_failure(s2) {
        RetryDecision::Retry { sleep_ms, next } => {
            assert_eq!(sleep_ms, 400);
            next
        }
        RetryDecision::GiveUp => panic!("attempt 2 must be retried"),
    };
    assert_eq!(s3.attempt, 3);
    assert_eq!(policy.on_failure(s3), RetryDecision::GiveUp);
}

#[test]
fn retry_plan_clamps_zero_attempts_to_one() {
    let policy = RetryPolicy::new(0, 200);
    assert_eq!(policy.max_attempts, 1);
    assert_eq!(policy.backoff_plan(), Vec::<u64>::new());
}

#[test]
fn retry_plan_zero_delay_never_sleeps() {
    let policy = RetryPolicy::new(4, 0);
    assert_eq!(policy.backoff_plan(), vec![0, 0, 0]);
}

#[test]
fn provider_success_requires_good_token() {
    assert!(update_succeeded(200, b"good\n"));
    assert!(update_succeeded(200, b"  good  "));
    assert!(update_succeeded(299, b"good"));
    assert!(!update_succeeded(200, b"nohost"));
    assert!(!update_succeeded(200, b"Good"));
    assert!(!update_succeeded(200, b"good extra"));
    assert!(!update_succeeded(500, b"good"));
    assert!(!update_succeeded(199, b"good"));
    assert!(!update_succeeded(300, b"good"));
}

#[test]
fn updater_plans_no_contact_without_external_addresses() {
    let auth = DynDnsAuth::new(
        b"dyn.example.com".to_vec(),
        b"user".to_vec(),
        b"secret".to_vec(),
    );
    let updater = DynDnsUpdater::new(auth, b"host.example.com".to_vec());
    let v4_result = CheckResult::new(None, None, None);
    let v6_result = CheckResult::new(None, None, None);
    assert!(updater.plan(&v4_result, &v6_result).is_none());
}

#[test]
fn updater_builds_the_update_request() {
    let auth = DynDnsAuth::new(
        b"dyn.example.com".to_vec(),
        b"user".to_vec(),
        b"secret".to_vec(),
    );
    let updater = DynDnsUpdater::new(auth, b"host.example.com".to_vec());
    let v4_result = CheckResult::new(None, Some(v4(1, 2, 3, 4)), Some(v4(1, 2, 3, 4)));
    let addr = v6(0x2001, 1);
    let v6_result = CheckResult::new(None, Some(vec![addr]), Some(addr));
    let request = updater.plan(&v4_result, &v6_result).expect("an update is owed");
    assert_eq!(
        request.url,
        b"https://dyn.example.com/nic/update?hostname=host.example.com&myip=1.2.3.4,2001:db8:0:0:0:0:0:1"
            .to_vec()
    );
    assert_eq!(request.username, b"user".to_vec());
    assert_eq!(request.password, b"secret".to_vec());
}

#[test]
fn history_rows_written_only_for_changed_families() {
    let v4_result = CheckResult::new(
        Some(v4(10, 0, 0, 5)),
        Some(v4(10, 0, 0, 6)),
        Some(v4(10, 0, 0, 6)),
    );
    let v6_result = CheckResult::new(None, None, None);
    let (row4, row6) = history_rows(&v4_result, &v6_result);
    let row4 = row4.expect("the IPv4 family changed");
    assert_eq!(row4.old_ip, Some(b"10.0.0.5".to_vec()));
    assert_eq!(row4.new_ip, b"10.0.0.6".to_vec());
    assert!(row6.is_none());
}

#[test]
fn history_rows_join_ipv6_lists() {
    let v4_result = CheckResult::new(None, None, None);
    let v6_result = CheckResult::new(
        Some(vec![v6(0x2001, 1)]),
        Some(vec![v6(0x2001, 2), v6(0x2001, 3)]),
        Some(v6(0x2001, 2)),
    );
    let (row4, row6) = history_rows(&v4_result, &v6_result);
    assert!(row4.is_none());
    let row6 = row6.expect("the IPv6 family changed");
    assert_eq!(row6.old_ip, Some(b"2001:db8:0:0:0:0:0:1".to_vec()));
    assert_eq!(
        row6.new_ip,
        b"2001:db8:0:0:0:0:0:2,2001:db8:0:0:0:0:0:3".to_vec()
    );
}

#[test]
fn nothing_is_persisted_unless_the_update_succeeded() {
    let v4_result = CheckResult::new(
        Some(v4(10, 0, 0, 5)),
        Some(v4(10, 0, 0, 6)),
        Some(v4(10, 0, 0, 6)),
    );
    let v6_result = CheckResult::new(None, Some(vec![v6(0x2001, 1)]), Some(v6(0x2001, 1)));
    // A rejected or failed update writes nothing at all.
    let (row4, row6) = persist_plan(false, &v4_result, &v6_result);
    assert!(row4.is_none());
    assert!(row6.is_none());
    // A successful one writes exactly the changed families' rows.
    let (row4, row6) = persist_plan(true, &v4_result, &v6_result);
    assert_eq!(row4.unwrap().new_ip, b"10.0.0.6".to_vec());
    assert_eq!(row6.unwrap().new_ip, b"2001:db8:0:0:0:0:0:1".to_vec());
}

#[test]
fn reconfiguration_preserves_the_anchor() {
    // Anchored at t0 with a 100 s interval; at t0+5s the interval becomes
    // 10 s: the next tick is t0+10s, not t0+15s.
    let t0: u64 = 1_000_000;
    let waiting = EngineState::Waiting {
        interval_secs: 100,
        anchor_ms: t0,
        deadline_ms: t0 + 100_000,
    };
    let (state, action) = engine_step(waiting, EngineEvent::IntervalChanged(10));
    assert_eq!(
        state,
        EngineState::Waiting { interval_secs: 10, anchor_ms: t0, deadline_ms: t0 + 10_000 }
    );
    assert_eq!(action, EngineAction::Sleep { until_ms: t0 + 10_000 });
}

#[test]
fn last_interval_change_wins() {
    let t0: u64 = 50_000;
    let waiting = EngineState::Waiting {
        interval_secs: 60,
        anchor_ms: t0,
        deadline_ms: t0 + 60_000,
    };
    let (mid, _) = engine_step(waiting, EngineEvent::IntervalChanged(30));
    let (state, _) = engine_step(mid, EngineEvent::IntervalChanged(7));
    assert_eq!(
        state,
        EngineState::Waiting { interval_secs: 7, anchor_ms: t0, deadline_ms: t0 + 7_000 }
    );
}

#[test]
fn shutdown_defers_to_the_cycle_boundary() {
    let running = EngineState::Running {
        interval_secs: 60,
        anchor_ms: 0,
        shutdown_pending: false,
    };
    let (state, action) = engine_step(running, EngineEvent::ShutdownRequested);
    // The in-flight cycle is not aborted.
    assert_eq!(
        state,
        EngineState::Running { interval_secs: 60, anchor_ms: 0, shutdown_pending: true }
    );
    assert_eq!(action, EngineAction::Continue);
    // Once that cycle completes, the loop exits without arming a timer.
    let (state, action) = engine_step(state, EngineEvent::CycleFinished);
    assert_eq!(state, EngineState::Stopped);
    assert_eq!(action, EngineAction::Exit);
}

#[test]
fn shutdown_while_waiting_exits_at_once() {
    let waiting = EngineState::Waiting { interval_secs: 60, anchor_ms: 0, deadline_ms: 60_000 };
    let (state, action) = engine_step(waiting, EngineEvent::ShutdownRequested);
    assert_eq!(state, EngineState::Stopped);
    assert_eq!(action, EngineAction::Exit);
}

#[test]
fn timer_fire_starts_a_cycle_anchored_at_the_deadline() {
    let waiting = EngineState::Waiting { interval_secs: 60, anchor_ms: 0, deadline_ms: 60_000 };
    let (state, action) = engine_step(waiting, EngineEvent::TimerFired);
    assert_eq!(
        state,
        EngineState::Running { interval_secs: 60, anchor_ms: 60_000, shutdown_pending: false }
    );
    assert_eq!(action, EngineAction::RunCycle);
}

#[test]
fn cycle_finish_arms_the_timer_from_the_anchor() {
    let running = EngineState::Running {
        interval_secs: 60,
        anchor_ms: 60_000,
        shutdown_pending: false,
    };
    let (state, action) = engine_step(running, EngineEvent::CycleFinished);
    assert_eq!(
        state,
        EngineState::Waiting { interval_secs: 60, anchor_ms: 60_000, deadline_ms: 120_000 }
    );
    assert_eq!(action, EngineAction::Sleep { until_ms: 120_000 });
}

#[test]
fn cycle_plan_follows_the_ip_mode() {
    assert_eq!(cycle_plan(&IpVersion::V4), (true, false));
    assert_eq!(cycle_plan(&IpVersion::V6), (false, true));
    assert_eq!(cycle_plan(&IpVersion::ALL), (true, true));
}

#[test]
fn interval_defaults_to_ten_seconds() {
    assert_eq!(interval_or_default(Some(42)), 42);
    assert_eq!(interval_or_default(None), 10);
}

#[test]
fn ip_mode_round_trips_through_its_stored_column() {
    for mode in [IpVersion::V4, IpVersion::V6, IpVersion::ALL] {
        assert_eq!(IpVersion::from_stored(mode.to_stored()), Some(mode));
    }
    assert_eq!(IpVersion::from_stored(0), None);
    assert_eq!(IpVersion::from_stored(4), None);
}

#[test]
fn sleep_interval_rejects_zero_and_negative_values() {
    assert!(SleepInterval::new(30).is_ok());
    assert_eq!(SleepInterval::new(30).unwrap().get(), 30);
    assert_eq!(SleepInterval::new(0), Err(SleepIntervalError::NonPositive));
    assert_eq!(SleepInterval::from_stored(-5), Err(SleepIntervalError::NonPositive));
    assert_eq!(SleepInterval::from_stored(0), Err(SleepIntervalError::NonPositive));
    assert_eq!(SleepInterval::from_stored(5).unwrap().get(), 5);
    assert_eq!(SleepInterval::new(30).unwrap().to_stored(), Ok(30));
    assert_eq!(
        SleepInterval::new(u64::MAX).unwrap().to_stored(),
        Err(SleepIntervalError::Overflow)
    );
}
