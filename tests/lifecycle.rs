use remindme::{
    ListenAction, ListenEvent, ListenStage, Listener,
    action_verdict, fetch_order, now, parse, parse_at, sleep_millis, sort_by_date, Registry, Reminder,
    ReminderRequest, ReminderState, ReminderStore, RemindmeError, ServiceError, Time,
};

fn at(secs: i64) -> Time {
    Time::from_timestamp(secs).unwrap()
}

fn request(secs: i64, message: &str) -> ReminderRequest {
    ReminderRequest::new(at(secs), message.to_string())
}

fn registry_with_users() -> Registry {
    let mut reg = Registry::new();
    reg.add_user("alice".to_string(), "wonder".to_string());
    reg.add_user("bob".to_string(), "builder".to_string());
    reg
}

#[test]
fn parse_seconds_adds_to_now() {
    let t = at(1_000_000);
    assert_eq!(parse_at("30s", t), Ok(at(1_000_030)));
}

#[test]
fn parse_weeks_adds_fourteen_days() {
    let t = at(1_000_000);
    assert_eq!(parse_at("2w", t), Ok(at(1_000_000 + 14 * 86_400)));
}

#[test]
fn parse_minutes_hours_days() {
    let t = at(0);
    assert_eq!(parse_at("5m", t), Ok(at(300)));
    assert_eq!(parse_at("3h", t), Ok(at(10_800)));
    assert_eq!(parse_at("1d", t), Ok(at(86_400)));
    assert_eq!(parse_at("+7s", t), Ok(at(7)));
}

#[test]
fn parse_day_first_date() {
    assert_eq!(parse_at("31.12.2030 10:00", at(0)), Ok(at(1_924_941_600)));
}

#[test]
fn parse_year_first_date() {
    assert_eq!(parse_at("2030-12-31 10:00", at(5)), Ok(at(1_924_941_600)));
}

#[test]
fn parse_garbage_fails() {
    assert_eq!(parse_at("abc", at(0)), Err(RemindmeError::ParseTime("abc".to_string())));
    assert_eq!(parse_at("", at(0)), Err(RemindmeError::ParseTime(String::new())));
    assert_eq!(parse_at("1d2h", at(0)), Err(RemindmeError::ParseTime("1d2h".to_string())));
    assert_eq!(parse_at("-5m", at(0)), Err(RemindmeError::ParseTime("-5m".to_string())));
    assert_eq!(parse_at("s", at(0)), Err(RemindmeError::ParseTime("s".to_string())));
}

#[test]
fn parse_overflow_names_the_unit() {
    let t = at(0);
    assert_eq!(
        parse_at("18446744073709551615s", t),
        Err(RemindmeError::TimeDeltaSec(18_446_744_073_709_551_615))
    );
    assert_eq!(
        parse_at("153722867280912931m", t),
        Err(RemindmeError::TimeDeltaMin(153_722_867_280_912_931))
    );
    assert_eq!(parse_at("9999999999999h", t), Err(RemindmeError::TimeDeltaH(9_999_999_999_999)));
    assert_eq!(parse_at("999999999999d", t), Err(RemindmeError::TimeDeltaD(999_999_999_999)));
    assert_eq!(parse_at("99999999999w", t), Err(RemindmeError::TimeDeltaW(99_999_999_999)));
}

#[test]
fn parse_number_too_large_for_u64() {
    assert_eq!(
        parse_at("18446744073709551616s", at(0)),
        Err(RemindmeError::ParseTime("18446744073709551616s".to_string()))
    );
}

#[test]
fn parse_relative_uses_current_time() {
    let before = now().timestamp();
    let t = parse("60s").unwrap().timestamp();
    let after = now().timestamp();
    assert!(before + 60 <= t && t <= after + 60);
    assert!(before > 1_600_000_000);
}

#[test]
fn time_range_is_bounded() {
    assert!(Time::from_timestamp(8_210_266_876_799).is_some());
    assert!(Time::from_timestamp(8_210_266_876_800).is_none());
    assert!(Time::from_timestamp(-8_334_601_315_201).is_none());
}

#[test]
fn past_reminder_is_pending_on_first_listing() {
    let mut reg = registry_with_users();
    let created = reg.serve_create("alice", "wonder", request(100, "past")).unwrap();
    assert_eq!(created.state(), ReminderState::Upcoming);
    let pending = reg.serve_list_pending("alice", "wonder", at(200)).unwrap();
    assert_eq!(pending.len(), 1);
    assert_eq!(pending[0].id(), created.id());
    assert_eq!(pending[0].state(), ReminderState::Pending);
    assert_eq!(pending[0].message(), "past");
}

#[test]
fn promotion_is_idempotent() {
    let mut store = ReminderStore::new();
    store.insert(Reminder::new(request(10, "a"), 0));
    store.insert(Reminder::new(request(50, "b"), 1));
    store.promote_due(at(20));
    let once = store.reminders.clone();
    store.promote_due(at(20));
    assert_eq!(store.reminders, once);
    assert_eq!(once[0].state(), ReminderState::Pending);
    assert_eq!(once[1].state(), ReminderState::Upcoming);
}

#[test]
fn promotion_at_exact_trigger_time() {
    let mut store = ReminderStore::new();
    store.insert(Reminder::new(request(10, "a"), 0));
    store.promote_due(at(9));
    assert_eq!(store.reminders[0].state(), ReminderState::Upcoming);
    store.promote_due(at(10));
    assert_eq!(store.reminders[0].state(), ReminderState::Pending);
}

#[test]
fn acknowledge_twice_fails_second_time() {
    let mut store = ReminderStore::new();
    store.insert(Reminder::new(request(10, "a"), 7));
    store.promote_due(at(10));
    assert_eq!(store.acknowledge(7), Ok(()));
    assert_eq!(store.reminders[0].state(), ReminderState::Expired);
    assert_eq!(store.acknowledge(7), Err(ServiceError::NotFound));
    assert_eq!(store.reminders[0].state(), ReminderState::Expired);
    store.promote_due(at(1000));
    assert_eq!(store.reminders[0].state(), ReminderState::Expired);
}

#[test]
fn acknowledge_upcoming_or_unknown_fails() {
    let mut store = ReminderStore::new();
    store.insert(Reminder::new(request(10, "a"), 1));
    assert_eq!(store.acknowledge(1), Err(ServiceError::NotFound));
    assert_eq!(store.acknowledge(2), Err(ServiceError::NotFound));
    assert_eq!(store.reminders[0].state(), ReminderState::Upcoming);
}

#[test]
fn list_pending_is_sorted_by_trigger_time() {
    let mut store = ReminderStore::new();
    store.insert(Reminder::new(request(30, "c"), 0));
    store.insert(Reminder::new(request(10, "a"), 1));
    store.insert(Reminder::new(request(99, "later"), 2));
    store.insert(Reminder::new(request(20, "b"), 3));
    let pending = store.list_pending(at(50));
    let messages: Vec<&str> = pending.iter().map(|r| r.message()).collect();
    assert_eq!(messages, vec!["a", "b", "c"]);
}

#[test]
fn list_all_is_in_bucket_order() {
    let mut store = ReminderStore::new();
    store.insert(Reminder::new(request(10, "done"), 0));
    store.insert(Reminder::new(request(500, "up"), 1));
    store.insert(Reminder::new(request(20, "due"), 2));
    store.promote_due(at(30));
    store.acknowledge(0).unwrap();
    let all = store.list_all(at(30));
    let ids: Vec<u64> = all.iter().map(|r| r.id()).collect();
    assert_eq!(ids, vec![2, 1, 0]);
    assert_eq!(all[0].state(), ReminderState::Pending);
    assert_eq!(all[1].state(), ReminderState::Upcoming);
    assert_eq!(all[2].state(), ReminderState::Expired);
}

#[test]
fn refusals_are_uniform() {
    let mut reg = registry_with_users();
    let wrong = reg.serve_create("alice", "nope", request(1, "x"));
    let unknown = reg.serve_create("carol", "wonder", request(1, "x"));
    assert_eq!(wrong, Err(ServiceError::Unauthorized));
    assert_eq!(wrong, unknown);
    assert_eq!(reg.next_id, 0);
    assert_eq!(reg.serve_list_all("alice", "", at(0)), Err(ServiceError::Unauthorized));
    assert_eq!(reg.serve_list_pending("carol", "x", at(0)), Err(ServiceError::Unauthorized));
    assert_eq!(reg.serve_acknowledge("bob", "wonder", 0), Err(ServiceError::Unauthorized));
    assert!(reg.check_auth("alice", "wonder"));
    assert!(!reg.check_auth("alice", "wonde"));
    assert!(!reg.check_auth("carol", "wonder"));
}

#[test]
fn ids_are_never_reused_across_users() {
    let mut reg = registry_with_users();
    let a = reg.serve_create("alice", "wonder", request(1, "a")).unwrap();
    let b = reg.serve_create("bob", "builder", request(1, "b")).unwrap();
    let c = reg.serve_create("alice", "wonder", request(1, "c")).unwrap();
    assert_eq!((a.id(), b.id(), c.id()), (0, 1, 2));
    assert_eq!(reg.add("carol", request(1, "d")), Err(ServiceError::Unauthorized));
    let d = reg.add("bob", request(1, "d")).unwrap();
    assert_eq!(d.id(), 3);
}

#[test]
fn acknowledge_through_registry() {
    let mut reg = registry_with_users();
    let a = reg.serve_create("alice", "wonder", request(1, "a")).unwrap();
    assert_eq!(reg.serve_acknowledge("alice", "wonder", a.id()), Err(ServiceError::NotFound));
    reg.serve_list_pending("alice", "wonder", at(5)).unwrap();
    assert_eq!(reg.serve_acknowledge("bob", "builder", a.id()), Err(ServiceError::NotFound));
    assert_eq!(reg.serve_acknowledge("alice", "wonder", a.id()), Ok(()));
    assert_eq!(reg.serve_acknowledge("alice", "wonder", a.id()), Err(ServiceError::NotFound));
    assert!(reg.serve_list_pending("alice", "wonder", at(5)).unwrap().is_empty());
}

#[test]
fn add_user_again_replaces_secret() {
    let mut reg = registry_with_users();
    reg.serve_create("alice", "wonder", request(1, "a")).unwrap();
    reg.add_user("alice".to_string(), "land".to_string());
    assert!(!reg.check_auth("alice", "wonder"));
    assert_eq!(reg.serve_list_all("alice", "land", at(0)).unwrap().len(), 1);
}

#[test]
fn listen_sleeps_rest_of_interval() {
    assert_eq!(sleep_millis(60, 5_000), 55_000);
    assert_eq!(sleep_millis(60, 60_000), 0);
    assert_eq!(sleep_millis(60, 75_000), 0);
    assert_eq!(sleep_millis(u64::MAX, 0), u64::MAX as u128 * 1000);
}

#[test]
fn failing_action_keeps_reminder_pending() {
    let mut store = ReminderStore::new();
    store.insert(Reminder::new(request(1, "first"), 0));
    store.insert(Reminder::new(request(2, "second"), 1));
    let due = fetch_order(&store.list_pending(at(10)));
    let mut handled = 0;
    let mut outcome = Ok(());
    for rm in &due {
        let verdict = action_verdict(false, Some(2));
        if verdict.is_err() {
            outcome = verdict;
            break;
        }
        store.acknowledge(rm.id()).unwrap();
        handled += 1;
    }
    assert_eq!(outcome, Err(RemindmeError::CommandExit(2)));
    assert_eq!(handled, 0);
    assert_eq!(store.list_pending(at(10)).len(), 2);
    assert_eq!(action_verdict(false, None), Err(RemindmeError::CommandExit(-1)));
    assert_eq!(action_verdict(true, Some(0)), Ok(()));
}

#[test]
fn fetch_order_keeps_pending_by_date() {
    let v = vec![
        Reminder::from_parts(1, at(30), "c".to_string(), ReminderState::Pending),
        Reminder::from_parts(2, at(5), "x".to_string(), ReminderState::Upcoming),
        Reminder::from_parts(3, at(10), "a".to_string(), ReminderState::Pending),
        Reminder::from_parts(4, at(1), "y".to_string(), ReminderState::Expired),
    ];
    let ids: Vec<u64> = fetch_order(&v).iter().map(|r| r.id()).collect();
    assert_eq!(ids, vec![3, 1]);
    let sorted: Vec<u64> = sort_by_date(&v).iter().map(|r| r.id()).collect();
    assert_eq!(sorted, vec![4, 2, 3, 1]);
}

#[test]
fn listener_acknowledges_in_date_order_then_rests() {
    let (mut l, first) = Listener::new(false);
    assert_eq!(first, ListenAction::Fetch);
    let fetched = vec![
        Reminder::from_parts(5, at(30), "late".to_string(), ReminderState::Pending),
        Reminder::from_parts(6, at(10), "early".to_string(), ReminderState::Pending),
    ];
    assert_eq!(l.step(ListenEvent::Fetched(fetched)), ListenAction::Acknowledge(6));
    assert_eq!(l.step(ListenEvent::Acknowledged), ListenAction::Acknowledge(5));
    assert_eq!(l.step(ListenEvent::Acknowledged), ListenAction::Rest);
    assert_eq!(l.stage, ListenStage::Resting);
    assert_eq!(l.step(ListenEvent::Rested), ListenAction::Fetch);
    assert_eq!(l.step(ListenEvent::Fetched(Vec::new())), ListenAction::Rest);
}

#[test]
fn listener_stops_when_action_exits_with_two() {
    let (mut l, _) = Listener::new(true);
    let fetched = vec![
        Reminder::from_parts(1, at(10), "first".to_string(), ReminderState::Pending),
        Reminder::from_parts(2, at(20), "second".to_string(), ReminderState::Pending),
    ];
    assert_eq!(
        l.step(ListenEvent::Fetched(fetched)),
        ListenAction::RunAction("first".to_string())
    );
    assert_eq!(
        l.step(ListenEvent::ActionExited(false, Some(2))),
        ListenAction::Abort(RemindmeError::CommandExit(2))
    );
    assert_eq!(l.stage, ListenStage::Stopped);
    assert!(!l.accepts(&ListenEvent::Acknowledged));
    assert_eq!(l.pos, 0);
}

#[test]
fn listener_runs_action_before_each_acknowledgement() {
    let (mut l, _) = Listener::new(true);
    let fetched = vec![Reminder::from_parts(9, at(10), "ping".to_string(), ReminderState::Pending)];
    assert_eq!(l.step(ListenEvent::Fetched(fetched)), ListenAction::RunAction("ping".to_string()));
    assert!(l.accepts(&ListenEvent::ActionExited(true, Some(0))));
    assert!(!l.accepts(&ListenEvent::Acknowledged));
    assert_eq!(l.step(ListenEvent::ActionExited(true, Some(0))), ListenAction::Acknowledge(9));
    assert_eq!(l.step(ListenEvent::Acknowledged), ListenAction::Rest);
}

#[test]
fn parse_at_the_end_of_the_range() {
    let t = at(8_210_266_876_799 - 10);
    assert_eq!(parse_at("10s", t), Ok(at(8_210_266_876_799)));
    assert_eq!(parse_at("11s", t), Err(RemindmeError::TimeDeltaSec(11)));
    assert_eq!(parse_at("1m", t), Err(RemindmeError::TimeDeltaMin(1)));
    assert_eq!(
        parse_at("9223372036854775s", at(0)),
        Err(RemindmeError::TimeDeltaSec(9_223_372_036_854_775))
    );
}

#[test]
fn registry_from_user_list() {
    let users = vec![
        ("alice".to_string(), "one".to_string()),
        ("bob".to_string(), "two".to_string()),
        ("alice".to_string(), "three".to_string()),
    ];
    let reg = Registry::with_users(&users);
    assert_eq!(reg.users.len(), 2);
    assert!(reg.check_auth("alice", "three"));
    assert!(!reg.check_auth("alice", "one"));
    assert!(reg.check_auth("bob", "two"));
    assert_eq!(reg.next_id, 0);
}
