use nats_cli_monitor::model::{Jsz, Varz};
use nats_cli_monitor::monitor::{poll_due, should_quit, App, FetchOutcome, KeyInput, MAX_HISTORY};

fn sample(connections: u64, in_msgs: u64) -> Varz {
    let mut v = Varz::default();
    v.connections = connections;
    v.in_msgs = in_msgs;
    v
}

fn history(app: &App) -> Vec<u64> {
    app.connection_data()
}

#[test]
fn new_app_is_empty() {
    let app = App::new("http://localhost:8222".to_string(), 1);
    assert_eq!(app.url, "http://localhost:8222");
    assert!(app.connection_history.is_empty());
    assert!(app.msgs_history.is_empty());
    assert_eq!(app.last_in_msgs, 0);
    assert!(app.last_error.is_none());
    assert_eq!(app.varz.connections, 0);
    assert!(app.varz.server_name.is_empty());
    assert_eq!(app.jsz.streams, 0);
    assert!(app.jsz.account_details.is_empty());
}

#[test]
fn first_sample_records_no_rate() {
    let mut app = App::new("u".to_string(), 1);
    app.update_varz(sample(5, 100));
    assert_eq!(history(&app), vec![5]);
    assert!(app.msgs_data().is_empty());
    assert_eq!(app.last_in_msgs, 100);
    app.update_varz(sample(6, 130));
    assert_eq!(history(&app), vec![5, 6]);
    assert_eq!(app.msgs_data(), vec![30]);
}

#[test]
fn rate_saturates_when_counter_resets() {
    let mut app = App::new("u".to_string(), 1);
    app.update_varz(sample(1, 500));
    app.update_varz(sample(1, 200));
    assert_eq!(app.msgs_data(), vec![0]);
    assert_eq!(app.last_in_msgs, 200);
}

#[test]
fn zero_counter_skips_rate() {
    let mut app = App::new("u".to_string(), 1);
    app.update_varz(sample(1, 0));
    app.update_varz(sample(1, 10));
    assert!(app.msgs_data().is_empty());
    app.update_varz(sample(1, 25));
    assert_eq!(app.msgs_data(), vec![15]);
}

#[test]
fn history_keeps_last_sixty() {
    let mut app = App::new("u".to_string(), 1);
    for i in 1..=150u64 {
        app.update_varz(sample(i, i * 10));
        assert!(app.connection_history.len() <= MAX_HISTORY);
        assert!(app.msgs_history.len() <= MAX_HISTORY);
    }
    let expected: Vec<u64> = (91..=150).collect();
    assert_eq!(history(&app), expected);
    assert_eq!(app.msgs_data(), vec![10; 60]);
}

#[test]
fn update_clears_error() {
    let mut app = App::new("u".to_string(), 1);
    app.set_error("boom".to_string());
    assert_eq!(app.last_error.as_deref(), Some("boom"));
    app.update_varz(sample(3, 3));
    assert!(app.last_error.is_none());
}

#[test]
fn update_jsz_replaces_only_jsz() {
    let mut app = App::new("u".to_string(), 1);
    app.set_error("e".to_string());
    let mut j = Jsz::default();
    j.streams = 3;
    j.consumers = 9;
    app.update_jsz(j);
    assert_eq!(app.jsz.streams, 3);
    assert_eq!(app.jsz.consumers, 9);
    assert_eq!(app.last_error.as_deref(), Some("e"));
}

#[test]
fn endpoint_urls() {
    let app = App::new("http://h:8222".to_string(), 1);
    assert_eq!(app.varz_url(), "http://h:8222/varz");
    assert_eq!(app.jsz_url(), "http://h:8222/jsz?streams=true&consumers=true");
}

#[test]
fn varz_outcomes() {
    let mut app = App::new("u".to_string(), 1);
    app.apply_varz(FetchOutcome::ConnectFailed("refused".to_string()));
    assert_eq!(app.last_error.as_deref(), Some("Connection error: refused"));
    app.apply_varz(FetchOutcome::ParseFailed("bad json".to_string()));
    assert_eq!(app.last_error.as_deref(), Some("varz parse error: bad json"));
    assert!(app.connection_history.is_empty());
    app.apply_varz(FetchOutcome::Fetched(sample(42, 7)));
    assert!(app.last_error.is_none());
    assert_eq!(history(&app), vec![42]);
    assert_eq!(app.varz.connections, 42);
}

#[test]
fn jsz_outcomes() {
    let mut app = App::new("u".to_string(), 1);
    app.apply_varz(FetchOutcome::ConnectFailed("down".to_string()));
    app.apply_jsz(FetchOutcome::ConnectFailed("down".to_string()));
    assert_eq!(app.last_error.as_deref(), Some("Connection error: down"));
    app.apply_jsz(FetchOutcome::ParseFailed("eof".to_string()));
    assert_eq!(app.last_error.as_deref(), Some("jsz parse error: eof"));
    let mut j = Jsz::default();
    j.messages = 500;
    app.apply_jsz(FetchOutcome::Fetched(j));
    assert_eq!(app.jsz.messages, 500);
    assert_eq!(app.last_error.as_deref(), Some("jsz parse error: eof"));
}

#[test]
fn quit_keys() {
    assert!(should_quit(&KeyInput::Char('q'), false));
    assert!(should_quit(&KeyInput::Char('Q'), false));
    assert!(should_quit(&KeyInput::Esc, false));
    assert!(should_quit(&KeyInput::Char('c'), true));
    assert!(!should_quit(&KeyInput::Char('c'), false));
    assert!(!should_quit(&KeyInput::Char('C'), true));
    assert!(!should_quit(&KeyInput::Char('x'), true));
    assert!(!should_quit(&KeyInput::Other, true));
}

#[test]
fn polling_interval() {
    assert!(poll_due(1_000_000_000, 1));
    assert!(!poll_due(999_999_999, 1));
    assert!(poll_due(0, 0));
    assert!(!poll_due(4_999_999_999, 5));
    assert!(poll_due(u128::MAX, u64::MAX));
}

#[test]
fn rate_is_per_second_of_interval() {
    let mut app = App::new("u".to_string(), 2);
    assert_eq!(app.interval_secs, 2);
    app.update_varz(sample(1, 100));
    app.update_varz(sample(1, 104));
    assert_eq!(app.msgs_data(), vec![2]);
    app.update_varz(sample(1, 109));
    assert_eq!(app.msgs_data(), vec![2, 2]);
    let mut app = App::new("u".to_string(), 5);
    app.update_varz(sample(1, 10));
    app.update_varz(sample(1, 60));
    assert_eq!(app.msgs_data(), vec![10]);
}

#[test]
fn zero_interval_counts_as_one_second() {
    let mut app = App::new("u".to_string(), 0);
    app.update_varz(sample(1, 10));
    app.update_varz(sample(1, 17));
    assert_eq!(app.msgs_data(), vec![7]);
}

#[test]
fn rate_history_keeps_last_sixty_rates() {
    let mut app = App::new("u".to_string(), 3);
    for i in 1..=100u64 {
        app.update_varz(sample(0, i * i));
    }
    let expected: Vec<u64> = (41..=100u64).map(|i| (i * i - (i - 1) * (i - 1)) / 3).collect();
    assert_eq!(app.msgs_data(), expected);
}
