use polymarket_btc_arb::config::{is_headless_text, parse_flag};
use polymarket_btc_arb::cooldown::{Cooldowns, OrderOutcome, COOLDOWN_SECS};
use polymarket_btc_arb::dashboard::{action_for_key, Key, UiAction};
use polymarket_btc_arb::feeds::{Backoff, ReconnectPolicy};
use polymarket_btc_arb::risk::{ControlFlags, CheckOutcome};
use polymarket_btc_arb::state::{Asset, BoundedLog, LogEntry, LogLevel, TradeCounters};

#[test]
fn asset_labels() {
    assert_eq!(Asset::Btc.label(), "BTC");
    assert_eq!(Asset::Eth.label(), "ETH");
    assert_eq!(Asset::CrudeOil.label(), "CL");
    assert_eq!(Asset::Gold.label(), "GC");
    assert_eq!(Asset::FedRate.label(), "FED");
}

#[test]
fn log_level_labels_and_colours() {
    assert_eq!(LogLevel::Info.label(), "INFO");
    assert_eq!(LogLevel::Error.label(), "ERR ");
    assert_eq!(LogLevel::Slip.label(), "SLIP");
    assert_eq!(LogLevel::Info.rgb(), (0, 217, 255));
    assert_eq!(LogLevel::Fill.rgb(), (0, 255, 136));
    assert_eq!(LogLevel::Warn.rgb(), LogLevel::Exec.rgb());
    assert_eq!(LogLevel::Slip.rgb(), (255, 51, 102));
}

#[test]
fn bounded_log_keeps_latest() {
    let mut log: BoundedLog<u32> = BoundedLog::new(3);
    for i in 1..=5u32 {
        log.push(i);
    }
    assert_eq!(log.len(), 3);
    assert_eq!(log.entries().iter().copied().collect::<Vec<_>>(), vec![3, 4, 5]);
    assert_eq!(log.capacity(), 3);
}

#[test]
fn bounded_log_below_capacity_keeps_all() {
    let mut log: BoundedLog<&str> = BoundedLog::new(1000);
    log.push("a");
    log.push("b");
    assert_eq!(log.entries().iter().copied().collect::<Vec<_>>(), vec!["a", "b"]);
}

#[test]
fn bounded_log_capacity_zero_keeps_newest() {
    let mut log: BoundedLog<u8> = BoundedLog::new(0);
    log.push(1);
    log.push(2);
    assert_eq!(log.entries().iter().copied().collect::<Vec<_>>(), vec![2]);
}

#[test]
fn bounded_log_of_entries() {
    let mut log: BoundedLog<LogEntry> = BoundedLog::new(2);
    for (i, level) in [LogLevel::Info, LogLevel::Warn, LogLevel::Fill].into_iter().enumerate() {
        log.push(LogEntry { ts_secs: i as i64, ts_nanos: 0, level, message: format!("m{i}") });
    }
    let levels: Vec<LogLevel> = log.entries().iter().map(|e| e.level).collect();
    assert_eq!(levels, vec![LogLevel::Warn, LogLevel::Fill]);
}

#[test]
fn counters_count_fills_and_orders() {
    let mut c = TradeCounters::new();
    c.record_result(true);
    c.record_result(true);
    c.record_result(false);
    c.record_order();
    assert_eq!((c.wins, c.losses, c.orders), (2, 1, 1));
    assert_eq!(c.total_trades(), 3);
}

#[test]
fn counters_wrap_like_atomics() {
    let mut c = TradeCounters::new();
    c.wins = u64::MAX;
    c.record_result(true);
    assert_eq!(c.wins, 0);
    c.wins = u64::MAX;
    c.losses = 2;
    assert_eq!(c.total_trades(), 1);
}

#[test]
fn daily_cap_trips_and_stays_closed_until_reset() {
    let mut f = ControlFlags::new();
    assert_eq!(f.pre_trade_check(false), CheckOutcome::Open);
    assert_eq!(f.pre_trade_check(true), CheckOutcome::CapTripped);
    assert!(f.daily_cap_hit && f.paused);
    assert_eq!(f.pre_trade_check(false), CheckOutcome::Blocked);
    f.reset_daily();
    assert!(!f.trading_blocked());
    assert_eq!(f.pre_trade_check(false), CheckOutcome::Open);
}

#[test]
fn pause_toggles() {
    let mut f = ControlFlags::new();
    assert!(f.toggle_pause());
    assert_eq!(f.pre_trade_check(true), CheckOutcome::Blocked);
    assert!(!f.daily_cap_hit);
    assert!(!f.toggle_pause());
    assert_eq!(f, ControlFlags::new());
}

#[test]
fn cooldown_window() {
    let mut c = Cooldowns::new();
    c.start("c1", 1_000);
    c.start("c2", 1_200);
    assert!(c.is_cooling("c1"));
    assert!(!c.is_cooling("c3"));
    c.expire(1_299, COOLDOWN_SECS);
    assert!(c.is_cooling("c1"));
    c.expire(1_300, COOLDOWN_SECS);
    assert!(!c.is_cooling("c1"));
    assert!(c.is_cooling("c2"));
    c.start("c2", 2_000);
    c.expire(1_600, COOLDOWN_SECS);
    assert!(c.is_cooling("c2"));
}

#[test]
fn cooldown_only_after_fill() {
    let mut c = Cooldowns::new();
    c.record_order_outcome("a", OrderOutcome::Rejected, 10);
    c.record_order_outcome("b", OrderOutcome::Failed, 10);
    assert!(!c.is_cooling("a"));
    assert!(!c.is_cooling("b"));
    c.record_order_outcome("a", OrderOutcome::Filled, 10);
    assert!(c.is_cooling("a"));
    c.expire(10 + COOLDOWN_SECS - 1, COOLDOWN_SECS);
    assert!(c.is_cooling("a"));
    c.expire(10 + COOLDOWN_SECS, COOLDOWN_SECS);
    assert!(!c.is_cooling("a"));
}

#[test]
fn first_market_off_cooldown() {
    let mut c = Cooldowns::new();
    c.start("a", 0);
    let ids = vec!["a".to_string(), "b".to_string(), "c".to_string()];
    assert_eq!(c.first_available(&ids), Some(1));
    c.start("b", 0);
    c.start("c", 0);
    assert_eq!(c.first_available(&ids), None);
}

#[test]
fn reconnect_rotation() {
    let mut p = ReconnectPolicy::new(3);
    assert_eq!(p.current_endpoint(), 0);
    assert_eq!(p.on_connect_failed(), Backoff::Reconnect);
    assert_eq!(p.current_endpoint(), 1);
    assert_eq!(p.on_connect_failed(), Backoff::Reconnect);
    assert_eq!(p.on_connect_failed(), Backoff::AllFailed);
    assert_eq!(p.consecutive_fails(), 0);
    assert_eq!(p.current_endpoint(), 0);
    p.on_connect_failed();
    p.on_connected();
    assert_eq!(p.consecutive_fails(), 0);
    assert_eq!(p.current_endpoint(), 1);
}

#[test]
fn dashboard_keys() {
    assert_eq!(action_for_key(Key::Char('q'), false), Some(UiAction::Quit));
    assert_eq!(action_for_key(Key::Esc, false), Some(UiAction::Quit));
    assert_eq!(action_for_key(Key::Char('c'), true), Some(UiAction::Quit));
    assert_eq!(action_for_key(Key::Char('c'), false), None);
    assert_eq!(action_for_key(Key::Char('p'), false), Some(UiAction::TogglePause));
    assert_eq!(action_for_key(Key::Char('r'), true), Some(UiAction::ResetDaily));
    assert_eq!(action_for_key(Key::Other, true), None);
}

#[test]
fn flag_texts() {
    for v in ["1", "true", "yes", "on"] {
        assert!(parse_flag(v));
    }
    for v in ["0", "TRUE", "no", "", "on "] {
        assert!(!parse_flag(v));
    }
    assert!(is_headless_text("1"));
    assert!(is_headless_text("TrUe"));
    assert!(!is_headless_text("yes"));
    assert!(!is_headless_text("true1"));
}
