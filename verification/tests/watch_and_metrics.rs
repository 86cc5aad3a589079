use ai_gateway::circuit::window::MetricWindow;
use ai_gateway::config_watch::{next_action, state_after_reload, watches_file, ConfigSourceKind, WatchAction, WatchEvent};

#[test]
fn watcher_reloads_on_changes_and_stops_when_a_feed_ends() {
    assert_eq!(next_action(WatchEvent::FileChanged { invalidated: false }), WatchAction::Reload);
    assert_eq!(next_action(WatchEvent::FileChanged { invalidated: true }), WatchAction::ReloadAndRewatch);
    assert_eq!(next_action(WatchEvent::ResourceChanged), WatchAction::Reload);
    assert_eq!(next_action(WatchEvent::FileWatchClosed), WatchAction::Stop);
    assert_eq!(next_action(WatchEvent::RewatchFailed), WatchAction::Stop);
    assert_eq!(next_action(WatchEvent::ResourceFeedClosed), WatchAction::Stop);
    assert!(watches_file(ConfigSourceKind::File));
    assert!(!watches_file(ConfigSourceKind::Static));
}

#[test]
fn failed_reload_keeps_the_previous_state() {
    let kept: u32 = state_after_reload(1, Err::<u32, &str>("bad yaml"));
    assert_eq!(kept, 1);
    let replaced: u32 = state_after_reload(1, Ok::<u32, &str>(2));
    assert_eq!(replaced, 2);
}

#[test]
fn metric_window_keeps_recent_samples() {
    let mut window: MetricWindow<i64> = MetricWindow::new(1_000);
    window.record_at(5, 0);
    window.record_at(7, 600);
    assert_eq!(window.values_at(900), vec![5, 7]);
    assert_eq!(window.len_at(1_500), 1);
    assert_eq!(window.values_at(1_500), vec![7]);
    assert_eq!(window.len_at(10_000), 0);
}
