use launcherg::discovery::{resolve_target_path, DiscoveryEngine, DiscoveryStep};
use launcherg::monitor::{
    cleanup_steps, should_register_pause_shortcut, CleanupStep, SessionMonitor,
};
use launcherg::pause_manager::{AlreadyTrackingError, NotTrackingError, PauseManager};
use launcherg::scorer::{ProcessInfo, ProcessSearchConfig};

fn b(s: &str) -> Vec<u8> {
    s.as_bytes().to_vec()
}

fn proc_info(pid: u32, exe_path: &str, name: &str) -> ProcessInfo {
    ProcessInfo {
        pid,
        exe_path: b(exe_path),
        name: b(name),
    }
}

#[test]
fn toggle_without_tracking_is_an_error() {
    let mut pm = PauseManager::new();
    assert_eq!(pm.toggle(), Err(NotTrackingError));
    assert!(!pm.is_paused());
    assert!(!pm.is_tracking());
}

#[test]
fn toggles_alternate_while_tracking() {
    let mut pm = PauseManager::new();
    pm.set_tracking(true);
    assert!(pm.is_tracking());
    assert_eq!(pm.toggle(), Ok(true));
    assert!(pm.is_paused());
    assert_eq!(pm.toggle(), Ok(false));
    assert!(!pm.is_paused());
    assert_eq!(pm.toggle(), Ok(true));
    assert!(pm.is_paused());
}

#[test]
fn clearing_tracking_always_resets_the_pause_flag() {
    let mut pm = PauseManager::new();
    pm.set_tracking(true);
    pm.set_paused(true);
    assert!(pm.is_paused());
    pm.set_tracking(false);
    assert!(!pm.is_tracking());
    assert!(!pm.is_paused());
}

#[test]
fn setting_tracking_on_keeps_the_pause_flag() {
    let mut pm = PauseManager::new();
    pm.set_tracking(true);
    pm.set_paused(true);
    pm.set_tracking(true);
    assert!(pm.is_paused());
}

#[test]
fn a_second_concurrent_session_is_rejected() {
    let mut pm = PauseManager::new();
    assert_eq!(pm.begin_tracking(), Ok(()));
    assert!(pm.is_tracking());
    assert_eq!(pm.begin_tracking(), Err(AlreadyTrackingError));
    assert!(pm.is_tracking());
    pm.set_tracking(false);
    assert_eq!(pm.begin_tracking(), Ok(()));
}

#[test]
fn accumulation_skips_exactly_the_paused_interval() {
    // Ticks at 10, 20, 30, 40 seconds; paused during [20, 30); every
    // persist succeeds and is confirmed.
    let mut m = SessionMonitor::new(1, 0);
    let t1 = m.tick(10, false, true);
    assert_eq!(t1.persist_secs, 10);
    assert!(!t1.ended);
    m.persisted();
    let t2 = m.tick(20, false, true);
    assert_eq!(t2.persist_secs, 10);
    m.persisted();
    let t3 = m.tick(30, true, true);
    assert_eq!(t3.persist_secs, 0);
    let t4 = m.tick(40, false, true);
    assert_eq!(t4.persist_secs, 10);
    m.persisted();
    // Total elapsed 40, paused 10: accumulated is the difference.
    assert_eq!(m.accumulated_secs, 30);
    assert_eq!(m.pending_secs, 0);
}

#[test]
fn a_failed_persist_is_carried_into_the_next_tick() {
    let mut m = SessionMonitor::new(1, 0);
    // First persist fails: no confirmation.
    let t1 = m.tick(10, false, true);
    assert_eq!(t1.persist_secs, 10);
    // The next tick hands out the longer total.
    let t2 = m.tick(20, false, true);
    assert_eq!(t2.persist_secs, 20);
    m.persisted();
    // Nothing was lost and nothing double-counted.
    assert_eq!(m.accumulated_secs, 20);
    assert_eq!(m.pending_secs, 0);
    let t3 = m.tick(30, false, true);
    assert_eq!(t3.persist_secs, 10);
}

#[test]
fn a_pause_keeps_the_unpersisted_remainder() {
    let mut m = SessionMonitor::new(1, 0);
    // The increment of the first tick fails to persist.
    let t1 = m.tick(10, false, true);
    assert_eq!(t1.persist_secs, 10);
    // A paused tick accumulates nothing but still owes the remainder.
    let t2 = m.tick(20, true, true);
    assert_eq!(t2.persist_secs, 10);
    m.persisted();
    assert_eq!(m.accumulated_secs, 10);
}

#[test]
fn shortcut_registration_needs_a_nonempty_setting() {
    assert!(!should_register_pause_shortcut(&None));
    assert!(!should_register_pause_shortcut(&Some(vec![])));
    assert!(should_register_pause_shortcut(&Some(b("Ctrl+F9"))));
}

#[test]
fn a_tick_that_finds_the_process_gone_ends_the_session() {
    let mut m = SessionMonitor::new(7, 100);
    let t = m.tick(110, false, false);
    assert_eq!(t.persist_secs, 10);
    assert!(t.ended);
    assert_eq!(m.accumulated_secs, 10);
}

#[test]
fn a_zero_length_tick_persists_nothing() {
    let mut m = SessionMonitor::new(7, 100);
    let t = m.tick(100, false, true);
    assert_eq!(t.persist_secs, 0);
    assert!(!t.ended);
}

#[test]
fn discovery_times_out_after_exactly_the_configured_timeout() {
    // Timeout worth two poll intervals; a table whose only process is
    // excluded never yields a candidate.
    let config = ProcessSearchConfig {
        search_timeout_secs: 4,
        search_interval_secs: 2,
        system_folders: vec![b("c:\\windows")],
        game_folders: vec![],
    };
    let mut engine = DiscoveryEngine::new(None, b("C:\\Games\\a.exe"), b("A"), config);
    let table = vec![proc_info(3, "C:\\Windows\\System32\\svchost.exe", "svchost.exe")];
    assert_eq!(engine.poll(&table), DiscoveryStep::Continue);
    assert_eq!(engine.poll(&table), DiscoveryStep::Continue);
    assert_eq!(engine.poll(&table), DiscoveryStep::Continue);
    // The elapsed clock has now passed the timeout: the next poll gives up.
    assert_eq!(engine.poll(&table), DiscoveryStep::TimedOut);
    assert_eq!(engine.poll(&table), DiscoveryStep::TimedOut);
}

#[test]
fn discovery_short_circuits_on_a_spawned_pid() {
    let config = ProcessSearchConfig::default();
    let mut engine = DiscoveryEngine::new(Some(77), b("C:\\Games\\a.exe"), b("A"), config);
    let table: Vec<ProcessInfo> = vec![];
    assert_eq!(engine.poll(&table), DiscoveryStep::Found(77));
    assert_eq!(engine.poll(&table), DiscoveryStep::Found(77));
}

#[test]
fn discovery_finds_the_resolved_shortcut_target_on_the_first_poll() {
    // A shortcut launch: the stored path resolves to the real executable.
    let final_path = resolve_target_path(
        b("C:\\Users\\x\\Foo.lnk"),
        Some(b("C:\\Games\\Foo\\foo.exe")),
    );
    assert_eq!(final_path, b("C:\\Games\\Foo\\foo.exe"));

    let mut engine =
        DiscoveryEngine::new(None, final_path, b("Foo"), ProcessSearchConfig::default());
    let table = vec![
        proc_info(10, "C:\\Windows\\System32\\helper.exe", "helper.exe"),
        proc_info(20, "C:\\Games\\Foo\\foo.exe", "foo.exe"),
    ];
    assert_eq!(engine.poll(&table), DiscoveryStep::Found(20));
}

#[test]
fn an_empty_process_table_keeps_discovery_searching() {
    let mut engine = DiscoveryEngine::new(
        None,
        b("C:\\Games\\a.exe"),
        b("A"),
        ProcessSearchConfig::default(),
    );
    let table: Vec<ProcessInfo> = vec![];
    assert_eq!(engine.poll(&table), DiscoveryStep::Continue);
}

#[test]
fn failed_shortcut_resolution_falls_back_to_the_shortcut_path() {
    let r = resolve_target_path(b("C:\\Users\\x\\Foo.lnk"), None);
    assert_eq!(r, b("C:\\Users\\x\\Foo.lnk"));
}

#[test]
fn a_plain_path_is_never_replaced_by_a_resolution() {
    let r = resolve_target_path(b("C:\\Games\\a.exe"), Some(b("C:\\other.exe")));
    assert_eq!(r, b("C:\\Games\\a.exe"));
}

#[test]
fn cleanup_runs_its_steps_in_order() {
    assert_eq!(
        cleanup_steps(true),
        vec![
            CleanupStep::StopWatcher,
            CleanupStep::PersistLastPlayed,
            CleanupStep::ClearTracking,
            CleanupStep::UnregisterShortcut,
            CleanupStep::NotifyUi,
        ]
    );
    assert_eq!(
        cleanup_steps(false),
        vec![
            CleanupStep::StopWatcher,
            CleanupStep::PersistLastPlayed,
            CleanupStep::ClearTracking,
            CleanupStep::NotifyUi,
        ]
    );
}
