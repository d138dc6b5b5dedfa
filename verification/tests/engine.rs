use ramguard_pro::commands::{
    auto_optimize_due, autostart_action, menu_action, summarize_optimization,
    tray_click_restores, watcher_interval_secs, AutostartAction, MenuAction,
};
use ramguard_pro::memory::{
    clear_standby_list, elevation_from_token, enable_debug_privilege, get_memory_status,
    is_elevated, memory_status_from_raw, purge_succeeded, trim_process_working_set,
    MemoryStatus,
};
use ramguard_pro::settings::Settings;

const MB: u64 = 1024 * 1024;

#[test]
fn raw_figures_become_mebibytes() {
    let s = memory_status_from_raw(16 * 1024 * MB + 5, 6 * 1024 * MB, 62);
    assert_eq!(s.total_mb, 16384);
    assert_eq!(s.available_mb, 6144);
    assert_eq!(s.used_mb, 10240);
    assert_eq!(s.percent_used, 62);
}

#[test]
fn used_memory_never_underflows() {
    let s = memory_status_from_raw(MB, 3 * MB, 0);
    assert_eq!(s.used_mb, 0);
    let s = memory_status_from_raw(u64::MAX, 0, 100);
    assert_eq!(s.total_mb, 17592186044415);
}

#[test]
fn portable_fallbacks() {
    assert_eq!(
        get_memory_status(),
        MemoryStatus { total_mb: 0, available_mb: 0, used_mb: 0, percent_used: 0 }
    );
    assert!(!enable_debug_privilege());
    assert!(!is_elevated());
    assert!(!trim_process_working_set(1234));
    assert!(!clear_standby_list());
}

#[test]
fn status_codes() {
    assert!(purge_succeeded(0));
    assert!(!purge_succeeded(-1073741727));
    assert!(elevation_from_token(1, 1));
    assert!(!elevation_from_token(0, 1));
    assert!(!elevation_from_token(1, 0));
}

fn status(used: u64) -> MemoryStatus {
    MemoryStatus { total_mb: 8192, available_mb: 8192 - used, used_mb: used, percent_used: 0 }
}

#[test]
fn pass_summary_counts_and_frees() {
    let r = summarize_optimization(&status(6000), &status(5200), &vec![true, false, true, true], true, false);
    assert_eq!(r.processes_trimmed, 3);
    assert_eq!(r.processes_failed, 1);
    assert_eq!(r.freed_mb, 800);
    assert!(r.standby_list_cleared);
    assert!(!r.is_admin);
}

#[test]
fn pass_summary_never_reports_negative_freed() {
    let r = summarize_optimization(&status(5000), &status(5100), &vec![], false, true);
    assert_eq!(r.freed_mb, 0);
    assert_eq!(r.processes_trimmed, 0);
    assert_eq!(r.processes_failed, 0);
    assert!(r.is_admin);
}

#[test]
fn default_settings() {
    let s = Settings::default();
    assert_eq!(s.auto_trigger_percent, 85);
    assert_eq!(s.check_interval_secs, 10);
    assert!(s.clear_standby_on_optimize);
    assert!(!s.launch_on_startup);
    assert!(s.minimize_to_tray);
    assert_eq!(s.whitelist, vec!["code.exe", "devenv.exe", "idea64.exe"]);
    assert_eq!(s.total_freed_mb, 0);
    assert_eq!(s.total_optimizations, 0);
}

#[test]
fn stats_accumulate_and_reset() {
    let mut s = Settings::default();
    s.record_optimization(120);
    s.record_optimization(30);
    assert_eq!(s.total_freed_mb, 150);
    assert_eq!(s.total_optimizations, 2);
    s.reset_stats();
    assert_eq!(s.total_freed_mb, 0);
    assert_eq!(s.total_optimizations, 0);
    s.record_optimization(7);
    assert_eq!((s.total_freed_mb, s.total_optimizations), (7, 1));
    assert_eq!(s.auto_trigger_percent, 85);
}

#[test]
fn watcher_interval_has_a_floor() {
    assert_eq!(watcher_interval_secs(0), 2);
    assert_eq!(watcher_interval_secs(1), 2);
    assert_eq!(watcher_interval_secs(2), 2);
    assert_eq!(watcher_interval_secs(10), 10);
}

#[test]
fn auto_mode() {
    assert!(!auto_optimize_due(0, 100));
    assert!(auto_optimize_due(85, 85));
    assert!(auto_optimize_due(85, 97));
    assert!(!auto_optimize_due(85, 84));
}

#[test]
fn autostart_follows_setting() {
    assert_eq!(autostart_action(true, false), AutostartAction::Enable);
    assert_eq!(autostart_action(false, true), AutostartAction::Disable);
    assert_eq!(autostart_action(true, true), AutostartAction::Keep);
    assert_eq!(autostart_action(false, false), AutostartAction::Keep);
}

#[test]
fn tray_menu_and_click() {
    assert_eq!(menu_action("show"), MenuAction::ShowWindow);
    assert_eq!(menu_action("optimize"), MenuAction::OptimizeNow);
    assert_eq!(menu_action("quit"), MenuAction::Quit);
    assert_eq!(menu_action("Quit"), MenuAction::Ignore);
    assert!(tray_click_restores(true, true));
    assert!(!tray_click_restores(true, false));
    assert!(!tray_click_restores(false, true));
}
