use ramguard_pro::process_manager::{
    describe_process, kill_result, kill_target, list_processes, trimmable_pids, KillError,
    ProcessInfo, ProcessSample,
};

fn sample(pid: u32, name: &str, memory_mb: u64) -> ProcessSample {
    ProcessSample {
        pid,
        name: name.to_string(),
        memory_bytes: memory_mb * 1024 * 1024,
        cpu_usage_bits: 1.5f32.to_bits(),
    }
}

fn names(rows: &[ProcessInfo]) -> Vec<String> {
    rows.iter().map(|r| r.name.clone()).collect()
}

#[test]
fn protected_process_is_flagged() {
    let info = describe_process(&sample(4, "csrss.exe", 3));
    assert!(info.is_protected);
    assert!(!info.is_dangerous);
    assert!(!info.is_suggested_cleanup);
    assert_eq!(info.pid, 4);
    assert_eq!(info.memory_mb, 3);
    assert_eq!(f32::from_bits(info.cpu_usage_bits), 1.5);
}

#[test]
fn classification_ignores_case() {
    let info = describe_process(&sample(7, "CSRSS.EXE", 1));
    assert!(info.is_protected);
    assert_eq!(info.name, "CSRSS.EXE");
    let info = describe_process(&sample(8, "Discord.exe", 1));
    assert!(info.is_suggested_cleanup);
    assert!(!info.is_protected);
}

#[test]
fn mixed_case_dangerous_entries_match() {
    assert!(describe_process(&sample(1, "TabTip.exe", 1)).is_dangerous);
    assert!(describe_process(&sample(2, "RuntimeBroker.exe", 1)).is_dangerous);
    assert!(describe_process(&sample(3, "msmpeng.exe", 1)).is_dangerous);
}

#[test]
fn readme_shield_list_is_protected() {
    for name in [
        "system", "registry", "smss.exe", "csrss.exe", "wininit.exe", "winlogon.exe",
        "services.exe", "lsass.exe", "svchost.exe", "explorer.exe", "dwm.exe", "ctfmon.exe",
        "conhost.exe", "ramguard-pro.exe",
    ] {
        assert!(describe_process(&sample(1, name, 1)).is_protected, "{name}");
    }
}

#[test]
fn ordinary_process_is_unflagged() {
    let info = describe_process(&sample(9, "notepad.exe", 12));
    assert!(!info.is_protected && !info.is_dangerous && !info.is_suggested_cleanup);
}

#[test]
fn memory_is_rounded_down_to_mebibytes() {
    let mut s = sample(5, "a.exe", 0);
    s.memory_bytes = 3 * 1024 * 1024 - 1;
    assert_eq!(describe_process(&s).memory_mb, 2);
}

#[test]
fn listing_is_sorted_largest_first_and_stable() {
    let samples = vec![
        sample(1, "a.exe", 10),
        sample(2, "b.exe", 300),
        sample(3, "c.exe", 10),
        sample(4, "d.exe", 50),
        sample(5, "e.exe", 300),
    ];
    let rows = list_processes(&samples);
    assert_eq!(names(&rows), vec!["b.exe", "e.exe", "d.exe", "a.exe", "c.exe"]);
    let mems: Vec<u64> = rows.iter().map(|r| r.memory_mb).collect();
    assert_eq!(mems, vec![300, 300, 50, 10, 10]);
}

#[test]
fn empty_listing() {
    assert!(list_processes(&Vec::new()).is_empty());
}

#[test]
fn trimming_skips_protected_and_whitelisted() {
    let samples = vec![
        sample(10, "code.exe", 100),
        sample(11, "lsass.exe", 100),
        sample(12, "chrome.exe", 100),
        sample(13, "Code.EXE", 100),
        sample(14, "spotify.exe", 100),
    ];
    let whitelist = vec!["code.exe".to_string()];
    assert_eq!(trimmable_pids(&samples, &whitelist), vec![12, 14]);
    assert_eq!(trimmable_pids(&samples, &Vec::new()), vec![10, 12, 13, 14]);
}

#[test]
fn whitelist_entries_compare_ignoring_case() {
    let samples = vec![sample(1, "devenv.exe", 1), sample(2, "x.exe", 1)];
    let whitelist = vec!["DevEnv.exe".to_string()];
    assert_eq!(trimmable_pids(&samples, &whitelist), vec![2]);
}

#[test]
fn kill_refuses_missing_process() {
    let samples = vec![sample(1, "a.exe", 1)];
    let err = kill_target(&samples, 99).unwrap_err();
    assert!(matches!(err, KillError::NotFound));
    assert_eq!(err.message(), "Process not found — it may have already exited.");
}

#[test]
fn kill_refuses_protected_process() {
    let samples = vec![sample(1, "a.exe", 1), sample(2, "Explorer.EXE", 1)];
    let err = kill_target(&samples, 2).unwrap_err();
    assert_eq!(err.message(), "Cannot end protected system process: Explorer.EXE");
}

#[test]
fn kill_allows_ordinary_process() {
    let samples = vec![sample(1, "a.exe", 1), sample(2, "Game.exe", 1)];
    assert_eq!(kill_target(&samples, 2).unwrap(), "Game.exe");
}

#[test]
fn kill_outcome_messages() {
    assert!(kill_result("a.exe".to_string(), true).is_ok());
    let err = kill_result("a.exe".to_string(), false).unwrap_err();
    assert_eq!(err.message(), "Failed to kill a.exe.");
    let err = KillError::AccessDenied { name: "b.exe".to_string() };
    assert_eq!(
        err.message(),
        "Access denied — cannot open b.exe. Try running RAMGuard Pro as administrator."
    );
    let err = KillError::TerminateFailed { name: "c.exe".to_string() };
    assert_eq!(err.message(), "Failed to terminate c.exe.");
}
