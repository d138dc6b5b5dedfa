//! The decisions behind the application's commands and its background watcher:
//! what an optimisation pass reports, when the watcher optimises on its own, what
//! the autostart switch must do and what a tray action means.

use vstd::prelude::*;
use vstd::string::*;
use crate::memory::{MemoryStatus, OptimizeResult, saturating_diff};

verus! {

/// How many of the attempts succeeded.
pub open spec fn count_succeeded(attempts: Seq<bool>) -> nat {
    attempts.filter(|b: bool| b).len()
}

/// The positions of `attempts` that hold `outcome`.
pub open spec fn positions_with(attempts: Seq<bool>, outcome: bool) -> Set<int> {
    Set::new(|i: int| 0 <= i < attempts.len() && attempts[i] == outcome)
}

/// No attempt counts nothing, and one more attempt counts one more success exactly
/// when it succeeded.
pub proof fn lemma_count_succeeded_steps(attempts: Seq<bool>, last: bool)
    ensures
        count_succeeded(Seq::<bool>::empty()) == 0,
        count_succeeded(attempts.push(last)) == count_succeeded(attempts) + if last {
            1int
        } else {
            0int
        },
{
    reveal(Seq::filter);
    attempts.lemma_filter_push(last, |b: bool| b);
}

/// The successes counted are the positions that hold a success, and the rest of the
/// attempts are exactly the positions that hold a failure.
pub proof fn lemma_count_succeeded_positions(attempts: Seq<bool>)
    ensures
        positions_with(attempts, true).finite(),
        positions_with(attempts, false).finite(),
        count_succeeded(attempts) == positions_with(attempts, true).len(),
        attempts.len() - count_succeeded(attempts) == positions_with(attempts, false).len(),
    decreases attempts.len(),
{
    if attempts.len() == 0 {
        reveal(Seq::filter);
        assert(positions_with(attempts, true) =~= Set::<int>::empty());
        assert(positions_with(attempts, false) =~= Set::<int>::empty());
    } else {
        let rest = attempts.drop_last();
        let last = attempts.last();
        let n = rest.len() as int;
        lemma_count_succeeded_positions(rest);
        assert(rest.push(last) =~= attempts);
        lemma_count_succeeded_steps(rest, last);
        assert(count_succeeded(rest) <= rest.len()) by {
            rest.lemma_filter_len(|b: bool| b);
        }
        if last {
            assert(positions_with(attempts, true) =~= positions_with(rest, true).insert(n));
            assert(positions_with(attempts, false) =~= positions_with(rest, false));
            assert(!positions_with(rest, true).contains(n));
        } else {
            assert(positions_with(attempts, false) =~= positions_with(rest, false).insert(n));
            assert(positions_with(attempts, true) =~= positions_with(rest, true));
            assert(!positions_with(rest, false).contains(n));
        }
    }
}

/// Summarises an optimisation pass: `trim_results` holds, for every process that
/// was trimmed, whether the trim succeeded; the memory freed is the drop in used
/// memory between the two readings, and never negative.
pub fn summarize_optimization(
    before: &MemoryStatus,
    after: &MemoryStatus,
    trim_results: &Vec<bool>,
    standby_list_cleared: bool,
    is_admin: bool,
) -> (r: OptimizeResult)
    requires
        before.used_mb <= i64::MAX,
        after.used_mb <= i64::MAX,
        trim_results@.len() <= u32::MAX,
    ensures
        r.processes_trimmed == count_succeeded(trim_results@),
        r.processes_failed == trim_results@.len() - count_succeeded(trim_results@),
        r.processes_trimmed + r.processes_failed == trim_results@.len(),
        r.freed_mb == saturating_diff(before.used_mb as int, after.used_mb as int),
        r.freed_mb >= 0,
        before.used_mb >= after.used_mb ==> r.freed_mb == before.used_mb - after.used_mb,
        before.used_mb < after.used_mb ==> r.freed_mb == 0,
        r.processes_trimmed == positions_with(trim_results@, true).len(),
        r.processes_failed == positions_with(trim_results@, false).len(),
        r.standby_list_cleared == standby_list_cleared,
        r.is_admin == is_admin,
{
    let n = trim_results.len();
    let mut trimmed: u32 = 0;
    let mut failed: u32 = 0;
    let mut i: usize = 0;
    while i < n
        invariant
            n == trim_results@.len(),
            n <= u32::MAX,
            i <= n,
            trimmed == count_succeeded(trim_results@.take(i as int)),
            trimmed + failed == i,
        decreases n - i,
    {
        proof {
            assert(trim_results@.take(i + 1) =~= trim_results@.take(i as int).push(
                trim_results@[i as int],
            ));
            trim_results@.take(i as int).lemma_filter_push(trim_results@[i as int], |b: bool| b);
        }
        if trim_results[i] {
            trimmed = trimmed + 1;
        } else {
            failed = failed + 1;
        }
        i = i + 1;
    }
    assert(trim_results@.take(n as int) =~= trim_results@);
    proof {
        lemma_count_succeeded_positions(trim_results@);
    }
    let before_used = before.used_mb as i64;
    let after_used = after.used_mb as i64;
    let diff = before_used - after_used;
    let freed_mb = if diff > 0 {
        diff
    } else {
        0
    };
    OptimizeResult {
        processes_trimmed: trimmed,
        processes_failed: failed,
        standby_list_cleared,
        freed_mb,
        is_admin,
    }
}

/// Shortest pause, in seconds, between two checks of the background watcher.
pub const MIN_CHECK_INTERVAL_SECS: u64 = 2;

/// The pause between two checks of the background watcher: the configured
/// interval, but never less than two seconds.
pub fn watcher_interval_secs(check_interval_secs: u64) -> (secs: u64)
    ensures
        secs == if check_interval_secs >= MIN_CHECK_INTERVAL_SECS {
            check_interval_secs
        } else {
            MIN_CHECK_INTERVAL_SECS
        },
        secs >= MIN_CHECK_INTERVAL_SECS,
{
    if check_interval_secs >= MIN_CHECK_INTERVAL_SECS {
        check_interval_secs
    } else {
        MIN_CHECK_INTERVAL_SECS
    }
}

/// Whether the background watcher starts an optimisation pass: auto mode is on
/// (a trigger of 0 switches it off) and the memory load has reached the trigger.
pub fn auto_optimize_due(auto_trigger_percent: u32, percent_used: u32) -> (due: bool)
    ensures
        due == (auto_trigger_percent != 0 && percent_used >= auto_trigger_percent),
{
    auto_trigger_percent != 0 && percent_used >= auto_trigger_percent
}

/// What must be done to the system's autostart entry.
#[derive(Clone, Copy, Debug, PartialEq, Eq, Structural)]
pub enum AutostartAction {
    Enable,
    Disable,
    Keep,
}

/// Whether autostart is on after `action` is carried out on a system where it was
/// `currently_enabled`.
pub open spec fn autostart_after(currently_enabled: bool, action: AutostartAction) -> bool {
    match action {
        AutostartAction::Enable => true,
        AutostartAction::Disable => false,
        AutostartAction::Keep => currently_enabled,
    }
}

/// The change to the autostart entry that saving settings with
/// `launch_on_startup` calls for: a switch only where the entry differs from it.
pub open spec fn autostart_change(launch_on_startup: bool, currently_enabled: bool) -> AutostartAction {
    if launch_on_startup && !currently_enabled {
        AutostartAction::Enable
    } else if !launch_on_startup && currently_enabled {
        AutostartAction::Disable
    } else {
        AutostartAction::Keep
    }
}

/// What to do to the autostart entry when settings with `launch_on_startup` are
/// saved: switch it only where it differs from what the user asked.
pub fn autostart_action(launch_on_startup: bool, currently_enabled: bool) -> (action:
    AutostartAction)
    ensures
        action == autostart_change(launch_on_startup, currently_enabled),
        launch_on_startup && !currently_enabled ==> action == AutostartAction::Enable,
        !launch_on_startup && currently_enabled ==> action == AutostartAction::Disable,
        launch_on_startup == currently_enabled ==> action == AutostartAction::Keep,
{
    if launch_on_startup && !currently_enabled {
        AutostartAction::Enable
    } else if !launch_on_startup && currently_enabled {
        AutostartAction::Disable
    } else {
        AutostartAction::Keep
    }
}

/// Once the autostart change is carried out, autostart is on exactly when the
/// saved settings ask for it, and an entry that already agrees is left alone.
pub proof fn lemma_autostart_follows_setting(launch_on_startup: bool, currently_enabled: bool)
    ensures
        autostart_after(currently_enabled, autostart_change(launch_on_startup, currently_enabled))
            == launch_on_startup,
        launch_on_startup == currently_enabled ==> autostart_change(
            launch_on_startup,
            currently_enabled,
        ) == AutostartAction::Keep,
{
}

/// What a tray-menu entry does.
#[derive(Clone, Copy, Debug, PartialEq, Eq, Structural)]
pub enum MenuAction {
    ShowWindow,
    OptimizeNow,
    Quit,
    Ignore,
}

/// The action of the tray-menu entry with identifier `id`.
pub fn menu_action(id: &str) -> (action: MenuAction)
    ensures
        action == if id@ == "show"@ {
            MenuAction::ShowWindow
        } else if id@ == "optimize"@ {
            MenuAction::OptimizeNow
        } else if id@ == "quit"@ {
            MenuAction::Quit
        } else {
            MenuAction::Ignore
        },
{
    let id = String::from_str(id);
    if id.eq(&String::from_str("show")) {
        MenuAction::ShowWindow
    } else if id.eq(&String::from_str("optimize")) {
        MenuAction::OptimizeNow
    } else if id.eq(&String::from_str("quit")) {
        MenuAction::Quit
    } else {
        MenuAction::Ignore
    }
}

/// Whether a click on the tray icon brings the window back: a left-button release.
pub fn tray_click_restores(left_button: bool, button_released: bool) -> (restores: bool)
    ensures
        restores == (left_button && button_released),
{
    left_button && button_released
}

} // verus!
