//! The user's settings and the cumulative optimisation statistics kept in them.

use vstd::prelude::*;
use vstd::string::*;

verus! {

/// The user's settings.
#[derive(Clone, Debug)]
pub struct Settings {
    /// Auto-optimise once RAM usage crosses this percent (0 disables auto mode).
    pub auto_trigger_percent: u32,
    /// How often (seconds) the background watcher checks memory.
    pub check_interval_secs: u64,
    /// Also purge the system standby list on every optimise pass.
    pub clear_standby_on_optimize: bool,
    pub launch_on_startup: bool,
    pub minimize_to_tray: bool,
    /// Executable names to exclude from memory trimming (e.g. "code.exe").
    pub whitelist: Vec<String>,
    /// Cumulative total RAM freed in MB.
    pub total_freed_mb: u64,
    /// Total number of optimisation passes performed.
    pub total_optimizations: u64,
}

/// The names on the whitelist of fresh settings.
pub open spec fn default_whitelist() -> Seq<Seq<char>> {
    seq!["code.exe"@, "devenv.exe"@, "idea64.exe"@]
}

impl Settings {
    /// The settings of a fresh installation.
    pub open spec fn is_default(&self) -> bool {
        &&& self.auto_trigger_percent == 85
        &&& self.check_interval_secs == 10
        &&& self.clear_standby_on_optimize
        &&& !self.launch_on_startup
        &&& self.minimize_to_tray
        &&& self.whitelist@.map_values(|s: String| s@) == default_whitelist()
        &&& self.total_freed_mb == 0
        &&& self.total_optimizations == 0
    }

    /// Everything but the statistics is the same in both settings.
    pub open spec fn same_preferences(&self, other: &Settings) -> bool {
        &&& self.auto_trigger_percent == other.auto_trigger_percent
        &&& self.check_interval_secs == other.check_interval_secs
        &&& self.clear_standby_on_optimize == other.clear_standby_on_optimize
        &&& self.launch_on_startup == other.launch_on_startup
        &&& self.minimize_to_tray == other.minimize_to_tray
        &&& self.whitelist == other.whitelist
    }

    /// Whether one more pass that freed `freed_mb` can be counted without the
    /// statistics overflowing.
    pub open spec fn can_record(&self, freed_mb: u64) -> bool {
        &&& self.total_freed_mb + freed_mb <= u64::MAX
        &&& self.total_optimizations + 1 <= u64::MAX
    }

    /// These settings with one more optimisation pass counted, which freed
    /// `freed_mb` mebibytes.
    pub open spec fn with_pass_recorded(self, freed_mb: u64) -> Settings {
        Settings {
            total_freed_mb: (self.total_freed_mb + freed_mb) as u64,
            total_optimizations: (self.total_optimizations + 1) as u64,
            ..self
        }
    }

    /// These settings with the statistics cleared.
    pub open spec fn with_stats_reset(self) -> Settings {
        Settings { total_freed_mb: 0, total_optimizations: 0, ..self }
    }

    /// Counts one optimisation pass that freed `freed_mb` mebibytes.
    pub fn record_optimization(&mut self, freed_mb: u64)
        requires
            old(self).can_record(freed_mb),
        ensures
            *final(self) == old(self).with_pass_recorded(freed_mb),
            final(self).total_freed_mb == old(self).total_freed_mb + freed_mb,
            final(self).total_optimizations == old(self).total_optimizations + 1,
            final(self).same_preferences(old(self)),
    {
        self.total_freed_mb = self.total_freed_mb + freed_mb;
        self.total_optimizations = self.total_optimizations + 1;
    }

    /// Clears the cumulative statistics.
    pub fn reset_stats(&mut self)
        ensures
            *final(self) == old(self).with_stats_reset(),
            final(self).total_freed_mb == 0,
            final(self).total_optimizations == 0,
            final(self).same_preferences(old(self)),
    {
        self.total_freed_mb = 0;
        self.total_optimizations = 0;
    }
}

/// Two settings have the same preferences exactly when the trigger, the interval,
/// the three switches and the whitelist all agree; the statistics play no part.
pub proof fn lemma_same_preferences_fields(a: Settings, b: Settings)
    ensures
        a.same_preferences(&b) <==> (a.auto_trigger_percent == b.auto_trigger_percent
            && a.check_interval_secs == b.check_interval_secs && a.clear_standby_on_optimize
            == b.clear_standby_on_optimize && a.launch_on_startup == b.launch_on_startup
            && a.minimize_to_tray == b.minimize_to_tray && a.whitelist == b.whitelist),
{
}

/// After the statistics are cleared, they count exactly the passes recorded since:
/// one pass that freed `freed_mb` leaves a count of one and a total of `freed_mb`,
/// and the preferences are untouched throughout.
pub proof fn lemma_stats_count_from_reset(s: Settings, freed_mb: u64)
    ensures
        s.with_stats_reset().can_record(freed_mb),
        s.with_stats_reset().with_pass_recorded(freed_mb).total_freed_mb == freed_mb,
        s.with_stats_reset().with_pass_recorded(freed_mb).total_optimizations == 1,
        s.with_stats_reset().with_pass_recorded(freed_mb).same_preferences(&s),
{
}

/// Counting passes adds up: two passes count two and free the sum of what each
/// freed.
pub proof fn lemma_stats_accumulate(s: Settings, first_mb: u64, second_mb: u64)
    requires
        s.total_freed_mb + first_mb + second_mb <= u64::MAX,
        s.total_optimizations + 2 <= u64::MAX,
    ensures
        s.can_record(first_mb),
        s.with_pass_recorded(first_mb).can_record(second_mb),
        s.with_pass_recorded(first_mb).with_pass_recorded(second_mb).total_freed_mb
            == s.total_freed_mb + first_mb + second_mb,
        s.with_pass_recorded(first_mb).with_pass_recorded(second_mb).total_optimizations
            == s.total_optimizations + 2,
{
}

impl Default for Settings {
    fn default() -> (s: Self)
        ensures
            s.is_default(),
            s.auto_trigger_percent == 85,
            s.check_interval_secs == 10,
            s.clear_standby_on_optimize,
            !s.launch_on_startup,
            s.minimize_to_tray,
            s.whitelist@.len() == 3,
            s.whitelist@[0]@ == "code.exe"@,
            s.whitelist@[1]@ == "devenv.exe"@,
            s.whitelist@[2]@ == "idea64.exe"@,
            s.total_freed_mb == 0,
            s.total_optimizations == 0,
    {
        let whitelist = vec![
            String::from_str("code.exe"),
            String::from_str("devenv.exe"),
            String::from_str("idea64.exe"),
        ];
        let s = Settings {
            auto_trigger_percent: 85,
            check_interval_secs: 10,
            clear_standby_on_optimize: true,
            launch_on_startup: false,
            minimize_to_tray: true,
            whitelist,
            total_freed_mb: 0,
            total_optimizations: 0,
        };
        assert(s.whitelist@.map_values(|x: String| x@) =~= default_whitelist());
        s
    }
}

} // verus!
