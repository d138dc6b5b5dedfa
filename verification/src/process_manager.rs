//! Process classification, listing and the guard that decides what may be trimmed
//! or ended.
//!
//! Anything that touches other processes is guarded by the protected list: those
//! processes are never killable or trimmable through this engine, whatever the
//! caller asks. The suggested-cleanup list is advisory only.

use vstd::prelude::*;
use vstd::string::*;
use vstd::utf8::is_ascii_chars;

verus! {

/// One running process as the operating system reports it. The CPU usage is
/// carried as the raw bits of its 32-bit floating-point value.
#[derive(Clone, Debug)]
pub struct ProcessSample {
    pub pid: u32,
    pub name: String,
    pub memory_bytes: u64,
    pub cpu_usage_bits: u32,
}

/// One row of the process list shown to the user.
#[derive(Clone, Debug)]
pub struct ProcessInfo {
    pub pid: u32,
    pub name: String,
    pub memory_mb: u64,
    pub cpu_usage_bits: u32,
    pub is_protected: bool,
    pub is_dangerous: bool,
    pub is_suggested_cleanup: bool,
}

/// The lowercase form of a name, in the sense of Unicode's `Lowercase` property.
pub uninterp spec fn lowercase(s: Seq<char>) -> Seq<char>;

/// ASCII lowercasing: `A`..`Z` become `a`..`z`, every other character stays.
pub open spec fn ascii_lower_char(c: char) -> char {
    if 'A' <= c && c <= 'Z' {
        ((c as u32) + 32) as char
    } else {
        c
    }
}

/// ASCII lowercasing of a whole name.
pub open spec fn ascii_lowercase(s: Seq<char>) -> Seq<char> {
    s.map_values(|c: char| ascii_lower_char(c))
}

/// The key by which a process name is looked up in the guard lists: its lowercase
/// form.
///
/// Trusted: calls `str::to_lowercase` of the standard library. The contract claims
/// that the result is a function of the name alone, and that on an ASCII name it is
/// the ASCII lowercasing (Unicode lowercasing maps `A`..`Z` to `a`..`z` and leaves
/// every other ASCII character alone). Nothing is said of non-ASCII names beyond
/// that.
#[verifier::external_body]
fn normalize(name: &str) -> (key: String)
    ensures
        key@ == lowercase(name@),
        is_ascii_chars(name@) ==> key@ == ascii_lowercase(name@),
{
    name.to_lowercase()
}

/// The views of a list of string slices.
pub open spec fn str_views(s: Seq<&str>) -> Seq<Seq<char>> {
    s.map_values(|x: &str| x@)
}

/// Core operating-system and shell processes that must never be killed or trimmed:
/// ending any of them can crash the system or log the user out.
pub open spec fn protected_names() -> Seq<Seq<char>> {
    seq![
        "system"@,
        "system idle process"@,
        "registry"@,
        "smss.exe"@,
        "csrss.exe"@,
        "wininit.exe"@,
        "winlogon.exe"@,
        "services.exe"@,
        "lsass.exe"@,
        "svchost.exe"@,
        "explorer.exe"@,
        "dwm.exe"@,
        "fontdrvhost.exe"@,
        "sihost.exe"@,
        "ctfmon.exe"@,
        "conhost.exe"@,
        "ramguard-pro.exe"@,
    ]
}

/// Background programs that are commonly safe to close; only ever suggested.
pub open spec fn suggested_cleanup_names() -> Seq<Seq<char>> {
    seq![
        "onedrive.exe"@,
        "teams.exe"@,
        "skype.exe"@,
        "spotify.exe"@,
        "discord.exe"@,
        "steam.exe"@,
        "epicgameslauncher.exe"@,
        "adobeupdateservice.exe"@,
        "creativecloud.exe"@,
        "yourphone.exe"@,
        "phoneexperiencehost.exe"@,
        "widgets.exe"@,
        "gamebar.exe"@,
        "gamebarftserver.exe"@,
        "cortana.exe"@,
        "msedgewebview2.exe"@,
    ]
}

/// Processes that are not system-critical but risky to end (security, audio,
/// input, networking, driver hosts, runtime brokers). Kept in lowercase, the form
/// in which names are looked up.
pub open spec fn dangerous_names() -> Seq<Seq<char>> {
    seq![
        "msmpeng.exe"@,
        "mssense.exe"@,
        "securityhealthservice.exe"@,
        "securityhealthsystray.exe"@,
        "nissrv.exe"@,
        "mpcmdrun.exe"@,
        "audiodg.exe"@,
        "audiosrv.exe"@,
        "tabtip.exe"@,
        "textinputhost.exe"@,
        "taskmgr.exe"@,
        "regedit.exe"@,
        "mmc.exe"@,
        "avp.exe"@,
        "avgnt.exe"@,
        "avguard.exe"@,
        "mbam.exe"@,
        "mbamtray.exe"@,
        "bdagent.exe"@,
        "ekrn.exe"@,
        "egui.exe"@,
        "nortonsecurity.exe"@,
        "ns.exe"@,
        "mcshield.exe"@,
        "mfemms.exe"@,
        "dnscache.exe"@,
        "iphlpsvc.exe"@,
        "driverstore.exe"@,
        "wudfhost.exe"@,
        "runtimebroker.exe"@,
        "shellexperiencehost.exe"@,
    ]
}

fn protected_processes() -> (v: Vec<&'static str>)
    ensures
        str_views(v@) == protected_names(),
{
    let v = vec![
        "system",
        "system idle process",
        "registry",
        "smss.exe",
        "csrss.exe",
        "wininit.exe",
        "winlogon.exe",
        "services.exe",
        "lsass.exe",
        "svchost.exe",
        "explorer.exe",
        "dwm.exe",
        "fontdrvhost.exe",
        "sihost.exe",
        "ctfmon.exe",
        "conhost.exe",
        "ramguard-pro.exe",
    ];
    assert(str_views(v@) =~= protected_names());
    v
}

fn suggested_cleanup() -> (v: Vec<&'static str>)
    ensures
        str_views(v@) == suggested_cleanup_names(),
{
    let v = vec![
        "onedrive.exe",
        "teams.exe",
        "skype.exe",
        "spotify.exe",
        "discord.exe",
        "steam.exe",
        "epicgameslauncher.exe",
        "adobeupdateservice.exe",
        "creativecloud.exe",
        "yourphone.exe",
        "phoneexperiencehost.exe",
        "widgets.exe",
        "gamebar.exe",
        "gamebarftserver.exe",
        "cortana.exe",
        "msedgewebview2.exe",
    ];
    assert(str_views(v@) =~= suggested_cleanup_names());
    v
}

fn dangerous_processes() -> (v: Vec<&'static str>)
    ensures
        str_views(v@) == dangerous_names(),
{
    let v = vec![
        "msmpeng.exe",
        "mssense.exe",
        "securityhealthservice.exe",
        "securityhealthsystray.exe",
        "nissrv.exe",
        "mpcmdrun.exe",
        "audiodg.exe",
        "audiosrv.exe",
        "tabtip.exe",
        "textinputhost.exe",
        "taskmgr.exe",
        "regedit.exe",
        "mmc.exe",
        "avp.exe",
        "avgnt.exe",
        "avguard.exe",
        "mbam.exe",
        "mbamtray.exe",
        "bdagent.exe",
        "ekrn.exe",
        "egui.exe",
        "nortonsecurity.exe",
        "ns.exe",
        "mcshield.exe",
        "mfemms.exe",
        "dnscache.exe",
        "iphlpsvc.exe",
        "driverstore.exe",
        "wudfhost.exe",
        "runtimebroker.exe",
        "shellexperiencehost.exe",
    ];
    assert(str_views(v@) =~= dangerous_names());
    v
}

/// Whether `key` is one of the entries of `list`.
fn list_contains(list: &Vec<&str>, key: &String) -> (found: bool)
    ensures
        found == str_views(list@).contains(key@),
{
    let n = list.len();
    let mut i: usize = 0;
    while i < n
        invariant
            n == list@.len(),
            i <= n,
            forall|j: int| 0 <= j < i ==> list@[j]@ != key@,
        decreases n - i,
    {
        let entry = String::from_str(list[i]);
        if entry.eq(key) {
            assert(str_views(list@)[i as int] == key@);
            return true;
        }
        i = i + 1;
    }
    assert forall|j: int| 0 <= j < str_views(list@).len() implies str_views(list@)[j] != key@ by {
        assert(list@[j]@ != key@);
    }
    false
}

/// Whether a process of this name is protected.
pub open spec fn is_protected_name(name: Seq<char>) -> bool {
    protected_names().contains(lowercase(name))
}

/// Whether a process of this name is risky to end.
pub open spec fn is_dangerous_name(name: Seq<char>) -> bool {
    dangerous_names().contains(lowercase(name))
}

/// Whether a process of this name is suggested for cleanup.
pub open spec fn is_suggested_name(name: Seq<char>) -> bool {
    suggested_cleanup_names().contains(lowercase(name))
}

/// A name is protected exactly when its lowercase form is one of the core system and shell
/// processes listed here.
pub proof fn lemma_protected_list(name: Seq<char>)
    ensures
        is_protected_name(name) <==> {
            ||| lowercase(name) == "system"@
            ||| lowercase(name) == "system idle process"@
            ||| lowercase(name) == "registry"@
            ||| lowercase(name) == "smss.exe"@
            ||| lowercase(name) == "csrss.exe"@
            ||| lowercase(name) == "wininit.exe"@
            ||| lowercase(name) == "winlogon.exe"@
            ||| lowercase(name) == "services.exe"@
            ||| lowercase(name) == "lsass.exe"@
            ||| lowercase(name) == "svchost.exe"@
            ||| lowercase(name) == "explorer.exe"@
            ||| lowercase(name) == "dwm.exe"@
            ||| lowercase(name) == "fontdrvhost.exe"@
            ||| lowercase(name) == "sihost.exe"@
            ||| lowercase(name) == "ctfmon.exe"@
            ||| lowercase(name) == "conhost.exe"@
            ||| lowercase(name) == "ramguard-pro.exe"@
        },
{
    assert(protected_names()[0] == "system"@);
    assert(protected_names()[1] == "system idle process"@);
    assert(protected_names()[2] == "registry"@);
    assert(protected_names()[3] == "smss.exe"@);
    assert(protected_names()[4] == "csrss.exe"@);
    assert(protected_names()[5] == "wininit.exe"@);
    assert(protected_names()[6] == "winlogon.exe"@);
    assert(protected_names()[7] == "services.exe"@);
    assert(protected_names()[8] == "lsass.exe"@);
    assert(protected_names()[9] == "svchost.exe"@);
    assert(protected_names()[10] == "explorer.exe"@);
    assert(protected_names()[11] == "dwm.exe"@);
    assert(protected_names()[12] == "fontdrvhost.exe"@);
    assert(protected_names()[13] == "sihost.exe"@);
    assert(protected_names()[14] == "ctfmon.exe"@);
    assert(protected_names()[15] == "conhost.exe"@);
    assert(protected_names()[16] == "ramguard-pro.exe"@);
}

/// A name is risky to end exactly when its lowercase form is one of the security, audio,
/// input, system-utility, antivirus, networking, driver-host and broker processes
/// listed here.
pub proof fn lemma_dangerous_list(name: Seq<char>)
    ensures
        is_dangerous_name(name) <==> {
            ||| lowercase(name) == "msmpeng.exe"@
            ||| lowercase(name) == "mssense.exe"@
            ||| lowercase(name) == "securityhealthservice.exe"@
            ||| lowercase(name) == "securityhealthsystray.exe"@
            ||| lowercase(name) == "nissrv.exe"@
            ||| lowercase(name) == "mpcmdrun.exe"@
            ||| lowercase(name) == "audiodg.exe"@
            ||| lowercase(name) == "audiosrv.exe"@
            ||| lowercase(name) == "tabtip.exe"@
            ||| lowercase(name) == "textinputhost.exe"@
            ||| lowercase(name) == "taskmgr.exe"@
            ||| lowercase(name) == "regedit.exe"@
            ||| lowercase(name) == "mmc.exe"@
            ||| lowercase(name) == "avp.exe"@
            ||| lowercase(name) == "avgnt.exe"@
            ||| lowercase(name) == "avguard.exe"@
            ||| lowercase(name) == "mbam.exe"@
            ||| lowercase(name) == "mbamtray.exe"@
            ||| lowercase(name) == "bdagent.exe"@
            ||| lowercase(name) == "ekrn.exe"@
            ||| lowercase(name) == "egui.exe"@
            ||| lowercase(name) == "nortonsecurity.exe"@
            ||| lowercase(name) == "ns.exe"@
            ||| lowercase(name) == "mcshield.exe"@
            ||| lowercase(name) == "mfemms.exe"@
            ||| lowercase(name) == "dnscache.exe"@
            ||| lowercase(name) == "iphlpsvc.exe"@
            ||| lowercase(name) == "driverstore.exe"@
            ||| lowercase(name) == "wudfhost.exe"@
            ||| lowercase(name) == "runtimebroker.exe"@
            ||| lowercase(name) == "shellexperiencehost.exe"@
        },
{
    assert(dangerous_names()[0] == "msmpeng.exe"@);
    assert(dangerous_names()[1] == "mssense.exe"@);
    assert(dangerous_names()[2] == "securityhealthservice.exe"@);
    assert(dangerous_names()[3] == "securityhealthsystray.exe"@);
    assert(dangerous_names()[4] == "nissrv.exe"@);
    assert(dangerous_names()[5] == "mpcmdrun.exe"@);
    assert(dangerous_names()[6] == "audiodg.exe"@);
    assert(dangerous_names()[7] == "audiosrv.exe"@);
    assert(dangerous_names()[8] == "tabtip.exe"@);
    assert(dangerous_names()[9] == "textinputhost.exe"@);
    assert(dangerous_names()[10] == "taskmgr.exe"@);
    assert(dangerous_names()[11] == "regedit.exe"@);
    assert(dangerous_names()[12] == "mmc.exe"@);
    assert(dangerous_names()[13] == "avp.exe"@);
    assert(dangerous_names()[14] == "avgnt.exe"@);
    assert(dangerous_names()[15] == "avguard.exe"@);
    assert(dangerous_names()[16] == "mbam.exe"@);
    assert(dangerous_names()[17] == "mbamtray.exe"@);
    assert(dangerous_names()[18] == "bdagent.exe"@);
    assert(dangerous_names()[19] == "ekrn.exe"@);
    assert(dangerous_names()[20] == "egui.exe"@);
    assert(dangerous_names()[21] == "nortonsecurity.exe"@);
    assert(dangerous_names()[22] == "ns.exe"@);
    assert(dangerous_names()[23] == "mcshield.exe"@);
    assert(dangerous_names()[24] == "mfemms.exe"@);
    assert(dangerous_names()[25] == "dnscache.exe"@);
    assert(dangerous_names()[26] == "iphlpsvc.exe"@);
    assert(dangerous_names()[27] == "driverstore.exe"@);
    assert(dangerous_names()[28] == "wudfhost.exe"@);
    assert(dangerous_names()[29] == "runtimebroker.exe"@);
    assert(dangerous_names()[30] == "shellexperiencehost.exe"@);
}

/// A name is suggested for cleanup exactly when its lowercase form is one of the
/// launchers, telemetry helpers and tray programs listed here.
pub proof fn lemma_suggested_list(name: Seq<char>)
    ensures
        is_suggested_name(name) <==> {
            ||| lowercase(name) == "onedrive.exe"@
            ||| lowercase(name) == "teams.exe"@
            ||| lowercase(name) == "skype.exe"@
            ||| lowercase(name) == "spotify.exe"@
            ||| lowercase(name) == "discord.exe"@
            ||| lowercase(name) == "steam.exe"@
            ||| lowercase(name) == "epicgameslauncher.exe"@
            ||| lowercase(name) == "adobeupdateservice.exe"@
            ||| lowercase(name) == "creativecloud.exe"@
            ||| lowercase(name) == "yourphone.exe"@
            ||| lowercase(name) == "phoneexperiencehost.exe"@
            ||| lowercase(name) == "widgets.exe"@
            ||| lowercase(name) == "gamebar.exe"@
            ||| lowercase(name) == "gamebarftserver.exe"@
            ||| lowercase(name) == "cortana.exe"@
            ||| lowercase(name) == "msedgewebview2.exe"@
        },
{
    assert(suggested_cleanup_names()[0] == "onedrive.exe"@);
    assert(suggested_cleanup_names()[1] == "teams.exe"@);
    assert(suggested_cleanup_names()[2] == "skype.exe"@);
    assert(suggested_cleanup_names()[3] == "spotify.exe"@);
    assert(suggested_cleanup_names()[4] == "discord.exe"@);
    assert(suggested_cleanup_names()[5] == "steam.exe"@);
    assert(suggested_cleanup_names()[6] == "epicgameslauncher.exe"@);
    assert(suggested_cleanup_names()[7] == "adobeupdateservice.exe"@);
    assert(suggested_cleanup_names()[8] == "creativecloud.exe"@);
    assert(suggested_cleanup_names()[9] == "yourphone.exe"@);
    assert(suggested_cleanup_names()[10] == "phoneexperiencehost.exe"@);
    assert(suggested_cleanup_names()[11] == "widgets.exe"@);
    assert(suggested_cleanup_names()[12] == "gamebar.exe"@);
    assert(suggested_cleanup_names()[13] == "gamebarftserver.exe"@);
    assert(suggested_cleanup_names()[14] == "cortana.exe"@);
    assert(suggested_cleanup_names()[15] == "msedgewebview2.exe"@);
}

/// The row shown for a sampled process.
pub open spec fn info_of(p: ProcessSample) -> ProcessInfo {
    ProcessInfo {
        pid: p.pid,
        name: p.name,
        memory_mb: p.memory_bytes / 1024 / 1024,
        cpu_usage_bits: p.cpu_usage_bits,
        is_protected: is_protected_name(p.name@),
        is_dangerous: is_dangerous_name(p.name@),
        is_suggested_cleanup: is_suggested_name(p.name@),
    }
}

/// The row of a process carries its id, name and CPU usage unchanged, its memory in
/// whole mebibytes (rounded down, for every byte count), and its three flags.
pub proof fn lemma_row_fields(p: ProcessSample)
    ensures
        info_of(p).pid == p.pid,
        info_of(p).name == p.name,
        info_of(p).cpu_usage_bits == p.cpu_usage_bits,
        info_of(p).memory_mb == p.memory_bytes / 1048576,
        info_of(p).memory_mb * 1048576 <= p.memory_bytes < (info_of(p).memory_mb + 1) * 1048576,
        info_of(p).is_protected == is_protected_name(p.name@),
        info_of(p).is_dangerous == is_dangerous_name(p.name@),
        info_of(p).is_suggested_cleanup == is_suggested_name(p.name@),
{
    assert(p.memory_bytes / 1024 / 1024 == p.memory_bytes / 1048576) by (nonlinear_arith);
    assert(p.memory_bytes / 1048576 * 1048576 <= p.memory_bytes < (p.memory_bytes / 1048576 + 1)
        * 1048576) by (nonlinear_arith);
}

/// Builds the row shown for one sampled process. The guard lists are consulted
/// without regard to case: an ASCII name is looked up by its ASCII lowercasing.
pub fn describe_process(p: &ProcessSample) -> (info: ProcessInfo)
    ensures
        info == info_of(*p),
        info.pid == p.pid,
        info.name == p.name,
        info.cpu_usage_bits == p.cpu_usage_bits,
        info.memory_mb == p.memory_bytes / 1048576,
        is_ascii_chars(p.name@) ==> {
            &&& info.is_protected == protected_names().contains(ascii_lowercase(p.name@))
            &&& info.is_dangerous == dangerous_names().contains(ascii_lowercase(p.name@))
            &&& info.is_suggested_cleanup == suggested_cleanup_names().contains(
                ascii_lowercase(p.name@),
            )
        },
{
    let key = normalize(p.name.as_str());
    let is_protected = list_contains(&protected_processes(), &key);
    let is_dangerous = list_contains(&dangerous_processes(), &key);
    let is_suggested_cleanup = list_contains(&suggested_cleanup(), &key);
    ProcessInfo {
        pid: p.pid,
        name: p.name.clone(),
        memory_mb: p.memory_bytes / 1024 / 1024,
        cpu_usage_bits: p.cpu_usage_bits,
        is_protected,
        is_dangerous,
        is_suggested_cleanup,
    }
}

/// Holds of the rows that use exactly `mb` mebibytes.
pub open spec fn memory_is(mb: u64) -> spec_fn(ProcessInfo) -> bool {
    |x: ProcessInfo| x.memory_mb == mb
}

/// The rows of `s` that use exactly `mb` mebibytes, in the order of `s`.
pub open spec fn with_memory(s: Seq<ProcessInfo>, mb: u64) -> Seq<ProcessInfo> {
    s.filter(memory_is(mb))
}

/// The rows are ordered by memory use, largest first.
pub open spec fn sorted_by_memory_desc(s: Seq<ProcessInfo>) -> bool {
    forall|i: int, j: int| 0 <= i < j < s.len() ==> s[i].memory_mb >= s[j].memory_mb
}

/// The rows of a whole sample, in sample order.
pub open spec fn infos_of(s: Seq<ProcessSample>) -> Seq<ProcessInfo> {
    s.map_values(|p: ProcessSample| info_of(p))
}

/// The row list shown for a sample: the rows ordered by memory use, largest first,
/// rows of equal memory use kept in sample order.
pub open spec fn is_process_listing(out: Seq<ProcessInfo>, samples: Seq<ProcessSample>) -> bool {
    &&& out.len() == samples.len()
    &&& sorted_by_memory_desc(out)
    &&& forall|mb: u64| #[trigger] with_memory(out, mb) == with_memory(infos_of(samples), mb)
}

/// Inserting `x` just after every row that uses at least as much memory keeps each
/// group of equal memory use in order, with `x` last in its own group.
proof fn lemma_insert_keeps_groups(s: Seq<ProcessInfo>, p: int, x: ProcessInfo, mb: u64)
    requires
        0 <= p <= s.len(),
        sorted_by_memory_desc(s),
        forall|q: int| 0 <= q < p ==> s[q].memory_mb >= x.memory_mb,
        p < s.len() ==> s[p].memory_mb < x.memory_mb,
    ensures
        with_memory(s.insert(p, x), mb) == if x.memory_mb == mb {
            with_memory(s, mb).push(x)
        } else {
            with_memory(s, mb)
        },
{
    let f = memory_is(mb);
    let a = s.subrange(0, p);
    let b = s.subrange(p, s.len() as int);
    assert(s =~= a + b);
    assert(s.insert(p, x) =~= a.push(x) + b);
    Seq::filter_distributes_over_add(a.push(x), b, f);
    Seq::filter_distributes_over_add(a, b, f);
    a.lemma_filter_push(x, f);
    if x.memory_mb == mb {
        assert forall|q: int| 0 <= q < b.len() implies !f(b[q]) by {
            assert(b[q] == s[p + q]);
            if q > 0 {
                assert(s[p].memory_mb >= s[p + q].memory_mb);
            }
        }
        assert(b.all(|y: ProcessInfo| !f(y)));
        b.lemma_all_neg_filter_empty(f);
        assert(b.filter(f) =~= Seq::<ProcessInfo>::empty());
        assert(a.filter(f).push(x) + b.filter(f) =~= (a.filter(f) + b.filter(f)).push(x));
    }
}

/// Lists the sampled processes for display: one row per process, ordered by memory
/// use, largest first; processes of equal memory use keep their sample order.
pub fn list_processes(samples: &Vec<ProcessSample>) -> (out: Vec<ProcessInfo>)
    ensures
        is_process_listing(out@, samples@),
{
    let n = samples.len();
    let mut out: Vec<ProcessInfo> = Vec::new();
    let mut i: usize = 0;
    while i < n
        invariant
            n == samples@.len(),
            i <= n,
            out@.len() == i,
            sorted_by_memory_desc(out@),
            forall|mb: u64|
                #[trigger] with_memory(out@, mb) == with_memory(
                    infos_of(samples@).take(i as int),
                    mb,
                ),
        decreases n - i,
    {
        let info = describe_process(&samples[i]);
        let mut p: usize = 0;
        while p < out.len() && out[p].memory_mb >= info.memory_mb
            invariant
                p <= out@.len(),
                forall|q: int| 0 <= q < p ==> out@[q].memory_mb >= info.memory_mb,
            decreases out@.len() - p,
        {
            p = p + 1;
        }
        let ghost old_out = out@;
        out.insert(p, info);
        proof {
            assert forall|mb: u64|
                #[trigger] with_memory(out@, mb) == with_memory(
                    infos_of(samples@).take(i + 1),
                    mb,
                ) by {
                lemma_insert_keeps_groups(old_out, p as int, info, mb);
                assert(infos_of(samples@).take(i + 1) =~= infos_of(samples@).take(i as int).push(
                    info,
                ));
                infos_of(samples@).take(i as int).lemma_filter_push(info, memory_is(mb));
            }
            assert forall|a: int, b: int|
                0 <= a < b < out@.len() implies out@[a].memory_mb >= out@[b].memory_mb by {
                old_out.insert_ensures(p as int, info);
                if b == p as int + 1 && (p as int) < old_out.len() {
                } else if (p as int) < old_out.len() && a < p && b > p {
                    assert(old_out[a].memory_mb >= old_out[p as int].memory_mb);
                }
            }
        }
        i = i + 1;
    }
    assert(infos_of(samples@).take(n as int) =~= infos_of(samples@));
    out
}


/// The views of a list of strings.
pub open spec fn string_views(s: Seq<String>) -> Seq<Seq<char>> {
    s.map_values(|k: String| k@)
}

/// The lookup keys of a whitelist.
pub open spec fn whitelist_keys(whitelist: Seq<String>) -> Seq<Seq<char>> {
    whitelist.map_values(|w: String| lowercase(w@))
}

/// Whether a process of this name is on the whitelist; names compare by their
/// lowercase form.
pub open spec fn is_whitelisted_name(name: Seq<char>, whitelist: Seq<String>) -> bool {
    whitelist_keys(whitelist).contains(lowercase(name))
}

/// Whether an optimisation pass may trim this process: it is neither protected nor
/// whitelisted.
pub open spec fn is_trimmable(whitelist: Seq<String>) -> spec_fn(ProcessSample) -> bool {
    |p: ProcessSample| !is_protected_name(p.name@) && !is_whitelisted_name(p.name@, whitelist)
}

/// The ids of the processes that an optimisation pass trims, in sample order.
pub open spec fn trimmable_pids_of(samples: Seq<ProcessSample>, whitelist: Seq<String>) -> Seq<u32> {
    samples.filter(is_trimmable(whitelist)).map_values(|p: ProcessSample| p.pid)
}

/// The lookup keys of the whitelist entries, in order.
fn whitelist_key_list(whitelist: &Vec<String>) -> (keys: Vec<String>)
    ensures
        string_views(keys@) == whitelist_keys(whitelist@),
{
    let n = whitelist.len();
    let mut keys: Vec<String> = Vec::new();
    let mut i: usize = 0;
    while i < n
        invariant
            n == whitelist@.len(),
            i <= n,
            keys@.len() == i,
            forall|j: int| 0 <= j < i ==> #[trigger] keys@[j]@ == lowercase(whitelist@[j]@),
        decreases n - i,
    {
        keys.push(normalize(whitelist[i].as_str()));
        i = i + 1;
    }
    assert(string_views(keys@) =~= whitelist_keys(whitelist@));
    keys
}

/// Whether `key` is one of `keys`.
fn keys_contain(keys: &Vec<String>, key: &String) -> (found: bool)
    ensures
        found == string_views(keys@).contains(key@),
{
    let n = keys.len();
    let mut i: usize = 0;
    while i < n
        invariant
            n == keys@.len(),
            i <= n,
            forall|j: int| 0 <= j < i ==> keys@[j]@ != key@,
        decreases n - i,
    {
        if keys[i].eq(key) {
            assert(string_views(keys@)[i as int] == key@);
            return true;
        }
        i = i + 1;
    }
    assert forall|j: int| 0 <= j < string_views(keys@).len() implies #[trigger] string_views(
        keys@,
    )[j] != key@ by {
        assert(keys@[j]@ != key@);
    }
    false
}

/// The ids of the processes an optimisation pass may trim: every sampled process
/// that is neither protected nor on the user's whitelist, in sample order.
pub fn trimmable_pids(samples: &Vec<ProcessSample>, whitelist: &Vec<String>) -> (pids: Vec<u32>)
    ensures
        pids@ == trimmable_pids_of(samples@, whitelist@),
{
    let keys = whitelist_key_list(whitelist);
    let protected = protected_processes();
    let n = samples.len();
    let mut pids: Vec<u32> = Vec::new();
    let mut i: usize = 0;
    while i < n
        invariant
            n == samples@.len(),
            i <= n,
            string_views(keys@) == whitelist_keys(whitelist@),
            str_views(protected@) == protected_names(),
            pids@ == trimmable_pids_of(samples@.take(i as int), whitelist@),
        decreases n - i,
    {
        let p = &samples[i];
        let key = normalize(p.name.as_str());
        let skip = list_contains(&protected, &key) || keys_contain(&keys, &key);
        proof {
            assert(samples@.take(i + 1) =~= samples@.take(i as int).push(*p));
            samples@.take(i as int).lemma_filter_push(*p, is_trimmable(whitelist@));
        }
        if !skip {
            pids.push(p.pid);
            proof {
                let f = samples@.take(i as int).filter(is_trimmable(whitelist@));
                assert(f.push(*p).map_values(|q: ProcessSample| q.pid) =~= f.map_values(
                    |q: ProcessSample| q.pid,
                ).push(p.pid));
            }
        }
        i = i + 1;
    }
    assert(samples@.take(n as int) =~= samples@);
    pids
}


/// Why a process could not be ended.
#[derive(Clone, Debug)]
pub enum KillError {
    /// No running process has the requested id.
    NotFound,
    /// The process is on the protected list.
    Protected { name: String },
    /// The process could not be opened for termination.
    AccessDenied { name: String },
    /// The operating system refused to terminate the opened process.
    TerminateFailed { name: String },
    /// The kill signal could not be delivered.
    KillFailed { name: String },
}

impl KillError {
    /// The message shown to the user for this error.
    pub open spec fn message_of(&self) -> Seq<char> {
        match self {
            KillError::NotFound => "Process not found — it may have already exited."@,
            KillError::Protected { name } => "Cannot end protected system process: "@ + name@,
            KillError::AccessDenied { name } => "Access denied — cannot open "@ + name@
                + ". Try running RAMGuard Pro as administrator."@,
            KillError::TerminateFailed { name } => "Failed to terminate "@ + name@ + "."@,
            KillError::KillFailed { name } => "Failed to kill "@ + name@ + "."@,
        }
    }

    /// The message shown to the user for this error.
    pub fn message(&self) -> (m: String)
        ensures
            m@ == self.message_of(),
    {
        match self {
            KillError::NotFound => String::from_str("Process not found — it may have already exited."),
            KillError::Protected { name } => String::from_str(
                "Cannot end protected system process: ",
            ).concat(name.as_str()),
            KillError::AccessDenied { name } => String::from_str(
                "Access denied — cannot open ",
            ).concat(name.as_str()).concat(". Try running RAMGuard Pro as administrator."),
            KillError::TerminateFailed { name } => String::from_str("Failed to terminate ").concat(
                name.as_str(),
            ).concat("."),
            KillError::KillFailed { name } => String::from_str("Failed to kill ").concat(
                name.as_str(),
            ).concat("."),
        }
    }
}

/// `i` is the first position of the sample that holds process `pid`.
pub open spec fn is_first_with_pid(s: Seq<ProcessSample>, pid: u32, i: int) -> bool {
    &&& 0 <= i < s.len()
    &&& s[i].pid == pid
    &&& forall|j: int| 0 <= j < i ==> s[j].pid != pid
}

/// Decides whether process `pid` of the sample may be ended, before anything is
/// done to it. Gives the process's name where it may; refuses a process that is not
/// in the sample and, whatever the caller asks, a protected one.
pub fn kill_target(samples: &Vec<ProcessSample>, pid: u32) -> (r: Result<String, KillError>)
    ensures
        (r is Err && r->Err_0 is NotFound) <==> (forall|i: int|
            0 <= i < samples@.len() ==> samples@[i].pid != pid),
        forall|i: int|
            #[trigger] is_first_with_pid(samples@, pid, i) ==> r == if is_protected_name(
                samples@[i].name@,
            ) {
                Err::<String, KillError>(KillError::Protected { name: samples@[i].name })
            } else {
                Ok::<String, KillError>(samples@[i].name)
            },
        forall|i: int|
            #![trigger samples@[i]]
            0 <= i < samples@.len() && samples@[i].pid == pid && (forall|j: int|
                0 <= j < i ==> samples@[j].pid != pid) ==> r == if is_protected_name(
                samples@[i].name@,
            ) {
                Err::<String, KillError>(KillError::Protected { name: samples@[i].name })
            } else {
                Ok::<String, KillError>(samples@[i].name)
            },
        r matches Ok(name) ==> !is_protected_name(name@),
        r matches Ok(name) ==> (is_ascii_chars(name@) ==> !protected_names().contains(
            ascii_lowercase(name@),
        )),
{
    let n = samples.len();
    let protected = protected_processes();
    let mut i: usize = 0;
    while i < n
        invariant
            n == samples@.len(),
            i <= n,
            str_views(protected@) == protected_names(),
            forall|j: int| 0 <= j < i ==> samples@[j].pid != pid,
        decreases n - i,
    {
        if samples[i].pid == pid {
            let name = samples[i].name.clone();
            let key = normalize(name.as_str());
            assert(forall|k: int| #[trigger] is_first_with_pid(samples@, pid, k) ==> k == i);
            if list_contains(&protected, &key) {
                return Err(KillError::Protected { name });
            } else {
                return Ok(name);
            }
        }
        i = i + 1;
    }
    Err(KillError::NotFound)
}

/// The outcome of a kill attempt on a process that could be ended: success where
/// the signal was delivered, otherwise a failure naming the process.
pub fn kill_result(name: String, killed: bool) -> (r: Result<(), KillError>)
    ensures
        killed ==> r == Ok::<(), KillError>(()),
        !killed ==> r == Err::<(), KillError>(KillError::KillFailed { name }),
{
    if killed {
        Ok(())
    } else {
        Err(KillError::KillFailed { name })
    }
}


/// Every element kept by a filter is an element of the filtered sequence.
proof fn lemma_filter_subset<A>(s: Seq<A>, f: spec_fn(A) -> bool, j: int)
    requires
        0 <= j < s.filter(f).len(),
    ensures
        s.contains(s.filter(f)[j]),
    decreases s.len(),
{
    reveal(Seq::filter);
    if s.len() > 0 {
        let rest = s.drop_last();
        if f(s.last()) && j == rest.filter(f).len() {
            assert(s[s.len() - 1] == s.filter(f)[j]);
        } else {
            lemma_filter_subset(rest, f, j);
            let k = choose|k: int| 0 <= k < rest.len() && rest[k] == rest.filter(f)[j];
            assert(s[k] == s.filter(f)[j]);
        }
    }
}

/// The process listing shows every sampled process, and nothing else.
pub proof fn lemma_listing_complete(out: Seq<ProcessInfo>, samples: Seq<ProcessSample>)
    requires
        is_process_listing(out, samples),
    ensures
        forall|i: int| 0 <= i < samples.len() ==> out.contains(#[trigger] info_of(samples[i])),
        forall|j: int| 0 <= j < out.len() ==> infos_of(samples).contains(#[trigger] out[j]),
{
    broadcast use vstd::seq_lib::group_filter_ensures;

    let infos = infos_of(samples);
    assert forall|i: int| 0 <= i < samples.len() implies out.contains(
        #[trigger] info_of(samples[i]),
    ) by {
        let x = info_of(samples[i]);
        let mb = x.memory_mb;
        assert(infos[i] == x);
        assert(with_memory(infos, mb).contains(x));
        assert(with_memory(out, mb) == with_memory(infos, mb));
        let k = choose|k: int| 0 <= k < with_memory(out, mb).len() && with_memory(out, mb)[k] == x;
        lemma_filter_subset(out, memory_is(mb), k);
    }
    assert forall|j: int| 0 <= j < out.len() implies infos.contains(#[trigger] out[j]) by {
        let y = out[j];
        let mb = y.memory_mb;
        assert(with_memory(out, mb).contains(y));
        assert(with_memory(out, mb) == with_memory(infos, mb));
        let k = choose|k: int| 0 <= k < with_memory(infos, mb).len() && with_memory(infos, mb)[k] == y;
        lemma_filter_subset(infos, memory_is(mb), k);
    }
}

/// The process listing has one row per sampled process, ordered by memory use with
/// the largest first; every sampled process has its row in it, and every row is the
/// row of a sampled process.
pub proof fn lemma_listing_order(out: Seq<ProcessInfo>, samples: Seq<ProcessSample>)
    requires
        is_process_listing(out, samples),
    ensures
        out.len() == samples.len(),
        forall|a: int, b: int|
            0 <= a < b < out.len() ==> #[trigger] out[a].memory_mb >= #[trigger] out[b].memory_mb,
        forall|i: int| 0 <= i < samples.len() ==> out.contains(info_of(#[trigger] samples[i])),
        forall|j: int|
            0 <= j < out.len() ==> samples.map_values(|p: ProcessSample| info_of(p)).contains(
                #[trigger] out[j],
            ),
{
    lemma_listing_complete(out, samples);
    assert(samples.map_values(|p: ProcessSample| info_of(p)) =~= infos_of(samples));
}

/// The rows of a whole sample are the rows of its processes, position by position.
pub proof fn lemma_rows_of_sample(samples: Seq<ProcessSample>)
    ensures
        infos_of(samples).len() == samples.len(),
        forall|i: int| 0 <= i < samples.len() ==> #[trigger] infos_of(samples)[i] == info_of(samples[i]),
{
}

/// An element kept by a filter sits in the filtered sequence at the position given
/// by the number of kept elements before it.
proof fn lemma_filter_rank<A>(s: Seq<A>, f: spec_fn(A) -> bool, i: int)
    requires
        0 <= i < s.len(),
        f(s[i]),
    ensures
        s.take(i).filter(f).len() < s.filter(f).len(),
        s.filter(f)[s.take(i).filter(f).len() as int] == s[i],
    decreases s.len(),
{
    reveal(Seq::filter);
    let rest = s.drop_last();
    if i == s.len() - 1 {
        assert(s.take(i) =~= rest);
    } else {
        lemma_filter_rank(rest, f, i);
        assert(rest.take(i) =~= s.take(i));
    }
}

/// Kept elements further along have more kept elements before them.
proof fn lemma_filter_rank_grows<A>(s: Seq<A>, f: spec_fn(A) -> bool, i: int, j: int)
    requires
        0 <= i < j <= s.len(),
        f(s[i]),
    ensures
        s.take(i).filter(f).len() < s.take(j).filter(f).len(),
{
    let head = s.take(i);
    let mid = s.subrange(i, j);
    assert(s.take(j) =~= head + mid);
    Seq::filter_distributes_over_add(head, mid, f);
    assert(mid[0] == s[i]);
    lemma_filter_rank(mid, f, 0);
}

/// Every element of a filtered sequence comes from a position of the original whose
/// number of kept predecessors is its own position.
proof fn lemma_filter_source<A>(s: Seq<A>, f: spec_fn(A) -> bool, k: int) -> (idx: int)
    requires
        0 <= k < s.filter(f).len(),
    ensures
        0 <= idx < s.len(),
        f(s[idx]),
        s.take(idx).filter(f).len() == k,
        s[idx] == s.filter(f)[k],
    decreases s.len(),
{
    reveal(Seq::filter);
    let rest = s.drop_last();
    if f(s.last()) && k == rest.filter(f).len() {
        assert(s.take(s.len() - 1) =~= rest);
        s.len() - 1
    } else {
        let idx = lemma_filter_source(rest, f, k);
        assert(rest.take(idx) =~= s.take(idx));
        idx
    }
}

/// The listing keeps processes of equal memory use in sample order: where two rows
/// use the same memory, the process of the earlier row comes earlier in the sample
/// (process ids being unique).
pub proof fn lemma_listing_stable(
    out: Seq<ProcessInfo>,
    samples: Seq<ProcessSample>,
    a: int,
    b: int,
    i: int,
    j: int,
)
    requires
        is_process_listing(out, samples),
        pids_unique(samples),
        0 <= a < b < out.len(),
        out[a].memory_mb == out[b].memory_mb,
        0 <= i < samples.len(),
        0 <= j < samples.len(),
        out[a].pid == samples[i].pid,
        out[b].pid == samples[j].pid,
    ensures
        i < j,
{
    let mb = out[a].memory_mb;
    let f = memory_is(mb);
    let infos = infos_of(samples);
    lemma_rows_of_sample(samples);
    let ra = out.take(a).filter(f).len() as int;
    let rb = out.take(b).filter(f).len() as int;
    lemma_filter_rank(out, f, a);
    lemma_filter_rank(out, f, b);
    lemma_filter_rank_grows(out, f, a, b);
    assert(with_memory(out, mb) == with_memory(infos, mb));
    let ia = lemma_filter_source(infos, f, ra);
    let ib = lemma_filter_source(infos, f, rb);
    assert(samples[ia].pid == out[a].pid);
    assert(samples[ib].pid == out[b].pid);
    assert(ia == i);
    assert(ib == j);
    if j < i {
        lemma_filter_rank_grows(infos, f, j, i);
    }
}

/// The rows that use `mb` mebibytes are exactly the rows kept by a filter on that
/// memory use, in order.
pub proof fn lemma_with_memory_is_filter(s: Seq<ProcessInfo>, mb: u64)
    ensures
        with_memory(s, mb) == s.filter(|x: ProcessInfo| x.memory_mb == mb),
{
    assert(memory_is(mb) =~= (|x: ProcessInfo| x.memory_mb == mb));
}

/// `samples` holds each process id at most once, as a process table does.
pub open spec fn pids_unique(samples: Seq<ProcessSample>) -> bool {
    forall|i: int, j: int|
        0 <= i < samples.len() && 0 <= j < samples.len() && i != j ==> samples[i].pid
            != samples[j].pid
}

/// A name is whitelisted exactly when its lowercase form is the lowercase form of
/// some entry of the whitelist, whichever entry that is.
pub proof fn lemma_whitelist_membership(name: Seq<char>, whitelist: Seq<String>)
    ensures
        is_whitelisted_name(name, whitelist) <==> exists|k: int|
            0 <= k < whitelist.len() && lowercase(#[trigger] whitelist[k]@) == lowercase(name),
{
    let keys = whitelist_keys(whitelist);
    if is_whitelisted_name(name, whitelist) {
        let k = choose|k: int| 0 <= k < keys.len() && keys[k] == lowercase(name);
        assert(lowercase(whitelist[k]@) == lowercase(name));
    }
    if exists|k: int| 0 <= k < whitelist.len() && lowercase(#[trigger] whitelist[k]@) == lowercase(
        name,
    ) {
        let k = choose|k: int|
            0 <= k < whitelist.len() && lowercase(#[trigger] whitelist[k]@) == lowercase(name);
        assert(keys[k] == lowercase(name));
    }
}

/// No whitelisted process is trimmed: a process whose name matches any whitelist
/// entry, ignoring case, does not have its id in the trim list.
pub proof fn lemma_whitelisted_never_trimmed(
    samples: Seq<ProcessSample>,
    whitelist: Seq<String>,
    i: int,
    k: int,
)
    requires
        pids_unique(samples),
        0 <= i < samples.len(),
        0 <= k < whitelist.len(),
        lowercase(samples[i].name@) == lowercase(whitelist[k]@),
    ensures
        !trimmable_pids_of(samples, whitelist).contains(samples[i].pid),
{
    lemma_trim_guard(samples, whitelist);
    lemma_whitelist_membership(samples[i].name@, whitelist);
    let pids = trimmable_pids_of(samples, whitelist);
    if pids.contains(samples[i].pid) {
        let j = choose|j: int| 0 <= j < pids.len() && pids[j] == samples[i].pid;
        assert(belongs_to_trimmable(samples, whitelist, pids[j]));
        let i2 = choose|i2: int|
            0 <= i2 < samples.len() && #[trigger] samples[i2].pid == pids[j] && !is_protected_name(
                samples[i2].name@,
            ) && !is_whitelisted_name(samples[i2].name@, whitelist);
        assert(i2 == i);
    }
}

/// No protected process is trimmed, whatever the whitelist.
pub proof fn lemma_protected_never_trimmed(
    samples: Seq<ProcessSample>,
    whitelist: Seq<String>,
    i: int,
)
    requires
        pids_unique(samples),
        0 <= i < samples.len(),
        is_protected_name(samples[i].name@),
    ensures
        !trimmable_pids_of(samples, whitelist).contains(samples[i].pid),
{
    lemma_trim_guard(samples, whitelist);
    let pids = trimmable_pids_of(samples, whitelist);
    if pids.contains(samples[i].pid) {
        let j = choose|j: int| 0 <= j < pids.len() && pids[j] == samples[i].pid;
        assert(belongs_to_trimmable(samples, whitelist, pids[j]));
        let i2 = choose|i2: int|
            0 <= i2 < samples.len() && #[trigger] samples[i2].pid == pids[j] && !is_protected_name(
                samples[i2].name@,
            ) && !is_whitelisted_name(samples[i2].name@, whitelist);
        assert(i2 == i);
    }
}

/// Every process that is neither protected nor matches any whitelist entry,
/// ignoring case, is trimmed.
pub proof fn lemma_unguarded_always_trimmed(
    samples: Seq<ProcessSample>,
    whitelist: Seq<String>,
    i: int,
)
    requires
        0 <= i < samples.len(),
        !is_protected_name(samples[i].name@),
        forall|k: int|
            0 <= k < whitelist.len() ==> lowercase(#[trigger] whitelist[k]@) != lowercase(
                samples[i].name@,
            ),
    ensures
        trimmable_pids_of(samples, whitelist).contains(samples[i].pid),
{
    lemma_trim_guard(samples, whitelist);
    lemma_whitelist_membership(samples[i].name@, whitelist);
}

/// Trimming looks at each process on its own, in sample order: no process gives no
/// ids, and one more process adds its id at the end exactly when it is neither
/// protected nor whitelisted.
pub proof fn lemma_trim_steps(samples: Seq<ProcessSample>, whitelist: Seq<String>, p: ProcessSample)
    ensures
        trimmable_pids_of(Seq::<ProcessSample>::empty(), whitelist) == Seq::<u32>::empty(),
        trimmable_pids_of(samples.push(p), whitelist) == if !is_protected_name(p.name@)
            && !is_whitelisted_name(p.name@, whitelist) {
            trimmable_pids_of(samples, whitelist).push(p.pid)
        } else {
            trimmable_pids_of(samples, whitelist)
        },
{
    reveal(Seq::filter);
    assert(trimmable_pids_of(Seq::<ProcessSample>::empty(), whitelist) =~= Seq::<u32>::empty());
    samples.lemma_filter_push(p, is_trimmable(whitelist));
    let kept = samples.filter(is_trimmable(whitelist));
    assert(kept.push(p).map_values(|q: ProcessSample| q.pid) =~= kept.map_values(
        |q: ProcessSample| q.pid,
    ).push(p.pid));
}

/// `pid` belongs to a sampled process that is neither protected nor whitelisted.
pub open spec fn belongs_to_trimmable(
    samples: Seq<ProcessSample>,
    whitelist: Seq<String>,
    pid: u32,
) -> bool {
    exists|i: int|
        0 <= i < samples.len() && #[trigger] samples[i].pid == pid && !is_protected_name(
            samples[i].name@,
        ) && !is_whitelisted_name(samples[i].name@, whitelist)
}

/// An optimisation pass trims exactly the sampled processes that are neither
/// protected nor whitelisted: every trimmed id belongs to such a process, and every
/// such process has its id trimmed.
pub proof fn lemma_trim_guard(samples: Seq<ProcessSample>, whitelist: Seq<String>)
    ensures
        forall|j: int|
            0 <= j < trimmable_pids_of(samples, whitelist).len() ==> belongs_to_trimmable(
                samples,
                whitelist,
                #[trigger] trimmable_pids_of(samples, whitelist)[j],
            ),
        forall|i: int|
            0 <= i < samples.len() && !is_protected_name(samples[i].name@) && !is_whitelisted_name(
                samples[i].name@,
                whitelist,
            ) ==> trimmable_pids_of(samples, whitelist).contains(#[trigger] samples[i].pid),
{
    broadcast use vstd::seq_lib::group_filter_ensures;

    let f = is_trimmable(whitelist);
    let kept = samples.filter(f);
    let pids = trimmable_pids_of(samples, whitelist);
    assert forall|j: int| 0 <= j < pids.len() implies belongs_to_trimmable(
        samples,
        whitelist,
        #[trigger] pids[j],
    ) by {
        assert(f(kept[j]));
        lemma_filter_subset(samples, f, j);
        let i = choose|i: int| 0 <= i < samples.len() && samples[i] == kept[j];
        assert(samples[i].pid == pids[j]);
    }
    assert forall|i: int|
        0 <= i < samples.len() && !is_protected_name(samples[i].name@) && !is_whitelisted_name(
            samples[i].name@,
            whitelist,
        ) implies pids.contains(#[trigger] samples[i].pid) by {
        assert(f(samples[i]));
        assert(kept.contains(samples[i]));
        let k = choose|k: int| 0 <= k < kept.len() && kept[k] == samples[i];
        assert(pids[k] == samples[i].pid);
    }
}

} // verus!
