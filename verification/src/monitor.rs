//! Decisions of the monitor loop: which ProcDump binary to run as the target's
//! bitness becomes known, when a cycle is skipped for low disk space, which
//! dump a cycle produced and whether it is announced.

use vstd::prelude::*;
use crate::bitness::{Bitness, BinaryChoiceView, spec_select_binary, select_binary};
use crate::config::Config;
use crate::health::HealthStatus;
use crate::text::{chars_of, extend_chars, extend_str, string_of, string_views, push_string};
use crate::winpath::{same_windows_path, same_windows_path_exec};

verus! {

/// A bitness answer other than Unknown is final: it cannot change without the
/// configuration changing. `None` means never resolved, `Some(Unknown)` means
/// tried and failed (retry next cycle).
pub open spec fn bitness_settled(cached: Option<Bitness>) -> bool {
    cached matches Some(b) && b != Bitness::Unknown
}

/// Whether this cycle has to resolve the target's bitness.
pub fn needs_bitness_resolve(cached: &Option<Bitness>) -> (r: bool)
    ensures
        r == !bitness_settled(*cached),
{
    match cached {
        Some(b) => *b == Bitness::Unknown,
        None => true,
    }
}

/// The chosen binary replaces the configured one: it exists and is not the
/// same path (paths compare by their Windows components).
pub open spec fn bitness_switches(choice: BinaryChoiceView, current: Seq<char>, has64: bool, has32: bool) -> bool {
    (has64 || has32) && !same_windows_path(choice.actual, current)
}

/// The log lines of a decision: the warning, if any, then the summary with
/// its source, and the new binary when it switches.
pub open spec fn bitness_report(choice: BinaryChoiceView, source: Seq<char>, switching: bool) -> Seq<Seq<char>> {
    let decision = "Bitness: "@ + choice.summary + " (via "@ + source + ")"@ + if switching {
        " -> "@ + choice.actual
    } else {
        Seq::empty()
    };
    match choice.warning {
        Some(w) => seq!["Bitness WARNING: "@ + w, decision],
        None => seq![decision],
    }
}

/// One cycle of bitness bookkeeping, given the answer `b` (from `source`):
/// the new cache, the new ProcDump path and the lines to log. A settled
/// cache changes nothing. Otherwise the answer is cached, the binary switches
/// when the chosen one exists and differs, and the lines are logged unless
/// this is a repeated attempt that is still Unknown and switches nothing.
pub open spec fn bitness_step_spec(
    cached: Option<Bitness>,
    path: Seq<char>,
    pd_dir: Seq<char>,
    os64: bool,
    has64: bool,
    has32: bool,
    b: Bitness,
    source: Seq<char>,
) -> (Option<Bitness>, Seq<char>, Seq<Seq<char>>) {
    if bitness_settled(cached) {
        (cached, path, Seq::empty())
    } else {
        let choice = spec_select_binary(b, pd_dir, os64, has64, has32);
        let sw = bitness_switches(choice, path, has64, has32);
        let lines = if cached is Some && !sw && b == Bitness::Unknown {
            Seq::empty()
        } else {
            bitness_report(choice, source, sw)
        };
        (Some(b), if sw { choice.actual } else { path }, lines)
    }
}

fn line_of(parts: &Vec<char>) -> (s: String)
    ensures
        s@ == parts@,
{
    string_of(parts)
}

fn report_lines(choice: &crate::bitness::BinaryChoice, source: &str, switching: bool) -> (lines: Vec<
    String,
>)
    ensures
        string_views(lines@) == bitness_report(choice@, source@, switching),
{
    let mut lines: Vec<String> = Vec::new();
    let ghost warn: Seq<Seq<char>> = Seq::empty();
    assert(string_views(lines@) =~= Seq::<Seq<char>>::empty());
    match &choice.warning {
        Some(w) => {
            let mut t: Vec<char> = Vec::new();
            extend_str(&mut t, "Bitness WARNING: ");
            extend_str(&mut t, w.as_str());
            push_string(&mut lines, line_of(&t));
            proof { warn = seq![t@]; }
        },
        None => {},
    }
    assert(string_views(lines@) =~= warn);
    let mut d: Vec<char> = Vec::new();
    extend_str(&mut d, "Bitness: ");
    extend_str(&mut d, choice.summary.as_str());
    extend_str(&mut d, " (via ");
    extend_str(&mut d, source);
    extend_str(&mut d, ")");
    if switching {
        extend_str(&mut d, " -> ");
        extend_str(&mut d, choice.actual.as_str());
    }
    let ghost tail = if switching { " -> "@ + choice@.actual } else { Seq::<char>::empty() };
    assert(d@ =~= "Bitness: "@ + choice@.summary + " (via "@ + source@ + ")"@ + tail);
    push_string(&mut lines, line_of(&d));
    assert(string_views(lines@) =~= bitness_report(choice@, source@, switching));
    lines
}

fn decide_bitness(
    cached: Option<Bitness>,
    current: &str,
    pd_dir: &str,
    os64: bool,
    has64: bool,
    has32: bool,
    resolved: Bitness,
    source: &str,
) -> (r: (Option<Bitness>, Option<String>, Vec<String>))
    ensures
        ({
            let (c, p, l) = bitness_step_spec(cached, current@, pd_dir@, os64, has64, has32, resolved, source@);
            &&& r.0 == c
            &&& match r.1 {
                Some(x) => x@ == p,
                None => p == current@,
            }
            &&& string_views(r.2@) == l
        }),
{
    if !needs_bitness_resolve(&cached) {
        let v: Vec<String> = Vec::new();
        assert(string_views(v@) =~= Seq::<Seq<char>>::empty());
        return (cached, None, v);
    }
    let first = cached.is_none();
    let choice = select_binary(resolved, pd_dir, os64, has64, has32);
    let switching = (has64 || has32) && !same_windows_path_exec(choice.actual.as_str(), current);
    if !first && !switching && resolved == Bitness::Unknown {
        let v: Vec<String> = Vec::new();
        assert(string_views(v@) =~= Seq::<Seq<char>>::empty());
        return (Some(resolved), None, v);
    }
    let lines = report_lines(&choice, source, switching);
    if switching {
        (Some(resolved), Some(choice.actual), lines)
    } else {
        (Some(resolved), None, lines)
    }
}

/// Apply one resolved answer to the cache and the configuration.
#[verifier::rlimit(50)]
pub fn apply_bitness(
    cached: &mut Option<Bitness>,
    cfg: &mut Config,
    pd_dir: &str,
    os64: bool,
    has64: bool,
    has32: bool,
    resolved: Bitness,
    source: &str,
) -> (lines: Vec<String>)
    ensures
        ({
            let (c, p, l) = bitness_step_spec(
                *old(cached),
                old(cfg).proc_dump_path@,
                pd_dir@,
                os64,
                has64,
                has32,
                resolved,
                source@,
            );
            &&& *final(cached) == c
            &&& final(cfg).proc_dump_path@ == p
            &&& string_views(lines@) == l
        }),
        *final(cfg) == (Config { proc_dump_path: final(cfg).proc_dump_path, ..*old(cfg) }),
{
    let (c, p, lines) = decide_bitness(
        *cached,
        cfg.proc_dump_path.as_str(),
        pd_dir,
        os64,
        has64,
        has32,
        resolved,
        source,
    );
    *cached = c;
    match p {
        Some(x) => {
            cfg.proc_dump_path = x;
        },
        None => {},
    }
    lines
}

/// One cycle of bitness bookkeeping: while the answer is not settled, ask
/// `resolve` for it, cache it, switch `cfg.proc_dump_path` when the chosen
/// binary changes, and hand back the lines to log. `has64` / `has32` say
/// whether the two binaries exist in `pd_dir`.
pub fn bitness_step(
    cached: &mut Option<Bitness>,
    cfg: &mut Config,
    pd_dir: &str,
    os64: bool,
    has64: bool,
    has32: bool,
    resolve: impl Fn(&Config) -> (Bitness, String),
) -> (lines: Vec<String>)
    requires
        forall|c: &Config| resolve.requires((c,)),
    ensures
        bitness_settled(*old(cached)) ==> *final(cached) == *old(cached) && *final(cfg) == *old(cfg)
            && lines@.len() == 0,
        !bitness_settled(*old(cached)) ==> exists|b: Bitness, src: String|
            #[trigger] resolve.ensures((&*old(cfg),), (b, src)) && {
                let (c, p, l) = bitness_step_spec(
                    *old(cached),
                    old(cfg).proc_dump_path@,
                    pd_dir@,
                    os64,
                    has64,
                    has32,
                    b,
                    src@,
                );
                &&& *final(cached) == c
                &&& final(cfg).proc_dump_path@ == p
                &&& string_views(lines@) == l
            },
        *final(cfg) == (Config { proc_dump_path: final(cfg).proc_dump_path, ..*old(cfg) }),
{
    if !needs_bitness_resolve(cached) {
        return Vec::new();
    }
    let (b, source) = resolve(cfg);
    apply_bitness(cached, cfg, pd_dir, os64, has64, has32, b, source.as_str())
}

/// Start of a cycle: stamp it with the current UTC time, and clear the
/// previous cycle's error and low-disk flag.
pub fn begin_cycle(h: &mut HealthStatus)
    ensures
        *final(h) == (HealthStatus {
            last_cycle_utc: final(h).last_cycle_utc,
            last_error: final(h).last_error,
            disk_space_low: false,
            ..*old(h)
        }),
        final(h).last_error@.len() == 0,
        crate::clock::is_utc_stamp(final(h).last_cycle_utc@),
{
    h.last_cycle_utc = crate::clock::utc_now_iso();
    h.last_error = String::new();
    h.disk_space_low = false;
}

/// End of a cycle: stamp the time of the next attempt (the current UTC
/// time); nothing else changes.
pub fn end_cycle(h: &mut HealthStatus)
    ensures
        crate::clock::is_utc_stamp(final(h).next_retry_utc@),
        *final(h) == (HealthStatus { next_retry_utc: final(h).next_retry_utc, ..*old(h) }),
{
    h.next_retry_utc = crate::clock::utc_now_iso();
}

/// The heartbeat while ProcDump runs: stamp the current UTC time as the
/// cycle time; nothing else changes.
pub fn heartbeat(h: &mut HealthStatus)
    ensures
        crate::clock::is_utc_stamp(final(h).last_cycle_utc@),
        *final(h) == (HealthStatus { last_cycle_utc: final(h).last_cycle_utc, ..*old(h) }),
{
    h.last_cycle_utc = crate::clock::utc_now_iso();
}

/// Record a free-space verdict `(ok, free_mb)` when the guard is on
/// (`min_free_disk_mb > 0`); answers whether the cycle is skipped.
pub fn apply_disk_check(h: &mut HealthStatus, min_free_disk_mb: i64, verdict: (bool, i64)) -> (skip: bool)
    ensures
        min_free_disk_mb <= 0 ==> *final(h) == *old(h) && !skip,
        min_free_disk_mb > 0 ==> skip == !verdict.0 && *final(h) == (HealthStatus {
            free_disk_mb: verdict.1,
            disk_space_low: !verdict.0,
            ..*old(h)
        }),
{
    if min_free_disk_mb <= 0 {
        return false;
    }
    h.free_disk_mb = verdict.1;
    h.disk_space_low = !verdict.0;
    !verdict.0
}

/// The warning logged (and mailed) when a cycle is skipped for disk space.
pub open spec fn low_disk_text(free_mb: i64, min_free_mb: i64) -> Seq<char> {
    "Skipping cycle -- only "@ + crate::num::int_text(free_mb as int) + " MB free (threshold: "@
        + crate::num::int_text(min_free_mb as int) + " MB)"@
}

pub fn low_disk_warning(free_mb: i64, min_free_mb: i64) -> (r: String)
    ensures
        r@ == low_disk_text(free_mb, min_free_mb),
{
    let mut t: Vec<char> = Vec::new();
    extend_str(&mut t, "Skipping cycle -- only ");
    let a = crate::num::i64_text(free_mb);
    extend_chars(&mut t, &a);
    extend_str(&mut t, " MB free (threshold: ");
    let b = crate::num::i64_text(min_free_mb);
    extend_chars(&mut t, &b);
    extend_str(&mut t, " MB)");
    string_of(&t)
}

/// Subject of the low-disk warning for `machine`.
pub fn low_disk_subject(machine: &str) -> (r: String)
    ensures
        r@ == "[ProcDump] Low disk warning on "@ + machine@,
{
    let mut t: Vec<char> = Vec::new();
    extend_str(&mut t, "[ProcDump] Low disk warning on ");
    extend_str(&mut t, machine);
    string_of(&t)
}

/// Seconds between two low-disk notifications.
pub const LOW_DISK_NOTIFY_INTERVAL_SECS: u64 = 3600;

/// A low-disk warning is sent at most once an hour: when none was sent yet,
/// or the last one is at least an hour old.
pub fn low_disk_notify_due(secs_since_last: Option<u64>) -> (r: bool)
    ensures
        r == match secs_since_last {
            None => true,
            Some(s) => s >= LOW_DISK_NOTIFY_INTERVAL_SECS,
        },
{
    match secs_since_last {
        None => true,
        Some(s) => s >= LOW_DISK_NOTIFY_INTERVAL_SECS,
    }
}

/// The pause between cycles in 100 ms ticks: ten per second of
/// `restart_delay_seconds`, none for a negative delay.
pub fn restart_delay_ticks(restart_delay_seconds: i32) -> (r: u64)
    ensures
        r == (if restart_delay_seconds < 0 { 0 } else { restart_delay_seconds * 10 }),
{
    if restart_delay_seconds < 0 {
        0
    } else {
        (restart_delay_seconds as u64) * 10
    }
}

/// Index of the last `.` of `name`, if any.
pub open spec fn last_dot_from(name: Seq<char>, i: int) -> Option<int>
    decreases i,
{
    if i <= 0 {
        None
    } else if name[i - 1] == '.' {
        Some(i - 1)
    } else {
        last_dot_from(name, i - 1)
    }
}

/// `Path::extension` of a file name: what follows the last `.`, unless that
/// dot starts the name (a name like `.dmp` has none).
pub open spec fn extension(name: Seq<char>) -> Option<Seq<char>> {
    match last_dot_from(name, name.len() as int) {
        Some(d) => if d > 0 { Some(name.subrange(d + 1, name.len() as int)) } else { None },
        None => None,
    }
}

/// A dump file: its extension is `dmp` in any ASCII case.
pub open spec fn is_dump_name(name: Seq<char>) -> bool {
    extension(name) matches Some(e) && crate::text::eq_ignore_ascii_case(e, "dmp"@)
}

pub fn is_dump_file_name(name: &str) -> (r: bool)
    ensures
        r == is_dump_name(name@),
{
    let cs = chars_of(name);
    let n = cs.len();
    let mut i: usize = n;
    while i > 0 && cs[i - 1] != '.'
        invariant
            i <= n,
            n == cs@.len(),
            cs@ == name@,
            last_dot_from(cs@, n as int) == last_dot_from(cs@, i as int),
        decreases i,
    {
        i = i - 1;
    }
    if i <= 1 {
        return false;
    }
    let e = crate::text::sub_vec(&cs, i, n);
    let dmp = vec!['d', 'm', 'p'];
    proof {
        reveal_strlit("dmp");
        assert(dmp@ =~= "dmp"@);
    }
    crate::text::eq_ignore_ascii_case_vec(&e, &dmp)
}

/// A file seen in the dump directory: its name and modification time
/// (nanoseconds since the Unix epoch).
#[derive(Debug, Clone)]
pub struct DumpEntry {
    pub file_name: String,
    pub modified: u128,
}

/// Entry `i` is a dump written during the cycle that started at `cycle_start`.
pub open spec fn is_cycle_dump(entries: Seq<DumpEntry>, i: int, cycle_start: u128) -> bool {
    &&& 0 <= i < entries.len()
    &&& is_dump_name(entries[i].file_name@)
    &&& entries[i].modified >= cycle_start
}

/// The newest dump of the cycle: among the `.dmp` entries modified at or
/// after `cycle_start`, one with the latest time, the last of those in the
/// listing when several share it; `None` when the cycle produced none.
pub fn newest_dump(entries: &Vec<DumpEntry>, cycle_start: u128) -> (r: Option<usize>)
    ensures
        r is None <==> forall|i: int| !is_cycle_dump(entries@, i, cycle_start),
        r matches Some(k) ==> {
            &&& is_cycle_dump(entries@, k as int, cycle_start)
            &&& forall|i: int| #[trigger] is_cycle_dump(entries@, i, cycle_start) ==> entries@[i].modified
                <= entries@[k as int].modified
            &&& forall|i: int|
                k < i < entries@.len() && #[trigger] is_cycle_dump(entries@, i, cycle_start)
                    ==> entries@[i].modified < entries@[k as int].modified
        },
{
    let mut best: Option<usize> = None;
    let mut i: usize = 0;
    while i < entries.len()
        invariant
            i <= entries@.len(),
            best is None <==> forall|j: int| 0 <= j < i ==> !is_cycle_dump(entries@, j, cycle_start),
            best matches Some(k) ==> {
                &&& k < i
                &&& is_cycle_dump(entries@, k as int, cycle_start)
                &&& forall|j: int| 0 <= j < i && #[trigger] is_cycle_dump(entries@, j, cycle_start)
                    ==> entries@[j].modified <= entries@[k as int].modified
                &&& forall|j: int| k < j < i && #[trigger] is_cycle_dump(entries@, j, cycle_start)
                    ==> entries@[j].modified < entries@[k as int].modified
            },
        decreases entries.len() - i,
    {
        let e = &entries[i];
        let candidate = is_dump_file_name(e.file_name.as_str()) && e.modified >= cycle_start;
        assert(candidate == is_cycle_dump(entries@, i as int, cycle_start));
        let ghost before = best;
        if candidate {
            match best {
                None => {
                    best = Some(i);
                },
                Some(k) => {
                    if e.modified >= entries[k].modified {
                        best = Some(i);
                    }
                },
            }
        }
        proof {
            if !candidate {
                assert(best == before);
            }
        }
        i = i + 1;
    }
    best
}

/// What becomes of a detected dump.
#[derive(Debug, Clone, Copy, PartialEq, Eq, Structural)]
pub enum DumpOutcome {
    /// Still locked or growing when the stability wait ran out.
    Unstable,
    /// Already announced; counted but not announced again.
    Duplicate,
    /// Counted and to be announced.
    Notify,
}

/// The outcome for a dump `f`, `last_notified` being the dump announced last.
pub open spec fn dump_outcome(last_notified: Seq<char>, stable: bool, f: Seq<char>) -> DumpOutcome {
    if !stable {
        DumpOutcome::Unstable
    } else if last_notified == f {
        DumpOutcome::Duplicate
    } else {
        DumpOutcome::Notify
    }
}

/// The dump announced last after recording `f`.
pub open spec fn notified_after(last_notified: Seq<char>, stable: bool, f: Seq<char>) -> Seq<char> {
    if stable { f } else { last_notified }
}

pub const UNSTABLE_DUMP_ERROR: &'static str = "Dump file still locked after timeout - notification suppressed.";

/// Record a detected dump in the health record. An unstable dump only sets
/// the error. A stable one becomes the last dump and is counted; it is
/// announced (and remembered as announced, stamped with the current UTC
/// time) unless it is the dump announced last.
#[verifier::rlimit(50)]
pub fn record_dump(h: &mut HealthStatus, stable: bool, file_name: String) -> (r: DumpOutcome)
    requires
        old(h).total_dump_count < i32::MAX,
    ensures
        r == dump_outcome(old(h).last_notified_dump_file@, stable, file_name@),
        final(h).last_notified_dump_file@ == notified_after(old(h).last_notified_dump_file@, stable, file_name@),
        !stable ==> r == DumpOutcome::Unstable && final(h).last_error@ == UNSTABLE_DUMP_ERROR@
            && *final(h) == (HealthStatus { last_error: final(h).last_error, ..*old(h) }),
        stable ==> {
            &&& final(h).last_dump_file_name@ == file_name@
            &&& final(h).total_dump_count == old(h).total_dump_count + 1
            &&& (r == DumpOutcome::Duplicate) == (old(h).last_notified_dump_file@ == file_name@)
            &&& r != DumpOutcome::Unstable
            &&& r == DumpOutcome::Duplicate ==> *final(h) == (HealthStatus {
                last_dump_file_name: final(h).last_dump_file_name,
                total_dump_count: final(h).total_dump_count,
                ..*old(h)
            })
            &&& r == DumpOutcome::Notify ==> final(h).last_notified_dump_file@ == file_name@
                && crate::clock::is_utc_stamp(final(h).last_notified_utc@)
                && *final(h) == (HealthStatus {
                last_dump_file_name: final(h).last_dump_file_name,
                total_dump_count: final(h).total_dump_count,
                last_notified_dump_file: final(h).last_notified_dump_file,
                last_notified_utc: final(h).last_notified_utc,
                ..*old(h)
            })
        },
{
    if !stable {
        h.last_error = String::from_str(UNSTABLE_DUMP_ERROR);
        return DumpOutcome::Unstable;
    }
    let dup = crate::text::str_eq(h.last_notified_dump_file.as_str(), file_name.as_str());
    h.last_dump_file_name = file_name.clone();
    h.total_dump_count = h.total_dump_count + 1;
    if dup {
        return DumpOutcome::Duplicate;
    }
    h.last_notified_dump_file = file_name;
    h.last_notified_utc = crate::clock::utc_now_iso();
    DumpOutcome::Notify
}

/// A dump is announced once: once a stable dump has been recorded, recording
/// the same file again does not announce it.
pub proof fn law_dump_announced_once(last_notified: Seq<char>, f: Seq<char>)
    ensures
        dump_outcome(notified_after(last_notified, true, f), true, f) == DumpOutcome::Duplicate,
{
}

/// Whether a support bundle is collected after a dump.
#[derive(Debug, Clone, Copy, PartialEq, Eq, Structural)]
pub enum AutoCollect {
    /// Auto-collect is off.
    Off,
    /// On, but skipped: the disk is low.
    SkippedLowDisk,
    /// Collect a bundle.
    Collect,
}

pub fn auto_collect_action(enabled: bool, disk_space_low: bool) -> (r: AutoCollect)
    ensures
        r == (if !enabled {
            AutoCollect::Off
        } else if disk_space_low {
            AutoCollect::SkippedLowDisk
        } else {
            AutoCollect::Collect
        }),
{
    if !enabled {
        AutoCollect::Off
    } else if disk_space_low {
        AutoCollect::SkippedLowDisk
    } else {
        AutoCollect::Collect
    }
}

/// Once the bitness is known the cache is settled, so no later cycle asks
/// for it again; while it is Unknown it is not, so every cycle retries.
pub proof fn law_known_bitness_settles_unknown_retries(
    cached: Option<Bitness>,
    path: Seq<char>,
    pd_dir: Seq<char>,
    os64: bool,
    has64: bool,
    has32: bool,
    b: Bitness,
    source: Seq<char>,
)
    requires
        !bitness_settled(cached),
    ensures
        bitness_settled(bitness_step_spec(cached, path, pd_dir, os64, has64, has32, b, source).0)
            <==> b != Bitness::Unknown,
{
}

/// A settled cache makes a cycle change nothing and log nothing.
pub proof fn law_settled_cycle_is_silent(
    cached: Option<Bitness>,
    path: Seq<char>,
    pd_dir: Seq<char>,
    os64: bool,
    has64: bool,
    has32: bool,
    b: Bitness,
    source: Seq<char>,
)
    requires
        bitness_settled(cached),
    ensures
        bitness_step_spec(cached, path, pd_dir, os64, has64, has32, b, source) == (
            cached,
            path,
            Seq::<Seq<char>>::empty(),
        ),
{
}

/// A monitor whose target never starts logs its first attempt and then
/// nothing: a second Unknown cycle in the same ProcDump directory neither
/// logs nor moves the binary.
pub proof fn law_repeated_unknown_is_silent(
    cached: Option<Bitness>,
    path: Seq<char>,
    pd_dir: Seq<char>,
    os64: bool,
    has64: bool,
    has32: bool,
    s1: Seq<char>,
    s2: Seq<char>,
)
    requires
        !bitness_settled(cached),
    ensures
        ({
            let (c1, p1, l1) = bitness_step_spec(cached, path, pd_dir, os64, has64, has32, Bitness::Unknown, s1);
            let (c2, p2, l2) = bitness_step_spec(c1, p1, pd_dir, os64, has64, has32, Bitness::Unknown, s2);
            &&& c2 == c1
            &&& p2 == p1
            &&& l2.len() == 0
        }),
{
}

/// With no ProcDump binary in the directory the configured path is never
/// overwritten (the empty choice is not written over a real path).
pub proof fn law_missing_binary_keeps_path(
    cached: Option<Bitness>,
    path: Seq<char>,
    pd_dir: Seq<char>,
    os64: bool,
    b: Bitness,
    source: Seq<char>,
)
    ensures
        bitness_step_spec(cached, path, pd_dir, os64, false, false, b, source).1 == path,
{
}

/// When the chosen binary is the configured one, nothing is switched and no
/// line claims a switch, whatever the source of the answer.
pub proof fn law_unchanged_binary_is_not_a_switch(
    cached: Option<Bitness>,
    pd_dir: Seq<char>,
    os64: bool,
    has64: bool,
    has32: bool,
    b: Bitness,
    source: Seq<char>,
)
    ensures
        ({
            let choice = spec_select_binary(b, pd_dir, os64, has64, has32);
            let (c, p, l) = bitness_step_spec(cached, choice.actual, pd_dir, os64, has64, has32, b, source);
            &&& p == choice.actual
            &&& (l.len() == 0 || bitness_settled(cached) || l == bitness_report(choice, source, false))
        }),
{
}


/// One cycle of bitness bookkeeping: a settled cache changes nothing and
/// logs nothing; otherwise the answer is cached, and the configured path
/// becomes the chosen binary exactly when a binary exists and the chosen
/// one is not the configured path, else it stays.
pub proof fn law_bitness_step(
    cached: Option<Bitness>,
    path: Seq<char>,
    pd_dir: Seq<char>,
    os64: bool,
    has64: bool,
    has32: bool,
    b: Bitness,
    source: Seq<char>,
)
    ensures
        ({
            let (c, p, l) = bitness_step_spec(cached, path, pd_dir, os64, has64, has32, b, source);
            let choice = spec_select_binary(b, pd_dir, os64, has64, has32);
            &&& bitness_settled(cached) ==> c == cached && p == path && l.len() == 0
            &&& !bitness_settled(cached) ==> c == Some(b) && p == (if (has64 || has32) && !same_windows_path(
                choice.actual,
                path,
            ) {
                choice.actual
            } else {
                path
            })
        }),
{
}

} // verus!
