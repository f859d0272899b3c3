//! The ProcDump command line and the one-click presets.

use vstd::prelude::*;
use crate::config::{Config, TargetType};
use crate::bitness::exe_suffix;
use crate::num::{i32_text, int_text};
use crate::text::{
    ascii_lower_seq, ascii_lower_vec, chars_of, ends_with, ends_with_vec, eq_ignore_ascii_case,
    eq_ignore_ascii_case_vec, extend_chars, extend_str, join_strings, join_words, owned,
    push_string, str_eq, string_of, string_views, trim, trim_vec,
};

verus! {

/// The dump-type switch for a dump type name (none for an unknown name).
pub open spec fn dump_type_flag(t: Seq<char>) -> Option<Seq<char>> {
    if t == "Full"@ {
        Some("-ma"@)
    } else if t == "MiniPlus"@ {
        Some("-mp"@)
    } else if t == "Mini"@ {
        Some("-mm"@)
    } else if t == "ThreadDump"@ {
        Some("-mt"@)
    } else {
        None
    }
}

/// `flag value`, e.g. `-c 90`.
pub open spec fn numeric(flag: Seq<char>, v: i32) -> Seq<char> {
    flag + seq![' '] + int_text(v as int)
}

/// `flag "value"`, e.g. `-p "\Processor(_Total)\% Processor Time"`.
pub open spec fn quoted(flag: Seq<char>, v: Seq<char>) -> Seq<char> {
    flag + seq![' ', '"'] + v + seq!['"']
}

pub open spec fn push_if(ws: Seq<Seq<char>>, cond: bool, w: Seq<char>) -> Seq<Seq<char>> {
    if cond { ws.push(w) } else { ws }
}

/// The target word: `-service NAME`, or the process name with `.exe`
/// appended when it is non-blank and does not already end in `.exe`
/// (compared ignoring ASCII case).
pub open spec fn target_word(c: Config) -> Seq<char> {
    match c.target_type {
        TargetType::Service => "-service "@ + c.target_name@,
        TargetType::Process => {
            let t = c.target_name@;
            if trim(t).len() != 0 && !ends_with(ascii_lower_seq(t), exe_suffix()) {
                t + exe_suffix()
            } else {
                t
            }
        },
    }
}

/// Dump type and the exception/terminate/hang/clone/outage/overwrite switches.
pub open spec fn args_mode(c: Config, a: Seq<Seq<char>>) -> Seq<Seq<char>> {
    let a = match dump_type_flag(c.dump_type@) { Some(f) => a.push(f), None => a };
    let a = push_if(a, c.dump_on_exception, "-e"@);
    let a = push_if(a, c.dump_on_terminate, "-t"@);
    let a = push_if(a, c.hang_window_seconds > 0, "-h"@);
    let a = push_if(a, c.use_clone, "-r"@);
    let a = push_if(a, c.avoid_outage, "-a"@);
    push_if(a, c.overwrite_existing, "-o"@)
}

/// CPU, memory and performance-counter triggers and exception filters.
pub open spec fn args_triggers(c: Config, a: Seq<Seq<char>>) -> Seq<Seq<char>> {
    let a = push_if(a, c.cpu_threshold > 0, numeric("-c"@, c.cpu_threshold));
    let a = push_if(a, c.cpu_low_threshold > 0, numeric("-cl"@, c.cpu_low_threshold));
    let a = push_if(a, c.cpu_duration_seconds > 0, numeric("-s"@, c.cpu_duration_seconds));
    let a = push_if(a, c.cpu_per_unit, "-u"@);
    let a = push_if(a, c.memory_commit_mb > 0, numeric("-m"@, c.memory_commit_mb));
    let a = push_if(a, trim(c.performance_counter@).len() != 0, quoted("-p"@, c.performance_counter@));
    let a = push_if(a, trim(c.perf_counter_threshold@).len() != 0, quoted("-pl"@, c.perf_counter_threshold@));
    let a = push_if(a, trim(c.exception_filter_include@).len() != 0, quoted("-f"@, c.exception_filter_include@));
    push_if(a, trim(c.exception_filter_exclude@).len() != 0, quoted("-fx"@, c.exception_filter_exclude@))
}

/// WER, terminate timeout, dump count, wait, target and dump directory.
pub open spec fn args_tail(c: Config, a: Seq<Seq<char>>) -> Seq<Seq<char>> {
    let a = push_if(a, c.wer_integration, "-wer"@);
    let a = push_if(a, c.avoid_terminate_timeout > 0, numeric("-at"@, c.avoid_terminate_timeout));
    let a = a.push(numeric("-n"@, c.max_dumps));
    let a = push_if(a, c.wait_for_process, "-w"@);
    let a = a.push(target_word(c));
    a.push(seq!['"'] + c.dump_directory@ + seq!['"'])
}

/// Every ProcDump argument, in its fixed order.
pub open spec fn spec_arg_list(c: Config) -> Seq<Seq<char>> {
    args_tail(c, args_triggers(c, args_mode(c, seq!["-accepteula"@])))
}

/// The full ProcDump argument string: the arguments joined by single spaces.
pub open spec fn spec_build_args(c: Config) -> Seq<char> {
    join_words(spec_arg_list(c), seq![' '])
}

fn numeric_arg(flag: &str, v: i32) -> (r: String)
    ensures
        r@ == numeric(flag@, v),
{
    let mut out = chars_of(flag);
    out.push(' ');
    let d = i32_text(v);
    extend_chars(&mut out, &d);
    string_of(&out)
}

fn quoted_arg(flag: &str, v: &str) -> (r: String)
    ensures
        r@ == quoted(flag@, v@),
{
    let mut out = chars_of(flag);
    out.push(' ');
    out.push('"');
    extend_str(&mut out, v);
    out.push('"');
    string_of(&out)
}

fn is_blank(s: &str) -> (r: bool)
    ensures
        r == (trim(s@).len() == 0),
{
    let v = chars_of(s);
    trim_vec(&v).len() == 0
}

fn push_when(args: &mut Vec<String>, cond: bool, w: String)
    ensures
        string_views(final(args)@) == push_if(string_views(old(args)@), cond, w@),
{
    if cond {
        push_string(args, w);
    }
}

fn target_arg(cfg: &Config) -> (r: String)
    ensures
        r@ == target_word(*cfg),
{
    match cfg.target_type {
        TargetType::Service => {
            let mut out = chars_of("-service ");
            extend_str(&mut out, cfg.target_name.as_str());
            string_of(&out)
        },
        TargetType::Process => {
            let t = chars_of(cfg.target_name.as_str());
            let lower = ascii_lower_vec(&t);
            let exe = vec!['.', 'e', 'x', 'e'];
            assert(exe@ == exe_suffix());
            if trim_vec(&t).len() != 0 && !ends_with_vec(&lower, &exe) {
                let mut out = t;
                extend_chars(&mut out, &exe);
                string_of(&out)
            } else {
                string_of(&t)
            }
        },
    }
}

fn dump_type_arg(t: &str) -> (r: Option<String>)
    ensures
        match r {
            Some(f) => dump_type_flag(t@) == Some(f@),
            None => dump_type_flag(t@) is None,
        },
{
    if str_eq(t, "Full") {
        Some(owned("-ma"))
    } else if str_eq(t, "MiniPlus") {
        Some(owned("-mp"))
    } else if str_eq(t, "Mini") {
        Some(owned("-mm"))
    } else if str_eq(t, "ThreadDump") {
        Some(owned("-mt"))
    } else {
        None
    }
}

fn push_mode_args(a: &mut Vec<String>, cfg: &Config)
    ensures
        string_views(final(a)@) == args_mode(*cfg, string_views(old(a)@)),
{
    match dump_type_arg(cfg.dump_type.as_str()) {
        Some(f) => push_string(a, f),
        None => {},
    }
    push_when(a, cfg.dump_on_exception, owned("-e"));
    push_when(a, cfg.dump_on_terminate, owned("-t"));
    push_when(a, cfg.hang_window_seconds > 0, owned("-h"));
    push_when(a, cfg.use_clone, owned("-r"));
    push_when(a, cfg.avoid_outage, owned("-a"));
    push_when(a, cfg.overwrite_existing, owned("-o"));
}

fn push_trigger_args(a: &mut Vec<String>, cfg: &Config)
    ensures
        string_views(final(a)@) == args_triggers(*cfg, string_views(old(a)@)),
{
    push_when(a, cfg.cpu_threshold > 0, numeric_arg("-c", cfg.cpu_threshold));
    push_when(a, cfg.cpu_low_threshold > 0, numeric_arg("-cl", cfg.cpu_low_threshold));
    push_when(a, cfg.cpu_duration_seconds > 0, numeric_arg("-s", cfg.cpu_duration_seconds));
    push_when(a, cfg.cpu_per_unit, owned("-u"));
    push_when(a, cfg.memory_commit_mb > 0, numeric_arg("-m", cfg.memory_commit_mb));
    push_when(a, !is_blank(cfg.performance_counter.as_str()), quoted_arg("-p", cfg.performance_counter.as_str()));
    push_when(a, !is_blank(cfg.perf_counter_threshold.as_str()), quoted_arg("-pl", cfg.perf_counter_threshold.as_str()));
    push_when(a, !is_blank(cfg.exception_filter_include.as_str()), quoted_arg("-f", cfg.exception_filter_include.as_str()));
    push_when(a, !is_blank(cfg.exception_filter_exclude.as_str()), quoted_arg("-fx", cfg.exception_filter_exclude.as_str()));
}

fn push_tail_args(a: &mut Vec<String>, cfg: &Config)
    ensures
        string_views(final(a)@) == args_tail(*cfg, string_views(old(a)@)),
{
    push_when(a, cfg.wer_integration, owned("-wer"));
    push_when(a, cfg.avoid_terminate_timeout > 0, numeric_arg("-at", cfg.avoid_terminate_timeout));
    push_string(a, numeric_arg("-n", cfg.max_dumps));
    push_when(a, cfg.wait_for_process, owned("-w"));
    push_string(a, target_arg(cfg));
    let mut dir = vec!['"'];
    extend_str(&mut dir, cfg.dump_directory.as_str());
    dir.push('"');
    assert(dir@ =~= seq!['"'] + cfg.dump_directory@ + seq!['"']);
    push_string(a, string_of(&dir));
}

/// The ProcDump arguments for `cfg`, one per entry.
pub fn arg_list(cfg: &Config) -> (r: Vec<String>)
    ensures
        string_views(r@) == spec_arg_list(*cfg),
{
    let mut a: Vec<String> = Vec::new();
    push_string(&mut a, owned("-accepteula"));
    assert(string_views(a@) =~= seq!["-accepteula"@]);
    push_mode_args(&mut a, cfg);
    push_trigger_args(&mut a, cfg);
    push_tail_args(&mut a, cfg);
    a
}

/// The ProcDump command line for `cfg` (the flag order is fixed).
pub fn build_args(cfg: &Config) -> (r: String)
    ensures
        r@ == spec_build_args(*cfg),
{
    let a = arg_list(cfg);
    let j = join_strings(&a, " ");
    assert(" "@ == seq![' ']) by {
        reveal_strlit(" ");
    };
    string_of(&j)
}

/// The presets, in the order the GUI lists them.
#[derive(Debug, Clone, Copy, PartialEq, Eq, Structural)]
pub enum PresetKind {
    CrashCapture,
    HangCapture,
    HighCpuSpike,
    MemoryThreshold,
    LowImpactFullDump,
}

/// A one-click combination of triggers.
pub struct Preset {
    pub name: String,
    pub description: String,
    pub effective_flags: String,
    pub kind: PresetKind,
}

pub open spec fn preset_kinds() -> Seq<PresetKind> {
    seq![
        PresetKind::CrashCapture,
        PresetKind::HangCapture,
        PresetKind::HighCpuSpike,
        PresetKind::MemoryThreshold,
        PresetKind::LowImpactFullDump,
    ]
}

pub open spec fn preset_name(k: PresetKind) -> Seq<char> {
    match k {
        PresetKind::CrashCapture => "Crash capture"@,
        PresetKind::HangCapture => "Hang capture"@,
        PresetKind::HighCpuSpike => "High CPU spike capture"@,
        PresetKind::MemoryThreshold => "Memory threshold capture"@,
        PresetKind::LowImpactFullDump => "Low impact full dump"@,
    }
}

pub open spec fn preset_description(k: PresetKind) -> Seq<char> {
    match k {
        PresetKind::CrashCapture => "Captures a full dump when the process throws an unhandled exception or terminates unexpectedly. Uses safe defaults appropriate for production systems. Ideal for post-mortem crash investigation."@,
        PresetKind::HangCapture => "Captures a full dump when the process window stops responding (hung). Useful for diagnosing UI freezes and deadlocks."@,
        PresetKind::HighCpuSpike => "Captures up to 3 full dumps when CPU usage exceeds 90 % for at least 10 consecutive seconds. Helps identify runaway threads or hot code paths."@,
        PresetKind::MemoryThreshold => "Captures up to 3 full dumps when process memory commit exceeds 2048 MB. Useful for investigating memory leaks or unexpected memory growth."@,
        PresetKind::LowImpactFullDump => "A full memory dump equivalent to Task Manager, captured via process cloning (-r) to minimize disruption. The -a flag prevents dump floods; the process is suspended for only milliseconds instead of the full dump duration."@,
    }
}

pub open spec fn preset_flags(k: PresetKind) -> Seq<char> {
    match k {
        PresetKind::CrashCapture => "-ma -e -t"@,
        PresetKind::HangCapture => "-ma -h"@,
        PresetKind::HighCpuSpike => "-ma -c 90 -s 10 -n 3"@,
        PresetKind::MemoryThreshold => "-ma -m 2048 -n 3"@,
        PresetKind::LowImpactFullDump => "-a -r -ma"@,
    }
}

/// The preset of kind `k`, as a value.
pub open spec fn is_preset(p: Preset, k: PresetKind) -> bool {
    &&& p.kind == k
    &&& p.name@ == preset_name(k)
    &&& p.description@ == preset_description(k)
    &&& p.effective_flags@ == preset_flags(k)
}

fn make_preset(k: PresetKind) -> (p: Preset)
    ensures
        is_preset(p, k),
{
    match k {
        PresetKind::CrashCapture => Preset {
            name: owned("Crash capture"),
            description: owned("Captures a full dump when the process throws an unhandled exception or terminates unexpectedly. Uses safe defaults appropriate for production systems. Ideal for post-mortem crash investigation."),
            effective_flags: owned("-ma -e -t"),
            kind: k,
        },
        PresetKind::HangCapture => Preset {
            name: owned("Hang capture"),
            description: owned("Captures a full dump when the process window stops responding (hung). Useful for diagnosing UI freezes and deadlocks."),
            effective_flags: owned("-ma -h"),
            kind: k,
        },
        PresetKind::HighCpuSpike => Preset {
            name: owned("High CPU spike capture"),
            description: owned("Captures up to 3 full dumps when CPU usage exceeds 90 % for at least 10 consecutive seconds. Helps identify runaway threads or hot code paths."),
            effective_flags: owned("-ma -c 90 -s 10 -n 3"),
            kind: k,
        },
        PresetKind::MemoryThreshold => Preset {
            name: owned("Memory threshold capture"),
            description: owned("Captures up to 3 full dumps when process memory commit exceeds 2048 MB. Useful for investigating memory leaks or unexpected memory growth."),
            effective_flags: owned("-ma -m 2048 -n 3"),
            kind: k,
        },
        PresetKind::LowImpactFullDump => Preset {
            name: owned("Low impact full dump"),
            description: owned("A full memory dump equivalent to Task Manager, captured via process cloning (-r) to minimize disruption. The -a flag prevents dump floods; the process is suspended for only milliseconds instead of the full dump duration."),
            effective_flags: owned("-a -r -ma"),
            kind: k,
        },
    }
}

/// The first preset kind, from position `i` of the table on, whose name
/// equals `name` ignoring ASCII case.
pub open spec fn find_preset_from(name: Seq<char>, i: int) -> Option<PresetKind>
    decreases 5 - i,
{
    if i < 0 || i >= 5 {
        None
    } else if eq_ignore_ascii_case(preset_name(preset_kinds()[i]), name) {
        Some(preset_kinds()[i])
    } else {
        find_preset_from(name, i + 1)
    }
}

/// Dump-count and trigger fields a preset sets after the reset.
pub open spec fn preset_max_dumps(k: PresetKind) -> i32 {
    if k == PresetKind::HighCpuSpike || k == PresetKind::MemoryThreshold { 3 } else { 1 }
}

/// What applying preset `k` leaves in the fields it owns; every other field
/// (paths, target, wait-for-process, restart delay, ...) keeps its value.
pub open spec fn applied_preset(old: Config, new: Config, k: PresetKind) -> bool {
    &&& new.dump_type@ == "Full"@
    &&& new.dump_on_exception == (k == PresetKind::CrashCapture)
    &&& new.dump_on_terminate == (k == PresetKind::CrashCapture)
    &&& new.use_clone == (k == PresetKind::LowImpactFullDump)
    &&& new.avoid_outage == (k == PresetKind::LowImpactFullDump)
    &&& !new.overwrite_existing
    &&& !new.cpu_per_unit
    &&& new.cpu_threshold == (if k == PresetKind::HighCpuSpike { 90i32 } else { 0i32 })
    &&& new.cpu_low_threshold == 0
    &&& new.cpu_duration_seconds == (if k == PresetKind::HighCpuSpike { 10i32 } else { 0i32 })
    &&& new.memory_commit_mb == (if k == PresetKind::MemoryThreshold { 2048i32 } else { 0i32 })
    &&& new.hang_window_seconds == (if k == PresetKind::HangCapture { 1i32 } else { 0i32 })
    &&& new.max_dumps == preset_max_dumps(k)
    &&& !new.wer_integration
    &&& new.avoid_terminate_timeout == 0
    &&& new.performance_counter@ == Seq::<char>::empty()
    &&& new.perf_counter_threshold@ == Seq::<char>::empty()
    &&& new.exception_filter_include@ == Seq::<char>::empty()
    &&& new.exception_filter_exclude@ == Seq::<char>::empty()
    &&& new.scenario@ == preset_name(k)
    &&& new == (Config {
        dump_type: new.dump_type,
        dump_on_exception: new.dump_on_exception,
        dump_on_terminate: new.dump_on_terminate,
        use_clone: new.use_clone,
        avoid_outage: new.avoid_outage,
        overwrite_existing: new.overwrite_existing,
        cpu_per_unit: new.cpu_per_unit,
        cpu_threshold: new.cpu_threshold,
        cpu_low_threshold: new.cpu_low_threshold,
        cpu_duration_seconds: new.cpu_duration_seconds,
        memory_commit_mb: new.memory_commit_mb,
        hang_window_seconds: new.hang_window_seconds,
        max_dumps: new.max_dumps,
        wer_integration: new.wer_integration,
        avoid_terminate_timeout: new.avoid_terminate_timeout,
        performance_counter: new.performance_counter,
        perf_counter_threshold: new.perf_counter_threshold,
        exception_filter_include: new.exception_filter_include,
        exception_filter_exclude: new.exception_filter_exclude,
        scenario: new.scenario,
        ..old
    })
}

impl Preset {
    /// The five presets, Crash capture first.
    pub fn all() -> (r: Vec<Preset>)
        ensures
            r@.len() == 5,
            forall|i: int| 0 <= i < 5 ==> is_preset(#[trigger] r@[i], preset_kinds()[i]),
    {
        let mut r: Vec<Preset> = Vec::new();
        r.push(make_preset(PresetKind::CrashCapture));
        r.push(make_preset(PresetKind::HangCapture));
        r.push(make_preset(PresetKind::HighCpuSpike));
        r.push(make_preset(PresetKind::MemoryThreshold));
        r.push(make_preset(PresetKind::LowImpactFullDump));
        r
    }

    /// The preset whose name equals `name` ignoring ASCII case.
    pub fn find(name: &str) -> (r: Option<Preset>)
        ensures
            match find_preset_from(name@, 0) {
                Some(k) => r matches Some(p) && is_preset(p, k),
                None => r is None,
            },
    {
        let presets = Preset::all();
        let wanted = chars_of(name);
        let mut i: usize = 0;
        while i < presets.len()
            invariant
                presets@.len() == 5,
                forall|j: int| 0 <= j < 5 ==> is_preset(#[trigger] presets@[j], preset_kinds()[j]),
                wanted@ == name@,
                i <= 5,
                find_preset_from(name@, 0) == find_preset_from(name@, i as int),
            decreases 5 - i,
        {
            let n = chars_of(presets[i].name.as_str());
            if eq_ignore_ascii_case_vec(&n, &wanted) {
                return Some(make_preset(presets[i].kind));
            }
            i = i + 1;
        }
        None
    }

    /// Reset every trigger and operational field to its safe zero, then set
    /// this preset's triggers and record its name as the scenario.
    #[verifier::rlimit(50)]
    pub fn apply(&self, cfg: &mut Config)
        ensures
            applied_preset(*old(cfg), *final(cfg), self.kind),
            final(cfg).scenario@ == self.name@ || !is_preset(*self, self.kind),
    {
        let k = self.kind;
        cfg.dump_type = owned("Full");
        cfg.dump_on_exception = k == PresetKind::CrashCapture;
        cfg.dump_on_terminate = k == PresetKind::CrashCapture;
        cfg.use_clone = k == PresetKind::LowImpactFullDump;
        cfg.avoid_outage = k == PresetKind::LowImpactFullDump;
        cfg.overwrite_existing = false;
        cfg.cpu_per_unit = false;
        cfg.cpu_threshold = if k == PresetKind::HighCpuSpike { 90 } else { 0 };
        cfg.cpu_low_threshold = 0;
        cfg.cpu_duration_seconds = if k == PresetKind::HighCpuSpike { 10 } else { 0 };
        cfg.memory_commit_mb = if k == PresetKind::MemoryThreshold { 2048 } else { 0 };
        cfg.hang_window_seconds = if k == PresetKind::HangCapture { 1 } else { 0 };
        cfg.max_dumps = if k == PresetKind::HighCpuSpike || k == PresetKind::MemoryThreshold { 3 } else { 1 };
        cfg.wer_integration = false;
        cfg.avoid_terminate_timeout = 0;
        cfg.performance_counter = String::new();
        cfg.perf_counter_threshold = String::new();
        cfg.exception_filter_include = String::new();
        cfg.exception_filter_exclude = String::new();
        cfg.scenario = make_preset(k).name;
    }
}

proof fn lemma_push_if_keeps_first(ws: Seq<Seq<char>>, cond: bool, w: Seq<char>)
    requires
        ws.len() >= 1,
    ensures
        push_if(ws, cond, w).len() >= 1,
        push_if(ws, cond, w)[0] == ws[0],
{
}

proof fn lemma_mode_keeps_first(c: Config, a: Seq<Seq<char>>)
    requires
        a.len() >= 1,
    ensures
        args_mode(c, a).len() >= 1,
        args_mode(c, a)[0] == a[0],
{
    let a1 = match dump_type_flag(c.dump_type@) { Some(f) => a.push(f), None => a };
    assert(a1.len() >= 1 && a1[0] == a[0]);
    let a2 = push_if(a1, c.dump_on_exception, "-e"@);
    lemma_push_if_keeps_first(a1, c.dump_on_exception, "-e"@);
    let a3 = push_if(a2, c.dump_on_terminate, "-t"@);
    lemma_push_if_keeps_first(a2, c.dump_on_terminate, "-t"@);
    let a4 = push_if(a3, c.hang_window_seconds > 0, "-h"@);
    lemma_push_if_keeps_first(a3, c.hang_window_seconds > 0, "-h"@);
    let a5 = push_if(a4, c.use_clone, "-r"@);
    lemma_push_if_keeps_first(a4, c.use_clone, "-r"@);
    let a6 = push_if(a5, c.avoid_outage, "-a"@);
    lemma_push_if_keeps_first(a5, c.avoid_outage, "-a"@);
    lemma_push_if_keeps_first(a6, c.overwrite_existing, "-o"@);
}

proof fn lemma_triggers_keep_first(c: Config, m: Seq<Seq<char>>)
    requires
        m.len() >= 1,
    ensures
        args_triggers(c, m).len() >= 1,
        args_triggers(c, m)[0] == m[0],
{
    let b1 = push_if(m, c.cpu_threshold > 0, numeric("-c"@, c.cpu_threshold));
    lemma_push_if_keeps_first(m, c.cpu_threshold > 0, numeric("-c"@, c.cpu_threshold));
    let b2 = push_if(b1, c.cpu_low_threshold > 0, numeric("-cl"@, c.cpu_low_threshold));
    lemma_push_if_keeps_first(b1, c.cpu_low_threshold > 0, numeric("-cl"@, c.cpu_low_threshold));
    let b3 = push_if(b2, c.cpu_duration_seconds > 0, numeric("-s"@, c.cpu_duration_seconds));
    lemma_push_if_keeps_first(b2, c.cpu_duration_seconds > 0, numeric("-s"@, c.cpu_duration_seconds));
    let b4 = push_if(b3, c.cpu_per_unit, "-u"@);
    lemma_push_if_keeps_first(b3, c.cpu_per_unit, "-u"@);
    let b5 = push_if(b4, c.memory_commit_mb > 0, numeric("-m"@, c.memory_commit_mb));
    lemma_push_if_keeps_first(b4, c.memory_commit_mb > 0, numeric("-m"@, c.memory_commit_mb));
    let b6 = push_if(b5, trim(c.performance_counter@).len() != 0, quoted("-p"@, c.performance_counter@));
    lemma_push_if_keeps_first(b5, trim(c.performance_counter@).len() != 0, quoted("-p"@, c.performance_counter@));
    let b7 = push_if(b6, trim(c.perf_counter_threshold@).len() != 0, quoted("-pl"@, c.perf_counter_threshold@));
    lemma_push_if_keeps_first(b6, trim(c.perf_counter_threshold@).len() != 0, quoted("-pl"@, c.perf_counter_threshold@));
    let b8 = push_if(b7, trim(c.exception_filter_include@).len() != 0, quoted("-f"@, c.exception_filter_include@));
    lemma_push_if_keeps_first(b7, trim(c.exception_filter_include@).len() != 0, quoted("-f"@, c.exception_filter_include@));
    lemma_push_if_keeps_first(b8, trim(c.exception_filter_exclude@).len() != 0, quoted("-fx"@, c.exception_filter_exclude@));
}

proof fn lemma_tail_shape(c: Config, t: Seq<Seq<char>>)
    requires
        t.len() >= 1,
    ensures
        args_tail(c, t)[0] == t[0],
        args_tail(c, t).len() >= 3,
        args_tail(c, t).last() == seq!['"'] + c.dump_directory@ + seq!['"'],
        args_tail(c, t)[args_tail(c, t).len() - 2] == target_word(c),
{
    let c1 = push_if(t, c.wer_integration, "-wer"@);
    lemma_push_if_keeps_first(t, c.wer_integration, "-wer"@);
    let c2 = push_if(c1, c.avoid_terminate_timeout > 0, numeric("-at"@, c.avoid_terminate_timeout));
    lemma_push_if_keeps_first(c1, c.avoid_terminate_timeout > 0, numeric("-at"@, c.avoid_terminate_timeout));
    let c3 = c2.push(numeric("-n"@, c.max_dumps));
    let c4 = push_if(c3, c.wait_for_process, "-w"@);
    lemma_push_if_keeps_first(c3, c.wait_for_process, "-w"@);
}

/// The command line always starts with `-accepteula`, ends with the quoted
/// dump directory, and names the target just before it.
pub proof fn law_arg_list_frame(c: Config)
    ensures
        spec_arg_list(c)[0] == "-accepteula"@,
        spec_arg_list(c).last() == seq!['"'] + c.dump_directory@ + seq!['"'],
        spec_arg_list(c)[spec_arg_list(c).len() - 2] == target_word(c),
{
    let a0: Seq<Seq<char>> = seq!["-accepteula"@];
    lemma_mode_keeps_first(c, a0);
    let m = args_mode(c, a0);
    lemma_triggers_keep_first(c, m);
    lemma_tail_shape(c, args_triggers(c, m));
}

/// `a` is where `b` starts.
pub open spec fn starts_list(b: Seq<Seq<char>>, a: Seq<Seq<char>>) -> bool {
    a.len() <= b.len() && forall|i: int| 0 <= i < a.len() ==> #[trigger] b[i] == a[i]
}

proof fn lemma_push_if_extends(ws: Seq<Seq<char>>, cond: bool, w: Seq<char>)
    ensures
        starts_list(push_if(ws, cond, w), ws),
{
}

proof fn lemma_starts_list_trans(a: Seq<Seq<char>>, b: Seq<Seq<char>>, c: Seq<Seq<char>>)
    requires
        starts_list(b, a),
        starts_list(c, b),
    ensures
        starts_list(c, a),
{
    assert forall|i: int| 0 <= i < a.len() implies #[trigger] c[i] == a[i] by {
        assert(c[i] == b[i]);
    }
}

proof fn lemma_mode_extends(c: Config, a: Seq<Seq<char>>)
    ensures
        starts_list(args_mode(c, a), match dump_type_flag(c.dump_type@) { Some(f) => a.push(f), None => a }),
{
    let a1 = match dump_type_flag(c.dump_type@) { Some(f) => a.push(f), None => a };
    let a2 = push_if(a1, c.dump_on_exception, "-e"@);
    let a3 = push_if(a2, c.dump_on_terminate, "-t"@);
    let a4 = push_if(a3, c.hang_window_seconds > 0, "-h"@);
    let a5 = push_if(a4, c.use_clone, "-r"@);
    let a6 = push_if(a5, c.avoid_outage, "-a"@);
    let m = push_if(a6, c.overwrite_existing, "-o"@);
    lemma_starts_list_trans(a1, a2, a3);
    lemma_starts_list_trans(a1, a3, a4);
    lemma_starts_list_trans(a1, a4, a5);
    lemma_starts_list_trans(a1, a5, a6);
    lemma_starts_list_trans(a1, a6, m);
}

proof fn lemma_triggers_extends(c: Config, m: Seq<Seq<char>>)
    ensures
        starts_list(args_triggers(c, m), m),
{
    let b1 = push_if(m, c.cpu_threshold > 0, numeric("-c"@, c.cpu_threshold));
    let b2 = push_if(b1, c.cpu_low_threshold > 0, numeric("-cl"@, c.cpu_low_threshold));
    let b3 = push_if(b2, c.cpu_duration_seconds > 0, numeric("-s"@, c.cpu_duration_seconds));
    let b4 = push_if(b3, c.cpu_per_unit, "-u"@);
    let b5 = push_if(b4, c.memory_commit_mb > 0, numeric("-m"@, c.memory_commit_mb));
    let b6 = push_if(b5, trim(c.performance_counter@).len() != 0, quoted("-p"@, c.performance_counter@));
    let b7 = push_if(b6, trim(c.perf_counter_threshold@).len() != 0, quoted("-pl"@, c.perf_counter_threshold@));
    let b8 = push_if(b7, trim(c.exception_filter_include@).len() != 0, quoted("-f"@, c.exception_filter_include@));
    let t = push_if(b8, trim(c.exception_filter_exclude@).len() != 0, quoted("-fx"@, c.exception_filter_exclude@));
    lemma_starts_list_trans(m, b1, b2);
    lemma_starts_list_trans(m, b2, b3);
    lemma_starts_list_trans(m, b3, b4);
    lemma_starts_list_trans(m, b4, b5);
    lemma_starts_list_trans(m, b5, b6);
    lemma_starts_list_trans(m, b6, b7);
    lemma_starts_list_trans(m, b7, b8);
    lemma_starts_list_trans(m, b8, t);
}

proof fn lemma_tail_extends(c: Config, t: Seq<Seq<char>>)
    ensures
        starts_list(args_tail(c, t), t),
{
    let c1 = push_if(t, c.wer_integration, "-wer"@);
    let c2 = push_if(c1, c.avoid_terminate_timeout > 0, numeric("-at"@, c.avoid_terminate_timeout));
    let c3 = c2.push(numeric("-n"@, c.max_dumps));
    let c4 = push_if(c3, c.wait_for_process, "-w"@);
    let c5 = c4.push(target_word(c));
    let c6 = c5.push(seq!['"'] + c.dump_directory@ + seq!['"']);
    lemma_starts_list_trans(t, c1, c2);
    lemma_starts_list_trans(t, c2, c3);
    lemma_starts_list_trans(t, c3, c4);
    lemma_starts_list_trans(t, c4, c5);
    lemma_starts_list_trans(t, c5, c6);
}

/// The argument list begins with `-accepteula` and then the dump-type switch,
/// when the dump type has one.
proof fn lemma_arg_list_head(c: Config)
    ensures
        starts_list(
            spec_arg_list(c),
            match dump_type_flag(c.dump_type@) {
                Some(f) => seq!["-accepteula"@, f],
                None => seq!["-accepteula"@],
            },
        ),
{
    let a0: Seq<Seq<char>> = seq!["-accepteula"@];
    let a1 = match dump_type_flag(c.dump_type@) { Some(f) => a0.push(f), None => a0 };
    let m = args_mode(c, a0);
    let t = args_triggers(c, m);
    lemma_mode_extends(c, a0);
    lemma_triggers_extends(c, m);
    lemma_tail_extends(c, t);
    lemma_starts_list_trans(a1, m, t);
    lemma_starts_list_trans(a1, t, args_tail(c, t));
    match dump_type_flag(c.dump_type@) {
        Some(f) => assert(a1 =~= seq!["-accepteula"@, f]),
        None => {},
    }
}

proof fn lemma_dump_type_flag_values(t: Seq<char>)
    ensures
        t == "Full"@ ==> dump_type_flag(t) == Some("-ma"@),
        t == "MiniPlus"@ ==> dump_type_flag(t) == Some("-mp"@),
        t == "Mini"@ ==> dump_type_flag(t) == Some("-mm"@),
        t == "ThreadDump"@ ==> dump_type_flag(t) == Some("-mt"@),
{
    reveal_strlit("Full");
    reveal_strlit("MiniPlus");
    reveal_strlit("Mini");
    reveal_strlit("ThreadDump");
    assert("Full"@[0] == 'F' && "Mini"@[0] == 'M' && "MiniPlus"@.len() == 8 && "ThreadDump"@.len() == 10);
}

/// Each dump type the settings offer puts ProcDump's own switch for it right
/// after `-accepteula`: Full `-ma`, MiniPlus `-mp`, Mini `-mm`, ThreadDump
/// `-mt` (four different switches); any other name puts none there.
pub proof fn law_dump_type_switch(c: Config)
    ensures
        c.dump_type@ == "Full"@ ==> spec_arg_list(c)[1] == "-ma"@,
        c.dump_type@ == "MiniPlus"@ ==> spec_arg_list(c)[1] == "-mp"@,
        c.dump_type@ == "Mini"@ ==> spec_arg_list(c)[1] == "-mm"@,
        c.dump_type@ == "ThreadDump"@ ==> spec_arg_list(c)[1] == "-mt"@,
        spec_arg_list(c)[0] == "-accepteula"@,
        spec_arg_list(c).len() >= 2,
{
    lemma_dump_type_flag_values(c.dump_type@);
    lemma_arg_list_head(c);
    law_arg_list_frame(c);
    let l = spec_arg_list(c);
    match dump_type_flag(c.dump_type@) {
        Some(f) => assert(l[1] == seq!["-accepteula"@, f][1]),
        None => {},
    }
}

/// What follows a preset's switches: `-w` when waiting for the process, the
/// target and the quoted dump directory.
pub open spec fn kept_tail(c: Config) -> Seq<Seq<char>> {
    (if c.wait_for_process { seq!["-w"@] } else { Seq::empty() }) + seq![
        target_word(c),
        seq!['"'] + c.dump_directory@ + seq!['"'],
    ]
}

proof fn lemma_numeric_texts()
    ensures
        numeric("-n"@, 1) == "-n 1"@,
        numeric("-n"@, 3) == "-n 3"@,
        numeric("-c"@, 90) == "-c 90"@,
        numeric("-s"@, 10) == "-s 10"@,
        numeric("-m"@, 2048) == "-m 2048"@,
{
    reveal_strlit("-n");
    reveal_strlit("-c");
    reveal_strlit("-s");
    reveal_strlit("-m");
    reveal_strlit("-n 1");
    reveal_strlit("-n 3");
    reveal_strlit("-c 90");
    reveal_strlit("-s 10");
    reveal_strlit("-m 2048");
    reveal_with_fuel(crate::num::digits, 5);
    assert(int_text(1) =~= seq!['1']);
    assert(int_text(3) =~= seq!['3']);
    assert(int_text(90) =~= seq!['9', '0']);
    assert(int_text(10) =~= seq!['1', '0']);
    assert(int_text(2048) =~= seq!['2', '0', '4', '8']);
    assert(numeric("-n"@, 1) =~= "-n 1"@);
    assert(numeric("-n"@, 3) =~= "-n 3"@);
    assert(numeric("-c"@, 90) =~= "-c 90"@);
    assert(numeric("-s"@, 10) =~= "-s 10"@);
    assert(numeric("-m"@, 2048) =~= "-m 2048"@);
}

proof fn lemma_preset_list(old: Config, new: Config, k: PresetKind)
    requires
        applied_preset(old, new, k),
    ensures
        spec_arg_list(new) == seq!["-accepteula"@, "-ma"@] + (if k == PresetKind::CrashCapture {
            seq!["-e"@, "-t"@]
        } else {
            Seq::empty()
        }) + (if k == PresetKind::HangCapture { seq!["-h"@] } else { Seq::empty() }) + (
        if k == PresetKind::LowImpactFullDump {
            seq!["-r"@, "-a"@]
        } else {
            Seq::empty()
        }) + (if k == PresetKind::HighCpuSpike {
            seq![numeric("-c"@, 90), numeric("-s"@, 10)]
        } else {
            Seq::empty()
        }) + (if k == PresetKind::MemoryThreshold { seq![numeric("-m"@, 2048)] } else { Seq::empty() })
            + seq![numeric("-n"@, preset_max_dumps(k))] + kept_tail(old),
{
    lemma_dump_type_flag_values(new.dump_type@);
    assert(trim(Seq::<char>::empty()) =~= Seq::<char>::empty()) by {
        assert(crate::text::trim_start(Seq::<char>::empty()) == Seq::<char>::empty());
        assert(crate::text::trim_end(Seq::<char>::empty()) == Seq::<char>::empty());
    }
    assert(target_word(new) == target_word(old));
    let a0: Seq<Seq<char>> = seq!["-accepteula"@];
    let m = args_mode(new, a0);
    let t = args_triggers(new, m);
    assert(m =~= seq!["-accepteula"@, "-ma"@] + (if k == PresetKind::CrashCapture {
        seq!["-e"@, "-t"@]
    } else {
        Seq::empty()
    }) + (if k == PresetKind::HangCapture { seq!["-h"@] } else { Seq::empty() }) + (
    if k == PresetKind::LowImpactFullDump {
        seq!["-r"@, "-a"@]
    } else {
        Seq::empty()
    }));
    assert(t =~= m + (if k == PresetKind::HighCpuSpike {
        seq![numeric("-c"@, 90), numeric("-s"@, 10)]
    } else {
        Seq::empty()
    }) + (if k == PresetKind::MemoryThreshold { seq![numeric("-m"@, 2048)] } else { Seq::empty() }));
    assert(args_tail(new, t) =~= t + seq![numeric("-n"@, preset_max_dumps(k))] + kept_tail(old));
}

/// A preset leaves exactly its own switches on the ProcDump command line,
/// after `-accepteula` and before the dump count, the wait switch, the
/// target and the dump directory, which come from the configuration it was
/// applied to: Crash capture `-ma -e -t`, Hang capture `-ma -h`, High CPU
/// spike `-ma -c 90 -s 10` with `-n 3`, Memory threshold `-ma -m 2048` with
/// `-n 3`, Low impact full dump `-ma -r -a`; one dump for the others.
pub proof fn law_preset_arguments(old: Config, new: Config, k: PresetKind)
    requires
        applied_preset(old, new, k),
    ensures
        k == PresetKind::CrashCapture ==> spec_arg_list(new) == seq!["-accepteula"@, "-ma"@, "-e"@, "-t"@, "-n 1"@]
            + kept_tail(old),
        k == PresetKind::HangCapture ==> spec_arg_list(new) == seq!["-accepteula"@, "-ma"@, "-h"@, "-n 1"@]
            + kept_tail(old),
        k == PresetKind::HighCpuSpike ==> spec_arg_list(new) == seq![
            "-accepteula"@,
            "-ma"@,
            "-c 90"@,
            "-s 10"@,
            "-n 3"@,
        ] + kept_tail(old),
        k == PresetKind::MemoryThreshold ==> spec_arg_list(new) == seq![
            "-accepteula"@,
            "-ma"@,
            "-m 2048"@,
            "-n 3"@,
        ] + kept_tail(old),
        k == PresetKind::LowImpactFullDump ==> spec_arg_list(new) == seq![
            "-accepteula"@,
            "-ma"@,
            "-r"@,
            "-a"@,
            "-n 1"@,
        ] + kept_tail(old),
{
    lemma_preset_list(old, new, k);
    lemma_numeric_texts();
    let l = spec_arg_list(new);
    let tl = kept_tail(old);
    match k {
        PresetKind::CrashCapture => {
            assert(l =~= seq!["-accepteula"@, "-ma"@, "-e"@, "-t"@, "-n 1"@] + tl);
        },
        PresetKind::HangCapture => {
            assert(l =~= seq!["-accepteula"@, "-ma"@, "-h"@, "-n 1"@] + tl);
        },
        PresetKind::HighCpuSpike => {
            assert(l =~= seq!["-accepteula"@, "-ma"@, "-c 90"@, "-s 10"@, "-n 3"@] + tl);
        },
        PresetKind::MemoryThreshold => {
            assert(l =~= seq!["-accepteula"@, "-ma"@, "-m 2048"@, "-n 3"@] + tl);
        },
        PresetKind::LowImpactFullDump => {
            assert(l =~= seq!["-accepteula"@, "-ma"@, "-r"@, "-a"@, "-n 1"@] + tl);
        },
    }
}

/// The words of a preset's effective flags, as its description lists them.
pub open spec fn preset_words(k: PresetKind) -> Seq<Seq<char>> {
    match k {
        PresetKind::CrashCapture => seq!["-ma"@, "-e"@, "-t"@],
        PresetKind::HangCapture => seq!["-ma"@, "-h"@],
        PresetKind::HighCpuSpike => seq!["-ma"@, "-c 90"@, "-s 10"@, "-n 3"@],
        PresetKind::MemoryThreshold => seq!["-ma"@, "-m 2048"@, "-n 3"@],
        PresetKind::LowImpactFullDump => seq!["-a"@, "-r"@, "-ma"@],
    }
}

/// What a preset says it does is what it does: its effective-flags text is
/// its words joined by spaces, and after it is applied every one of those
/// words is an argument of the ProcDump command line.
pub proof fn law_preset_flags_take_effect(old: Config, new: Config, k: PresetKind)
    requires
        applied_preset(old, new, k),
    ensures
        join_words(preset_words(k), seq![' ']) == preset_flags(k),
        forall|i: int| 0 <= i < preset_words(k).len() ==> spec_arg_list(new).contains(#[trigger] preset_words(k)[i]),
{
    law_preset_arguments(old, new, k);
    let l = spec_arg_list(new);
    let ws = preset_words(k);
    reveal_with_fuel(join_words, 5);
    reveal_strlit("-ma -e -t");
    reveal_strlit("-ma -h");
    reveal_strlit("-ma -c 90 -s 10 -n 3");
    reveal_strlit("-ma -m 2048 -n 3");
    reveal_strlit("-a -r -ma");
    reveal_strlit("-ma");
    reveal_strlit("-e");
    reveal_strlit("-t");
    reveal_strlit("-h");
    reveal_strlit("-c 90");
    reveal_strlit("-s 10");
    reveal_strlit("-n 3");
    reveal_strlit("-m 2048");
    reveal_strlit("-a");
    reveal_strlit("-r");
    assert(join_words(ws, seq![' ']) =~= preset_flags(k)) by {
        match k {
            PresetKind::CrashCapture => {
                assert(join_words(ws, seq![' ']) =~= "-ma"@ + seq![' '] + "-e"@ + seq![' '] + "-t"@);
            },
            PresetKind::HangCapture => {
                assert(join_words(ws, seq![' ']) =~= "-ma"@ + seq![' '] + "-h"@);
            },
            PresetKind::HighCpuSpike => {
                assert(ws.drop_last().drop_last().drop_last() =~= seq!["-ma"@]);
                assert(join_words(ws, seq![' ']) =~= "-ma"@ + seq![' '] + "-c 90"@ + seq![' '] + "-s 10"@ + seq![' ']
                    + "-n 3"@);
            },
            PresetKind::MemoryThreshold => {
                assert(join_words(ws, seq![' ']) =~= "-ma"@ + seq![' '] + "-m 2048"@ + seq![' '] + "-n 3"@);
            },
            PresetKind::LowImpactFullDump => {
                assert(join_words(ws, seq![' ']) =~= "-a"@ + seq![' '] + "-r"@ + seq![' '] + "-ma"@);
            },
        }
    }
    assert forall|i: int| 0 <= i < ws.len() implies l.contains(#[trigger] ws[i]) by {
        match k {
            PresetKind::CrashCapture => {
                assert(l[i + 1] == ws[i]);
            },
            PresetKind::HangCapture => {
                assert(l[i + 1] == ws[i]);
            },
            PresetKind::HighCpuSpike => {
                assert(l[i + 1] == ws[i]);
            },
            PresetKind::MemoryThreshold => {
                assert(l[i + 1] == ws[i]);
            },
            PresetKind::LowImpactFullDump => {
                assert(l[3 - i] == ws[i]);
            },
        }
    }
}

/// A service target is named as `-service NAME`, with no `.exe` appended.
pub proof fn law_service_target_word(c: Config)
    requires
        c.target_type == TargetType::Service,
    ensures
        target_word(c) == "-service "@ + c.target_name@,
{
}

/// A process name that already ends in `.exe` (in any ASCII case) is used as
/// it is: the suffix is never doubled.
pub proof fn law_exe_suffix_not_doubled(c: Config)
    requires
        c.target_type == TargetType::Process,
        ends_with(ascii_lower_seq(c.target_name@), exe_suffix()),
    ensures
        target_word(c) == c.target_name@,
{
}

/// Applying a preset keeps the target, the paths, waiting for the process
/// and the restart delay.
pub proof fn law_preset_keeps_paths(old: Config, new: Config, k: PresetKind)
    requires
        applied_preset(old, new, k),
    ensures
        new.target_name == old.target_name,
        new.target_type == old.target_type,
        new.proc_dump_path == old.proc_dump_path,
        new.dump_directory == old.dump_directory,
        new.wait_for_process == old.wait_for_process,
        new.restart_delay_seconds == old.restart_delay_seconds,
        new.task_name == old.task_name,
{
}

} // verus!
