//! The monitor page's fields and the configuration: what the page shows for
//! a configuration, and what saving the page writes back.

use vstd::prelude::*;
use crate::bitness::{set_target, target_changes};
use crate::config::{Config, TargetType};
use crate::num::{i32_of_text, i64_of_text, int_text, u16_of_text};
use crate::procdump::{preset_name, PresetKind};
use crate::task::{sanitized_task_name, sanitize_task_name, TASK_NAME_PREFIX};
use crate::text::{chars_of, opt_view, str_eq, string_of, trim, trim_vec};

verus! {

/// The task name that stands for "not chosen yet".
pub const DEFAULT_TASK_NAME: &'static str = "ProcDump Monitor";

/// The scenario entry that means no preset.
pub const CUSTOM_SCENARIO: &'static str = "Custom";

/// The dump type used when none is chosen.
pub const DEFAULT_DUMP_TYPE: &'static str = "Full";

/// A number typed into a field: the trimmed text read as an `i32`, 0 when
/// it is not one.
pub open spec fn int_field_value(t: Seq<char>) -> i32 {
    match i32_of_text(trim(t)) {
        Some(v) => v,
        None => 0,
    }
}

pub fn int_field(text: &str) -> (r: i32)
    ensures
        r == int_field_value(text@),
{
    let t = string_of(&trim_vec(&chars_of(text)));
    match crate::num::parse_i32(t.as_str()) {
        Some(v) => v,
        None => 0,
    }
}

/// A 64-bit number typed into a field: the trimmed text read as an `i64`,
/// 0 when it is not one.
pub open spec fn long_field_value(t: Seq<char>) -> i64 {
    match i64_of_text(trim(t)) {
        Some(v) => v,
        None => 0,
    }
}

pub fn long_field(text: &str) -> (r: i64)
    ensures
        r == long_field_value(text@),
{
    let t = string_of(&trim_vec(&chars_of(text)));
    match crate::num::parse_i64(t.as_str()) {
        Some(v) => v,
        None => 0,
    }
}

/// An SMTP port typed into a field: the trimmed text read as a `u16`, 25
/// when it is not one.
pub open spec fn port_field_value(t: Seq<char>) -> u16 {
    match u16_of_text(trim(t)) {
        Some(v) => v,
        None => 25,
    }
}

pub fn port_field(text: &str) -> (r: u16)
    ensures
        r == port_field_value(text@),
{
    let t = string_of(&trim_vec(&chars_of(text)));
    match crate::num::parse_u16(t.as_str()) {
        Some(v) => v,
        None => 25,
    }
}

/// The typed task name still follows the target: once sanitised it is the
/// automatic name of `prev_target`, the bare default, or empty.
pub open spec fn task_follows_target(typed: Seq<char>, prev_target: Seq<char>) -> bool {
    let t = sanitized_task_name(typed);
    t == TASK_NAME_PREFIX@ + prev_target || t == DEFAULT_TASK_NAME@ || t.len() == 0
}

/// The task name saved when the target changes from `prev_target` to
/// `new_target`: the new automatic name while the typed name follows the
/// target, else the typed name sanitised.
pub open spec fn task_name_text(typed: Seq<char>, prev_target: Seq<char>, new_target: Seq<char>) -> Seq<char> {
    if task_follows_target(typed, prev_target) {
        TASK_NAME_PREFIX@ + new_target
    } else {
        sanitized_task_name(typed)
    }
}

pub fn task_follows(typed: &str, prev_target: &str) -> (r: bool)
    ensures
        r == task_follows_target(typed@, prev_target@),
{
    let t = sanitize_task_name(typed);
    let auto_prev = crate::task::auto_task_name(prev_target);
    str_eq(t.as_str(), auto_prev.as_str()) || str_eq(t.as_str(), DEFAULT_TASK_NAME) || chars_of(
        t.as_str(),
    ).len() == 0
}

pub fn task_name_for(typed: &str, prev_target: &str, new_target: &str) -> (r: String)
    ensures
        r@ == task_name_text(typed@, prev_target@, new_target@),
{
    if task_follows(typed, prev_target) {
        crate::task::auto_task_name(new_target)
    } else {
        sanitize_task_name(typed)
    }
}

/// The scenario saved for the selected entry: none for `Custom` or no
/// selection, else the entry.
pub open spec fn saved_scenario(sel: Option<Seq<char>>) -> Seq<char> {
    match sel {
        Some(s) => if s == CUSTOM_SCENARIO@ { Seq::empty() } else { s },
        None => Seq::empty(),
    }
}

/// The dump type saved for the selected entry, `Full` with none.
pub open spec fn saved_dump_type(sel: Option<Seq<char>>) -> Seq<char> {
    match sel {
        Some(s) => s,
        None => DEFAULT_DUMP_TYPE@,
    }
}

/// A preset's name, compared exactly.
pub open spec fn is_preset_name(s: Seq<char>) -> bool {
    ||| s == preset_name(PresetKind::CrashCapture)
    ||| s == preset_name(PresetKind::HangCapture)
    ||| s == preset_name(PresetKind::HighCpuSpike)
    ||| s == preset_name(PresetKind::MemoryThreshold)
    ||| s == preset_name(PresetKind::LowImpactFullDump)
}

/// The dump types the page offers, in order.
pub open spec fn is_dump_type_name(s: Seq<char>) -> bool {
    s == "Full"@ || s == "MiniPlus"@ || s == "Mini"@ || s == "ThreadDump"@
}

/// The scenario entry the page selects: the saved scenario when it names a
/// preset, else `Custom`.
pub open spec fn scenario_entry(s: Seq<char>) -> Seq<char> {
    if is_preset_name(s) { s } else { CUSTOM_SCENARIO@ }
}

/// The dump type entry the page selects: the saved one when offered, else
/// the first, `Full`.
pub open spec fn dump_type_entry(s: Seq<char>) -> Seq<char> {
    if is_dump_type_name(s) { s } else { DEFAULT_DUMP_TYPE@ }
}

fn scenario_entry_of(s: &str) -> (r: String)
    ensures
        r@ == scenario_entry(s@),
{
    if str_eq(s, "Crash capture") || str_eq(s, "Hang capture") || str_eq(s, "High CPU spike capture")
        || str_eq(s, "Memory threshold capture") || str_eq(s, "Low impact full dump") {
        String::from_str(s)
    } else {
        String::from_str(CUSTOM_SCENARIO)
    }
}

fn dump_type_entry_of(s: &str) -> (r: String)
    ensures
        r@ == dump_type_entry(s@),
{
    if str_eq(s, "Full") || str_eq(s, "MiniPlus") || str_eq(s, "Mini") || str_eq(s, "ThreadDump") {
        String::from_str(s)
    } else {
        String::from_str(DEFAULT_DUMP_TYPE)
    }
}

/// What the monitor page's controls hold. The target is the page's
/// effective target (the picked entry, or the name typed by hand).
pub struct MonitorForm {
    pub target_name: String,
    pub target_type: TargetType,
    pub task_name: String,
    pub scenario: Option<String>,
    pub dump_type: Option<String>,
    pub dump_on_exception: bool,
    pub dump_on_terminate: bool,
    pub hang: bool,
    pub cpu_threshold: String,
    pub cpu_low_threshold: String,
    pub cpu_duration: String,
    pub max_dumps: String,
    pub memory_commit: String,
    pub procdump_path: String,
    pub dump_directory: String,
    pub email_enabled: bool,
    pub to_address: String,
    pub webhook_enabled: bool,
    pub auto_collect: bool,
}

/// The abstract value of a [`MonitorForm`].
pub struct MonitorFormView {
    pub target_name: Seq<char>,
    pub target_type: TargetType,
    pub task_name: Seq<char>,
    pub scenario: Option<Seq<char>>,
    pub dump_type: Option<Seq<char>>,
    pub dump_on_exception: bool,
    pub dump_on_terminate: bool,
    pub hang: bool,
    pub cpu_threshold: Seq<char>,
    pub cpu_low_threshold: Seq<char>,
    pub cpu_duration: Seq<char>,
    pub max_dumps: Seq<char>,
    pub memory_commit: Seq<char>,
    pub procdump_path: Seq<char>,
    pub dump_directory: Seq<char>,
    pub email_enabled: bool,
    pub to_address: Seq<char>,
    pub webhook_enabled: bool,
    pub auto_collect: bool,
}

impl View for MonitorForm {
    type V = MonitorFormView;

    open spec fn view(&self) -> MonitorFormView {
        MonitorFormView {
            target_name: self.target_name@,
            target_type: self.target_type,
            task_name: self.task_name@,
            scenario: opt_view(self.scenario),
            dump_type: opt_view(self.dump_type),
            dump_on_exception: self.dump_on_exception,
            dump_on_terminate: self.dump_on_terminate,
            hang: self.hang,
            cpu_threshold: self.cpu_threshold@,
            cpu_low_threshold: self.cpu_low_threshold@,
            cpu_duration: self.cpu_duration@,
            max_dumps: self.max_dumps@,
            memory_commit: self.memory_commit@,
            procdump_path: self.procdump_path@,
            dump_directory: self.dump_directory@,
            email_enabled: self.email_enabled,
            to_address: self.to_address@,
            webhook_enabled: self.webhook_enabled,
            auto_collect: self.auto_collect,
        }
    }
}

/// What the page shows for a configuration: the saved target, the
/// scenario and dump type entries, the trigger boxes (a hang window above
/// zero ticks the hang box), every number as `Display` writes it, and the
/// texts as saved.
pub open spec fn monitor_form_view(c: Config) -> MonitorFormView {
    MonitorFormView {
        target_name: c.target_name@,
        target_type: c.target_type,
        task_name: c.task_name@,
        scenario: Some(scenario_entry(c.scenario@)),
        dump_type: Some(dump_type_entry(c.dump_type@)),
        dump_on_exception: c.dump_on_exception,
        dump_on_terminate: c.dump_on_terminate,
        hang: c.hang_window_seconds > 0,
        cpu_threshold: int_text(c.cpu_threshold as int),
        cpu_low_threshold: int_text(c.cpu_low_threshold as int),
        cpu_duration: int_text(c.cpu_duration_seconds as int),
        max_dumps: int_text(c.max_dumps as int),
        memory_commit: int_text(c.memory_commit_mb as int),
        procdump_path: c.proc_dump_path@,
        dump_directory: c.dump_directory@,
        email_enabled: c.email_enabled,
        to_address: c.to_address@,
        webhook_enabled: c.webhook_enabled,
        auto_collect: c.auto_collect_on_dump,
    }
}

fn int_string(n: i32) -> (r: String)
    ensures
        r@ == int_text(n as int),
{
    string_of(&crate::num::i32_text(n))
}

/// Fill the monitor page from a configuration.
pub fn monitor_form_of(cfg: &Config) -> (f: MonitorForm)
    ensures
        f@ == monitor_form_view(*cfg),
{
    MonitorForm {
        target_name: cfg.target_name.clone(),
        target_type: cfg.target_type,
        task_name: cfg.task_name.clone(),
        scenario: Some(scenario_entry_of(cfg.scenario.as_str())),
        dump_type: Some(dump_type_entry_of(cfg.dump_type.as_str())),
        dump_on_exception: cfg.dump_on_exception,
        dump_on_terminate: cfg.dump_on_terminate,
        hang: cfg.hang_window_seconds > 0,
        cpu_threshold: int_string(cfg.cpu_threshold),
        cpu_low_threshold: int_string(cfg.cpu_low_threshold),
        cpu_duration: int_string(cfg.cpu_duration_seconds),
        max_dumps: int_string(cfg.max_dumps),
        memory_commit: int_string(cfg.memory_commit_mb),
        procdump_path: cfg.proc_dump_path.clone(),
        dump_directory: cfg.dump_directory.clone(),
        email_enabled: cfg.email_enabled,
        to_address: cfg.to_address.clone(),
        webhook_enabled: cfg.webhook_enabled,
        auto_collect: cfg.auto_collect_on_dump,
    }
}

/// At least one dump: the typed count, raised to 1.
pub open spec fn saved_max_dumps(t: Seq<char>) -> i32 {
    if int_field_value(t) < 1 { 1 } else { int_field_value(t) }
}

fn trimmed(s: &str) -> (r: String)
    ensures
        r@ == trim(s@),
{
    string_of(&trim_vec(&chars_of(s)))
}

/// Save the monitor page into `cfg`. The task name follows the target while
/// it is the automatic name of the previous target (or the default, or
/// empty); the target is set as [`set_target`] does; numbers read as
/// [`int_field`]; paths and the To list are trimmed. Nothing else changes.
#[verifier::rlimit(100)]
#[verifier::spinoff_prover]
pub fn apply_monitor_form(cfg: &mut Config, form: &MonitorForm)
    ensures
        final(cfg).task_name@ == task_name_text(form.task_name@, old(cfg).target_name@, form.target_name@),
        final(cfg).target_name@ == form.target_name@,
        final(cfg).target_type == form.target_type,
        final(cfg).target_path@ == (if target_changes(*old(cfg), form.target_name@, form.target_type) {
            Seq::<char>::empty()
        } else {
            old(cfg).target_path@
        }),
        final(cfg).scenario@ == saved_scenario(opt_view(form.scenario)),
        final(cfg).dump_type@ == saved_dump_type(opt_view(form.dump_type)),
        final(cfg).dump_on_exception == form.dump_on_exception,
        final(cfg).dump_on_terminate == form.dump_on_terminate,
        final(cfg).hang_window_seconds == (if form.hang { 1i32 } else { 0i32 }),
        final(cfg).cpu_threshold == int_field_value(form.cpu_threshold@),
        final(cfg).cpu_low_threshold == int_field_value(form.cpu_low_threshold@),
        final(cfg).cpu_duration_seconds == int_field_value(form.cpu_duration@),
        final(cfg).max_dumps == saved_max_dumps(form.max_dumps@),
        final(cfg).memory_commit_mb == int_field_value(form.memory_commit@),
        final(cfg).proc_dump_path@ == trim(form.procdump_path@),
        final(cfg).dump_directory@ == trim(form.dump_directory@),
        final(cfg).email_enabled == form.email_enabled,
        final(cfg).to_address@ == trim(form.to_address@),
        final(cfg).webhook_enabled == form.webhook_enabled,
        final(cfg).auto_collect_on_dump == form.auto_collect,
        *final(cfg) == (Config {
            task_name: final(cfg).task_name,
            target_name: final(cfg).target_name,
            target_type: final(cfg).target_type,
            target_path: final(cfg).target_path,
            scenario: final(cfg).scenario,
            dump_type: final(cfg).dump_type,
            dump_on_exception: final(cfg).dump_on_exception,
            dump_on_terminate: final(cfg).dump_on_terminate,
            hang_window_seconds: final(cfg).hang_window_seconds,
            cpu_threshold: final(cfg).cpu_threshold,
            cpu_low_threshold: final(cfg).cpu_low_threshold,
            cpu_duration_seconds: final(cfg).cpu_duration_seconds,
            max_dumps: final(cfg).max_dumps,
            memory_commit_mb: final(cfg).memory_commit_mb,
            proc_dump_path: final(cfg).proc_dump_path,
            dump_directory: final(cfg).dump_directory,
            email_enabled: final(cfg).email_enabled,
            to_address: final(cfg).to_address,
            webhook_enabled: final(cfg).webhook_enabled,
            auto_collect_on_dump: final(cfg).auto_collect_on_dump,
            ..*old(cfg)
        }),
{
    apply_target_and_task(cfg, form);
    apply_triggers(cfg, form);
    apply_outputs(cfg, form);
}

fn apply_target_and_task(cfg: &mut Config, form: &MonitorForm)
    ensures
        final(cfg).task_name@ == task_name_text(form.task_name@, old(cfg).target_name@, form.target_name@),
        final(cfg).target_name@ == form.target_name@,
        final(cfg).target_type == form.target_type,
        final(cfg).target_path@ == (if target_changes(*old(cfg), form.target_name@, form.target_type) {
            Seq::<char>::empty()
        } else {
            old(cfg).target_path@
        }),
        *final(cfg) == (Config {
            task_name: final(cfg).task_name,
            target_name: final(cfg).target_name,
            target_type: final(cfg).target_type,
            target_path: final(cfg).target_path,
            ..*old(cfg)
        }),
{
    let task = task_name_for(form.task_name.as_str(), cfg.target_name.as_str(), form.target_name.as_str());
    set_target(cfg, form.target_name.as_str(), form.target_type);
    cfg.task_name = task;
}

#[verifier::rlimit(50)]
fn apply_triggers(cfg: &mut Config, form: &MonitorForm)
    ensures
        final(cfg).scenario@ == saved_scenario(opt_view(form.scenario)),
        final(cfg).dump_type@ == saved_dump_type(opt_view(form.dump_type)),
        final(cfg).dump_on_exception == form.dump_on_exception,
        final(cfg).dump_on_terminate == form.dump_on_terminate,
        final(cfg).hang_window_seconds == (if form.hang { 1i32 } else { 0i32 }),
        final(cfg).cpu_threshold == int_field_value(form.cpu_threshold@),
        final(cfg).cpu_low_threshold == int_field_value(form.cpu_low_threshold@),
        final(cfg).cpu_duration_seconds == int_field_value(form.cpu_duration@),
        final(cfg).max_dumps == saved_max_dumps(form.max_dumps@),
        final(cfg).memory_commit_mb == int_field_value(form.memory_commit@),
        *final(cfg) == (Config {
            scenario: final(cfg).scenario,
            dump_type: final(cfg).dump_type,
            dump_on_exception: final(cfg).dump_on_exception,
            dump_on_terminate: final(cfg).dump_on_terminate,
            hang_window_seconds: final(cfg).hang_window_seconds,
            cpu_threshold: final(cfg).cpu_threshold,
            cpu_low_threshold: final(cfg).cpu_low_threshold,
            cpu_duration_seconds: final(cfg).cpu_duration_seconds,
            max_dumps: final(cfg).max_dumps,
            memory_commit_mb: final(cfg).memory_commit_mb,
            ..*old(cfg)
        }),
{
    let scenario = match &form.scenario {
        Some(s) => if str_eq(s.as_str(), CUSTOM_SCENARIO) {
            String::new()
        } else {
            s.clone()
        },
        None => String::new(),
    };
    let dump_type = match &form.dump_type {
        Some(s) => s.clone(),
        None => String::from_str(DEFAULT_DUMP_TYPE),
    };
    let cpu = int_field(form.cpu_threshold.as_str());
    let cpu_low = int_field(form.cpu_low_threshold.as_str());
    let cpu_dur = int_field(form.cpu_duration.as_str());
    let count = int_field(form.max_dumps.as_str());
    let mem = int_field(form.memory_commit.as_str());
    cfg.scenario = scenario;
    cfg.dump_type = dump_type;
    cfg.dump_on_exception = form.dump_on_exception;
    cfg.dump_on_terminate = form.dump_on_terminate;
    cfg.hang_window_seconds = if form.hang { 1 } else { 0 };
    cfg.cpu_threshold = cpu;
    cfg.cpu_low_threshold = cpu_low;
    cfg.cpu_duration_seconds = cpu_dur;
    cfg.max_dumps = if count < 1 { 1 } else { count };
    cfg.memory_commit_mb = mem;
}

fn apply_outputs(cfg: &mut Config, form: &MonitorForm)
    ensures
        final(cfg).proc_dump_path@ == trim(form.procdump_path@),
        final(cfg).dump_directory@ == trim(form.dump_directory@),
        final(cfg).email_enabled == form.email_enabled,
        final(cfg).to_address@ == trim(form.to_address@),
        final(cfg).webhook_enabled == form.webhook_enabled,
        final(cfg).auto_collect_on_dump == form.auto_collect,
        *final(cfg) == (Config {
            proc_dump_path: final(cfg).proc_dump_path,
            dump_directory: final(cfg).dump_directory,
            email_enabled: final(cfg).email_enabled,
            to_address: final(cfg).to_address,
            webhook_enabled: final(cfg).webhook_enabled,
            auto_collect_on_dump: final(cfg).auto_collect_on_dump,
            ..*old(cfg)
        }),
{
    let pd = trimmed(form.procdump_path.as_str());
    let dir = trimmed(form.dump_directory.as_str());
    let to = trimmed(form.to_address.as_str());
    cfg.proc_dump_path = pd;
    cfg.dump_directory = dir;
    cfg.email_enabled = form.email_enabled;
    cfg.to_address = to;
    cfg.webhook_enabled = form.webhook_enabled;
    cfg.auto_collect_on_dump = form.auto_collect;
}

/// A configuration the monitor page shows as it is: a task name that is
/// sanitised and, where it still follows the target, is the target's
/// automatic name; no scenario or a preset's; an offered dump type; a hang
/// window of 0 or 1; at least one dump; and paths and To list without
/// surrounding whitespace.
pub open spec fn settled_for_monitor_page(c: Config) -> bool {
    &&& sanitized_task_name(c.task_name@) == c.task_name@
    &&& (task_follows_target(c.task_name@, c.target_name@) ==> c.task_name@ == TASK_NAME_PREFIX@
        + c.target_name@)
    &&& (c.scenario@.len() == 0 || is_preset_name(c.scenario@))
    &&& is_dump_type_name(c.dump_type@)
    &&& (c.hang_window_seconds == 0 || c.hang_window_seconds == 1)
    &&& c.max_dumps >= 1
    &&& trim(c.proc_dump_path@) == c.proc_dump_path@
    &&& trim(c.dump_directory@) == c.dump_directory@
    &&& trim(c.to_address@) == c.to_address@
}

/// Saving the monitor page right after it was filled from a settled
/// configuration writes back every field as it was.
pub proof fn law_monitor_page_load_save(c: Config)
    requires
        settled_for_monitor_page(c),
    ensures
        ({
            let f = monitor_form_view(c);
            &&& task_name_text(f.task_name, c.target_name@, f.target_name) == c.task_name@
            &&& f.target_name == c.target_name@ && f.target_type == c.target_type
            &&& !target_changes(c, f.target_name, f.target_type)
            &&& saved_scenario(f.scenario) == c.scenario@
            &&& saved_dump_type(f.dump_type) == c.dump_type@
            &&& f.dump_on_exception == c.dump_on_exception
            &&& f.dump_on_terminate == c.dump_on_terminate
            &&& (if f.hang { 1i32 } else { 0i32 }) == c.hang_window_seconds
            &&& int_field_value(f.cpu_threshold) == c.cpu_threshold
            &&& int_field_value(f.cpu_low_threshold) == c.cpu_low_threshold
            &&& int_field_value(f.cpu_duration) == c.cpu_duration_seconds
            &&& saved_max_dumps(f.max_dumps) == c.max_dumps
            &&& int_field_value(f.memory_commit) == c.memory_commit_mb
            &&& trim(f.procdump_path) == c.proc_dump_path@
            &&& trim(f.dump_directory) == c.dump_directory@
            &&& f.email_enabled == c.email_enabled
            &&& trim(f.to_address) == c.to_address@
            &&& f.webhook_enabled == c.webhook_enabled
            &&& f.auto_collect == c.auto_collect_on_dump
        }),
{
    reveal_strlit("Custom");
    reveal_strlit("Crash capture");
    reveal_strlit("Hang capture");
    reveal_strlit("High CPU spike capture");
    reveal_strlit("Memory threshold capture");
    reveal_strlit("Low impact full dump");
    lemma_int_field_round_trip(c.cpu_threshold);
    lemma_int_field_round_trip(c.cpu_low_threshold);
    lemma_int_field_round_trip(c.cpu_duration_seconds);
    lemma_int_field_round_trip(c.max_dumps);
    lemma_int_field_round_trip(c.memory_commit_mb);
    assert(crate::text::ascii_lower_seq(c.target_name@) == crate::text::ascii_lower_seq(c.target_name@));
}

/// A number shown by the page reads back as itself.
pub proof fn lemma_int_field_round_trip(n: i32)
    ensures
        int_field_value(int_text(n as int)) == n,
{
    crate::num::lemma_int_text_unpadded(n as int);
    crate::num::law_i32_text_round_trip(n);
}


/// What the advanced dialog's controls hold. The retention cap is a
/// floating-point setting: the dialog's caller reads it and hands over its
/// bit pattern.
pub struct AdvancedForm {
    pub manual_target: String,
    pub use_clone: bool,
    pub avoid_outage: bool,
    pub overwrite_existing: bool,
    pub wait_for_process: bool,
    pub wer_integration: bool,
    pub cpu_per_unit: bool,
    pub restart_delay: String,
    pub min_free_disk: String,
    pub performance_counter: String,
    pub perf_counter_threshold: String,
    pub exception_filter_include: String,
    pub exception_filter_exclude: String,
    pub avoid_terminate_timeout: String,
    pub max_log_size: String,
    pub max_log_files: String,
    pub retention_days: String,
    pub stability_timeout: String,
}

fn long_string(n: i64) -> (r: String)
    ensures
        r@ == int_text(n as int),
{
    string_of(&crate::num::i64_text(n))
}

/// Fill the advanced dialog from a configuration and the target typed by
/// hand so far: the boxes as saved, every number as `Display` writes it,
/// the texts as saved.
pub fn advanced_form_of(cfg: &Config, manual_target: &str) -> (f: AdvancedForm)
    ensures
        f.manual_target@ == manual_target@,
        f.use_clone == cfg.use_clone,
        f.avoid_outage == cfg.avoid_outage,
        f.overwrite_existing == cfg.overwrite_existing,
        f.wait_for_process == cfg.wait_for_process,
        f.wer_integration == cfg.wer_integration,
        f.cpu_per_unit == cfg.cpu_per_unit,
        f.restart_delay@ == int_text(cfg.restart_delay_seconds as int),
        f.min_free_disk@ == int_text(cfg.min_free_disk_mb as int),
        f.performance_counter@ == cfg.performance_counter@,
        f.perf_counter_threshold@ == cfg.perf_counter_threshold@,
        f.exception_filter_include@ == cfg.exception_filter_include@,
        f.exception_filter_exclude@ == cfg.exception_filter_exclude@,
        f.avoid_terminate_timeout@ == int_text(cfg.avoid_terminate_timeout as int),
        f.max_log_size@ == int_text(cfg.max_log_size_mb as int),
        f.max_log_files@ == int_text(cfg.max_log_files as int),
        f.retention_days@ == int_text(cfg.dump_retention_days as int),
        f.stability_timeout@ == int_text(cfg.dump_stability_timeout_seconds as int),
{
    AdvancedForm {
        manual_target: String::from_str(manual_target),
        use_clone: cfg.use_clone,
        avoid_outage: cfg.avoid_outage,
        overwrite_existing: cfg.overwrite_existing,
        wait_for_process: cfg.wait_for_process,
        wer_integration: cfg.wer_integration,
        cpu_per_unit: cfg.cpu_per_unit,
        restart_delay: int_string(cfg.restart_delay_seconds),
        min_free_disk: long_string(cfg.min_free_disk_mb),
        performance_counter: cfg.performance_counter.clone(),
        perf_counter_threshold: cfg.perf_counter_threshold.clone(),
        exception_filter_include: cfg.exception_filter_include.clone(),
        exception_filter_exclude: cfg.exception_filter_exclude.clone(),
        avoid_terminate_timeout: int_string(cfg.avoid_terminate_timeout),
        max_log_size: int_string(cfg.max_log_size_mb),
        max_log_files: int_string(cfg.max_log_files),
        retention_days: int_string(cfg.dump_retention_days),
        stability_timeout: int_string(cfg.dump_stability_timeout_seconds),
    }
}

/// Save the advanced dialog into `cfg` (`retention_gb_bits` is the
/// retention cap as read by the caller); answers the target typed by hand,
/// trimmed. Numbers read as [`int_field`] (the free-space floor as
/// [`long_field`]); the counter and filter texts are kept as typed.
#[verifier::rlimit(100)]
#[verifier::spinoff_prover]
pub fn apply_advanced_form(cfg: &mut Config, form: &AdvancedForm, retention_gb_bits: u64) -> (manual: String)
    ensures
        manual@ == trim(form.manual_target@),
        final(cfg).use_clone == form.use_clone,
        final(cfg).avoid_outage == form.avoid_outage,
        final(cfg).overwrite_existing == form.overwrite_existing,
        final(cfg).wait_for_process == form.wait_for_process,
        final(cfg).wer_integration == form.wer_integration,
        final(cfg).cpu_per_unit == form.cpu_per_unit,
        final(cfg).restart_delay_seconds == int_field_value(form.restart_delay@),
        final(cfg).min_free_disk_mb == long_field_value(form.min_free_disk@),
        final(cfg).performance_counter@ == form.performance_counter@,
        final(cfg).perf_counter_threshold@ == form.perf_counter_threshold@,
        final(cfg).exception_filter_include@ == form.exception_filter_include@,
        final(cfg).exception_filter_exclude@ == form.exception_filter_exclude@,
        final(cfg).avoid_terminate_timeout == int_field_value(form.avoid_terminate_timeout@),
        final(cfg).max_log_size_mb == int_field_value(form.max_log_size@),
        final(cfg).max_log_files == int_field_value(form.max_log_files@),
        final(cfg).dump_retention_days == int_field_value(form.retention_days@),
        final(cfg).dump_retention_max_gb_bits == retention_gb_bits,
        final(cfg).dump_stability_timeout_seconds == int_field_value(form.stability_timeout@),
        *final(cfg) == (Config {
            use_clone: final(cfg).use_clone,
            avoid_outage: final(cfg).avoid_outage,
            overwrite_existing: final(cfg).overwrite_existing,
            wait_for_process: final(cfg).wait_for_process,
            wer_integration: final(cfg).wer_integration,
            cpu_per_unit: final(cfg).cpu_per_unit,
            restart_delay_seconds: final(cfg).restart_delay_seconds,
            min_free_disk_mb: final(cfg).min_free_disk_mb,
            performance_counter: final(cfg).performance_counter,
            perf_counter_threshold: final(cfg).perf_counter_threshold,
            exception_filter_include: final(cfg).exception_filter_include,
            exception_filter_exclude: final(cfg).exception_filter_exclude,
            avoid_terminate_timeout: final(cfg).avoid_terminate_timeout,
            max_log_size_mb: final(cfg).max_log_size_mb,
            max_log_files: final(cfg).max_log_files,
            dump_retention_days: final(cfg).dump_retention_days,
            dump_retention_max_gb_bits: final(cfg).dump_retention_max_gb_bits,
            dump_stability_timeout_seconds: final(cfg).dump_stability_timeout_seconds,
            ..*old(cfg)
        }),
{
    let restart = int_field(form.restart_delay.as_str());
    let min_free = long_field(form.min_free_disk.as_str());
    let avoid_term = int_field(form.avoid_terminate_timeout.as_str());
    let log_size = int_field(form.max_log_size.as_str());
    let log_files = int_field(form.max_log_files.as_str());
    let days = int_field(form.retention_days.as_str());
    let stab = int_field(form.stability_timeout.as_str());
    let manual = trimmed(form.manual_target.as_str());
    cfg.use_clone = form.use_clone;
    cfg.avoid_outage = form.avoid_outage;
    cfg.overwrite_existing = form.overwrite_existing;
    cfg.wait_for_process = form.wait_for_process;
    cfg.wer_integration = form.wer_integration;
    cfg.cpu_per_unit = form.cpu_per_unit;
    cfg.restart_delay_seconds = restart;
    cfg.min_free_disk_mb = min_free;
    cfg.performance_counter = form.performance_counter.clone();
    cfg.perf_counter_threshold = form.perf_counter_threshold.clone();
    cfg.exception_filter_include = form.exception_filter_include.clone();
    cfg.exception_filter_exclude = form.exception_filter_exclude.clone();
    cfg.avoid_terminate_timeout = avoid_term;
    cfg.max_log_size_mb = log_size;
    cfg.max_log_files = log_files;
    cfg.dump_retention_days = days;
    cfg.dump_retention_max_gb_bits = retention_gb_bits;
    cfg.dump_stability_timeout_seconds = stab;
    manual
}

/// Saving the advanced dialog right after it was filled writes back every
/// number it shows.
pub proof fn law_advanced_dialog_load_save(c: Config)
    ensures
        int_field_value(int_text(c.restart_delay_seconds as int)) == c.restart_delay_seconds,
        long_field_value(int_text(c.min_free_disk_mb as int)) == c.min_free_disk_mb,
        int_field_value(int_text(c.avoid_terminate_timeout as int)) == c.avoid_terminate_timeout,
        int_field_value(int_text(c.max_log_size_mb as int)) == c.max_log_size_mb,
        int_field_value(int_text(c.max_log_files as int)) == c.max_log_files,
        int_field_value(int_text(c.dump_retention_days as int)) == c.dump_retention_days,
        int_field_value(int_text(c.dump_stability_timeout_seconds as int)) == c.dump_stability_timeout_seconds,
{
    lemma_int_field_round_trip(c.restart_delay_seconds);
    lemma_int_field_round_trip(c.avoid_terminate_timeout);
    lemma_int_field_round_trip(c.max_log_size_mb);
    lemma_int_field_round_trip(c.max_log_files);
    lemma_int_field_round_trip(c.dump_retention_days);
    lemma_int_field_round_trip(c.dump_stability_timeout_seconds);
    crate::num::lemma_int_text_unpadded(c.min_free_disk_mb as int);
    crate::num::law_i64_text_round_trip(c.min_free_disk_mb);
}

/// What the SMTP dialog's controls hold (the password is handled by the
/// caller, which protects a freshly typed one).
pub struct SmtpForm {
    pub server: String,
    pub port: String,
    pub use_ssl: bool,
    pub from_address: String,
    pub cc_address: String,
    pub username: String,
}

/// Fill the SMTP dialog from a configuration.
pub fn smtp_form_of(cfg: &Config) -> (f: SmtpForm)
    ensures
        f.server@ == cfg.smtp_server@,
        f.port@ == crate::num::digits(cfg.smtp_port as nat),
        f.use_ssl == cfg.use_ssl,
        f.from_address@ == cfg.from_address@,
        f.cc_address@ == cfg.cc_address@,
        f.username@ == cfg.smtp_username@,
{
    SmtpForm {
        server: cfg.smtp_server.clone(),
        port: string_of(&crate::num::u64_text(cfg.smtp_port as u64)),
        use_ssl: cfg.use_ssl,
        from_address: cfg.from_address.clone(),
        cc_address: cfg.cc_address.clone(),
        username: cfg.smtp_username.clone(),
    }
}

/// Save the SMTP dialog into `cfg`: the texts trimmed, the port read as
/// [`port_field`], and the password blob replaced only when a new one is
/// given (a password was typed and protected).
pub fn apply_smtp_form(cfg: &mut Config, form: &SmtpForm, new_password_blob: Option<String>)
    ensures
        final(cfg).smtp_server@ == trim(form.server@),
        final(cfg).smtp_port == port_field_value(form.port@),
        final(cfg).use_ssl == form.use_ssl,
        final(cfg).from_address@ == trim(form.from_address@),
        final(cfg).cc_address@ == trim(form.cc_address@),
        final(cfg).smtp_username@ == trim(form.username@),
        final(cfg).encrypted_password_blob@ == match new_password_blob {
            Some(b) => b@,
            None => old(cfg).encrypted_password_blob@,
        },
        *final(cfg) == (Config {
            smtp_server: final(cfg).smtp_server,
            smtp_port: final(cfg).smtp_port,
            use_ssl: final(cfg).use_ssl,
            from_address: final(cfg).from_address,
            cc_address: final(cfg).cc_address,
            smtp_username: final(cfg).smtp_username,
            encrypted_password_blob: final(cfg).encrypted_password_blob,
            ..*old(cfg)
        }),
{
    let server = trimmed(form.server.as_str());
    let port = port_field(form.port.as_str());
    let from = trimmed(form.from_address.as_str());
    let cc = trimmed(form.cc_address.as_str());
    let user = trimmed(form.username.as_str());
    cfg.smtp_server = server;
    cfg.smtp_port = port;
    cfg.use_ssl = form.use_ssl;
    cfg.from_address = from;
    cfg.cc_address = cc;
    cfg.smtp_username = user;
    match new_password_blob {
        Some(b) => {
            cfg.encrypted_password_blob = b;
        },
        None => {},
    }
}

/// The port the SMTP dialog shows reads back as itself.
pub proof fn law_smtp_port_load_save(port: u16)
    ensures
        port_field_value(crate::num::digits(port as nat)) == port,
{
    crate::num::lemma_int_text_unpadded(port as int);
    crate::num::law_u16_text_round_trip(port);
}

/// Every address of a list holds an `@`.
pub open spec fn all_have_at(ads: Seq<Seq<char>>) -> bool {
    forall|i: int| 0 <= i < ads.len() ==> (#[trigger] ads[i]).contains('@')
}

/// E-mail settings are usable for installing: e-mail is off, or there is a
/// sender, at least one To address, and every To and Cc address holds `@`.
pub open spec fn notify_settings_complete(c: Config) -> bool {
    let to = crate::notify::address_list(crate::text::split(c.to_address@, ';'));
    let cc = crate::notify::address_list(crate::text::split(c.cc_address@, ';'));
    !c.email_enabled || (c.from_address@.len() > 0 && to.len() > 0 && all_have_at(to) && all_have_at(cc))
}

fn all_contain_at(ads: &Vec<String>) -> (r: bool)
    ensures
        r == all_have_at(crate::text::string_views(ads@)),
{
    let ghost v = crate::text::string_views(ads@);
    let mut i: usize = 0;
    while i < ads.len()
        invariant
            i <= ads@.len(),
            v == crate::text::string_views(ads@),
            forall|k: int| 0 <= k < i ==> (#[trigger] v[k]).contains('@'),
        decreases ads.len() - i,
    {
        let cs = chars_of(ads[i].as_str());
        let mut j: usize = 0;
        let mut found = false;
        while j < cs.len()
            invariant
                j <= cs@.len(),
                cs@ == v[i as int],
                found == (exists|k: int| 0 <= k < j && cs@[k] == '@'),
            decreases cs.len() - j,
        {
            if cs[j] == '@' {
                found = true;
            }
            j = j + 1;
        }
        if !found {
            assert(!v[i as int].contains('@'));
            return false;
        }
        i = i + 1;
    }
    true
}

pub fn notify_settings_ok(cfg: &Config) -> (r: bool)
    ensures
        r == notify_settings_complete(*cfg),
{
    if !cfg.email_enabled {
        return true;
    }
    let to = crate::notify::split_addresses(cfg.to_address.as_str());
    let cc = crate::notify::split_addresses(cfg.cc_address.as_str());
    let from_set = chars_of(cfg.from_address.as_str()).len() > 0;
    from_set && to.len() > 0 && all_contain_at(&to) && all_contain_at(&cc)
}

} // verus!
