//! The live status rows of the monitor page: the scheduled task, the
//! monitor's heartbeat, the dumps, and the last error.

use vstd::prelude::*;
use crate::health::HealthStatus;
use crate::num::{digits, int_text};
use crate::text::{extend_chars, extend_str, string_of};

verus! {

/// The colour a status row is shown in.
#[derive(Debug, Clone, Copy, PartialEq, Eq, Structural)]
pub enum StatusTone {
    Good,
    Muted,
    Warn,
    Bad,
}

/// A status row: its text, and its colour (`None` keeps the current one).
#[derive(Debug, Clone)]
pub struct StatusRow {
    pub text: String,
    pub tone: Option<StatusTone>,
}

pub const NO_TASK_TEXT: &'static str = "\u{25CB} No scheduled task installed yet \u{2014} click Create Task";

pub const NO_HEALTH_TEXT: &'static str = "\u{25CB} Monitor has not run yet (no health.json)";

/// A heartbeat at most this many seconds old means the monitor is running.
pub const HEARTBEAT_FRESH_SECS: i64 = 60;

/// The task row: the task and its state when it is installed, else a
/// prompt to create it.
pub open spec fn task_row_text(task_name: Seq<char>, exists: bool, state: Seq<char>) -> Seq<char> {
    if task_name.len() > 0 && exists {
        "\u{2713} Scheduled task \""@ + task_name + "\" \u{2014} "@ + state
    } else {
        NO_TASK_TEXT@
    }
}

/// `exists` is what the task query answered for `task_name` (the query is
/// only made for a non-empty name); `state` is the state it reported.
pub fn task_row(task_name: &str, exists: bool, state: &str) -> (r: StatusRow)
    ensures
        r.text@ == task_row_text(task_name@, exists, state@),
        r.tone == Some(if task_name@.len() > 0 && exists { StatusTone::Good } else { StatusTone::Muted }),
{
    let installed = crate::text::chars_of(task_name).len() > 0 && exists;
    if installed {
        let mut t: Vec<char> = Vec::new();
        extend_str(&mut t, "\u{2713} Scheduled task \"");
        extend_str(&mut t, task_name);
        extend_str(&mut t, "\" \u{2014} ");
        extend_str(&mut t, state);
        StatusRow { text: string_of(&t), tone: Some(StatusTone::Good) }
    } else {
        StatusRow { text: String::from_str(NO_TASK_TEXT), tone: Some(StatusTone::Muted) }
    }
}

/// The heartbeat is fresh: between 0 and 60 seconds old.
pub open spec fn heartbeat_fresh(age: Option<i64>) -> bool {
    match age {
        Some(a) => 0 <= a <= HEARTBEAT_FRESH_SECS,
        None => false,
    }
}

/// The monitor row from the health record and the age of its last
/// heartbeat in seconds (`None` when the time cannot be read).
pub open spec fn monitor_row_text(h: HealthStatus, age: Option<i64>) -> Seq<char> {
    match age {
        Some(a) => if heartbeat_fresh(age) {
            "\u{25CF} Monitor running (PID "@ + digits(h.monitor_pid as nat) + ") \u{2014} heartbeat "@
                + int_text(a as int) + "s ago \u{2014} "@ + if h.proc_dump_pid != 0 {
                "ProcDump attached (PID "@ + digits(h.proc_dump_pid as nat) + ")"@
            } else {
                "ProcDump not attached yet"@
            }
        } else {
            stopped_text(h.last_cycle_utc@)
        },
        None => stopped_text(h.last_cycle_utc@),
    }
}

pub open spec fn stopped_text(last_cycle: Seq<char>) -> Seq<char> {
    "\u{25CB} Monitor not running \u{2014} last heartbeat "@ + if last_cycle.len() == 0 {
        "never"@
    } else {
        last_cycle
    }
}

pub fn monitor_row(h: &HealthStatus, age: Option<i64>) -> (r: StatusRow)
    ensures
        r.text@ == monitor_row_text(*h, age),
        r.tone == Some(if heartbeat_fresh(age) { StatusTone::Good } else { StatusTone::Muted }),
{
    let mut t: Vec<char> = Vec::new();
    let fresh = match age {
        Some(a) => 0 <= a && a <= HEARTBEAT_FRESH_SECS,
        None => false,
    };
    if fresh {
        let a = match age {
            Some(a) => a,
            None => 0,
        };
        extend_str(&mut t, "\u{25CF} Monitor running (PID ");
        extend_chars(&mut t, &crate::num::u64_text(h.monitor_pid as u64));
        extend_str(&mut t, ") \u{2014} heartbeat ");
        extend_chars(&mut t, &crate::num::i64_text(a));
        extend_str(&mut t, "s ago \u{2014} ");
        if h.proc_dump_pid != 0 {
            extend_str(&mut t, "ProcDump attached (PID ");
            extend_chars(&mut t, &crate::num::u64_text(h.proc_dump_pid as u64));
            extend_str(&mut t, ")");
        } else {
            extend_str(&mut t, "ProcDump not attached yet");
        }
        StatusRow { text: string_of(&t), tone: Some(StatusTone::Good) }
    } else {
        extend_str(&mut t, "\u{25CB} Monitor not running \u{2014} last heartbeat ");
        if crate::text::chars_of(h.last_cycle_utc.as_str()).len() == 0 {
            extend_str(&mut t, "never");
        } else {
            extend_str(&mut t, h.last_cycle_utc.as_str());
        }
        StatusRow { text: string_of(&t), tone: Some(StatusTone::Muted) }
    }
}

/// The monitor row for the heartbeat in `h`, its age being the whole seconds
/// from `last_cycle_utc` to now (none when that is not an RFC 3339 time).
pub fn monitor_status_row(h: &HealthStatus) -> (r: StatusRow)
    ensures
        exists|age: Option<i64>|
            (age is Some <==> crate::clock::rfc3339_parses(h.last_cycle_utc@)) && r.text@ == monitor_row_text(
                *h,
                age,
            ) && r.tone == Some(if heartbeat_fresh(age) { StatusTone::Good } else { StatusTone::Muted }),
{
    let age = crate::clock::seconds_since_rfc3339(h.last_cycle_utc.as_str());
    monitor_row(h, age)
}

/// The dumps row: how many were captured, the latest one, and the free
/// space (`free_gb` is the free space in gigabytes as one-decimal text,
/// shown when the record has a positive free space).
pub open spec fn dumps_row_text(h: HealthStatus, free_gb: Seq<char>) -> Seq<char> {
    int_text(h.total_dump_count as int) + " dump(s) captured"@ + (if h.last_dump_file_name@.len() == 0 {
        Seq::empty()
    } else {
        " \u{2014} latest: "@ + h.last_dump_file_name@
    }) + (if h.free_disk_mb > 0 {
        " \u{2014} "@ + free_gb + " GB free"@
    } else {
        Seq::empty()
    })
}

pub fn dumps_row(h: &HealthStatus, free_gb: &str) -> (r: StatusRow)
    ensures
        r.text@ == dumps_row_text(*h, free_gb@),
        r.tone == Some(if h.disk_space_low { StatusTone::Warn } else { StatusTone::Muted }),
{
    let mut t: Vec<char> = Vec::new();
    extend_chars(&mut t, &crate::num::i32_text(h.total_dump_count));
    extend_str(&mut t, " dump(s) captured");
    if crate::text::chars_of(h.last_dump_file_name.as_str()).len() > 0 {
        extend_str(&mut t, " \u{2014} latest: ");
        extend_str(&mut t, h.last_dump_file_name.as_str());
    }
    if h.free_disk_mb > 0 {
        extend_str(&mut t, " \u{2014} ");
        extend_str(&mut t, free_gb);
        extend_str(&mut t, " GB free");
    }
    let tone = if h.disk_space_low { StatusTone::Warn } else { StatusTone::Muted };
    StatusRow { text: string_of(&t), tone: Some(tone) }
}

/// The dumps row before the monitor has ever run: the `.dmp` files found in
/// the dump folder.
pub fn folder_dumps_row(count: usize) -> (r: StatusRow)
    ensures
        r.text@ == digits(count as nat) + " dump(s) in the dump folder"@,
        r.tone == Some(StatusTone::Muted),
{
    let mut t: Vec<char> = Vec::new();
    extend_chars(&mut t, &crate::num::u64_text(count as u64));
    extend_str(&mut t, " dump(s) in the dump folder");
    StatusRow { text: string_of(&t), tone: Some(StatusTone::Muted) }
}

/// The monitor row before the monitor has ever run.
pub fn no_health_row() -> (r: StatusRow)
    ensures
        r.text@ == NO_HEALTH_TEXT@,
        r.tone == Some(StatusTone::Muted),
{
    StatusRow { text: String::from_str(NO_HEALTH_TEXT), tone: Some(StatusTone::Muted) }
}

/// The alert row: the failure of the last action wins, then the monitor's
/// last error (`""` when there is none or no health record); blank, with the
/// colour kept, when neither is there.
pub open spec fn alert_row_text(action_error: Option<Seq<char>>, last_error: Seq<char>) -> Seq<char> {
    match action_error {
        Some(e) => "\u{2715} "@ + e,
        None => if last_error.len() > 0 { "\u{26A0} Monitor: "@ + last_error } else { Seq::empty() },
    }
}

pub fn alert_row(action_error: Option<&str>, last_error: &str) -> (r: StatusRow)
    ensures
        r.text@ == alert_row_text(
            match action_error {
                Some(e) => Some(e@),
                None => None,
            },
            last_error@,
        ),
        r.tone == match action_error {
            Some(_) => Some(StatusTone::Bad),
            None => if last_error@.len() > 0 { Some(StatusTone::Warn) } else { None },
        },
{
    let mut t: Vec<char> = Vec::new();
    match action_error {
        Some(e) => {
            extend_str(&mut t, "\u{2715} ");
            extend_str(&mut t, e);
            StatusRow { text: string_of(&t), tone: Some(StatusTone::Bad) }
        },
        None => {
            if crate::text::chars_of(last_error).len() > 0 {
                extend_str(&mut t, "\u{26A0} Monitor: ");
                extend_str(&mut t, last_error);
                StatusRow { text: string_of(&t), tone: Some(StatusTone::Warn) }
            } else {
                StatusRow { text: String::new(), tone: None }
            }
        },
    }
}

} // verus!
