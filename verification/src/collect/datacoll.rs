//! Data Collection workflow: application and web log components, plus the
//! optional extras (system information, installed software, event logs,
//! install history, bulk updates, SWHSystem settings, the monitor's bundle).

use vstd::prelude::*;
use crate::text::{extend_chars, extend_str, string_of};
use crate::winpath::{join, join_path};

verus! {

/// What a Data Collection run gathers.
#[derive(Debug, Clone)]
pub struct Options {
    /// (display name, candidate paths) for each checked log component.
    pub components: Vec<(String, Vec<String>)>,
    pub system_info: bool,
    pub installed_apps: bool,
    pub installed_updates: bool,
    pub event_logs: bool,
    /// false = the last 7 days, true = full export.
    pub event_logs_full: bool,
    pub install_history: bool,
    pub bulk_updates: bool,
    pub swh_settings: bool,
    /// The monitor's own logs, dumps, configuration and task state.
    pub pdm_bundle: Option<crate::collect::pdm_bundle::Options>,
}

impl Default for Options {
    fn default() -> (o: Options)
        ensures
            o.components@.len() == 0,
            o.system_info && o.installed_apps && o.installed_updates && o.event_logs,
            !o.event_logs_full,
            o.install_history && !o.bulk_updates && o.swh_settings,
            o.pdm_bundle is None,
    {
        Options {
            components: Vec::new(),
            system_info: true,
            installed_apps: true,
            installed_updates: true,
            event_logs: true,
            event_logs_full: false,
            install_history: true,
            bulk_updates: false,
            swh_settings: true,
            pdm_bundle: None,
        }
    }
}

/// Days of event log to export: everything for a full export, else a week.
pub fn event_log_days(full: bool) -> (r: Option<u32>)
    ensures
        r == (if full { None } else { Some(7u32) }),
{
    if full { None } else { Some(7) }
}

/// The summary line of the event-log export.
pub fn event_log_summary(full: bool) -> (r: String)
    ensures
        r@ == "Event logs: Application + System ("@ + (if full { "full"@ } else { "last 7 days"@ }) + ")"@,
{
    let mut t: Vec<char> = Vec::new();
    extend_str(&mut t, "Event logs: Application + System (");
    if full {
        extend_str(&mut t, "full");
    } else {
        extend_str(&mut t, "last 7 days");
    }
    extend_str(&mut t, ")");
    string_of(&t)
}

/// The summary line of the log components: how many of them were captured.
pub fn component_summary(copied: usize, total: usize) -> (r: String)
    ensures
        r@ == "Data Collection: "@ + crate::num::digits(copied as nat) + "/"@ + crate::num::digits(total as nat)
            + " log components captured"@,
{
    let mut t: Vec<char> = Vec::new();
    extend_str(&mut t, "Data Collection: ");
    extend_chars(&mut t, &crate::num::u64_text(copied as u64));
    extend_str(&mut t, "/");
    extend_chars(&mut t, &crate::num::u64_text(total as u64));
    extend_str(&mut t, " log components captured");
    string_of(&t)
}

/// Where a component's logs are copied: `<staging>\Logs\<safe name>`.
pub fn component_dest(staging: &str, name: &str) -> (r: String)
    ensures
        r@ == join(join(staging@, "Logs"@), crate::collect::safe_name_of(name@)),
{
    let logs = join_path(staging, "Logs");
    let safe = crate::collect::safe_name(name);
    join_path(logs.as_str(), safe.as_str())
}

/// The install location is looked up when bulk updates or SWHSystem
/// settings are wanted, or any log component is.
pub fn needs_install_location(opts: &Options) -> (r: bool)
    ensures
        r == (opts.bulk_updates || opts.swh_settings || opts.components@.len() > 0),
{
    opts.bulk_updates || opts.swh_settings || opts.components.len() > 0
}

/// The name the `i`-th SWHSystem settings file is copied under.
pub fn dashboard_copy_name(i: usize) -> (r: String)
    ensures
        r@ == "Dashboard.exe.config."@ + crate::num::digits(i as nat),
{
    let mut t: Vec<char> = Vec::new();
    extend_str(&mut t, "Dashboard.exe.config.");
    extend_chars(&mut t, &crate::num::u64_text(i as u64));
    string_of(&t)
}

} // verus!
