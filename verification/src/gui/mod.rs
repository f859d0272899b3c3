//! What the setup wizard shows: target choices, the bitness line, the
//! review summary, and where a collection goes.

use vstd::prelude::*;
use crate::bitness::{Bitness, BinaryChoice, BinaryChoiceView};
use crate::config::{Config, TargetType};
use crate::procdump::{build_args, spec_build_args};
use crate::text::{chars_of, extend_chars, extend_str, string_of, trim, trim_vec};

pub mod collectors;
pub mod forms;
pub mod runner;
pub mod status;
pub mod targets;

verus! {

/// One entry of the combined process / service target list.
#[derive(Debug, Clone)]
pub struct TargetEntry {
    pub name: String,
    pub is_service: bool,
}

/// Where a collection goes: the trimmed text, or `default_base` (the
/// Desktop) when it is blank.
pub fn resolve_base(text: &str, default_base: &str) -> (r: String)
    ensures
        r@ == (if trim(text@).len() == 0 { default_base@ } else { trim(text@) }),
{
    let t = trim_vec(&chars_of(text));
    if t.len() == 0 {
        String::from_str(default_base)
    } else {
        string_of(&t)
    }
}

/// The bitness line of the monitor page: the summary with the warning when
/// there is one; for an Unknown target a request to check by hand (the
/// summary keeps the word "Unknown"); else the summary with its source.
pub open spec fn bitness_label_text(b: Bitness, source: Seq<char>, choice: BinaryChoiceView) -> Seq<char> {
    match choice.warning {
        Some(w) => choice.summary + " - "@ + w,
        None => if b == Bitness::Unknown {
            choice.summary + " - could not determine target bitness; verify manually."@
        } else {
            choice.summary + " (via "@ + source + ")"@
        },
    }
}

pub fn bitness_label(b: Bitness, source: &str, choice: &BinaryChoice) -> (r: String)
    ensures
        r@ == bitness_label_text(b, source@, choice@),
{
    let mut t: Vec<char> = Vec::new();
    extend_str(&mut t, choice.summary.as_str());
    match &choice.warning {
        Some(w) => {
            extend_str(&mut t, " - ");
            extend_str(&mut t, w.as_str());
        },
        None => {
            if b == Bitness::Unknown {
                extend_str(&mut t, " - could not determine target bitness; verify manually.");
            } else {
                extend_str(&mut t, " (via ");
                extend_str(&mut t, source);
                extend_str(&mut t, ")");
            }
        },
    }
    string_of(&t)
}

/// The review page's summary of a configuration; `retention_gb` is the
/// retention cap in gigabytes as text.
pub open spec fn summary_text(c: Config, retention_gb: Seq<char>) -> Seq<char> {
    "Target: "@ + c.target_name@ + " ("@ + (if c.target_type == TargetType::Process { "Process"@ } else { "Service"@ })
        + ")\r\nScenario: "@ + (if c.scenario@.len() == 0 { "Custom"@ } else { c.scenario@ }) + "\r\nEffective args: "@
        + spec_build_args(c) + "\r\nDump directory: "@ + c.dump_directory@ + "\r\nTask name: "@ + c.task_name@
        + "\r\nEmail: "@ + (if c.email_enabled { "On -> "@ + c.to_address@ } else { "Off"@ }) + "\r\nWebhook: "@
        + (if c.webhook_enabled { "On"@ } else { "Off"@ }) + "\r\nRetention: "@ + crate::num::int_text(
        c.dump_retention_days as int,
    ) + " day(s), "@ + retention_gb + " GB max"@
}

pub fn build_summary(cfg: &Config, retention_gb: &str) -> (r: String)
    ensures
        r@ == summary_text(*cfg, retention_gb@),
{
    let mut t: Vec<char> = Vec::new();
    extend_str(&mut t, "Target: ");
    extend_str(&mut t, cfg.target_name.as_str());
    extend_str(&mut t, " (");
    match cfg.target_type {
        TargetType::Process => extend_str(&mut t, "Process"),
        TargetType::Service => extend_str(&mut t, "Service"),
    }
    extend_str(&mut t, ")\r\nScenario: ");
    if chars_of(cfg.scenario.as_str()).len() == 0 {
        extend_str(&mut t, "Custom");
    } else {
        extend_str(&mut t, cfg.scenario.as_str());
    }
    extend_str(&mut t, "\r\nEffective args: ");
    let args = build_args(cfg);
    extend_str(&mut t, args.as_str());
    extend_str(&mut t, "\r\nDump directory: ");
    extend_str(&mut t, cfg.dump_directory.as_str());
    extend_str(&mut t, "\r\nTask name: ");
    extend_str(&mut t, cfg.task_name.as_str());
    extend_str(&mut t, "\r\nEmail: ");
    if cfg.email_enabled {
        extend_str(&mut t, "On -> ");
        extend_str(&mut t, cfg.to_address.as_str());
    } else {
        extend_str(&mut t, "Off");
    }
    extend_str(&mut t, "\r\nWebhook: ");
    if cfg.webhook_enabled {
        extend_str(&mut t, "On");
    } else {
        extend_str(&mut t, "Off");
    }
    extend_str(&mut t, "\r\nRetention: ");
    extend_chars(&mut t, &crate::num::i32_text(cfg.dump_retention_days));
    extend_str(&mut t, " day(s), ");
    extend_str(&mut t, retention_gb);
    extend_str(&mut t, " GB max");
    assert(t@ =~= summary_text(*cfg, retention_gb@));
    string_of(&t)
}


/// A colour as Windows stores it (`COLORREF`, `0x00BBGGRR`): red in the low
/// byte, then green, then blue.
pub fn colorref(c: [u8; 3]) -> (r: u32)
    ensures
        r == c@[0] as int + c@[1] as int * 256 + c@[2] as int * 65536,
{
    (c[0] as u32) + (c[1] as u32) * 256 + (c[2] as u32) * 65536
}

} // verus!
