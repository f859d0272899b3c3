//! The monitor's own support bundle: its logs, health record, redacted
//! configuration, task state and the newest dumps up to a byte cap.

use vstd::prelude::*;
use crate::text::{extend_chars, extend_str, string_of};

verus! {

/// Where the bundle's pieces come from.
#[derive(Debug, Clone)]
pub struct Options {
    pub log_dir: String,
    pub health_path: String,
    pub config_path: String,
    /// Already-sanitised scheduled task name ("" skips the task query).
    pub task_name: String,
    pub dump_dir: String,
    /// Total byte cap for copied dump files (newest first, always at least one).
    pub max_dump_bytes: u64,
}

/// 2 GiB.
pub const DEFAULT_MAX_DUMP_BYTES: u64 = 2147483648;

/// `a + b`, saturating at `u64::MAX`.
pub open spec fn sat_add(a: u64, b: u64) -> u64 {
    if a + b > u64::MAX { u64::MAX } else { (a + b) as u64 }
}

/// Running total of the first `n` sizes (saturating).
pub open spec fn sat_sum(sizes: Seq<u64>, n: int) -> u64
    decreases n,
{
    if n <= 0 {
        0
    } else {
        sat_add(sat_sum(sizes, n - 1), sizes[n - 1])
    }
}

/// How many of the newest-first dumps are copied, scanning from `n` taken:
/// the next one is taken when nothing is taken yet or it still fits under
/// the cap, and the scan stops once the total passes the cap.
pub open spec fn pick_from(sizes: Seq<u64>, cap: u64, n: int) -> int
    decreases sizes.len() - n,
{
    if n < 0 || n >= sizes.len() {
        n
    } else if n > 0 && sat_add(sat_sum(sizes, n), sizes[n]) > cap {
        n
    } else if sat_add(sat_sum(sizes, n), sizes[n]) > cap {
        n + 1
    } else {
        pick_from(sizes, cap, n + 1)
    }
}

/// How many of the newest-first dumps fit the byte cap: always the newest
/// one, even if it alone exceeds the cap.
pub fn pick_dumps_within_cap(sizes: &[u64], cap: u64) -> (n: usize)
    ensures
        n == pick_from(sizes@, cap, 0),
{
    let mut total: u64 = 0;
    let mut n: usize = 0;
    let mut done = false;
    while !done && n < sizes.len()
        invariant
            n <= sizes@.len(),
            total == sat_sum(sizes@, n as int),
            done ==> pick_from(sizes@, cap, 0) == n,
            !done ==> pick_from(sizes@, cap, 0) == pick_from(sizes@, cap, n as int),
        decreases sizes.len() - n, if done { 0int } else { 1int },
    {
        let s = sizes[n];
        let next = total.saturating_add(s);
        if n > 0 && next > cap {
            done = true;
        } else {
            total = next;
            n = n + 1;
            if total > cap {
                done = true;
            }
        }
    }
    n
}

proof fn lemma_pick_bounds(sizes: Seq<u64>, cap: u64, n: int)
    requires
        0 <= n <= sizes.len(),
        n == 0 || sat_sum(sizes, n) <= cap,
    ensures
        n <= pick_from(sizes, cap, n) <= sizes.len(),
        sizes.len() > 0 ==> pick_from(sizes, cap, n) >= 1,
        pick_from(sizes, cap, n) >= 2 ==> sat_sum(sizes, pick_from(sizes, cap, n)) <= cap,
        pick_from(sizes, cap, n) < sizes.len() ==> sat_sum(sizes, pick_from(sizes, cap, n) + 1) > cap,
    decreases sizes.len() - n,
{
    if n < sizes.len() {
        if n > 0 && sat_add(sat_sum(sizes, n), sizes[n]) > cap {
            assert(sat_sum(sizes, n + 1) == sat_add(sat_sum(sizes, n), sizes[n]));
        } else if sat_add(sat_sum(sizes, n), sizes[n]) > cap {
            assert(n == 0);
            assert(sat_sum(sizes, 1) == sat_add(sat_sum(sizes, 0), sizes[0]));
            assert(sat_sum(sizes, 2) == sat_add(sat_sum(sizes, 1), sizes[1]));
        } else {
            lemma_pick_bounds(sizes, cap, n + 1);
        }
    }
}

/// The newest dump is always copied; more are copied only while their total
/// stays within the cap, and never more than there are; the scan stops only
/// where one more dump would pass the cap.
pub proof fn law_dump_cap(sizes: Seq<u64>, cap: u64)
    ensures
        pick_from(sizes, cap, 0) <= sizes.len(),
        sizes.len() > 0 ==> pick_from(sizes, cap, 0) >= 1,
        pick_from(sizes, cap, 0) >= 2 ==> sat_sum(sizes, pick_from(sizes, cap, 0)) <= cap,
        pick_from(sizes, cap, 0) < sizes.len() ==> sat_sum(sizes, pick_from(sizes, cap, 0) + 1) > cap,
{
    lemma_pick_bounds(sizes, cap, 0);
}

/// The bundle's summary line: `n` of `total` dumps copied.
pub fn pdm_summary_line(n: usize, total: usize) -> (r: String)
    ensures
        r@ == "PDM bundle: logs, health, config (redacted), task state, "@ + crate::num::digits(n as nat)
            + "/"@ + crate::num::digits(total as nat) + " dumps"@,
{
    let mut t: Vec<char> = Vec::new();
    extend_str(&mut t, "PDM bundle: logs, health, config (redacted), task state, ");
    extend_chars(&mut t, &crate::num::u64_text(n as u64));
    extend_str(&mut t, "/");
    extend_chars(&mut t, &crate::num::u64_text(total as u64));
    extend_str(&mut t, " dumps");
    string_of(&t)
}

/// What the listing shows for a time chrono cannot hold: the epoch.
pub const EPOCH_TEXT: &'static str = "1970-01-01 00:00:00";

/// A dump's modification time (nanoseconds since the epoch) as the listing
/// shows it: its whole seconds in UTC, `YYYY-MM-DD HH:MM:SS`.
pub open spec fn listing_time(nanos: u128) -> Seq<char> {
    let secs = nanos / 1_000_000_000;
    if secs <= i64::MAX {
        match crate::clock::utc_seconds_text(secs as i64) {
            Some(t) => t,
            None => EPOCH_TEXT@,
        }
    } else {
        EPOCH_TEXT@
    }
}

/// One line of the dump listing: name, size in bytes and UTC time, split by
/// tabs and ended by CRLF.
pub open spec fn listing_line(e: (String, u64, u128)) -> Seq<char> {
    e.0@ + seq!['\t'] + crate::num::digits(e.1 as nat) + seq!['\t'] + listing_time(e.2) + "\r\n"@
}

/// The listing of the first `n` dumps, header first.
pub open spec fn listing_text(es: Seq<(String, u64, u128)>, n: int) -> Seq<char>
    decreases n,
{
    if n <= 0 {
        "Name\tSizeBytes\tModifiedUTC\r\n"@
    } else {
        listing_text(es, n - 1) + listing_line(es[n - 1])
    }
}

fn listing_time_text(nanos: u128) -> (r: String)
    ensures
        r@ == listing_time(nanos),
{
    let secs: u128 = nanos / 1_000_000_000;
    if secs <= 9223372036854775807u128 {
        match crate::clock::format_utc_seconds(secs as i64) {
            Some(t) => t,
            None => String::from_str(EPOCH_TEXT),
        }
    } else {
        String::from_str(EPOCH_TEXT)
    }
}

/// `DumpFolderListing.txt` for dumps given as (file name, size in bytes,
/// modification time in nanoseconds since the epoch), in the order given.
pub fn dump_folder_listing(dumps: &Vec<(String, u64, u128)>) -> (r: String)
    ensures
        r@ == listing_text(dumps@, dumps@.len() as int),
{
    let mut t: Vec<char> = Vec::new();
    extend_str(&mut t, "Name\tSizeBytes\tModifiedUTC\r\n");
    let mut i: usize = 0;
    while i < dumps.len()
        invariant
            i <= dumps@.len(),
            t@ == listing_text(dumps@, i as int),
        decreases dumps.len() - i,
    {
        let ghost before = t@;
        let e = &dumps[i];
        extend_str(&mut t, e.0.as_str());
        t.push('\t');
        extend_chars(&mut t, &crate::num::u64_text(e.1));
        t.push('\t');
        let time = listing_time_text(e.2);
        extend_str(&mut t, time.as_str());
        extend_str(&mut t, "\r\n");
        assert(t@ =~= before + listing_line(dumps@[i as int]));
        i = i + 1;
    }
    string_of(&t)
}

} // verus!
