//! Log collection: the run folder with its summary, the names and command
//! lines of the tools a collection runs, and the workflows' own decisions.

pub mod discover;
pub mod pdm_bundle;
pub mod syshealth;
pub mod datacoll;
pub mod installlogs;
pub mod redact;

pub use crate::clock::run_folder_names;
pub use crate::collect::redact::redact_config_json;

use vstd::prelude::*;
use crate::text::{
    chars_of, extend_chars, extend_str, string_of, string_views, push_string, is_whitespace,
    is_whitespace_char,
};
use crate::winpath::{join, join_path};

verus! {

/// One run: one timestamped folder `<base>\YYYY-MM-DD\Run_HHMMSS`, and the
/// lines of its summary (what was collected or skipped).
pub struct RunContext {
    pub run_dir: String,
    pub summary: Vec<String>,
}

impl RunContext {
    /// The summary lines so far.
    pub open spec fn summary_lines(&self) -> Seq<Seq<char>> {
        string_views(self.summary@)
    }

    /// A run under `base` started now: its folder is `base`, then the day
    /// as `YYYY-MM-DD`, then `Run_` and the time as six digits.
    pub fn new(base: &str) -> (ctx: RunContext)
        ensures
            ctx.summary_lines().len() == 0,
            exists|day: Seq<char>, run: Seq<char>|
                ctx.run_dir@ == join(join(base@, day), run) && crate::clock::is_date_stamp(day) && run.len() == 10 && run.subrange(0, 4)
                    == "Run_"@ && forall|i: int| 4 <= i < 10 ==> crate::num::is_digit(#[trigger] run[i]),
    {
        let (day, run) = crate::clock::run_folder_names();
        let d = join_path(base, day.as_str());
        let run_dir = join_path(d.as_str(), run.as_str());
        let ctx = RunContext { run_dir, summary: Vec::new() };
        assert(ctx.summary_lines() =~= Seq::<Seq<char>>::empty());
        ctx
    }

    /// One line in the summary.
    pub fn summarize(&mut self, line: &str)
        ensures
            final(self).summary_lines() == old(self).summary_lines().push(line@),
            final(self).run_dir == old(self).run_dir,
    {
        push_string(&mut self.summary, String::from_str(line));
    }

    /// The text of `Collection_Summary.txt`: a title, the version, machine
    /// and time lines, a blank line, then every summary line, each ending in
    /// CRLF. The time is the local time when called.
    pub fn summary_text(&self, version: &str, machine: &str) -> (r: String)
        ensures
            exists|time: Seq<char>| crate::clock::is_local_stamp(time) && r@ == summary_document(version@, machine@, time, self.summary_lines()),
    {
        let time = crate::clock::local_timestamp();
        let mut t: Vec<char> = Vec::new();
        extend_str(&mut t, "LogDump Collection Summary\r\nVersion: ");
        extend_str(&mut t, version);
        extend_str(&mut t, "\r\nMachine: ");
        extend_str(&mut t, machine);
        extend_str(&mut t, "\r\nTime: ");
        extend_str(&mut t, time.as_str());
        extend_str(&mut t, "\r\n\r\n");
        let ghost head = t@;
        assert(head == "LogDump Collection Summary\r\nVersion: "@ + version@ + "\r\nMachine: "@ + machine@
            + "\r\nTime: "@ + time@ + "\r\n\r\n"@);
        let mut i: usize = 0;
        while i < self.summary.len()
            invariant
                i <= self.summary@.len(),
                t@ == head + crlf_lines(string_views(self.summary@).subrange(0, i as int)),
            decreases self.summary.len() - i,
        {
            extend_str(&mut t, self.summary[i].as_str());
            extend_str(&mut t, "\r\n");
            proof {
                let pre = string_views(self.summary@).subrange(0, i + 1);
                assert(pre.drop_last() =~= string_views(self.summary@).subrange(0, i as int));
                assert(pre.last() == self.summary@[i as int]@);
            }
            i = i + 1;
        }
        assert(string_views(self.summary@).subrange(0, self.summary@.len() as int) =~= string_views(
            self.summary@,
        ));
        assert(t@ =~= summary_document(version@, machine@, time@, self.summary_lines()));
        string_of(&t)
    }
}

/// Lines, each followed by CRLF.
pub open spec fn crlf_lines(ls: Seq<Seq<char>>) -> Seq<char>
    decreases ls.len(),
{
    if ls.len() == 0 {
        Seq::empty()
    } else {
        crlf_lines(ls.drop_last()) + ls.last() + "\r\n"@
    }
}

pub open spec fn summary_document(version: Seq<char>, machine: Seq<char>, time: Seq<char>, lines: Seq<Seq<char>>) -> Seq<char> {
    "LogDump Collection Summary\r\nVersion: "@ + version + "\r\nMachine: "@ + machine + "\r\nTime: "@ + time
        + "\r\n\r\n"@ + crlf_lines(lines)
}

/// Milliseconds in a day.
pub const MS_PER_DAY: u64 = 86400000;

/// `wevtutil` XPath for events of the last `days` days (`None` exports
/// everything).
pub open spec fn evtx_query_text(days: Option<u32>) -> Option<Seq<char>> {
    match days {
        Some(d) => Some("*[System[TimeCreated[timediff(@SystemTime) <= "@ + crate::num::digits(
            (d * MS_PER_DAY) as nat,
        ) + "]]]"@),
        None => None,
    }
}

pub fn evtx_query(days: Option<u32>) -> (r: Option<String>)
    ensures
        crate::text::opt_view(r) == evtx_query_text(days),
{
    match days {
        None => None,
        Some(d) => {
            let ms: u64 = (d as u64) * MS_PER_DAY;
            let mut t: Vec<char> = Vec::new();
            extend_str(&mut t, "*[System[TimeCreated[timediff(@SystemTime) <= ");
            let n = crate::num::u64_text(ms);
            extend_chars(&mut t, &n);
            extend_str(&mut t, "]]]");
            Some(string_of(&t))
        },
    }
}

/// Characters a file name cannot hold.
pub open spec fn is_invalid_name_char(c: char) -> bool {
    c == '<' || c == '>' || c == ':' || c == '"' || c == '/' || c == '\\' || c == '|' || c == '?'
        || c == '*' || (c as u32) < 32
}

/// The characters of a safe name before its ends are trimmed: whitespace
/// runs become one `_` (only before a following character), invalid
/// characters become `_`, `in_ws` saying a whitespace run is pending.
pub open spec fn safe_chars(s: Seq<char>, in_ws: bool) -> Seq<char>
    decreases s.len(),
{
    if s.len() == 0 {
        Seq::empty()
    } else if is_whitespace(s[0]) {
        safe_chars(s.drop_first(), true)
    } else {
        (if in_ws { seq!['_'] } else { Seq::empty() }) + seq![
            if is_invalid_name_char(s[0]) { '_' } else { s[0] },
        ] + safe_chars(s.drop_first(), false)
    }
}

/// `s` without leading `_`.
pub open spec fn trim_start_underscores(s: Seq<char>) -> Seq<char>
    decreases s.len(),
{
    if s.len() > 0 && s[0] == '_' {
        trim_start_underscores(s.drop_first())
    } else {
        s
    }
}

/// `s` without trailing `_`.
pub open spec fn trim_end_underscores(s: Seq<char>) -> Seq<char>
    decreases s.len(),
{
    if s.len() > 0 && s.last() == '_' {
        trim_end_underscores(s.drop_last())
    } else {
        s
    }
}

/// A text as a file name: whitespace runs and invalid characters become
/// underscores, and underscores are trimmed from both ends.
pub open spec fn safe_name_of(s: Seq<char>) -> Seq<char> {
    trim_end_underscores(trim_start_underscores(safe_chars(s, false)))
}

fn is_invalid_name_char_exec(c: char) -> (r: bool)
    ensures
        r == is_invalid_name_char(c),
{
    c == '<' || c == '>' || c == ':' || c == '"' || c == '/' || c == '\\' || c == '|' || c == '?'
        || c == '*' || (c as u32) < 32
}

pub fn safe_name(text: &str) -> (r: String)
    ensures
        r@ == safe_name_of(text@),
{
    let cs = chars_of(text);
    let n = cs.len();
    let mut out: Vec<char> = Vec::new();
    let mut in_ws = false;
    let mut i: usize = 0;
    assert(cs@.subrange(0, n as int) =~= cs@);
    while i < n
        invariant
            n == cs@.len(),
            cs@ == text@,
            i <= n,
            out@ + safe_chars(cs@.subrange(i as int, n as int), in_ws) == safe_chars(text@, false),
        decreases n - i,
    {
        let c = cs[i];
        let ghost rest = cs@.subrange(i as int, n as int);
        assert(rest.drop_first() =~= cs@.subrange(i + 1, n as int));
        if is_whitespace_char(c) {
            in_ws = true;
        } else {
            let ghost before = out@;
            let ghost was = in_ws;
            if in_ws {
                out.push('_');
                in_ws = false;
            }
            out.push(if is_invalid_name_char_exec(c) { '_' } else { c });
            assert(out@ =~= before + (if was { seq!['_'] } else { Seq::empty() }) + seq![
                if is_invalid_name_char(c) { '_' } else { c },
            ]);
        }
        i = i + 1;
    }
    assert(out@ =~= safe_chars(text@, false));
    let mut a: usize = 0;
    assert(out@.subrange(0, out@.len() as int) =~= out@);
    while a < out.len() && out[a] == '_'
        invariant
            a <= out@.len(),
            trim_start_underscores(out@) == trim_start_underscores(out@.subrange(a as int, out@.len() as int)),
        decreases out.len() - a,
    {
        assert(out@.subrange(a as int, out@.len() as int).drop_first() =~= out@.subrange(
            a + 1,
            out@.len() as int,
        ));
        a = a + 1;
    }
    let mid = crate::text::sub_vec(&out, a, out.len());
    let mut b: usize = mid.len();
    assert(mid@.subrange(0, mid@.len() as int) =~= mid@);
    while b > 0 && mid[b - 1] == '_'
        invariant
            b <= mid@.len(),
            trim_end_underscores(mid@) == trim_end_underscores(mid@.subrange(0, b as int)),
        decreases b,
    {
        assert(mid@.subrange(0, b as int).drop_last() =~= mid@.subrange(0, b - 1));
        b = b - 1;
    }
    string_of(&crate::text::sub_vec(&mid, 0, b))
}

proof fn lemma_safe_chars_clean(s: Seq<char>, in_ws: bool)
    ensures
        forall|i: int|
            0 <= i < safe_chars(s, in_ws).len() ==> {
                let c = #[trigger] safe_chars(s, in_ws)[i];
                !is_whitespace(c) && (c == '_' || !is_invalid_name_char(c))
            },
    decreases s.len(),
{
    if s.len() > 0 {
        lemma_safe_chars_clean(s.drop_first(), true);
        lemma_safe_chars_clean(s.drop_first(), false);
        if is_whitespace(s[0]) {
            let b = safe_chars(s.drop_first(), true);
            assert(safe_chars(s, in_ws) == b);
            assert forall|i: int| 0 <= i < safe_chars(s, in_ws).len() implies {
                let c = #[trigger] safe_chars(s, in_ws)[i];
                !is_whitespace(c) && (c == '_' || !is_invalid_name_char(c))
            } by {
                assert(safe_chars(s, in_ws)[i] == b[i]);
            }
        } else {
            let a = (if in_ws { seq!['_'] } else { Seq::<char>::empty() }) + seq![
                if is_invalid_name_char(s[0]) { '_' } else { s[0] },
            ];
            let b = safe_chars(s.drop_first(), false);
            assert forall|i: int| 0 <= i < safe_chars(s, in_ws).len() implies {
                let c = #[trigger] safe_chars(s, in_ws)[i];
                !is_whitespace(c) && (c == '_' || !is_invalid_name_char(c))
            } by {
                if i < a.len() {
                    assert(safe_chars(s, in_ws)[i] == a[i]);
                } else {
                    assert(safe_chars(s, in_ws)[i] == b[i - a.len()]);
                }
            }
        }
    }
}

proof fn lemma_trim_start_underscores(s: Seq<char>)
    ensures
        exists|k: int| 0 <= k <= s.len() && trim_start_underscores(s) == s.subrange(k, s.len() as int),
        trim_start_underscores(s).len() > 0 ==> trim_start_underscores(s)[0] != '_',
    decreases s.len(),
{
    if s.len() > 0 && s[0] == '_' {
        lemma_trim_start_underscores(s.drop_first());
        let k = choose|k: int|
            0 <= k <= s.drop_first().len() && trim_start_underscores(s.drop_first())
                == s.drop_first().subrange(k, s.drop_first().len() as int);
        assert(s.drop_first().subrange(k, s.drop_first().len() as int) =~= s.subrange(k + 1, s.len() as int));
    } else {
        assert(s.subrange(0, s.len() as int) =~= s);
    }
}

proof fn lemma_trim_end_underscores(s: Seq<char>)
    ensures
        exists|k: int| 0 <= k <= s.len() && trim_end_underscores(s) == s.subrange(0, k),
        trim_end_underscores(s).len() > 0 ==> trim_end_underscores(s).last() != '_',
        trim_end_underscores(s).len() > 0 && s.len() > 0 ==> trim_end_underscores(s)[0] == s[0],
    decreases s.len(),
{
    if s.len() > 0 && s.last() == '_' {
        lemma_trim_end_underscores(s.drop_last());
        let k = choose|k: int|
            0 <= k <= s.drop_last().len() && trim_end_underscores(s.drop_last()) == s.drop_last().subrange(0, k);
        assert(s.drop_last().subrange(0, k) =~= s.subrange(0, k));
    } else {
        assert(s.subrange(0, s.len() as int) =~= s);
    }
}

/// A safe name holds no whitespace and no character a file name cannot
/// hold, and neither starts nor ends with `_`.
pub proof fn law_safe_name_is_safe(s: Seq<char>)
    ensures
        forall|i: int|
            0 <= i < safe_name_of(s).len() ==> {
                let c = #[trigger] safe_name_of(s)[i];
                !is_whitespace(c) && !is_invalid_name_char(c)
            },
        safe_name_of(s).len() > 0 ==> safe_name_of(s)[0] != '_' && safe_name_of(s).last() != '_',
{
    let a = safe_chars(s, false);
    let b = trim_start_underscores(a);
    let c = trim_end_underscores(b);
    lemma_safe_chars_clean(s, false);
    lemma_trim_start_underscores(a);
    lemma_trim_end_underscores(b);
    let k1 = choose|k: int| 0 <= k <= a.len() && b == a.subrange(k, a.len() as int);
    let k2 = choose|k: int| 0 <= k <= b.len() && c == b.subrange(0, k);
    assert forall|i: int| 0 <= i < c.len() implies {
        let x = #[trigger] c[i];
        !is_whitespace(x) && !is_invalid_name_char(x)
    } by {
        assert(c[i] == a[i + k1]);
        let x = a[i + k1];
        assert(!is_whitespace(x) && (x == '_' || !is_invalid_name_char(x)));
    }
}

proof fn lemma_safe_chars_keeps_clean(t: Seq<char>)
    requires
        forall|i: int| 0 <= i < t.len() ==> !is_whitespace(#[trigger] t[i]) && !is_invalid_name_char(t[i]),
    ensures
        safe_chars(t, false) == t,
    decreases t.len(),
{
    if t.len() > 0 {
        let rest = t.drop_first();
        assert forall|i: int| 0 <= i < rest.len() implies !is_whitespace(#[trigger] rest[i])
            && !is_invalid_name_char(rest[i]) by {
            assert(rest[i] == t[i + 1]);
        }
        lemma_safe_chars_keeps_clean(rest);
        assert(!is_whitespace(t[0]) && !is_invalid_name_char(t[0]));
        assert(seq![t[0]] + rest =~= t);
        assert(Seq::<char>::empty() + seq![t[0]] =~= seq![t[0]]);
    }
}

/// Making a name safe twice changes nothing more than making it safe once.
pub proof fn law_safe_name_idempotent(s: Seq<char>)
    ensures
        safe_name_of(safe_name_of(s)) == safe_name_of(s),
{
    let r = safe_name_of(s);
    law_safe_name_is_safe(s);
    lemma_safe_chars_keeps_clean(r);
    assert(trim_start_underscores(r) == r);
    assert(trim_end_underscores(r) == r);
}

/// Windows PowerShell single-quote escaping: each `'` doubled.
pub open spec fn ps_single_quoted(s: Seq<char>) -> Seq<char>
    decreases s.len(),
{
    if s.len() == 0 {
        Seq::empty()
    } else {
        ps_single_quoted(s.drop_last()) + if s.last() == '\'' { seq!['\'', '\''] } else { seq![s.last()] }
    }
}

/// `s.replace('\'', "''")`.
pub fn ps_escape_single(s: &str) -> (r: Vec<char>)
    ensures
        r@ == ps_single_quoted(s@),
{
    let cs = chars_of(s);
    let mut out: Vec<char> = Vec::new();
    let mut i: usize = 0;
    while i < cs.len()
        invariant
            i <= cs@.len(),
            out@ == ps_single_quoted(cs@.take(i as int)),
        decreases cs.len() - i,
    {
        let c = cs[i];
        if c == '\'' {
            out.push('\'');
            out.push('\'');
        } else {
            out.push(c);
        }
        proof {
            let t = cs@.take(i + 1);
            assert(t.drop_last() == cs@.take(i as int));
            assert(t.last() == c);
        }
        i = i + 1;
        assert(out@ =~= ps_single_quoted(cs@.take(i as int)));
    }
    assert(cs@.take(cs@.len() as int) == cs@);
    out
}

/// The PowerShell fallback that zips `staging` into `zip_path` when tar is
/// missing: `Compress-Archive -Path '<staging>\*' -DestinationPath '<zip>' -Force`,
/// both paths single-quote escaped.
pub open spec fn compress_archive_text(staging: Seq<char>, zip_path: Seq<char>) -> Seq<char> {
    "Compress-Archive -Path '"@ + ps_single_quoted(staging) + "\\*' -DestinationPath '"@
        + ps_single_quoted(zip_path) + "' -Force"@
}

pub fn compress_archive_command(staging: &str, zip_path: &str) -> (r: String)
    ensures
        r@ == compress_archive_text(staging@, zip_path@),
{
    let mut t: Vec<char> = Vec::new();
    extend_str(&mut t, "Compress-Archive -Path '");
    let a = ps_escape_single(staging);
    extend_chars(&mut t, &a);
    extend_str(&mut t, "\\*' -DestinationPath '");
    let b = ps_escape_single(zip_path);
    extend_chars(&mut t, &b);
    extend_str(&mut t, "' -Force");
    string_of(&t)
}

/// The robocopy switches: recurse with restartable mode, one retry after one
/// second, copy data, attributes and times of files and folders, skip
/// junctions, and print no file, folder or progress lines.
pub open spec fn robocopy_switches() -> Seq<Seq<char>> {
    seq![
        "/E"@,
        "/Z"@,
        "/R:1"@,
        "/W:1"@,
        "/COPY:DAT"@,
        "/DCOPY:DAT"@,
        "/XJ"@,
        "/NFL"@,
        "/NDL"@,
        "/NP"@,
    ]
}

/// The arguments of `robocopy` copying `src` into `dest`.
pub fn robocopy_args(src: &str, dest: &str) -> (r: Vec<String>)
    ensures
        string_views(r@) == seq![src@, dest@] + robocopy_switches(),
{
    let mut r: Vec<String> = Vec::new();
    push_string(&mut r, String::from_str(src));
    push_string(&mut r, String::from_str(dest));
    push_string(&mut r, String::from_str("/E"));
    push_string(&mut r, String::from_str("/Z"));
    push_string(&mut r, String::from_str("/R:1"));
    push_string(&mut r, String::from_str("/W:1"));
    push_string(&mut r, String::from_str("/COPY:DAT"));
    push_string(&mut r, String::from_str("/DCOPY:DAT"));
    push_string(&mut r, String::from_str("/XJ"));
    push_string(&mut r, String::from_str("/NFL"));
    push_string(&mut r, String::from_str("/NDL"));
    push_string(&mut r, String::from_str("/NP"));
    assert(string_views(r@) =~= seq![src@, dest@] + robocopy_switches());
    r
}

/// Robocopy exit codes of 8 and above report copy errors (a missing exit
/// code counts as 16).
pub fn robocopy_failed(exit_code: Option<i32>) -> (r: bool)
    ensures
        r == match exit_code {
            Some(c) => c >= 8,
            None => true,
        },
{
    match exit_code {
        Some(c) => c >= 8,
        None => true,
    }
}

/// The arguments of `wevtutil` exporting the event log `log` to `dest`,
/// limited to the last `days` days when given.
pub fn wevtutil_args(log: &str, dest: &str, days: Option<u32>) -> (r: Vec<String>)
    ensures
        string_views(r@) == seq!["epl"@, log@, dest@, "/ow:true"@] + match evtx_query_text(days) {
            Some(q) => seq!["/q:"@ + q],
            None => Seq::empty(),
        },
{
    let mut r: Vec<String> = Vec::new();
    push_string(&mut r, String::from_str("epl"));
    push_string(&mut r, String::from_str(log));
    push_string(&mut r, String::from_str(dest));
    push_string(&mut r, String::from_str("/ow:true"));
    match evtx_query(days) {
        Some(q) => {
            let mut t: Vec<char> = Vec::new();
            extend_str(&mut t, "/q:");
            extend_str(&mut t, q.as_str());
            push_string(&mut r, string_of(&t));
        },
        None => {},
    }
    assert(string_views(r@) =~= seq!["epl"@, log@, dest@, "/ow:true"@] + match evtx_query_text(days) {
        Some(q) => seq!["/q:"@ + q],
        None => Seq::empty(),
    });
    r
}

} // verus!
