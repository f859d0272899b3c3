//! System Health workflow: uptime, process and service snapshots, each one
//! inline PowerShell pipeline filtered by comma-separated substring patterns.

use vstd::prelude::*;
use crate::text::{
    chars_of, extend_chars, extend_str, string_of, string_views, push_string, split, split_vec,
    trim, trim_vec, join_words, join_strings, replace_all, replace_vec,
};
use crate::collect::{ps_single_quoted, ps_escape_single};

verus! {

/// Which snapshots to take, and the patterns that select processes and
/// services.
#[derive(Debug, Clone)]
pub struct Options {
    pub uptime: bool,
    pub processes: bool,
    pub services: bool,
    pub proc_patterns: String,
    pub svc_patterns: String,
}

/// The default match patterns (shared by both lists).
pub const DEFAULT_PATTERNS: &'static str = "ccure,crossfire,tyco,jci,victor,swh,security,intelligence,dashboard,mq,acvs,dmp,dsc,bosch,istar,kone,galaxy,itv2,sql,stunnel,AD,db,search";

impl Default for Options {
    fn default() -> (o: Options)
        ensures
            o.uptime && o.processes && o.services,
            o.proc_patterns@ == DEFAULT_PATTERNS@,
            o.svc_patterns@ == DEFAULT_PATTERNS@,
    {
        Options {
            uptime: true,
            processes: true,
            services: true,
            proc_patterns: String::from_str(DEFAULT_PATTERNS),
            svc_patterns: String::from_str(DEFAULT_PATTERNS),
        }
    }
}

/// A pattern as it stands inside a double-quoted PowerShell string within a
/// single-quoted command: `'` doubled, `"` escaped with a backtick.
pub open spec fn ps_pattern_escaped(s: Seq<char>) -> Seq<char>
    decreases s.len(),
{
    if s.len() == 0 {
        Seq::empty()
    } else {
        ps_pattern_escaped(s.drop_last()) + if s.last() == '\'' {
            seq!['\'', '\'']
        } else if s.last() == '"' {
            seq!['`', '"']
        } else {
            seq![s.last()]
        }
    }
}

/// The patterns of a list: comma-separated pieces, trimmed, empty ones
/// dropped, escaped.
pub open spec fn ps_patterns(pieces: Seq<Seq<char>>) -> Seq<Seq<char>>
    decreases pieces.len(),
{
    if pieces.len() == 0 {
        Seq::empty()
    } else {
        let t = trim(pieces.last());
        ps_patterns(pieces.drop_last()) + if t.len() > 0 { seq![ps_pattern_escaped(t)] } else { Seq::empty() }
    }
}

/// `$_.<prop> -like "*<pat>*"`.
pub open spec fn like_clause(prop: Seq<char>, pat: Seq<char>) -> Seq<char> {
    "$_."@ + prop + " -like \"*"@ + pat + "*\""@
}

/// One clause per pattern and property, pattern-major.
pub open spec fn like_clauses(pats: Seq<Seq<char>>, props: Seq<Seq<char>>) -> Seq<Seq<char>>
    decreases pats.len(),
{
    if pats.len() == 0 {
        Seq::empty()
    } else {
        like_clauses(pats.drop_last(), props) + props.map_values(|pr: Seq<char>| like_clause(pr, pats.last()))
    }
}

pub open spec fn str_views(v: Seq<&str>) -> Seq<Seq<char>> {
    v.map_values(|s: &str| s@)
}

/// The PowerShell `Where-Object` condition for a pattern list over the given
/// properties: the clauses joined with ` -or `, or `$true` (match all) when
/// the list has no pattern.
pub open spec fn ps_filter_text(patterns: Seq<char>, props: Seq<Seq<char>>) -> Seq<char> {
    let pats = ps_patterns(split(patterns, ','));
    if pats.len() == 0 {
        "$true"@
    } else {
        join_words(like_clauses(pats, props), " -or "@)
    }
}

fn escape_pattern(s: &Vec<char>) -> (r: Vec<char>)
    ensures
        r@ == ps_pattern_escaped(s@),
{
    let mut out: Vec<char> = Vec::new();
    let mut i: usize = 0;
    while i < s.len()
        invariant
            i <= s@.len(),
            out@ == ps_pattern_escaped(s@.take(i as int)),
        decreases s.len() - i,
    {
        let c = s[i];
        if c == '\'' {
            out.push('\'');
            out.push('\'');
        } else if c == '"' {
            out.push('`');
            out.push('"');
        } else {
            out.push(c);
        }
        proof {
            let t = s@.take(i + 1);
            assert(t.drop_last() == s@.take(i as int));
            assert(t.last() == c);
        }
        i = i + 1;
        assert(out@ =~= ps_pattern_escaped(s@.take(i as int)));
    }
    assert(s@.take(s@.len() as int) == s@);
    out
}

fn patterns_of(patterns: &str) -> (r: Vec<Vec<char>>)
    ensures
        crate::text::views(r@) == ps_patterns(split(patterns@, ',')),
{
    let cs = chars_of(patterns);
    let pieces = split_vec(&cs, ',');
    let ghost sp = split(patterns@, ',');
    let mut out: Vec<Vec<char>> = Vec::new();
    let mut i: usize = 0;
    assert(crate::text::views(out@) =~= Seq::<Seq<char>>::empty());
    while i < pieces.len()
        invariant
            i <= pieces@.len(),
            pieces@.len() == sp.len(),
            sp == split(patterns@, ','),
            forall|k: int| 0 <= k < pieces@.len() ==> (#[trigger] pieces@[k])@ == sp[k],
            crate::text::views(out@) == ps_patterns(sp.subrange(0, i as int)),
        decreases pieces.len() - i,
    {
        let t = trim_vec(&pieces[i]);
        proof {
            let pre = sp.subrange(0, i + 1);
            assert(pre.drop_last() =~= sp.subrange(0, i as int));
            assert(pre.last() == sp[i as int]);
        }
        let ghost before = out@;
        if t.len() > 0 {
            let e = escape_pattern(&t);
            out.push(e);
            assert(crate::text::views(out@) =~= crate::text::views(before).push(ps_pattern_escaped(t@)));
        }
        i = i + 1;
        assert(crate::text::views(out@) =~= ps_patterns(sp.subrange(0, i as int)));
    }
    assert(sp.subrange(0, sp.len() as int) =~= sp);
    out
}

/// PowerShell `-like "*p*"` filter over `$_.<prop>` for each pattern of a
/// comma-separated list and each property; an empty list matches all.
pub fn ps_filter(patterns: &str, props: &[&str]) -> (r: String)
    ensures
        r@ == ps_filter_text(patterns@, str_views(props@)),
{
    let pats = patterns_of(patterns);
    if pats.len() == 0 {
        return String::from_str("$true");
    }
    let ghost pv = str_views(props@);
    let ghost patv = crate::text::views(pats@);
    let mut clauses: Vec<String> = Vec::new();
    let mut i: usize = 0;
    assert(string_views(clauses@) =~= Seq::<Seq<char>>::empty());
    while i < pats.len()
        invariant
            i <= pats@.len(),
            pv == str_views(props@),
            patv == crate::text::views(pats@),
            string_views(clauses@) == like_clauses(patv.subrange(0, i as int), pv),
        decreases pats.len() - i,
    {
        let ghost base = string_views(clauses@);
        let mut j: usize = 0;
        while j < props.len()
            invariant
                j <= props@.len(),
                i < pats@.len(),
                pv == str_views(props@),
                patv == crate::text::views(pats@),
                string_views(clauses@) == base + pv.subrange(0, j as int).map_values(
                    |pr: Seq<char>| like_clause(pr, patv[i as int]),
                ),
            decreases props.len() - j,
        {
            let mut t: Vec<char> = Vec::new();
            extend_str(&mut t, "$_.");
            extend_str(&mut t, props[j]);
            extend_str(&mut t, " -like \"*");
            extend_chars(&mut t, &pats[i]);
            extend_str(&mut t, "*\"");
            assert(pats@[i as int]@ == patv[i as int]);
            assert(t@ == like_clause(pv[j as int], patv[i as int]));
            push_string(&mut clauses, string_of(&t));
            j = j + 1;
            assert(pv.subrange(0, j as int).map_values(|pr: Seq<char>| like_clause(pr, patv[i as int]))
                =~= pv.subrange(0, j - 1).map_values(|pr: Seq<char>| like_clause(pr, patv[i as int])).push(
                like_clause(pv[j - 1], patv[i as int]),
            ));
        }
        proof {
            let pre = patv.subrange(0, i + 1);
            assert(pre.drop_last() =~= patv.subrange(0, i as int));
            assert(pre.last() == patv[i as int]);
            assert(pv.subrange(0, pv.len() as int) =~= pv);
        }
        i = i + 1;
    }
    assert(patv.subrange(0, patv.len() as int) =~= patv);
    let joined = join_strings(&clauses, " -or ");
    string_of(&joined)
}

proof fn lemma_like_clauses_len(pats: Seq<Seq<char>>, props: Seq<Seq<char>>)
    ensures
        like_clauses(pats, props).len() == pats.len() * props.len(),
    decreases pats.len(),
{
    if pats.len() > 0 {
        lemma_like_clauses_len(pats.drop_last(), props);
        assert((pats.len() - 1) * props.len() + props.len() == pats.len() * props.len())
            by (nonlinear_arith);
    }
}

/// Every pattern is tried against every property: a non-empty list yields
/// one clause per (pattern, property) pair, so `n` patterns over `m`
/// properties join `n * m - 1` times with ` -or `.
pub proof fn law_ps_filter_clause_count(patterns: Seq<char>, props: Seq<Seq<char>>)
    ensures
        like_clauses(ps_patterns(split(patterns, ',')), props).len() == ps_patterns(split(patterns, ',')).len()
            * props.len(),
{
    lemma_like_clauses_len(ps_patterns(split(patterns, ',')), props);
}

pub const UPTIME_COMMAND: &'static str = "$os=Get-CimInstance Win32_OperatingSystem;$b=$os.LastBootUpTime;$u=(Get-Date)-$b;[pscustomobject]@{ComputerName=$env:COMPUTERNAME;LastBootUpTime=$b.ToString('o');Uptime=('{0:dd\\.hh\\:mm\\:ss}' -f $u);UptimeDays=[math]::Round($u.TotalDays,2)}|ConvertTo-Json";

pub const PROCESS_SNAPSHOT_HEAD: &'static str = "$p=Get-Process -ErrorAction SilentlyContinue|Where-Object { ";

pub const PROCESS_SNAPSHOT_TAIL: &'static str = " }|ForEach-Object { $exe=$null;try{$exe=$_.Path}catch{};$vi=$null;if($exe -and (Test-Path -LiteralPath $exe)){try{$vi=[System.Diagnostics.FileVersionInfo]::GetVersionInfo($exe)}catch{}};[pscustomobject]@{Name=$_.Name;Id=$_.Id;SessionId=$_.SessionId;CPUSeconds=$_.CPU;Handles=$_.Handles;Threads=$_.Threads.Count;WorkingSetMB=[math]::Round($_.WorkingSet64/1MB,2);PrivateMB=[math]::Round($_.PagedMemorySize64/1MB,2);VirtualMB=[math]::Round($_.VirtualMemorySize64/1MB,2);PeakWorkingSetMB=[math]::Round($_.PeakWorkingSet64/1MB,2);StartTime=$(try{$_.StartTime.ToString('o')}catch{$null});Path=$exe;Responding=$_.Responding;FileCompany=$vi.CompanyName;FileProduct=$vi.ProductName;FileVersion=$vi.FileVersion;FileDescription=$vi.FileDescription} }|Sort-Object CPUSeconds -Descending;$p|ConvertTo-Json -Depth 4|Out-File -LiteralPath '{OUT}\\Processes.json' -Encoding UTF8;$p|Export-Csv -Path '{OUT}\\Processes.csv' -NoTypeInformation -Encoding UTF8;($p|Format-Table -Wrap|Out-String)|Out-File -LiteralPath '{OUT}\\Processes.txt' -Encoding UTF8;@($p).Count";

pub const SERVICE_SNAPSHOT_HEAD: &'static str = "$m=@{};Get-Service -ErrorAction SilentlyContinue|ForEach-Object { $m[$_.Name]=@{Status=[string]$_.Status;DependsOn=(@($_.ServicesDependedOn|ForEach-Object Name) -join ';');Dependent=(@($_.DependentServices|ForEach-Object Name) -join ';');CanStop=$_.CanStop} };$s=Get-CimInstance Win32_Service -ErrorAction Stop|Where-Object { ";

pub const SERVICE_SNAPSHOT_TAIL: &'static str = " }|ForEach-Object { $c=$m[$_.Name];[pscustomobject]@{Name=$_.Name;DisplayName=$_.DisplayName;State=$_.State;Status=$c.Status;StartMode=$_.StartMode;StartName=$_.StartName;ProcessId=$_.ProcessId;ServiceType=$_.ServiceType;PathName=$_.PathName;ExitCode=$_.ExitCode;Win32ExitCode=$_.Win32ExitCode;ErrorControl=$_.ErrorControl;DependsOnServices=$c.DependsOn;DependentServices=$c.Dependent;CanStop=$c.CanStop;Description=$_.Description} }|Sort-Object Name;$s|ConvertTo-Json -Depth 4|Out-File -LiteralPath '{OUT}\\Services.json' -Encoding UTF8;$s|Export-Csv -Path '{OUT}\\Services.csv' -NoTypeInformation -Encoding UTF8;($s|Format-Table -AutoSize|Out-String)|Out-File -LiteralPath '{OUT}\\Services.txt' -Encoding UTF8;@($s).Count";

/// The process snapshot pipeline for a filter, writing its files into
/// `out_dir`: the template with the filter in place, then every `{OUT}`
/// replaced by the single-quote-escaped folder.
pub open spec fn snapshot_text(head: Seq<char>, filter: Seq<char>, tail: Seq<char>, out_dir: Seq<char>) -> Seq<char> {
    replace_all(head + filter + tail, "{OUT}"@, ps_single_quoted(out_dir))
}

fn snapshot_command(head: &str, filter: &str, tail: &str, out_dir: &str) -> (r: String)
    ensures
        r@ == snapshot_text(head@, filter@, tail@, out_dir@),
{
    let mut t: Vec<char> = Vec::new();
    extend_str(&mut t, head);
    extend_str(&mut t, filter);
    extend_str(&mut t, tail);
    let pat = chars_of("{OUT}");
    proof {
        reveal_strlit("{OUT}");
    }
    let rep = ps_escape_single(out_dir);
    string_of(&replace_vec(&t, &pat, &rep))
}

/// The process snapshot: matching processes with their resource use and file
/// versions, saved as JSON, CSV and text under `out_dir`; prints the count.
pub fn process_snapshot_command(filter: &str, out_dir: &str) -> (r: String)
    ensures
        r@ == snapshot_text(PROCESS_SNAPSHOT_HEAD@, filter@, PROCESS_SNAPSHOT_TAIL@, out_dir@),
{
    snapshot_command(PROCESS_SNAPSHOT_HEAD, filter, PROCESS_SNAPSHOT_TAIL, out_dir)
}

/// The service snapshot: matching services with state, start mode, account
/// and dependencies, saved as JSON, CSV and text under `out_dir`; prints the
/// count.
pub fn service_snapshot_command(filter: &str, out_dir: &str) -> (r: String)
    ensures
        r@ == snapshot_text(SERVICE_SNAPSHOT_HEAD@, filter@, SERVICE_SNAPSHOT_TAIL@, out_dir@),
{
    snapshot_command(SERVICE_SNAPSHOT_HEAD, filter, SERVICE_SNAPSHOT_TAIL, out_dir)
}

} // verus!
