//! Where C•CURE is installed: the registry's InstallLocation, the JCI and
//! Tyco vendor roots derived from it, the log components under them, and the
//! installer and bulk-update folders.

use vstd::prelude::*;
use crate::text::{
    chars_of, extend_chars, extend_str, string_of, string_views, push_string, lines, lines_vec, trim,
    trim_start, trim_vec, trim_start_vec, starts_with, starts_with_vec, find, find_vec,
    first_ws_from, first_ws_vec, sub_vec, eq_ignore_ascii_case, eq_ignore_ascii_case_vec, opt_view,
};
use crate::winpath::{
    join, join_path, components, path_components, collect_components, collect_path, push_component,
    push_path, same_windows_path, same_windows_path_exec,
};

verus! {

/// The registry key holding the C•CURE InstallLocation.
pub const SWH_SETUP_KEY: &'static str = "HKLM\\SOFTWARE\\WOW6432Node\\Sensormatic Electronics Corporation\\SWHSystem\\Setup";

/// The value on one line of `reg.exe query` output: the trimmed line starts
/// with the value's name, then (after blanks) a `REG_` type token, then
/// whitespace and the data, trimmed and non-empty.
pub open spec fn reg_line_value(line: Seq<char>, name: Seq<char>) -> Option<Seq<char>> {
    let t = trim(line);
    if !starts_with(t, name) {
        None
    } else {
        let rest = trim_start(t.subrange(name.len() as int, t.len() as int));
        match find(rest, "REG_"@) {
            None => None,
            Some(k) => {
                let after = rest.subrange(k, rest.len() as int);
                match first_ws_from(after, 0) {
                    None => None,
                    Some(sp) => {
                        let val = trim(after.subrange(sp, after.len() as int));
                        if val.len() > 0 { Some(val) } else { None }
                    },
                }
            },
        }
    }
}

/// The value on the first line, from `i` on, that has one.
pub open spec fn first_reg_value(ls: Seq<Seq<char>>, i: int, name: Seq<char>) -> Option<Seq<char>>
    decreases ls.len() - i,
{
    if i < 0 || i >= ls.len() {
        None
    } else {
        match reg_line_value(ls[i], name) {
            Some(v) => Some(v),
            None => first_reg_value(ls, i + 1, name),
        }
    }
}

/// The data of value `name` in `reg.exe query <key> /v <name>` output.
pub open spec fn reg_value_of(out: Seq<char>, name: Seq<char>) -> Option<Seq<char>> {
    first_reg_value(lines(out), 0, name)
}

fn line_value(line: &Vec<char>, name: &Vec<char>) -> (r: Option<String>)
    ensures
        opt_view(r) == reg_line_value(line@, name@),
{
    let t = trim_vec(line);
    if !starts_with_vec(&t, name) {
        return None;
    }
    let rest = trim_start_vec(&sub_vec(&t, name.len(), t.len()));
    let reg = chars_of("REG_");
    match find_vec(&rest, &reg) {
        None => None,
        Some(k) => {
            let after = sub_vec(&rest, k, rest.len());
            match first_ws_vec(&after) {
                None => None,
                Some(sp) => {
                    let val = trim_vec(&sub_vec(&after, sp, after.len()));
                    if val.len() > 0 {
                        Some(string_of(&val))
                    } else {
                        None
                    }
                },
            }
        },
    }
}

/// The data of value `value_name` in `reg.exe query` output, e.g. from
/// `    InstallLocation    REG_SZ    C:\Program Files (x86)\Tyco`.
pub fn parse_reg_value(out: &str, value_name: &str) -> (r: Option<String>)
    ensures
        opt_view(r) == reg_value_of(out@, value_name@),
{
    let ls = lines_vec(out);
    let name = chars_of(value_name);
    let mut i: usize = 0;
    while i < ls.len()
        invariant
            i <= ls@.len(),
            name@ == value_name@,
            ls@.len() == lines(out@).len(),
            forall|k: int| 0 <= k < ls@.len() ==> (#[trigger] ls@[k])@ == lines(out@)[k],
            reg_value_of(out@, value_name@) == first_reg_value(lines(out@), i as int, value_name@),
        decreases ls.len() - i,
    {
        let v = line_value(&ls[i], &name);
        if v.is_some() {
            return v;
        }
        i = i + 1;
    }
    None
}

/// The C•CURE InstallLocation, read from the output of `reg.exe query
/// <SWH_SETUP_KEY> /v InstallLocation` (`None` when the query failed).
pub fn install_location(reg_output: Option<&str>) -> (r: Option<String>)
    ensures
        opt_view(r) == match reg_output {
            Some(o) => reg_value_of(o@, "InstallLocation"@),
            None => None,
        },
{
    match reg_output {
        Some(o) => parse_reg_value(o, "InstallLocation"),
        None => None,
    }
}

/// The answers of existence probes: a path exists when some probe names it
/// with the answer `true`.
pub open spec fn probe_views(probes: Seq<(String, bool)>) -> Seq<(Seq<char>, bool)> {
    probes.map_values(|p: (String, bool)| (p.0@, p.1))
}

pub open spec fn probed(probes: Seq<(Seq<char>, bool)>, p: Seq<char>) -> bool {
    exists|i: int| 0 <= i < probes.len() && (#[trigger] probes[i]).0 == p && probes[i].1
}

fn probe(probes: &Vec<(String, bool)>, p: &str) -> (r: bool)
    ensures
        r == probed(probe_views(probes@), p@),
{
    let ghost pv = probe_views(probes@);
    let mut i: usize = 0;
    while i < probes.len()
        invariant
            i <= probes@.len(),
            pv == probe_views(probes@),
            forall|k: int| 0 <= k < i ==> !((#[trigger] pv[k]).0 == p@ && pv[k].1),
        decreases probes.len() - i,
    {
        assert(pv[i as int] == (probes@[i as int].0@, probes@[i as int].1));
        if probes[i].1 && crate::text::str_eq(probes[i].0.as_str(), p) {
            return true;
        }
        i = i + 1;
    }
    false
}

/// Folders whose presence directly under the install location marks it as
/// the vendor root itself.
pub open spec fn markers() -> Seq<Seq<char>> {
    seq!["CrossFire"@, "CCure Portal"@, "CCure Web"@, "SecurityIntelligence"@, "victorWeb"@, "victorWebServices"@]
}

fn marker_names() -> (r: Vec<String>)
    ensures
        string_views(r@) == markers(),
{
    let mut r: Vec<String> = Vec::new();
    push_string(&mut r, String::from_str("CrossFire"));
    push_string(&mut r, String::from_str("CCure Portal"));
    push_string(&mut r, String::from_str("CCure Web"));
    push_string(&mut r, String::from_str("SecurityIntelligence"));
    push_string(&mut r, String::from_str("victorWeb"));
    push_string(&mut r, String::from_str("victorWebServices"));
    assert(string_views(r@) =~= markers());
    r
}

/// `s.trim_end_matches('\\')`.
pub open spec fn strip_trailing_backslashes(s: Seq<char>) -> Seq<char>
    decreases s.len(),
{
    if s.len() > 0 && s.last() == '\\' {
        strip_trailing_backslashes(s.drop_last())
    } else {
        s
    }
}

fn strip_trailing_backslashes_vec(s: &Vec<char>) -> (r: Vec<char>)
    ensures
        r@ == strip_trailing_backslashes(s@),
{
    let mut j = s.len();
    assert(s@.subrange(0, s@.len() as int) =~= s@);
    while j > 0 && s[j - 1] == '\\'
        invariant
            j <= s@.len(),
            strip_trailing_backslashes(s@) == strip_trailing_backslashes(s@.subrange(0, j as int)),
        decreases j,
    {
        assert(s@.subrange(0, j as int).drop_last() =~= s@.subrange(0, j - 1));
        j = j - 1;
    }
    sub_vec(s, 0, j)
}

/// The install location as the roots are derived from it: trimmed, with
/// trailing backslashes removed; `None` when absent or blank.
pub open spec fn normalized_location(loc: Option<Seq<char>>) -> Option<Seq<char>> {
    match loc {
        Some(l) => if trim(l).len() > 0 { Some(strip_trailing_backslashes(trim(l))) } else { None },
        None => None,
    }
}

/// `<root>\Program Files (x86)\JCI` and `...\Tyco`.
pub open spec fn pf86_roots(root: Seq<char>) -> (Seq<char>, Seq<char>) {
    (join(root, "Program Files (x86)\\JCI"@), join(root, "Program Files (x86)\\Tyco"@))
}

/// A marker folder exists under `norm`.
pub open spec fn has_marker(norm: Seq<char>, ex: Seq<(Seq<char>, bool)>) -> bool {
    exists|k: int| 0 <= k < markers().len() && probed(ex, join(norm, #[trigger] markers()[k]))
}

/// A component names a vendor folder.
pub open spec fn is_vendor_segment(c: Seq<char>) -> bool {
    eq_ignore_ascii_case(c, "JCI"@) || eq_ignore_ascii_case(c, "Tyco"@)
}

/// Index of the first vendor-named component from `i` on.
pub open spec fn vendor_segment_from(cs: Seq<Seq<char>>, i: int) -> Option<int>
    decreases cs.len() - i,
{
    if i < 0 || i >= cs.len() {
        None
    } else if is_vendor_segment(cs[i]) {
        Some(i)
    } else {
        vendor_segment_from(cs, i + 1)
    }
}

/// The roots when the install path holds a vendor segment at index `i`:
/// that folder, and its sibling for the other vendor when it exists (else
/// the same folder again).
pub open spec fn segment_roots(cs: Seq<Seq<char>>, i: int, ex: Seq<(Seq<char>, bool)>) -> (Seq<char>, Seq<char>) {
    let base = collect_components(cs.take(i));
    let this = join(base, cs[i]);
    let is_jci = eq_ignore_ascii_case(cs[i], "JCI"@);
    let other = join(base, if is_jci { "Tyco"@ } else { "JCI"@ });
    let other = if probed(ex, other) { other } else { this };
    if is_jci { (this, other) } else { (other, this) }
}

/// The root of the install drive: the first component with a separator
/// pushed (`C:\` when there is none).
pub open spec fn drive_root(cs: Seq<Seq<char>>) -> Seq<char> {
    if cs.len() == 0 { "C:\\"@ } else { push_component(cs[0], "\\"@) }
}

/// The JCI and Tyco vendor roots. Without an install location: the
/// `Program Files (x86)` folders of `C:\`. With one (normalised): the
/// location itself for both when a marker folder is under it; else the
/// folder of its first JCI or Tyco component (see [`segment_roots`]); else
/// its own JCI and Tyco subfolders where they exist, and the
/// `Program Files (x86)` folders of its drive where they do not. `ex` holds
/// the answers of the existence probes.
pub open spec fn vendor_roots_spec(loc: Option<Seq<char>>, ex: Seq<(Seq<char>, bool)>) -> (Seq<char>, Seq<char>) {
    match normalized_location(loc) {
        None => pf86_roots("C:\\"@),
        Some(norm) => if has_marker(norm, ex) {
            (norm, norm)
        } else {
            let cs = components(norm);
            match vendor_segment_from(cs, 0) {
                Some(i) => segment_roots(cs, i, ex),
                None => {
                    let sub_jci = join(norm, "JCI"@);
                    let sub_tyco = join(norm, "Tyco"@);
                    let fb = pf86_roots(drive_root(cs));
                    (
                        if probed(ex, sub_jci) { sub_jci } else { fb.0 },
                        if probed(ex, sub_tyco) { sub_tyco } else { fb.1 },
                    )
                },
            }
        },
    }
}

fn normalize_location(loc: Option<&str>) -> (r: Option<String>)
    ensures
        opt_view(r) == normalized_location(match loc {
            Some(l) => Some(l@),
            None => None,
        }),
{
    match loc {
        None => None,
        Some(l) => {
            let t = trim_vec(&chars_of(l));
            if t.len() == 0 {
                None
            } else {
                Some(string_of(&strip_trailing_backslashes_vec(&t)))
            }
        },
    }
}

fn pf86(root: &str) -> (r: (String, String))
    ensures
        (r.0@, r.1@) == pf86_roots(root@),
{
    (join_path(root, "Program Files (x86)\\JCI"), join_path(root, "Program Files (x86)\\Tyco"))
}

fn any_marker(norm: &str, probes: &Vec<(String, bool)>) -> (r: bool)
    ensures
        r == has_marker(norm@, probe_views(probes@)),
{
    let ms = marker_names();
    let mut k: usize = 0;
    while k < ms.len()
        invariant
            k <= ms@.len(),
            string_views(ms@) == markers(),
            forall|j: int| 0 <= j < k ==> !probed(probe_views(probes@), join(norm@, #[trigger] markers()[j])),
        decreases ms.len() - k,
    {
        assert(string_views(ms@)[k as int] == ms@[k as int]@);
        if probe(probes, join_path(norm, ms[k].as_str()).as_str()) {
            return true;
        }
        k = k + 1;
    }
    false
}

fn is_vendor_segment_exec(c: &String) -> (r: bool)
    ensures
        r == is_vendor_segment(c@),
{
    let cv = chars_of(c.as_str());
    eq_ignore_ascii_case_vec(&cv, &chars_of("JCI")) || eq_ignore_ascii_case_vec(&cv, &chars_of("Tyco"))
}

fn find_vendor_segment(cs: &Vec<String>) -> (r: Option<usize>)
    ensures
        match r {
            Some(i) => i < cs@.len() && vendor_segment_from(string_views(cs@), 0) == Some(i as int),
            None => vendor_segment_from(string_views(cs@), 0) is None,
        },
{
    let mut i: usize = 0;
    while i < cs.len()
        invariant
            i <= cs@.len(),
            vendor_segment_from(string_views(cs@), 0) == vendor_segment_from(string_views(cs@), i as int),
        decreases cs.len() - i,
    {
        assert(string_views(cs@)[i as int] == cs@[i as int]@);
        if is_vendor_segment_exec(&cs[i]) {
            return Some(i);
        }
        i = i + 1;
    }
    None
}

/// The JCI and Tyco vendor roots for an install location; `probes` holds
/// (path, exists) answers for the paths [`vendor_probe_paths`] lists.
#[verifier::rlimit(50)]
pub fn vendor_roots(install_location: Option<&str>, probes: &Vec<(String, bool)>) -> (r: (String, String))
    ensures
        (r.0@, r.1@) == vendor_roots_spec(
            match install_location {
                Some(l) => Some(l@),
                None => None,
            },
            probe_views(probes@),
        ),
{
    let ghost ex = probe_views(probes@);
    let norm = match normalize_location(install_location) {
        None => return pf86("C:\\"),
        Some(n) => n,
    };
    if any_marker(norm.as_str(), probes) {
        return (norm.clone(), norm);
    }
    let cs = path_components(norm.as_str());
    match find_vendor_segment(&cs) {
        Some(i) => {
            let base = collect_path(&cs, i);
            assert(string_views(cs@)[i as int] == cs@[i as int]@);
            let this = join_path(base.as_str(), cs[i].as_str());
            let cv = chars_of(cs[i].as_str());
            let is_jci = eq_ignore_ascii_case_vec(&cv, &chars_of("JCI"));
            let other = join_path(base.as_str(), if is_jci { "Tyco" } else { "JCI" });
            let other = if probe(probes, other.as_str()) { other } else { this.clone() };
            if is_jci { (this, other) } else { (other, this) }
        },
        None => {
            let sub_jci = join_path(norm.as_str(), "JCI");
            let sub_tyco = join_path(norm.as_str(), "Tyco");
            let drive = if cs.len() == 0 {
                String::from_str("C:\\")
            } else {
                assert(string_views(cs@)[0] == cs@[0]@);
                push_path(cs[0].as_str(), "\\")
            };
            let (fb_jci, fb_tyco) = pf86(drive.as_str());
            (
                if probe(probes, sub_jci.as_str()) { sub_jci } else { fb_jci },
                if probe(probes, sub_tyco.as_str()) { sub_tyco } else { fb_tyco },
            )
        },
    }
}

/// Every path [`vendor_roots`] may ask about for an install location: the
/// marker folders under it, the sibling vendor folder of its first vendor
/// segment, and its own JCI and Tyco subfolders.
pub open spec fn vendor_probes(loc: Option<Seq<char>>) -> Seq<Seq<char>> {
    match normalized_location(loc) {
        None => Seq::empty(),
        Some(norm) => {
            let cs = components(norm);
            let sibling: Seq<Seq<char>> = match vendor_segment_from(cs, 0) {
                Some(i) => {
                    let base = collect_components(cs.take(i));
                    seq![join(base, if eq_ignore_ascii_case(cs[i], "JCI"@) { "Tyco"@ } else { "JCI"@ })]
                },
                None => Seq::empty(),
            };
            markers().map_values(|m: Seq<char>| join(norm, m)) + sibling + seq![join(norm, "JCI"@), join(norm, "Tyco"@)]
        },
    }
}

/// The paths whose existence decides the vendor roots of an install location.
pub fn vendor_probe_paths(install_location: Option<&str>) -> (r: Vec<String>)
    ensures
        string_views(r@) == vendor_probes(match install_location {
            Some(l) => Some(l@),
            None => None,
        }),
{
    let mut r: Vec<String> = Vec::new();
    let norm = match normalize_location(install_location) {
        None => {
            assert(string_views(r@) =~= Seq::<Seq<char>>::empty());
            return r;
        },
        Some(n) => n,
    };
    let ms = marker_names();
    let mut k: usize = 0;
    assert(string_views(r@) =~= Seq::<Seq<char>>::empty());
    while k < ms.len()
        invariant
            k <= ms@.len(),
            string_views(ms@) == markers(),
            string_views(r@) == markers().take(k as int).map_values(|m: Seq<char>| join(norm@, m)),
        decreases ms.len() - k,
    {
        assert(string_views(ms@)[k as int] == ms@[k as int]@);
        push_string(&mut r, join_path(norm.as_str(), ms[k].as_str()));
        k = k + 1;
        assert(markers().take(k as int).map_values(|m: Seq<char>| join(norm@, m)) =~= markers().take(k - 1).map_values(
            |m: Seq<char>| join(norm@, m),
        ).push(join(norm@, markers()[k - 1])));
    }
    assert(markers().take(6) =~= markers());
    let cs = path_components(norm.as_str());
    let ghost mid = string_views(r@);
    match find_vendor_segment(&cs) {
        Some(i) => {
            let base = collect_path(&cs, i);
            assert(string_views(cs@)[i as int] == cs@[i as int]@);
            let cv = chars_of(cs[i].as_str());
            let is_jci = eq_ignore_ascii_case_vec(&cv, &chars_of("JCI"));
            push_string(&mut r, join_path(base.as_str(), if is_jci { "Tyco" } else { "JCI" }));
        },
        None => {},
    }
    push_string(&mut r, join_path(norm.as_str(), "JCI"));
    push_string(&mut r, join_path(norm.as_str(), "Tyco"));
    proof {
        let sv = string_views(r@);
        let expect = vendor_probes(match install_location {
            Some(l) => Some(l@),
            None => None,
        });
        assert(sv =~= expect);
    }
    r
}

/// The default log components: (display name, folder relative to a vendor
/// root).
pub open spec fn log_components() -> Seq<(Seq<char>, Seq<char>)> {
    seq![
        ("CCure Portal logs"@, "CCure Portal\\logs"@),
        ("CCure Web logs"@, "CCure Web\\logs"@),
        ("CrossFire Logging (System Trace)"@, "CrossFire\\Logging"@),
        ("Security Intelligence Datacache logs"@, "SecurityIntelligence\\Datacache\\logs"@),
        ("VictorWeb Logs"@, "victorWeb\\Logs"@),
        ("VictorWebServices auth logs"@, "victorWebServices\\victorWebsite\\auth\\logs"@),
        ("VictorWebServices Website Logs"@, "victorWebServices\\victorWebsite\\Logs"@),
    ]
}

pub fn log_component_list() -> (r: Vec<(String, String)>)
    ensures
        r@.map_values(|c: (String, String)| (c.0@, c.1@)) == log_components(),
{
    let mut r: Vec<(String, String)> = Vec::new();
    r.push((String::from_str("CCure Portal logs"), String::from_str("CCure Portal\\logs")));
    r.push((String::from_str("CCure Web logs"), String::from_str("CCure Web\\logs")));
    r.push((String::from_str("CrossFire Logging (System Trace)"), String::from_str("CrossFire\\Logging")));
    r.push((String::from_str("Security Intelligence Datacache logs"), String::from_str("SecurityIntelligence\\Datacache\\logs")));
    r.push((String::from_str("VictorWeb Logs"), String::from_str("victorWeb\\Logs")));
    r.push((String::from_str("VictorWebServices auth logs"), String::from_str("victorWebServices\\victorWebsite\\auth\\logs")));
    r.push((String::from_str("VictorWebServices Website Logs"), String::from_str("victorWebServices\\victorWebsite\\Logs")));
    assert(r@.map_values(|c: (String, String)| (c.0@, c.1@)) =~= log_components());
    r
}

/// A component's candidate folders: under the JCI root, then under the Tyco
/// root unless that is the same path.
pub open spec fn component_paths(jci: Seq<char>, tyco: Seq<char>, rel: Seq<char>) -> Seq<Seq<char>> {
    let a = join(jci, rel);
    let b = join(tyco, rel);
    if same_windows_path(b, a) { seq![a] } else { seq![a, b] }
}

/// The log components collected, by display name, and the folder under each
/// vendor root each is read from: `CCure Portal\logs`, `CCure Web\logs`,
/// `CrossFire\Logging`, `SecurityIntelligence\Datacache\logs`,
/// `victorWeb\Logs`, `victorWebServices\victorWebsite\auth\logs` and
/// `victorWebServices\victorWebsite\Logs`, in that order, for any roots; the
/// JCI root's folder comes first and the Tyco root's follows unless it is
/// the same path.
pub proof fn law_log_component_folders(jci: Seq<char>, tyco: Seq<char>)
    ensures
        ({
            let cs = log_components().map_values(|c: (Seq<char>, Seq<char>)| (c.0, component_paths(jci, tyco, c.1)));
            &&& cs.len() == 7
            &&& cs[0] == ("CCure Portal logs"@, component_paths(jci, tyco, "CCure Portal\\logs"@))
            &&& cs[1] == ("CCure Web logs"@, component_paths(jci, tyco, "CCure Web\\logs"@))
            &&& cs[2] == ("CrossFire Logging (System Trace)"@, component_paths(jci, tyco, "CrossFire\\Logging"@))
            &&& cs[3] == ("Security Intelligence Datacache logs"@, component_paths(
                jci,
                tyco,
                "SecurityIntelligence\\Datacache\\logs"@,
            ))
            &&& cs[4] == ("VictorWeb Logs"@, component_paths(jci, tyco, "victorWeb\\Logs"@))
            &&& cs[5] == ("VictorWebServices auth logs"@, component_paths(
                jci,
                tyco,
                "victorWebServices\\victorWebsite\\auth\\logs"@,
            ))
            &&& cs[6] == ("VictorWebServices Website Logs"@, component_paths(
                jci,
                tyco,
                "victorWebServices\\victorWebsite\\Logs"@,
            ))
        }),
        forall|rel: Seq<char>|
            #![trigger component_paths(jci, tyco, rel)]
            component_paths(jci, tyco, rel)[0] == join(jci, rel) && (!same_windows_path(join(tyco, rel), join(jci, rel))
                ==> component_paths(jci, tyco, rel) == seq![join(jci, rel), join(tyco, rel)]),
{
}

pub open spec fn component_views(v: Seq<(String, Vec<String>)>) -> Seq<(Seq<char>, Seq<Seq<char>>)> {
    v.map_values(|c: (String, Vec<String>)| (c.0@, string_views(c.1@)))
}

/// Per log component: its name and its unique candidate folders under both
/// vendor roots.
pub fn log_component_paths(jci: &str, tyco: &str) -> (r: Vec<(String, Vec<String>)>)
    ensures
        component_views(r@) == log_components().map_values(
            |c: (Seq<char>, Seq<char>)| (c.0, component_paths(jci@, tyco@, c.1)),
        ),
{
    let comps = log_component_list();
    let ghost lc = log_components();
    let ghost f = |c: (Seq<char>, Seq<char>)| (c.0, component_paths(jci@, tyco@, c.1));
    let mut r: Vec<(String, Vec<String>)> = Vec::new();
    let mut i: usize = 0;
    assert(component_views(r@) =~= lc.take(0).map_values(f));
    while i < comps.len()
        invariant
            i <= comps@.len(),
            lc == log_components(),
            comps@.map_values(|c: (String, String)| (c.0@, c.1@)) == lc,
            f == (|c: (Seq<char>, Seq<char>)| (c.0, component_paths(jci@, tyco@, c.1))),
            component_views(r@) == lc.take(i as int).map_values(f),
        decreases comps.len() - i,
    {
        assert(lc[i as int] == (comps@[i as int].0@, comps@[i as int].1@));
        let a = join_path(jci, comps[i].1.as_str());
        let b = join_path(tyco, comps[i].1.as_str());
        let mut paths: Vec<String> = Vec::new();
        push_string(&mut paths, a.clone());
        if !same_windows_path_exec(b.as_str(), a.as_str()) {
            push_string(&mut paths, b);
        }
        assert(string_views(paths@) =~= component_paths(jci@, tyco@, lc[i as int].1));
        let ghost before = r@;
        r.push((comps[i].0.clone(), paths));
        assert(component_views(r@) =~= component_views(before).push(f(lc[i as int])));
        i = i + 1;
        assert(lc.take(i as int).map_values(f) =~= lc.take(i - 1).map_values(f).push(f(lc[i - 1])));
    }
    assert(lc.take(lc.len() as int) =~= lc);
    r
}

/// The install caches, JCI preferred: `<ProgramData>\JCI\InstallCache`, then
/// `<ProgramData>\Tyco\InstallCache`.
pub fn install_cache_candidates(program_data: &str) -> (r: [String; 2])
    ensures
        r[0]@ == join(program_data@, "JCI\\InstallCache"@),
        r[1]@ == join(program_data@, "Tyco\\InstallCache"@),
{
    [join_path(program_data, "JCI\\InstallCache"), join_path(program_data, "Tyco\\InstallCache")]
}

/// The newest of the files found (each with its modification time), the
/// first of them found when several share the newest time; `None` when none
/// was found. The search visits `<ProgramData>\Tyco\InstallerTemp`, then the
/// JCI one.
pub fn find_install_history(found: &Vec<(String, u128)>) -> (r: Option<String>)
    ensures
        found@.len() == 0 <==> r is None,
        r matches Some(p) ==> exists|k: int|
            0 <= k < found@.len() && p@ == found@[k].0@ && (forall|j: int|
                0 <= j < found@.len() ==> (#[trigger] found@[j]).1 <= found@[k].1) && (forall|j: int|
                0 <= j < k ==> (#[trigger] found@[j]).1 < found@[k].1),
{
    if found.len() == 0 {
        return None;
    }
    let mut best: usize = 0;
    let mut i: usize = 1;
    while i < found.len()
        invariant
            1 <= i <= found@.len(),
            best < i,
            forall|j: int| 0 <= j < i ==> (#[trigger] found@[j]).1 <= found@[best as int].1,
            forall|j: int| 0 <= j < best ==> (#[trigger] found@[j]).1 < found@[best as int].1,
        decreases found.len() - i,
    {
        if found[i].1 > found[best].1 {
            best = i;
        }
        i = i + 1;
    }
    Some(found[best].0.clone())
}

/// The modification times of files found.
pub open spec fn found_times(found: Seq<(String, u128)>) -> Seq<u128> {
    found.map_values(|f: (String, u128)| f.1)
}

/// The newest `max` of the files found, newest first (equal times keep the
/// order they were found in).
pub fn find_dashboard_configs(found: &Vec<(String, u128)>, max: usize) -> (r: Vec<String>)
    ensures
        exists|order: Seq<usize>|
            #[trigger] crate::order::is_stable_order(found_times(found@), order, true) && r@.len() == (
            if max < found@.len() { max as int } else { found@.len() as int }) && forall|k: int|
                0 <= k < r@.len() ==> (#[trigger] r@[k])@ == found@[order[k] as int].0@,
{
    let mut keys: Vec<u128> = Vec::new();
    let mut i: usize = 0;
    while i < found.len()
        invariant
            i <= found@.len(),
            keys@ == found_times(found@.take(i as int)),
        decreases found.len() - i,
    {
        keys.push(found[i].1);
        i = i + 1;
        assert(keys@ =~= found_times(found@.take(i as int)));
    }
    assert(found@.take(found@.len() as int) =~= found@);
    let order = crate::order::stable_order(&keys, true);
    let n = if max < found.len() { max } else { found.len() };
    let mut r: Vec<String> = Vec::new();
    let mut k: usize = 0;
    while k < n
        invariant
            k <= n,
            n <= found@.len(),
            order@.len() == found@.len(),
            forall|j: int| 0 <= j < order@.len() ==> #[trigger] order@[j] < found@.len(),
            r@.len() == k,
            forall|j: int| 0 <= j < k ==> (#[trigger] r@[j])@ == found@[order@[j] as int].0@,
        decreases n - k,
    {
        let idx = order[k];
        r.push(found[idx].0.clone());
        k = k + 1;
    }
    r
}

/// `str::to_lowercase`: full Unicode lower-casing.
pub uninterp spec fn unicode_lowercase(s: Seq<char>) -> Seq<char>;

/// `s.to_lowercase()`. Claimed: the result is a function of `s` alone.
#[verifier::external_body]
fn to_lowercase(s: &str) -> (r: String)
    ensures
        r@ == unicode_lowercase(s@),
{
    s.to_lowercase()
}

/// `Path::parent` on Windows: the path without its last component, unless
/// that is its prefix or root (or there is none).
pub open spec fn parent_of(p: Seq<char>) -> Option<Seq<char>> {
    let cs = components(p);
    if cs.len() == 0 {
        None
    } else {
        let last = cs.last();
        if (crate::winpath::prefix_len(last) == last.len() && last.len() > 0) || last == seq!['\\'] {
            None
        } else {
            Some(collect_components(cs.drop_last()))
        }
    }
}

/// Bulk-update folders are `CrossFire\ServerComponents` under these roots.
pub open spec fn bulk_rel() -> Seq<char> {
    "CrossFire\\ServerComponents"@
}

/// The candidate folders before duplicates are removed: under the install
/// location and its parent, both vendor roots, and both `Program Files (x86)`
/// vendor folders of `C:`.
pub open spec fn bulk_raw(loc: Option<Seq<char>>, jci: Seq<char>, tyco: Seq<char>) -> Seq<Seq<char>> {
    let head: Seq<Seq<char>> = match normalized_location(loc) {
        Some(norm) => seq![join(norm, bulk_rel())] + match parent_of(norm) {
            Some(par) => seq![join(par, bulk_rel())],
            None => Seq::empty(),
        },
        None => Seq::empty(),
    };
    head + seq![
        join(jci, bulk_rel()),
        join(tyco, bulk_rel()),
        join("C:\\Program Files (x86)\\JCI"@, bulk_rel()),
        join("C:\\Program Files (x86)\\Tyco"@, bulk_rel()),
    ]
}

/// `Vec::dedup` by path equality: a path equal to the one kept before it is
/// dropped.
pub open spec fn dedup_paths(xs: Seq<Seq<char>>) -> Seq<Seq<char>>
    decreases xs.len(),
{
    if xs.len() == 0 {
        Seq::empty()
    } else {
        let d = dedup_paths(xs.drop_last());
        if d.len() > 0 && same_windows_path(xs.last(), d.last()) { d } else { d.push(xs.last()) }
    }
}

/// Only the first of the paths with the same lower-cased text is kept.
pub open spec fn unique_lowercase(xs: Seq<Seq<char>>) -> Seq<Seq<char>>
    decreases xs.len(),
{
    if xs.len() == 0 {
        Seq::empty()
    } else {
        let seen = exists|j: int| 0 <= j < xs.len() - 1 && unicode_lowercase(#[trigger] xs[j]) == unicode_lowercase(xs.last());
        unique_lowercase(xs.drop_last()) + if seen { Seq::empty() } else { seq![xs.last()] }
    }
}

/// Bulk-update candidate folders, without duplicates (by path, then by
/// lower-cased text).
pub open spec fn bulk_candidates(loc: Option<Seq<char>>, jci: Seq<char>, tyco: Seq<char>) -> Seq<Seq<char>> {
    unique_lowercase(dedup_paths(bulk_raw(loc, jci, tyco)))
}

/// `Path::parent` on Windows, as [`parent_of`] states it.
pub fn parent_path(p: &str) -> (r: Option<String>)
    ensures
        opt_view(r) == parent_of(p@),
{
    let cs = path_components(p);
    if cs.len() == 0 {
        return None;
    }
    let n = cs.len();
    assert(string_views(cs@).last() == cs@[n - 1]@);
    let lv = chars_of(cs[n - 1].as_str());
    let is_prefix = crate::winpath::prefix_length_of(cs[n - 1].as_str()) == lv.len() && lv.len() > 0;
    let is_root = lv.len() == 1 && lv[0] == '\\';
    assert(is_root == (cs@[n - 1]@ == seq!['\\'])) by {
        if lv@.len() == 1 && lv@[0] == '\\' {
            assert(lv@ =~= seq!['\\']);
        }
    }
    if is_prefix || is_root {
        return None;
    }
    let r = collect_path(&cs, n - 1);
    assert(string_views(cs@).take(n - 1) =~= string_views(cs@).drop_last());
    Some(r)
}

/// Bulk-update candidate folders: `CrossFire\ServerComponents` under the
/// install location, its parent, both vendor roots and the `Program Files
/// (x86)` vendor folders, each once (compared as paths, then ignoring case).
pub fn bulk_update_candidates(install_location: Option<&str>, jci: &str, tyco: &str) -> (r: Vec<String>)
    ensures
        string_views(r@) == bulk_candidates(
            match install_location {
                Some(l) => Some(l@),
                None => None,
            },
            jci@,
            tyco@,
        ),
{
    let rel = "CrossFire\\ServerComponents";
    let mut raw: Vec<String> = Vec::new();
    assert(string_views(raw@) =~= Seq::<Seq<char>>::empty());
    match normalize_location(install_location) {
        Some(norm) => {
            push_string(&mut raw, join_path(norm.as_str(), rel));
            match parent_path(norm.as_str()) {
                Some(par) => push_string(&mut raw, join_path(par.as_str(), rel)),
                None => {},
            }
        },
        None => {},
    }
    push_string(&mut raw, join_path(jci, rel));
    push_string(&mut raw, join_path(tyco, rel));
    push_string(&mut raw, join_path("C:\\Program Files (x86)\\JCI", rel));
    push_string(&mut raw, join_path("C:\\Program Files (x86)\\Tyco", rel));
    let ghost rv = bulk_raw(
        match install_location {
            Some(l) => Some(l@),
            None => None,
        },
        jci@,
        tyco@,
    );
    assert(string_views(raw@) =~= rv);
    // Vec::dedup by path equality.
    let mut dd: Vec<String> = Vec::new();
    let mut i: usize = 0;
    assert(string_views(dd@) =~= dedup_paths(rv.take(0)));
    while i < raw.len()
        invariant
            i <= raw@.len(),
            string_views(raw@) == rv,
            string_views(dd@) == dedup_paths(rv.take(i as int)),
        decreases raw.len() - i,
    {
        proof {
            let t = rv.take(i + 1);
            assert(t.drop_last() =~= rv.take(i as int));
            assert(t.last() == raw@[i as int]@);
        }
        let n = dd.len();
        if n > 0 {
            assert(string_views(dd@).last() == dd@[n - 1]@);
        }
        if !(n > 0 && same_windows_path_exec(raw[i].as_str(), dd[n - 1].as_str())) {
            push_string(&mut dd, raw[i].clone());
        }
        i = i + 1;
    }
    assert(rv.take(rv.len() as int) =~= rv);
    let ghost dv = string_views(dd@);
    // Keep the first of each lower-cased text.
    let mut lowers: Vec<String> = Vec::new();
    let mut out: Vec<String> = Vec::new();
    let mut k: usize = 0;
    assert(string_views(out@) =~= unique_lowercase(dv.take(0)));
    while k < dd.len()
        invariant
            k <= dd@.len(),
            dv == string_views(dd@),
            lowers@.len() == k,
            forall|j: int| 0 <= j < k ==> (#[trigger] lowers@[j])@ == unicode_lowercase(dv[j]),
            string_views(out@) == unique_lowercase(dv.take(k as int)),
        decreases dd.len() - k,
    {
        assert(dv[k as int] == dd@[k as int]@);
        let lk = to_lowercase(dd[k].as_str());
        let mut seen = false;
        let mut j: usize = 0;
        while j < k
            invariant
                j <= k,
                k < dd@.len(),
                lowers@.len() == k,
                lk@ == unicode_lowercase(dv[k as int]),
                forall|m: int| 0 <= m < k ==> (#[trigger] lowers@[m])@ == unicode_lowercase(dv[m]),
                seen <==> exists|m: int| 0 <= m < j && unicode_lowercase(#[trigger] dv[m]) == lk@,
            decreases k - j,
        {
            if crate::text::str_eq(lowers[j].as_str(), lk.as_str()) {
                seen = true;
            }
            j = j + 1;
        }
        proof {
            let t = dv.take(k + 1);
            assert(t.drop_last() =~= dv.take(k as int));
            assert(t.last() == dv[k as int]);
            assert((exists|m: int| 0 <= m < t.len() - 1 && unicode_lowercase(#[trigger] t[m]) == unicode_lowercase(t.last()))
                == (exists|m: int| 0 <= m < k && unicode_lowercase(#[trigger] dv[m]) == lk@)) by {
                if exists|m: int| 0 <= m < t.len() - 1 && unicode_lowercase(#[trigger] t[m]) == unicode_lowercase(t.last()) {
                    let m = choose|m: int| 0 <= m < t.len() - 1 && unicode_lowercase(#[trigger] t[m]) == unicode_lowercase(t.last());
                    assert(t[m] == dv[m]);
                }
                if exists|m: int| 0 <= m < k && unicode_lowercase(#[trigger] dv[m]) == lk@ {
                    let m = choose|m: int| 0 <= m < k && unicode_lowercase(#[trigger] dv[m]) == lk@;
                    assert(t[m] == dv[m]);
                }
            }
        }
        if !seen {
            push_string(&mut out, dd[k].clone());
        }
        lowers.push(lk);
        k = k + 1;
    }
    assert(dv.take(dv.len() as int) =~= dv);
    out
}

/// No two bulk-update candidates have the same lower-cased text.
pub proof fn law_bulk_candidates_unique(loc: Option<Seq<char>>, jci: Seq<char>, tyco: Seq<char>)
    ensures
        ({
            let c = bulk_candidates(loc, jci, tyco);
            forall|a: int, b: int|
                0 <= a < b < c.len() ==> unicode_lowercase(#[trigger] c[a]) != unicode_lowercase(#[trigger] c[b])
        }),
{
    lemma_unique_lowercase(dedup_paths(bulk_raw(loc, jci, tyco)));
}

proof fn lemma_unique_lowercase(xs: Seq<Seq<char>>)
    ensures
        forall|a: int, b: int|
            0 <= a < b < unique_lowercase(xs).len() ==> unicode_lowercase(#[trigger] unique_lowercase(xs)[a])
                != unicode_lowercase(#[trigger] unique_lowercase(xs)[b]),
        forall|a: int|
            0 <= a < unique_lowercase(xs).len() ==> exists|j: int|
                0 <= j < xs.len() && #[trigger] unique_lowercase(xs)[a] == xs[j],
    decreases xs.len(),
{
    if xs.len() > 0 {
        let init = xs.drop_last();
        lemma_unique_lowercase(init);
        let u0 = unique_lowercase(init);
        let u = unique_lowercase(xs);
        assert forall|a: int| 0 <= a < u.len() implies exists|j: int| 0 <= j < xs.len() && #[trigger] u[a] == xs[j] by {
            if a < u0.len() {
                assert(u[a] == u0[a]);
                let j = choose|j: int| 0 <= j < init.len() && u0[a] == init[j];
                assert(xs[j] == init[j]);
            } else {
                assert(u[a] == xs.last());
                assert(xs[xs.len() - 1] == xs.last());
            }
        }
        assert forall|a: int, b: int| 0 <= a < b < u.len() implies unicode_lowercase(#[trigger] u[a])
            != unicode_lowercase(#[trigger] u[b]) by {
            if b < u0.len() {
                assert(u[a] == u0[a] && u[b] == u0[b]);
            } else {
                assert(u[b] == xs.last());
                assert(u[a] == u0[a]);
                let j = choose|j: int| 0 <= j < init.len() && u0[a] == init[j];
                assert(xs[j] == init[j]);
                if unicode_lowercase(u[a]) == unicode_lowercase(u[b]) {
                    assert(0 <= j < xs.len() - 1 && unicode_lowercase(xs[j]) == unicode_lowercase(xs.last()));
                }
            }
        }
    }
}


proof fn lemma_unique_lowercase_covers(xs: Seq<Seq<char>>)
    ensures
        forall|j: int|
            0 <= j < xs.len() ==> exists|a: int|
                0 <= a < unique_lowercase(xs).len() && unicode_lowercase(#[trigger] unique_lowercase(xs)[a])
                    == unicode_lowercase(#[trigger] xs[j]),
    decreases xs.len(),
{
    if xs.len() > 0 {
        let init = xs.drop_last();
        lemma_unique_lowercase_covers(init);
        let u0 = unique_lowercase(init);
        let u = unique_lowercase(xs);
        assert forall|j: int| 0 <= j < xs.len() implies exists|a: int|
            0 <= a < u.len() && unicode_lowercase(#[trigger] u[a]) == unicode_lowercase(#[trigger] xs[j]) by {
            if j < init.len() {
                assert(xs[j] == init[j]);
                let a = choose|a: int| 0 <= a < u0.len() && unicode_lowercase(#[trigger] u0[a]) == unicode_lowercase(
                    #[trigger] init[j],
                );
                assert(u[a] == u0[a]);
            } else {
                let seen = exists|k: int|
                    0 <= k < xs.len() - 1 && unicode_lowercase(#[trigger] xs[k]) == unicode_lowercase(xs.last());
                if seen {
                    let k = choose|k: int|
                        0 <= k < xs.len() - 1 && unicode_lowercase(#[trigger] xs[k]) == unicode_lowercase(xs.last());
                    assert(xs[k] == init[k]);
                    let a = choose|a: int| 0 <= a < u0.len() && unicode_lowercase(#[trigger] u0[a])
                        == unicode_lowercase(#[trigger] init[k]);
                    assert(u[a] == u0[a]);
                } else {
                    assert(u[u.len() - 1] == xs.last());
                }
            }
        }
    }
}

/// Two paths are the same path ([`same_windows_path`]).
#[verifier::opaque]
pub open spec fn same_path(a: Seq<char>, b: Seq<char>) -> bool {
    same_windows_path(a, b)
}

/// Each of `xs` is the same path as one of `ys`.
#[verifier::opaque]
pub open spec fn paths_covered(xs: Seq<Seq<char>>, ys: Seq<Seq<char>>) -> bool {
    forall|j: int| 0 <= j < xs.len() ==> exists|k: int|
        0 <= k < ys.len() && same_path(#[trigger] xs[j], #[trigger] ys[k])
}

/// Each of `xs` has the same lower-cased text as one of `ys`.
#[verifier::opaque]
pub open spec fn cases_covered(xs: Seq<Seq<char>>, ys: Seq<Seq<char>>) -> bool {
    forall|j: int| 0 <= j < xs.len() ==> exists|k: int|
        0 <= k < ys.len() && unicode_lowercase(#[trigger] ys[k]) == unicode_lowercase(#[trigger] xs[j])
}

/// Each of `xs` is one of `ys`.
#[verifier::opaque]
pub open spec fn drawn_from(xs: Seq<Seq<char>>, ys: Seq<Seq<char>>) -> bool {
    forall|a: int| 0 <= a < xs.len() ==> exists|j: int| 0 <= j < ys.len() && #[trigger] xs[a] == ys[j]
}

proof fn lemma_dedup_covers(xs: Seq<Seq<char>>)
    ensures
        paths_covered(xs, dedup_paths(xs)),
        drawn_from(dedup_paths(xs), xs),
    decreases xs.len(),
{
    reveal(paths_covered);
    reveal(drawn_from);
    if xs.len() > 0 {
        let init = xs.drop_last();
        lemma_dedup_covers(init);
        let d0 = dedup_paths(init);
        let d = dedup_paths(xs);
        let dropped = d0.len() > 0 && same_windows_path(xs.last(), d0.last());
        assert forall|j: int| 0 <= j < xs.len() implies exists|k: int|
            0 <= k < d.len() && same_path(#[trigger] xs[j], #[trigger] d[k]) by {
            if j < init.len() {
                assert(xs[j] == init[j]);
                let k = choose|k: int| 0 <= k < d0.len() && same_path(#[trigger] init[j], #[trigger] d0[k]);
                assert(d[k] == d0[k]);
            } else if dropped {
                assert(d[d0.len() - 1] == d0.last());
                assert(same_path(xs[j], d[d0.len() - 1])) by {
                    reveal(same_path);
                }
            } else {
                assert(d[d.len() - 1] == xs.last());
                assert(same_path(xs[j], d[d.len() - 1])) by {
                    reveal(same_path);
                }
            }
        }
        assert forall|k: int| 0 <= k < d.len() implies exists|j: int| 0 <= j < xs.len() && #[trigger] d[k] == xs[j] by {
            if k < d0.len() {
                assert(d[k] == d0[k]);
                let j = choose|j: int| 0 <= j < init.len() && #[trigger] d0[k] == init[j];
                assert(xs[j] == init[j]);
            } else {
                assert(d[k] == xs[xs.len() - 1]);
            }
        }
    }
}

proof fn lemma_candidates_cover(raw: Seq<Seq<char>>)
    ensures
        paths_covered(raw, dedup_paths(raw)),
        cases_covered(dedup_paths(raw), unique_lowercase(dedup_paths(raw))),
        drawn_from(unique_lowercase(dedup_paths(raw)), raw),
{
    let d = dedup_paths(raw);
    let c = unique_lowercase(d);
    lemma_dedup_covers(raw);
    lemma_unique_lowercase_covers(d);
    lemma_unique_lowercase(d);
    reveal(cases_covered);
    reveal(drawn_from);
    assert forall|a: int| 0 <= a < c.len() implies exists|j: int| 0 <= j < raw.len() && #[trigger] c[a] == raw[j] by {
        let k = choose|k: int| 0 <= k < d.len() && #[trigger] c[a] == d[k];
        let j = choose|j: int| 0 <= j < raw.len() && #[trigger] d[k] == raw[j];
    }
}

/// Every bulk-update folder is looked at: each raw candidate is the same
/// path as a folder kept by the first pass, each of those has the same
/// lower-cased text as a folder in the result, and every folder of the
/// result is a raw candidate.
pub proof fn law_bulk_candidates_cover(loc: Option<Seq<char>>, jci: Seq<char>, tyco: Seq<char>)
    ensures
        paths_covered(bulk_raw(loc, jci, tyco), dedup_paths(bulk_raw(loc, jci, tyco))),
        cases_covered(dedup_paths(bulk_raw(loc, jci, tyco)), bulk_candidates(loc, jci, tyco)),
        drawn_from(bulk_candidates(loc, jci, tyco), bulk_raw(loc, jci, tyco)),
{
    lemma_candidates_cover(bulk_raw(loc, jci, tyco));
}

} // verus!
