//! Which ProcDump binary (32- or 64-bit) can attach to the target.

use vstd::prelude::*;
use crate::pe::{
    cor20_flags, pe_machine, spec_cor20_flags, spec_pe_machine, COMIMAGE_FLAGS_32BITPREFERRED,
    COMIMAGE_FLAGS_32BITREQUIRED, IMAGE_FILE_MACHINE_AMD64, IMAGE_FILE_MACHINE_ARM64,
    IMAGE_FILE_MACHINE_I386,
};
use crate::text::{
    ascii_lower_seq, ascii_lower_vec, chars_of, eq_ignore_ascii_case, eq_ignore_ascii_case_vec,
    extend_chars, find, find_vec, first_ws_from, first_ws_vec, lines, lines_vec, starts_with,
    starts_with_vec, string_of, sub_vec, trim, trim_start, trim_start_vec, trim_vec,
};
use crate::winpath::{join, join_path};
use crate::config::{Config, TargetType};

verus! {

/// Bitness of a target process.
#[derive(Debug, Clone, Copy, PartialEq, Eq, Structural)]
pub enum Bitness {
    Unknown,
    X86,
    X64,
}

/// The bitness a PE image runs with on a 64-bit OS.
///
/// A managed PE32 (machine I386) with neither `32BITREQUIRED` nor
/// `32BITPREFERRED` is AnyCPU and runs 64-bit; any other I386 image runs
/// 32-bit; AMD64 and ARM64 images run 64-bit; anything else is Unknown.
pub open spec fn spec_bitness(d: Seq<u8>) -> Bitness {
    match spec_pe_machine(d) {
        Some(m) => if m == IMAGE_FILE_MACHINE_I386 {
            match spec_cor20_flags(d) {
                Some(f) => if f & COMIMAGE_FLAGS_32BITREQUIRED == 0 && f & COMIMAGE_FLAGS_32BITPREFERRED == 0 {
                    Bitness::X64
                } else {
                    Bitness::X86
                },
                None => Bitness::X86,
            }
        } else if m == IMAGE_FILE_MACHINE_AMD64 || m == IMAGE_FILE_MACHINE_ARM64 {
            Bitness::X64
        } else {
            Bitness::Unknown
        },
        None => Bitness::Unknown,
    }
}

/// Map a PE image (the bytes of the file) to the binary-selection decision.
pub fn bitness_from_pe(image: &[u8]) -> (b: Bitness)
    ensures
        b == spec_bitness(image@),
{
    match pe_machine(image) {
        Some(m) => if m == IMAGE_FILE_MACHINE_I386 {
            match cor20_flags(image) {
                Some(f) => if f & COMIMAGE_FLAGS_32BITREQUIRED == 0 && f & COMIMAGE_FLAGS_32BITPREFERRED == 0 {
                    Bitness::X64
                } else {
                    Bitness::X86
                },
                None => Bitness::X86,
            }
        } else if m == IMAGE_FILE_MACHINE_AMD64 || m == IMAGE_FILE_MACHINE_ARM64 {
            Bitness::X64
        } else {
            Bitness::Unknown
        },
        None => Bitness::Unknown,
    }
}

/// An image whose machine word is AMD64 or ARM64 is 64-bit whatever its CLI
/// header says.
pub proof fn law_native_64bit_machine_decides(d: Seq<u8>)
    requires
        spec_pe_machine(d) == Some(IMAGE_FILE_MACHINE_AMD64) || spec_pe_machine(d) == Some(IMAGE_FILE_MACHINE_ARM64),
    ensures
        spec_bitness(d) == Bitness::X64,
{
}

/// An I386 image is never Unknown: it is X64 exactly when it is managed and
/// carries neither 32-bit flag, X86 otherwise.
pub proof fn law_i386_is_never_unknown(d: Seq<u8>)
    requires
        spec_pe_machine(d) == Some(IMAGE_FILE_MACHINE_I386),
    ensures
        spec_bitness(d) != Bitness::Unknown,
        spec_bitness(d) == Bitness::X64 <==> (spec_cor20_flags(d) matches Some(f)
            && f & COMIMAGE_FLAGS_32BITREQUIRED == 0 && f & COMIMAGE_FLAGS_32BITPREFERRED == 0),
{
}

/// Unknown means exactly that no known machine word could be read.
pub proof fn law_unknown_iff_no_known_machine(d: Seq<u8>)
    ensures
        spec_bitness(d) == Bitness::Unknown <==> !(spec_pe_machine(d) == Some(IMAGE_FILE_MACHINE_I386)
            || spec_pe_machine(d) == Some(IMAGE_FILE_MACHINE_AMD64)
            || spec_pe_machine(d) == Some(IMAGE_FILE_MACHINE_ARM64)),
{
}

/// `true` unless the environment says this is a 32-bit OS: the architecture
/// reads `x86` (any casing) and no WOW64 architecture is set.
pub open spec fn spec_os_is_64_from(arch: Option<Seq<char>>, arch_w6432: Option<Seq<char>>) -> bool {
    (match arch {
        Some(a) => !eq_ignore_ascii_case(a, seq!['x', '8', '6']),
        None => true,
    }) || arch_w6432 is Some
}

/// Decide "64-bit OS" from `PROCESSOR_ARCHITECTURE` and
/// `PROCESSOR_ARCHITEW6432`.
pub fn os_is_64_from(arch: Option<String>, arch_w6432: Option<String>) -> (r: bool)
    ensures
        r == spec_os_is_64_from(
            match arch { Some(a) => Some(a@), None => None },
            match arch_w6432 { Some(a) => Some(a@), None => None },
        ),
{
    let not_x86 = match &arch {
        Some(a) => {
            let v = chars_of(a.as_str());
            let x86 = vec!['x', '8', '6'];
            assert(x86@ == seq!['x', '8', '6']);
            !eq_ignore_ascii_case_vec(&v, &x86)
        },
        None => true,
    };
    not_x86 || arch_w6432.is_some()
}

/// The binary chosen for a target, with an optional warning and a one-line
/// summary for logs and the GUI.
pub struct BinaryChoice {
    pub actual: String,
    pub warning: Option<String>,
    pub summary: String,
}

/// The abstract value of a [`BinaryChoice`].
pub struct BinaryChoiceView {
    pub actual: Seq<char>,
    pub warning: Option<Seq<char>>,
    pub summary: Seq<char>,
}

impl View for BinaryChoice {
    type V = BinaryChoiceView;

    open spec fn view(&self) -> BinaryChoiceView {
        BinaryChoiceView {
            actual: self.actual@,
            warning: match self.warning { Some(w) => Some(w@), None => None },
            summary: self.summary@,
        }
    }
}

/// The selection rule: refuse when neither binary is present; on a 32-bit OS
/// prefer `procdump.exe`; otherwise match the target's bitness, falling back
/// to the other binary with a warning; Unknown defaults to `procdump64.exe`.
pub open spec fn spec_select_binary(b: Bitness, dir: Seq<char>, os_is_64: bool, has64: bool, has32: bool) -> BinaryChoiceView {
    let pd64 = join(dir, "procdump64.exe"@);
    let pd32 = join(dir, "procdump.exe"@);
    if !has64 && !has32 {
        BinaryChoiceView {
            actual: Seq::empty(),
            warning: Some("Neither procdump.exe nor procdump64.exe found in the ProcDump directory."@),
            summary: "No ProcDump binary found"@,
        }
    } else if !os_is_64 {
        BinaryChoiceView {
            actual: if has32 { pd32 } else { pd64 },
            warning: if has32 { None } else {
                Some("procdump.exe not found; using procdump64.exe but it may not work on a 32-bit OS."@)
            },
            summary: "32-bit OS -> procdump.exe"@,
        }
    } else {
        match b {
            Bitness::X86 => if has32 {
                BinaryChoiceView { actual: pd32, warning: None, summary: "32-bit process -> procdump.exe"@ }
            } else {
                BinaryChoiceView {
                    actual: pd64,
                    warning: Some("procdump.exe not found - falling back to procdump64.exe."@),
                    summary: "32-bit process -> procdump64.exe (fallback)"@,
                }
            },
            Bitness::X64 => if has64 {
                BinaryChoiceView { actual: pd64, warning: None, summary: "64-bit process -> procdump64.exe"@ }
            } else {
                BinaryChoiceView {
                    actual: pd32,
                    warning: Some("procdump64.exe not found - falling back to procdump.exe."@),
                    summary: "64-bit process -> procdump.exe (fallback)"@,
                }
            },
            Bitness::Unknown => BinaryChoiceView {
                actual: if has64 { pd64 } else { pd32 },
                warning: if has64 { None } else { Some("procdump64.exe not found; using procdump.exe as fallback."@) },
                summary: if has64 { "Unknown bitness -> procdump64.exe (default)"@ } else { "Unknown bitness -> procdump.exe"@ },
            },
        }
    }
}

/// The chosen binary is one that is there: `procdump64.exe` only when it
/// exists, `procdump.exe` only when it exists, and none (an empty path with
/// a warning) when neither does. On a 64-bit OS a 64-bit target gets
/// `procdump64.exe` and a 32-bit target `procdump.exe` whenever that binary
/// exists, and an unknown one `procdump64.exe` when it exists; on a 32-bit OS
/// `procdump.exe` is taken whenever it exists. No warning is given exactly
/// when the preferred binary was found.
pub proof fn law_select_binary_picks_an_existing_binary(
    b: Bitness,
    dir: Seq<char>,
    os_is_64: bool,
    has64: bool,
    has32: bool,
)
    ensures
        ({
            let r = spec_select_binary(b, dir, os_is_64, has64, has32);
            let pd64 = join(dir, "procdump64.exe"@);
            let pd32 = join(dir, "procdump.exe"@);
            &&& (has64 || has32) ==> (has64 && r.actual == pd64) || (has32 && r.actual == pd32)
            &&& !has64 && !has32 ==> r.actual.len() == 0 && r.warning is Some
            &&& os_is_64 && b == Bitness::X64 && has64 ==> r.actual == pd64 && r.warning is None
            &&& os_is_64 && b == Bitness::X86 && has32 ==> r.actual == pd32 && r.warning is None
            &&& os_is_64 && b == Bitness::Unknown && has64 ==> r.actual == pd64 && r.warning is None
            &&& !os_is_64 && has32 ==> r.actual == pd32 && r.warning is None
            &&& (has64 || has32) && r.warning is Some ==> (if !os_is_64 {
                !has32
            } else {
                match b {
                    Bitness::X86 => !has32,
                    _ => !has64,
                }
            })
        }),
{
}

fn str_owned(s: &str) -> (r: String)
    ensures
        r@ == s@,
{
    String::from_str(s)
}

/// Pick the ProcDump binary in `procdump_dir`, where `has64` / `has32` say
/// whether `procdump64.exe` / `procdump.exe` exist there.
pub fn select_binary(bitness: Bitness, procdump_dir: &str, os_is_64: bool, has64: bool, has32: bool) -> (c: BinaryChoice)
    ensures
        c@ == spec_select_binary(bitness, procdump_dir@, os_is_64, has64, has32),
{
    let pd64 = join_path(procdump_dir, "procdump64.exe");
    let pd32 = join_path(procdump_dir, "procdump.exe");
    if !has64 && !has32 {
        return BinaryChoice {
            actual: String::new(),
            warning: Some(str_owned("Neither procdump.exe nor procdump64.exe found in the ProcDump directory.")),
            summary: str_owned("No ProcDump binary found"),
        };
    }
    if !os_is_64 {
        return BinaryChoice {
            actual: if has32 { pd32 } else { pd64 },
            warning: if has32 { None } else {
                Some(str_owned("procdump.exe not found; using procdump64.exe but it may not work on a 32-bit OS."))
            },
            summary: str_owned("32-bit OS -> procdump.exe"),
        };
    }
    match bitness {
        Bitness::X86 => if has32 {
            BinaryChoice { actual: pd32, warning: None, summary: str_owned("32-bit process -> procdump.exe") }
        } else {
            BinaryChoice {
                actual: pd64,
                warning: Some(str_owned("procdump.exe not found - falling back to procdump64.exe.")),
                summary: str_owned("32-bit process -> procdump64.exe (fallback)"),
            }
        },
        Bitness::X64 => if has64 {
            BinaryChoice { actual: pd64, warning: None, summary: str_owned("64-bit process -> procdump64.exe") }
        } else {
            BinaryChoice {
                actual: pd32,
                warning: Some(str_owned("procdump64.exe not found - falling back to procdump.exe.")),
                summary: str_owned("64-bit process -> procdump.exe (fallback)"),
            }
        },
        Bitness::Unknown => BinaryChoice {
            actual: if has64 { pd64 } else { pd32 },
            warning: if has64 { None } else { Some(str_owned("procdump64.exe not found; using procdump.exe as fallback.")) },
            summary: if has64 { str_owned("Unknown bitness -> procdump64.exe (default)") } else { str_owned("Unknown bitness -> procdump.exe") },
        },
    }
}


/// `s.trim_start_matches(p)`: strip `p` from the front as often as it occurs.
pub open spec fn strip_prefix_all(s: Seq<char>, p: Seq<char>) -> Seq<char>
    decreases s.len(),
{
    if p.len() > 0 && starts_with(s, p) {
        strip_prefix_all(s.subrange(p.len() as int, s.len() as int), p)
    } else {
        s
    }
}

/// Everything before the first `c` (all of `s` when there is none).
pub open spec fn before_char(s: Seq<char>, c: char) -> Seq<char> {
    match find(s, seq![c]) {
        Some(i) => s.subrange(0, i),
        None => s,
    }
}

/// The NT object-manager prefix `\??\`.
pub open spec fn nt_prefix() -> Seq<char> {
    seq!['\\', '?', '?', '\\']
}

pub open spec fn exe_suffix() -> Seq<char> {
    seq!['.', 'e', 'x', 'e']
}

/// A raw registry `ImagePath` before environment expansion: the quoted path,
/// or an unquoted one cut after its first `.exe` (found case-insensitively,
/// original casing kept), trimmed and without the `\??\` prefix; None when
/// nothing is left.
pub open spec fn spec_image_path_unexpanded(raw: Seq<char>) -> Option<Seq<char>> {
    let s = trim(raw);
    if s.len() == 0 {
        None
    } else {
        let path = if s[0] == '"' {
            before_char(s.drop_first(), '"')
        } else {
            match find(ascii_lower_seq(s), exe_suffix()) {
                Some(i) => s.subrange(0, i + 4),
                None => s,
            }
        };
        let p = trim(strip_prefix_all(trim(path), nt_prefix()));
        if p.len() == 0 { None } else { Some(p) }
    }
}

/// The value the environment gave for the `k`-th `%NAME%` token.
pub open spec fn env_value(vals: Seq<Option<Seq<char>>>, k: int) -> Option<Seq<char>> {
    if 0 <= k < vals.len() { vals[k] } else { None }
}

/// Expansion of `%NAME%` tokens in `rest`, the `k`-th token taking value
/// `vals[k]`; an unset variable stays literal, and a lone `%` is kept.
pub open spec fn expand_env_from(rest: Seq<char>, vals: Seq<Option<Seq<char>>>, k: int) -> Seq<char>
    decreases rest.len(),
{
    proof {
        crate::text::lemma_find_is_match(rest, seq!['%']);
    }
    match find(rest, seq!['%']) {
        None => rest,
        Some(start) => {
            let after = rest.subrange(start + 1, rest.len() as int);
            proof {
                crate::text::lemma_find_is_match(after, seq!['%']);
            }
            match find(after, seq!['%']) {
                None => rest,
                Some(end) => {
                    let name = after.subrange(0, end);
                    rest.subrange(0, start) + (match env_value(vals, k) {
                        Some(v) => v,
                        None => seq!['%'] + name + seq!['%'],
                    }) + expand_env_from(after.subrange(end + 1, after.len() as int), vals, k + 1)
                }
            }
        }
    }
}

/// Names of the `%NAME%` tokens in `rest`, in the order expansion reads them.
pub open spec fn env_names_from(rest: Seq<char>) -> Seq<Seq<char>>
    decreases rest.len(),
{
    proof {
        crate::text::lemma_find_is_match(rest, seq!['%']);
    }
    match find(rest, seq!['%']) {
        None => Seq::empty(),
        Some(start) => {
            let after = rest.subrange(start + 1, rest.len() as int);
            proof {
                crate::text::lemma_find_is_match(after, seq!['%']);
            }
            match find(after, seq!['%']) {
                None => Seq::empty(),
                Some(end) => seq![after.subrange(0, end)] + env_names_from(after.subrange(end + 1, after.len() as int)),
            }
        }
    }
}

/// The views of a list of optional strings.
pub open spec fn opt_views(v: Seq<Option<String>>) -> Seq<Option<Seq<char>>> {
    v.map_values(|o: Option<String>| match o { Some(s) => Some(s@), None => None })
}

/// The path `parse_image_path` hands back, given the environment's values.
pub open spec fn spec_parse_image_path(raw: Seq<char>, vals: Seq<Option<Seq<char>>>) -> Option<Seq<char>> {
    match spec_image_path_unexpanded(raw) {
        Some(p) => Some(expand_env_from(p, vals, 0)),
        None => None,
    }
}

/// The environment variables `parse_image_path` will read for `raw`.
pub open spec fn spec_image_path_env_names(raw: Seq<char>) -> Seq<Seq<char>> {
    match spec_image_path_unexpanded(raw) {
        Some(p) => env_names_from(p),
        None => Seq::empty(),
    }
}

fn strip_prefix_all_vec(s: &[char], p: &[char]) -> (r: Vec<char>)
    ensures
        r@ == strip_prefix_all(s@, p@),
{
    let mut pos: usize = 0;
    assert(s@.subrange(0, s@.len() as int) =~= s@);
    if p.len() == 0 {
        return sub_vec(s, 0, s.len());
    }
    loop
        invariant
            p@.len() > 0,
            pos <= s@.len(),
            strip_prefix_all(s@, p@) == strip_prefix_all(s@.subrange(pos as int, s@.len() as int), p@),
        decreases s.len() - pos,
    {
        let rest = sub_vec(s, pos, s.len());
        if !starts_with_vec(&rest, p) {
            return rest;
        }
        assert(rest@.subrange(p@.len() as int, rest@.len() as int) =~= s@.subrange(pos + p@.len(), s@.len() as int));
        pos = pos + p.len();
    }
}

fn image_path_unexpanded(raw: &str) -> (r: Option<Vec<char>>)
    ensures
        match r {
            Some(v) => spec_image_path_unexpanded(raw@) == Some(v@),
            None => spec_image_path_unexpanded(raw@) is None,
        },
{
    let chars = chars_of(raw);
    let s = trim_vec(&chars);
    if s.len() == 0 {
        return None;
    }
    let path = if s[0] == '"' {
        let rest = sub_vec(&s, 1, s.len());
        assert(rest@ =~= s@.drop_first());
        let quote = vec!['"'];
        assert(quote@ == seq!['"']);
        match find_vec(&rest, &quote) {
            Some(i) => sub_vec(&rest, 0, i),
            None => rest,
        }
    } else {
        let lower = ascii_lower_vec(&s);
        let exe = vec!['.', 'e', 'x', 'e'];
        assert(exe@ == exe_suffix());
        match find_vec(&lower, &exe) {
            Some(i) => {
                sub_vec(&s, 0, i + 4)
            },
            None => s,
        }
    };
    let t = trim_vec(&path);
    let nt = vec!['\\', '?', '?', '\\'];
    assert(nt@ == nt_prefix());
    let stripped = strip_prefix_all_vec(&t, &nt);
    let p = trim_vec(&stripped);
    if p.len() == 0 { None } else { Some(p) }
}


fn value_at(vals: &Vec<Option<String>>, k: usize) -> (r: Option<Vec<char>>)
    ensures
        match r {
            Some(v) => env_value(opt_views(vals@), k as int) == Some(v@),
            None => env_value(opt_views(vals@), k as int) is None,
        },
{
    if k < vals.len() {
        match &vals[k] {
            Some(v) => Some(chars_of(v.as_str())),
            None => None,
        }
    } else {
        None
    }
}

/// Expand `%NAME%` tokens of `s`, the `k`-th token taking `vals[k]`.
fn expand_env_vec(s: &[char], vals: &Vec<Option<String>>) -> (r: Vec<char>)
    ensures
        r@ == expand_env_from(s@, opt_views(vals@), 0),
{
    let ghost vs = opt_views(vals@);
    let mut out: Vec<char> = Vec::new();
    let mut pos: usize = 0;
    let mut k: usize = 0;
    let pct = vec!['%'];
    assert(pct@ == seq!['%']);
    assert(s@.subrange(0, s@.len() as int) =~= s@);
    loop
        invariant
            pct@ == seq!['%'],
            vs == opt_views(vals@),
            pos <= s@.len(),
            k <= pos,
            out@ + expand_env_from(s@.subrange(pos as int, s@.len() as int), vs, k as int)
                == expand_env_from(s@, vs, 0),
        decreases s.len() - pos,
    {
        let rest = sub_vec(s, pos, s.len());
        match find_vec(&rest, &pct) {
            None => {
                extend_chars(&mut out, &rest);
                return out;
            },
            Some(start) => {
                let after = sub_vec(&rest, start + 1, rest.len());
                match find_vec(&after, &pct) {
                    None => {
                        extend_chars(&mut out, &rest);
                        return out;
                    },
                    Some(end) => {
                        let ghost before = out@;
                        let head = sub_vec(&rest, 0, start);
                        extend_chars(&mut out, &head);
                        let name = sub_vec(&after, 0, end);
                        match value_at(vals, k) {
                            Some(v) => extend_chars(&mut out, &v),
                            None => {
                                out.push('%');
                                extend_chars(&mut out, &name);
                                out.push('%');
                            },
                        }
                        assert(after@.subrange(end + 1, after@.len() as int)
                            =~= s@.subrange(pos + start + 1 + end + 1, s@.len() as int));
                        pos = pos + start + 1 + end + 1;
                        k = k + 1;
                        assert(out@ + expand_env_from(s@.subrange(pos as int, s@.len() as int), vs, k as int)
                            =~= before + expand_env_from(rest@, vs, (k - 1) as int));
                    },
                }
            },
        }
    }
}

/// Names of the `%NAME%` tokens of `s`, in the order expansion reads them.
fn env_names_vec(s: &[char]) -> (r: Vec<String>)
    ensures
        r@.len() == env_names_from(s@).len(),
        forall|i: int| 0 <= i < r@.len() ==> (#[trigger] r@[i])@ == env_names_from(s@)[i],
{
    let mut out: Vec<String> = Vec::new();
    let mut pos: usize = 0;
    let pct = vec!['%'];
    assert(pct@ == seq!['%']);
    assert(s@.subrange(0, s@.len() as int) =~= s@);
    loop
        invariant
            pct@ == seq!['%'],
            pos <= s@.len(),
            out@.map_values(|x: String| x@) + env_names_from(s@.subrange(pos as int, s@.len() as int))
                == env_names_from(s@),
        decreases s.len() - pos,
    {
        let ghost before = out@;
        let rest = sub_vec(s, pos, s.len());
        match find_vec(&rest, &pct) {
            None => {
                assert(out@.map_values(|x: String| x@) =~= env_names_from(s@));
                proof {
                    assert forall|i: int| 0 <= i < out@.len() implies (#[trigger] out@[i])@ == env_names_from(s@)[i] by {
                        assert(out@.map_values(|x: String| x@)[i] == out@[i]@);
                    }
                }
                return out;
            },
            Some(start) => {
                let after = sub_vec(&rest, start + 1, rest.len());
                match find_vec(&after, &pct) {
                    None => {
                        assert(out@.map_values(|x: String| x@) =~= env_names_from(s@));
                        proof {
                            assert forall|i: int| 0 <= i < out@.len() implies (#[trigger] out@[i])@ == env_names_from(s@)[i] by {
                                assert(out@.map_values(|x: String| x@)[i] == out@[i]@);
                            }
                        }
                        return out;
                    },
                    Some(end) => {
                        let name = sub_vec(&after, 0, end);
                        out.push(string_of(&name));
                        assert(after@.subrange(end + 1, after@.len() as int)
                            =~= s@.subrange(pos + start + 1 + end + 1, s@.len() as int));
                        pos = pos + start + 1 + end + 1;
                        assert(out@.map_values(|x: String| x@) =~= before.map_values(|x: String| x@) + seq![name@]);
                    },
                }
            },
        }
    }
}

/// The environment variables (by name, in order) that `parse_image_path`
/// needs for this raw `ImagePath`.
pub fn image_path_env_names(raw: &str) -> (r: Vec<String>)
    ensures
        r@.len() == spec_image_path_env_names(raw@).len(),
        forall|i: int| 0 <= i < r@.len() ==> (#[trigger] r@[i])@ == spec_image_path_env_names(raw@)[i],
{
    match image_path_unexpanded(raw) {
        Some(p) => env_names_vec(&p),
        None => Vec::new(),
    }
}

/// Turn a raw registry `ImagePath` into a file path: quoted paths, trailing
/// arguments, the `\??\` prefix and `%VAR%` tokens are handled.
/// `env_values[k]` is the value of the `k`-th name listed by
/// [`image_path_env_names`] (None when unset: the token stays literal).
pub fn parse_image_path(raw: &str, env_values: &Vec<Option<String>>) -> (r: Option<String>)
    ensures
        match r {
            Some(p) => spec_parse_image_path(raw@, opt_views(env_values@)) == Some(p@),
            None => spec_parse_image_path(raw@, opt_views(env_values@)) is None,
        },
{
    match image_path_unexpanded(raw) {
        Some(p) => {
            let e = expand_env_vec(&p, env_values);
            Some(string_of(&e))
        },
        None => None,
    }
}


pub open spec fn image_path_name() -> Seq<char> {
    seq!['I', 'm', 'a', 'g', 'e', 'P', 'a', 't', 'h']
}

pub open spec fn reg_type_prefix() -> Seq<char> {
    seq!['R', 'E', 'G', '_']
}

/// The data of an `ImagePath    REG_xxx    data` line of `reg.exe query`
/// output: the `REG_` type token must sit right after the value name (so
/// `ImagePathBackup` or a line without a type is refused).
pub open spec fn reg_line_image_path(l: Seq<char>) -> Option<Seq<char>> {
    let t = trim_start(l);
    if !starts_with(t, image_path_name()) {
        None
    } else {
        let rest = trim_start(t.subrange(9, t.len() as int));
        match first_ws_from(rest, 0) {
            None => None,
            Some(i) => if starts_with(rest.subrange(0, i), reg_type_prefix()) {
                Some(trim(rest.subrange(i + 1, rest.len() as int)))
            } else {
                None
            },
        }
    }
}

/// The first line, from line `i` on, that carries an `ImagePath` value.
pub open spec fn first_image_path_from(ls: Seq<Seq<char>>, i: int) -> Option<Seq<char>>
    decreases ls.len() - i,
{
    if i < 0 || i >= ls.len() {
        None
    } else {
        match reg_line_image_path(ls[i]) {
            Some(v) => Some(v),
            None => first_image_path_from(ls, i + 1),
        }
    }
}

/// The raw `ImagePath` data in `reg.exe query ... /v ImagePath` output.
pub open spec fn spec_image_path_value(text: Seq<char>) -> Option<Seq<char>> {
    first_image_path_from(lines(text), 0)
}

fn reg_line_image_path_vec(l: &[char]) -> (r: Option<Vec<char>>)
    ensures
        match r {
            Some(v) => reg_line_image_path(l@) == Some(v@),
            None => reg_line_image_path(l@) is None,
        },
{
    let t = trim_start_vec(l);
    let name = vec!['I', 'm', 'a', 'g', 'e', 'P', 'a', 't', 'h'];
    assert(name@ == image_path_name());
    if !starts_with_vec(&t, &name) {
        return None;
    }
    let after = sub_vec(&t, 9, t.len());
    let rest = trim_start_vec(&after);
    match first_ws_vec(&rest) {
        None => None,
        Some(i) => {
            let ty = sub_vec(&rest, 0, i);
            let reg = vec!['R', 'E', 'G', '_'];
            assert(reg@ == reg_type_prefix());
            if starts_with_vec(&ty, &reg) {
                let data = sub_vec(&rest, i + 1, rest.len());
                Some(trim_vec(&data))
            } else {
                None
            }
        },
    }
}

/// The raw `ImagePath` data in `reg.exe query ... /v ImagePath` output.
pub fn image_path_value(reg_output: &str) -> (r: Option<String>)
    ensures
        match r {
            Some(v) => spec_image_path_value(reg_output@) == Some(v@),
            None => spec_image_path_value(reg_output@) is None,
        },
{
    let ls = lines_vec(reg_output);
    let ghost sl = lines(reg_output@);
    let mut i: usize = 0;
    while i < ls.len()
        invariant
            ls@.len() == sl.len(),
            sl == lines(reg_output@),
            forall|k: int| 0 <= k < sl.len() ==> (#[trigger] ls@[k])@ == sl[k],
            i <= ls@.len(),
            spec_image_path_value(reg_output@) == first_image_path_from(sl, i as int),
        decreases ls.len() - i,
    {
        match reg_line_image_path_vec(&ls[i]) {
            Some(v) => return Some(string_of(&v)),
            None => {},
        }
        i = i + 1;
    }
    None
}

/// The last component of a Windows path, as `Path::file_name` gives it:
/// empty and `.` components are skipped, a final `..` gives None.
pub open spec fn last_component(comps: Seq<Seq<char>>) -> Option<Seq<char>>
    decreases comps.len(),
{
    if comps.len() == 0 {
        None
    } else {
        let c = comps.last();
        if c.len() == 0 || c == seq!['.'] {
            last_component(comps.drop_last())
        } else if c == seq!['.', '.'] {
            None
        } else {
            Some(c)
        }
    }
}

/// `/` read as `\`.
pub open spec fn backslashed(p: Seq<char>) -> Seq<char> {
    p.map_values(|c: char| if c == '/' { '\\' } else { c })
}

/// The path without a leading drive such as `C:`.
pub open spec fn without_drive(p: Seq<char>) -> Seq<char> {
    if p.len() >= 2 && p[1] == ':' { p.subrange(2, p.len() as int) } else { p }
}

/// `Path::file_name` of a Windows path.
pub open spec fn file_name(p: Seq<char>) -> Option<Seq<char>> {
    last_component(crate::text::split(backslashed(without_drive(p)), '\\'))
}

pub open spec fn svchost_name() -> Seq<char> {
    seq!['s', 'v', 'c', 'h', 'o', 's', 't', '.', 'e', 'x', 'e']
}

/// The path names the shared service host `svchost.exe` (any casing): its
/// own PE says nothing about the bitness of the service it hosts.
pub open spec fn spec_is_shared_service_host(p: Seq<char>) -> bool {
    match file_name(p) {
        Some(n) => eq_ignore_ascii_case(n, svchost_name()),
        None => false,
    }
}

fn file_name_vec(p: &[char]) -> (r: Option<Vec<char>>)
    ensures
        match r {
            Some(v) => file_name(p@) == Some(v@),
            None => file_name(p@) is None,
        },
{
    let q = if p.len() >= 2 && p[1] == ':' { sub_vec(p, 2, p.len()) } else { sub_vec(p, 0, p.len()) };
    assert(p@.subrange(0, p@.len() as int) =~= p@);
    let mut b: Vec<char> = Vec::new();
    let mut i: usize = 0;
    while i < q.len()
        invariant
            i <= q@.len(),
            q@ == without_drive(p@),
            b@ == backslashed(q@.subrange(0, i as int)),
        decreases q.len() - i,
    {
        b.push(if q[i] == '/' { '\\' } else { q[i] });
        i = i + 1;
        assert(b@ =~= backslashed(q@.subrange(0, i as int)));
    }
    assert(q@.subrange(0, q@.len() as int) =~= q@);
    let comps = crate::text::split_vec(&b, '\\');
    let ghost cs = crate::text::split(b@, '\\');
    assert(b@ == backslashed(without_drive(p@)));
    assert(cs.subrange(0, cs.len() as int) =~= cs);
    let mut n: usize = comps.len();
    while n > 0
        invariant
            n <= comps@.len(),
            comps@.len() == cs.len(),
            forall|k: int| 0 <= k < cs.len() ==> (#[trigger] comps@[k])@ == cs[k],
            file_name(p@) == last_component(cs.subrange(0, n as int)),
        decreases n,
    {
        let c = &comps[n - 1];
        assert(cs.subrange(0, n as int).last() == c@);
        assert(cs.subrange(0, n as int).drop_last() =~= cs.subrange(0, n - 1));
        if c.len() == 0 || (c.len() == 1 && c[0] == '.') {
            assert(c@.len() == 1 ==> c@ =~= seq!['.']);
            n = n - 1;
        } else if c.len() == 2 && c[0] == '.' && c[1] == '.' {
            assert(c@ =~= seq!['.', '.']);
            return None;
        } else {
            assert(c@ != seq!['.']);
            assert(c@ != seq!['.', '.']);
            return Some(sub_vec(c, 0, c.len()));
        }
    }
    None
}

/// Whether `path` names the shared service host `svchost.exe`.
pub fn is_shared_service_host(path: &str) -> (r: bool)
    ensures
        r == spec_is_shared_service_host(path@),
{
    let p = chars_of(path);
    match file_name_vec(&p) {
        Some(n) => {
            let svchost = vec!['s', 'v', 'c', 'h', 'o', 's', 't', '.', 'e', 'x', 'e'];
            assert(svchost@ == svchost_name());
            eq_ignore_ascii_case_vec(&n, &svchost)
        },
        None => false,
    }
}


/// The file path a service's `reg.exe query` output points at, before the
/// existence check: None when there is no `ImagePath` value, when it parses
/// to nothing, or when it is the shared `svchost.exe` host.
pub open spec fn spec_image_path_candidate(text: Seq<char>, vals: Seq<Option<Seq<char>>>) -> Option<Seq<char>> {
    match spec_image_path_value(text) {
        None => None,
        Some(raw) => match spec_parse_image_path(raw, vals) {
            None => None,
            Some(p) => if spec_is_shared_service_host(p) { None } else { Some(p) },
        },
    }
}

/// What the `ImagePath` reading refuses: a line whose value name runs on
/// (such as `ImagePathBackup`) or whose data has no `REG_` type token in
/// front of it carries no ImagePath, and the shared `svchost.exe` host is
/// never handed on as the service's image.
pub proof fn law_image_path_refusals(text: Seq<char>, vals: Seq<Option<Seq<char>>>, l: Seq<char>)
    ensures
        spec_image_path_candidate(text, vals) matches Some(p) ==> !spec_is_shared_service_host(p),
        ({
            let t = trim_start(l);
            let rest = trim_start(t.subrange(9, t.len() as int));
            starts_with(t, image_path_name()) && (rest.len() == 0 || rest[0] != 'R')
        }) ==> reg_line_image_path(l) is None,
{
    let t = trim_start(l);
    if starts_with(t, image_path_name()) {
        let rest = trim_start(t.subrange(9, t.len() as int));
        if rest.len() == 0 || rest[0] != 'R' {
            match first_ws_from(rest, 0) {
                None => {},
                Some(i) => {
                    lemma_first_ws_bounds(rest, 0);
                    assert(reg_type_prefix()[0] == 'R');
                    if starts_with(rest.subrange(0, i), reg_type_prefix()) {
                        assert(rest.subrange(0, i)[0] == rest.subrange(0, i).subrange(0, 4)[0]);
                    }
                },
            }
        }
    }
}

proof fn lemma_first_ws_bounds(s: Seq<char>, i: int)
    requires
        0 <= i,
    ensures
        first_ws_from(s, i) matches Some(j) ==> i <= j < s.len(),
    decreases s.len() - i,
{
    if i < s.len() && !crate::text::is_whitespace(s[i]) {
        lemma_first_ws_bounds(s, i + 1);
    }
}

/// The environment variables (in order) that [`image_path_candidate`] needs
/// for this `reg.exe` output.
pub fn reg_output_env_names(reg_output: &str) -> (r: Vec<String>)
    ensures
        r@.len() == (match spec_image_path_value(reg_output@) {
            Some(raw) => spec_image_path_env_names(raw),
            None => Seq::<Seq<char>>::empty(),
        }).len(),
        forall|i: int| 0 <= i < r@.len() ==> (#[trigger] r@[i])@ == (match spec_image_path_value(reg_output@) {
            Some(raw) => spec_image_path_env_names(raw),
            None => Seq::<Seq<char>>::empty(),
        })[i],
{
    match image_path_value(reg_output) {
        Some(raw) => image_path_env_names(raw.as_str()),
        None => Vec::new(),
    }
}

/// The path named by a service's `ImagePath` in `reg.exe` output, unless it
/// is the shared `svchost.exe` host; `env_values` as for [`parse_image_path`].
/// Whether the file exists is for the caller to check.
pub fn image_path_candidate(reg_output: &str, env_values: &Vec<Option<String>>) -> (r: Option<String>)
    ensures
        match r {
            Some(p) => spec_image_path_candidate(reg_output@, opt_views(env_values@)) == Some(p@),
            None => spec_image_path_candidate(reg_output@, opt_views(env_values@)) is None,
        },
{
    let raw = match image_path_value(reg_output) {
        Some(v) => v,
        None => return None,
    };
    let p = match parse_image_path(raw.as_str(), env_values) {
        Some(p) => p,
        None => return None,
    };
    if is_shared_service_host(p.as_str()) {
        None
    } else {
        Some(p)
    }
}


/// The image path of a service: `reg_output` is the output of `reg.exe query
/// <Services>\<name> /v ImagePath` (`None` when the query failed),
/// `env_values` as for [`parse_image_path`], and `candidate_exists` whether
/// the candidate path exists on disk. The path is handed on only when it
/// exists: a driver-style or relative ImagePath does not.
pub fn service_image_path(reg_output: Option<&str>, env_values: &Vec<Option<String>>, candidate_exists: bool) -> (r: Option<String>)
    ensures
        match reg_output {
            None => r is None,
            Some(t) => match spec_image_path_candidate(t@, opt_views(env_values@)) {
                Some(p) => if candidate_exists { r matches Some(x) && x@ == p } else { r is None },
                None => r is None,
            },
        },
{
    match reg_output {
        None => None,
        Some(t) => match image_path_candidate(t, env_values) {
            Some(p) => if candidate_exists { Some(p) } else { None },
            None => None,
        },
    }
}


/// Switching to a different target (name compared ignoring ASCII case, or a
/// different type) invalidates the cached image path.
pub open spec fn target_changes(c: Config, name: Seq<char>, ttype: TargetType) -> bool {
    !eq_ignore_ascii_case(c.target_name@, name) || c.target_type != ttype
}

/// Point `cfg` at a target, dropping the cached `target_path` when it
/// belonged to a different one. Touches nothing else.
#[verifier::rlimit(50)]
pub fn set_target(cfg: &mut Config, name: &str, ttype: TargetType)
    ensures
        final(cfg).target_name@ == name@,
        final(cfg).target_type == ttype,
        final(cfg).target_path@ == (if target_changes(*old(cfg), name@, ttype) {
            Seq::<char>::empty()
        } else {
            old(cfg).target_path@
        }),
        *final(cfg) == (Config {
            target_name: final(cfg).target_name,
            target_type: ttype,
            target_path: final(cfg).target_path,
            ..*old(cfg)
        }),
{
    let old_name = chars_of(cfg.target_name.as_str());
    let new_name = chars_of(name);
    if !eq_ignore_ascii_case_vec(&old_name, &new_name) || cfg.target_type != ttype {
        cfg.target_path = String::new();
    }
    cfg.target_name = String::from_str(name);
    cfg.target_type = ttype;
}

/// The cached path is replaced only by a path that resolved; a failed
/// resolve keeps whatever was there.
pub fn capture_target_path(cfg: &mut Config, resolved: Option<String>)
    ensures
        *final(cfg) == (match resolved {
            Some(p) => Config { target_path: p, ..*old(cfg) },
            None => *old(cfg),
        }),
{
    if let Some(p) = resolved {
        cfg.target_path = p;
    }
}

/// Where `resolve_target_path` looks: a Process target trusts a non-blank
/// cached path that exists, otherwise the running process; a Service target
/// reads its registry `ImagePath`.
#[derive(Debug, Clone, Copy, PartialEq, Eq, Structural)]
pub enum TargetPathSource {
    CachedPath,
    RunningProcess,
    ServiceRegistry,
}

/// Which lookup `resolve_target_path` makes, given whether the cached path
/// (trimmed) exists on disk.
pub open spec fn spec_target_path_source(c: Config, cached_exists: bool) -> TargetPathSource {
    match c.target_type {
        TargetType::Service => TargetPathSource::ServiceRegistry,
        TargetType::Process => if trim(c.target_path@).len() != 0 && cached_exists {
            TargetPathSource::CachedPath
        } else {
            TargetPathSource::RunningProcess
        },
    }
}

pub fn target_path_source(cfg: &Config, cached_exists: bool) -> (r: TargetPathSource)
    ensures
        r == spec_target_path_source(*cfg, cached_exists),
{
    match cfg.target_type {
        TargetType::Service => TargetPathSource::ServiceRegistry,
        TargetType::Process => {
            let p = chars_of(cfg.target_path.as_str());
            let t = trim_vec(&p);
            if t.len() != 0 && cached_exists {
                TargetPathSource::CachedPath
            } else {
                TargetPathSource::RunningProcess
            }
        },
    }
}

/// The cached path as `resolve_target_path` hands it on (trimmed).
pub fn cached_target_path(cfg: &Config) -> (r: String)
    ensures
        r@ == trim(cfg.target_path@),
{
    let p = chars_of(cfg.target_path.as_str());
    string_of(&trim_vec(&p))
}

/// Runtime detection is consulted only for a Process target whose PE gave
/// no answer.
pub open spec fn spec_resolve_needs_detect(pe: Bitness, ttype: TargetType) -> bool {
    pe == Bitness::Unknown && ttype == TargetType::Process
}

pub fn resolve_needs_detect(pe: Bitness, ttype: TargetType) -> (r: bool)
    ensures
        r == spec_resolve_needs_detect(pe, ttype),
{
    pe == Bitness::Unknown && ttype == TargetType::Process
}

/// Ordered resolution: the PE header wins when it answers; then runtime
/// detection (Process targets only); else Unknown. The text names the source.
pub open spec fn spec_resolve(pe: Bitness, ttype: TargetType, detected: Bitness) -> (Bitness, Seq<char>) {
    if pe != Bitness::Unknown {
        (pe, "PE header"@)
    } else if ttype == TargetType::Process && detected != Bitness::Unknown {
        (detected, "running process"@)
    } else {
        (Bitness::Unknown, "unresolved"@)
    }
}

/// Combine the PE answer (Unknown when no path resolved or the file is not a
/// readable PE) with runtime detection, which callers perform only when
/// [`resolve_needs_detect`] says so (pass Unknown otherwise).
pub fn resolve(pe: Bitness, ttype: TargetType, detected: Bitness) -> (r: (Bitness, String))
    ensures
        (r.0, r.1@) == spec_resolve(pe, ttype, detected),
{
    if pe != Bitness::Unknown {
        (pe, str_owned("PE header"))
    } else if ttype == TargetType::Process && detected != Bitness::Unknown {
        (detected, str_owned("running process"))
    } else {
        (Bitness::Unknown, str_owned("unresolved"))
    }
}

/// A service target is never answered by runtime detection: a service name is
/// not a process name.
pub proof fn law_service_never_runtime_detected(pe: Bitness, detected: Bitness)
    ensures
        spec_resolve(pe, TargetType::Service, detected).1 != "running process"@,
        spec_resolve(pe, TargetType::Service, detected).0 == pe,
{
    reveal_strlit("running process");
    reveal_strlit("PE header");
    reveal_strlit("unresolved");
    assert("running process"@.len() == 15);
    assert("PE header"@.len() == 9);
    assert("unresolved"@.len() == 10);
}


/// The bitness of a running process from what Windows reports of it:
/// `machines` is `IsWow64Process2`'s (process machine, native machine) when
/// that call exists and succeeded, `wow64` is `IsWow64Process`'s answer when
/// it succeeded. An x86 process machine is 32-bit; otherwise an AMD64 or
/// ARM64 native machine is 64-bit and anything else 32-bit. Without the
/// first answer, a WOW64 process is 32-bit and any other 64-bit.
pub open spec fn process_bitness(machines: Option<(u16, u16)>, wow64: Option<bool>) -> Bitness {
    match machines {
        Some((p, n)) => if p == crate::pe::IMAGE_FILE_MACHINE_I386 {
            Bitness::X86
        } else if n == crate::pe::IMAGE_FILE_MACHINE_AMD64 || n == crate::pe::IMAGE_FILE_MACHINE_ARM64 {
            Bitness::X64
        } else {
            Bitness::X86
        },
        None => match wow64 {
            Some(w) => if w { Bitness::X86 } else { Bitness::X64 },
            None => Bitness::Unknown,
        },
    }
}

pub fn classify_process(machines: Option<(u16, u16)>, wow64: Option<bool>) -> (b: Bitness)
    ensures
        b == process_bitness(machines, wow64),
{
    match machines {
        Some((p, n)) => if p == crate::pe::IMAGE_FILE_MACHINE_I386 {
            Bitness::X86
        } else if n == crate::pe::IMAGE_FILE_MACHINE_AMD64 || n == crate::pe::IMAGE_FILE_MACHINE_ARM64 {
            Bitness::X64
        } else {
            Bitness::X86
        },
        None => match wow64 {
            Some(w) => if w { Bitness::X86 } else { Bitness::X64 },
            None => Bitness::Unknown,
        },
    }
}


/// `str::trim_end_matches(suffix)`: every trailing repetition of a
/// non-empty `suffix` removed.
pub open spec fn trim_end_all(s: Seq<char>, suffix: Seq<char>) -> Seq<char>
    decreases s.len(),
{
    if suffix.len() > 0 && crate::text::ends_with(s, suffix) {
        trim_end_all(s.subrange(0, s.len() - suffix.len()), suffix)
    } else {
        s
    }
}

fn trim_end_all_vec(s: &[char], suffix: &[char]) -> (r: Vec<char>)
    ensures
        r@ == trim_end_all(s@, suffix@),
{
    let mut cur = sub_vec(s, 0, s.len());
    assert(cur@ =~= s@);
    if suffix.len() == 0 {
        return cur;
    }
    while crate::text::ends_with_vec(&cur, suffix)
        invariant
            suffix@.len() > 0,
            trim_end_all(cur@, suffix@) == trim_end_all(s@, suffix@),
        decreases cur@.len(),
    {
        let n = cur.len() - suffix.len();
        cur = sub_vec(&cur, 0, n);
    }
    cur
}

/// The name a running process is looked for by: `.exe` (then `.EXE`)
/// suffixes removed, ASCII lower-cased.
pub open spec fn wanted_process_name(name: Seq<char>) -> Seq<char> {
    ascii_lower_seq(trim_end_all(trim_end_all(name, ".exe"@), ".EXE"@))
}

pub fn wanted_name(name: &str) -> (r: String)
    ensures
        r@ == wanted_process_name(name@),
{
    let a = trim_end_all_vec(&chars_of(name), &chars_of(".exe"));
    let b = trim_end_all_vec(&a, &chars_of(".EXE"));
    string_of(&ascii_lower_vec(&b))
}

/// A running process's image name matches the wanted name: with its
/// `.exe` suffixes removed, equal ignoring ASCII case.
pub fn image_name_matches(image: &str, want: &str) -> (r: bool)
    ensures
        r == eq_ignore_ascii_case(trim_end_all(image@, ".exe"@), want@),
{
    let a = trim_end_all_vec(&chars_of(image), &chars_of(".exe"));
    eq_ignore_ascii_case_vec(&a, &chars_of(want))
}

} // verus!
