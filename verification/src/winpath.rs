//! Windows path joining, as `PathBuf::join` does it for a relative component.

use vstd::prelude::*;
use crate::text::{chars_of, string_of};

verus! {

/// A path separator on Windows.
pub open spec fn is_sep(c: char) -> bool {
    c == '\\' || c == '/'
}

/// A drive prefix with nothing after it, such as `C:`.
pub open spec fn is_bare_drive(p: Seq<char>) -> bool {
    p.len() == 2 && p[1] == ':' && (('A' <= p[0] && p[0] <= 'Z') || ('a' <= p[0] && p[0] <= 'z'))
}

/// `base.join(rel)` for a relative `rel`: a backslash goes between the two
/// unless `base` is empty, already ends in a separator, or is a bare drive.
pub open spec fn join(base: Seq<char>, rel: Seq<char>) -> Seq<char> {
    if base.len() == 0 || is_sep(base.last()) || is_bare_drive(base) {
        base + rel
    } else {
        base + seq!['\\'] + rel
    }
}

/// `PathBuf::from(base).join(rel)` for a relative `rel`.
pub fn join_path(base: &str, rel: &str) -> (r: String)
    ensures
        r@ == join(base@, rel@),
{
    let b = chars_of(base);
    let r = chars_of(rel);
    let n = b.len();
    let needs_sep = if n == 0 {
        false
    } else if b[n - 1] == '\\' || b[n - 1] == '/' {
        false
    } else if n == 2 && b[1] == ':' && (('A' <= b[0] && b[0] <= 'Z') || ('a' <= b[0] && b[0] <= 'z')) {
        false
    } else {
        true
    };
    let mut out = b;
    if needs_sep {
        out.push('\\');
    }
    let mut i: usize = 0;
    let ghost start = out@;
    while i < r.len()
        invariant
            i <= r@.len(),
            out@ == start + r@.subrange(0, i as int),
        decreases r.len() - i,
    {
        out.push(r[i]);
        i = i + 1;
        assert(out@ =~= start + r@.subrange(0, i as int));
    }
    assert(r@.subrange(0, r@.len() as int) =~= r@);
    string_of(&out)
}

/// An ASCII letter.
pub open spec fn is_ascii_alpha(c: char) -> bool {
    ('A' <= c && c <= 'Z') || ('a' <= c && c <= 'z')
}

/// Index of the first separator at or after `i` (`p.len()` when none).
pub open spec fn next_sep_from(p: Seq<char>, i: int) -> int
    decreases p.len() - i,
{
    if i < 0 {
        0
    } else if i >= p.len() {
        p.len() as int
    } else if is_sep(p[i]) {
        i
    } else {
        next_sep_from(p, i + 1)
    }
}

pub proof fn lemma_next_sep_bounds(p: Seq<char>, i: int)
    requires
        0 <= i,
    ensures
        i <= next_sep_from(p, i) || (i > p.len() && next_sep_from(p, i) == p.len()),
        next_sep_from(p, i) <= p.len(),
        next_sep_from(p, i) < p.len() ==> is_sep(p[next_sep_from(p, i)]),
    decreases p.len() - i,
{
    if i < p.len() && !is_sep(p[i]) {
        lemma_next_sep_bounds(p, i + 1);
    }
}

/// Length of the path's prefix, as Windows reads it: `X:` (a drive),
/// `\\server\share` (both parts non-empty), or `\\?\name` / `\\.\name`
/// (verbatim or device); 0 when there is none. Either separator counts.
pub open spec fn prefix_len(p: Seq<char>) -> int {
    if p.len() >= 2 && is_sep(p[0]) && is_sep(p[1]) {
        if p.len() >= 4 && (p[2] == '?' || p[2] == '.') && is_sep(p[3]) {
            next_sep_from(p, 4)
        } else {
            let s1 = next_sep_from(p, 2);
            if s1 > 2 && s1 < p.len() {
                let s2 = next_sep_from(p, s1 + 1);
                if s2 > s1 + 1 { s2 } else { 0 }
            } else {
                0
            }
        }
    } else if p.len() >= 2 && is_ascii_alpha(p[0]) && p[1] == ':' {
        2
    } else {
        0
    }
}

/// The prefix is a drive letter.
pub open spec fn is_disk_prefix(p: Seq<char>) -> bool {
    prefix_len(p) == 2 && p[1] == ':' && !is_sep(p[0])
}

/// The prefix is verbatim (`\\?\`).
pub open spec fn is_verbatim_prefix(p: Seq<char>) -> bool {
    prefix_len(p) > 0 && p.len() >= 3 && is_sep(p[0]) && p[2] == '?'
}

/// A separator follows the prefix.
pub open spec fn has_physical_root(p: Seq<char>) -> bool {
    prefix_len(p) < p.len() && is_sep(p[prefix_len(p)])
}

/// The path has a root: a separator after the prefix, or a prefix other
/// than a drive (which implies one).
pub open spec fn has_root(p: Seq<char>) -> bool {
    has_physical_root(p) || (prefix_len(p) > 0 && !is_disk_prefix(p))
}

/// The root shows as a component: a physical root, or the implied root of a
/// server or device prefix.
pub open spec fn root_component(p: Seq<char>) -> bool {
    has_physical_root(p) || (prefix_len(p) > 0 && !is_disk_prefix(p) && !is_verbatim_prefix(p))
}

/// Where the names start: after the prefix and its root separator.
pub open spec fn names_start(p: Seq<char>) -> int {
    prefix_len(p) + if has_physical_root(p) { 1int } else { 0int }
}

/// A rootless path that starts with `.` keeps it as a component.
pub open spec fn leading_cur_dir(p: Seq<char>) -> bool {
    let k = names_start(p);
    !has_root(p) && k < p.len() && p[k] == '.' && (k + 1 == p.len() || is_sep(p[k + 1]))
}

/// The name components from index `i`: the pieces between separators, empty
/// pieces and `.` dropped.
pub open spec fn names_from(p: Seq<char>, i: int) -> Seq<Seq<char>>
    decreases p.len() - i,
{
    if i < 0 || i >= p.len() {
        Seq::empty()
    } else {
        let j = next_sep_from(p, i);
        let piece = p.subrange(i, j);
        let keep: Seq<Seq<char>> = if piece.len() == 0 || piece == seq!['.'] { Seq::empty() } else { seq![piece] };
        proof {
            lemma_next_sep_bounds(p, i);
        }
        keep + if j < p.len() { names_from(p, j + 1) } else { Seq::empty() }
    }
}

/// `Path::iter` on Windows: the prefix as written, `\` for the root, a
/// leading `.`, then the names (`..` kept).
pub open spec fn components(p: Seq<char>) -> Seq<Seq<char>> {
    let pl = prefix_len(p);
    let pre: Seq<Seq<char>> = if pl > 0 { seq![p.subrange(0, pl)] } else { Seq::empty() };
    let root: Seq<Seq<char>> = if root_component(p) { seq![seq!['\\']] } else { Seq::empty() };
    let cur: Seq<Seq<char>> = if leading_cur_dir(p) { seq![seq!['.']] } else { Seq::empty() };
    let start = names_start(p) + if leading_cur_dir(p) { 1int } else { 0int };
    pre + root + cur + names_from(p, start)
}

/// `PathBuf::push(c)` on Windows: a prefixed `c` replaces the path, a rooted
/// one keeps only the path's prefix, a relative one is joined.
pub open spec fn push_component(base: Seq<char>, c: Seq<char>) -> Seq<char> {
    if prefix_len(c) > 0 {
        c
    } else if c.len() > 0 && is_sep(c[0]) {
        base.subrange(0, prefix_len(base)) + c
    } else {
        join(base, c)
    }
}

/// A path collected from components, each pushed in turn.
pub open spec fn collect_components(cs: Seq<Seq<char>>) -> Seq<char>
    decreases cs.len(),
{
    if cs.len() == 0 {
        Seq::empty()
    } else {
        push_component(collect_components(cs.drop_last()), cs.last())
    }
}

/// How a component compares: a drive letter in upper case, a server or
/// device prefix with `\` separators, anything else as written.
pub open spec fn component_key(c: Seq<char>) -> Seq<char> {
    if is_disk_prefix(c) && prefix_len(c) == c.len() {
        seq![crate::text::ascii_upper(c[0]), ':']
    } else if prefix_len(c) == c.len() && c.len() > 0 {
        c.map_values(|x: char| if x == '/' { '\\' } else { x })
    } else {
        c
    }
}

/// `Path` equality on Windows: the components compare equal.
pub open spec fn same_windows_path(a: Seq<char>, b: Seq<char>) -> bool {
    components(a).map_values(|c: Seq<char>| component_key(c)) == components(b).map_values(
        |c: Seq<char>| component_key(c),
    )
}

fn is_sep_char(c: char) -> (r: bool)
    ensures
        r == is_sep(c),
{
    c == '\\' || c == '/'
}

fn next_sep_index(p: &Vec<char>, i: usize) -> (r: usize)
    requires
        i <= p@.len(),
    ensures
        r == next_sep_from(p@, i as int),
        i <= r <= p@.len(),
{
    let mut j = i;
    while j < p.len() && !is_sep_char(p[j])
        invariant
            i <= j <= p@.len(),
            next_sep_from(p@, i as int) == next_sep_from(p@, j as int),
        decreases p.len() - j,
    {
        j = j + 1;
    }
    j
}

fn prefix_length(p: &Vec<char>) -> (r: usize)
    ensures
        r == prefix_len(p@),
        r <= p@.len(),
{
    let n = p.len();
    if n >= 2 && is_sep_char(p[0]) && is_sep_char(p[1]) {
        if n >= 4 && (p[2] == '?' || p[2] == '.') && is_sep_char(p[3]) {
            next_sep_index(p, 4)
        } else {
            let s1 = next_sep_index(p, 2);
            if s1 > 2 && s1 < n {
                let s2 = next_sep_index(p, s1 + 1);
                if s2 > s1 + 1 { s2 } else { 0 }
            } else {
                0
            }
        }
    } else if n >= 2 && (('A' <= p[0] && p[0] <= 'Z') || ('a' <= p[0] && p[0] <= 'z')) && p[1] == ':' {
        2
    } else {
        0
    }
}

/// Length of the prefix of `p`.
pub fn prefix_length_of(p: &str) -> (r: usize)
    ensures
        r == prefix_len(p@),
{
    prefix_length(&chars_of(p))
}

/// `Path::new(path).iter()` on Windows, each component as text.
pub fn path_components(path: &str) -> (r: Vec<String>)
    ensures
        crate::text::string_views(r@) == components(path@),
{
    let p = chars_of(path);
    let n = p.len();
    let pl = prefix_length(&p);
    let mut out: Vec<String> = Vec::new();
    let ghost mut expect: Seq<Seq<char>> = Seq::empty();
    assert(crate::text::string_views(out@) =~= expect);
    if pl > 0 {
        crate::text::push_string(&mut out, string_of(&crate::text::sub_vec(&p, 0, pl)));
        proof {
            expect = expect.push(p@.subrange(0, pl as int));
        }
    }
    let disk = pl == 2 && p[1] == ':' && !is_sep_char(p[0]);
    let verbatim = pl > 0 && n >= 3 && is_sep_char(p[0]) && p[2] == '?';
    let physical = pl < n && is_sep_char(p[pl]);
    let root = physical || (pl > 0 && !disk && !verbatim);
    let has_root = physical || (pl > 0 && !disk);
    if root {
        let v = vec!['\\'];
        assert(v@ =~= seq!['\\']);
        crate::text::push_string(&mut out, string_of(&v));
        proof {
            expect = expect.push(seq!['\\']);
        }
    }
    let k = pl + if physical { 1 } else { 0 };
    let cur = !has_root && k < n && p[k] == '.' && (k + 1 == n || is_sep_char(p[k + 1]));
    if cur {
        let v = vec!['.'];
        assert(v@ =~= seq!['.']);
        crate::text::push_string(&mut out, string_of(&v));
        proof {
            expect = expect.push(seq!['.']);
        }
    }
    let ghost head = crate::text::string_views(out@);
    let mut i: usize = k + if cur { 1 } else { 0 };
    let ghost start = i as int;
    proof {
        let pre: Seq<Seq<char>> = if pl > 0 { seq![p@.subrange(0, pl as int)] } else { Seq::empty() };
        let rt: Seq<Seq<char>> = if root { seq![seq!['\\']] } else { Seq::empty() };
        let cd: Seq<Seq<char>> = if cur { seq![seq!['.']] } else { Seq::empty() };
        assert(head =~= pre + rt + cd);
    }
    while i < n
        invariant
            n == p@.len(),
            p@ == path@,
            i <= n,
            crate::text::string_views(out@) + names_from(p@, i as int) == head + names_from(p@, start),
        decreases n - i,
    {
        let j = next_sep_index(&p, i);
        let piece = crate::text::sub_vec(&p, i, j);
        let ghost before = crate::text::string_views(out@);
        let ghost keep: Seq<Seq<char>> = if piece@.len() == 0 || piece@ == seq!['.'] {
            Seq::empty()
        } else {
            seq![piece@]
        };
        let dot = piece.len() == 1 && piece[0] == '.';
        assert(dot == (piece@ == seq!['.'])) by {
            if piece@.len() == 1 && piece@[0] == '.' {
                assert(piece@ =~= seq!['.']);
            }
        }
        if piece.len() > 0 && !dot {
            crate::text::push_string(&mut out, string_of(&piece));
        }
        assert(crate::text::string_views(out@) =~= before + keep);
        if j < n {
            i = j + 1;
        } else {
            assert(names_from(p@, i as int) == keep + Seq::<Seq<char>>::empty());
            i = n;
            assert(crate::text::string_views(out@) + names_from(p@, n as int) =~= crate::text::string_views(
                out@,
            ));
        }
    }
    assert(crate::text::string_views(out@) =~= components(path@));
    out
}

/// `PathBuf::from(base).push(c)` on Windows.
pub fn push_path(base: &str, c: &str) -> (r: String)
    ensures
        r@ == push_component(base@, c@),
{
    let cv = chars_of(c);
    if prefix_length(&cv) > 0 {
        return String::from_str(c);
    }
    if cv.len() > 0 && is_sep_char(cv[0]) {
        let bv = chars_of(base);
        let pl = prefix_length(&bv);
        let mut out = crate::text::sub_vec(&bv, 0, pl);
        crate::text::extend_chars(&mut out, &cv);
        return string_of(&out);
    }
    join_path(base, c)
}

/// A path collected from the first `n` components.
pub fn collect_path(cs: &Vec<String>, n: usize) -> (r: String)
    requires
        n <= cs@.len(),
    ensures
        r@ == collect_components(crate::text::string_views(cs@).take(n as int)),
{
    let mut out = String::new();
    let mut i: usize = 0;
    let ghost v = crate::text::string_views(cs@);
    assert(v.take(0) =~= Seq::<Seq<char>>::empty());
    while i < n
        invariant
            i <= n <= cs@.len(),
            v == crate::text::string_views(cs@),
            out@ == collect_components(v.take(i as int)),
        decreases n - i,
    {
        out = push_path(out.as_str(), cs[i].as_str());
        proof {
            let t = v.take(i + 1);
            assert(t.drop_last() =~= v.take(i as int));
            assert(t.last() == cs@[i as int]@);
        }
        i = i + 1;
    }
    out
}

fn component_key_of(c: &String) -> (r: Vec<char>)
    ensures
        r@ == component_key(c@),
{
    let cv = chars_of(c.as_str());
    let pl = prefix_length(&cv);
    if pl == 2 && cv.len() == 2 && cv[1] == ':' && !is_sep_char(cv[0]) {
        let r = vec![crate::text::ascii_upper_char(cv[0]), ':'];
        assert(r@ =~= component_key(c@));
        r
    } else if pl == cv.len() && cv.len() > 0 {
        let mut r: Vec<char> = Vec::new();
        let mut i: usize = 0;
        while i < cv.len()
            invariant
                i <= cv@.len(),
                r@ == cv@.take(i as int).map_values(|x: char| if x == '/' { '\\' } else { x }),
            decreases cv.len() - i,
        {
            r.push(if cv[i] == '/' { '\\' } else { cv[i] });
            i = i + 1;
            assert(r@ =~= cv@.take(i as int).map_values(|x: char| if x == '/' { '\\' } else { x }));
        }
        assert(cv@.take(cv@.len() as int) =~= cv@);
        r
    } else {
        cv
    }
}

/// `Path::new(a) == Path::new(b)` on Windows.
pub fn same_windows_path_exec(a: &str, b: &str) -> (r: bool)
    ensures
        r == same_windows_path(a@, b@),
{
    let ca = path_components(a);
    let cb = path_components(b);
    let ghost ka = components(a@).map_values(|c: Seq<char>| component_key(c));
    let ghost kb = components(b@).map_values(|c: Seq<char>| component_key(c));
    if ca.len() != cb.len() {
        assert(ka.len() != kb.len());
        return false;
    }
    let mut i: usize = 0;
    while i < ca.len()
        invariant
            i <= ca@.len(),
            ca@.len() == cb@.len(),
            crate::text::string_views(ca@) == components(a@),
            crate::text::string_views(cb@) == components(b@),
            ka == components(a@).map_values(|c: Seq<char>| component_key(c)),
            kb == components(b@).map_values(|c: Seq<char>| component_key(c)),
            forall|k: int| 0 <= k < i ==> ka[k] == kb[k],
        decreases ca.len() - i,
    {
        let x = component_key_of(&ca[i]);
        let y = component_key_of(&cb[i]);
        assert(crate::text::string_views(ca@)[i as int] == ca@[i as int]@);
        assert(crate::text::string_views(cb@)[i as int] == cb@[i as int]@);
        if !crate::text::str_eq(string_of(&x).as_str(), string_of(&y).as_str()) {
            assert(ka[i as int] != kb[i as int]);
            return false;
        }
        i = i + 1;
    }
    assert(ka =~= kb);
    true
}

} // verus!
