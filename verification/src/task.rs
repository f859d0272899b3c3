//! Scheduled-task definition for the monitor: task names, the Task Scheduler
//! XML document and its UTF-16 encoding, and reading `schtasks /Query` output.

use vstd::prelude::*;
use crate::text::{chars_of, extend_chars, extend_str, string_of, lines, lines_vec, starts_with};

verus! {

/// Characters that Task Scheduler refuses in a task name.
pub open spec fn is_reserved_task_char(c: char) -> bool {
    c == '\\' || c == '/' || c == ':' || c == '*' || c == '?' || c == '"' || c == '<' || c == '>'
        || c == '|'
}

/// `name` with every reserved character removed, the others kept in order.
pub open spec fn sanitized_task_name(name: Seq<char>) -> Seq<char> {
    name.filter(|c: char| !is_reserved_task_char(c))
}

pub fn sanitize_task_name(name: &str) -> (r: String)
    ensures
        r@ == sanitized_task_name(name@),
{
    let cs = chars_of(name);
    let mut out: Vec<char> = Vec::new();
    let mut i: usize = 0;
    let ghost keep = |c: char| !is_reserved_task_char(c);
    while i < cs.len()
        invariant
            i <= cs@.len(),
            keep == (|c: char| !is_reserved_task_char(c)),
            out@ == cs@.take(i as int).filter(keep),
        decreases cs.len() - i,
    {
        let c = cs[i];
        proof {
            assert(cs@.take(i + 1) == cs@.take(i as int).push(c));
            cs@.take(i as int).lemma_filter_push(c, keep);
        }
        if !(c == '\\' || c == '/' || c == ':' || c == '*' || c == '?' || c == '"' || c == '<'
            || c == '>' || c == '|') {
            out.push(c);
        }
        i = i + 1;
    }
    assert(cs@.take(cs@.len() as int) == cs@);
    string_of(&out)
}

pub const TASK_NAME_PREFIX: &'static str = "ProcDump Monitor ";

/// The task name derived from a target: `ProcDump Monitor <target>`.
pub fn auto_task_name(target: &str) -> (r: String)
    ensures
        r@ == TASK_NAME_PREFIX@ + target@,
{
    let mut out: Vec<char> = Vec::new();
    extend_str(&mut out, TASK_NAME_PREFIX);
    extend_str(&mut out, target);
    string_of(&out)
}

/// The XML text standing for one character.
pub open spec fn xml_entity(c: char) -> Seq<char> {
    if c == '&' {
        seq!['&', 'a', 'm', 'p', ';']
    } else if c == '<' {
        seq!['&', 'l', 't', ';']
    } else if c == '>' {
        seq!['&', 'g', 't', ';']
    } else if c == '"' {
        seq!['&', 'q', 'u', 'o', 't', ';']
    } else if c == '\'' {
        seq!['&', 'a', 'p', 'o', 's', ';']
    } else {
        seq![c]
    }
}

/// `s` with each markup character replaced by its entity.
pub open spec fn xml_escaped(s: Seq<char>) -> Seq<char>
    decreases s.len(),
{
    if s.len() == 0 {
        Seq::empty()
    } else {
        xml_escaped(s.drop_last()) + xml_entity(s.last())
    }
}

fn entity_of(c: char) -> (r: Vec<char>)
    ensures
        r@ == xml_entity(c),
{
    let r = if c == '&' {
        vec!['&', 'a', 'm', 'p', ';']
    } else if c == '<' {
        vec!['&', 'l', 't', ';']
    } else if c == '>' {
        vec!['&', 'g', 't', ';']
    } else if c == '"' {
        vec!['&', 'q', 'u', 'o', 't', ';']
    } else if c == '\'' {
        vec!['&', 'a', 'p', 'o', 's', ';']
    } else {
        vec![c]
    };
    assert(r@ =~= xml_entity(c));
    r
}

fn push_escaped(out: &mut Vec<char>, s: &str)
    ensures
        final(out)@ == old(out)@ + xml_escaped(s@),
{
    let cs = chars_of(s);
    let ghost start = out@;
    let mut i: usize = 0;
    while i < cs.len()
        invariant
            i <= cs@.len(),
            out@ == start + xml_escaped(cs@.take(i as int)),
        decreases cs.len() - i,
    {
        let e = entity_of(cs[i]);
        extend_chars(out, &e);
        proof {
            let t = cs@.take(i + 1);
            assert(t.drop_last() == cs@.take(i as int));
            assert(t.last() == cs@[i as int]);
        }
        i = i + 1;
        assert(out@ =~= start + xml_escaped(cs@.take(i as int)));
    }
    assert(cs@.take(cs@.len() as int) == cs@);
}

pub fn xml_escape(s: &str) -> (r: String)
    ensures
        r@ == xml_escaped(s@),
{
    let mut out: Vec<char> = Vec::new();
    push_escaped(&mut out, s);
    assert(out@ =~= xml_escaped(s@));
    string_of(&out)
}

/// Escaped text holds no `<`, `>`, `"` or `'`: it cannot end an element or an
/// attribute value it is placed in.
pub proof fn law_xml_escaped_has_no_markup(s: Seq<char>)
    ensures
        forall|i: int|
            0 <= i < xml_escaped(s).len() ==> {
                let c = #[trigger] xml_escaped(s)[i];
                c != '<' && c != '>' && c != '"' && c != '\''
            },
    decreases s.len(),
{
    if s.len() > 0 {
        law_xml_escaped_has_no_markup(s.drop_last());
        let a = xml_escaped(s.drop_last());
        let b = xml_entity(s.last());
        assert forall|i: int| 0 <= i < xml_escaped(s).len() implies {
            let c = #[trigger] xml_escaped(s)[i];
            c != '<' && c != '>' && c != '"' && c != '\''
        } by {
            if i >= a.len() {
                assert(xml_escaped(s)[i] == b[i - a.len()]);
            } else {
                assert(xml_escaped(s)[i] == a[i]);
            }
        }
    }
}

/// Reading escaped XML text back, left to right: each of `&amp;`, `&lt;`,
/// `&gt;`, `&quot;` and `&apos;` stands for its character, anything else for
/// itself.
pub open spec fn xml_unescaped(t: Seq<char>) -> Seq<char>
    decreases t.len(),
{
    if t.len() == 0 {
        Seq::empty()
    } else if starts_with(t, xml_entity('&')) {
        seq!['&'] + xml_unescaped(t.subrange(5, t.len() as int))
    } else if starts_with(t, xml_entity('<')) {
        seq!['<'] + xml_unescaped(t.subrange(4, t.len() as int))
    } else if starts_with(t, xml_entity('>')) {
        seq!['>'] + xml_unescaped(t.subrange(4, t.len() as int))
    } else if starts_with(t, xml_entity('"')) {
        seq!['"'] + xml_unescaped(t.subrange(6, t.len() as int))
    } else if starts_with(t, xml_entity('\'')) {
        seq!['\''] + xml_unescaped(t.subrange(6, t.len() as int))
    } else {
        seq![t[0]] + xml_unescaped(t.drop_first())
    }
}

proof fn lemma_escaped_front(s: Seq<char>)
    requires
        s.len() > 0,
    ensures
        xml_escaped(s) == xml_entity(s[0]) + xml_escaped(s.drop_first()),
    decreases s.len(),
{
    if s.len() == 1 {
        assert(s.drop_last() =~= Seq::<char>::empty());
        assert(s.drop_first() =~= Seq::<char>::empty());
        assert(xml_escaped(s.drop_last()) =~= Seq::<char>::empty());
        assert(xml_escaped(s.drop_first()) =~= Seq::<char>::empty());
        assert(s.last() == s[0]);
        assert(xml_escaped(s) =~= xml_entity(s[0]) + xml_escaped(s.drop_first()));
    } else {
        lemma_escaped_front(s.drop_last());
        assert(s.drop_last().drop_first() =~= s.drop_first().drop_last());
        assert(s.drop_first().last() == s.last());
        assert(xml_escaped(s) =~= xml_entity(s[0]) + xml_escaped(s.drop_first()));
    }
}

proof fn lemma_unescape_entity(c: char, rest: Seq<char>)
    ensures
        xml_unescaped(xml_entity(c) + rest) == seq![c] + xml_unescaped(rest),
{
    let t = xml_entity(c) + rest;
    let n = xml_entity(c).len() as int;
    assert(t.subrange(n, t.len() as int) =~= rest);
    assert(t.subrange(0, n) =~= xml_entity(c));
    if c == '&' {
    } else if c == '<' {
        assert(!starts_with(t, xml_entity('&'))) by { assert(t[1] != xml_entity('&')[1]); }
    } else if c == '>' {
        assert(!starts_with(t, xml_entity('&'))) by { assert(t[1] != xml_entity('&')[1]); }
        assert(!starts_with(t, xml_entity('<'))) by { assert(t[1] != xml_entity('<')[1]); }
    } else if c == '"' {
        assert(!starts_with(t, xml_entity('&'))) by { assert(t[1] != xml_entity('&')[1]); }
        assert(!starts_with(t, xml_entity('<'))) by { assert(t[1] != xml_entity('<')[1]); }
        assert(!starts_with(t, xml_entity('>'))) by { assert(t[1] != xml_entity('>')[1]); }
    } else if c == '\'' {
        assert(!starts_with(t, xml_entity('&'))) by { assert(t[2] != xml_entity('&')[2]); }
        assert(!starts_with(t, xml_entity('<'))) by { assert(t[1] != xml_entity('<')[1]); }
        assert(!starts_with(t, xml_entity('>'))) by { assert(t[1] != xml_entity('>')[1]); }
        assert(!starts_with(t, xml_entity('"'))) by { assert(t[1] != xml_entity('"')[1]); }
    } else {
        assert(t[0] == c);
        assert(!starts_with(t, xml_entity('&'))) by { assert(t[0] != xml_entity('&')[0]); }
        assert(!starts_with(t, xml_entity('<'))) by { assert(t[0] != xml_entity('<')[0]); }
        assert(!starts_with(t, xml_entity('>'))) by { assert(t[0] != xml_entity('>')[0]); }
        assert(!starts_with(t, xml_entity('"'))) by { assert(t[0] != xml_entity('"')[0]); }
        assert(!starts_with(t, xml_entity('\''))) by { assert(t[0] != xml_entity('\'')[0]); }
        assert(t.drop_first() =~= rest);
    }
}

/// `t` from index `i` on begins with one of the five entities.
pub open spec fn entity_at(t: Seq<char>, i: int) -> bool {
    let rest = t.subrange(i, t.len() as int);
    ||| starts_with(rest, xml_entity('&'))
    ||| starts_with(rest, xml_entity('<'))
    ||| starts_with(rest, xml_entity('>'))
    ||| starts_with(rest, xml_entity('"'))
    ||| starts_with(rest, xml_entity('\''))
}

/// Nothing is escaped twice over: every `&` in escaped text begins one of
/// `&amp;`, `&lt;`, `&gt;`, `&quot;` or `&apos;`.
pub proof fn law_xml_escape_ampersands_begin_entities(s: Seq<char>)
    ensures
        forall|i: int|
            0 <= i < xml_escaped(s).len() && #[trigger] xml_escaped(s)[i] == '&' ==> entity_at(
                xml_escaped(s),
                i,
            ),
    decreases s.len(),
{
    if s.len() > 0 {
        let a = xml_escaped(s.drop_last());
        let e = xml_entity(s.last());
        let t = xml_escaped(s);
        law_xml_escape_ampersands_begin_entities(s.drop_last());
        assert(t =~= a + e);
        assert forall|i: int| 0 <= i < t.len() && #[trigger] t[i] == '&' implies entity_at(t, i) by {
            if i < a.len() {
                assert(a[i] == '&');
                assert(entity_at(a, i));
                let ra = a.subrange(i, a.len() as int);
                let rt = t.subrange(i, t.len() as int);
                assert(rt =~= ra + e);
                assert forall|q: Seq<char>| q.len() <= ra.len() && ra.subrange(0, q.len() as int) == q
                    implies rt.subrange(0, q.len() as int) == q by {
                    assert(rt.subrange(0, q.len() as int) =~= ra.subrange(0, q.len() as int));
                }
            } else {
                let k = i - a.len();
                assert(e[k] == '&');
                assert(k == 0);
                let rt = t.subrange(i, t.len() as int);
                assert(rt =~= e);
                assert(starts_with(rt, e)) by {
                    assert(rt.subrange(0, e.len() as int) =~= e);
                }
            }
        }
    }
}

/// Escaping loses nothing: reading the escaped text back gives the text
/// (`&` is escaped too, so nothing is read twice).
pub proof fn law_xml_escape_round_trip(s: Seq<char>)
    ensures
        xml_unescaped(xml_escaped(s)) == s,
    decreases s.len(),
{
    if s.len() > 0 {
        lemma_escaped_front(s);
        lemma_unescape_entity(s[0], xml_escaped(s.drop_first()));
        law_xml_escape_round_trip(s.drop_first());
        assert(seq![s[0]] + s.drop_first() =~= s);
    } else {
        assert(xml_escaped(s) =~= Seq::<char>::empty());
    }
}

/// Reading UTF-16 little-endian bytes back as code points: each byte pair
/// is a code unit; a high surrogate followed by a low one stands for one
/// supplementary code point, any other unit for itself.
pub open spec fn utf16le_decode(b: Seq<u8>) -> Seq<u32>
    decreases b.len(),
{
    if b.len() < 2 {
        Seq::empty()
    } else {
        let u = b[0] as int + 256 * b[1] as int;
        if 0xD800 <= u < 0xDC00 && b.len() >= 4 && 0xDC00 <= b[2] as int + 256 * b[3] as int && b[2] as int
            + 256 * b[3] as int <= 0xDFFF {
            let lo = b[2] as int + 256 * b[3] as int;
            seq![(0x10000 + (u - 0xD800) * 0x400 + (lo - 0xDC00)) as u32] + utf16le_decode(
                b.subrange(4, b.len() as int),
            )
        } else {
            seq![u as u32] + utf16le_decode(b.subrange(2, b.len() as int))
        }
    }
}

proof fn lemma_utf16le_front(s: Seq<char>)
    requires
        s.len() > 0,
    ensures
        utf16le(s) == utf16le_char(s[0]) + utf16le(s.drop_first()),
    decreases s.len(),
{
    if s.len() == 1 {
        assert(s.drop_last() =~= Seq::<char>::empty());
        assert(s.drop_first() =~= Seq::<char>::empty());
        assert(utf16le(s.drop_last()) =~= Seq::<u8>::empty());
        assert(utf16le(s.drop_first()) =~= Seq::<u8>::empty());
        assert(s.last() == s[0]);
        assert(utf16le(s) =~= utf16le_char(s[0]) + utf16le(s.drop_first()));
    } else {
        lemma_utf16le_front(s.drop_last());
        assert(s.drop_last().drop_first() =~= s.drop_first().drop_last());
        assert(s.drop_first().last() == s.last());
        assert(utf16le(s) =~= utf16le_char(s[0]) + utf16le(s.drop_first()));
    }
}

proof fn lemma_decode_char(c: char, rest: Seq<u8>)
    ensures
        utf16le_decode(utf16le_char(c) + rest) == seq![c as u32] + utf16le_decode(rest),
{
    let u = c as u32;
    let t = utf16le_char(c) + rest;
    if u < 0x10000 {
        assert(u < 0xD800 || u >= 0xE000);
        assert((u % 256) as int + 256 * ((u / 256) as int) == u) by (nonlinear_arith);
        assert(t[0] == (u % 256) as u8 && t[1] == (u / 256) as u8);
        assert(t.subrange(2, t.len() as int) =~= rest);
    } else {
        let v = u - 0x10000;
        let hi = 0xD800 + v / 0x400;
        let lo = 0xDC00 + v % 0x400;
        assert(v < 0x100000);
        assert(0xD800 <= hi < 0xDC00) by (nonlinear_arith)
            requires
                0 <= v < 0x100000,
                hi == 0xD800 + v / 0x400,
        ;
        assert(0xDC00 <= lo <= 0xDFFF);
        assert((hi % 256) as int + 256 * ((hi / 256) as int) == hi) by (nonlinear_arith);
        assert((lo % 256) as int + 256 * ((lo / 256) as int) == lo) by (nonlinear_arith);
        assert(t[0] == (hi % 256) as u8 && t[1] == (hi / 256) as u8);
        assert(t[2] == (lo % 256) as u8 && t[3] == (lo / 256) as u8);
        assert(0x10000 + (hi - 0xD800) * 0x400 + (lo - 0xDC00) == u) by (nonlinear_arith)
            requires
                v == u - 0x10000,
                hi == 0xD800 + v / 0x400,
                lo == 0xDC00 + v % 0x400,
        ;
        assert(t.subrange(4, t.len() as int) =~= rest);
    }
}

/// Decoding the encoded text gives back its code points, one for each
/// character, in order.
pub proof fn law_utf16le_round_trip(s: Seq<char>)
    ensures
        utf16le_decode(utf16le(s)) == s.map_values(|c: char| c as u32),
    decreases s.len(),
{
    if s.len() > 0 {
        lemma_utf16le_front(s);
        lemma_decode_char(s[0], utf16le(s.drop_first()));
        law_utf16le_round_trip(s.drop_first());
        assert(seq![s[0] as u32] + s.drop_first().map_values(|c: char| c as u32) =~= s.map_values(
            |c: char| c as u32,
        ));
    } else {
        assert(utf16le(s) =~= Seq::<u8>::empty());
        assert(s.map_values(|c: char| c as u32) =~= Seq::<u32>::empty());
    }
}

/// The encoded text takes two bytes per UTF-16 code unit.
pub proof fn law_utf16le_two_bytes_per_unit(s: Seq<char>)
    ensures
        utf16le(s).len() == 2 * utf16_len(s),
    decreases s.len(),
{
    if s.len() > 0 {
        law_utf16le_two_bytes_per_unit(s.drop_last());
    }
}


/// UTF-16 little-endian bytes of one character (a surrogate pair above the
/// Basic Multilingual Plane).
pub open spec fn utf16le_char(c: char) -> Seq<u8> {
    let u = c as u32;
    if u < 0x10000 {
        seq![(u % 256) as u8, (u / 256) as u8]
    } else {
        let v = u - 0x10000;
        let hi = 0xD800 + v / 0x400;
        let lo = 0xDC00 + v % 0x400;
        seq![(hi % 256) as u8, (hi / 256) as u8, (lo % 256) as u8, (lo / 256) as u8]
    }
}

/// UTF-16 little-endian bytes of a text, no byte-order mark.
pub open spec fn utf16le(s: Seq<char>) -> Seq<u8>
    decreases s.len(),
{
    if s.len() == 0 {
        Seq::empty()
    } else {
        utf16le(s.drop_last()) + utf16le_char(s.last())
    }
}

/// Number of UTF-16 code units of a text.
pub open spec fn utf16_len(s: Seq<char>) -> nat
    decreases s.len(),
{
    if s.len() == 0 {
        0
    } else {
        utf16_len(s.drop_last()) + if (s.last() as u32) < 0x10000 { 1nat } else { 2nat }
    }
}

fn push_utf16le(out: &mut Vec<u8>, c: char)
    ensures
        final(out)@ == old(out)@ + utf16le_char(c),
{
    let u = c as u32;
    if u < 0x10000 {
        out.push((u % 256) as u8);
        out.push((u / 256) as u8);
    } else {
        let v = u - 0x10000;
        let hi = 0xD800 + v / 0x400;
        let lo = 0xDC00 + v % 0x400;
        out.push((hi % 256) as u8);
        out.push((hi / 256) as u8);
        out.push((lo % 256) as u8);
        out.push((lo / 256) as u8);
    }
    assert(out@ =~= old(out)@ + utf16le_char(c));
}

/// The byte-order mark `FF FE`, then the text as UTF-16 little-endian.
pub fn to_utf16le_bom(s: &str) -> (r: Vec<u8>)
    ensures
        r@ == seq![0xFFu8, 0xFEu8] + utf16le(s@),
{
    let cs = chars_of(s);
    let mut out: Vec<u8> = vec![0xFF, 0xFE];
    let mut i: usize = 0;
    while i < cs.len()
        invariant
            i <= cs@.len(),
            out@ == seq![0xFFu8, 0xFEu8] + utf16le(cs@.take(i as int)),
        decreases cs.len() - i,
    {
        push_utf16le(&mut out, cs[i]);
        proof {
            let t = cs@.take(i + 1);
            assert(t.drop_last() == cs@.take(i as int));
            assert(t.last() == cs@[i as int]);
        }
        i = i + 1;
        assert(out@ =~= seq![0xFFu8, 0xFEu8] + utf16le(cs@.take(i as int)));
    }
    assert(cs@.take(cs@.len() as int) == cs@);
    out
}

pub const TASK_XML_HEAD: &'static str = "<?xml version=\"1.0\" encoding=\"UTF-16\"?>
<Task version=\"1.2\" xmlns=\"http://schemas.microsoft.com/windows/2004/02/mit/task\">
  <RegistrationInfo>
    <Description>ProcDump Monitor - watches for ";

pub const TASK_XML_COMMAND: &'static str = " and captures crash dumps.</Description>
  </RegistrationInfo>
  <Triggers>
    <BootTrigger>
      <Enabled>true</Enabled>
    </BootTrigger>
  </Triggers>
  <Principals>
    <Principal id=\"Author\">
      <UserId>S-1-5-18</UserId>
      <RunLevel>HighestAvailable</RunLevel>
    </Principal>
  </Principals>
  <Settings>
    <MultipleInstancesPolicy>IgnoreNew</MultipleInstancesPolicy>
    <DisallowStartIfOnBatteries>false</DisallowStartIfOnBatteries>
    <StopIfGoingOnBatteries>false</StopIfGoingOnBatteries>
    <AllowHardTerminate>true</AllowHardTerminate>
    <StartWhenAvailable>true</StartWhenAvailable>
    <RunOnlyIfNetworkAvailable>false</RunOnlyIfNetworkAvailable>
    <AllowStartOnDemand>true</AllowStartOnDemand>
    <ExecutionTimeLimit>PT0S</ExecutionTimeLimit>
    <Enabled>true</Enabled>
    <RestartOnFailure>
      <Interval>PT1M</Interval>
      <Count>999</Count>
    </RestartOnFailure>
  </Settings>
  <Actions Context=\"Author\">
    <Exec>
      <Command>";

pub const TASK_XML_CONFIG: &'static str = "</Command>
      <Arguments>--monitor --config &quot;";

pub const TASK_XML_WORKDIR: &'static str = "&quot;</Arguments>
      <WorkingDirectory>";

pub const TASK_XML_TAIL: &'static str = "</WorkingDirectory>
    </Exec>
  </Actions>
</Task>
";

/// Fields of a comma-separated line as `schtasks /FO CSV` writes it, `s` being
/// the text not yet read: a `"` toggles quoting, `""` inside quotes stands for
/// one `"`, and a comma outside quotes ends a field.
pub open spec fn csv_go(s: Seq<char>, in_quotes: bool, cur: Seq<char>, fields: Seq<Seq<char>>) -> Seq<
    Seq<char>,
>
    decreases s.len(),
{
    if s.len() == 0 {
        fields.push(cur)
    } else if s[0] == '"' && in_quotes && s.len() > 1 && s[1] == '"' {
        csv_go(s.subrange(2, s.len() as int), in_quotes, cur.push('"'), fields)
    } else if s[0] == '"' {
        csv_go(s.drop_first(), !in_quotes, cur, fields)
    } else if s[0] == ',' && !in_quotes {
        csv_go(s.drop_first(), false, Seq::empty(), fields.push(cur))
    } else {
        csv_go(s.drop_first(), in_quotes, cur.push(s[0]), fields)
    }
}

/// The fields of one CSV line.
pub open spec fn csv_fields(line: Seq<char>) -> Seq<Seq<char>> {
    csv_go(line, false, Seq::empty(), Seq::empty())
}

/// Minimal CSV field splitter for `schtasks` output (quoted fields, comma
/// separated).
pub fn parse_csv_line(line: &str) -> (r: Vec<String>)
    ensures
        crate::text::string_views(r@) == csv_fields(line@),
{
    let cs = chars_of(line);
    let n = cs.len();
    let mut fields: Vec<String> = Vec::new();
    let mut cur: Vec<char> = Vec::new();
    let mut in_quotes = false;
    let mut i: usize = 0;
    assert(cs@.subrange(0, n as int) == cs@);
    assert(crate::text::string_views(fields@) =~= Seq::<Seq<char>>::empty());
    assert(cur@ =~= Seq::<char>::empty());
    while i < n
        invariant
            n == cs@.len(),
            i <= n,
            csv_go(cs@.subrange(i as int, n as int), in_quotes, cur@, crate::text::string_views(fields@))
                == csv_fields(line@),
            cs@ == line@,
        decreases n - i,
    {
        let ghost rest = cs@.subrange(i as int, n as int);
        let c = cs[i];
        if c == '"' && in_quotes && i + 1 < n && cs[i + 1] == '"' {
            cur.push('"');
            assert(rest.subrange(2, rest.len() as int) =~= cs@.subrange(i + 2, n as int));
            i = i + 2;
        } else if c == '"' {
            in_quotes = !in_quotes;
            assert(rest.drop_first() =~= cs@.subrange(i + 1, n as int));
            i = i + 1;
        } else if c == ',' && !in_quotes {
            let piece = string_of(&cur);
            crate::text::push_string(&mut fields, piece);
            cur = Vec::new();
            assert(cur@ =~= Seq::<char>::empty());
            assert(rest.drop_first() =~= cs@.subrange(i + 1, n as int));
            i = i + 1;
        } else {
            cur.push(c);
            assert(rest.drop_first() =~= cs@.subrange(i + 1, n as int));
            i = i + 1;
        }
    }
    let piece = string_of(&cur);
    crate::text::push_string(&mut fields, piece);
    fields
}

/// `f` with each `"` doubled, as a quoted CSV field holds it.
pub open spec fn csv_doubled(f: Seq<char>) -> Seq<char>
    decreases f.len(),
{
    if f.len() == 0 {
        Seq::empty()
    } else {
        (if f[0] == '"' { seq!['"', '"'] } else { seq![f[0]] }) + csv_doubled(f.drop_first())
    }
}

/// A field written in quotes.
pub open spec fn csv_quoted(f: Seq<char>) -> Seq<char> {
    seq!['"'] + csv_doubled(f) + seq!['"']
}

/// A record with every field quoted, fields separated by commas.
pub open spec fn csv_record(fs: Seq<Seq<char>>) -> Seq<char>
    decreases fs.len(),
{
    if fs.len() <= 1 {
        if fs.len() == 0 { Seq::empty() } else { csv_quoted(fs[0]) }
    } else {
        csv_quoted(fs[0]) + seq![','] + csv_record(fs.drop_first())
    }
}

proof fn lemma_csv_quoted_body(f: Seq<char>, rest: Seq<char>, cur: Seq<char>, fields: Seq<Seq<char>>)
    ensures
        csv_go(csv_doubled(f) + rest, true, cur, fields) == csv_go(rest, true, cur + f, fields),
    decreases f.len(),
{
    let s = csv_doubled(f) + rest;
    if f.len() == 0 {
        assert(s =~= rest);
        assert(cur + f =~= cur);
    } else {
        let tail = f.drop_first();
        lemma_csv_quoted_body(tail, rest, cur.push(f[0]), fields);
        assert(cur.push(f[0]) + tail =~= cur + f);
        if f[0] == '"' {
            assert(s[0] == '"' && s[1] == '"');
            assert(s.subrange(2, s.len() as int) =~= csv_doubled(tail) + rest);
        } else {
            assert(s[0] == f[0]);
            assert(s.drop_first() =~= csv_doubled(tail) + rest);
        }
    }
}

proof fn lemma_csv_record(fs: Seq<Seq<char>>, fields: Seq<Seq<char>>)
    requires
        fs.len() >= 1,
    ensures
        csv_go(csv_record(fs), false, Seq::empty(), fields) == fields + fs,
    decreases fs.len(),
{
    let f0 = fs[0];
    let tail: Seq<char> = if fs.len() == 1 { Seq::empty() } else { seq![','] + csv_record(fs.drop_first()) };
    let s = csv_record(fs);
    assert(s =~= seq!['"'] + (csv_doubled(f0) + (seq!['"'] + tail)));
    assert(s.drop_first() =~= csv_doubled(f0) + (seq!['"'] + tail));
    lemma_csv_quoted_body(f0, seq!['"'] + tail, Seq::empty(), fields);
    assert(Seq::<char>::empty() + f0 =~= f0);
    let t2 = seq!['"'] + tail;
    assert(t2.drop_first() =~= tail);
    assert(s[0] == '"');
    assert(csv_go(s, false, Seq::empty(), fields) == csv_go(s.drop_first(), true, Seq::empty(), fields));
    assert(csv_go(s.drop_first(), true, Seq::empty(), fields) == csv_go(t2, true, f0, fields));
    assert(t2[0] == '"');
    if fs.len() > 1 {
        assert(t2[1] == ',');
    }
    assert(csv_go(t2, true, f0, fields) == csv_go(tail, false, f0, fields));
    if fs.len() == 1 {
        assert(fields.push(f0) =~= fields + fs);
    } else {
        assert(tail.drop_first() =~= csv_record(fs.drop_first()));
        lemma_csv_record(fs.drop_first(), fields.push(f0));
        assert(fields.push(f0) + fs.drop_first() =~= fields + fs);
    }
}

/// Reading back a record: every field of a line in which each field is
/// quoted, with its quotes doubled, comes back unchanged and in order.
pub proof fn law_csv_record_round_trip(fs: Seq<Seq<char>>)
    requires
        fs.len() >= 1,
    ensures
        csv_fields(csv_record(fs)) == fs,
{
    lemma_csv_record(fs, Seq::empty());
    assert(Seq::<Seq<char>>::empty() + fs =~= fs);
}


/// The Task Scheduler document for a target: boot trigger, SYSTEM principal
/// with no logon type, restart every minute on failure, and an action that
/// runs `exe --monitor --config "<config_path>"` in `workdir`. Every value is
/// XML-escaped.
pub open spec fn task_xml_text(
    target: Seq<char>,
    exe: Seq<char>,
    config_path: Seq<char>,
    workdir: Seq<char>,
) -> Seq<char> {
    TASK_XML_HEAD@ + xml_escaped(target) + TASK_XML_COMMAND@ + xml_escaped(exe)
        + TASK_XML_CONFIG@ + xml_escaped(config_path) + TASK_XML_WORKDIR@ + xml_escaped(workdir)
        + TASK_XML_TAIL@
}

/// `p` occurs in `s`.
pub open spec fn contains_text(s: Seq<char>, p: Seq<char>) -> bool {
    exists|i: int| crate::text::matches_at(s, p, i)
}

/// No `<` in `x` from index `i` on is the last character or followed by
/// `L`.
pub open spec fn no_tag_l_from(x: Seq<char>, i: int) -> bool
    decreases x.len() - i,
{
    if i < 0 || i >= x.len() {
        true
    } else {
        (x[i] != '<' || (i + 1 < x.len() && x[i + 1] != 'L')) && no_tag_l_from(x, i + 1)
    }
}

/// Every `<` in `x` is followed by a character other than `L`.
pub open spec fn no_tag_l(x: Seq<char>) -> bool {
    forall|p: int| 0 <= p < x.len() && #[trigger] x[p] == '<' ==> p + 1 < x.len() && x[p + 1] != 'L'
}

proof fn lemma_no_tag_l_from(x: Seq<char>, i: int)
    requires
        0 <= i,
        no_tag_l_from(x, i),
    ensures
        forall|p: int| i <= p < x.len() && #[trigger] x[p] == '<' ==> p + 1 < x.len() && x[p + 1] != 'L',
    decreases x.len() - i,
{
    if i < x.len() {
        lemma_no_tag_l_from(x, i + 1);
    }
}

proof fn lemma_no_tag_l_concat(a: Seq<char>, b: Seq<char>)
    requires
        no_tag_l(a),
        no_tag_l(b),
    ensures
        no_tag_l(a + b),
{
    let s = a + b;
    assert forall|p: int| 0 <= p < s.len() && #[trigger] s[p] == '<' implies p + 1 < s.len() && s[p + 1] != 'L' by {
        if p < a.len() {
            assert(a[p] == '<');
        } else {
            assert(b[p - a.len()] == '<');
        }
    }
}

proof fn lemma_escaped_no_tag_l(s: Seq<char>)
    ensures
        no_tag_l(xml_escaped(s)),
{
    law_xml_escaped_has_no_markup(s);
}

proof fn lemma_head_no_tag_l()
    ensures
        no_tag_l(TASK_XML_HEAD@),
{
    reveal_strlit("<?xml version=\"1.0\" encoding=\"UTF-16\"?>
<Task version=\"1.2\" xmlns=\"http://schemas.microsoft.com/windows/2004/02/mit/task\">
  <RegistrationInfo>
    <Description>ProcDump Monitor - watches for ");
    assert(no_tag_l_from(TASK_XML_HEAD@, 192)) by {
        reveal_with_fuel(no_tag_l_from, 42);
    }
    assert(no_tag_l_from(TASK_XML_HEAD@, 152)) by {
        reveal_with_fuel(no_tag_l_from, 42);
    }
    assert(no_tag_l_from(TASK_XML_HEAD@, 112)) by {
        reveal_with_fuel(no_tag_l_from, 42);
    }
    assert(no_tag_l_from(TASK_XML_HEAD@, 72)) by {
        reveal_with_fuel(no_tag_l_from, 42);
    }
    assert(no_tag_l_from(TASK_XML_HEAD@, 32)) by {
        reveal_with_fuel(no_tag_l_from, 42);
    }
    assert(no_tag_l_from(TASK_XML_HEAD@, 0)) by {
        reveal_with_fuel(no_tag_l_from, 42);
    }
    lemma_no_tag_l_from(TASK_XML_HEAD@, 0);
}

proof fn lemma_command_no_tag_l()
    ensures
        no_tag_l(TASK_XML_COMMAND@),
{
    reveal_strlit(" and captures crash dumps.</Description>
  </RegistrationInfo>
  <Triggers>
    <BootTrigger>
      <Enabled>true</Enabled>
    </BootTrigger>
  </Triggers>
  <Principals>
    <Principal id=\"Author\">
      <UserId>S-1-5-18</UserId>
      <RunLevel>HighestAvailable</RunLevel>
    </Principal>
  </Principals>
  <Settings>
    <MultipleInstancesPolicy>IgnoreNew</MultipleInstancesPolicy>
    <DisallowStartIfOnBatteries>false</DisallowStartIfOnBatteries>
    <StopIfGoingOnBatteries>false</StopIfGoingOnBatteries>
    <AllowHardTerminate>true</AllowHardTerminate>
    <StartWhenAvailable>true</StartWhenAvailable>
    <RunOnlyIfNetworkAvailable>false</RunOnlyIfNetworkAvailable>
    <AllowStartOnDemand>true</AllowStartOnDemand>
    <ExecutionTimeLimit>PT0S</ExecutionTimeLimit>
    <Enabled>true</Enabled>
    <RestartOnFailure>
      <Interval>PT1M</Interval>
      <Count>999</Count>
    </RestartOnFailure>
  </Settings>
  <Actions Context=\"Author\">
    <Exec>
      <Command>");
    assert(no_tag_l_from(TASK_XML_COMMAND@, 979)) by {
        reveal_with_fuel(no_tag_l_from, 42);
    }
    assert(no_tag_l_from(TASK_XML_COMMAND@, 939)) by {
        reveal_with_fuel(no_tag_l_from, 42);
    }
    assert(no_tag_l_from(TASK_XML_COMMAND@, 899)) by {
        reveal_with_fuel(no_tag_l_from, 42);
    }
    assert(no_tag_l_from(TASK_XML_COMMAND@, 859)) by {
        reveal_with_fuel(no_tag_l_from, 42);
    }
    assert(no_tag_l_from(TASK_XML_COMMAND@, 819)) by {
        reveal_with_fuel(no_tag_l_from, 42);
    }
    assert(no_tag_l_from(TASK_XML_COMMAND@, 779)) by {
        reveal_with_fuel(no_tag_l_from, 42);
    }
    assert(no_tag_l_from(TASK_XML_COMMAND@, 739)) by {
        reveal_with_fuel(no_tag_l_from, 42);
    }
    assert(no_tag_l_from(TASK_XML_COMMAND@, 699)) by {
        reveal_with_fuel(no_tag_l_from, 42);
    }
    assert(no_tag_l_from(TASK_XML_COMMAND@, 659)) by {
        reveal_with_fuel(no_tag_l_from, 42);
    }
    assert(no_tag_l_from(TASK_XML_COMMAND@, 619)) by {
        reveal_with_fuel(no_tag_l_from, 42);
    }
    assert(no_tag_l_from(TASK_XML_COMMAND@, 579)) by {
        reveal_with_fuel(no_tag_l_from, 42);
    }
    assert(no_tag_l_from(TASK_XML_COMMAND@, 539)) by {
        reveal_with_fuel(no_tag_l_from, 42);
    }
    assert(no_tag_l_from(TASK_XML_COMMAND@, 499)) by {
        reveal_with_fuel(no_tag_l_from, 42);
    }
    assert(no_tag_l_from(TASK_XML_COMMAND@, 459)) by {
        reveal_with_fuel(no_tag_l_from, 42);
    }
    assert(no_tag_l_from(TASK_XML_COMMAND@, 419)) by {
        reveal_with_fuel(no_tag_l_from, 42);
    }
    assert(no_tag_l_from(TASK_XML_COMMAND@, 379)) by {
        reveal_with_fuel(no_tag_l_from, 42);
    }
    assert(no_tag_l_from(TASK_XML_COMMAND@, 339)) by {
        reveal_with_fuel(no_tag_l_from, 42);
    }
    assert(no_tag_l_from(TASK_XML_COMMAND@, 299)) by {
        reveal_with_fuel(no_tag_l_from, 42);
    }
    assert(no_tag_l_from(TASK_XML_COMMAND@, 259)) by {
        reveal_with_fuel(no_tag_l_from, 42);
    }
    assert(no_tag_l_from(TASK_XML_COMMAND@, 219)) by {
        reveal_with_fuel(no_tag_l_from, 42);
    }
    assert(no_tag_l_from(TASK_XML_COMMAND@, 179)) by {
        reveal_with_fuel(no_tag_l_from, 42);
    }
    assert(no_tag_l_from(TASK_XML_COMMAND@, 139)) by {
        reveal_with_fuel(no_tag_l_from, 42);
    }
    assert(no_tag_l_from(TASK_XML_COMMAND@, 99)) by {
        reveal_with_fuel(no_tag_l_from, 42);
    }
    assert(no_tag_l_from(TASK_XML_COMMAND@, 59)) by {
        reveal_with_fuel(no_tag_l_from, 42);
    }
    assert(no_tag_l_from(TASK_XML_COMMAND@, 19)) by {
        reveal_with_fuel(no_tag_l_from, 42);
    }
    assert(no_tag_l_from(TASK_XML_COMMAND@, 0)) by {
        reveal_with_fuel(no_tag_l_from, 42);
    }
    lemma_no_tag_l_from(TASK_XML_COMMAND@, 0);
}

proof fn lemma_config_no_tag_l()
    ensures
        no_tag_l(TASK_XML_CONFIG@),
{
    reveal_strlit("</Command>
      <Arguments>--monitor --config &quot;");
    assert(no_tag_l_from(TASK_XML_CONFIG@, 53)) by {
        reveal_with_fuel(no_tag_l_from, 42);
    }
    assert(no_tag_l_from(TASK_XML_CONFIG@, 13)) by {
        reveal_with_fuel(no_tag_l_from, 42);
    }
    assert(no_tag_l_from(TASK_XML_CONFIG@, 0)) by {
        reveal_with_fuel(no_tag_l_from, 42);
    }
    lemma_no_tag_l_from(TASK_XML_CONFIG@, 0);
}

proof fn lemma_workdir_no_tag_l()
    ensures
        no_tag_l(TASK_XML_WORKDIR@),
{
    reveal_strlit("&quot;</Arguments>
      <WorkingDirectory>");
    assert(no_tag_l_from(TASK_XML_WORKDIR@, 43)) by {
        reveal_with_fuel(no_tag_l_from, 42);
    }
    assert(no_tag_l_from(TASK_XML_WORKDIR@, 3)) by {
        reveal_with_fuel(no_tag_l_from, 42);
    }
    assert(no_tag_l_from(TASK_XML_WORKDIR@, 0)) by {
        reveal_with_fuel(no_tag_l_from, 42);
    }
    lemma_no_tag_l_from(TASK_XML_WORKDIR@, 0);
}

proof fn lemma_tail_no_tag_l()
    ensures
        no_tag_l(TASK_XML_TAIL@),
{
    reveal_strlit("</WorkingDirectory>
    </Exec>
  </Actions>
</Task>
");
    assert(no_tag_l_from(TASK_XML_TAIL@, 53)) by {
        reveal_with_fuel(no_tag_l_from, 42);
    }
    assert(no_tag_l_from(TASK_XML_TAIL@, 13)) by {
        reveal_with_fuel(no_tag_l_from, 42);
    }
    assert(no_tag_l_from(TASK_XML_TAIL@, 0)) by {
        reveal_with_fuel(no_tag_l_from, 42);
    }
    lemma_no_tag_l_from(TASK_XML_TAIL@, 0);
}

/// The task document has no `<LogonType>` element (nor any other element
/// whose name begins with `L`), whatever the target and paths: a task that
/// runs as SYSTEM must not name a logon type.
pub proof fn law_task_xml_has_no_logon_type(
    target: Seq<char>,
    exe: Seq<char>,
    config_path: Seq<char>,
    workdir: Seq<char>,
)
    ensures
        !contains_text(task_xml_text(target, exe, config_path, workdir), "<LogonType>"@),
{
    lemma_head_no_tag_l();
    lemma_command_no_tag_l();
    lemma_config_no_tag_l();
    lemma_workdir_no_tag_l();
    lemma_tail_no_tag_l();
    lemma_escaped_no_tag_l(target);
    lemma_escaped_no_tag_l(exe);
    lemma_escaped_no_tag_l(config_path);
    lemma_escaped_no_tag_l(workdir);
    let x1 = TASK_XML_HEAD@ + xml_escaped(target);
    lemma_no_tag_l_concat(TASK_XML_HEAD@, xml_escaped(target));
    let x2 = x1 + TASK_XML_COMMAND@;
    lemma_no_tag_l_concat(x1, TASK_XML_COMMAND@);
    let x3 = x2 + xml_escaped(exe);
    lemma_no_tag_l_concat(x2, xml_escaped(exe));
    let x4 = x3 + TASK_XML_CONFIG@;
    lemma_no_tag_l_concat(x3, TASK_XML_CONFIG@);
    let x5 = x4 + xml_escaped(config_path);
    lemma_no_tag_l_concat(x4, xml_escaped(config_path));
    let x6 = x5 + TASK_XML_WORKDIR@;
    lemma_no_tag_l_concat(x5, TASK_XML_WORKDIR@);
    let x7 = x6 + xml_escaped(workdir);
    lemma_no_tag_l_concat(x6, xml_escaped(workdir));
    let doc = x7 + TASK_XML_TAIL@;
    lemma_no_tag_l_concat(x7, TASK_XML_TAIL@);
    assert(doc == task_xml_text(target, exe, config_path, workdir));
    reveal_strlit("<LogonType>");
    if contains_text(doc, "<LogonType>"@) {
        let i = choose|i: int| crate::text::matches_at(doc, "<LogonType>"@, i);
        assert(doc.subrange(i, i + 11)[0] == doc[i]);
        assert(doc.subrange(i, i + 11)[1] == doc[i + 1]);
        assert(doc[i] == '<');
    }
}

proof fn lemma_in_command(
    p: Seq<char>,
    off: int,
    target: Seq<char>,
    exe: Seq<char>,
    config_path: Seq<char>,
    workdir: Seq<char>,
)
    requires
        crate::text::matches_at(TASK_XML_COMMAND@, p, off),
    ensures
        contains_text(task_xml_text(target, exe, config_path, workdir), p),
{
    let a = TASK_XML_HEAD@ + xml_escaped(target);
    let c = TASK_XML_COMMAND@;
    let doc = task_xml_text(target, exe, config_path, workdir);
    let rest = xml_escaped(exe) + TASK_XML_CONFIG@ + xml_escaped(config_path) + TASK_XML_WORKDIR@ + xml_escaped(
        workdir,
    ) + TASK_XML_TAIL@;
    assert(doc =~= a + c + rest);
    let i = a.len() + off;
    assert(doc.subrange(i, i + p.len()) =~= c.subrange(off, off + p.len()));
    assert(crate::text::matches_at(doc, p, i));
}

/// The task document always runs as SYSTEM with the highest privileges,
/// starts at boot, restarts every minute on failure (up to 999 times),
/// ignores a second instance, has no time limit and does not mind
/// batteries, whatever the target and paths.
pub proof fn law_task_xml_fixed_elements(
    target: Seq<char>,
    exe: Seq<char>,
    config_path: Seq<char>,
    workdir: Seq<char>,
)
    ensures
        contains_text(task_xml_text(target, exe, config_path, workdir), "<UserId>S-1-5-18</UserId>"@),
        contains_text(task_xml_text(target, exe, config_path, workdir), "<RunLevel>HighestAvailable</RunLevel>"@),
        contains_text(task_xml_text(target, exe, config_path, workdir), "<BootTrigger>"@),
        contains_text(task_xml_text(target, exe, config_path, workdir), "<Interval>PT1M</Interval>"@),
        contains_text(task_xml_text(target, exe, config_path, workdir), "<Count>999</Count>"@),
        contains_text(task_xml_text(target, exe, config_path, workdir), "<MultipleInstancesPolicy>IgnoreNew</MultipleInstancesPolicy>"@),
        contains_text(task_xml_text(target, exe, config_path, workdir), "<ExecutionTimeLimit>PT0S</ExecutionTimeLimit>"@),
        contains_text(task_xml_text(target, exe, config_path, workdir), "<DisallowStartIfOnBatteries>false</DisallowStartIfOnBatteries>"@),
        contains_text(task_xml_text(target, exe, config_path, workdir), "<StopIfGoingOnBatteries>false</StopIfGoingOnBatteries>"@),
{
    reveal_strlit(" and captures crash dumps.</Description>
  </RegistrationInfo>
  <Triggers>
    <BootTrigger>
      <Enabled>true</Enabled>
    </BootTrigger>
  </Triggers>
  <Principals>
    <Principal id=\"Author\">
      <UserId>S-1-5-18</UserId>
      <RunLevel>HighestAvailable</RunLevel>
    </Principal>
  </Principals>
  <Settings>
    <MultipleInstancesPolicy>IgnoreNew</MultipleInstancesPolicy>
    <DisallowStartIfOnBatteries>false</DisallowStartIfOnBatteries>
    <StopIfGoingOnBatteries>false</StopIfGoingOnBatteries>
    <AllowHardTerminate>true</AllowHardTerminate>
    <StartWhenAvailable>true</StartWhenAvailable>
    <RunOnlyIfNetworkAvailable>false</RunOnlyIfNetworkAvailable>
    <AllowStartOnDemand>true</AllowStartOnDemand>
    <ExecutionTimeLimit>PT0S</ExecutionTimeLimit>
    <Enabled>true</Enabled>
    <RestartOnFailure>
      <Interval>PT1M</Interval>
      <Count>999</Count>
    </RestartOnFailure>
  </Settings>
  <Actions Context=\"Author\">
    <Exec>
      <Command>");
    reveal_strlit("<UserId>S-1-5-18</UserId>");
    assert(TASK_XML_COMMAND@.subrange(206int, 206int + "<UserId>S-1-5-18</UserId>"@.len()) =~= "<UserId>S-1-5-18</UserId>"@);
    lemma_in_command("<UserId>S-1-5-18</UserId>"@, 206, target, exe, config_path, workdir);
    reveal_strlit("<RunLevel>HighestAvailable</RunLevel>");
    assert(TASK_XML_COMMAND@.subrange(238int, 238int + "<RunLevel>HighestAvailable</RunLevel>"@.len()) =~= "<RunLevel>HighestAvailable</RunLevel>"@);
    lemma_in_command("<RunLevel>HighestAvailable</RunLevel>"@, 238, target, exe, config_path, workdir);
    reveal_strlit("<BootTrigger>");
    assert(TASK_XML_COMMAND@.subrange(80int, 80int + "<BootTrigger>"@.len()) =~= "<BootTrigger>"@);
    lemma_in_command("<BootTrigger>"@, 80, target, exe, config_path, workdir);
    reveal_strlit("<Interval>PT1M</Interval>");
    assert(TASK_XML_COMMAND@.subrange(835int, 835int + "<Interval>PT1M</Interval>"@.len()) =~= "<Interval>PT1M</Interval>"@);
    lemma_in_command("<Interval>PT1M</Interval>"@, 835, target, exe, config_path, workdir);
    reveal_strlit("<Count>999</Count>");
    assert(TASK_XML_COMMAND@.subrange(867int, 867int + "<Count>999</Count>"@.len()) =~= "<Count>999</Count>"@);
    lemma_in_command("<Count>999</Count>"@, 867, target, exe, config_path, workdir);
    reveal_strlit("<MultipleInstancesPolicy>IgnoreNew</MultipleInstancesPolicy>");
    assert(TASK_XML_COMMAND@.subrange(326int, 326int + "<MultipleInstancesPolicy>IgnoreNew</MultipleInstancesPolicy>"@.len()) =~= "<MultipleInstancesPolicy>IgnoreNew</MultipleInstancesPolicy>"@);
    lemma_in_command("<MultipleInstancesPolicy>IgnoreNew</MultipleInstancesPolicy>"@, 326, target, exe, config_path, workdir);
    reveal_strlit("<ExecutionTimeLimit>PT0S</ExecutionTimeLimit>");
    assert(TASK_XML_COMMAND@.subrange(732int, 732int + "<ExecutionTimeLimit>PT0S</ExecutionTimeLimit>"@.len()) =~= "<ExecutionTimeLimit>PT0S</ExecutionTimeLimit>"@);
    lemma_in_command("<ExecutionTimeLimit>PT0S</ExecutionTimeLimit>"@, 732, target, exe, config_path, workdir);
    reveal_strlit("<DisallowStartIfOnBatteries>false</DisallowStartIfOnBatteries>");
    assert(TASK_XML_COMMAND@.subrange(391int, 391int + "<DisallowStartIfOnBatteries>false</DisallowStartIfOnBatteries>"@.len()) =~= "<DisallowStartIfOnBatteries>false</DisallowStartIfOnBatteries>"@);
    lemma_in_command("<DisallowStartIfOnBatteries>false</DisallowStartIfOnBatteries>"@, 391, target, exe, config_path, workdir);
    reveal_strlit("<StopIfGoingOnBatteries>false</StopIfGoingOnBatteries>");
    assert(TASK_XML_COMMAND@.subrange(458int, 458int + "<StopIfGoingOnBatteries>false</StopIfGoingOnBatteries>"@.len()) =~= "<StopIfGoingOnBatteries>false</StopIfGoingOnBatteries>"@);
    lemma_in_command("<StopIfGoingOnBatteries>false</StopIfGoingOnBatteries>"@, 458, target, exe, config_path, workdir);
}

pub fn task_xml(target_name: &str, exe: &str, config_path: &str, workdir: &str) -> (r: String)
    ensures
        r@ == task_xml_text(target_name@, exe@, config_path@, workdir@),
{
    let mut out: Vec<char> = Vec::new();
    extend_str(&mut out, TASK_XML_HEAD);
    push_escaped(&mut out, target_name);
    extend_str(&mut out, TASK_XML_COMMAND);
    push_escaped(&mut out, exe);
    extend_str(&mut out, TASK_XML_CONFIG);
    push_escaped(&mut out, config_path);
    extend_str(&mut out, TASK_XML_WORKDIR);
    push_escaped(&mut out, workdir);
    extend_str(&mut out, TASK_XML_TAIL);
    assert(out@ =~= task_xml_text(target_name@, exe@, config_path@, workdir@));
    string_of(&out)
}

/// What `schtasks /Query /V /FO CSV` reports of a task.
#[derive(Debug, Clone)]
pub struct TaskStatus {
    pub task_name: String,
    pub machine_name: String,
    pub exists: bool,
    pub state: String,
    pub last_run_time: String,
    pub last_run_result: String,
    pub next_run_time: String,
}

pub const NOT_INSTALLED: &'static str = "Not installed";

/// The columns of the data row of a query's CSV output, when the query
/// succeeded and the row has more than six columns. The column order is
/// stable (the headers are localized): 2 next run time, 3 status, 5 last run
/// time, 6 last result.
pub open spec fn query_columns(output: Option<Seq<char>>) -> Option<Seq<Seq<char>>> {
    match output {
        Some(o) => {
            let ls = lines(o);
            if ls.len() > 1 && csv_fields(ls[1]).len() > 6 {
                Some(csv_fields(ls[1]))
            } else {
                None
            }
        },
        None => None,
    }
}

/// The status of `task_name` from the output of its query (`None` when the
/// query failed): installed with the row's times, state and result, or
/// `Not installed` with empty fields.
pub fn status_from_query(task_name: &str, machine_name: &str, query_output: Option<&str>) -> (st:
    TaskStatus)
    ensures
        st.task_name@ == task_name@,
        st.machine_name@ == machine_name@,
        ({
            let out = match query_output {
                Some(o) => Some(o@),
                None => None,
            };
            match query_columns(out) {
                Some(cols) => {
                    &&& st.exists
                    &&& st.next_run_time@ == cols[2]
                    &&& st.state@ == cols[3]
                    &&& st.last_run_time@ == cols[5]
                    &&& st.last_run_result@ == cols[6]
                },
                None => {
                    &&& !st.exists
                    &&& st.state@ == NOT_INSTALLED@
                    &&& st.next_run_time@ == Seq::<char>::empty()
                    &&& st.last_run_time@ == Seq::<char>::empty()
                    &&& st.last_run_result@ == Seq::<char>::empty()
                },
            }
        }),
{
    let mut st = TaskStatus {
        task_name: String::from_str(task_name),
        machine_name: String::from_str(machine_name),
        exists: false,
        state: String::from_str(NOT_INSTALLED),
        last_run_time: String::new(),
        last_run_result: String::new(),
        next_run_time: String::new(),
    };
    match query_output {
        None => st,
        Some(csv) => {
            let ls = lines_vec(csv);
            if ls.len() < 2 {
                return st;
            }
            let row = string_of(&ls[1]);
            let cols = parse_csv_line(row.as_str());
            proof {
                assert(crate::text::string_views(cols@).len() == cols@.len());
            }
            if cols.len() > 6 {
                proof {
                    assert(crate::text::string_views(cols@)[2] == cols@[2]@);
                    assert(crate::text::string_views(cols@)[3] == cols@[3]@);
                    assert(crate::text::string_views(cols@)[5] == cols@[5]@);
                    assert(crate::text::string_views(cols@)[6] == cols@[6]@);
                }
                st.exists = true;
                st.next_run_time = cols[2].clone();
                st.state = cols[3].clone();
                st.last_run_time = cols[5].clone();
                st.last_run_result = cols[6].clone();
            }
            st
        },
    }
}

/// What one `schtasks` run comes to: its output on success; on failure its
/// error text, or its output where the error text is blank.
pub fn schtasks_outcome(success: bool, stdout: String, stderr: String) -> (r: Result<String, String>)
    ensures
        success ==> (r matches Ok(o) && o@ == stdout@),
        !success ==> (r matches Err(e) && e@ == (if crate::text::trim(stderr@).len() == 0 {
            stdout@
        } else {
            stderr@
        })),
{
    if success {
        Ok(stdout)
    } else {
        let se = chars_of(stderr.as_str());
        let t = crate::text::trim_vec(&se);
        if t.len() == 0 {
            Err(stdout)
        } else {
            Err(stderr)
        }
    }
}

/// A task ready to register: its sanitised name and its XML document as
/// UTF-16LE bytes with a byte-order mark.
#[derive(Debug, Clone)]
pub struct TaskRegistration {
    pub name: String,
    pub xml: Vec<u8>,
}

pub const TASK_NAME_EMPTY: &'static str = "Task name is empty after sanitisation.";

/// The task to register for a configuration, or an error when nothing but
/// whitespace is left of the task name once reserved characters are removed.
pub fn task_registration(
    task_name: &str,
    target_name: &str,
    exe: &str,
    config_path: &str,
    workdir: &str,
) -> (r: Result<TaskRegistration, String>)
    ensures
        r is Err <==> crate::text::trim(sanitized_task_name(task_name@)).len() == 0,
        r matches Err(e) ==> e@ == TASK_NAME_EMPTY@,
        r matches Ok(t) ==> t.name@ == sanitized_task_name(task_name@) && t.xml@ == seq![
            0xFFu8,
            0xFEu8,
        ] + utf16le(task_xml_text(target_name@, exe@, config_path@, workdir@)),
{
    let name = sanitize_task_name(task_name);
    let nc = chars_of(name.as_str());
    let t = crate::text::trim_vec(&nc);
    if t.len() == 0 {
        return Err(String::from_str(TASK_NAME_EMPTY));
    }
    let xml = task_xml(target_name, exe, config_path, workdir);
    let bytes = to_utf16le_bom(xml.as_str());
    Ok(TaskRegistration { name, xml: bytes })
}


} // verus!
