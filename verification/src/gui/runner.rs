//! The messages a collection run sends back to the window that started it:
//! progress lines, then one line that says how the run ended.

use vstd::prelude::*;
use crate::text::{chars_of, extend_str, find, find_vec, starts_with, starts_with_vec, string_of, sub_vec};

verus! {

/// Starts the line that ends a run; progress lines never do.
pub const DONE_PREFIX: &'static str = "\u{4}DONE\u{4}";

/// Separates the outcome from its payload in the last line.
pub const FIELD_SEP: char = '\u{4}';

/// A line received from a run.
#[derive(Debug)]
pub enum RunnerMessage {
    Progress(String),
    /// The run folder, or the reason the run failed.
    Finished(Result<String, String>),
}

pub enum RunnerMessageView {
    Progress(Seq<char>),
    Finished(Result<Seq<char>, Seq<char>>),
}

impl View for RunnerMessage {
    type V = RunnerMessageView;

    open spec fn view(&self) -> RunnerMessageView {
        match self {
            RunnerMessage::Progress(l) => RunnerMessageView::Progress(l@),
            RunnerMessage::Finished(Ok(d)) => RunnerMessageView::Finished(Ok(d@)),
            RunnerMessage::Finished(Err(e)) => RunnerMessageView::Finished(Err(e@)),
        }
    }
}

/// The line that ends a run: the prefix, `OK` or `ERR`, the separator, then
/// the run folder or the error.
pub open spec fn done_text(r: Result<Seq<char>, Seq<char>>) -> Seq<char> {
    match r {
        Ok(d) => DONE_PREFIX@ + "OK"@ + seq![FIELD_SEP] + d,
        Err(e) => DONE_PREFIX@ + "ERR"@ + seq![FIELD_SEP] + e,
    }
}

/// How a received line reads: after the prefix, the text up to the first
/// separator is the outcome (`OK` succeeds, anything else fails) and the
/// rest the payload; with no separator the whole rest is an error. Any other
/// line is progress.
pub open spec fn read_text(line: Seq<char>) -> RunnerMessageView {
    if starts_with(line, DONE_PREFIX@) {
        let rest = line.subrange(DONE_PREFIX@.len() as int, line.len() as int);
        match find(rest, seq![FIELD_SEP]) {
            Some(i) => if rest.take(i) == "OK"@ {
                RunnerMessageView::Finished(Ok(rest.skip(i + 1)))
            } else {
                RunnerMessageView::Finished(Err(rest.skip(i + 1)))
            },
            None => RunnerMessageView::Finished(Err(rest)),
        }
    } else {
        RunnerMessageView::Progress(line)
    }
}

/// The line that ends a run with `result`.
pub fn done_message(result: Result<&str, &str>) -> (r: String)
    ensures
        r@ == done_text(
            match result {
                Ok(d) => Ok(d@),
                Err(e) => Err(e@),
            },
        ),
{
    let mut t: Vec<char> = Vec::new();
    extend_str(&mut t, DONE_PREFIX);
    match result {
        Ok(d) => {
            extend_str(&mut t, "OK");
            t.push(FIELD_SEP);
            extend_str(&mut t, d);
        },
        Err(e) => {
            extend_str(&mut t, "ERR");
            t.push(FIELD_SEP);
            extend_str(&mut t, e);
        },
    }
    string_of(&t)
}

/// Read one received line.
pub fn read_message(line: &str) -> (m: RunnerMessage)
    ensures
        m@ == read_text(line@),
{
    let cs = chars_of(line);
    let prefix = chars_of(DONE_PREFIX);
    if !starts_with_vec(&cs, &prefix) {
        return RunnerMessage::Progress(String::from_str(line));
    }
    let rest = sub_vec(&cs, prefix.len(), cs.len());
    let sep = vec![FIELD_SEP];
    assert(rest@ == line@.subrange(DONE_PREFIX@.len() as int, line@.len() as int));
    assert(sep@ =~= seq![FIELD_SEP]);
    match find_vec(&rest, &sep) {
        Some(i) => {
            let kind = sub_vec(&rest, 0, i);
            let payload = sub_vec(&rest, i + 1, rest.len());
            proof {
                reveal_strlit("OK");
                assert(rest@.take(i as int) =~= kind@);
                assert(rest@.skip(i + 1) =~= payload@);
            }
            if kind.len() == 2 && kind[0] == 'O' && kind[1] == 'K' {
                assert(kind@ =~= "OK"@);
                RunnerMessage::Finished(Ok(string_of(&payload)))
            } else {
                assert(kind@ != "OK"@) by {
                    if kind@ == "OK"@ {
                        assert(kind@[0] == 'O' && kind@[1] == 'K');
                    }
                }
                RunnerMessage::Finished(Err(string_of(&payload)))
            }
        },
        None => RunnerMessage::Finished(Err(string_of(&rest))),
    }
}

/// The status line once a run has ended.
pub open spec fn finished_status_text(r: Result<Seq<char>, Seq<char>>) -> Seq<char> {
    match r {
        Ok(d) => "Status: Done \u{2014} "@ + d,
        Err(e) => "Status: FAILED \u{2014} "@ + e,
    }
}

pub fn finished_status(result: &Result<String, String>) -> (r: String)
    ensures
        r@ == finished_status_text(
            match result {
                Ok(d) => Ok(d@),
                Err(e) => Err(e@),
            },
        ),
{
    let mut t: Vec<char> = Vec::new();
    match result {
        Ok(d) => {
            extend_str(&mut t, "Status: Done \u{2014} ");
            extend_str(&mut t, d.as_str());
        },
        Err(e) => {
            extend_str(&mut t, "Status: FAILED \u{2014} ");
            extend_str(&mut t, e.as_str());
        },
    }
    string_of(&t)
}

/// The end of a run reads back as it was sent, whatever the run folder or
/// the error says.
pub proof fn law_done_message_round_trip(r: Result<Seq<char>, Seq<char>>)
    ensures
        read_text(done_text(r)) == RunnerMessageView::Finished(r),
{
    reveal_strlit("\u{4}DONE\u{4}");
    reveal_strlit("OK");
    reveal_strlit("ERR");
    let line = done_text(r);
    let p = DONE_PREFIX@;
    let sep = seq![FIELD_SEP];
    assert(line.subrange(0, p.len() as int) =~= p);
    let rest = line.subrange(p.len() as int, line.len() as int);
    match r {
        Ok(d) => {
            assert(rest =~= "OK"@ + sep + d);
            assert(!crate::text::matches_at(rest, sep, 0)) by {
                assert(rest.subrange(0, 1)[0] == 'O');
            }
            assert(!crate::text::matches_at(rest, sep, 1)) by {
                assert(rest.subrange(1, 2)[0] == 'K');
            }
            assert(rest.subrange(2, 3) =~= sep);
            assert(crate::text::find_from(rest, sep, 2) == Some(2int));
            assert(crate::text::find_from(rest, sep, 1) == Some(2int));
            assert(find(rest, sep) == Some(2int));
            assert(rest.take(2) =~= "OK"@);
            assert(rest.skip(3) =~= d);
        },
        Err(e) => {
            assert(rest =~= "ERR"@ + sep + e);
            assert(!crate::text::matches_at(rest, sep, 0)) by {
                assert(rest.subrange(0, 1)[0] == 'E');
            }
            assert(!crate::text::matches_at(rest, sep, 1)) by {
                assert(rest.subrange(1, 2)[0] == 'R');
            }
            assert(!crate::text::matches_at(rest, sep, 2)) by {
                assert(rest.subrange(2, 3)[0] == 'R');
            }
            assert(rest.subrange(3, 4) =~= sep);
            assert(crate::text::find_from(rest, sep, 3) == Some(3int));
            assert(crate::text::find_from(rest, sep, 2) == Some(3int));
            assert(crate::text::find_from(rest, sep, 1) == Some(3int));
            assert(find(rest, sep) == Some(3int));
            assert(rest.take(3) =~= "ERR"@);
            assert(rest.take(3) != "OK"@);
            assert(rest.skip(4) =~= e);
        },
    }
}

} // verus!
