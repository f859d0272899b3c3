//! The combined process / service target list of the monitor page.

use vstd::prelude::*;
use crate::gui::TargetEntry;
use crate::services::{ServiceInfo, ServiceView, service_views};
use crate::text::{chars_of, eq_ignore_ascii_case, eq_ignore_ascii_case_vec, extend_str, starts_with, string_of, string_views};

verus! {

/// An entry of the list: its label and the target it stands for.
pub struct TargetChoice {
    pub label: String,
    pub entry: TargetEntry,
}

/// (label, target name, is a service)
pub type ChoiceView = (Seq<char>, Seq<char>, bool);

pub open spec fn choice_views(v: Seq<TargetChoice>) -> Seq<ChoiceView> {
    v.map_values(|c: TargetChoice| (c.label@, c.entry.name@, c.entry.is_service))
}

/// Running processes, in the order listed, as `Proc: <name>`; a name that
/// starts with `[` (the idle pseudo-process) is left out.
pub open spec fn process_choices(ps: Seq<Seq<char>>) -> Seq<ChoiceView>
    decreases ps.len(),
{
    if ps.len() == 0 {
        Seq::empty()
    } else {
        process_choices(ps.drop_last()) + if starts_with(ps.last(), "["@) {
            Seq::empty()
        } else {
            seq![("Proc: "@ + ps.last(), ps.last(), false)]
        }
    }
}

/// The services that run (or, for `running == false`, that are stopped), in
/// the order listed, as `Svc: <display> (<name>)`, stopped ones marked
/// ` - stopped`.
pub open spec fn service_choices(ss: Seq<ServiceView>, running: bool) -> Seq<ChoiceView>
    decreases ss.len(),
{
    if ss.len() == 0 {
        Seq::empty()
    } else {
        let s = ss.last();
        service_choices(ss.drop_last(), running) + if s.running == running {
            seq![(service_label(s), s.name, true)]
        } else {
            Seq::empty()
        }
    }
}

pub open spec fn service_label(s: ServiceView) -> Seq<char> {
    "Svc: "@ + s.display + " ("@ + s.name + ")"@ + if s.running { Seq::empty() } else { " - stopped"@ }
}

/// Processes first (they are the common case), then running services,
/// then, when asked for, the stopped ones.
pub open spec fn target_choices(ps: Seq<Seq<char>>, ss: Seq<ServiceView>, show_stopped: bool) -> Seq<ChoiceView> {
    process_choices(ps) + service_choices(ss, true) + if show_stopped {
        service_choices(ss, false)
    } else {
        Seq::empty()
    }
}

fn push_choice(out: &mut Vec<TargetChoice>, label: String, name: String, is_service: bool)
    ensures
        choice_views(final(out)@) == choice_views(old(out)@).push((label@, name@, is_service)),
{
    out.push(TargetChoice { label, entry: TargetEntry { name, is_service } });
    assert(choice_views(final(out)@) =~= choice_views(old(out)@).push((label@, name@, is_service)));
}

fn add_processes(out: &mut Vec<TargetChoice>, processes: &Vec<String>)
    ensures
        choice_views(final(out)@) == choice_views(old(out)@) + process_choices(string_views(processes@)),
{
    let ghost ps = string_views(processes@);
    let ghost start = choice_views(out@);
    let mut i: usize = 0;
    assert(ps.take(0) =~= Seq::<Seq<char>>::empty());
    assert(start + process_choices(ps.take(0)) =~= start);
    while i < processes.len()
        invariant
            i <= processes@.len(),
            ps == string_views(processes@),
            choice_views(out@) == start + process_choices(ps.take(i as int)),
        decreases processes.len() - i,
    {
        let p = &processes[i];
        let cs = chars_of(p.as_str());
        proof {
            assert(ps.take(i + 1).drop_last() =~= ps.take(i as int));
            assert(ps.take(i + 1).last() == p@);
            reveal_strlit("[");
        }
        if cs.len() > 0 && cs[0] == '[' {
            assert(p@.subrange(0, 1) =~= "["@);
            assert(starts_with(p@, "["@));
            assert(process_choices(ps.take(i + 1)) =~= process_choices(ps.take(i as int)));
        } else {
            assert(!starts_with(p@, "["@)) by {
                if starts_with(p@, "["@) {
                    assert(p@.subrange(0, 1)[0] == '[');
                }
            }
            let mut t: Vec<char> = Vec::new();
            extend_str(&mut t, "Proc: ");
            extend_str(&mut t, p.as_str());
            push_choice(out, string_of(&t), p.clone(), false);
            assert(choice_views(out@) =~= start + process_choices(ps.take(i + 1)));
        }
        i = i + 1;
    }
    assert(ps.take(processes@.len() as int) =~= ps);
}

fn add_services(out: &mut Vec<TargetChoice>, services: &Vec<ServiceInfo>, running: bool)
    ensures
        choice_views(final(out)@) == choice_views(old(out)@) + service_choices(service_views(services@), running),
{
    let ghost ss = service_views(services@);
    let ghost start = choice_views(out@);
    let mut i: usize = 0;
    assert(ss.take(0) =~= Seq::<ServiceView>::empty());
    assert(start + service_choices(ss.take(0), running) =~= start);
    while i < services.len()
        invariant
            i <= services@.len(),
            ss == service_views(services@),
            choice_views(out@) == start + service_choices(ss.take(i as int), running),
        decreases services.len() - i,
    {
        let s = &services[i];
        proof {
            assert(ss.take(i + 1).drop_last() =~= ss.take(i as int));
            assert(ss.take(i + 1).last() == s@);
        }
        if s.running == running {
            let mut t: Vec<char> = Vec::new();
            extend_str(&mut t, "Svc: ");
            extend_str(&mut t, s.display.as_str());
            extend_str(&mut t, " (");
            extend_str(&mut t, s.name.as_str());
            extend_str(&mut t, ")");
            if !s.running {
                extend_str(&mut t, " - stopped");
            }
            assert(t@ =~= service_label(s@));
            push_choice(out, string_of(&t), s.name.clone(), true);
            assert(choice_views(out@) =~= start + service_choices(ss.take(i + 1), running));
        } else {
            assert(service_choices(ss.take(i + 1), running) =~= service_choices(ss.take(i as int), running));
        }
        i = i + 1;
    }
    assert(ss.take(services@.len() as int) =~= ss);
}

/// The list the monitor page offers for the running processes and the
/// installed services.
pub fn build_target_choices(processes: &Vec<String>, services: &Vec<ServiceInfo>, show_stopped: bool) -> (r: Vec<
    TargetChoice,
>)
    ensures
        choice_views(r@) == target_choices(string_views(processes@), service_views(services@), show_stopped),
{
    let mut out: Vec<TargetChoice> = Vec::new();
    assert(choice_views(out@) =~= Seq::<ChoiceView>::empty());
    add_processes(&mut out, processes);
    add_services(&mut out, services, true);
    if show_stopped {
        add_services(&mut out, services, false);
    } else {
        assert(choice_views(out@) =~= choice_views(out@) + Seq::<ChoiceView>::empty());
    }
    proof {
        let ps = string_views(processes@);
        let ss = service_views(services@);
        assert(Seq::<ChoiceView>::empty() + process_choices(ps) =~= process_choices(ps));
    }
    out
}

/// Entry `i` is `name` (ignoring ASCII case), of the kind asked for when one
/// is.
pub open spec fn entry_matches(e: (Seq<char>, bool), name: Seq<char>, service: Option<bool>) -> bool {
    eq_ignore_ascii_case(e.0, name) && match service {
        Some(b) => e.1 == b,
        None => true,
    }
}

pub open spec fn entry_views(v: Seq<TargetEntry>) -> Seq<(Seq<char>, bool)> {
    v.map_values(|e: TargetEntry| (e.name@, e.is_service))
}

/// The first entry that is `name` (of the given kind, when one is given):
/// how the page keeps a selection across a refresh and selects the saved
/// target.
pub fn find_target(entries: &Vec<TargetEntry>, name: &str, service: Option<bool>) -> (r: Option<usize>)
    ensures
        match r {
            Some(i) => i < entries@.len() && entry_matches(entry_views(entries@)[i as int], name@, service)
                && forall|j: int| 0 <= j < i ==> !entry_matches(#[trigger] entry_views(entries@)[j], name@, service),
            None => forall|j: int|
                0 <= j < entries@.len() ==> !entry_matches(#[trigger] entry_views(entries@)[j], name@, service),
        },
{
    let ghost ev = entry_views(entries@);
    let want = chars_of(name);
    let mut i: usize = 0;
    while i < entries.len()
        invariant
            i <= entries@.len(),
            ev == entry_views(entries@),
            want@ == name@,
            forall|j: int| 0 <= j < i ==> !entry_matches(#[trigger] ev[j], name@, service),
        decreases entries.len() - i,
    {
        let e = &entries[i];
        assert(ev[i as int] == (e.name@, e.is_service));
        let kind_ok = match service {
            Some(b) => e.is_service == b,
            None => true,
        };
        if kind_ok && eq_ignore_ascii_case_vec(&chars_of(e.name.as_str()), &want) {
            return Some(i);
        }
        i = i + 1;
    }
    None
}

} // verus!
