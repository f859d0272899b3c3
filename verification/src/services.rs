//! The installed services, as `sc.exe query type= service state= all` lists
//! them.

use vstd::prelude::*;
use crate::text::{
    chars_of, string_of, lines, lines_vec, trim, trim_start, trim_end, trim_vec, trim_start_vec,
    trim_end_vec, starts_with, ends_with, find, starts_with_vec, ends_with_vec, find_vec, sub_vec,
};

verus! {

/// One service: its key name, display name and whether it runs.
#[derive(Debug, Clone)]
pub struct ServiceInfo {
    pub name: String,
    pub display: String,
    pub running: bool,
}

/// The abstract value of a [`ServiceInfo`].
pub struct ServiceView {
    pub name: Seq<char>,
    pub display: Seq<char>,
    pub running: bool,
}

impl View for ServiceInfo {
    type V = ServiceView;

    open spec fn view(&self) -> ServiceView {
        ServiceView { name: self.name@, display: self.display@, running: self.running }
    }
}

pub open spec fn service_views(v: Seq<ServiceInfo>) -> Seq<ServiceView> {
    v.map_values(|s: ServiceInfo| s@)
}

/// The service in progress, updated by one line of the listing (its trailing
/// whitespace already removed). `SERVICE_NAME: ` starts a service (handled
/// by the caller); `DISPLAY_NAME: ` sets the display name; a `STATE` line
/// says it runs when it holds ` 4 ` or ends with `RUNNING`.
pub open spec fn sc_update(cur: ServiceView, line: Seq<char>) -> ServiceView {
    let t = trim_start(line);
    if starts_with(t, "DISPLAY_NAME: "@) {
        ServiceView { display: trim(t.subrange(14, t.len() as int)), ..cur }
    } else if starts_with(t, "STATE"@) {
        ServiceView { running: find(line, " 4 "@) is Some || ends_with(line, "RUNNING"@), ..cur }
    } else {
        cur
    }
}

/// The services listed by `ls` (lines not yet read), `cur` being the service
/// in progress and `done` those already complete.
pub open spec fn sc_go(ls: Seq<Seq<char>>, cur: Option<ServiceView>, done: Seq<ServiceView>) -> Seq<ServiceView>
    decreases ls.len(),
{
    if ls.len() == 0 {
        match cur {
            Some(c) => done.push(c),
            None => done,
        }
    } else {
        let line = trim_end(ls[0]);
        if starts_with(line, "SERVICE_NAME: "@) {
            let fresh = ServiceView {
                name: trim(line.subrange(14, line.len() as int)),
                display: Seq::empty(),
                running: false,
            };
            sc_go(
                ls.drop_first(),
                Some(fresh),
                match cur {
                    Some(c) => done.push(c),
                    None => done,
                },
            )
        } else {
            sc_go(
                ls.drop_first(),
                match cur {
                    Some(c) => Some(sc_update(c, line)),
                    None => None,
                },
                done,
            )
        }
    }
}

/// The services of an `sc.exe query` listing, in order. The `SERVICE_NAME`,
/// `DISPLAY_NAME` and `STATE` tokens are not localized.
pub open spec fn sc_services(out: Seq<char>) -> Seq<ServiceView> {
    sc_go(lines(out), None, Seq::empty())
}

fn update_service(cur: &mut ServiceInfo, line: &Vec<char>)
    ensures
        final(cur)@ == sc_update(old(cur)@, line@),
{
    let t = trim_start_vec(line);
    let display_key = chars_of("DISPLAY_NAME: ");
    let state_key = chars_of("STATE");
    proof {
        reveal_strlit("DISPLAY_NAME: ");
    }
    if starts_with_vec(&t, &display_key) {
        let rest = sub_vec(&t, 14, t.len());
        cur.display = string_of(&trim_vec(&rest));
    } else if starts_with_vec(&t, &state_key) {
        let four = chars_of(" 4 ");
        let running = chars_of("RUNNING");
        cur.running = find_vec(line, &four).is_some() || ends_with_vec(line, &running);
    }
}

/// Parse `sc.exe query type= service state= all` output.
pub fn parse_sc_output(out: &str) -> (r: Vec<ServiceInfo>)
    ensures
        service_views(r@) == sc_services(out@),
{
    let ls = lines_vec(out);
    let ghost lv = lines(out@);
    let mut result: Vec<ServiceInfo> = Vec::new();
    let mut cur: Option<ServiceInfo> = None;
    let name_key = chars_of("SERVICE_NAME: ");
    proof {
        reveal_strlit("SERVICE_NAME: ");
    }
    let mut i: usize = 0;
    assert(lv.subrange(0, lv.len() as int) =~= lv);
    assert(service_views(result@) =~= Seq::<ServiceView>::empty());
    while i < ls.len()
        invariant
            i <= ls@.len(),
            ls@.len() == lv.len(),
            lv == lines(out@),
            name_key@ == "SERVICE_NAME: "@,
            name_key@.len() == 14,
            forall|k: int| 0 <= k < ls@.len() ==> (#[trigger] ls@[k])@ == lv[k],
            sc_go(
                lv.subrange(i as int, lv.len() as int),
                match cur {
                    Some(c) => Some(c@),
                    None => None,
                },
                service_views(result@),
            ) == sc_services(out@),
        decreases ls.len() - i,
    {
        let ghost rest = lv.subrange(i as int, lv.len() as int);
        assert(rest[0] == lv[i as int]);
        assert(rest.drop_first() =~= lv.subrange(i + 1, lv.len() as int));
        let line = trim_end_vec(&ls[i]);
        if starts_with_vec(&line, &name_key) {
            let rest_name = sub_vec(&line, 14, line.len());
            let fresh = ServiceInfo {
                name: string_of(&trim_vec(&rest_name)),
                display: String::new(),
                running: false,
            };
            match cur {
                Some(c) => {
                    let ghost before = result@;
                    result.push(c);
                    assert(service_views(result@) =~= service_views(before).push(c@));
                },
                None => {},
            }
            cur = Some(fresh);
        } else {
            match cur {
                Some(mut c) => {
                    update_service(&mut c, &line);
                    cur = Some(c);
                },
                None => {},
            }
        }
        i = i + 1;
    }
    match cur {
        Some(c) => {
            let ghost before = result@;
            result.push(c);
            assert(service_views(result@) =~= service_views(before).push(c@));
        },
        None => {},
    }
    result
}

} // verus!
