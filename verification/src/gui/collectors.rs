//! What the collector pages hand to a run: the checked log components and
//! the InstallHistory.xml typed by hand.

use vstd::prelude::*;
use crate::text::{chars_of, str_eq, string_of, string_views, trim, trim_vec};

verus! {

/// (display name, candidate paths) of a log component.
pub open spec fn component_view(c: (String, Vec<String>)) -> (Seq<char>, Seq<Seq<char>>) {
    (c.0@, string_views(c.1@))
}

pub open spec fn component_views(v: Seq<(String, Vec<String>)>) -> Seq<(Seq<char>, Seq<Seq<char>>)> {
    v.map_values(|c: (String, Vec<String>)| component_view(c))
}

/// The components whose names were checked, in their own order.
pub open spec fn checked_components_of(
    all: Seq<(Seq<char>, Seq<Seq<char>>)>,
    wanted: Seq<Seq<char>>,
) -> Seq<(Seq<char>, Seq<Seq<char>>)>
    decreases all.len(),
{
    if all.len() == 0 {
        Seq::empty()
    } else {
        checked_components_of(all.drop_last(), wanted) + if wanted.contains(all.last().0) {
            seq![all.last()]
        } else {
            Seq::empty()
        }
    }
}

fn is_wanted(wanted: &Vec<String>, name: &str) -> (r: bool)
    ensures
        r == string_views(wanted@).contains(name@),
{
    let ghost w = string_views(wanted@);
    let mut i: usize = 0;
    while i < wanted.len()
        invariant
            i <= wanted@.len(),
            w == string_views(wanted@),
            forall|j: int| 0 <= j < i ==> w[j] != name@,
        decreases wanted.len() - i,
    {
        assert(w[i as int] == wanted@[i as int]@);
        if str_eq(wanted[i].as_str(), name) {
            return true;
        }
        i = i + 1;
    }
    false
}

/// Keep the components whose display names were checked.
pub fn checked_components(all: Vec<(String, Vec<String>)>, wanted: &Vec<String>) -> (r: Vec<(String, Vec<String>)>)
    ensures
        component_views(r@) == checked_components_of(component_views(all@), string_views(wanted@)),
{
    let ghost av = component_views(all@);
    let ghost w = string_views(wanted@);
    let n: usize = all.len();
    let mut rest = all;
    let mut out: Vec<(String, Vec<String>)> = Vec::new();
    let mut i: usize = 0;
    assert(av.take(0) =~= Seq::<(Seq<char>, Seq<Seq<char>>)>::empty());
    assert(component_views(out@) =~= Seq::<(Seq<char>, Seq<Seq<char>>)>::empty());
    assert(component_views(rest@) =~= av.skip(0));
    while rest.len() > 0
        invariant
            i <= n,
            av.len() == n,
            rest@.len() == n - i,
            component_views(rest@) == av.skip(i as int),
            w == string_views(wanted@),
            component_views(out@) == checked_components_of(av.take(i as int), w),
        decreases rest.len(),
    {
        let ghost before = rest@;
        let c = rest.remove(0);
        proof {
            assert(component_views(before)[0] == av.skip(i as int)[0]);
            assert(component_view(c) == av[i as int]);
            assert(av.take(i + 1).drop_last() =~= av.take(i as int));
            assert(av.take(i + 1).last() == av[i as int]);
            assert forall|k: int| 0 <= k < rest@.len() implies #[trigger] component_views(rest@)[k] == av.skip(
                i + 1,
            )[k] by {
                assert(rest@[k] == before[k + 1]);
                assert(component_views(before)[k + 1] == av.skip(i as int)[k + 1]);
            }
            assert(component_views(rest@) =~= av.skip(i + 1));
        }
        if is_wanted(wanted, c.0.as_str()) {
            out.push(c);
            assert(component_views(out@) =~= checked_components_of(av.take(i + 1), w));
        } else {
            assert(checked_components_of(av.take(i + 1), w) =~= checked_components_of(av.take(i as int), w));
        }
        i = i + 1;
    }
    assert(av.take(n as int) =~= av);
    out
}

/// The InstallHistory.xml typed by hand, trimmed; `None` when blank, so the
/// run discovers it.
pub fn history_path_choice(text: &str) -> (r: Option<String>)
    ensures
        match r {
            Some(p) => trim(text@).len() > 0 && p@ == trim(text@),
            None => trim(text@).len() == 0,
        },
{
    let t = trim_vec(&chars_of(text));
    if t.len() == 0 {
        None
    } else {
        Some(string_of(&t))
    }
}

} // verus!
