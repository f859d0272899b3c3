//! Command-line verbs and options.

use vstd::prelude::*;
use crate::text::{
    chars_of, extend_chars, extend_str, string_of, string_views, push_string, split, split_vec,
    trim, trim_vec, ascii_lower_seq, ascii_lower_vec, str_eq, opt_view,
};

verus! {

/// A parsed command line. Paths are as given.
#[derive(Debug)]
pub enum Verb {
    Monitor { config: String },
    Install { config: String },
    Uninstall { config: String },
    Start { config: String },
    Stop { config: String },
    Status { config: String },
    Collect { config: String, out: Option<String>, workflows: Vec<String> },
    Version,
    Help,
}

/// The abstract value of a [`Verb`].
pub enum VerbView {
    Monitor { config: Seq<char> },
    Install { config: Seq<char> },
    Uninstall { config: Seq<char> },
    Start { config: Seq<char> },
    Stop { config: Seq<char> },
    Status { config: Seq<char> },
    Collect { config: Seq<char>, out: Option<Seq<char>>, workflows: Seq<Seq<char>> },
    Version,
    Help,
}

impl View for Verb {
    type V = VerbView;

    open spec fn view(&self) -> VerbView {
        match self {
            Verb::Monitor { config } => VerbView::Monitor { config: config@ },
            Verb::Install { config } => VerbView::Install { config: config@ },
            Verb::Uninstall { config } => VerbView::Uninstall { config: config@ },
            Verb::Start { config } => VerbView::Start { config: config@ },
            Verb::Stop { config } => VerbView::Stop { config: config@ },
            Verb::Status { config } => VerbView::Status { config: config@ },
            Verb::Collect { config, out, workflows } => VerbView::Collect {
                config: config@,
                out: opt_view(*out),
                workflows: string_views(workflows@),
            },
            Verb::Version => VerbView::Version,
            Verb::Help => VerbView::Help,
        }
    }
}

pub const USAGE: &'static str = "ProcDumpMonitor.exe                     launch the GUI
ProcDumpMonitor.exe <verb> [--config <path>]
  verbs: monitor | install | uninstall | start | stop | status | collect | version | help
  collect options: [--out <dir>] [--workflows data,install,health,pdm]
                   (default: all workflows, output on the Desktop)
  exit codes: 0 = success, 1 = failure, 2 = bad arguments";

/// The collection workflows, in the order they run by default.
pub open spec fn all_workflows() -> Seq<Seq<char>> {
    seq!["data"@, "install"@, "health"@, "pdm"@]
}

pub open spec fn is_known_workflow(w: Seq<char>) -> bool {
    w == "data"@ || w == "install"@ || w == "health"@ || w == "pdm"@
}

/// The collection workflows, in the order they run by default.
pub fn all_workflow_names() -> (r: Vec<String>)
    ensures
        string_views(r@) == all_workflows(),
{
    let mut r: Vec<String> = Vec::new();
    push_string(&mut r, String::from_str("data"));
    push_string(&mut r, String::from_str("install"));
    push_string(&mut r, String::from_str("health"));
    push_string(&mut r, String::from_str("pdm"));
    assert(string_views(r@) =~= all_workflows());
    r
}

/// `s.trim_start_matches('-')`.
pub open spec fn strip_dashes(s: Seq<char>) -> Seq<char>
    decreases s.len(),
{
    if s.len() > 0 && s[0] == '-' {
        strip_dashes(s.drop_first())
    } else {
        s
    }
}

fn strip_dashes_str(s: &str) -> (r: String)
    ensures
        r@ == strip_dashes(s@),
{
    let cs = chars_of(s);
    let mut k: usize = 0;
    assert(cs@.subrange(0, cs@.len() as int) =~= cs@);
    while k < cs.len() && cs[k] == '-'
        invariant
            k <= cs@.len(),
            cs@ == s@,
            strip_dashes(s@) == strip_dashes(cs@.subrange(k as int, cs@.len() as int)),
        decreases cs.len() - k,
    {
        assert(cs@.subrange(k as int, cs@.len() as int).drop_first() =~= cs@.subrange(
            k + 1,
            cs@.len() as int,
        ));
        k = k + 1;
    }
    string_of(&crate::text::sub_vec(&cs, k, cs.len()))
}

/// The items of a `--workflows` list: the comma-separated pieces, trimmed and
/// lower-cased, empty ones dropped.
pub open spec fn clean_workflows(pieces: Seq<Seq<char>>) -> Seq<Seq<char>>
    decreases pieces.len(),
{
    if pieces.len() == 0 {
        Seq::empty()
    } else {
        let w = ascii_lower_seq(trim(pieces.last()));
        clean_workflows(pieces.drop_last()) + if w.len() > 0 { seq![w] } else { Seq::empty() }
    }
}

pub open spec fn workflow_list(v: Seq<char>) -> Seq<Seq<char>> {
    clean_workflows(split(v, ','))
}

/// The first item that names no workflow.
pub open spec fn unknown_workflow(ws: Seq<Seq<char>>) -> Option<Seq<char>>
    decreases ws.len(),
{
    if ws.len() == 0 {
        None
    } else if !is_known_workflow(ws[0]) {
        Some(ws[0])
    } else {
        unknown_workflow(ws.drop_first())
    }
}

/// Options read so far.
pub struct Opts {
    pub config: Seq<char>,
    pub out: Option<Seq<char>>,
    pub workflows: Seq<Seq<char>>,
}

/// Read the options from `args[i]` on, or the error of the first bad one.
pub open spec fn parse_opts(args: Seq<Seq<char>>, i: int, st: Opts) -> Result<Opts, Seq<char>>
    decreases args.len() - i,
{
    if i < 1 || i >= args.len() {
        Ok(st)
    } else {
        let name = strip_dashes(args[i]);
        if name == "config"@ {
            if i + 1 >= args.len() {
                Err("--config requires a path"@)
            } else {
                parse_opts(args, i + 2, Opts { config: args[i + 1], ..st })
            }
        } else if name == "out"@ {
            if i + 1 >= args.len() {
                Err("--out requires a path"@)
            } else {
                parse_opts(args, i + 2, Opts { out: Some(args[i + 1]), ..st })
            }
        } else if name == "workflows"@ {
            if i + 1 >= args.len() {
                Err("--workflows requires a list"@)
            } else {
                let ws = workflow_list(args[i + 1]);
                if ws.len() == 0 {
                    Err("--workflows requires a non-empty list"@)
                } else if let Some(bad) = unknown_workflow(ws) {
                    Err("unknown workflow: "@ + bad)
                } else {
                    parse_opts(args, i + 2, Opts { workflows: ws, ..st })
                }
            }
        } else {
            Err("unknown option: "@ + name)
        }
    }
}

/// The command line `args` (the program name excluded), `default_config`
/// standing where no `--config` is given: the verb (leading dashes dropped,
/// any ASCII case), then its options. Collect defaults to every workflow and
/// no output directory.
pub open spec fn parse_spec(args: Seq<Seq<char>>, default_config: Seq<char>) -> Result<VerbView, Seq<char>> {
    if args.len() == 0 {
        Err("no verb given"@)
    } else {
        let verb = ascii_lower_seq(strip_dashes(args[0]));
        match parse_opts(args, 1, Opts { config: default_config, out: None, workflows: all_workflows() }) {
            Err(e) => Err(e),
            Ok(o) => if verb == "monitor"@ {
                Ok(VerbView::Monitor { config: o.config })
            } else if verb == "install"@ {
                Ok(VerbView::Install { config: o.config })
            } else if verb == "uninstall"@ {
                Ok(VerbView::Uninstall { config: o.config })
            } else if verb == "start"@ {
                Ok(VerbView::Start { config: o.config })
            } else if verb == "stop"@ {
                Ok(VerbView::Stop { config: o.config })
            } else if verb == "status"@ {
                Ok(VerbView::Status { config: o.config })
            } else if verb == "collect"@ {
                Ok(VerbView::Collect { config: o.config, out: o.out, workflows: o.workflows })
            } else if verb == "version"@ {
                Ok(VerbView::Version)
            } else if verb == "help"@ {
                Ok(VerbView::Help)
            } else {
                Err("unknown verb: "@ + verb)
            },
        }
    }
}

fn message(prefix: &str, rest: &Vec<char>) -> (r: String)
    ensures
        r@ == prefix@ + rest@,
{
    let mut t: Vec<char> = Vec::new();
    extend_str(&mut t, prefix);
    extend_chars(&mut t, rest);
    string_of(&t)
}

fn parse_workflow_list(v: &str) -> (r: Vec<String>)
    ensures
        string_views(r@) == workflow_list(v@),
{
    let cs = chars_of(v);
    let pieces = split_vec(&cs, ',');
    let ghost sp = split(v@, ',');
    let mut out: Vec<String> = Vec::new();
    let mut i: usize = 0;
    assert(string_views(out@) =~= Seq::<Seq<char>>::empty());
    while i < pieces.len()
        invariant
            i <= pieces@.len(),
            pieces@.len() == sp.len(),
            sp == split(v@, ','),
            forall|k: int| 0 <= k < pieces@.len() ==> (#[trigger] pieces@[k])@ == sp[k],
            string_views(out@) == clean_workflows(sp.subrange(0, i as int)),
        decreases pieces.len() - i,
    {
        let t = trim_vec(&pieces[i]);
        let w = ascii_lower_vec(&t);
        proof {
            let pre = sp.subrange(0, i + 1);
            assert(pre.drop_last() =~= sp.subrange(0, i as int));
            assert(pre.last() == sp[i as int]);
        }
        if w.len() > 0 {
            push_string(&mut out, string_of(&w));
        }
        i = i + 1;
        assert(string_views(out@) =~= clean_workflows(sp.subrange(0, i as int)));
    }
    assert(sp.subrange(0, sp.len() as int) =~= sp);
    out
}

fn is_known_workflow_str(w: &str) -> (r: bool)
    ensures
        r == is_known_workflow(w@),
{
    str_eq(w, "data") || str_eq(w, "install") || str_eq(w, "health") || str_eq(w, "pdm")
}

fn find_unknown_workflow(ws: &Vec<String>) -> (r: Option<usize>)
    ensures
        match r {
            Some(k) => k < ws@.len() && unknown_workflow(string_views(ws@)) == Some(ws@[k as int]@),
            None => unknown_workflow(string_views(ws@)) is None,
        },
{
    let mut i: usize = 0;
    assert(string_views(ws@).subrange(0, ws@.len() as int) =~= string_views(ws@));
    while i < ws.len()
        invariant
            i <= ws@.len(),
            unknown_workflow(string_views(ws@)) == unknown_workflow(string_views(ws@).subrange(
                i as int,
                ws@.len() as int,
            )),
        decreases ws.len() - i,
    {
        let ghost rest = string_views(ws@).subrange(i as int, ws@.len() as int);
        assert(rest[0] == ws@[i as int]@);
        if !is_known_workflow_str(ws[i].as_str()) {
            return Some(i);
        }
        assert(rest.drop_first() =~= string_views(ws@).subrange(i + 1, ws@.len() as int));
        i = i + 1;
    }
    None
}

/// Parse the command line (program name excluded); `default_config` is the
/// configuration file used where no `--config` is given.
#[verifier::rlimit(80)]
pub fn parse(args: &Vec<String>, default_config: &str) -> (r: Result<Verb, String>)
    ensures
        match (r, parse_spec(string_views(args@), default_config@)) {
            (Ok(v), Ok(sv)) => v@ == sv,
            (Err(e), Err(se)) => e@ == se,
            _ => false,
        },
{
    let ghost a = string_views(args@);
    if args.len() == 0 {
        return Err(String::from_str("no verb given"));
    }
    let stripped = strip_dashes_str(args[0].as_str());
    let vc = chars_of(stripped.as_str());
    let verb = string_of(&ascii_lower_vec(&vc));
    let mut config = String::from_str(default_config);
    let mut out: Option<String> = None;
    let mut workflows = all_workflow_names();
    let ghost init = Opts { config: default_config@, out: None, workflows: all_workflows() };
    let mut i: usize = 1;
    while i < args.len()
        invariant
            a == string_views(args@),
            a.len() == args@.len(),
            init == (Opts { config: default_config@, out: None, workflows: all_workflows() }),
            1 <= i,
            parse_opts(a, 1, init) == parse_opts(
                a,
                i as int,
                Opts {
                    config: config@,
                    out: opt_view(out),
                    workflows: string_views(workflows@),
                },
            ),
        decreases args.len() - i,
    {
        assert(a[i as int] == args@[i as int]@);
        let ghost st = Opts { config: config@, out: opt_view(out), workflows: string_views(workflows@) };
        let name = strip_dashes_str(args[i].as_str());
        if str_eq(name.as_str(), "config") {
            if i + 1 >= args.len() {
                assert(parse_opts(a, i as int, st) == Err::<Opts, Seq<char>>("--config requires a path"@));
                return Err(String::from_str("--config requires a path"));
            }
            assert(a[i + 1] == args@[i + 1]@);
            config = args[i + 1].clone();
        } else if str_eq(name.as_str(), "out") {
            if i + 1 >= args.len() {
                assert(parse_opts(a, i as int, st) == Err::<Opts, Seq<char>>("--out requires a path"@));
                return Err(String::from_str("--out requires a path"));
            }
            assert(a[i + 1] == args@[i + 1]@);
            out = Some(args[i + 1].clone());
        } else if str_eq(name.as_str(), "workflows") {
            if i + 1 >= args.len() {
                assert(parse_opts(a, i as int, st) == Err::<Opts, Seq<char>>("--workflows requires a list"@));
                return Err(String::from_str("--workflows requires a list"));
            }
            assert(a[i + 1] == args@[i + 1]@);
            let ws = parse_workflow_list(args[i + 1].as_str());
            if ws.len() == 0 {
                return Err(String::from_str("--workflows requires a non-empty list"));
            }
            match find_unknown_workflow(&ws) {
                Some(k) => {
                    let bad = chars_of(ws[k].as_str());
                    return Err(message("unknown workflow: ", &bad));
                },
                None => {},
            }
            workflows = ws;
        } else {
            let nc = chars_of(name.as_str());
            return Err(message("unknown option: ", &nc));
        }
        i = i + 2;
    }
    let ghost o = parse_opts(a, 1, init);
    assert(o == Ok::<Opts, Seq<char>>(
        Opts {
            config: config@,
            out: opt_view(out),
            workflows: string_views(workflows@),
        },
    ));
    let v = if str_eq(verb.as_str(), "monitor") {
        Verb::Monitor { config }
    } else if str_eq(verb.as_str(), "install") {
        Verb::Install { config }
    } else if str_eq(verb.as_str(), "uninstall") {
        Verb::Uninstall { config }
    } else if str_eq(verb.as_str(), "start") {
        Verb::Start { config }
    } else if str_eq(verb.as_str(), "stop") {
        Verb::Stop { config }
    } else if str_eq(verb.as_str(), "status") {
        Verb::Status { config }
    } else if str_eq(verb.as_str(), "collect") {
        Verb::Collect { config, out, workflows }
    } else if str_eq(verb.as_str(), "version") {
        Verb::Version
    } else if str_eq(verb.as_str(), "help") {
        Verb::Help
    } else {
        let vv = chars_of(verb.as_str());
        return Err(message("unknown verb: ", &vv));
    };
    Ok(v)
}

proof fn lemma_opts_ignore_verb(args: Seq<Seq<char>>, x: Seq<char>, i: int, st: Opts)
    requires
        args.len() >= 1,
    ensures
        parse_opts(args.update(0, x), i, st) == parse_opts(args, i, st),
    decreases args.len() - i,
{
    let b = args.update(0, x);
    if i >= 1 && i < args.len() {
        assert(b[i] == args[i]);
        if i + 1 < args.len() {
            assert(b[i + 1] == args[i + 1]);
        }
        let name = strip_dashes(args[i]);
        if name == "config"@ && i + 1 < args.len() {
            lemma_opts_ignore_verb(args, x, i + 2, Opts { config: args[i + 1], ..st });
        } else if name == "out"@ && i + 1 < args.len() {
            lemma_opts_ignore_verb(args, x, i + 2, Opts { out: Some(args[i + 1]), ..st });
        } else if name == "workflows"@ && i + 1 < args.len() {
            lemma_opts_ignore_verb(args, x, i + 2, Opts { workflows: workflow_list(args[i + 1]), ..st });
        }
    }
}

/// Leading dashes are dropped from a verb, however many there are.
proof fn lemma_strip_leading_dashes(k: nat, w: Seq<char>)
    ensures
        strip_dashes(Seq::new(k, |_i: int| '-') + w) == strip_dashes(w),
    decreases k,
{
    if k > 0 {
        let s = Seq::new(k, |_i: int| '-') + w;
        assert(s[0] == '-');
        assert(s.drop_first() =~= Seq::new((k - 1) as nat, |_i: int| '-') + w);
        lemma_strip_leading_dashes((k - 1) as nat, w);
    } else {
        assert(Seq::new(0, |_i: int| '-') + w =~= w);
    }
}

/// A verb reads the same however it is spelt: any number of leading dashes
/// and any ASCII case give the same result, whatever follows (`--monitor`,
/// `-Monitor` and `MONITOR` are `monitor`).
pub proof fn law_verb_spelling_does_not_matter(
    args: Seq<Seq<char>>,
    k: nat,
    w: Seq<char>,
    default_config: Seq<char>,
)
    requires
        args.len() >= 1,
        ascii_lower_seq(strip_dashes(w)) == ascii_lower_seq(strip_dashes(args[0])),
    ensures
        parse_spec(args.update(0, Seq::new(k, |_i: int| '-') + w), default_config) == parse_spec(
            args,
            default_config,
        ),
{
    let x = Seq::new(k, |_i: int| '-') + w;
    lemma_strip_leading_dashes(k, w);
    lemma_opts_ignore_verb(
        args,
        x,
        1,
        Opts { config: default_config, out: None, workflows: all_workflows() },
    );
}

/// The verbs.
pub open spec fn is_verb(v: Seq<char>) -> bool {
    v == "monitor"@ || v == "install"@ || v == "uninstall"@ || v == "start"@ || v == "stop"@ || v
        == "status"@ || v == "collect"@ || v == "version"@ || v == "help"@
}

/// The option at `args[j]` is bad: it is not `config`, `out` or
/// `workflows` (leading dashes dropped), or has no value, or is a
/// `workflows` list with no item or an item that names no workflow.
pub open spec fn option_error(args: Seq<Seq<char>>, j: int) -> bool {
    let name = strip_dashes(args[j]);
    ||| !(name == "config"@ || name == "out"@ || name == "workflows"@)
    ||| j + 1 >= args.len()
    ||| (name == "workflows"@ && (workflow_list(args[j + 1]).len() == 0 || unknown_workflow(
        workflow_list(args[j + 1]),
    ) is Some))
}

proof fn lemma_opts_error(args: Seq<Seq<char>>, i: int, st: Opts)
    requires
        i >= 1,
    ensures
        parse_opts(args, i, st) is Err <==> exists|j: int|
            i <= j < args.len() && (j - i) % 2 == 0 && #[trigger] option_error(args, j),
    decreases args.len() - i,
{
    if i >= args.len() {
    } else {
        let name = strip_dashes(args[i]);
        if option_error(args, i) {
            assert((i - i) % 2 == 0);
            reveal_strlit("config");
            reveal_strlit("out");
            reveal_strlit("workflows");
            if !(name == "config"@ || name == "out"@ || name == "workflows"@) {
                assert(parse_opts(args, i, st) == Err::<Opts, Seq<char>>("unknown option: "@ + name));
            } else if i + 1 >= args.len() {
                assert(parse_opts(args, i, st) is Err);
            } else {
                let ws = workflow_list(args[i + 1]);
                assert(name == "workflows"@);
                if ws.len() != 0 {
                    let bad = unknown_workflow(ws)->0;
                    assert(parse_opts(args, i, st) == Err::<Opts, Seq<char>>("unknown workflow: "@ + bad));
                }
            }
            assert(parse_opts(args, i, st) is Err);
        } else {
            let st2 = if name == "config"@ {
                Opts { config: args[i + 1], ..st }
            } else if name == "out"@ {
                Opts { out: Some(args[i + 1]), ..st }
            } else {
                Opts { workflows: workflow_list(args[i + 1]), ..st }
            };
            assert(parse_opts(args, i, st) == parse_opts(args, i + 2, st2));
            lemma_opts_error(args, i + 2, st2);
            if parse_opts(args, i + 2, st2) is Err {
                let j = choose|j: int| i + 2 <= j < args.len() && (j - (i + 2)) % 2 == 0 && #[trigger] option_error(args, j);
                assert((j - i) % 2 == 0);
            } else {
                assert forall|j: int| i <= j < args.len() && (j - i) % 2 == 0 implies !#[trigger] option_error(
                    args,
                    j,
                ) by {
                    if j != i {
                        assert(j >= i + 2);
                        assert((j - (i + 2)) % 2 == 0);
                    }
                }
            }
        }
    }
}

/// The verb word of a command line: its first argument with leading dashes
/// dropped, ASCII lower-cased.
pub open spec fn verb_word(args: Seq<Seq<char>>) -> Seq<char> {
    ascii_lower_seq(strip_dashes(args[0]))
}

/// Each verb word gives its own variant: a command line that parses is
/// `Monitor` exactly when its verb word is `monitor`, `Start` exactly when it
/// is `start`, `Stop` exactly when it is `stop`, and likewise for the other
/// six, so no two verb words give the same variant.
pub proof fn law_verb_word_names_the_variant(args: Seq<Seq<char>>, default_config: Seq<char>)
    requires
        parse_spec(args, default_config) is Ok,
    ensures
        args.len() >= 1,
        (parse_spec(args, default_config)->Ok_0 is Monitor) <==> verb_word(args) == "monitor"@,
        (parse_spec(args, default_config)->Ok_0 is Install) <==> verb_word(args) == "install"@,
        (parse_spec(args, default_config)->Ok_0 is Uninstall) <==> verb_word(args) == "uninstall"@,
        (parse_spec(args, default_config)->Ok_0 is Start) <==> verb_word(args) == "start"@,
        (parse_spec(args, default_config)->Ok_0 is Stop) <==> verb_word(args) == "stop"@,
        (parse_spec(args, default_config)->Ok_0 is Status) <==> verb_word(args) == "status"@,
        (parse_spec(args, default_config)->Ok_0 is Collect) <==> verb_word(args) == "collect"@,
        (parse_spec(args, default_config)->Ok_0 is Version) <==> verb_word(args) == "version"@,
        (parse_spec(args, default_config)->Ok_0 is Help) <==> verb_word(args) == "help"@,
{
    reveal_strlit("monitor");
    reveal_strlit("install");
    reveal_strlit("uninstall");
    reveal_strlit("start");
    reveal_strlit("stop");
    reveal_strlit("status");
    reveal_strlit("collect");
    reveal_strlit("version");
    reveal_strlit("help");
    assert("start"@[2] == 'a' && "stop"@[2] == 'o' && "status"@[2] == 'a' && "status"@[3] == 't');
    assert("help"@[0] == 'h' && "stop"@[0] == 's');
    assert("monitor"@[0] == 'm' && "install"@[0] == 'i' && "version"@[0] == 'v' && "collect"@[0] == 'c');
}

/// The configuration path a parsed verb carries (none for `version` and
/// `help`).
pub open spec fn verb_config(v: VerbView) -> Option<Seq<char>> {
    match v {
        VerbView::Monitor { config } => Some(config),
        VerbView::Install { config } => Some(config),
        VerbView::Uninstall { config } => Some(config),
        VerbView::Start { config } => Some(config),
        VerbView::Stop { config } => Some(config),
        VerbView::Status { config } => Some(config),
        VerbView::Collect { config, .. } => Some(config),
        _ => None,
    }
}

/// A verb that takes a configuration reads the default when no `--config`
/// is given, and the path given after `--config` (any number of dashes)
/// otherwise; neither changes which verb it is.
pub proof fn law_config_option(verb: Seq<char>, opt: Seq<char>, path: Seq<char>, default_config: Seq<char>)
    requires
        is_verb(ascii_lower_seq(strip_dashes(verb))),
        ascii_lower_seq(strip_dashes(verb)) != "version"@,
        ascii_lower_seq(strip_dashes(verb)) != "help"@,
        strip_dashes(opt) == "config"@,
    ensures
        parse_spec(seq![verb], default_config) is Ok,
        verb_config(parse_spec(seq![verb], default_config)->Ok_0) == Some(default_config),
        parse_spec(seq![verb, opt, path], default_config) is Ok,
        verb_config(parse_spec(seq![verb, opt, path], default_config)->Ok_0) == Some(path),
{
    reveal_strlit("config");
    let a1: Seq<Seq<char>> = seq![verb];
    let a3: Seq<Seq<char>> = seq![verb, opt, path];
    let st = Opts { config: default_config, out: None, workflows: all_workflows() };
    assert(parse_opts(a1, 1, st) == Ok::<Opts, Seq<char>>(st));
    assert(a3[1] == opt && a3[2] == path);
    assert(parse_opts(a3, 3, Opts { config: path, ..st }) == Ok::<Opts, Seq<char>>(Opts { config: path, ..st }));
    assert(parse_opts(a3, 1, st) == Ok::<Opts, Seq<char>>(Opts { config: path, ..st }));
}

/// When a command line is refused: there is no verb, the verb (leading
/// dashes dropped, ASCII lower-cased) is none of the nine, or, reading the
/// rest as (option, value) pairs, some option is bad.
pub proof fn law_parse_errors(args: Seq<Seq<char>>, default_config: Seq<char>)
    ensures
        parse_spec(args, default_config) is Err <==> (args.len() == 0 || !is_verb(
            ascii_lower_seq(strip_dashes(args[0])),
        ) || exists|j: int| 1 <= j < args.len() && (j - 1) % 2 == 0 && #[trigger] option_error(args, j)),
{
    if args.len() > 0 {
        lemma_opts_error(args, 1, Opts { config: default_config, out: None, workflows: all_workflows() });
    }
}

} // verus!
