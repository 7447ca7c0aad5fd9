//! What each command of the tool does: which modules it applies to, and the
//! actions it takes on each.
use vstd::prelude::*;
use crate::config::Config;
use crate::flavours::{all_resolve, class_names, flavour_peers, generate, missing_dependency_text, peer_lists};
use crate::module::Module;
use crate::modulefile::{self, modulefile_text};
use crate::pipeline::{build_plan_ok, install_plan_ok, modulefile_path, modulefile_path_of};
use crate::resolver::{matching, resolve, search_terms, wants_all, ResolveMatch};
use crate::shell::Step;
use crate::text::views;

verus! {

/// What a command does to each module it applies to.
#[derive(Clone, Copy, Debug, PartialEq, Eq, Structural)]
pub enum Operation {
    Download,
    Build,
    Install,
    Modulefile,
}

/// The modules a command applies to, as catalogue indices.
#[derive(Debug, PartialEq, Eq)]
pub enum Selection {
    /// Apply to these, in order.
    Chosen(Vec<usize>),
    /// Several matched; the user picks one of these, or all of them.
    Ambiguous(Vec<usize>),
}

/// A command: an operation and the modules it applies to.
#[derive(Debug, PartialEq, Eq)]
pub struct Job {
    pub operation: Operation,
    pub selection: Selection,
}

/// One thing to do for a module, in order.
#[derive(Debug)]
pub enum Action {
    /// Fetch the module's sources with its downloader.
    Download,
    /// Run a build or install step.
    Run(Step),
    /// Write the modulefile text to the path.
    WriteModulefile(String, String),
}

/// `j` applies `op` to the modules `v`.
pub open spec fn chosen(j: Job, op: Operation, v: Seq<usize>) -> bool {
    j.operation == op && match j.selection {
        Selection::Chosen(x) => x@ == v,
        _ => false,
    }
}

/// `j` applies `op` to one of the modules `v`, or all of them, as the user picks.
pub open spec fn ambiguous(j: Job, op: Operation, v: Seq<usize>) -> bool {
    j.operation == op && match j.selection {
        Selection::Ambiguous(x) => x@ == v,
        _ => false,
    }
}

/// The modules a set of partials selects for `op`.
pub open spec fn job_for(
    op: Operation,
    partials: Seq<Seq<char>>,
    catalogue: Seq<Module>,
    r: Result<Job, String>,
) -> bool {
    let found = matching(catalogue, search_terms(partials), catalogue.len());
    match r {
        Err(e) => found.len() == 0 && e@ == "No modules match the partials provided"@,
        Ok(j) => if found.len() == 1 {
            chosen(j, op, seq![found[0]])
        } else if wants_all(partials) {
            found.len() > 1 && chosen(j, op, found)
        } else {
            found.len() > 1 && ambiguous(j, op, found)
        },
    }
}

/// Every module of the catalogue, in order.
pub open spec fn job_all(op: Operation, n: nat, j: Job) -> bool {
    exists|v: Seq<usize>|
        #[trigger] chosen(j, op, v) && v.len() == n && forall|i: int| 0 <= i < n ==> #[trigger] v[i] == i
}

/// `a` writes the modulefile of `m` where the configuration puts it.
pub open spec fn writes_modulefile(a: Action, m: Module, config: Config) -> bool {
    match a {
        Action::WriteModulefile(p, t) => p@ == modulefile_path_of(config.modulefile_root@, m) && t@
            == modulefile_text(m, views(config.class_no_conflict@)),
        _ => false,
    }
}

/// Each step as an action.
pub open spec fn runs(steps: Seq<Step>) -> Seq<Action> {
    steps.map_values(|st: Step| Action::Run(st))
}

/// The steps of each part as actions, part after part.
pub open spec fn joined_runs(parts: Seq<Seq<Step>>) -> Seq<Action>
    decreases parts.len(),
{
    if parts.len() == 0 {
        Seq::<Action>::empty()
    } else {
        joined_runs(parts.drop_last()) + runs(parts.last())
    }
}

/// One part per flavour of `m`, in flavour order, each the build steps of that flavour.
pub open spec fn build_parts_ok(
    m: Module,
    catalogue: Seq<Module>,
    shell: Seq<char>,
    cwd: Seq<char>,
    parts: Seq<Seq<Step>>,
) -> bool {
    let fp = flavour_peers(catalogue, m.dependencies@);
    &&& parts.len() == fp.len()
    &&& forall|x: int|
        0 <= x < parts.len() ==> build_plan_ok(
            m,
            catalogue,
            fp[x],
            class_names(m.dependencies@).len(),
            shell,
            cwd,
            #[trigger] parts[x],
        )
}

/// One part per flavour of `m`, in flavour order, each the install steps of that flavour.
pub open spec fn install_parts_ok(
    m: Module,
    catalogue: Seq<Module>,
    shell: Seq<char>,
    cwd: Seq<char>,
    parts: Seq<Seq<Step>>,
) -> bool {
    let fp = flavour_peers(catalogue, m.dependencies@);
    &&& parts.len() == fp.len()
    &&& forall|x: int|
        0 <= x < parts.len() ==> install_plan_ok(
            m,
            catalogue,
            fp[x],
            class_names(m.dependencies@).len(),
            shell,
            cwd,
            #[trigger] parts[x],
        )
}

/// The plan of `op` for `m`, with commands run by the configured shell and
/// paths made absolute against `cwd`: a download; for a build, then the build
/// steps of every flavour, flavour by flavour; for an install, then also the
/// install steps of every flavour, flavour by flavour, and last the
/// modulefile; for a modulefile, that file alone.
pub open spec fn plan_ok(
    op: Operation,
    m: Module,
    catalogue: Seq<Module>,
    config: Config,
    cwd: Seq<char>,
    r: Result<Vec<Action>, String>,
) -> bool {
    match op {
        Operation::Download => match r {
            Ok(v) => v@ == seq![Action::Download],
            Err(_) => false,
        },
        Operation::Modulefile => match r {
            Ok(v) => v@.len() == 1 && writes_modulefile(v@[0], m, config),
            Err(_) => false,
        },
        Operation::Build => match r {
            Ok(v) => all_resolve(catalogue, m.dependencies@) && exists|bs: Seq<Seq<Step>>|
                #[trigger] build_parts_ok(m, catalogue, config.shell@, cwd, bs) && v@ == seq![Action::Download]
                    + joined_runs(bs),
            Err(e) => !all_resolve(catalogue, m.dependencies@) && e@ == missing_dependency_text(
                catalogue,
                m.dependencies@,
            ),
        },
        Operation::Install => match r {
            Ok(v) => all_resolve(catalogue, m.dependencies@) && v@.len() >= 1 && writes_modulefile(
                v@.last(),
                m,
                config,
            ) && exists|bs: Seq<Seq<Step>>, is: Seq<Seq<Step>>|
                #[trigger] build_parts_ok(m, catalogue, config.shell@, cwd, bs) && #[trigger] install_parts_ok(
                    m,
                    catalogue,
                    config.shell@,
                    cwd,
                    is,
                ) && v@.drop_last() == seq![Action::Download] + joined_runs(bs) + joined_runs(is),
            Err(e) => !all_resolve(catalogue, m.dependencies@) && e@ == missing_dependency_text(
                catalogue,
                m.dependencies@,
            ),
        },
    }
}

fn select(op: Operation, partials: &Vec<String>, catalogue: &Vec<Module>) -> (r: Result<Job, String>)
    ensures
        job_for(op, views(partials@), catalogue@, r),
{
    match resolve(partials, catalogue) {
        ResolveMatch::NoMatch => Err(String::from_str("No modules match the partials provided")),
        ResolveMatch::Full(i) => {
            let mut v: Vec<usize> = Vec::new();
            v.push(i);
            proof {
                assert(v@ =~= seq![i]);
            }
            assert(chosen(Job { operation: op, selection: Selection::Chosen(v) }, op, seq![i]));
            Ok(Job { operation: op, selection: Selection::Chosen(v) })
        },
        ResolveMatch::All(v) => Ok(Job { operation: op, selection: Selection::Chosen(v) }),
        ResolveMatch::Partial(v) => Ok(Job { operation: op, selection: Selection::Ambiguous(v) }),
    }
}

fn select_all(op: Operation, catalogue: &Vec<Module>) -> (r: Job)
    ensures
        job_all(op, catalogue@.len(), r),
{
    let mut v: Vec<usize> = Vec::new();
    let mut i: usize = 0;
    while i < catalogue.len()
        invariant
            0 <= i <= catalogue@.len(),
            v@.len() == i,
            forall|x: int| 0 <= x < i ==> #[trigger] v@[x] == x,
        decreases catalogue@.len() - i,
    {
        v.push(i);
        i = i + 1;
    }
    let j = Job { operation: op, selection: Selection::Chosen(v) };
    assert(chosen(j, op, v@));
    j
}

/// Download the module the partials select.
pub fn download_module(partials: &Vec<String>, catalogue: &Vec<Module>) -> (r: Result<Job, String>)
    ensures
        job_for(Operation::Download, views(partials@), catalogue@, r),
{
    select(Operation::Download, partials, catalogue)
}

/// Download every module.
pub fn download_all(catalogue: &Vec<Module>) -> (r: Job)
    ensures
        job_all(Operation::Download, catalogue@.len(), r),
{
    select_all(Operation::Download, catalogue)
}

/// Download and build the module the partials select.
pub fn build_module(partials: &Vec<String>, catalogue: &Vec<Module>) -> (r: Result<Job, String>)
    ensures
        job_for(Operation::Build, views(partials@), catalogue@, r),
{
    select(Operation::Build, partials, catalogue)
}

/// Download and build every module.
pub fn build_all(catalogue: &Vec<Module>) -> (r: Job)
    ensures
        job_all(Operation::Build, catalogue@.len(), r),
{
    select_all(Operation::Build, catalogue)
}

/// Download, build and install the module the partials select.
pub fn install_module(partials: &Vec<String>, catalogue: &Vec<Module>) -> (r: Result<Job, String>)
    ensures
        job_for(Operation::Install, views(partials@), catalogue@, r),
{
    select(Operation::Install, partials, catalogue)
}

/// Download, build and install every module.
pub fn install_all(catalogue: &Vec<Module>) -> (r: Job)
    ensures
        job_all(Operation::Install, catalogue@.len(), r),
{
    select_all(Operation::Install, catalogue)
}

/// Write the modulefile of the module the partials select.
pub fn write_modulefile(partials: &Vec<String>, catalogue: &Vec<Module>) -> (r: Result<Job, String>)
    ensures
        job_for(Operation::Modulefile, views(partials@), catalogue@, r),
{
    select(Operation::Modulefile, partials, catalogue)
}

/// Write the modulefile of every module.
pub fn write_modulefile_all(catalogue: &Vec<Module>) -> (r: Job)
    ensures
        job_all(Operation::Modulefile, catalogue@.len(), r),
{
    select_all(Operation::Modulefile, catalogue)
}

fn push_steps(actions: &mut Vec<Action>, steps: Vec<Step>)
    ensures
        final(actions)@ == old(actions)@ + runs(steps@),
{
    let mut steps = steps;
    let ghost all = steps@;
    let ghost start = actions@;
    let mut i: usize = 0;
    let n = steps.len();
    while i < n
        invariant
            n == all.len(),
            0 <= i <= n,
            steps@ == all.skip(i as int),
            actions@ == start + runs(all.take(i as int)),
        decreases n - i,
    {
        let s = steps.remove(0);
        proof {
            assert(steps@ =~= all.skip(i as int + 1));
            assert(s == all[i as int]);
        }
        actions.push(Action::Run(s));
        proof {
            assert(runs(all.take(i as int + 1)) =~= runs(all.take(i as int)).push(Action::Run(s)));
            assert(actions@ =~= start + runs(all.take(i as int + 1)));
        }
        i = i + 1;
    }
    proof {
        assert(all.take(n as int) =~= all);
    }
}

/// The actions that carry out `op` on `module`: a download; for a build,
/// then the build steps of every flavour; for an install, then the install
/// steps of every flavour and the modulefile; for a modulefile, that file
/// alone. Fails when a required module of a flavour is not in the catalogue.
pub fn module_plan(
    op: Operation,
    module: &Module,
    catalogue: &Vec<Module>,
    config: &Config,
    cwd: &str,
) -> (r: Result<Vec<Action>, String>)
    ensures
        plan_ok(op, *module, catalogue@, *config, cwd@, r),
{
    let mut actions: Vec<Action> = Vec::new();
    if op == Operation::Modulefile {
        let path = modulefile_path(module, config.modulefile_root.as_str());
        let text = modulefile::generate(module, &config.class_no_conflict);
        actions.push(Action::WriteModulefile(path, text));
        return Ok(actions);
    }
    actions.push(Action::Download);
    if op == Operation::Download {
        proof {
            assert(actions@ =~= seq![Action::Download]);
        }
        return Ok(actions);
    }
    let flavours = match generate(module, catalogue) {
        Ok(f) => f,
        Err(e) => return Err(e),
    };
    let shell = config.shell.as_str();
    let ghost fp = flavour_peers(catalogue@, module.dependencies@);
    let ghost k = class_names(module.dependencies@).len();
    proof {
        assert forall|y: int| 0 <= y < flavours@.len() implies #[trigger] flavours@[y].peers@ == fp[y] by {
            assert(peer_lists(flavours@)[y] == flavours@[y].peers@);
        }
    }
    let ghost mut bs: Seq<Seq<Step>> = Seq::empty();
    let mut i: usize = 0;
    while i < flavours.len()
        invariant
            fp == flavour_peers(catalogue@, module.dependencies@),
            k == class_names(module.dependencies@).len(),
            flavours@.len() == fp.len(),
            forall|y: int| 0 <= y < flavours@.len() ==> #[trigger] flavours@[y].peers@ == fp[y],
            forall|y: int| 0 <= y < flavours@.len() ==> #[trigger] flavours@[y].k == k,
            forall|y: int|
                0 <= y < flavours@.len() ==> crate::module::valid_peers(
                    catalogue@,
                    #[trigger] flavours@[y].peers@,
                    flavours@[y].k as nat,
                ),
            0 <= i <= flavours@.len(),
            bs.len() == i,
            forall|x: int|
                0 <= x < i ==> build_plan_ok(*module, catalogue@, fp[x], k, shell@, cwd@, #[trigger] bs[x]),
            actions@ == seq![Action::Download] + joined_runs(bs),
        decreases flavours@.len() - i,
    {
        let steps = module.build(&flavours[i], catalogue, shell, cwd);
        let ghost part = steps@;
        push_steps(&mut actions, steps);
        proof {
            let old_bs = bs;
            bs = bs.push(part);
            assert(bs.drop_last() =~= old_bs);
            assert forall|x: int| 0 <= x < i + 1 implies build_plan_ok(
                *module,
                catalogue@,
                fp[x],
                k,
                shell@,
                cwd@,
                #[trigger] bs[x],
            ) by {
                if x < i {
                    assert(bs[x] == old_bs[x]);
                }
            }
            assert(actions@ =~= seq![Action::Download] + joined_runs(bs));
        }
        i = i + 1;
    }
    proof {
        assert(build_parts_ok(*module, catalogue@, shell@, cwd@, bs));
    }
    if op == Operation::Install {
        let ghost mut is: Seq<Seq<Step>> = Seq::empty();
        let ghost before = actions@;
        let mut j: usize = 0;
        while j < flavours.len()
            invariant
                fp == flavour_peers(catalogue@, module.dependencies@),
                k == class_names(module.dependencies@).len(),
                flavours@.len() == fp.len(),
                forall|y: int| 0 <= y < flavours@.len() ==> #[trigger] flavours@[y].peers@ == fp[y],
                forall|y: int| 0 <= y < flavours@.len() ==> #[trigger] flavours@[y].k == k,
                forall|y: int|
                    0 <= y < flavours@.len() ==> crate::module::valid_peers(
                        catalogue@,
                        #[trigger] flavours@[y].peers@,
                        flavours@[y].k as nat,
                    ),
                0 <= j <= flavours@.len(),
                is.len() == j,
                forall|x: int|
                    0 <= x < j ==> install_plan_ok(*module, catalogue@, fp[x], k, shell@, cwd@, #[trigger] is[x]),
                actions@ == before + joined_runs(is),
            decreases flavours@.len() - j,
        {
            let steps = module.install(&flavours[j], catalogue, shell, cwd);
            let ghost part = steps@;
            push_steps(&mut actions, steps);
            proof {
                let old_is = is;
                is = is.push(part);
                assert(is.drop_last() =~= old_is);
                assert forall|x: int| 0 <= x < j + 1 implies install_plan_ok(
                    *module,
                    catalogue@,
                    fp[x],
                    k,
                    shell@,
                    cwd@,
                    #[trigger] is[x],
                ) by {
                    if x < j {
                        assert(is[x] == old_is[x]);
                    }
                }
                assert(actions@ =~= before + joined_runs(is));
            }
            j = j + 1;
        }
        let path = modulefile_path(module, config.modulefile_root.as_str());
        let text = modulefile::generate(module, &config.class_no_conflict);
        let ghost body = actions@;
        actions.push(Action::WriteModulefile(path, text));
        proof {
            assert(install_parts_ok(*module, catalogue@, shell@, cwd@, is));
            assert(actions@.drop_last() =~= body);
            assert(body =~= seq![Action::Download] + joined_runs(bs) + joined_runs(is));
        }
    }
    Ok(actions)
}

/// An answer to the prompt that asks which of several modules to use.
#[derive(Clone, Copy, Debug, PartialEq, Eq, Structural)]
pub enum Pick {
    Every,
    One(usize),
}

/// What `str::trim` leaves of a string.
pub uninterp spec fn trim_of(s: Seq<char>) -> Seq<char>;

/// Relies on `str::trim`: the result depends on the characters alone.
#[verifier::external_body]
fn trim_text(s: &str) -> (r: String)
    ensures
        r@ == trim_of(s@),
{
    s.trim().to_string()
}

/// A decimal digit.
pub open spec fn is_digit(c: char) -> bool {
    '0' <= c && c <= '9'
}

/// The number a run of decimal digits spells.
pub open spec fn digits_value(s: Seq<char>) -> int
    decreases s.len(),
{
    if s.len() == 0 {
        0
    } else {
        10 * digits_value(s.drop_last()) + (s.last() as int - '0' as int)
    }
}

/// The answer a trimmed line gives when `count` modules are on offer: `all`,
/// or the zero-based index of one of them.
pub open spec fn pick_of(t: Seq<char>, count: nat) -> Option<Pick> {
    if t == "all"@ {
        Some(Pick::Every)
    } else if t.len() > 0 && (forall|i: int| 0 <= i < t.len() ==> #[trigger] is_digit(t[i]))
        && digits_value(t) < count {
        Some(Pick::One(digits_value(t) as usize))
    } else {
        None
    }
}

proof fn lemma_digits_nonneg(s: Seq<char>)
    requires
        forall|i: int| 0 <= i < s.len() ==> #[trigger] is_digit(s[i]),
    ensures
        digits_value(s) >= 0,
    decreases s.len(),
{
    if s.len() > 0 {
        assert forall|i: int| 0 <= i < s.drop_last().len() implies #[trigger] is_digit(s.drop_last()[i]) by {
            assert(is_digit(s[i]));
        }
        lemma_digits_nonneg(s.drop_last());
        assert(is_digit(s[s.len() - 1]));
    }
}

/// The answer a trimmed line gives when `count` modules are on offer.
pub fn pick_from_trimmed(t: &String, count: usize) -> (r: Option<Pick>)
    ensures
        r == pick_of(t@, count as nat),
{
    let all = String::from_str("all");
    if *t == all {
        return Some(Pick::Every);
    }
    let n = t.as_str().unicode_len();
    if n == 0 {
        return None;
    }
    let mut acc: u128 = 0;
    let mut i: usize = 0;
    while i < n
        invariant
            n == t@.len(),
            t@ != "all"@,
            0 <= i <= n,
            forall|x: int| 0 <= x < i ==> #[trigger] is_digit(t@[x]),
            digits_value(t@.take(i as int)) >= 0,
            acc as int == if digits_value(t@.take(i as int)) < count {
                digits_value(t@.take(i as int))
            } else {
                count as int
            },
        decreases n - i,
    {
        let c = t.as_str().get_char(i);
        if !('0' <= c && c <= '9') {
            assert(!is_digit(t@[i as int]));
            return None;
        }
        let d = (c as u32 - '0' as u32) as u128;
        proof {
            let p = t@.take(i as int + 1);
            assert(p.drop_last() =~= t@.take(i as int));
            assert(p.last() == c);
            assert(digits_value(p) == 10 * digits_value(t@.take(i as int)) + d);
        }
        let next = acc * 10 + d;
        acc = if next < count as u128 { next } else { count as u128 };
        proof {
            let v = digits_value(t@.take(i as int));
            assert(10 * v + d >= v) by (nonlinear_arith)
                requires v >= 0, d >= 0;
            if v >= count {
                assert(10 * (count as int) + d >= count) by (nonlinear_arith)
                    requires count >= 0, d >= 0;
            }
        }
        i = i + 1;
    }
    proof {
        assert(t@.take(n as int) =~= t@);
    }
    if acc < count as u128 {
        Some(Pick::One(acc as usize))
    } else {
        None
    }
}

/// The answer a line typed at the prompt gives when `count` modules are on
/// offer, ignoring surrounding whitespace; `None` when it is neither `all` nor
/// an index below `count`.
pub fn parse_selection(input: &str, count: usize) -> (r: Option<Pick>)
    ensures
        r == pick_of(trim_of(input@), count as nat),
{
    let t = trim_text(input);
    pick_from_trimmed(&t, count)
}

/// The modules an answer picks from the offered ones.
pub fn picked(offered: &Vec<usize>, pick: Pick) -> (r: Vec<usize>)
    requires
        pick matches Pick::One(i) ==> i < offered@.len(),
    ensures
        pick == Pick::Every ==> r@ == offered@,
        pick matches Pick::One(i) ==> r@ == seq![offered@[i as int]],
{
    match pick {
        Pick::Every => {
            let mut r: Vec<usize> = Vec::new();
            let mut i: usize = 0;
            while i < offered.len()
                invariant
                    0 <= i <= offered@.len(),
                    r@ == offered@.take(i as int),
                decreases offered@.len() - i,
            {
                r.push(offered[i]);
                proof {
                    assert(r@ =~= offered@.take(i as int + 1));
                }
                i = i + 1;
            }
            proof {
                assert(offered@.take(offered@.len() as int) =~= offered@);
            }
            r
        },
        Pick::One(i) => {
            let mut r: Vec<usize> = Vec::new();
            r.push(offered[i]);
            proof {
                assert(r@ =~= seq![offered@[i as int]]);
            }
            r
        },
    }
}

} // verus!
