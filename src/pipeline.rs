//! The steps that download, build and install one flavour of a module.
use vstd::prelude::*;
use crate::builders::{build_shells_ok, install_shell_ok};
use crate::file_manager::{absolute, absolute_of};
use crate::flavours::Flavour;
use crate::module::{Module, flavour_suffix, paths_wf, peer_mod_names, valid_peers};
use crate::shell::{Shell, Step, module_loads, shell_is};
use crate::text::views;

verus! {

/// The commands of an optional list; none when it is absent.
pub open spec fn commands_of(o: Option<Vec<String>>) -> Seq<Seq<char>> {
    match o {
        Some(v) => views(v@),
        None => Seq::<Seq<char>>::empty(),
    }
}

/// A step that runs `sh` in a directory that exists already.
fn plain_step(sh: Shell, start_error: &str, failure: &str) -> (r: Step)
    ensures
        r.shell == sh,
        r.create_dirs@.len() == 0,
        r.require_dir is None,
{
    Step {
        create_dirs: Vec::new(),
        require_dir: None,
        shell: sh,
        start_error: String::from_str(start_error),
        failure: String::from_str(failure),
    }
}

fn command_shell(program: &str, dir: &str, loads: &Vec<String>, cmds: &Vec<String>) -> (r: Shell)
    ensures
        shell_is(r, program@, dir@, module_loads(views(loads@)) + views(cmds@)),
{
    let mut sh = Shell::new(program);
    sh.set_current_dir(dir);
    sh.load_modules(loads);
    let ghost start = sh.command_list();
    let mut i: usize = 0;
    while i < cmds.len()
        invariant
            0 <= i <= cmds@.len(),
            sh.program() == program@,
            sh.directory() == dir@,
            start == module_loads(views(loads@)),
            sh.command_list() == start + views(cmds@).take(i as int),
        decreases cmds@.len() - i,
    {
        sh.add_command(cmds[i].as_str());
        proof {
            assert(sh.command_list() =~= start + views(cmds@).take(i as int + 1));
        }
        i = i + 1;
    }
    proof {
        assert(views(cmds@).take(cmds@.len() as int) =~= views(cmds@));
    }
    sh
}

/// The steps that build the flavour `peers`/`k` of `m`, run by `shell` with
/// paths made absolute against `cwd`: the pre-build commands, if any, in the
/// source tree; then the builder's configure and compile in the flavour's
/// build tree, with every peer loaded. None when the module has no builder.
pub open spec fn build_plan_ok(
    m: Module,
    catalogue: Seq<Module>,
    peers: Seq<usize>,
    k: nat,
    shell: Seq<char>,
    cwd: Seq<char>,
    steps: Seq<Step>,
) -> bool {
    match m.builder {
        None => steps.len() == 0,
        Some(b) => {
            let suffix = flavour_suffix(catalogue, peers, k);
            let pre = if m.pre_build is Some { 1int } else { 0int };
            &&& steps.len() == pre + 2
            &&& m.pre_build is Some ==> shell_is(
                steps[0].shell,
                shell,
                absolute_of(cwd, m.source_path@),
                commands_of(m.pre_build),
            ) && steps[0].create_dirs@.len() == 0 && steps[0].require_dir is None
            &&& build_shells_ok(
                b,
                steps.skip(pre),
                m.source_path@,
                m.build_path@ + suffix,
                m.install_path@ + suffix,
                peer_mod_names(catalogue, peers),
                shell,
                cwd,
            )
        },
    }
}

/// The steps that install the flavour `peers`/`k` of `m`, run by `shell` with
/// paths made absolute against `cwd`: the builder's install from the flavour's
/// build tree into its install tree; then the post-install commands, if any,
/// in the install tree with every peer loaded. None when the module has no
/// builder.
pub open spec fn install_plan_ok(
    m: Module,
    catalogue: Seq<Module>,
    peers: Seq<usize>,
    k: nat,
    shell: Seq<char>,
    cwd: Seq<char>,
    steps: Seq<Step>,
) -> bool {
    match m.builder {
        None => steps.len() == 0,
        Some(b) => {
            let suffix = flavour_suffix(catalogue, peers, k);
            let names = peer_mod_names(catalogue, peers);
            &&& steps.len() == if m.post_install is Some { 2int } else { 1int }
            &&& install_shell_ok(b, steps[0], m.build_path@ + suffix, m.install_path@ + suffix, names, shell, cwd)
            &&& m.post_install is Some ==> shell_is(
                steps[1].shell,
                shell,
                absolute_of(cwd, m.install_path@ + suffix),
                module_loads(names) + commands_of(m.post_install),
            ) && steps[1].create_dirs@.len() == 0 && steps[1].require_dir is None
        },
    }
}

impl Module {
    /// The steps that build one flavour (see `build_plan_ok`).
    pub fn build(&self, flavour: &Flavour, catalogue: &Vec<Module>, shell: &str, cwd: &str) -> (r: Vec<Step>)
        requires
            valid_peers(catalogue@, flavour.peers@, flavour.k as nat),
        ensures
            build_plan_ok(*self, catalogue@, flavour.peers@, flavour.k as nat, shell@, cwd@, r@),
    {
        let mut r: Vec<Step> = Vec::new();
        match &self.builder {
            None => r,
            Some(b) => {
                match &self.pre_build {
                    Some(cmds) => {
                        let none: Vec<String> = Vec::new();
                        let source = absolute(cwd, self.source_path.as_str());
                        let sh = command_shell(shell, source.as_str(), &none, cmds);
                        proof {
                            assert(module_loads(views(none@)) + views(cmds@) =~= views(cmds@));
                        }
                        r.push(plain_step(sh, "Failed to run pre-build commands", "Failed to execute command"));
                    },
                    None => {},
                }
                let (_suffix, build_path, install_path, names) = self.parse(flavour, catalogue);
                let mut steps = b.build(
                    self.source_path.as_str(),
                    build_path.as_str(),
                    install_path.as_str(),
                    &names,
                    shell,
                    cwd,
                );
                let ghost pre = r@;
                let ghost built = steps@;
                r.append(&mut steps);
                proof {
                    assert(r@.skip(pre.len() as int) =~= built);
                }
                r
            },
        }
    }

    /// The steps that install one flavour (see `install_plan_ok`).
    pub fn install(&self, flavour: &Flavour, catalogue: &Vec<Module>, shell: &str, cwd: &str) -> (r: Vec<Step>)
        requires
            valid_peers(catalogue@, flavour.peers@, flavour.k as nat),
        ensures
            install_plan_ok(*self, catalogue@, flavour.peers@, flavour.k as nat, shell@, cwd@, r@),
    {
        let mut r: Vec<Step> = Vec::new();
        match &self.builder {
            None => r,
            Some(b) => {
                let (_suffix, build_path, install_path, names) = self.parse(flavour, catalogue);
                let step = b.install(build_path.as_str(), install_path.as_str(), &names, shell, cwd);
                r.push(step);
                match &self.post_install {
                    Some(cmds) => {
                        let install = absolute(cwd, install_path.as_str());
                        let sh = command_shell(shell, install.as_str(), &names, cmds);
                        r.push(plain_step(sh, "Failed to run post-install commands", "Failed to execute command"));
                    },
                    None => {},
                }
                r
            },
        }
    }
}

/// `<modulefile_root>/<class>/<name>/<version>`.
pub open spec fn modulefile_path_of(root: Seq<char>, m: Module) -> Seq<char> {
    root + "/"@ + m.class@ + "/"@ + m.name@ + "/"@ + m.version@
}

/// Where the modulefile of `module` is written.
pub fn modulefile_path(module: &Module, modulefile_root: &str) -> (r: String)
    ensures
        r@ == modulefile_path_of(modulefile_root@, *module),
{
    let mut r = String::from_str(modulefile_root);
    r.append("/");
    r.append(module.class.as_str());
    r.append("/");
    r.append(module.name.as_str());
    r.append("/");
    r.append(module.version.as_str());
    r
}

/// The build and install paths of a flavour depend only on the configured
/// roots, the module's name, version and class, and the flavour: two records
/// of the same module under the same configuration give the same paths.
pub proof fn lemma_path_determinism(
    first: Module,
    second: Module,
    build_root: Seq<char>,
    install_root: Seq<char>,
    catalogue: Seq<Module>,
    peers: Seq<usize>,
    k: nat,
)
    requires
        paths_wf(first, build_root, install_root),
        paths_wf(second, build_root, install_root),
        first.name@ == second.name@,
        first.version@ == second.version@,
        first.class@ == second.class@,
    ensures
        first.build_path@ + flavour_suffix(catalogue, peers, k) == second.build_path@ + flavour_suffix(
            catalogue,
            peers,
            k,
        ),
        first.install_path@ + flavour_suffix(catalogue, peers, k) == second.install_path@
            + flavour_suffix(catalogue, peers, k),
{
}

} // verus!
