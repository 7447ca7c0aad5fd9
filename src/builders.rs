//! Build recipes: CMake and Make.
use vstd::prelude::*;
use crate::shell::{Shell, Step, module_loads, shell_is};
use crate::file_manager::{absolute, absolute_of};
use crate::text::{decimal, decimal_of, views};

verus! {

/// The `CMAKE_BUILD_TYPE` a CMake build is configured with.
#[derive(Clone, Copy, Debug, PartialEq, Eq, Structural)]
pub enum CMakeBuildType {
    Debug,
    Release,
    RelWithDebInfo,
    MinSizeRel,
}

/// Configure with `cmake`, build with `cmake --build`, install with `cmake --install`.
#[derive(Debug)]
pub struct CMake {
    pub build_type: CMakeBuildType,
    pub jobs: usize,
    pub configure_flags: Option<Vec<String>>,
    pub cmake_root: Option<String>,
}

/// Configure with `./configure`, build with `make -j`, install with `make install`.
#[derive(Debug)]
pub struct Make {
    pub configure: bool,
    pub jobs: usize,
    pub prefix_args: Option<Vec<String>>,
    pub configure_flags: Option<Vec<String>>,
    pub make_root: Option<String>,
}

/// The recipe a module is built and installed with.
#[derive(Debug)]
pub enum Builder {
    CMake(CMake),
    Make(Make),
}

/// The name CMake knows a build type by.
pub open spec fn build_type_name(bt: CMakeBuildType) -> Seq<char> {
    match bt {
        CMakeBuildType::Debug => "Debug"@,
        CMakeBuildType::Release => "Release"@,
        CMakeBuildType::RelWithDebInfo => "RelWithDebInfo"@,
        CMakeBuildType::MinSizeRel => "MinSizeRel"@,
    }
}

/// The items of an optional list; none when it is absent.
pub open spec fn opt_items(o: Option<Vec<String>>) -> Seq<Seq<char>> {
    match o {
        Some(v) => views(v@),
        None => Seq::<Seq<char>>::empty(),
    }
}

/// ` item` for each item, in order.
pub open spec fn spaced(items: Seq<Seq<char>>) -> Seq<char>
    decreases items.len(),
{
    if items.len() == 0 {
        Seq::<char>::empty()
    } else {
        spaced(items.drop_last()) + " "@ + items.last()
    }
}

/// `item ` for each item, in order.
pub open spec fn prefixed(items: Seq<Seq<char>>) -> Seq<char>
    decreases items.len(),
{
    if items.len() == 0 {
        Seq::<char>::empty()
    } else {
        prefixed(items.drop_last()) + items.last() + " "@
    }
}

/// The source tree a build runs on: `<source>/<root>` when a root is given.
pub open spec fn source_dir_of(source: Seq<char>, root: Option<String>) -> Seq<char> {
    match root {
        Some(r) => source + "/"@ + r@,
        None => source,
    }
}

/// `cmake <source> <flags…> -DCMAKE_BUILD_TYPE=<type>`.
pub open spec fn cmake_configure_cmd(source: Seq<char>, flags: Seq<Seq<char>>, bt: CMakeBuildType) -> Seq<char> {
    "cmake "@ + source + spaced(flags) + " -DCMAKE_BUILD_TYPE="@ + build_type_name(bt)
}

/// `cmake --build . --config <type> --parallel <jobs>`.
pub open spec fn cmake_build_cmd(bt: CMakeBuildType, jobs: nat) -> Seq<char> {
    "cmake --build . --config "@ + build_type_name(bt) + " --parallel "@ + decimal_of(jobs)
}

/// `cmake --install . --prefix <install>`.
pub open spec fn cmake_install_cmd(install: Seq<char>) -> Seq<char> {
    "cmake --install . --prefix "@ + install
}

/// `<prefix args…> <source>/configure <flags…> --prefix=<install>`.
pub open spec fn make_configure_cmd(
    prefix_args: Seq<Seq<char>>,
    source: Seq<char>,
    flags: Seq<Seq<char>>,
    install: Seq<char>,
) -> Seq<char> {
    prefixed(prefix_args) + source + "/configure"@ + spaced(flags) + " --prefix="@ + install
}

/// `make -j <jobs>`.
pub open spec fn make_build_cmd(jobs: nat) -> Seq<char> {
    "make -j "@ + decimal_of(jobs)
}

fn build_type_text(bt: CMakeBuildType) -> (r: &'static str)
    ensures
        r@ == build_type_name(bt),
{
    match bt {
        CMakeBuildType::Debug => "Debug",
        CMakeBuildType::Release => "Release",
        CMakeBuildType::RelWithDebInfo => "RelWithDebInfo",
        CMakeBuildType::MinSizeRel => "MinSizeRel",
    }
}

fn push_spaced(out: &mut String, items: &Option<Vec<String>>)
    ensures
        final(out)@ == old(out)@ + spaced(opt_items(*items)),
{
    match items {
        None => {},
        Some(v) => {
            let ghost start = out@;
            let mut i: usize = 0;
            while i < v.len()
                invariant
                    0 <= i <= v@.len(),
                    out@ == start + spaced(views(v@).take(i as int)),
                decreases v@.len() - i,
            {
                proof {
                    assert(views(v@).take(i as int + 1).drop_last() =~= views(v@).take(i as int));
                }
                out.append(" ");
                out.append(v[i].as_str());
                proof {
                    assert(out@ =~= start + spaced(views(v@).take(i as int + 1)));
                }
                i = i + 1;
            }
            proof {
                assert(views(v@).take(v@.len() as int) =~= views(v@));
            }
        },
    }
}

fn push_prefixed(out: &mut String, items: &Option<Vec<String>>)
    ensures
        final(out)@ == old(out)@ + prefixed(opt_items(*items)),
{
    match items {
        None => {},
        Some(v) => {
            let ghost start = out@;
            let mut i: usize = 0;
            while i < v.len()
                invariant
                    0 <= i <= v@.len(),
                    out@ == start + prefixed(views(v@).take(i as int)),
                decreases v@.len() - i,
            {
                proof {
                    assert(views(v@).take(i as int + 1).drop_last() =~= views(v@).take(i as int));
                }
                out.append(v[i].as_str());
                out.append(" ");
                proof {
                    assert(out@ =~= start + prefixed(views(v@).take(i as int + 1)));
                }
                i = i + 1;
            }
            proof {
                assert(views(v@).take(v@.len() as int) =~= views(v@));
            }
        },
    }
}

/// The source tree a build runs on.
pub fn source_dir(source_path: &str, root: &Option<String>) -> (r: String)
    ensures
        r@ == source_dir_of(source_path@, *root),
{
    let mut r = String::from_str(source_path);
    match root {
        Some(x) => {
            r.append("/");
            r.append(x.as_str());
        },
        None => {},
    }
    r
}

/// A shell in `dir` that loads the dependencies and then runs `cmd`.
fn step_shell(program: &str, dir: &str, dependencies: &Vec<String>, cmd: &str) -> (r: Shell)
    ensures
        shell_is(r, program@, dir@, module_loads(views(dependencies@)).push(cmd@)),
{
    let mut sh = Shell::new(program);
    sh.set_current_dir(dir);
    sh.load_modules(dependencies);
    sh.add_command(cmd);
    proof {
        assert(sh.command_list() =~= module_loads(views(dependencies@)).push(cmd@));
    }
    sh
}

fn one_dir(d: &str) -> (r: Vec<String>)
    ensures
        views(r@) == seq![d@],
{
    let mut r: Vec<String> = Vec::new();
    r.push(String::from_str(d));
    proof {
        assert(views(r@) =~= seq![d@]);
    }
    r
}

impl CMake {
    /// Configures the build tree `build_path` from `source_path`, both made
    /// absolute against the current directory `cwd`.
    pub fn configure(
        &self,
        source_path: &str,
        build_path: &str,
        dependencies: &Vec<String>,
        shell: &str,
        cwd: &str,
    ) -> (r: Shell)
        ensures
            shell_is(
                r,
                shell@,
                absolute_of(cwd@, build_path@),
                module_loads(views(dependencies@)).push(
                    cmake_configure_cmd(
                        absolute_of(cwd@, source_path@),
                        opt_items(self.configure_flags),
                        self.build_type,
                    ),
                ),
            ),
    {
        let source = absolute(cwd, source_path);
        let build = absolute(cwd, build_path);
        let mut cmd = String::from_str("cmake ");
        cmd.append(source.as_str());
        push_spaced(&mut cmd, &self.configure_flags);
        cmd.append(" -DCMAKE_BUILD_TYPE=");
        cmd.append(build_type_text(self.build_type));
        step_shell(shell, build.as_str(), dependencies, cmd.as_str())
    }

    /// Compiles in the build tree `path`.
    pub fn compile(&self, path: &str, dependencies: &Vec<String>, shell: &str) -> (r: Shell)
        ensures
            shell_is(
                r,
                shell@,
                path@,
                module_loads(views(dependencies@)).push(cmake_build_cmd(self.build_type, self.jobs as nat)),
            ),
    {
        let mut cmd = String::from_str("cmake --build . --config ");
        cmd.append(build_type_text(self.build_type));
        cmd.append(" --parallel ");
        let j = decimal(self.jobs);
        cmd.append(j.as_str());
        step_shell(shell, path, dependencies, cmd.as_str())
    }

    /// Installs from the build tree `build_path` into `install_path`, both made
    /// absolute against the current directory `cwd`.
    pub fn install(
        &self,
        build_path: &str,
        install_path: &str,
        dependencies: &Vec<String>,
        shell: &str,
        cwd: &str,
    ) -> (r: Shell)
        ensures
            shell_is(
                r,
                shell@,
                absolute_of(cwd@, build_path@),
                module_loads(views(dependencies@)).push(cmake_install_cmd(absolute_of(cwd@, install_path@))),
            ),
    {
        let build = absolute(cwd, build_path);
        let install = absolute(cwd, install_path);
        let mut cmd = String::from_str("cmake --install . --prefix ");
        cmd.append(install.as_str());
        step_shell(shell, build.as_str(), dependencies, cmd.as_str())
    }
}

impl Make {
    /// Runs `configure` from `source_path` in `build_path`, installing into
    /// `install_path`, all three made absolute against the current directory `cwd`.
    pub fn configure(
        &self,
        source_path: &str,
        build_path: &str,
        install_path: &str,
        dependencies: &Vec<String>,
        shell: &str,
        cwd: &str,
    ) -> (r: Shell)
        ensures
            shell_is(
                r,
                shell@,
                absolute_of(cwd@, build_path@),
                module_loads(views(dependencies@)).push(
                    make_configure_cmd(
                        opt_items(self.prefix_args),
                        absolute_of(cwd@, source_path@),
                        opt_items(self.configure_flags),
                        absolute_of(cwd@, install_path@),
                    ),
                ),
            ),
    {
        let source = absolute(cwd, source_path);
        let build = absolute(cwd, build_path);
        let install = absolute(cwd, install_path);
        let mut cmd = String::new();
        push_prefixed(&mut cmd, &self.prefix_args);
        cmd.append(source.as_str());
        cmd.append("/configure");
        push_spaced(&mut cmd, &self.configure_flags);
        cmd.append(" --prefix=");
        cmd.append(install.as_str());
        step_shell(shell, build.as_str(), dependencies, cmd.as_str())
    }

    /// Runs `make -j <jobs>` in `path`.
    pub fn compile(&self, path: &str, dependencies: &Vec<String>, shell: &str) -> (r: Shell)
        ensures
            shell_is(r, shell@, path@, module_loads(views(dependencies@)).push(make_build_cmd(self.jobs as nat))),
    {
        let mut cmd = String::from_str("make -j ");
        let j = decimal(self.jobs);
        cmd.append(j.as_str());
        step_shell(shell, path, dependencies, cmd.as_str())
    }

    /// Runs `make install` in `build_path`, made absolute against the current directory `cwd`.
    pub fn install(&self, build_path: &str, dependencies: &Vec<String>, shell: &str, cwd: &str) -> (r: Shell)
        ensures
            shell_is(
                r,
                shell@,
                absolute_of(cwd@, build_path@),
                module_loads(views(dependencies@)).push("make install"@),
            ),
    {
        let build = absolute(cwd, build_path);
        step_shell(shell, build.as_str(), dependencies, "make install")
    }
}

/// The shells a build runs, in order: configure, then compile, with every
/// path made absolute against the current directory `cwd`.
pub open spec fn build_shells_ok(
    b: Builder,
    steps: Seq<Step>,
    source: Seq<char>,
    build_given: Seq<char>,
    install_given: Seq<char>,
    deps: Seq<Seq<char>>,
    program: Seq<char>,
    cwd: Seq<char>,
) -> bool {
    let build = absolute_of(cwd, build_given);
    let install = absolute_of(cwd, install_given);
    &&& steps.len() == 2
    &&& views(steps[0].create_dirs@) == seq![build]
    &&& steps[0].require_dir is None
    &&& views(steps[1].create_dirs@).len() == 0
    &&& steps[1].require_dir is None
    &&& match b {
        Builder::CMake(c) => {
            &&& shell_is(
                steps[0].shell,
                program,
                build,
                module_loads(deps).push(
                    cmake_configure_cmd(
                        absolute_of(cwd, source_dir_of(source, c.cmake_root)),
                        opt_items(c.configure_flags),
                        c.build_type,
                    ),
                ),
            )
            &&& shell_is(steps[1].shell, program, build, module_loads(deps).push(cmake_build_cmd(c.build_type, c.jobs as nat)))
        },
        Builder::Make(m) => {
            &&& shell_is(
                steps[0].shell,
                program,
                build,
                module_loads(deps).push(
                    make_configure_cmd(
                        opt_items(m.prefix_args),
                        absolute_of(cwd, source_dir_of(source, m.make_root)),
                        opt_items(m.configure_flags),
                        install,
                    ),
                ),
            )
            &&& shell_is(steps[1].shell, program, build, module_loads(deps).push(make_build_cmd(m.jobs as nat)))
        },
    }
}

/// The shell an install runs: in the build tree, which must exist, after
/// creating the install tree, both made absolute against the current directory `cwd`.
pub open spec fn install_shell_ok(
    b: Builder,
    step: Step,
    build_given: Seq<char>,
    install_given: Seq<char>,
    deps: Seq<Seq<char>>,
    program: Seq<char>,
    cwd: Seq<char>,
) -> bool {
    let build = absolute_of(cwd, build_given);
    let install = absolute_of(cwd, install_given);
    &&& views(step.create_dirs@) == seq![install]
    &&& step.require_dir matches Some(d) && d@ == build
    &&& match b {
        Builder::CMake(c) => shell_is(step.shell, program, build, module_loads(deps).push(cmake_install_cmd(install))),
        Builder::Make(m) => shell_is(step.shell, program, build, module_loads(deps).push("make install"@)),
    }
}

impl Builder {
    /// The configure and compile steps of a build of `source_path` into
    /// `build_path`, for installation into `install_path`.
    pub fn build(
        &self,
        source_path: &str,
        build_path: &str,
        install_path: &str,
        dependencies: &Vec<String>,
        shell: &str,
        cwd: &str,
    ) -> (r: Vec<Step>)
        ensures
            build_shells_ok(*self, r@, source_path@, build_path@, install_path@, views(dependencies@), shell@, cwd@),
    {
        let build = absolute(cwd, build_path);
        let (configure, compile, what) = match self {
            Builder::CMake(c) => {
                let src = source_dir(source_path, &c.cmake_root);
                (
                    c.configure(src.as_str(), build_path, dependencies, shell, cwd),
                    c.compile(build.as_str(), dependencies, shell),
                    "Failed to run CMake command",
                )
            },
            Builder::Make(m) => {
                let src = source_dir(source_path, &m.make_root);
                (
                    m.configure(src.as_str(), build_path, install_path, dependencies, shell, cwd),
                    m.compile(build.as_str(), dependencies, shell),
                    "Failed to run make",
                )
            },
        };
        let mut r: Vec<Step> = Vec::new();
        r.push(
            Step {
                create_dirs: one_dir(build.as_str()),
                require_dir: None,
                shell: configure,
                start_error: String::from_str(what),
                failure: String::from_str("Failed to configure"),
            },
        );
        r.push(
            Step {
                create_dirs: Vec::new(),
                require_dir: None,
                shell: compile,
                start_error: String::from_str(what),
                failure: String::from_str("Failed to compile"),
            },
        );
        proof {
            assert(views(r@[1].create_dirs@) =~= Seq::<Seq<char>>::empty());
        }
        r
    }

    /// The install step: from the build tree `build_path` into `install_path`,
    /// both made absolute against the current directory `cwd`.
    pub fn install(
        &self,
        build_path: &str,
        install_path: &str,
        dependencies: &Vec<String>,
        shell: &str,
        cwd: &str,
    ) -> (r: Step)
        ensures
            install_shell_ok(*self, r, build_path@, install_path@, views(dependencies@), shell@, cwd@),
    {
        let build = absolute(cwd, build_path);
        let install = absolute(cwd, install_path);
        let sh = match self {
            Builder::CMake(c) => c.install(build_path, install_path, dependencies, shell, cwd),
            Builder::Make(m) => m.install(build_path, dependencies, shell, cwd),
        };
        Step {
            create_dirs: one_dir(install.as_str()),
            require_dir: Some(build),
            shell: sh,
            start_error: String::from_str("Failed to run install command"),
            failure: String::from_str("Failed to install"),
        }
    }
}

} // verus!
