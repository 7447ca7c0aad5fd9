//! Chained shell command sequences run from one working directory.
use vstd::prelude::*;
use crate::config::Config;
use crate::text::views;

verus! {

/// How a run of a shell went.
#[derive(Debug)]
pub enum ShellOutput {
    Success,
    /// The shell could not be started.
    StartupFailure(String),
    /// The shell ran and failed; its captured stdout and stderr lines.
    RuntimeFailure((Vec<String>, Vec<String>)),
}

/// A shell to run, the directory to run in and the commands to chain.
#[derive(Debug)]
pub struct Shell {
    shell: String,
    working_directory: String,
    commands: Vec<String>,
}

/// One stage of a pipeline: the directories to create first, a directory that
/// must already exist, the shell to run, and the errors to report when the
/// shell does not start or fails.
#[derive(Debug)]
pub struct Step {
    pub create_dirs: Vec<String>,
    pub require_dir: Option<String>,
    pub shell: Shell,
    pub start_error: String,
    pub failure: String,
}

/// ` && c` for each command, in order.
pub open spec fn chained(cmds: Seq<Seq<char>>) -> Seq<char>
    decreases cmds.len(),
{
    if cmds.len() == 0 {
        Seq::<char>::empty()
    } else {
        chained(cmds.drop_last()) + " && "@ + cmds.last()
    }
}

/// `cd "<dir>" && cmd1 && cmd2 && ...`.
pub open spec fn command_line_of(dir: Seq<char>, cmds: Seq<Seq<char>>) -> Seq<char> {
    "cd \""@ + dir + "\""@ + chained(cmds)
}

/// The lines joined with `\n` between them.
pub open spec fn joined_lines(lines: Seq<Seq<char>>) -> Seq<char>
    decreases lines.len(),
{
    if lines.len() == 0 {
        Seq::<char>::empty()
    } else if lines.len() == 1 {
        lines[0]
    } else {
        joined_lines(lines.drop_last()) + "\n"@ + lines.last()
    }
}

/// The error a failed run reports: what failed, then stdout and stderr.
pub open spec fn failure_text(what: Seq<char>, out: Seq<Seq<char>>, err: Seq<Seq<char>>) -> Seq<char> {
    what + ". Output:\n"@ + joined_lines(out) + "\n"@ + joined_lines(err)
}

/// Joins lines with `\n`.
pub fn join_lines(lines: &Vec<String>) -> (r: String)
    ensures
        r@ == joined_lines(views(lines@)),
{
    let mut r = String::new();
    let mut i: usize = 0;
    while i < lines.len()
        invariant
            0 <= i <= lines@.len(),
            r@ == joined_lines(views(lines@).take(i as int)),
        decreases lines@.len() - i,
    {
        proof {
            assert(views(lines@).take(i as int + 1).drop_last() =~= views(lines@).take(i as int));
        }
        if i > 0 {
            r.append("\n");
        }
        r.append(lines[i].as_str());
        proof {
            if i == 0 {
                assert(r@ =~= joined_lines(views(lines@).take(1)));
            }
        }
        i = i + 1;
    }
    proof {
        assert(views(lines@).take(lines@.len() as int) =~= views(lines@));
    }
    r
}

/// `Ok` for a successful run; else the error: `start_error` when the shell
/// did not start, and `what` with the captured output when it failed.
pub fn check_outcome(outcome: &ShellOutput, start_error: &str, what: &str) -> (r: Result<(), String>)
    ensures
        match outcome {
            ShellOutput::Success => r is Ok,
            ShellOutput::StartupFailure(_) => r matches Err(e) && e@ == start_error@,
            ShellOutput::RuntimeFailure((o, e)) => r matches Err(m) && m@ == failure_text(
                what@,
                views(o@),
                views(e@),
            ),
        },
{
    match outcome {
        ShellOutput::Success => Ok(()),
        ShellOutput::StartupFailure(_) => Err(String::from_str(start_error)),
        ShellOutput::RuntimeFailure((o, e)) => {
            let mut m = String::from_str(what);
            m.append(". Output:\n");
            let a = join_lines(o);
            m.append(a.as_str());
            m.append("\n");
            let b = join_lines(e);
            m.append(b.as_str());
            Err(m)
        },
    }
}

/// `sh` runs `cmds` with `program` from `dir`.
pub open spec fn shell_is(sh: Shell, program: Seq<char>, dir: Seq<char>, cmds: Seq<Seq<char>>) -> bool {
    sh.program() == program && sh.directory() == dir && sh.command_list() == cmds
}

/// `module load <dep>` for each dependency, in order.
pub open spec fn module_loads(deps: Seq<Seq<char>>) -> Seq<Seq<char>> {
    deps.map_values(|d: Seq<char>| "module load "@ + d)
}

impl Shell {
    /// Chains `module load <dep>` for each dependency, in order.
    pub fn load_modules(&mut self, dependencies: &Vec<String>)
        ensures
            final(self).command_list() == old(self).command_list() + module_loads(views(dependencies@)),
            final(self).program() == old(self).program(),
            final(self).directory() == old(self).directory(),
    {
        let ghost start = self.command_list();
        let mut i: usize = 0;
        while i < dependencies.len()
            invariant
                0 <= i <= dependencies@.len(),
                self.command_list() == start + module_loads(views(dependencies@).take(i as int)),
                self.program() == old(self).program(),
                self.directory() == old(self).directory(),
            decreases dependencies@.len() - i,
        {
            let mut c = String::from_str("module load ");
            c.append(dependencies[i].as_str());
            self.add_command(c.as_str());
            proof {
                assert(self.command_list() =~= start + module_loads(
                    views(dependencies@).take(i as int + 1),
                ));
            }
            i = i + 1;
        }
        proof {
            assert(views(dependencies@).take(dependencies@.len() as int) =~= views(dependencies@));
        }
    }

    pub closed spec fn program(&self) -> Seq<char> {
        self.shell@
    }

    pub closed spec fn directory(&self) -> Seq<char> {
        self.working_directory@
    }

    pub closed spec fn command_list(&self) -> Seq<Seq<char>> {
        views(self.commands@)
    }

    /// A shell run by `shell`, from `/`, with no commands yet.
    pub fn new(shell: &str) -> (r: Shell)
        ensures
            r.program() == shell@,
            r.directory() == "/"@,
            r.command_list().len() == 0,
    {
        Shell { shell: String::from_str(shell), working_directory: String::from_str("/"), commands: Vec::new() }
    }

    /// A shell run by the configured shell program, from `/`, with no commands yet.
    pub fn default(config: &Config) -> (r: Shell)
        ensures
            r.program() == config.shell@,
            r.directory() == "/"@,
            r.command_list().len() == 0,
    {
        Shell::new(config.shell.as_str())
    }

    /// Runs the commands from `dir`.
    pub fn set_current_dir(&mut self, dir: &str)
        ensures
            final(self).directory() == dir@,
            final(self).program() == old(self).program(),
            final(self).command_list() == old(self).command_list(),
    {
        self.working_directory = String::from_str(dir);
    }

    /// Chains one more command.
    pub fn add_command(&mut self, cmd: &str)
        ensures
            final(self).command_list() == old(self).command_list().push(cmd@),
            final(self).program() == old(self).program(),
            final(self).directory() == old(self).directory(),
    {
        let c = String::from_str(cmd);
        proof {
            crate::text::lemma_views_push(self.commands@, c);
        }
        self.commands.push(c);
    }

    /// The commands chained so far.
    pub fn get_commands(&self) -> (r: &Vec<String>)
        ensures
            views(r@) == self.command_list(),
    {
        &self.commands
    }

    /// The program that runs the command line.
    pub fn get_program(&self) -> (r: &String)
        ensures
            r@ == self.program(),
    {
        &self.shell
    }

    /// The directory the commands run from.
    pub fn get_current_dir(&self) -> (r: &String)
        ensures
            r@ == self.directory(),
    {
        &self.working_directory
    }

    /// What is handed to `<shell> -c`: `cd "<dir>" && cmd1 && cmd2 && ...`.
    pub fn command_line(&self) -> (r: String)
        ensures
            r@ == command_line_of(self.directory(), self.command_list()),
    {
        let mut r = String::from_str("cd \"");
        r.append(self.working_directory.as_str());
        r.append("\"");
        let ghost start = r@;
        let mut i: usize = 0;
        while i < self.commands.len()
            invariant
                0 <= i <= self.commands@.len(),
                start == "cd \""@ + self.working_directory@ + "\""@,
                r@ == start + chained(views(self.commands@).take(i as int)),
            decreases self.commands@.len() - i,
        {
            proof {
                assert(views(self.commands@).take(i as int + 1).drop_last() =~= views(
                    self.commands@,
                ).take(i as int));
            }
            r.append(" && ");
            r.append(self.commands[i].as_str());
            proof {
                assert(r@ =~= start + chained(views(self.commands@).take(i as int + 1)));
            }
            i = i + 1;
        }
        proof {
            assert(views(self.commands@).take(self.commands@.len() as int) =~= views(self.commands@));
        }
        r
    }
}

} // verus!
