//! Source fetchers: `git clone` and `curl`.
use vstd::prelude::*;
use crate::shell::{Shell, shell_is};
use crate::text::{lower_of, lowercase, views};

verus! {

/// Fetch sources with `git clone`, then check out a commit or pull.
#[derive(Debug)]
pub struct GitClone {
    pub url: String,
    pub branch: Option<String>,
    pub commit: Option<String>,
    pub submodules: bool,
    pub shallow: bool,
    pub patches: Option<Vec<String>>,
}

/// Fetch a file with `curl`, optionally unpacking it as an archive.
#[derive(Debug)]
pub struct Curl {
    pub url: String,
    pub sha256: Option<String>,
    pub archive: Option<String>,
}

/// Where a module's sources come from.
#[derive(Debug)]
pub enum Downloader {
    GitClone(GitClone),
    Curl(Curl),
}

/// A program run directly, with its arguments, from a directory if one is given.
#[derive(Debug)]
pub struct Invocation {
    pub program: String,
    pub args: Vec<String>,
    pub dir: Option<String>,
}

/// The archive types that can be unpacked (compared lower-cased).
pub open spec fn archive_allowed(t: Seq<char>) -> bool {
    t == "tar"@ || t == "tar.gz"@ || t == "targz"@ || t == "tgz"@ || t == "tar.xz"@ || t == "txz"@
        || t == "tarxz"@
}

/// Whether a lower-cased archive type can be unpacked.
pub fn is_archive_allowed(t: &String) -> (r: bool)
    ensures
        r == archive_allowed(t@),
{
    let s0 = String::from_str("tar");
    let s1 = String::from_str("tar.gz");
    let s2 = String::from_str("targz");
    let s3 = String::from_str("tgz");
    let s4 = String::from_str("tar.xz");
    let s5 = String::from_str("txz");
    let s6 = String::from_str("tarxz");
    *t == s0 || *t == s1 || *t == s2 || *t == s3 || *t == s4 || *t == s5 || *t == s6
}

/// `<args>` of `tar` that unpack `name` into the current directory.
pub open spec fn extract_args(name: Seq<char>) -> Seq<Seq<char>> {
    seq!["-xvf"@, name, "--strip-components=1"@]
}

/// `inv` runs `program` with `args` from `dir`.
pub open spec fn runs_in(inv: Invocation, program: Seq<char>, args: Seq<Seq<char>>, dir: Seq<char>) -> bool {
    &&& inv.program@ == program
    &&& views(inv.args@) == args
    &&& inv.dir matches Some(d) && d@ == dir
}

/// The error for an archive type that cannot be unpacked.
pub open spec fn invalid_archive_text(lowered: Seq<char>) -> Seq<char> {
    "Invalid archive type '"@ + lowered + "'"@
}

/// The `tar` run that unpacks the lower-cased archive type `lowered` of file
/// `name` in `path`, or the error for a type that cannot be unpacked.
pub fn extract_lowered(path: &str, name: &str, lowered: &String) -> (r: Result<Invocation, String>)
    ensures
        r is Ok <==> archive_allowed(lowered@),
        r matches Err(e) ==> e@ == invalid_archive_text(lowered@),
        r matches Ok(inv) ==> runs_in(inv, "tar"@, extract_args(name@), path@),
{
    if !is_archive_allowed(lowered) {
        let mut e = String::from_str("Invalid archive type '");
        e.append(lowered.as_str());
        e.append("'");
        return Err(e);
    }
    let mut args: Vec<String> = Vec::new();
    args.push(String::from_str("-xvf"));
    args.push(String::from_str(name));
    args.push(String::from_str("--strip-components=1"));
    proof {
        assert(views(args@) =~= extract_args(name@));
    }
    Ok(Invocation { program: String::from_str("tar"), args, dir: Some(String::from_str(path)) })
}

/// The `tar` run that unpacks `name` in `path` as an archive of type
/// `archive_type` (any case), or the error for a type that cannot be
/// unpacked. Nothing runs until the caller runs the result.
pub fn extract(path: &str, name: &str, archive_type: &str) -> (r: Result<Invocation, String>)
    ensures
        r is Ok <==> archive_allowed(lower_of(archive_type@)),
        r matches Err(e) ==> e@ == invalid_archive_text(lower_of(archive_type@)),
        r matches Ok(inv) ==> runs_in(inv, "tar"@, extract_args(name@), path@),
{
    let lowered = lowercase(archive_type);
    extract_lowered(path, name, &lowered)
}

/// The arguments of `git` that clone `g` into `path`.
pub open spec fn clone_args(g: GitClone, path: Seq<char>) -> Seq<Seq<char>> {
    seq!["clone"@, "--filter=blob:none"@, g.url@] + match g.branch {
        Some(b) => seq!["-b"@, b@],
        None => Seq::<Seq<char>>::empty(),
    } + (if g.submodules {
        seq!["--recursive"@]
    } else {
        Seq::<Seq<char>>::empty()
    }) + (if g.shallow {
        seq!["--depth=1"@]
    } else {
        Seq::<Seq<char>>::empty()
    }) + seq![path]
}

/// The arguments of `git` that bring a clone up to date: check out the pinned
/// commit, or pull.
pub open spec fn update_args(g: GitClone) -> Seq<Seq<char>> {
    match g.commit {
        Some(c) => seq!["checkout"@, c@],
        None => seq!["pull"@],
    }
}

/// The error reported when updating a clone fails.
pub open spec fn update_error(g: GitClone) -> Seq<char> {
    match g.commit {
        Some(c) => "Failed to checkout commit '"@ + c@ + "'"@,
        None => "Failed to pull changes"@,
    }
}

fn push_str(v: &mut Vec<String>, s: &str)
    ensures
        views(final(v)@) == views(old(v)@).push(s@),
{
    let x = String::from_str(s);
    proof {
        crate::text::lemma_views_push(v@, x);
    }
    v.push(x);
}

impl GitClone {
    /// A clone of `url`'s default branch with submodules, in full, with no patches.
    pub fn new(url: &str) -> (r: GitClone)
        ensures
            r.url@ == url@,
            r.branch is None,
            r.commit is None,
            r.submodules,
            !r.shallow,
            r.patches is None,
    {
        GitClone {
            url: String::from_str(url),
            branch: None,
            commit: None,
            submodules: true,
            shallow: false,
            patches: None,
        }
    }

    /// `git clone --filter=blob:none <url> [-b <branch>] [--recursive] [--depth=1] <path>`.
    pub fn clone_command(&self, path: &str) -> (r: Invocation)
        ensures
            r.program@ == "git"@,
            views(r.args@) == clone_args(*self, path@),
            r.dir is None,
    {
        let mut args: Vec<String> = Vec::new();
        push_str(&mut args, "clone");
        push_str(&mut args, "--filter=blob:none");
        push_str(&mut args, self.url.as_str());
        match &self.branch {
            Some(b) => {
                push_str(&mut args, "-b");
                push_str(&mut args, b.as_str());
            },
            None => {},
        }
        if self.submodules {
            push_str(&mut args, "--recursive");
        }
        if self.shallow {
            push_str(&mut args, "--depth=1");
        }
        push_str(&mut args, path);
        proof {
            assert(views(args@) =~= clone_args(*self, path@));
        }
        Invocation { program: String::from_str("git"), args, dir: None }
    }

    /// The `git` run in `path` that checks out the pinned commit or pulls, and
    /// the error to report when it fails.
    pub fn update_command(&self, path: &str) -> (r: (Invocation, String))
        ensures
            runs_in(r.0, "git"@, update_args(*self), path@),
            r.1@ == update_error(*self),
    {
        let mut args: Vec<String> = Vec::new();
        let msg = match &self.commit {
            Some(c) => {
                push_str(&mut args, "checkout");
                push_str(&mut args, c.as_str());
                let mut m = String::from_str("Failed to checkout commit '");
                m.append(c.as_str());
                m.append("'");
                m
            },
            None => {
                push_str(&mut args, "pull");
                String::from_str("Failed to pull changes")
            },
        };
        proof {
            assert(views(args@) =~= update_args(*self));
        }
        (Invocation { program: String::from_str("git"), args, dir: Some(String::from_str(path)) }, msg)
    }
}

/// A shell in `path` that downloads the patch at `url` into `sccmod_patches`.
pub fn fetch_patch(path: &str, url: &str, shell: &str) -> (r: Shell)
    ensures
        shell_is(
            r,
            shell@,
            path@,
            seq!["mkdir -p sccmod_patches"@, "cd sccmod_patches"@, "curl -OL "@ + url@],
        ),
{
    let mut sh = Shell::new(shell);
    sh.set_current_dir(path);
    sh.add_command("mkdir -p sccmod_patches");
    sh.add_command("cd sccmod_patches");
    let mut c = String::from_str("curl -OL ");
    c.append(url);
    sh.add_command(c.as_str());
    proof {
        assert(sh.command_list() =~= seq![
            "mkdir -p sccmod_patches"@,
            "cd sccmod_patches"@,
            "curl -OL "@ + url@,
        ]);
    }
    sh
}

/// A shell in `path` that applies the downloaded patch `file`, keeping
/// rejected hunks and fixing whitespace.
pub fn apply_patch(path: &str, file: &str, shell: &str) -> (r: Shell)
    ensures
        shell_is(r, shell@, path@, seq!["git apply --reject --whitespace=fix sccmod_patches/"@ + file@]),
{
    let mut sh = Shell::new(shell);
    sh.set_current_dir(path);
    let mut c = String::from_str("git apply --reject --whitespace=fix sccmod_patches/");
    c.append(file);
    sh.add_command(c.as_str());
    proof {
        assert(sh.command_list() =~= seq!["git apply --reject --whitespace=fix sccmod_patches/"@ + file@]);
    }
    sh
}

impl Curl {
    /// A download of `url` with no checksum and no unpacking.
    pub fn new(url: &str) -> (r: Curl)
        ensures
            r.url@ == url@,
            r.sha256 is None,
            r.archive is None,
    {
        Curl { url: String::from_str(url), sha256: None, archive: None }
    }

    /// `curl -OL curl_download_result <url>`, run in `path`.
    pub fn fetch_command(&self, path: &str) -> (r: Invocation)
        ensures
            runs_in(r, "curl"@, seq!["-OL"@, "curl_download_result"@, self.url@], path@),
    {
        let mut args: Vec<String> = Vec::new();
        push_str(&mut args, "-OL");
        push_str(&mut args, "curl_download_result");
        push_str(&mut args, self.url.as_str());
        proof {
            assert(views(args@) =~= seq!["-OL"@, "curl_download_result"@, self.url@]);
        }
        Invocation { program: String::from_str("curl"), args, dir: Some(String::from_str(path)) }
    }

    /// The run that unpacks the download in `path`, when an archive type is given.
    pub fn unpack_command(&self, path: &str) -> (r: Option<Result<Invocation, String>>)
        ensures
            self.archive is None ==> r is None,
            self.archive matches Some(a) ==> r matches Some(x) && (x is Ok <==> archive_allowed(
                lower_of(a@),
            )) && (x matches Err(e) ==> e@ == invalid_archive_text(lower_of(a@))) && (x matches Ok(
                inv,
            ) ==> runs_in(inv, "tar"@, extract_args("curl_download_result"@), path@)),
    {
        match &self.archive {
            Some(a) => Some(extract(path, "curl_download_result", a.as_str())),
            None => None,
        }
    }
}

/// One stage of a download, with the errors to report when it does not start
/// or fails.
#[derive(Debug)]
pub enum DownloadStep {
    /// A program run directly.
    Program(Invocation, String, String),
    /// A shell command line.
    Script(Shell, String, String),
    /// Stop with this error.
    Fail(String),
}

/// `step` runs `program` with `args` from `dir` (or from anywhere).
pub open spec fn program_step(step: DownloadStep, program: Seq<char>, args: Seq<Seq<char>>, dir: Option<Seq<char>>) -> bool {
    match step {
        DownloadStep::Program(inv, _, _) => inv.program@ == program && views(inv.args@) == args && match dir {
            Some(d) => inv.dir matches Some(x) && x@ == d,
            None => inv.dir is None,
        },
        _ => false,
    }
}

/// `step` fetches the patch at `url` into `path`'s patch directory.
pub open spec fn patch_step(step: DownloadStep, path: Seq<char>, url: Seq<char>, shell: Seq<char>) -> bool {
    match step {
        DownloadStep::Script(sh, _, _) => shell_is(
            sh,
            shell,
            path,
            seq!["mkdir -p sccmod_patches"@, "cd sccmod_patches"@, "curl -OL "@ + url],
        ),
        _ => false,
    }
}

/// The patch URLs of a clone; none when it has no patches.
pub open spec fn patch_urls(g: GitClone) -> Seq<Seq<char>> {
    match g.patches {
        Some(v) => views(v@),
        None => Seq::<Seq<char>>::empty(),
    }
}

impl GitClone {
    /// The stages that bring `path` to the wanted sources: a clone unless
    /// `path` exists already, then a checkout of the pinned commit or a pull,
    /// then a download of each patch. Applying the patches comes after.
    pub fn download_steps(&self, path: &str, exists: bool, shell: &str) -> (r: Vec<DownloadStep>)
        ensures
            ({
                let skip = if exists { 0int } else { 1int };
                &&& r@.len() == skip + 1 + patch_urls(*self).len()
                &&& !exists ==> program_step(r@[0], "git"@, clone_args(*self, path@), None)
                &&& program_step(r@[skip], "git"@, update_args(*self), Some(path@))
                &&& forall|i: int|
                    0 <= i < patch_urls(*self).len() ==> patch_step(
                        #[trigger] r@[skip + 1 + i],
                        path@,
                        patch_urls(*self)[i],
                        shell@,
                    )
            }),
    {
        let mut r: Vec<DownloadStep> = Vec::new();
        if !exists {
            r.push(
                DownloadStep::Program(
                    self.clone_command(path),
                    String::from_str("Failed to run git command"),
                    String::from_str("Failed to clone repository"),
                ),
            );
        }
        let (update, msg) = self.update_command(path);
        let again = msg.clone();
        r.push(DownloadStep::Program(update, msg, again));
        let ghost start = r@;
        match &self.patches {
            None => {},
            Some(urls) => {
                let mut i: usize = 0;
                while i < urls.len()
                    invariant
                        0 <= i <= urls@.len(),
                        r@.len() == start.len() + i,
                        forall|x: int| 0 <= x < start.len() ==> #[trigger] r@[x] == start[x],
                        forall|x: int|
                            0 <= x < i ==> patch_step(
                                #[trigger] r@[start.len() + x],
                                path@,
                                views(urls@)[x],
                                shell@,
                            ),
                    decreases urls@.len() - i,
                {
                    let sh = fetch_patch(path, urls[i].as_str(), shell);
                    r.push(
                        DownloadStep::Script(
                            sh,
                            String::from_str("Failed to run patch download"),
                            String::from_str("Failed to download patch"),
                        ),
                    );
                    i = i + 1;
                }
            },
        }
        r
    }
}

/// The stages of a `curl` download into `path`: the fetch, then the unpacking,
/// or the failure for an archive type that cannot be unpacked.
pub open spec fn curl_plan_ok(c: Curl, path: Seq<char>, r: Vec<DownloadStep>) -> bool {
    let fetch = seq!["-OL"@, "curl_download_result"@, c.url@];
    match c.archive {
        None => r@.len() == 1 && program_step(r@[0], "curl"@, fetch, Some(path)),
        Some(a) => if archive_allowed(lower_of(a@)) {
            r@.len() == 2 && program_step(r@[0], "curl"@, fetch, Some(path))
                && program_step(r@[1], "tar"@, extract_args("curl_download_result"@), Some(path))
        } else {
            r@.len() == 2 && program_step(r@[0], "curl"@, fetch, Some(path)) && (
            r@[1] matches DownloadStep::Fail(e) && e@ == invalid_archive_text(lower_of(a@)))
        },
    }
}

impl Curl {
    /// The stages of a download into `path`: the fetch, then, when an archive
    /// type is given, its unpacking, or a failure when the type cannot be
    /// unpacked.
    pub fn download_steps(&self, path: &str) -> (r: Vec<DownloadStep>)
        ensures
            curl_plan_ok(*self, path@, r),
    {
        let unpack = self.unpack_command(path);
        let mut r: Vec<DownloadStep> = Vec::new();
        r.push(
            DownloadStep::Program(
                self.fetch_command(path),
                String::from_str("Failed to run curl command"),
                String::from_str("Failed to download from URL"),
            ),
        );
        match unpack {
            Some(Ok(inv)) => r.push(
                DownloadStep::Program(
                    inv,
                    String::from_str("Failed to run tar command"),
                    String::from_str("Failed to extract archive"),
                ),
            ),
            Some(Err(e)) => r.push(DownloadStep::Fail(e)),
            None => {},
        }
        r
    }
}

} // verus!
