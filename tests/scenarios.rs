use sccmod::builders::{Builder, CMake, CMakeBuildType, Make};
use sccmod::config::{Config, TomlItem};
use sccmod::downloaders::{apply_patch, extract, fetch_patch, Curl, DownloadStep, GitClone};
use sccmod::file_manager::dir_level;
use sccmod::flavours::{gen_name, generate, Flavour};
use sccmod::loader::{
    builder_kind, dependency_of_kind, downloader_kind, environment_entry, metadata_value,
    module_from_parts, parse_build_type, RecipeKind,
};
use sccmod::module::{Dependency, Environment, Module};
use sccmod::modulefile;
use sccmod::pipeline::modulefile_path;
use sccmod::pump::{display_width, pump_lines, truncate_line, Capture, Stream};
use sccmod::resolver::{contains_text, matches_folded, resolve, ResolveMatch};
use sccmod::shell::{check_outcome, join_lines, Shell, ShellOutput};
use sccmod::text::{decimal, split_at_char};

fn module(name: &str, version: &str, class: &str) -> Module {
    Module::new(name.to_string(), version.to_string(), class.to_string(), "/b", "/i")
}

fn strings(v: &[&str]) -> Vec<String> {
    v.iter().map(|s| s.to_string()).collect()
}

fn config() -> Config {
    Config {
        sccmod_module_paths: strings(&["/m"]),
        modulefile_root: "/mf".to_string(),
        build_root: "/b".to_string(),
        install_root: "/i".to_string(),
        shell: "bash".to_string(),
        class_no_conflict: Vec::new(),
        num_threads: 4,
    }
}

fn cmake(flags: &[&str]) -> CMake {
    CMake {
        build_type: CMakeBuildType::Release,
        jobs: 4,
        configure_flags: Some(strings(flags)),
        cmake_root: None,
    }
}

#[test]
fn no_deps_default_flavour() {
    let zlib = module("zlib", "1.3", "lib");
    let catalogue = vec![module("zlib", "1.3", "lib")];
    let flavours = generate(&zlib, &catalogue).unwrap();
    assert_eq!(flavours.len(), 1);
    assert!(flavours[0].peers.is_empty());
    assert_eq!(flavours[0].k, 0);
    let (suffix, build, install, names) = zlib.parse(&flavours[0], &catalogue);
    assert_eq!(suffix, "/1/default");
    assert_eq!(build, "/b/zlib/1.3/sccmod_build/1/default");
    assert_eq!(install, "/i/lib/zlib-1.3/1/default");
    assert!(names.is_empty());
}

#[test]
fn single_class_three_candidates() {
    let mut app = module("app", "1.0", "tool");
    app.dependencies.push(Dependency::Class("compiler".to_string()));
    let catalogue = vec![
        module("gcc", "11", "compiler"),
        module("gcc", "12", "compiler"),
        module("zlib", "1.3", "lib"),
        module("clang", "15", "compiler"),
    ];
    let flavours = generate(&app, &catalogue).unwrap();
    let suffixes: Vec<String> = flavours.iter().map(|f| app.parse(f, &catalogue).0).collect();
    assert_eq!(suffixes, strings(&["/1/gcc-11", "/1/gcc-12", "/1/clang-15"]));
    assert!(flavours.iter().all(|f| f.k == 1));
}

#[test]
fn deny_filter_drops_full_match() {
    let mut app = module("app", "1.0", "tool");
    app.dependencies.push(Dependency::Class("compiler".to_string()));
    app.dependencies.push(Dependency::Class("mpi".to_string()));
    app.dependencies.push(Dependency::Deny("clang/15:mpich/4".to_string()));
    let catalogue = vec![
        module("gcc", "12", "compiler"),
        module("clang", "15", "compiler"),
        module("openmpi", "4", "mpi"),
        module("mpich", "4", "mpi"),
    ];
    let flavours = generate(&app, &catalogue).unwrap();
    let peers: Vec<Vec<usize>> = flavours.iter().map(|f| f.peers.clone()).collect();
    assert_eq!(peers, vec![vec![0, 2], vec![1, 2], vec![0, 3]]);
    let suffixes: Vec<String> = flavours.iter().map(|f| app.parse(f, &catalogue).0).collect();
    assert_eq!(
        suffixes,
        strings(&["/1/gcc-12-openmpi-4", "/1/clang-15-openmpi-4", "/1/gcc-12-mpich-4"])
    );
}

#[test]
fn deny_needs_every_name() {
    let mut app = module("app", "1.0", "tool");
    app.dependencies.push(Dependency::Class("compiler".to_string()));
    app.dependencies.push(Dependency::Deny("clang/15:nothing/1".to_string()));
    let catalogue = vec![module("gcc", "12", "compiler"), module("clang", "15", "compiler")];
    assert_eq!(generate(&app, &catalogue).unwrap().len(), 2);
}

#[test]
fn required_modules_follow_class_peers() {
    let mut app = module("app", "1.0", "tool");
    app.dependencies.push(Dependency::Module("lib/zlib/1.3".to_string()));
    app.dependencies.push(Dependency::Class("compiler".to_string()));
    app.dependencies.push(Dependency::Depends("cmake/3".to_string()));
    let catalogue = vec![
        module("zlib", "1.3", "lib"),
        module("gcc", "12", "compiler"),
        module("cmake", "3", "tool"),
    ];
    let flavours = generate(&app, &catalogue).unwrap();
    assert_eq!(flavours.len(), 1);
    assert_eq!(flavours[0].peers, vec![1, 0, 2]);
    assert_eq!(flavours[0].k, 1);
    let (_, _, _, names) = app.parse(&flavours[0], &catalogue);
    assert_eq!(names, strings(&["gcc/12", "zlib/1.3", "cmake/3"]));
    assert_eq!(gen_name(&flavours[0], &catalogue), "|gcc/12|");
}

#[test]
fn missing_required_module_fails() {
    let mut app = module("app", "1.0", "tool");
    app.dependencies.push(Dependency::Module("nothing/1".to_string()));
    let catalogue = vec![module("gcc", "12", "compiler")];
    assert_eq!(
        generate(&app, &catalogue).unwrap_err(),
        "Failed to find module matching dependency 'nothing/1'"
    );
}

#[test]
fn class_without_candidates_has_no_flavours() {
    let mut app = module("app", "1.0", "tool");
    app.dependencies.push(Dependency::Class("mpi".to_string()));
    let catalogue = vec![module("gcc", "12", "compiler")];
    assert!(generate(&app, &catalogue).unwrap().is_empty());
}

#[test]
fn resolver_all_suffix() {
    let catalogue = vec![
        module("gcc", "11", "compiler"),
        module("gcc", "12", "compiler"),
        module("zlib", "1.3", "lib"),
    ];
    assert_eq!(resolve(&strings(&["gcc", "ALL"]), &catalogue), ResolveMatch::All(vec![0, 1]));
    assert_eq!(resolve(&strings(&["gcc"]), &catalogue), ResolveMatch::Partial(vec![0, 1]));
    assert_eq!(resolve(&strings(&["GCC", "12"]), &catalogue), ResolveMatch::Full(1));
    assert_eq!(resolve(&strings(&["llvm"]), &catalogue), ResolveMatch::NoMatch);
    assert_eq!(resolve(&strings(&["LIB/"]), &catalogue), ResolveMatch::Full(2));
}

#[test]
fn resolver_more_partials_fewer_matches() {
    let catalogue = vec![
        module("gcc", "11", "compiler"),
        module("gcc", "12", "compiler"),
        module("zlib", "1.3", "lib"),
    ];
    assert_eq!(resolve(&strings(&["1", "ALL"]), &catalogue), ResolveMatch::All(vec![0, 1, 2]));
    assert_eq!(resolve(&strings(&["1", "gcc", "ALL"]), &catalogue), ResolveMatch::All(vec![0, 1]));
    assert_eq!(resolve(&strings(&["1", "gcc", "2"]), &catalogue), ResolveMatch::Full(1));
}

#[test]
fn substring_and_folded_matching() {
    assert!(contains_text(&"compiler/gcc/12".to_string(), &"gcc/1".to_string()));
    assert!(contains_text(&"abc".to_string(), &"".to_string()));
    assert!(!contains_text(&"ab".to_string(), &"abc".to_string()));
    assert!(matches_folded(&strings(&["gcc", "12"]), &"compiler/gcc/12".to_string()));
    assert!(!matches_folded(&strings(&["gcc", "13"]), &"compiler/gcc/12".to_string()));
}

#[test]
fn cmake_build_end_to_end() {
    let mut m = module("app", "1.0", "tool");
    m.builder = Some(Builder::CMake(cmake(&["-DFOO=1"])));
    let catalogue = vec![module("gcc", "12", "compiler")];
    let flavour = Flavour { peers: Vec::new(), k: 0 };
    let steps = m.build(&flavour, &catalogue, "bash", "/w");
    assert_eq!(steps.len(), 2);
    assert_eq!(
        steps[0].shell.command_line(),
        "cd \"/b/app/1.0/sccmod_build/1/default\" && cmake /b/app/1.0 -DFOO=1 -DCMAKE_BUILD_TYPE=Release"
    );
    assert_eq!(
        steps[1].shell.command_line(),
        "cd \"/b/app/1.0/sccmod_build/1/default\" && cmake --build . --config Release --parallel 4"
    );
    assert_eq!(steps[0].create_dirs, strings(&["/b/app/1.0/sccmod_build/1/default"]));
    assert_eq!(steps[0].shell.get_program(), "bash");
}

#[test]
fn cmake_loads_peers_and_installs() {
    let mut m = module("app", "1.0", "tool");
    m.dependencies.push(Dependency::Class("compiler".to_string()));
    m.builder = Some(Builder::CMake(cmake(&[])));
    m.post_install = Some(strings(&["echo done"]));
    let catalogue = vec![module("gcc", "12", "compiler")];
    let flavour = Flavour { peers: vec![0], k: 1 };
    let steps = m.install(&flavour, &catalogue, "sh", "/w");
    assert_eq!(steps.len(), 2);
    assert_eq!(
        steps[0].shell.command_line(),
        "cd \"/b/app/1.0/sccmod_build/1/gcc-12\" && module load gcc/12 && cmake --install . --prefix /i/tool/app-1.0/1/gcc-12"
    );
    assert_eq!(steps[0].require_dir, Some("/b/app/1.0/sccmod_build/1/gcc-12".to_string()));
    assert_eq!(
        steps[1].shell.command_line(),
        "cd \"/i/tool/app-1.0/1/gcc-12\" && module load gcc/12 && echo done"
    );
}

#[test]
fn cmake_root_offsets_source() {
    let mut c = cmake(&[]);
    c.cmake_root = Some("src".to_string());
    let mut m = module("app", "1.0", "tool");
    m.builder = Some(Builder::CMake(c));
    m.pre_build = Some(strings(&["./bootstrap"]));
    let flavour = Flavour { peers: Vec::new(), k: 0 };
    let steps = m.build(&flavour, &Vec::new(), "bash", "/w");
    assert_eq!(steps.len(), 3);
    assert_eq!(steps[0].shell.command_line(), "cd \"/b/app/1.0\" && ./bootstrap");
    assert_eq!(
        steps[1].shell.command_line(),
        "cd \"/b/app/1.0/sccmod_build/1/default\" && cmake /b/app/1.0/src -DCMAKE_BUILD_TYPE=Release"
    );
}

#[test]
fn make_build_and_install() {
    let make = Make {
        configure: true,
        jobs: 16,
        prefix_args: Some(strings(&["CC=gcc"])),
        configure_flags: Some(strings(&["--enable-shared", "--prefix=/ignored"])),
        make_root: None,
    };
    let mut m = module("zlib", "1.3", "lib");
    m.builder = Some(Builder::Make(make));
    let flavour = Flavour { peers: Vec::new(), k: 0 };
    let steps = m.build(&flavour, &Vec::new(), "bash", "/w");
    assert_eq!(
        steps[0].shell.command_line(),
        "cd \"/b/zlib/1.3/sccmod_build/1/default\" && CC=gcc /b/zlib/1.3/configure --enable-shared --prefix=/ignored --prefix=/i/lib/zlib-1.3/1/default"
    );
    assert_eq!(
        steps[1].shell.command_line(),
        "cd \"/b/zlib/1.3/sccmod_build/1/default\" && make -j 16"
    );
    let install = m.install(&flavour, &Vec::new(), "bash", "/w");
    assert_eq!(install.len(), 1);
    assert_eq!(
        install[0].shell.command_line(),
        "cd \"/b/zlib/1.3/sccmod_build/1/default\" && make install"
    );
    assert_eq!(install[0].create_dirs, strings(&["/i/lib/zlib-1.3/1/default"]));
}

#[test]
fn no_builder_no_steps() {
    let m = module("zlib", "1.3", "lib");
    let flavour = Flavour { peers: Vec::new(), k: 0 };
    assert!(m.build(&flavour, &Vec::new(), "bash", "/w").is_empty());
    assert!(m.install(&flavour, &Vec::new(), "bash", "/w").is_empty());
}

fn zlib_with_env() -> Module {
    let mut m = module("zlib", "1.3", "lib");
    m.metadata.push(("description".to_string(), "Compression".to_string()));
    m.metadata.push(("url".to_string(), "zlib.net".to_string()));
    m.environment.push(("PATH".to_string(), Environment::Prepend("{install}/bin".to_string())));
    m.environment.push(("ZLIB_DIR".to_string(), Environment::Assign("{install}".to_string())));
    m
}

#[test]
fn modulefile_rendering() {
    let m = zlib_with_env();
    let text = modulefile::generate(&m, &Vec::new());
    let prepend = text.find("flavours prepend-path \"PATH\" \"{install}/bin\"").unwrap();
    let set = text.find("setenv \"ZLIB_DIR\" \"{install}\"").unwrap();
    assert!(prepend < set);
    assert!(text.contains("flavours conflict -class lib\n"));
    assert!(text.contains("# description: Compression\n# url: zlib.net\n"));
    assert!(text.contains("module-whatis \"Compression\""));
    assert!(text.contains("flavours root     /i/lib/zlib-1.3\n"));
    assert!(text.starts_with("#%Module\n"));
    assert!(text.ends_with("flavours cleanup\n"));
}

#[test]
fn modulefile_twice_identical() {
    let m = zlib_with_env();
    assert_eq!(modulefile::generate(&m, &Vec::new()), modulefile::generate(&m, &Vec::new()));
}

#[test]
fn modulefile_defaults_and_exemptions() {
    let mut m = module("gcc", "12", "compiler");
    m.dependencies.push(Dependency::Class("base".to_string()));
    let text = modulefile::generate(&m, &strings(&["compiler"]));
    assert!(text.contains("module-whatis \"No description provided\""));
    assert!(text.contains("flavours prereq -class base\n"));
    assert!(!text.contains("flavours conflict"));
    assert_eq!(modulefile_path(&m, "/mf"), "/mf/compiler/gcc/12");
}

#[test]
fn archive_type_guard() {
    let err = extract("/src", "curl_download_result", "zip").unwrap_err();
    assert_eq!(err, "Invalid archive type 'zip'");
    let err = extract("/src", "f", "ZIP").unwrap_err();
    assert_eq!(err, "Invalid archive type 'zip'");
    let inv = extract("/src", "f", "TAR.GZ").unwrap();
    assert_eq!(inv.program, "tar");
    assert_eq!(inv.args, strings(&["-xvf", "f", "--strip-components=1"]));
    assert_eq!(inv.dir, Some("/src".to_string()));
    for t in ["tar", "tar.gz", "targz", "tgz", "tar.xz", "txz", "tarxz"] {
        assert!(extract("/s", "f", t).is_ok());
    }
}

#[test]
fn curl_unpack_plan() {
    let mut c = Curl::new("https://x/a.tgz");
    assert!(c.unpack_command("/s").is_none());
    c.archive = Some("rar".to_string());
    assert_eq!(c.unpack_command("/s").unwrap().unwrap_err(), "Invalid archive type 'rar'");
    let f = c.fetch_command("/s");
    assert_eq!(f.args, strings(&["-OL", "curl_download_result", "https://x/a.tgz"]));
}

#[test]
fn git_clone_plans() {
    let mut g = GitClone::new("https://x/r.git");
    assert_eq!(
        g.clone_command("/p").args,
        strings(&["clone", "--filter=blob:none", "https://x/r.git", "--recursive", "/p"])
    );
    g.branch = Some("dev".to_string());
    g.submodules = false;
    g.shallow = true;
    g.commit = Some("abc".to_string());
    assert_eq!(
        g.clone_command("/p").args,
        strings(&["clone", "--filter=blob:none", "https://x/r.git", "-b", "dev", "--depth=1", "/p"])
    );
    let (inv, msg) = g.update_command("/p");
    assert_eq!(inv.args, strings(&["checkout", "abc"]));
    assert_eq!(msg, "Failed to checkout commit 'abc'");
    g.commit = None;
    let (inv, msg) = g.update_command("/p");
    assert_eq!(inv.args, strings(&["pull"]));
    assert_eq!(msg, "Failed to pull changes");
    assert_eq!(
        fetch_patch("/p", "https://x/1.patch", "bash").command_line(),
        "cd \"/p\" && mkdir -p sccmod_patches && cd sccmod_patches && curl -OL https://x/1.patch"
    );
    assert_eq!(
        apply_patch("/p", "1.patch", "bash").command_line(),
        "cd \"/p\" && git apply --reject --whitespace=fix sccmod_patches/1.patch"
    );
}

#[test]
fn shell_composer_chain() {
    let mut sh = Shell::new("zsh");
    assert_eq!(sh.command_line(), "cd \"/\"");
    sh.set_current_dir("/tmp/x");
    sh.add_command("module load gcc/12");
    sh.add_command("make");
    assert_eq!(sh.get_commands(), &strings(&["module load gcc/12", "make"]));
    assert_eq!(sh.command_line(), "cd \"/tmp/x\" && module load gcc/12 && make");
    assert_eq!(Shell::default(&config()).get_program(), "bash");
}

#[test]
fn shell_outcome_errors() {
    assert!(check_outcome(&ShellOutput::Success, "start", "what").is_ok());
    assert_eq!(
        check_outcome(&ShellOutput::StartupFailure("x".to_string()), "start", "what").unwrap_err(),
        "start"
    );
    let out = ShellOutput::RuntimeFailure((strings(&["a", "b"]), strings(&["c"])));
    assert_eq!(check_outcome(&out, "start", "Failed").unwrap_err(), "Failed. Output:\na\nb\nc");
    assert_eq!(join_lines(&Vec::new()), "");
}

#[test]
fn pump_keeps_lines_and_truncates() {
    let lines = strings(&["short", "a line that is much longer than the terminal allows"]);
    let (cap, shown) = pump_lines(&lines, Stream::Stdout, 20);
    assert_eq!(cap.stdout, lines);
    assert!(cap.stderr.is_empty());
    assert_eq!(shown, strings(&["short", "a line "]));
    assert_eq!(display_width(5), 0);
    assert_eq!(display_width(80), 67);
    assert_eq!(truncate_line(&"héllo wörld".to_string(), 17), "héll");
    let mut c = Capture::new();
    assert_eq!(c.take_line(Stream::Stderr, "oops".to_string(), 10), "");
    assert_eq!(c.stderr, strings(&["oops"]));
}

#[test]
fn dir_level_examples() {
    assert_eq!(dir_level("dir1"), 1);
    assert_eq!(dir_level("dir1/dir2"), 2);
    assert_eq!(dir_level("dir1/.."), 0);
    assert_eq!(dir_level("dir1/../.."), -1);
    assert_eq!(dir_level("dir1/./.."), 0);
    assert_eq!(dir_level("././../../test/thing"), 0);
}

#[test]
fn text_helpers() {
    assert_eq!(split_at_char("a:b::c", ':'), strings(&["a", "b", "", "c"]));
    assert_eq!(split_at_char("", ':'), strings(&[""]));
    assert_eq!(decimal(0), "0");
    assert_eq!(decimal(1203), "1203");
}

#[test]
fn loader_parts() {
    assert!(matches!(
        environment_entry("K".to_string(), "prepend", "v".to_string()),
        Ok((_, Environment::Prepend(_)))
    ));
    assert_eq!(
        environment_entry("K".to_string(), "remove", "v".to_string()).unwrap_err(),
        "Invalid environment variable operation 'remove'"
    );
    assert!(matches!(dependency_of_kind("Class", "mpi".to_string()), Dependency::Class(_)));
    assert!(matches!(dependency_of_kind("Deny", "a/1".to_string()), Dependency::Deny(_)));
    assert!(matches!(dependency_of_kind("Depends", "a/1".to_string()), Dependency::Depends(_)));
    assert!(matches!(dependency_of_kind("str", "a/1".to_string()), Dependency::Module(_)));
    assert_eq!(downloader_kind("Curl"), Ok(RecipeKind::Curl));
    assert_eq!(downloader_kind("Svn").unwrap_err(), "Invalid downloader type");
    assert_eq!(builder_kind("Make"), Ok(RecipeKind::Make));
    assert_eq!(builder_kind("Ninja").unwrap_err(), "Invalid builder type");
    assert_eq!(parse_build_type("RelWithDebInfo"), Ok(CMakeBuildType::RelWithDebInfo));
    assert_eq!(parse_build_type("fast").unwrap_err(), "Unknown CMake build type fast");
}

#[test]
fn module_from_metadata() {
    let md = vec![
        ("name".to_string(), "zlib".to_string()),
        ("version".to_string(), "1.3".to_string()),
        ("class".to_string(), "lib".to_string()),
    ];
    assert_eq!(metadata_value(&md, "version"), Some("1.3".to_string()));
    let m = module_from_parts(md, Vec::new(), Vec::new(), None, None, None, None, &config()).unwrap();
    assert_eq!(m.identifier(), "lib/zlib/1.3");
    assert_eq!(m.mod_name(), "zlib/1.3");
    assert_eq!(m.source_path, "/b/zlib/1.3");
    assert_eq!(m.build_path, "/b/zlib/1.3/sccmod_build");
    assert_eq!(m.install_path, "/i/lib/zlib-1.3");
    let md = vec![("name".to_string(), "zlib".to_string())];
    let err = module_from_parts(md, Vec::new(), Vec::new(), None, None, None, None, &config()).unwrap_err();
    assert_eq!(err, "Metadata does not contain key 'version'");
}

fn text(s: &str) -> TomlItem {
    TomlItem::Text(s.to_string())
}

#[test]
fn config_from_toml() {
    let doc = "sccmod_module_paths = [\"/m\"]\nmodulefile_root = \"/mf\"\nbuild_root = \"/b\"\ninstall_root = \"/i\"\nshell = \"bash\"\nclass_no_conflict = [\"compiler\"]\nnum_threads = 8\n";
    let c = Config::parse(doc).unwrap();
    assert_eq!(c.sccmod_module_paths, strings(&["/m"]));
    assert_eq!(c.shell, "bash");
    assert_eq!(c.class_no_conflict, strings(&["compiler"]));
    assert_eq!(c.num_threads, 8);
    assert!(Config::parse("not = = toml").is_err());
    let bad = doc.replace("shell = \"bash\"", "shell = 3");
    assert_eq!(Config::parse(&bad).unwrap_err(), "`shell` must be a string");
}

#[test]
fn config_field_errors() {
    let items = vec![("sccmod_module_paths".to_string(), TomlItem::List(vec![text("/m"), TomlItem::Integer(1)]))];
    assert_eq!(
        Config::from_items(&items).unwrap_err(),
        "`sccmod_module_paths` must be an array of strings"
    );
    let mut items = vec![
        ("sccmod_module_paths".to_string(), TomlItem::List(vec![text("/m")])),
        ("modulefile_root".to_string(), text("/mf")),
        ("build_root".to_string(), text("/b")),
        ("install_root".to_string(), text("/i")),
        ("shell".to_string(), text("sh")),
        ("class_no_conflict".to_string(), TomlItem::List(Vec::new())),
        ("num_threads".to_string(), TomlItem::Integer(-1)),
    ];
    assert_eq!(
        Config::from_items(&items).unwrap_err(),
        "`num_threads` must be a non-negative integer"
    );
    items[6].1 = TomlItem::Other;
    assert_eq!(Config::from_items(&items).unwrap_err(), "`num_threads` must be an integer");
    items[6].1 = TomlItem::Integer(2);
    assert_eq!(Config::from_items(&items).unwrap().num_threads, 2);
}

fn program_args(step: &DownloadStep) -> Vec<String> {
    match step {
        DownloadStep::Program(inv, _, _) => {
            let mut v = vec![inv.program.clone()];
            v.extend(inv.args.iter().cloned());
            v
        }
        DownloadStep::Script(sh, _, _) => vec![sh.command_line()],
        DownloadStep::Fail(e) => vec![e.clone()],
    }
}

#[test]
fn git_download_steps() {
    let mut g = GitClone::new("https://x/r.git");
    g.patches = Some(strings(&["https://x/1.patch"]));
    let fresh = g.download_steps("/p", false, "bash");
    assert_eq!(fresh.len(), 3);
    assert_eq!(program_args(&fresh[0])[..2], strings(&["git", "clone"])[..]);
    assert_eq!(program_args(&fresh[1]), strings(&["git", "pull"]));
    assert_eq!(
        program_args(&fresh[2]),
        strings(&["cd \"/p\" && mkdir -p sccmod_patches && cd sccmod_patches && curl -OL https://x/1.patch"])
    );
    let existing = g.download_steps("/p", true, "bash");
    assert_eq!(existing.len(), 2);
    assert_eq!(program_args(&existing[0]), strings(&["git", "pull"]));
}

#[test]
fn curl_download_steps() {
    let mut c = Curl::new("https://x/a.tgz");
    let plain = c.download_steps("/s");
    assert_eq!(plain.len(), 1);
    assert_eq!(program_args(&plain[0]), strings(&["curl", "-OL", "curl_download_result", "https://x/a.tgz"]));
    c.archive = Some("TGZ".to_string());
    let packed = c.download_steps("/s");
    assert_eq!(program_args(&packed[1]), strings(&["tar", "-xvf", "curl_download_result", "--strip-components=1"]));
    c.archive = Some("7z".to_string());
    let bad = c.download_steps("/s");
    assert_eq!(bad.len(), 2);
    assert_eq!(program_args(&bad[0])[0], "curl");
    assert!(matches!(&bad[1], DownloadStep::Fail(e) if e == "Invalid archive type '7z'"));
}

#[test]
fn paths_are_deterministic() {
    let mut first = module("app", "1.0", "tool");
    first.dependencies.push(Dependency::Class("compiler".to_string()));
    let mut second = module("app", "1.0", "tool");
    second.dependencies.push(Dependency::Class("compiler".to_string()));
    let catalogue = vec![module("gcc", "12", "compiler")];
    let f1 = generate(&first, &catalogue).unwrap();
    let f2 = generate(&second, &catalogue).unwrap();
    let a = first.parse(&f1[0], &catalogue);
    let b = second.parse(&f2[0], &catalogue);
    assert_eq!((a.1.as_str(), a.2.as_str()), (b.1.as_str(), b.2.as_str()));
    assert_eq!(a.1, "/b/app/1.0/sccmod_build/1/gcc-12");
    assert_eq!(a.2, "/i/tool/app-1.0/1/gcc-12");
}

#[test]
fn relative_roots_are_made_absolute() {
    let mut m = Module::new("app".to_string(), "1.0".to_string(), "tool".to_string(), "build", "inst");
    m.builder = Some(Builder::Make(Make {
        configure: true,
        jobs: 2,
        prefix_args: None,
        configure_flags: None,
        make_root: None,
    }));
    let flavour = Flavour { peers: Vec::new(), k: 0 };
    let steps = m.build(&flavour, &Vec::new(), "sh", "/home/u");
    assert_eq!(
        steps[0].shell.command_line(),
        "cd \"/home/u/build/app/1.0/sccmod_build/1/default\" && /home/u/build/app/1.0/configure --prefix=/home/u/inst/tool/app-1.0/1/default"
    );
    assert_eq!(steps[0].create_dirs, strings(&["/home/u/build/app/1.0/sccmod_build/1/default"]));
    let mut c = m;
    c.builder = Some(Builder::CMake(cmake(&[])));
    let install = c.install(&flavour, &Vec::new(), "sh", "/home/u");
    assert_eq!(
        install[0].shell.command_line(),
        "cd \"/home/u/build/app/1.0/sccmod_build/1/default\" && cmake --install . --prefix /home/u/inst/tool/app-1.0/1/default"
    );
    assert_eq!(install[0].require_dir, Some("/home/u/build/app/1.0/sccmod_build/1/default".to_string()));
    assert_eq!(sccmod::file_manager::absolute("/w", ""), "/w");
    assert_eq!(sccmod::file_manager::absolute("/w", "/abs"), "/abs");
}

#[test]
fn environment_list_stops_at_bad_op() {
    let raw = vec![
        ("A".to_string(), ("set".to_string(), "1".to_string())),
        ("B".to_string(), ("drop".to_string(), "2".to_string())),
        ("C".to_string(), ("wipe".to_string(), "3".to_string())),
    ];
    assert_eq!(sccmod::loader::environment_entries(&raw).unwrap_err(), "Invalid environment variable operation 'drop'");
    let ok = sccmod::loader::environment_entries(&raw[..1].to_vec()).unwrap();
    assert!(matches!(&ok[0], (k, Environment::Assign(v)) if k == "A" && v == "1"));
    assert_eq!(sccmod::loader::script_class("sccmod.module", "Deny"), Some("Deny".to_string()));
    assert_eq!(sccmod::loader::script_class("builtins", "str"), None);
}

#[test]
fn missing_dependency_named_first() {
    let mut app = module("app", "1.0", "tool");
    app.dependencies.push(Dependency::Class("compiler".to_string()));
    app.dependencies.push(Dependency::Depends("first/1".to_string()));
    app.dependencies.push(Dependency::Module("second/1".to_string()));
    assert_eq!(
        generate(&app, &Vec::new()).unwrap_err(),
        "Failed to find module matching dependency 'first/1'"
    );
}
