use sccmod::builders::{Builder, CMake, CMakeBuildType};
use sccmod::callbacks::{
    build_all, build_module, download_all, download_module, install_all, install_module,
    module_plan, parse_selection, pick_from_trimmed, picked, write_modulefile,
    write_modulefile_all, Action, Job, Operation, Pick, Selection,
};
use sccmod::config::Config;
use sccmod::module::{Dependency, Module};

fn module(name: &str, version: &str, class: &str) -> Module {
    Module::new(name.to_string(), version.to_string(), class.to_string(), "/b", "/i")
}

fn strings(v: &[&str]) -> Vec<String> {
    v.iter().map(|s| s.to_string()).collect()
}

fn catalogue() -> Vec<Module> {
    vec![
        module("gcc", "11", "compiler"),
        module("gcc", "12", "compiler"),
        module("zlib", "1.3", "lib"),
    ]
}

fn config() -> Config {
    Config {
        sccmod_module_paths: Vec::new(),
        modulefile_root: "/mf".to_string(),
        build_root: "/b".to_string(),
        install_root: "/i".to_string(),
        shell: "bash".to_string(),
        class_no_conflict: Vec::new(),
        num_threads: 1,
    }
}

#[test]
fn module_commands_select_by_partials() {
    let c = catalogue();
    assert_eq!(
        download_module(&strings(&["zlib"]), &c),
        Ok(Job { operation: Operation::Download, selection: Selection::Chosen(vec![2]) })
    );
    assert_eq!(
        build_module(&strings(&["gcc"]), &c),
        Ok(Job { operation: Operation::Build, selection: Selection::Ambiguous(vec![0, 1]) })
    );
    assert_eq!(
        install_module(&strings(&["gcc", "ALL"]), &c),
        Ok(Job { operation: Operation::Install, selection: Selection::Chosen(vec![0, 1]) })
    );
    assert_eq!(
        write_modulefile(&strings(&["python"]), &c).unwrap_err(),
        "No modules match the partials provided"
    );
}

#[test]
fn all_commands_cover_catalogue() {
    let c = catalogue();
    for (job, op) in [
        (download_all(&c), Operation::Download),
        (build_all(&c), Operation::Build),
        (install_all(&c), Operation::Install),
        (write_modulefile_all(&c), Operation::Modulefile),
    ] {
        assert_eq!(job, Job { operation: op, selection: Selection::Chosen(vec![0, 1, 2]) });
    }
}

#[test]
fn prompt_answers() {
    assert_eq!(parse_selection(" all\n", 3), Some(Pick::Every));
    assert_eq!(parse_selection("2\n", 3), Some(Pick::One(2)));
    assert_eq!(parse_selection("3", 3), None);
    assert_eq!(parse_selection("x1", 3), None);
    assert_eq!(parse_selection("", 3), None);
    assert_eq!(pick_from_trimmed(&"99999999999999999999999".to_string(), 3), None);
    assert_eq!(pick_from_trimmed(&"007".to_string(), 8), Some(Pick::One(7)));
    assert_eq!(picked(&vec![4, 9], Pick::One(1)), vec![9]);
    assert_eq!(picked(&vec![4, 9], Pick::Every), vec![4, 9]);
}

#[test]
fn plans_per_operation() {
    let c = catalogue();
    let mut app = module("app", "1.0", "tool");
    app.dependencies.push(Dependency::Class("compiler".to_string()));
    app.builder = Some(Builder::CMake(CMake {
        build_type: CMakeBuildType::Debug,
        jobs: 2,
        configure_flags: None,
        cmake_root: None,
    }));
    let plan = module_plan(Operation::Download, &app, &c, &config(), "/w").unwrap();
    assert!(matches!(plan.as_slice(), [Action::Download]));
    let plan = module_plan(Operation::Build, &app, &c, &config(), "/w").unwrap();
    assert_eq!(plan.len(), 5);
    let plan = module_plan(Operation::Install, &app, &c, &config(), "/w").unwrap();
    assert_eq!(plan.len(), 8);
    let dirs: Vec<String> = plan[1..7]
        .iter()
        .map(|a| match a {
            Action::Run(step) => step.shell.get_current_dir().clone(),
            _ => panic!("expected a step"),
        })
        .collect();
    let b11 = "/b/app/1.0/sccmod_build/1/gcc-11".to_string();
    let b12 = "/b/app/1.0/sccmod_build/1/gcc-12".to_string();
    assert_eq!(dirs, vec![b11.clone(), b11.clone(), b12.clone(), b12.clone(), b11, b12]);
    match plan.last().unwrap() {
        Action::WriteModulefile(path, text) => {
            assert_eq!(path, "/mf/tool/app/1.0");
            assert!(text.contains("flavours prereq -class compiler"));
        }
        _ => panic!("last action is not the modulefile"),
    }
    let plan = module_plan(Operation::Modulefile, &app, &c, &config(), "/w").unwrap();
    assert_eq!(plan.len(), 1);
    app.dependencies.push(Dependency::Depends("missing/1".to_string()));
    assert!(module_plan(Operation::Install, &app, &c, &config(), "/w").is_err());
}
