//! Turning the values a module script hands over into a checked module record.
use vstd::prelude::*;
use crate::builders::{Builder, CMakeBuildType};
use crate::config::Config;
use crate::downloaders::Downloader;
use crate::module::{Dependency, Environment, Module, paths_wf};
use crate::text::{lower_of, lowercase};

verus! {

/// The recipe classes a script object can be.
#[derive(Clone, Copy, Debug, PartialEq, Eq, Structural)]
pub enum RecipeKind {
    GitClone,
    Curl,
    CMake,
    Make,
}

/// The change an environment operation name stands for.
pub open spec fn environment_of(op: Seq<char>, value: String) -> Option<Environment> {
    if op == "set"@ {
        Some(Environment::Assign(value))
    } else if op == "append"@ {
        Some(Environment::Append(value))
    } else if op == "prepend"@ {
        Some(Environment::Prepend(value))
    } else {
        None
    }
}

/// One environment entry from its variable, operation name and value.
pub fn environment_entry(key: String, op: &str, value: String) -> (r: Result<(String, Environment), String>)
    ensures
        environment_of(op@, value) is Some <==> r is Ok,
        r matches Ok(e) ==> e.0 == key && Some(e.1) == environment_of(op@, value),
        r matches Err(m) ==> m@ == "Invalid environment variable operation '"@ + op@ + "'"@,
{
    let o = String::from_str(op);
    let set = String::from_str("set");
    let append = String::from_str("append");
    let prepend = String::from_str("prepend");
    if o == set {
        Ok((key, Environment::Assign(value)))
    } else if o == append {
        Ok((key, Environment::Append(value)))
    } else if o == prepend {
        Ok((key, Environment::Prepend(value)))
    } else {
        let mut m = String::from_str("Invalid environment variable operation '");
        m.append(op);
        m.append("'");
        Err(m)
    }
}

/// The entries whose operations are all known, each as its change.
pub open spec fn entries_ok(raw: Seq<(String, (String, String))>, v: Seq<(String, Environment)>) -> bool {
    &&& v.len() == raw.len()
    &&& forall|i: int|
        0 <= i < raw.len() ==> (#[trigger] v[i]).0 == raw[i].0 && Some(v[i].1) == environment_of(
            raw[i].1.0@,
            raw[i].1.1,
        )
}

/// Index of the first entry at or after `start` whose operation is unknown, or -1.
pub open spec fn first_bad_op_from(raw: Seq<(String, (String, String))>, start: int) -> int
    decreases raw.len() - start,
{
    if start < 0 || start >= raw.len() {
        -1
    } else if environment_of(raw[start].1.0@, raw[start].1.1) is None {
        start
    } else {
        first_bad_op_from(raw, start + 1)
    }
}

/// The environment changes of `(variable, (operation, value))` entries, in
/// order; fails on the first unknown operation, naming it.
pub fn environment_entries(raw: &Vec<(String, (String, String))>) -> (r: Result<Vec<(String, Environment)>, String>)
    ensures
        first_bad_op_from(raw@, 0) == -1 ==> (r matches Ok(v) && entries_ok(raw@, v@)),
        first_bad_op_from(raw@, 0) != -1 ==> (r matches Err(m) && m@ == "Invalid environment variable operation '"@
            + raw@[first_bad_op_from(raw@, 0)].1.0@ + "'"@),
{
    let mut out: Vec<(String, Environment)> = Vec::new();
    let mut i: usize = 0;
    while i < raw.len()
        invariant
            0 <= i <= raw@.len(),
            first_bad_op_from(raw@, 0) == first_bad_op_from(raw@, i as int),
            out@.len() == i,
            forall|x: int|
                0 <= x < i ==> (#[trigger] out@[x]).0 == raw@[x].0 && Some(out@[x].1) == environment_of(
                    raw@[x].1.0@,
                    raw@[x].1.1,
                ),
        decreases raw@.len() - i,
    {
        let e = environment_entry(raw[i].0.clone(), raw[i].1.0.as_str(), raw[i].1.1.clone());
        match e {
            Ok(entry) => out.push(entry),
            Err(m) => return Err(m),
        }
        i = i + 1;
    }
    Ok(out)
}

/// The class name of a script object when its class comes from the helper
/// library (`sccmod.module`); `None` for any other object.
pub fn script_class(defining_module: &str, class_name: &str) -> (r: Option<String>)
    ensures
        defining_module@ == "sccmod.module"@ ==> (r matches Some(c) && c@ == class_name@),
        defining_module@ != "sccmod.module"@ ==> r is None,
{
    let m = String::from_str(defining_module);
    let helpers = String::from_str("sccmod.module");
    if m == helpers {
        Some(String::from_str(class_name))
    } else {
        None
    }
}

/// The dependency a script object of class `kind` stands for: `Class`, `Deny`
/// and `Depends` by name, and a plain module for anything else.
pub fn dependency_of_kind(kind: &str, name: String) -> (r: Dependency)
    ensures
        kind@ == "Class"@ ==> r == Dependency::Class(name),
        kind@ == "Deny"@ ==> r == Dependency::Deny(name),
        kind@ == "Depends"@ ==> r == Dependency::Depends(name),
        kind@ != "Class"@ && kind@ != "Deny"@ && kind@ != "Depends"@ ==> r == Dependency::Module(name),
{
    proof {
        reveal_strlit("Class");
        reveal_strlit("Deny");
        reveal_strlit("Depends");
        assert("Deny"@.len() != "Class"@.len());
        assert("Depends"@.len() != "Class"@.len());
        assert("Depends"@.len() != "Deny"@.len());
    }
    let k = String::from_str(kind);
    let class = String::from_str("Class");
    let deny = String::from_str("Deny");
    let depends = String::from_str("Depends");
    if k == class {
        Dependency::Class(name)
    } else if k == deny {
        Dependency::Deny(name)
    } else if k == depends {
        Dependency::Depends(name)
    } else {
        Dependency::Module(name)
    }
}

/// The downloader class a script object names.
pub fn downloader_kind(class_name: &str) -> (r: Result<RecipeKind, String>)
    ensures
        class_name@ == "GitClone"@ ==> r == Ok::<RecipeKind, String>(RecipeKind::GitClone),
        class_name@ == "Curl"@ ==> r == Ok::<RecipeKind, String>(RecipeKind::Curl),
        class_name@ != "GitClone"@ && class_name@ != "Curl"@ ==> (r matches Err(m) && m@
            == "Invalid downloader type"@),
{
    proof {
        reveal_strlit("GitClone");
        reveal_strlit("Curl");
        assert("GitClone"@.len() != "Curl"@.len());
    }
    let t = String::from_str(class_name);
    let git = String::from_str("GitClone");
    let curl = String::from_str("Curl");
    if t == git {
        Ok(RecipeKind::GitClone)
    } else if t == curl {
        Ok(RecipeKind::Curl)
    } else {
        Err(String::from_str("Invalid downloader type"))
    }
}

/// The builder class a script object names.
pub fn builder_kind(class_name: &str) -> (r: Result<RecipeKind, String>)
    ensures
        class_name@ == "CMake"@ ==> r == Ok::<RecipeKind, String>(RecipeKind::CMake),
        class_name@ == "Make"@ ==> r == Ok::<RecipeKind, String>(RecipeKind::Make),
        class_name@ != "CMake"@ && class_name@ != "Make"@ ==> (r matches Err(m) && m@
            == "Invalid builder type"@),
{
    proof {
        reveal_strlit("CMake");
        reveal_strlit("Make");
        assert("CMake"@.len() != "Make"@.len());
    }
    let t = String::from_str(class_name);
    let cmake = String::from_str("CMake");
    let make = String::from_str("Make");
    if t == cmake {
        Ok(RecipeKind::CMake)
    } else if t == make {
        Ok(RecipeKind::Make)
    } else {
        Err(String::from_str("Invalid builder type"))
    }
}

/// The build type a lower-cased name stands for.
pub open spec fn build_type_of(lowered: Seq<char>) -> Option<CMakeBuildType> {
    if lowered == "debug"@ {
        Some(CMakeBuildType::Debug)
    } else if lowered == "release"@ {
        Some(CMakeBuildType::Release)
    } else if lowered == "relwithdebinfo"@ {
        Some(CMakeBuildType::RelWithDebInfo)
    } else if lowered == "minsizerel"@ {
        Some(CMakeBuildType::MinSizeRel)
    } else {
        None
    }
}

/// The build type of a lower-cased name, or the error that names it.
pub fn build_type_from_lowered(lowered: &String) -> (r: Result<CMakeBuildType, String>)
    ensures
        match build_type_of(lowered@) {
            Some(bt) => r == Ok::<CMakeBuildType, String>(bt),
            None => r matches Err(m) && m@ == "Unknown CMake build type "@ + lowered@,
        },
{
    let debug = String::from_str("debug");
    let release = String::from_str("release");
    let rel_with = String::from_str("relwithdebinfo");
    let min_size = String::from_str("minsizerel");
    if *lowered == debug {
        Ok(CMakeBuildType::Debug)
    } else if *lowered == release {
        Ok(CMakeBuildType::Release)
    } else if *lowered == rel_with {
        Ok(CMakeBuildType::RelWithDebInfo)
    } else if *lowered == min_size {
        Ok(CMakeBuildType::MinSizeRel)
    } else {
        let mut m = String::from_str("Unknown CMake build type ");
        m.append(lowered.as_str());
        Err(m)
    }
}

/// The build type named by `name`, in any case.
pub fn parse_build_type(name: &str) -> (r: Result<CMakeBuildType, String>)
    ensures
        match build_type_of(lower_of(name@)) {
            Some(bt) => r == Ok::<CMakeBuildType, String>(bt),
            None => r matches Err(m) && m@ == "Unknown CMake build type "@ + lower_of(name@),
        },
{
    let lowered = lowercase(name);
    build_type_from_lowered(&lowered)
}

/// Index of the first metadata entry at or after `start` with key `key`, or -1.
pub open spec fn first_key_from(md: Seq<(String, String)>, key: Seq<char>, start: int) -> int
    decreases md.len() - start,
{
    if start < 0 || start >= md.len() {
        -1
    } else if md[start].0@ == key {
        start
    } else {
        first_key_from(md, key, start + 1)
    }
}

/// The value of the first metadata entry with key `key`.
pub open spec fn metadata_of(md: Seq<(String, String)>, key: Seq<char>) -> Option<Seq<char>> {
    let i = first_key_from(md, key, 0);
    if i >= 0 && i < md.len() {
        Some(md[i].1@)
    } else {
        None
    }
}

/// The value of the first metadata entry with key `key`.
pub fn metadata_value(md: &Vec<(String, String)>, key: &str) -> (r: Option<String>)
    ensures
        match metadata_of(md@, key@) {
            Some(v) => r matches Some(s) && s@ == v,
            None => r is None,
        },
{
    let k = String::from_str(key);
    let mut i: usize = 0;
    while i < md.len()
        invariant
            0 <= i <= md@.len(),
            k@ == key@,
            first_key_from(md@, key@, 0) == first_key_from(md@, key@, i as int),
        decreases md@.len() - i,
    {
        if md[i].0 == k {
            return Some(md[i].1.clone());
        }
        i = i + 1;
    }
    None
}

/// The error for a metadata key that is missing.
pub open spec fn missing_key_text(key: Seq<char>) -> Seq<char> {
    "Metadata does not contain key '"@ + key + "'"@
}

/// The named metadata value, or the error that names the key.
fn required_metadata(md: &Vec<(String, String)>, key: &str) -> (r: Result<String, String>)
    ensures
        match metadata_of(md@, key@) {
            Some(v) => r matches Ok(s) && s@ == v,
            None => r matches Err(m) && m@ == missing_key_text(key@),
        },
{
    match metadata_value(md, key) {
        Some(v) => Ok(v),
        None => {
            let mut m = String::from_str("Metadata does not contain key '");
            m.append(key);
            m.append("'");
            Err(m)
        },
    }
}

/// A module record from what its script declared: name, version and class
/// come from the metadata, and the paths from the configured roots. Fails,
/// naming the key, when the metadata lacks `name`, `version` or `class`.
pub fn module_from_parts(
    metadata: Vec<(String, String)>,
    dependencies: Vec<Dependency>,
    environment: Vec<(String, Environment)>,
    pre_build: Option<Vec<String>>,
    post_install: Option<Vec<String>>,
    downloader: Option<Downloader>,
    builder: Option<Builder>,
    config: &Config,
) -> (r: Result<Module, String>)
    ensures
        metadata_of(metadata@, "name"@) is None ==> (r matches Err(m) && m@ == missing_key_text("name"@)),
        metadata_of(metadata@, "name"@) is Some && metadata_of(metadata@, "version"@) is None ==> (r matches Err(m)
            && m@ == missing_key_text("version"@)),
        metadata_of(metadata@, "name"@) is Some && metadata_of(metadata@, "version"@) is Some && metadata_of(
            metadata@,
            "class"@,
        ) is None ==> (r matches Err(m) && m@ == missing_key_text("class"@)),
        r is Ok <==> (metadata_of(metadata@, "name"@) is Some && metadata_of(metadata@, "version"@) is Some
            && metadata_of(metadata@, "class"@) is Some),
        r matches Ok(m) ==> {
            &&& Some(m.name@) == metadata_of(metadata@, "name"@)
            &&& Some(m.version@) == metadata_of(metadata@, "version"@)
            &&& Some(m.class@) == metadata_of(metadata@, "class"@)
            &&& m.metadata == metadata
            &&& m.dependencies == dependencies
            &&& m.environment == environment
            &&& m.pre_build == pre_build
            &&& m.post_install == post_install
            &&& m.downloader == downloader
            &&& m.builder == builder
            &&& paths_wf(m, config.build_root@, config.install_root@)
        },
{
    let name = match required_metadata(&metadata, "name") {
        Ok(v) => v,
        Err(e) => return Err(e),
    };
    let version = match required_metadata(&metadata, "version") {
        Ok(v) => v,
        Err(e) => return Err(e),
    };
    let class = match required_metadata(&metadata, "class") {
        Ok(v) => v,
        Err(e) => return Err(e),
    };
    let mut m = Module::new(name, version, class, config.build_root.as_str(), config.install_root.as_str());
    m.metadata = metadata;
    m.dependencies = dependencies;
    m.environment = environment;
    m.pre_build = pre_build;
    m.post_install = post_install;
    m.downloader = downloader;
    m.builder = builder;
    Ok(m)
}

} // verus!
