//! Rendering the Environment Modules file of a module.
use vstd::prelude::*;
use crate::module::{Dependency, Environment, Module};
use crate::text::views;

verus! {

/// One `key: value` line per metadata entry, each behind `# ` when `hashed`.
pub open spec fn metadata_lines(md: Seq<(String, String)>, hashed: bool) -> Seq<char>
    decreases md.len(),
{
    if md.len() == 0 {
        Seq::<char>::empty()
    } else {
        metadata_lines(md.drop_last(), hashed) + (if hashed {
            "# "@
        } else {
            Seq::<char>::empty()
        }) + md.last().0@ + ": "@ + md.last().1@ + "\n"@
    }
}

/// The value of the first `description` entry, if any.
pub open spec fn description_from(md: Seq<(String, String)>, start: int) -> Seq<char>
    decreases md.len() - start,
{
    if start < 0 || start >= md.len() {
        "No description provided"@
    } else if md[start].0@ == "description"@ {
        md[start].1@
    } else {
        description_from(md, start + 1)
    }
}

/// A `flavours prereq -class` line per `Class` dependency, in order.
pub open spec fn prereq_lines(deps: Seq<Dependency>) -> Seq<char>
    decreases deps.len(),
{
    if deps.len() == 0 {
        Seq::<char>::empty()
    } else {
        prereq_lines(deps.drop_last()) + match deps.last() {
            Dependency::Class(c) => "flavours prereq -class "@ + c@ + "\n"@,
            _ => Seq::<char>::empty(),
        }
    }
}

/// The line that applies one environment change.
pub open spec fn environment_line(key: Seq<char>, e: Environment) -> Seq<char> {
    match e {
        Environment::Assign(v) => "setenv \""@ + key + "\" \""@ + v@ + "\"\n"@,
        Environment::Append(v) => "flavours append-path \""@ + key + "\" \""@ + v@ + "\"\n"@,
        Environment::Prepend(v) => "flavours prepend-path \""@ + key + "\" \""@ + v@ + "\"\n"@,
    }
}

/// One line per environment change, in declaration order.
pub open spec fn environment_lines(env: Seq<(String, Environment)>) -> Seq<char>
    decreases env.len(),
{
    if env.len() == 0 {
        Seq::<char>::empty()
    } else {
        environment_lines(env.drop_last()) + environment_line(env.last().0@, env.last().1)
    }
}

/// The conflict block, left out for the classes that may be loaded side by side.
pub open spec fn conflict_block(class: Seq<char>, no_conflict: Seq<Seq<char>>) -> Seq<char> {
    if no_conflict.contains(class) {
        Seq::<char>::empty()
    } else {
        "# Conflict with other modules of the same class\nflavours conflict -class "@ + class
            + "\n\n"@
    }
}

/// The whole modulefile of `m`.
pub open spec fn modulefile_text(m: Module, no_conflict: Seq<Seq<char>>) -> Seq<char> {
    "#%Module\n\n# sccmod modulefile\n\n# Metadata\n"@ + metadata_lines(m.metadata@, true)
        + "\n\n# Flavours initialisation\npackage require flavours\nflavours init\n\n# Module help\nproc ModulesHelp { } {\n   puts stderr \"\n"@
        + metadata_lines(m.metadata@, false) + "\n\"\n}\n\nmodule-whatis \""@ + description_from(
        m.metadata@,
        0,
    ) + "\"\n\n# Module prerequisites\n"@ + prereq_lines(m.dependencies@) + "\n\n"@
        + conflict_block(m.class@, no_conflict) + "# Evaluate the flavour\nflavours root     "@
        + m.install_path@ + "\nflavours revision 1\nflavours commit\n\n# Set environment variables\n"@
        + environment_lines(m.environment@) + "\n\n# Cleanup and reload conflicting modules\nflavours cleanup\n"@
}

fn push_metadata(out: &mut String, md: &Vec<(String, String)>, hashed: bool)
    ensures
        final(out)@ == old(out)@ + metadata_lines(md@, hashed),
{
    let ghost start = out@;
    let mut i: usize = 0;
    while i < md.len()
        invariant
            0 <= i <= md@.len(),
            out@ == start + metadata_lines(md@.take(i as int), hashed),
        decreases md@.len() - i,
    {
        proof {
            assert(md@.take(i as int + 1).drop_last() =~= md@.take(i as int));
        }
        if hashed {
            out.append("# ");
        }
        out.append(md[i].0.as_str());
        out.append(": ");
        out.append(md[i].1.as_str());
        out.append("\n");
        proof {
            assert(out@ =~= start + metadata_lines(md@.take(i as int + 1), hashed));
        }
        i = i + 1;
    }
    proof {
        assert(md@.take(md@.len() as int) =~= md@);
    }
}

fn description(md: &Vec<(String, String)>) -> (r: String)
    ensures
        r@ == description_from(md@, 0),
{
    let key = String::from_str("description");
    let mut i: usize = 0;
    while i < md.len()
        invariant
            0 <= i <= md@.len(),
            key@ == "description"@,
            description_from(md@, 0) == description_from(md@, i as int),
        decreases md@.len() - i,
    {
        if md[i].0 == key {
            return md[i].1.clone();
        }
        i = i + 1;
    }
    String::from_str("No description provided")
}

fn push_prereqs(out: &mut String, deps: &Vec<Dependency>)
    ensures
        final(out)@ == old(out)@ + prereq_lines(deps@),
{
    let ghost start = out@;
    let mut i: usize = 0;
    while i < deps.len()
        invariant
            0 <= i <= deps@.len(),
            out@ == start + prereq_lines(deps@.take(i as int)),
        decreases deps@.len() - i,
    {
        proof {
            assert(deps@.take(i as int + 1).drop_last() =~= deps@.take(i as int));
        }
        match &deps[i] {
            Dependency::Class(c) => {
                out.append("flavours prereq -class ");
                out.append(c.as_str());
                out.append("\n");
            },
            _ => {},
        }
        proof {
            assert(out@ =~= start + prereq_lines(deps@.take(i as int + 1)));
        }
        i = i + 1;
    }
    proof {
        assert(deps@.take(deps@.len() as int) =~= deps@);
    }
}

fn push_environment(out: &mut String, env: &Vec<(String, Environment)>)
    ensures
        final(out)@ == old(out)@ + environment_lines(env@),
{
    let ghost start = out@;
    let mut i: usize = 0;
    while i < env.len()
        invariant
            0 <= i <= env@.len(),
            out@ == start + environment_lines(env@.take(i as int)),
        decreases env@.len() - i,
    {
        proof {
            assert(env@.take(i as int + 1).drop_last() =~= env@.take(i as int));
        }
        let key = env[i].0.as_str();
        match &env[i].1 {
            Environment::Assign(v) => {
                out.append("setenv \"");
                out.append(key);
                out.append("\" \"");
                out.append(v.as_str());
                out.append("\"\n");
            },
            Environment::Append(v) => {
                out.append("flavours append-path \"");
                out.append(key);
                out.append("\" \"");
                out.append(v.as_str());
                out.append("\"\n");
            },
            Environment::Prepend(v) => {
                out.append("flavours prepend-path \"");
                out.append(key);
                out.append("\" \"");
                out.append(v.as_str());
                out.append("\"\n");
            },
        }
        proof {
            assert(out@ =~= start + environment_lines(env@.take(i as int + 1)));
        }
        i = i + 1;
    }
    proof {
        assert(env@.take(env@.len() as int) =~= env@);
    }
}

fn listed(names: &Vec<String>, s: &String) -> (r: bool)
    ensures
        r == views(names@).contains(s@),
{
    let mut i: usize = 0;
    while i < names.len()
        invariant
            0 <= i <= names@.len(),
            forall|x: int| 0 <= x < i ==> #[trigger] views(names@)[x] != s@,
        decreases names@.len() - i,
    {
        if names[i] == *s {
            assert(views(names@)[i as int] == s@);
            return true;
        }
        i = i + 1;
    }
    false
}

/// The modulefile of `module`: header, metadata, help text, description,
/// class prerequisites, the class conflict (unless the class is listed in
/// `class_no_conflict`), the flavour root, and the environment changes in
/// declaration order.
pub fn generate(module: &Module, class_no_conflict: &Vec<String>) -> (r: String)
    ensures
        r@ == modulefile_text(*module, views(class_no_conflict@)),
{
    let mut out = String::from_str("#%Module\n\n# sccmod modulefile\n\n# Metadata\n");
    push_metadata(&mut out, &module.metadata, true);
    out.append(
        "\n\n# Flavours initialisation\npackage require flavours\nflavours init\n\n# Module help\nproc ModulesHelp { } {\n   puts stderr \"\n",
    );
    push_metadata(&mut out, &module.metadata, false);
    out.append("\n\"\n}\n\nmodule-whatis \"");
    let d = description(&module.metadata);
    out.append(d.as_str());
    out.append("\"\n\n# Module prerequisites\n");
    push_prereqs(&mut out, &module.dependencies);
    out.append("\n\n");
    if !listed(class_no_conflict, &module.class) {
        out.append("# Conflict with other modules of the same class\nflavours conflict -class ");
        out.append(module.class.as_str());
        out.append("\n\n");
    }
    out.append("# Evaluate the flavour\nflavours root     ");
    out.append(module.install_path.as_str());
    out.append("\nflavours revision 1\nflavours commit\n\n# Set environment variables\n");
    push_environment(&mut out, &module.environment);
    out.append("\n\n# Cleanup and reload conflicting modules\nflavours cleanup\n");
    proof {
        assert(out@ =~= modulefile_text(*module, views(class_no_conflict@)));
    }
    out
}

/// Rendering is a function of the module and the conflict-free classes alone:
/// two renderings of the same module give the same text.
pub proof fn lemma_modulefile_idempotent(
    m: Module,
    no_conflict: Seq<Seq<char>>,
    first: Seq<char>,
    second: Seq<char>,
)
    requires
        first == modulefile_text(m, no_conflict),
        second == modulefile_text(m, no_conflict),
    ensures
        first == second,
{
}

} // verus!
