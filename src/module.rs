//! The module record and what is derived from it.
use vstd::prelude::*;
use crate::builders::Builder;
use crate::downloaders::Downloader;
use crate::flavours::Flavour;
use crate::text::{views, lemma_views_push};

verus! {

/// One declared dependency of a module.
#[derive(Debug)]
pub enum Dependency {
    /// Build once per module of this class.
    Class(String),
    /// A specific peer module, by `class/name/version` or `name/version`.
    Module(String),
    /// Like `Module` at build time; kept apart for the modulefile.
    Depends(String),
    /// Colon-separated `name/version` list: a flavour holding all of them is dropped.
    Deny(String),
}

/// How an environment variable is changed when the module loads.
#[derive(Debug)]
pub enum Environment {
    /// Replace the value (`setenv`).
    Assign(String),
    Append(String),
    Prepend(String),
}

/// A software package to download, build and install, in one or more flavours.
#[derive(Debug)]
pub struct Module {
    pub name: String,
    pub version: String,
    pub class: String,
    pub dependencies: Vec<Dependency>,
    /// Free-form `key: value` pairs, in declaration order.
    pub metadata: Vec<(String, String)>,
    /// Environment changes, in declaration order.
    pub environment: Vec<(String, Environment)>,
    pub pre_build: Option<Vec<String>>,
    pub post_install: Option<Vec<String>>,
    pub downloader: Option<Downloader>,
    pub builder: Option<Builder>,
    pub source_path: String,
    pub build_path: String,
    pub install_path: String,
}

/// `class/name/version`.
pub open spec fn identifier_of(m: Module) -> Seq<char> {
    m.class@ + "/"@ + m.name@ + "/"@ + m.version@
}

/// `name/version`.
pub open spec fn mod_name_of(m: Module) -> Seq<char> {
    m.name@ + "/"@ + m.version@
}

/// `<build_root>/<name>/<version>`.
pub open spec fn source_path_of(build_root: Seq<char>, name: Seq<char>, version: Seq<char>) -> Seq<char> {
    build_root + "/"@ + name + "/"@ + version
}

/// `<source_path>/sccmod_build`.
pub open spec fn build_path_of(source_path: Seq<char>) -> Seq<char> {
    source_path + "/sccmod_build"@
}

/// `<install_root>/<class>/<name>-<version>`.
pub open spec fn install_path_of(
    install_root: Seq<char>,
    class: Seq<char>,
    name: Seq<char>,
    version: Seq<char>,
) -> Seq<char> {
    install_root + "/"@ + class + "/"@ + name + "-"@ + version
}

/// The three paths of a module agree with its name, version and class.
pub open spec fn paths_wf(m: Module, build_root: Seq<char>, install_root: Seq<char>) -> bool {
    &&& m.source_path@ == source_path_of(build_root, m.name@, m.version@)
    &&& m.build_path@ == build_path_of(m.source_path@)
    &&& m.install_path@ == install_path_of(install_root, m.class@, m.name@, m.version@)
}

/// `<name>-<version>` of a peer, as it appears in a flavour directory.
pub open spec fn peer_tag(m: Module) -> Seq<char> {
    m.name@ + "-"@ + m.version@
}

/// The tags of the first `k` peers joined by `-`.
pub open spec fn joined_tags(catalogue: Seq<Module>, peers: Seq<usize>, k: nat) -> Seq<char>
    decreases k,
{
    if k == 0 {
        Seq::<char>::empty()
    } else if k == 1 {
        peer_tag(catalogue[peers[0] as int])
    } else {
        joined_tags(catalogue, peers, (k - 1) as nat) + "-"@ + peer_tag(catalogue[peers[k - 1] as int])
    }
}

/// `/1/default` when no peer comes from a class, else `/1/` and the joined tags.
pub open spec fn flavour_suffix(catalogue: Seq<Module>, peers: Seq<usize>, k: nat) -> Seq<char> {
    "/1/"@ + if k == 0 {
        "default"@
    } else {
        joined_tags(catalogue, peers, k)
    }
}

/// Peer indices that all point into the catalogue, with `k` of them from classes.
pub open spec fn valid_peers(catalogue: Seq<Module>, peers: Seq<usize>, k: nat) -> bool {
    &&& k <= peers.len()
    &&& forall|i: int| 0 <= i < peers.len() ==> #[trigger] peers[i] < catalogue.len()
}

/// `name/version` of each peer, in flavour order.
pub open spec fn peer_mod_names(catalogue: Seq<Module>, peers: Seq<usize>) -> Seq<Seq<char>> {
    peers.map_values(|p: usize| mod_name_of(catalogue[p as int]))
}

/// Appends `b` to `a`.
pub fn concat(a: &String, b: &str) -> (r: String)
    ensures
        r@ == a@ + b@,
{
    let mut r = a.clone();
    r.append(b);
    r
}

impl Module {
    /// A module whose paths are derived from the build and install roots.
    pub fn new(
        name: String,
        version: String,
        class: String,
        build_root: &str,
        install_root: &str,
    ) -> (m: Module)
        ensures
            m.name@ == name@,
            m.version@ == version@,
            m.class@ == class@,
            m.dependencies@.len() == 0,
            m.metadata@.len() == 0,
            m.environment@.len() == 0,
            m.pre_build is None,
            m.post_install is None,
            m.downloader is None,
            m.builder is None,
            paths_wf(m, build_root@, install_root@),
    {
        let mut source_path = String::from_str(build_root);
        source_path.append("/");
        source_path.append(name.as_str());
        source_path.append("/");
        source_path.append(version.as_str());
        let build_path = concat(&source_path, "/sccmod_build");
        let mut install_path = String::from_str(install_root);
        install_path.append("/");
        install_path.append(class.as_str());
        install_path.append("/");
        install_path.append(name.as_str());
        install_path.append("-");
        install_path.append(version.as_str());
        Module {
            name,
            version,
            class,
            dependencies: Vec::new(),
            metadata: Vec::new(),
            environment: Vec::new(),
            pre_build: None,
            post_install: None,
            downloader: None,
            builder: None,
            source_path,
            build_path,
            install_path,
        }
    }

    /// `class/name/version`.
    pub fn identifier(&self) -> (r: String)
        ensures
            r@ == identifier_of(*self),
    {
        let mut r = self.class.clone();
        r.append("/");
        r.append(self.name.as_str());
        r.append("/");
        r.append(self.version.as_str());
        r
    }

    /// `name/version`.
    pub fn mod_name(&self) -> (r: String)
        ensures
            r@ == mod_name_of(*self),
    {
        let mut r = self.name.clone();
        r.append("/");
        r.append(self.version.as_str());
        r
    }

    /// The flavour directory suffix, the flavour's build and install paths, and
    /// the `name/version` of every peer, to be loaded before building.
    pub fn parse(&self, flavour: &Flavour, catalogue: &Vec<Module>) -> (r: (
        String,
        String,
        String,
        Vec<String>,
    ))
        requires
            valid_peers(catalogue@, flavour.peers@, flavour.k as nat),
        ensures
            r.0@ == flavour_suffix(catalogue@, flavour.peers@, flavour.k as nat),
            r.1@ == self.build_path@ + r.0@,
            r.2@ == self.install_path@ + r.0@,
            views(r.3@) == peer_mod_names(catalogue@, flavour.peers@),
    {
        let mut suffix = String::from_str("/1/");
        if flavour.k == 0 {
            suffix.append("default");
        } else {
            let mut tags = String::new();
            let mut i: usize = 0;
            while i < flavour.k
                invariant
                    valid_peers(catalogue@, flavour.peers@, flavour.k as nat),
                    0 <= i <= flavour.k,
                    tags@ == joined_tags(catalogue@, flavour.peers@, i as nat),
                decreases flavour.k - i,
            {
                if i > 0 {
                    tags.append("-");
                }
                let t = catalogue[flavour.peers[i]].tag();
                tags.append(t.as_str());
                i = i + 1;
            }
            suffix.append(tags.as_str());
        }
        let build_path = concat(&self.build_path, suffix.as_str());
        let install_path = concat(&self.install_path, suffix.as_str());
        let mut names: Vec<String> = Vec::new();
        let mut j: usize = 0;
        while j < flavour.peers.len()
            invariant
                valid_peers(catalogue@, flavour.peers@, flavour.k as nat),
                0 <= j <= flavour.peers@.len(),
                views(names@) == peer_mod_names(catalogue@, flavour.peers@.take(
                    j as int,
                )),
            decreases flavour.peers@.len() - j,
        {
            let n = catalogue[flavour.peers[j]].mod_name();
            proof {
                assert(flavour.peers@.take(j as int + 1) == flavour.peers@.take(j as int).push(
                    flavour.peers@[j as int],
                ));
            }
            let ghost prev = names@;
            names.push(n);
            proof {
                lemma_views_push(prev, n);
                assert(peer_mod_names(catalogue@, flavour.peers@.take(j as int + 1)) =~= peer_mod_names(
                    catalogue@,
                    flavour.peers@.take(j as int),
                ).push(n@));
            }
            j = j + 1;
        }
        proof {
            assert(flavour.peers@.take(flavour.peers@.len() as int) == flavour.peers@);
        }
        (suffix, build_path, install_path, names)
    }

    /// `name-version`.
    pub fn tag(&self) -> (r: String)
        ensures
            r@ == peer_tag(*self),
    {
        let mut r = self.name.clone();
        r.append("-");
        r.append(self.version.as_str());
        r
    }
}

} // verus!
