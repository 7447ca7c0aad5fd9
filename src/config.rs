//! The settings record the orchestrator runs with, read from a TOML document.
use vstd::prelude::*;
use crate::text::views;

verus! {

/// Where modules are found, built, installed and described, and how commands run.
#[derive(Debug)]
pub struct Config {
    pub sccmod_module_paths: Vec<String>,
    pub modulefile_root: String,
    pub build_root: String,
    pub install_root: String,
    pub shell: String,
    pub class_no_conflict: Vec<String>,
    pub num_threads: usize,
}

/// A TOML value, as far as the settings look into it.
#[derive(Debug)]
pub enum TomlItem {
    Text(String),
    Integer(i64),
    List(Vec<TomlItem>),
    Other,
}

/// The top-level entries of the TOML document `text`, as `toml` parses them
/// into a table, or the parser's message.
pub uninterp spec fn toml_document(text: Seq<char>) -> Result<Seq<(String, TomlItem)>, String>;

/// Relies on `toml::Table`'s `FromStr` (`toml::from_str`): the entries of the
/// parsed document, walked in the table's key order, or the error's message.
/// Both depend on the text alone. Strings, integers and arrays of them are
/// carried over; any other value, and any array inside an array, is `Other`.
#[verifier::external_body]
fn parse_toml(text: &str) -> (r: Result<Vec<(String, TomlItem)>, String>)
    ensures
        match r {
            Ok(v) => toml_document(text@) == Ok::<Seq<(String, TomlItem)>, String>(v@),
            Err(e) => toml_document(text@) == Err::<Seq<(String, TomlItem)>, String>(e),
        },
{
    let scalar = |v: &toml::Value| match v {
        toml::Value::String(s) => TomlItem::Text(s.clone()),
        toml::Value::Integer(i) => TomlItem::Integer(*i),
        _ => TomlItem::Other,
    };
    let item = |v: &toml::Value| match v {
        toml::Value::Array(a) => TomlItem::List(a.iter().map(scalar).collect()),
        _ => scalar(v),
    };
    match text.parse::<toml::Table>() {
        Ok(t) => Ok(t.iter().map(|(k, v)| (k.clone(), item(v))).collect()),
        Err(e) => Err(e.to_string()),
    }
}

/// The value of the last entry named `key`.
pub open spec fn lookup(items: Seq<(String, TomlItem)>, key: Seq<char>) -> Option<TomlItem>
    decreases items.len(),
{
    if items.len() == 0 {
        None
    } else if items.last().0@ == key {
        Some(items.last().1)
    } else {
        lookup(items.drop_last(), key)
    }
}

/// The text of a string value.
pub open spec fn text_of(o: Option<TomlItem>) -> Option<Seq<char>> {
    match o {
        Some(TomlItem::Text(s)) => Some(s@),
        _ => None,
    }
}

/// The texts of an array whose items are all strings.
pub open spec fn text_list_of(o: Option<TomlItem>) -> Option<Seq<Seq<char>>> {
    match o {
        Some(TomlItem::List(v)) => if forall|i: int| 0 <= i < v@.len() ==> #[trigger] v@[i] is Text {
            Some(v@.map_values(|x: TomlItem| match x {
                TomlItem::Text(s) => s@,
                _ => Seq::<char>::empty(),
            }))
        } else {
            None
        },
        _ => None,
    }
}

/// A whole number that fits the machine's word.
pub open spec fn count_of(o: Option<TomlItem>) -> Option<int> {
    match o {
        Some(TomlItem::Integer(i)) => if 0 <= i <= usize::MAX {
            Some(i as int)
        } else {
            None
        },
        _ => None,
    }
}

fn find<'a>(items: &'a Vec<(String, TomlItem)>, key: &str) -> (r: Option<&'a TomlItem>)
    ensures
        match lookup(items@, key@) {
            Some(x) => r matches Some(y) && *y == x,
            None => r is None,
        },
{
    let k = String::from_str(key);
    let mut found: Option<&'a TomlItem> = None;
    let mut i: usize = 0;
    while i < items.len()
        invariant
            0 <= i <= items@.len(),
            k@ == key@,
            match lookup(items@.take(i as int), key@) {
                Some(x) => found matches Some(y) && *y == x,
                None => found is None,
            },
        decreases items@.len() - i,
    {
        proof {
            assert(items@.take(i as int + 1).drop_last() =~= items@.take(i as int));
        }
        if items[i].0 == k {
            found = Some(&items[i].1);
        }
        i = i + 1;
    }
    proof {
        assert(items@.take(items@.len() as int) =~= items@);
    }
    found
}

fn text_field(items: &Vec<(String, TomlItem)>, key: &str, error: &str) -> (r: Result<String, String>)
    ensures
        match text_of(lookup(items@, key@)) {
            Some(t) => r matches Ok(s) && s@ == t,
            None => r matches Err(e) && e@ == error@,
        },
{
    match find(items, key) {
        Some(TomlItem::Text(s)) => Ok(s.clone()),
        _ => Err(String::from_str(error)),
    }
}

fn text_list_field(items: &Vec<(String, TomlItem)>, key: &str, error: &str) -> (r: Result<Vec<String>, String>)
    ensures
        match text_list_of(lookup(items@, key@)) {
            Some(t) => r matches Ok(v) && views(v@) == t,
            None => r matches Err(e) && e@ == error@,
        },
{
    match find(items, key) {
        Some(TomlItem::List(v)) => {
            let mut out: Vec<String> = Vec::new();
            let mut i: usize = 0;
            while i < v.len()
                invariant
                    lookup(items@, key@) == Some(TomlItem::List(*v)),
                    0 <= i <= v@.len(),
                    out@.len() == i,
                    forall|x: int| 0 <= x < i ==> #[trigger] v@[x] is Text,
                    forall|x: int| 0 <= x < i ==> (v@[x] matches TomlItem::Text(s) && #[trigger] out@[x]@ == s@),
                decreases v@.len() - i,
            {
                match &v[i] {
                    TomlItem::Text(s) => out.push(s.clone()),
                    _ => {
                        assert(!(v@[i as int] is Text));
                        assert(lookup(items@, key@) == Some(TomlItem::List(*v)));
                        assert(text_list_of(lookup(items@, key@)) is None);
                        return Err(String::from_str(error));
                    },
                }
                i = i + 1;
            }
            proof {
                assert(views(out@) =~= text_list_of(lookup(items@, key@))->Some_0);
            }
            Ok(out)
        },
        _ => Err(String::from_str(error)),
    }
}

/// The settings as they are when every field is present and well typed.
pub open spec fn config_fields_ok(items: Seq<(String, TomlItem)>, c: Config) -> bool {
    &&& text_list_of(lookup(items, "sccmod_module_paths"@)) == Some(views(c.sccmod_module_paths@))
    &&& text_of(lookup(items, "modulefile_root"@)) == Some(c.modulefile_root@)
    &&& text_of(lookup(items, "build_root"@)) == Some(c.build_root@)
    &&& text_of(lookup(items, "install_root"@)) == Some(c.install_root@)
    &&& text_of(lookup(items, "shell"@)) == Some(c.shell@)
    &&& text_list_of(lookup(items, "class_no_conflict"@)) == Some(views(c.class_no_conflict@))
    &&& count_of(lookup(items, "num_threads"@)) == Some(c.num_threads as int)
}

/// The first field, in the order below, that is missing or of the wrong type,
/// with the error that names it.
pub open spec fn config_error(items: Seq<(String, TomlItem)>) -> Option<Seq<char>> {
    if text_list_of(lookup(items, "sccmod_module_paths"@)) is None {
        Some("`sccmod_module_paths` must be an array of strings"@)
    } else if text_of(lookup(items, "modulefile_root"@)) is None {
        Some("`modulefile_root` must be a string"@)
    } else if text_of(lookup(items, "build_root"@)) is None {
        Some("`build_root` must be a string"@)
    } else if text_of(lookup(items, "install_root"@)) is None {
        Some("`install_root` must be a string"@)
    } else if text_of(lookup(items, "shell"@)) is None {
        Some("`shell` must be a string"@)
    } else if text_list_of(lookup(items, "class_no_conflict"@)) is None {
        Some("`class_no_conflict` must be an array of strings"@)
    } else if !(lookup(items, "num_threads"@) matches Some(TomlItem::Integer(_))) {
        Some("`num_threads` must be an integer"@)
    } else if count_of(lookup(items, "num_threads"@)) is None {
        Some("`num_threads` must be a non-negative integer"@)
    } else {
        None
    }
}

/// The outcome of reading settings from a document's entries.
pub open spec fn config_outcome(items: Seq<(String, TomlItem)>, r: Result<Config, String>) -> bool {
    match config_error(items) {
        Some(e) => r matches Err(m) && m@ == e,
        None => r matches Ok(c) && config_fields_ok(items, c),
    }
}

impl Config {
    /// The settings held by a document's top-level entries. Fails on the first
    /// field that is missing or of the wrong type, naming it.
    pub fn from_items(items: &Vec<(String, TomlItem)>) -> (r: Result<Config, String>)
        ensures
            config_outcome(items@, r),
    {
        let sccmod_module_paths = match text_list_field(
            items,
            "sccmod_module_paths",
            "`sccmod_module_paths` must be an array of strings",
        ) {
            Ok(v) => v,
            Err(e) => return Err(e),
        };
        let modulefile_root = match text_field(items, "modulefile_root", "`modulefile_root` must be a string") {
            Ok(v) => v,
            Err(e) => return Err(e),
        };
        let build_root = match text_field(items, "build_root", "`build_root` must be a string") {
            Ok(v) => v,
            Err(e) => return Err(e),
        };
        let install_root = match text_field(items, "install_root", "`install_root` must be a string") {
            Ok(v) => v,
            Err(e) => return Err(e),
        };
        let shell = match text_field(items, "shell", "`shell` must be a string") {
            Ok(v) => v,
            Err(e) => return Err(e),
        };
        let class_no_conflict = match text_list_field(
            items,
            "class_no_conflict",
            "`class_no_conflict` must be an array of strings",
        ) {
            Ok(v) => v,
            Err(e) => return Err(e),
        };
        let num_threads: usize = match find(items, "num_threads") {
            Some(TomlItem::Integer(i)) => {
                let i = *i;
                if i < 0 || i as u64 > usize::MAX as u64 {
                    return Err(String::from_str("`num_threads` must be a non-negative integer"));
                }
                i as usize
            },
            _ => return Err(String::from_str("`num_threads` must be an integer")),
        };
        Ok(
            Config {
                sccmod_module_paths,
                modulefile_root,
                build_root,
                install_root,
                shell,
                class_no_conflict,
                num_threads,
            },
        )
    }

    /// The settings held by the TOML document `text`: the parser's message when
    /// it is not TOML, else as `from_items` reads its entries.
    pub fn parse(text: &str) -> (r: Result<Config, String>)
        ensures
            match toml_document(text@) {
                Err(e) => r == Err::<Config, String>(e),
                Ok(items) => config_outcome(items, r),
            },
    {
        match parse_toml(text) {
            Err(e) => Err(e),
            Ok(items) => Config::from_items(&items),
        }
    }
}

} // verus!
