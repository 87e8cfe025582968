//! Per-database settings and the process-wide table of named file types.

use crate::text::texts;
use vstd::prelude::*;

verus! {

/// The one kind of entry that a database leaves out of its index.
#[derive(Debug, Clone, Copy, PartialEq, Eq, Structural)]
pub enum Skip {
    /// Directories and everything else are both indexed.
    Nothing,
    /// Directories are left out.
    Dirs,
    /// Everything but directories is left out.
    Files,
}

impl Default for Skip {
    /// A database that does not say what to skip skips nothing.
    fn default() -> (r: Skip)
        ensures
            r == Skip::Nothing,
    {
        Skip::Nothing
    }
}

/// Settings of one database.
#[derive(Debug, Clone)]
pub struct Config {
    /// Free text shown when databases are listed.
    pub description: String,
    /// Root directories to scan, in the order in which they are scanned.
    pub dirs: Vec<String>,
    /// Which kind of entry is left out.
    pub skip: Skip,
    /// Whether symbolic links are neither followed nor indexed.
    pub ignore_symlinks: bool,
    /// Whether entries whose name starts with a dot are pruned.
    pub ignore_hidden: bool,
    /// Whether `.gitignore` files in the tree and the global excludes apply.
    pub gitignore: bool,
}

/// Why settings could not be taken from what their file holds.
#[derive(Debug, Clone, PartialEq, Eq)]
pub enum ConfigError {
    /// A directory that starts with `~` could not be expanded; the text says
    /// why.
    NoHome(String),
}

/// Whether a directory asks for a home directory to be put in.
pub open spec fn starts_with_tilde(dir: Seq<char>) -> bool {
    dir.len() > 0 && dir.first() == '~'
}

/// Expands a leading `~` or `~user` into a home directory with
/// `expanduser::expanduser`.  Taken on trust: a text that does not start with
/// `~` comes back as it is.  What becomes of any other text depends on the
/// user's environment, and nothing is claimed of it; the text of an error is
/// the crate's own, or says that the expanded path is not valid text.
#[verifier::external_body]
fn expand_user(dir: &str) -> (r: Result<String, String>)
    ensures
        !starts_with_tilde(dir@) ==> r is Ok && r->Ok_0@ == dir@,
{
    match expanduser::expanduser(dir) {
        Ok(path) => path.into_os_string().into_string().map_err(
            |path| format!("{:?} is not valid text", path),
        ),
        Err(error) => Err(error.to_string()),
    }
}

/// The texts of the successful outcomes, one per outcome and in order.
pub open spec fn expanded_texts(outcomes: Seq<Result<String, String>>) -> Seq<Seq<char>> {
    Seq::new(outcomes.len(), |i: int| outcomes[i]->Ok_0@)
}

/// Puts the expanded directories together.  They are all there exactly when
/// every expansion succeeded; otherwise the error is that of the first
/// expansion that did not.
pub fn collect_dirs(outcomes: Vec<Result<String, String>>) -> (r: Result<Vec<String>, ConfigError>)
    ensures
        r is Ok <==> forall|i: int| 0 <= i < outcomes@.len() ==> (#[trigger] outcomes@[i]) is Ok,
        r matches Ok(dirs) ==> texts(dirs@) == expanded_texts(outcomes@),
        r matches Err(ConfigError::NoHome(reason)) ==> exists|i: int|
            0 <= i < outcomes@.len() && (#[trigger] outcomes@[i]) == Err::<String, String>(reason)
                && forall|k: int| 0 <= k < i ==> (#[trigger] outcomes@[k]) is Ok,
{
    let mut dirs: Vec<String> = Vec::new();
    let mut i: usize = 0;
    while i < outcomes.len()
        invariant
            0 <= i <= outcomes@.len(),
            forall|k: int| 0 <= k < i ==> (#[trigger] outcomes@[k]) is Ok,
            texts(dirs@) == expanded_texts(outcomes@.take(i as int)),
        decreases outcomes@.len() - i,
    {
        let ghost had = texts(dirs@);
        match &outcomes[i] {
            Ok(dir) => {
                dirs.push(dir.clone());
                proof {
                    assert(texts(dirs@) =~= had.push(dir@));
                    assert(expanded_texts(outcomes@.take(i + 1)) =~= had.push(dir@));
                }
            },
            Err(reason) => {
                return Err(ConfigError::NoHome(reason.clone()));
            },
        }
        i += 1;
    }
    proof {
        assert(outcomes@.take(outcomes@.len() as int) =~= outcomes@);
    }
    Ok(dirs)
}

/// Takes the directories of a settings file as they are meant: a leading `~`
/// or `~user` stands for a home directory.  A directory that does not start
/// with `~` is taken as it is written, and where no directory starts with
/// `~` nothing can fail.
pub fn deserialize(dirs: Vec<String>) -> (r: Result<Vec<String>, ConfigError>)
    ensures
        (forall|i: int| 0 <= i < dirs@.len() ==> !starts_with_tilde((#[trigger] dirs@[i])@))
            ==> r is Ok,
        r matches Ok(expanded) ==> expanded@.len() == dirs@.len() && forall|i: int|
            0 <= i < dirs@.len() && !starts_with_tilde((#[trigger] dirs@[i])@) ==> expanded@[i]@
                == dirs@[i]@,
{
    let mut outcomes: Vec<Result<String, String>> = Vec::new();
    let mut i: usize = 0;
    while i < dirs.len()
        invariant
            0 <= i <= dirs@.len(),
            outcomes@.len() == i,
            forall|k: int|
                0 <= k < i && !starts_with_tilde((#[trigger] dirs@[k])@) ==> outcomes@[k] is Ok
                    && outcomes@[k]->Ok_0@ == dirs@[k]@,
        decreases dirs@.len() - i,
    {
        outcomes.push(expand_user(dirs[i].as_str()));
        i += 1;
    }
    let r = collect_dirs(outcomes);
    proof {
        if r is Ok {
            let expanded = r->Ok_0;
            assert(expanded@.len() == texts(expanded@).len());
            assert forall|i: int|
                0 <= i < dirs@.len() && !starts_with_tilde(
                    (#[trigger] dirs@[i])@,
                ) implies expanded@[i]@ == dirs@[i]@ by {
                assert(texts(expanded@)[i] == expanded_texts(outcomes@)[i]);
            }
        } else if forall|i: int|
            0 <= i < dirs@.len() ==> !starts_with_tilde((#[trigger] dirs@[i])@) {
            assert forall|i: int| 0 <= i < outcomes@.len() implies (#[trigger] outcomes@[i])
                is Ok by {
                assert(!starts_with_tilde(dirs@[i]@));
            }
        }
    }
    r
}

/// The named file types: each name stands for a regular expression.  A name
/// has at most one expression; defining a name again replaces what it stood
/// for.
#[derive(Debug, Clone)]
pub struct TypesMap {
    entries: Vec<(String, String)>,
}

/// What `name` stands for after the definitions in `entries` were made in
/// order.
spec fn defined_as(entries: Seq<(String, String)>, name: Seq<char>) -> Option<Seq<char>>
    decreases entries.len(),
{
    if entries.len() == 0 {
        None
    } else if entries.last().0@ == name {
        Some(entries.last().1@)
    } else {
        defined_as(entries.drop_last(), name)
    }
}

impl View for TypesMap {
    type V = Map<Seq<char>, Seq<char>>;

    closed spec fn view(&self) -> Map<Seq<char>, Seq<char>> {
        Map::new(
            |name: Seq<char>| defined_as(self.entries@, name) is Some,
            |name: Seq<char>| defined_as(self.entries@, name)->0,
        )
    }
}

impl TypesMap {
    /// A table without any type.
    pub fn new() -> (types: TypesMap)
        ensures
            types@ == Map::<Seq<char>, Seq<char>>::empty(),
    {
        let types = TypesMap { entries: Vec::new() };
        assert(types@ =~= Map::<Seq<char>, Seq<char>>::empty());
        types
    }

    /// Lets `name` stand for `pattern` from now on.
    pub fn insert(&mut self, name: String, pattern: String)
        ensures
            final(self)@ == old(self)@.insert(name@, pattern@),
    {
        let ghost before = self.entries@;
        self.entries.push((name, pattern));
        proof {
            assert(self.entries@.drop_last() =~= before);
            assert(self@ =~= old(self)@.insert(name@, pattern@));
        }
    }

    /// The regular expression that `name` stands for, if it is defined.
    pub fn get(&self, name: &str) -> (found: Option<&String>)
        ensures
            found is Some <==> self@.contains_key(name@),
            found matches Some(pattern) ==> pattern@ == self@[name@],
    {
        let key = name.to_owned();
        let mut i: usize = self.entries.len();
        proof {
            assert(self.entries@.take(i as int) =~= self.entries@);
        }
        while i > 0
            invariant
                i <= self.entries@.len(),
                key@ == name@,
                defined_as(self.entries@, name@) == defined_as(self.entries@.take(i as int), name@),
            decreases i,
        {
            proof {
                assert(self.entries@.take(i as int).drop_last() =~= self.entries@.take(i - 1));
            }
            i -= 1;
            if self.entries[i].0 == key {
                return Some(&self.entries[i].1);
            }
        }
        None
    }
}

/// Settings shared by all databases.
#[derive(Debug, Clone)]
pub struct GlobalConfig {
    /// The named file types.
    pub types: TypesMap,
}

/// The named file types of the shared settings.
pub fn get_types_map(config: GlobalConfig) -> (types: TypesMap)
    ensures
        types == config.types,
{
    config.types
}

} // verus!
