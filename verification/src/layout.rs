//! Where a database keeps its files.
//!
//! Every database has a directory of its own below the configuration root,
//! holding its settings and its exclusion list, and one below the data root,
//! holding its index.  The configuration root also holds the settings shared
//! by all databases.

use crate::text::ends_of;
use vstd::prelude::*;
use vstd::string::*;

verus! {

/// `base` extended by `part`.  A part that starts with `/` names a place by
/// itself and replaces the base; otherwise the part follows the base, after a
/// `/` where the base is not empty and does not end with one already.
pub open spec fn path_join(base: Seq<char>, part: Seq<char>) -> Seq<char> {
    if part.len() > 0 && part.first() == '/' {
        part
    } else if base.len() == 0 || base.last() == '/' {
        base + part
    } else {
        base.push('/') + part
    }
}

/// The directory named `lolcate` below `root`.
pub open spec fn app_dir(root: Seq<char>) -> Seq<char> {
    path_join(root, "lolcate"@)
}

/// The file `file` of database `db_name` below the application directory of
/// `root`.
pub open spec fn db_file(root: Seq<char>, db_name: Seq<char>, file: Seq<char>) -> Seq<char> {
    path_join(path_join(app_dir(root), db_name), file)
}

/// The two directories of the user below which the databases live.
#[derive(Debug, Clone)]
pub struct Homes {
    /// The directory for settings.
    pub config: String,
    /// The directory for data.
    pub data: String,
}

/// The user's configuration directory, as `dirs::config_dir` finds it.  It
/// depends on the operating system and on the environment, so nothing is
/// claimed of it.  `None` stands for a directory that was not found or whose
/// name is not valid text.
#[verifier::external_body]
fn user_config_dir() -> (r: Option<String>) {
    match dirs::config_dir() {
        Some(dir) => dir.into_os_string().into_string().ok(),
        None => None,
    }
}

/// The user's data directory, as `dirs::data_dir` finds it.  It depends on
/// the operating system and on the environment, so nothing is claimed of it.
/// `None` stands for a directory that was not found or whose name is not
/// valid text.
#[verifier::external_body]
fn user_data_dir() -> (r: Option<String>) {
    match dirs::data_dir() {
        Some(dir) => dir.into_os_string().into_string().ok(),
        None => None,
    }
}

/// The user's directories, where both were found.
pub fn both_homes(config: Option<String>, data: Option<String>) -> (r: Option<Homes>)
    ensures
        r is Some <==> config is Some && data is Some,
        r matches Some(homes) ==> homes.config == config->0 && homes.data == data->0,
{
    match (config, data) {
        (Some(config), Some(data)) => Some(Homes { config, data }),
        _ => None,
    }
}

/// Looks for the user's directories.  Where they are depends on the
/// operating system and on the environment; every other function of this
/// module is told where they are.
pub fn homes() -> (r: Option<Homes>) {
    both_homes(user_config_dir(), user_data_dir())
}

/// `base` extended by `part`.
pub fn join_path(base: &str, part: &str) -> (r: String)
    ensures
        r@ == path_join(base@, part@),
{
    let starts_at_root = match ends_of(part) {
        Some((first, _)) => first == '/',
        None => false,
    };
    if starts_at_root {
        return part.to_owned();
    }
    let needs_separator = match ends_of(base) {
        Some((_, last)) => last != '/',
        None => false,
    };
    let mut path = base.to_owned();
    if needs_separator {
        proof {
            reveal_strlit("/");
            assert("/"@ =~= seq!['/']);
        }
        path.append("/");
        assert(path@ =~= base@.push('/'));
    }
    path.append(part);
    path
}

/// The directory that holds every database's settings, below the user's
/// configuration directory `config_home`.
pub fn lolcate_config_path(config_home: &str) -> (r: String)
    ensures
        r@ == app_dir(config_home@),
{
    join_path(config_home, "lolcate")
}

/// The directory that holds every database's index, below the user's data
/// directory `data_home`.
pub fn lolcate_data_path(data_home: &str) -> (r: String)
    ensures
        r@ == app_dir(data_home@),
{
    join_path(data_home, "lolcate")
}

/// The file with the settings shared by all databases.
pub fn global_config_fn(config_home: &str) -> (r: String)
    ensures
        r@ == path_join(app_dir(config_home@), "config.toml"@),
{
    let dir = lolcate_config_path(config_home);
    join_path(dir.as_str(), "config.toml")
}

/// The file with the settings of database `db_name`.
pub fn config_fn(config_home: &str, db_name: &str) -> (r: String)
    ensures
        r@ == db_file(config_home@, db_name@, "config.toml"@),
{
    let root = lolcate_config_path(config_home);
    let dir = join_path(root.as_str(), db_name);
    join_path(dir.as_str(), "config.toml")
}

/// The file with the index of database `db_name`.
pub fn db_fn(data_home: &str, db_name: &str) -> (r: String)
    ensures
        r@ == db_file(data_home@, db_name@, "db.lz4"@),
{
    let root = lolcate_data_path(data_home);
    let dir = join_path(root.as_str(), db_name);
    join_path(dir.as_str(), "db.lz4")
}

/// The directory that holds the index of database `db_name`.
pub fn db_dir(data_home: &str, db_name: &str) -> (r: String)
    ensures
        r@ == path_join(app_dir(data_home@), db_name@),
{
    let root = lolcate_data_path(data_home);
    join_path(root.as_str(), db_name)
}

/// The directory that holds the settings of database `db_name`.
pub fn config_dir(config_home: &str, db_name: &str) -> (r: String)
    ensures
        r@ == path_join(app_dir(config_home@), db_name@),
{
    let root = lolcate_config_path(config_home);
    join_path(root.as_str(), db_name)
}

/// The file that the index of database `db_name` is written to while it is
/// being built.  It takes the place of the index only once it is complete, so
/// that a build that breaks off leaves the index that was there.
pub fn db_part_fn(data_home: &str, db_name: &str) -> (r: String)
    ensures
        r@ == db_file(data_home@, db_name@, "db.lz4.part"@),
{
    let root = lolcate_data_path(data_home);
    let dir = join_path(root.as_str(), db_name);
    join_path(dir.as_str(), "db.lz4.part")
}

/// The file with the exclusion list of database `db_name`.
pub fn ignores_fn(config_home: &str, db_name: &str) -> (r: String)
    ensures
        r@ == db_file(config_home@, db_name@, "ignores"@),
{
    let root = lolcate_config_path(config_home);
    let dir = join_path(root.as_str(), db_name);
    join_path(dir.as_str(), "ignores")
}

} // verus!
