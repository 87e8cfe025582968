//! Building an index: checking the settings of a database and turning what a
//! traversal found into the lines of its index.

use crate::config::{Config, Skip};
use crate::index::{decode, encode, index_line, lemma_lines_of_index, line_of};
use crate::text::texts;
use crate::walk::{keeps, EntryKind, Found, Step, Worker};
use vstd::prelude::*;
use vstd::string::*;

verus! {

/// Why an index was not built.
#[derive(Debug, Clone, PartialEq, Eq)]
pub enum BuildError {
    /// The database has no settings file.
    ConfigNotFound,
    /// The settings name no directory to scan.
    NoDirs,
    /// The named directory of the settings does not exist.
    MissingDir(String),
    /// The named path of the settings is no directory, or cannot be accessed.
    NotADirectory(String),
}

/// The one-line diagnostic for `error`, met while updating database
/// `db_name` whose settings are in the file `config_file`.
pub open spec fn build_diagnostic(
    error: BuildError,
    db_name: Seq<char>,
    config_file: Seq<char>,
) -> Seq<char> {
    match error {
        BuildError::ConfigNotFound => "Config file not found for database "@ + db_name
            + ". Perhaps you forgot to run lolcate --create "@ + db_name + " ?"@,
        BuildError::NoDirs => "Please edit file "@ + config_file
            + " and add at least a directory to scan."@,
        BuildError::MissingDir(path) => "The specified dir "@ + path@ + " doesn't exist."@,
        BuildError::NotADirectory(path) => "The specified path "@ + path@
            + " is not a directory or cannot be accessed."@,
    }
}

impl BuildError {
    /// The one-line diagnostic for this error, met while updating database
    /// `db_name` whose settings are in the file `config_file`.
    pub fn message(&self, db_name: &str, config_file: &str) -> (text: String)
        ensures
            text@ == build_diagnostic(*self, db_name@, config_file@),
    {
        match self {
            BuildError::ConfigNotFound => {
                let mut text = "Config file not found for database ".to_owned();
                text.append(db_name);
                text.append(". Perhaps you forgot to run lolcate --create ");
                text.append(db_name);
                text.append(" ?");
                text
            },
            BuildError::NoDirs => {
                let mut text = "Please edit file ".to_owned();
                text.append(config_file);
                text.append(" and add at least a directory to scan.");
                text
            },
            BuildError::MissingDir(path) => {
                let mut text = "The specified dir ".to_owned();
                text.append(path.as_str());
                text.append(" doesn't exist.");
                text
            },
            BuildError::NotADirectory(path) => {
                let mut text = "The specified path ".to_owned();
                text.append(path.as_str());
                text.append(" is not a directory or cannot be accessed.");
                text
            },
        }
    }
}

/// What was found at the place that a configured directory names.
#[derive(Debug, Clone, Copy, PartialEq, Eq, Structural)]
pub enum DirStatus {
    Missing,
    NotDirectory,
    Directory,
}

/// The status of the `i`-th configured directory.  A directory that was not
/// looked at counts as missing.
pub open spec fn status_of(probed: Seq<DirStatus>, i: int) -> DirStatus {
    if 0 <= i < probed.len() {
        probed[i]
    } else {
        DirStatus::Missing
    }
}

/// Whether each of the first `n` configured directories is a directory.
pub open spec fn usable_upto(probed: Seq<DirStatus>, n: int) -> bool {
    forall|k: int| 0 <= k < n ==> status_of(probed, k) == DirStatus::Directory
}

/// Whether a database whose settings file was looked for can be updated: it
/// can exactly when the file is there.
pub fn require_config(found: bool) -> (r: Result<(), BuildError>)
    ensures
        r is Ok <==> found,
        r is Err ==> r == Err::<(), BuildError>(BuildError::ConfigNotFound),
{
    if found {
        Ok(())
    } else {
        Err(BuildError::ConfigNotFound)
    }
}

/// Checks the settings of a database before anything is walked.  `probed`
/// holds, for each directory of the settings and in their order, what was
/// found there.  The settings pass exactly when they name at least one
/// directory and each one is a directory.  Otherwise the error names the
/// first directory that is not.
pub fn check_db_config(config: &Config, probed: &Vec<DirStatus>) -> (r: Result<(), BuildError>)
    ensures
        r is Ok <==> config.dirs@.len() > 0 && usable_upto(probed@, config.dirs@.len() as int),
        r == Err::<(), BuildError>(BuildError::NoDirs) <==> config.dirs@.len() == 0,
        r matches Err(BuildError::MissingDir(path)) ==> exists|i: int|
            0 <= i < config.dirs@.len() && usable_upto(probed@, i) && status_of(probed@, i)
                == DirStatus::Missing && path@ == (#[trigger] config.dirs@[i])@,
        r matches Err(BuildError::NotADirectory(path)) ==> exists|i: int|
            0 <= i < config.dirs@.len() && usable_upto(probed@, i) && status_of(probed@, i)
                == DirStatus::NotDirectory && path@ == (#[trigger] config.dirs@[i])@,
        !(r matches Err(BuildError::ConfigNotFound)),
{
    if config.dirs.len() == 0 {
        return Err(BuildError::NoDirs);
    }
    let mut i: usize = 0;
    while i < config.dirs.len()
        invariant
            0 <= i <= config.dirs@.len(),
            usable_upto(probed@, i as int),
        decreases config.dirs@.len() - i,
    {
        let status = if i < probed.len() {
            probed[i]
        } else {
            DirStatus::Missing
        };
        assert(status == status_of(probed@, i as int));
        match status {
            DirStatus::Missing => {
                return Err(BuildError::MissingDir(config.dirs[i].clone()));
            },
            DirStatus::NotDirectory => {
                return Err(BuildError::NotADirectory(config.dirs[i].clone()));
            },
            DirStatus::Directory => {},
        }
        i += 1;
    }
    Ok(())
}

/// The path of an entry.
#[derive(Debug, Clone)]
pub enum EntryPath {
    /// The path, where it is valid text.
    Text(String),
    /// A rendering that can be shown of a path that is not valid text.
    Garbled(String),
}

/// What a traversal reports, one at a time.
#[derive(Debug, Clone)]
pub enum WalkEvent {
    /// An entry was found.  `kind` is `None` where the kind of the entry
    /// could not be determined.
    Entry { path: EntryPath, kind: Option<EntryKind> },
    /// An entry could not be accessed; `reason` says why.
    Failure { reason: String },
}

/// What a walking worker is handed for `event`.
pub open spec fn found_of(event: WalkEvent) -> Found {
    match event {
        WalkEvent::Entry { kind, .. } => Found::Entry(kind),
        WalkEvent::Failure { .. } => Found::Failure,
    }
}

impl WalkEvent {
    /// What a walking worker is handed for this event.
    pub fn found(&self) -> (r: Found)
        ensures
            r == found_of(*self),
    {
        match self {
            WalkEvent::Entry { kind, .. } => Found::Entry(*kind),
            WalkEvent::Failure { .. } => Found::Failure,
        }
    }
}

/// The path that `event` adds to the index of a database with settings
/// `config`, if it adds one: the path of an entry that the policies let in,
/// where that path is valid text.
pub open spec fn indexed(config: Config, event: WalkEvent) -> Option<Seq<char>> {
    match event {
        WalkEvent::Entry { path: EntryPath::Text(text), kind } => if keeps(
            config.skip,
            config.ignore_symlinks,
            kind,
        ) {
            Some(text@)
        } else {
            None
        },
        _ => None,
    }
}

/// The diagnostic for an entry that could not be accessed.
pub open spec fn access_failure(reason: Seq<char>) -> Seq<char> {
    "failed to access entry ("@ + reason + ")"@
}

/// The diagnostic for an entry whose path is not valid text.
pub open spec fn garbled_name(shown: Seq<char>) -> Seq<char> {
    "File name contains invalid unicode: "@ + shown
}

/// The diagnostic that `event` gives rise to, if any.  An entry that the
/// policies leave out goes without one, whatever its path.
pub open spec fn diagnostic(config: Config, event: WalkEvent) -> Option<Seq<char>> {
    match event {
        WalkEvent::Failure { reason } => Some(access_failure(reason@)),
        WalkEvent::Entry { path: EntryPath::Garbled(shown), kind } => if keeps(
            config.skip,
            config.ignore_symlinks,
            kind,
        ) {
            Some(garbled_name(shown@))
        } else {
            None
        },
        _ => None,
    }
}

/// The paths that the events add to the index, in the order of the events.
pub open spec fn indexed_paths(config: Config, events: Seq<WalkEvent>) -> Seq<Seq<char>>
    decreases events.len(),
{
    if events.len() == 0 {
        Seq::empty()
    } else {
        let before = indexed_paths(config, events.drop_last());
        match indexed(config, events.last()) {
            Some(path) => before.push(path),
            None => before,
        }
    }
}

/// The diagnostics that the events give rise to, in the order of the events.
pub open spec fn diagnostics(config: Config, events: Seq<WalkEvent>) -> Seq<Seq<char>>
    decreases events.len(),
{
    if events.len() == 0 {
        Seq::empty()
    } else {
        let before = diagnostics(config, events.drop_last());
        match diagnostic(config, events.last()) {
            Some(text) => before.push(text),
            None => before,
        }
    }
}

/// The kind of the entry that `event` reports, where it reports one and its
/// kind is known.
pub open spec fn kind_of(event: WalkEvent) -> Option<EntryKind> {
    match event {
        WalkEvent::Entry { kind, .. } => kind,
        WalkEvent::Failure { .. } => None,
    }
}

/// Every path of the index was added by one of the events.
pub proof fn lemma_indexed_source(config: Config, events: Seq<WalkEvent>, i: int) -> (j: int)
    requires
        0 <= i < indexed_paths(config, events).len(),
    ensures
        0 <= j < events.len(),
        indexed(config, events[j]) == Some(indexed_paths(config, events)[i]),
    decreases events.len(),
{
    let front = events.drop_last();
    let before = indexed_paths(config, front);
    if i < before.len() {
        let j = lemma_indexed_source(config, front, i);
        assert(front[j] == events[j]);
        j
    } else {
        events.len() - 1
    }
}

/// Every path that an event adds is in the index.
pub proof fn lemma_source_indexed(config: Config, events: Seq<WalkEvent>, j: int)
    requires
        0 <= j < events.len(),
        indexed(config, events[j]) is Some,
    ensures
        indexed_paths(config, events).contains(indexed(config, events[j])->0),
    decreases events.len(),
{
    let front = events.drop_last();
    let before = indexed_paths(config, front);
    let all = indexed_paths(config, events);
    if j < events.len() - 1 {
        assert(front[j] == events[j]);
        lemma_source_indexed(config, front, j);
        let k = choose|k: int| 0 <= k < before.len() && before[k] == indexed(config, events[j])->0;
        assert(all[k] == before[k]);
    } else {
        assert(all[all.len() - 1] == indexed(config, events[j])->0);
    }
}

/// Whether `event` reports an entry whose path is valid text.
pub open spec fn has_text_path(event: WalkEvent) -> bool {
    event matches WalkEvent::Entry { path: EntryPath::Text(_), .. }
}

/// Whether `event` reports an entry whose path is not valid text.
pub open spec fn has_garbled_path(event: WalkEvent) -> bool {
    event matches WalkEvent::Entry { path: EntryPath::Garbled(_), .. }
}

/// The index holds what running workers put into the queue: an event adds a
/// path exactly when a worker with the policies of the settings enqueues its
/// entry and the path of the entry is valid text, and it gives rise to a
/// diagnostic exactly when the worker reports it or enqueues an entry whose
/// path is not valid text.
pub proof fn lemma_index_holds_what_workers_enqueue(
    config: Config,
    worker: Worker,
    event: WalkEvent,
)
    requires
        !worker.stopped(),
        worker.skip() == config.skip,
        worker.ignore_symlinks() == config.ignore_symlinks,
    ensures
        indexed(config, event) is Some <==> worker.step_for(found_of(event)) == Step::Enqueue
            && has_text_path(event),
        diagnostic(config, event) is Some <==> worker.step_for(found_of(event)) == Step::Report
            || (worker.step_for(found_of(event)) == Step::Enqueue && has_garbled_path(event)),
{
}

/// Skip policy: every path of an index stems from an entry that the skip
/// policy lets in.  With `Dirs` skipped that entry is no directory; with
/// `Files` skipped it is one.
pub proof fn lemma_skip_policy(config: Config, events: Seq<WalkEvent>, i: int)
    requires
        0 <= i < indexed_paths(config, events).len(),
    ensures
        exists|j: int|
            0 <= j < events.len() && indexed(config, #[trigger] events[j]) == Some(
                indexed_paths(config, events)[i],
            ) && kind_of(events[j]) is Some && (config.skip == Skip::Dirs ==> kind_of(events[j])
                != Some(EntryKind::Directory)) && (config.skip == Skip::Files ==> kind_of(
                events[j],
            ) == Some(EntryKind::Directory)),
{
    let j = lemma_indexed_source(config, events, i);
    assert(indexed(config, events[j]) is Some);
}

/// Symlink policy: every path of an index stems from an entry that the
/// symlink policy lets in.  With symbolic links ignored that entry is none.
pub proof fn lemma_symlink_policy(config: Config, events: Seq<WalkEvent>, i: int)
    requires
        0 <= i < indexed_paths(config, events).len(),
    ensures
        exists|j: int|
            0 <= j < events.len() && indexed(config, #[trigger] events[j]) == Some(
                indexed_paths(config, events)[i],
            ) && kind_of(events[j]) is Some && (config.ignore_symlinks ==> kind_of(events[j])
                != Some(EntryKind::Symlink)),
{
    let j = lemma_indexed_source(config, events, i);
    assert(indexed(config, events[j]) is Some);
}

/// Whether two events report the same thing: the same path for an entry of
/// the same kind, or a failure for the same reason.
pub open spec fn same_report(x: WalkEvent, y: WalkEvent) -> bool {
    match (x, y) {
        (
            WalkEvent::Entry { path: EntryPath::Text(p), kind: k },
            WalkEvent::Entry { path: EntryPath::Text(q), kind: l },
        ) => p@ == q@ && k == l,
        (
            WalkEvent::Entry { path: EntryPath::Garbled(p), kind: k },
            WalkEvent::Entry { path: EntryPath::Garbled(q), kind: l },
        ) => p@ == q@ && k == l,
        (WalkEvent::Failure { reason: p }, WalkEvent::Failure { reason: q }) => p@ == q@,
        _ => false,
    }
}

/// Whether everything that `a` reports is reported by `b` too.
pub open spec fn reported_by(a: Seq<WalkEvent>, b: Seq<WalkEvent>) -> bool {
    forall|j: int|
        0 <= j < a.len() ==> exists|k: int|
            0 <= k < b.len() && same_report(#[trigger] a[j], #[trigger] b[k])
}

/// Whatever is a line of the index built from `a` is a line of the index
/// built from `b`, where `b` reports everything that `a` reports.
proof fn lemma_lines_carry_over(
    config: Config,
    a: Seq<WalkEvent>,
    b: Seq<WalkEvent>,
    line: Seq<char>,
)
    requires
        reported_by(a, b),
        decode(encode(indexed_paths(config, a))).contains(line),
    ensures
        decode(encode(indexed_paths(config, b))).contains(line),
{
    let from_a = indexed_paths(config, a);
    let from_b = indexed_paths(config, b);
    lemma_lines_of_index(from_a, line);
    let i = choose|i: int|
        0 <= i < from_a.len() && decode(line_of(#[trigger] from_a[i])).contains(line);
    let j = lemma_indexed_source(config, a, i);
    let k = choose|k: int| 0 <= k < b.len() && same_report(a[j], #[trigger] b[k]);
    assert(indexed(config, b[k]) == indexed(config, a[j]));
    lemma_source_indexed(config, b, k);
    let m = choose|m: int| 0 <= m < from_b.len() && from_b[m] == from_a[i];
    assert(decode(line_of(from_b[m])).contains(line));
    lemma_lines_of_index(from_b, line);
}

/// Idempotent rebuild: two traversals that report the same things, in
/// whatever order, give indexes with the same set of lines.
pub proof fn lemma_rebuild_same_lines(config: Config, a: Seq<WalkEvent>, b: Seq<WalkEvent>)
    requires
        reported_by(a, b),
        reported_by(b, a),
    ensures
        decode(encode(indexed_paths(config, a))).to_set() == decode(
            encode(indexed_paths(config, b)),
        ).to_set(),
{
    let lines_a = decode(encode(indexed_paths(config, a)));
    let lines_b = decode(encode(indexed_paths(config, b)));
    assert forall|line: Seq<char>| lines_a.to_set().contains(line) <==> lines_b.to_set().contains(
        line,
    ) by {
        if lines_a.contains(line) {
            lemma_lines_carry_over(config, a, b, line);
        }
        if lines_b.contains(line) {
            lemma_lines_carry_over(config, b, a, line);
        }
    }
    assert(lines_a.to_set() =~= lines_b.to_set());
}

/// The diagnostic for an entry that could not be accessed.
pub fn access_failure_message(reason: &str) -> (r: String)
    ensures
        r@ == access_failure(reason@),
{
    let mut text = "failed to access entry (".to_owned();
    text.append(reason);
    text.append(")");
    text
}

/// The diagnostic for an entry whose path is not valid text.
pub fn garbled_name_message(shown: &str) -> (r: String)
    ensures
        r@ == garbled_name(shown@),
{
    let mut text = "File name contains invalid unicode: ".to_owned();
    text.append(shown);
    text
}

/// What the writer of an index makes of an entry that it takes from the
/// queue.
#[derive(Debug, Clone, PartialEq, Eq)]
pub enum Written {
    /// A line of the index.
    Line(String),
    /// A diagnostic, and nothing in the index.
    Diagnostic(String),
}

/// What the writer of an index makes of an entry with the given path: a path
/// that is valid text becomes a line, any other path a diagnostic.
pub fn write_entry(path: &EntryPath) -> (r: Written)
    ensures
        path matches EntryPath::Text(text) ==> r matches Written::Line(line) && line@ == line_of(
            text@,
        ),
        path matches EntryPath::Garbled(shown) ==> r matches Written::Diagnostic(said) && said@
            == garbled_name(shown@),
{
    match path {
        EntryPath::Text(text) => Written::Line(index_line(text.as_str())),
        EntryPath::Garbled(shown) => Written::Diagnostic(garbled_name_message(shown.as_str())),
    }
}

/// An index and what there was to say while it was built.
#[derive(Debug)]
pub struct Built {
    /// The text of the index.
    pub index: String,
    /// The diagnostics, in the order in which they arose.
    pub diagnostics: Vec<String>,
}

/// Builds the index of a database from what a traversal of its roots
/// reported, as one worker does whose queue is never closed.  Every entry
/// that the skip policy and the symlink policy let in gets one line, in the
/// order reported; nothing is sorted and nothing is left out for being there
/// twice.  An entry that could not be accessed, or whose path is not valid
/// text, costs a diagnostic and nothing else.
pub fn update_database(config: &Config, events: &Vec<WalkEvent>) -> (built: Built)
    ensures
        built.index@ == encode(indexed_paths(*config, events@)),
        texts(built.diagnostics@) == diagnostics(*config, events@),
{
    let worker = Worker::new(config);
    let mut index = String::new();
    let mut said: Vec<String> = Vec::new();
    let mut i: usize = 0;
    while i < events.len()
        invariant
            0 <= i <= events@.len(),
            !worker.stopped(),
            worker.skip() == config.skip,
            worker.ignore_symlinks() == config.ignore_symlinks,
            index@ == encode(indexed_paths(*config, events@.take(i as int))),
            texts(said@) == diagnostics(*config, events@.take(i as int)),
        decreases events@.len() - i,
    {
        let ghost had = texts(said@);
        let ghost paths = indexed_paths(*config, events@.take(i as int));
        proof {
            let upto = events@.take(i + 1);
            assert(upto.drop_last() =~= events@.take(i as int));
            assert(upto.last() == events@[i as int]);
        }
        match (worker.visit(events[i].found()), &events[i]) {
            (Step::Report, WalkEvent::Failure { reason }) => {
                said.push(access_failure_message(reason.as_str()));
                proof {
                    assert(texts(said@) =~= had.push(access_failure(reason@)));
                }
            },
            (Step::Enqueue, WalkEvent::Entry { path, .. }) => match write_entry(path) {
                Written::Line(line) => {
                    index.append(line.as_str());
                    proof {
                        let text = path->Text_0@;
                        assert(paths.push(text).drop_last() =~= paths);
                        assert(index@ =~= encode(paths) + line_of(text));
                    }
                },
                Written::Diagnostic(text) => {
                    said.push(text);
                    proof {
                        assert(texts(said@) =~= had.push(garbled_name(path->Garbled_0@)));
                    }
                },
            },
            _ => {},
        }
        i += 1;
    }
    proof {
        assert(events@.take(events@.len() as int) =~= events@);
    }
    Built { index, diagnostics: said }
}

/// What a listing of the configuration directory found: a name, where it is
/// valid text, and whether the entry is a directory.
#[derive(Debug, Clone)]
pub struct Listed {
    pub name: Option<String>,
    pub is_dir: bool,
}

/// The database name that a listed entry stands for, if it stands for one:
/// every directory whose name is valid text is a database.
pub open spec fn named(entry: Listed) -> Option<Seq<char>> {
    match entry.name {
        Some(name) => if entry.is_dir {
            Some(name@)
        } else {
            None
        },
        None => None,
    }
}

/// The names of the databases among the listed entries, in order.
pub open spec fn names_of(entries: Seq<Listed>) -> Seq<Seq<char>>
    decreases entries.len(),
{
    if entries.len() == 0 {
        Seq::empty()
    } else {
        let before = names_of(entries.drop_last());
        match named(entries.last()) {
            Some(name) => before.push(name),
            None => before,
        }
    }
}

/// The names of the databases among the entries listed below the
/// configuration directory, in the order listed.
pub fn database_names(entries: &Vec<Listed>) -> (names: Vec<String>)
    ensures
        texts(names@) == names_of(entries@),
{
    let mut names: Vec<String> = Vec::new();
    let mut i: usize = 0;
    while i < entries.len()
        invariant
            0 <= i <= entries@.len(),
            texts(names@) == names_of(entries@.take(i as int)),
        decreases entries@.len() - i,
    {
        let ghost had = texts(names@);
        proof {
            let upto = entries@.take(i + 1);
            assert(upto.drop_last() =~= entries@.take(i as int));
            assert(upto.last() == entries@[i as int]);
        }
        if entries[i].is_dir {
            match &entries[i].name {
                Some(name) => {
                    names.push(name.clone());
                    proof {
                        assert(texts(names@) =~= had.push(name@));
                    }
                },
                None => {},
            }
        }
        i += 1;
    }
    proof {
        assert(entries@.take(entries@.len() as int) =~= entries@);
    }
    names
}

} // verus!
