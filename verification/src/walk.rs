//! Traversal policy: how the roots of a database are to be walked, which of
//! the entries found go into the index, and when a walking worker stops.

use crate::config::{Config, Skip};
use crate::layout::{db_file, ignores_fn};
use vstd::prelude::*;

verus! {

/// How many entries may wait between the walking workers and the writer of
/// the index.  A worker that finds the queue full waits.
pub const QUEUE_CAPACITY: usize = 8000;

/// How many workers walk the roots of one database at the same time.
pub const WALK_THREADS: usize = 4;

/// What a traversal is asked to do, in the terms of a gitignore-aware
/// directory walker.
#[derive(Debug)]
pub struct WalkPlan {
    /// The root that the traversal starts from.
    pub seed: String,
    /// Further roots of the same traversal, in order.
    pub more_roots: Vec<String>,
    /// Whether entries whose name starts with a dot are pruned.
    pub skip_hidden: bool,
    /// Whether ignore files of directories above the roots are read.
    pub parents: bool,
    /// Whether symbolic links are followed.
    pub follow_links: bool,
    /// Whether `.ignore` files in the tree are read.
    pub dot_ignore: bool,
    /// Whether the user's global gitignore file is read.
    pub git_global: bool,
    /// Whether `.gitignore` files in the tree are read.
    pub git_ignore: bool,
    /// Whether `.git/info/exclude` files are read.
    pub git_exclude: bool,
    /// The exclusion list of the database, applied to all roots.
    pub ignore_file: String,
    /// The number of workers.
    pub threads: usize,
}

/// The traversal that `config` asks for, for the database `db_name` whose
/// settings live below `config_home`.
pub open spec fn planned(
    plan: WalkPlan,
    config: Config,
    config_home: Seq<char>,
    db_name: Seq<char>,
) -> bool {
    &&& plan.seed@ == config.dirs@[0]@
    &&& plan.more_roots@.len() == config.dirs@.len() - 1
    &&& forall|i: int|
        0 <= i < plan.more_roots@.len() ==> (#[trigger] plan.more_roots@[i])@ == config.dirs@[i
            + 1]@
    &&& plan.skip_hidden == config.ignore_hidden
    &&& !plan.parents
    &&& plan.follow_links == !config.ignore_symlinks
    &&& !plan.dot_ignore
    &&& plan.git_global == config.gitignore
    &&& plan.git_ignore == config.gitignore
    &&& !plan.git_exclude
    &&& plan.ignore_file@ == db_file(config_home, db_name, "ignores"@)
    &&& plan.threads == WALK_THREADS
}

/// Plans the traversal of a database.  The first directory of the settings
/// seeds the walk and the others are further roots of the same walk, so that
/// exclusion rules are shared by all of them.  Of the ignore files only the
/// database's own exclusion list counts, and with `gitignore` set also the
/// `.gitignore` files in the tree and the global excludes.
pub fn walker(config: &Config, config_home: &str, db_name: &str) -> (plan: WalkPlan)
    requires
        config.dirs@.len() > 0,
    ensures
        planned(plan, *config, config_home@, db_name@),
{
    let mut more_roots: Vec<String> = Vec::new();
    let mut i: usize = 1;
    while i < config.dirs.len()
        invariant
            1 <= i <= config.dirs@.len(),
            more_roots@.len() == i - 1,
            forall|k: int|
                0 <= k < more_roots@.len() ==> (#[trigger] more_roots@[k])@ == config.dirs@[k
                    + 1]@,
        decreases config.dirs@.len() - i,
    {
        more_roots.push(config.dirs[i].clone());
        i += 1;
    }
    WalkPlan {
        seed: config.dirs[0].clone(),
        more_roots,
        skip_hidden: config.ignore_hidden,
        parents: false,
        follow_links: !config.ignore_symlinks,
        dot_ignore: false,
        git_global: config.gitignore,
        git_ignore: config.gitignore,
        git_exclude: false,
        ignore_file: ignores_fn(config_home, db_name),
        threads: WALK_THREADS,
    }
}

/// What kind of thing a walked entry is.  A symbolic link that is not
/// followed is a `Symlink`, whatever it points to.
#[derive(Debug, Clone, Copy, PartialEq, Eq, Structural)]
pub enum EntryKind {
    Directory,
    Symlink,
    Other,
}

/// Whether an entry of the given kind goes into the index.  `kind` is `None`
/// where the kind could not be determined; such an entry never goes in.  The
/// skip policy and the symlink policy are applied independently: an entry
/// goes in only if both let it.
pub open spec fn keeps(skip: Skip, ignore_symlinks: bool, kind: Option<EntryKind>) -> bool {
    match kind {
        None => false,
        Some(kind) => {
            &&& skip == Skip::Dirs ==> kind != EntryKind::Directory
            &&& skip == Skip::Files ==> kind == EntryKind::Directory
            &&& ignore_symlinks ==> kind != EntryKind::Symlink
        },
    }
}

/// Whether an entry of the given kind goes into the index.
pub fn admits(skip: Skip, ignore_symlinks: bool, kind: Option<EntryKind>) -> (r: bool)
    ensures
        r == keeps(skip, ignore_symlinks, kind),
{
    match kind {
        None => false,
        Some(kind) => {
            if kind == EntryKind::Directory {
                if skip == Skip::Dirs {
                    return false;
                }
            } else {
                if skip == Skip::Files {
                    return false;
                }
            }
            !(ignore_symlinks && kind == EntryKind::Symlink)
        },
    }
}

/// What a walker hands to a worker: an entry with its kind, where that could
/// be determined, or the news that an entry could not be accessed.
#[derive(Debug, Clone, Copy, PartialEq, Eq, Structural)]
pub enum Found {
    Entry(Option<EntryKind>),
    Failure,
}

/// What a worker does with what it was handed.
#[derive(Debug, Clone, Copy, PartialEq, Eq, Structural)]
pub enum Step {
    /// Put the entry into the queue, then report how that went.
    Enqueue,
    /// Leave the entry out and go on.
    Pass,
    /// Emit a diagnostic for the entry and go on.
    Report,
    /// Walk no further: the reader of the queue is gone.
    Halt,
}

/// What the traversal does after a worker has dealt with an entry.
#[derive(Debug, Clone, Copy, PartialEq, Eq, Structural)]
pub enum WalkState {
    Continue,
    Quit,
}

/// What the traversal does after `step`, where the step itself settles that:
/// it goes on after an entry was left out or reported, and ends for a worker
/// that halts.  After `Enqueue` it depends on how the queue took the entry.
pub open spec fn state_after(step: Step) -> Option<WalkState> {
    match step {
        Step::Enqueue => None,
        Step::Pass => Some(WalkState::Continue),
        Step::Report => Some(WalkState::Continue),
        Step::Halt => Some(WalkState::Quit),
    }
}

/// What the traversal does after `step`, where the step itself settles that.
pub fn next_state(step: Step) -> (next: Option<WalkState>)
    ensures
        next == state_after(step),
{
    match step {
        Step::Enqueue => None,
        Step::Pass => Some(WalkState::Continue),
        Step::Report => Some(WalkState::Continue),
        Step::Halt => Some(WalkState::Quit),
    }
}

/// One walking worker.  It starts out running and stops for good once the
/// queue refused an entry, which happens only when its reader is gone.
#[derive(Debug)]
pub struct Worker {
    skip: Skip,
    ignore_symlinks: bool,
    stopped: bool,
}

impl Worker {
    /// The skip policy that the worker applies.
    pub closed spec fn skip(&self) -> Skip {
        self.skip
    }

    /// Whether the worker leaves symbolic links out.
    pub closed spec fn ignore_symlinks(&self) -> bool {
        self.ignore_symlinks
    }

    /// Whether the worker has seen the queue closed.
    pub closed spec fn stopped(&self) -> bool {
        self.stopped
    }

    /// What the worker does with `found`.
    pub open spec fn step_for(&self, found: Found) -> Step {
        if self.stopped() {
            Step::Halt
        } else {
            match found {
                Found::Failure => Step::Report,
                Found::Entry(kind) => if keeps(self.skip(), self.ignore_symlinks(), kind) {
                    Step::Enqueue
                } else {
                    Step::Pass
                },
            }
        }
    }

    /// A running worker with the policies of `config`.
    pub fn new(config: &Config) -> (w: Worker)
        ensures
            !w.stopped(),
            w.skip() == config.skip,
            w.ignore_symlinks() == config.ignore_symlinks,
    {
        Worker { skip: config.skip, ignore_symlinks: config.ignore_symlinks, stopped: false }
    }

    /// Decides what to do with what the walker found.  A stopped worker
    /// enqueues nothing.
    pub fn visit(&self, found: Found) -> (step: Step)
        ensures
            step == self.step_for(found),
    {
        if self.stopped {
            return Step::Halt;
        }
        match found {
            Found::Failure => Step::Report,
            Found::Entry(kind) => {
                if admits(self.skip, self.ignore_symlinks, kind) {
                    Step::Enqueue
                } else {
                    Step::Pass
                }
            },
        }
    }

    /// Takes note of how putting an entry into the queue went.  The walk goes
    /// on while entries are accepted and ends, for this worker, with the
    /// first one that is not.
    pub fn delivered(&mut self, accepted: bool) -> (next: WalkState)
        ensures
            final(self).stopped() == (old(self).stopped() || !accepted),
            final(self).skip() == old(self).skip(),
            final(self).ignore_symlinks() == old(self).ignore_symlinks(),
            final(self).stopped() ==> next == WalkState::Quit,
            !final(self).stopped() ==> next == WalkState::Continue,
    {
        if !accepted {
            self.stopped = true;
        }
        if self.stopped {
            WalkState::Quit
        } else {
            WalkState::Continue
        }
    }
}

} // verus!
