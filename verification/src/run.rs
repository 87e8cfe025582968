//! Going through several databases in one invocation: one after the other,
//! in the order given, each at most once.

use vstd::prelude::*;

verus! {

/// How the work on one database ended.
#[derive(Debug, Clone, Copy, PartialEq, Eq, Structural)]
pub enum Outcome {
    /// It was done.
    Done,
    /// It failed while reading or writing.
    Failed,
    /// It could not be started: the database is missing or empty, or its
    /// settings or the query are not usable.
    Fatal,
}

/// What a failure on one database means for those after it.
#[derive(Debug, Clone, Copy, PartialEq, Eq, Structural)]
pub enum Policy {
    /// The databases after a failed one are still worked on.
    KeepGoing,
    /// Nothing is worked on after a failure.
    StopAtFailure,
}

/// A run over several databases.
#[derive(Debug)]
pub struct Run {
    names: Vec<String>,
    next: usize,
    failed: bool,
    halted: bool,
    policy: Policy,
}

impl Run {
    #[verifier::type_invariant]
    spec fn well_formed(self) -> bool {
        self.next <= self.names@.len()
    }

    /// The databases of the run, in the order in which they are worked on.
    pub closed spec fn names(self) -> Seq<String> {
        self.names@
    }

    /// How many databases have been worked on.
    pub closed spec fn position(self) -> int {
        self.next as int
    }

    /// Whether the work on one of them did not end well.
    pub closed spec fn failed(self) -> bool {
        self.failed
    }

    /// Whether the run was cut short.
    pub closed spec fn halted(self) -> bool {
        self.halted
    }

    /// What a failure means for the run.
    pub closed spec fn policy(self) -> Policy {
        self.policy
    }

    /// Whether a database is left to work on.
    pub open spec fn pending(self) -> bool {
        !self.halted() && 0 <= self.position() < self.names().len()
    }

    /// Whether an outcome cuts a run with the given policy short.  A fatal
    /// outcome always does; a failure does unless the run keeps going.
    pub open spec fn cuts_short(policy: Policy, outcome: Outcome) -> bool {
        outcome == Outcome::Fatal || (outcome == Outcome::Failed && policy
            == Policy::StopAtFailure)
    }

    fn start(names: Vec<String>, policy: Policy) -> (run: Run)
        ensures
            run.names() == names@,
            run.position() == 0,
            !run.failed(),
            !run.halted(),
            run.policy() == policy,
    {
        Run { names, next: 0, failed: false, halted: false, policy }
    }

    /// The database to work on next, or `None` when the run is over.
    pub fn current(&self) -> (name: Option<&String>)
        ensures
            name is Some <==> self.pending(),
            name matches Some(n) ==> *n == self.names()[self.position()],
    {
        proof {
            use_type_invariant(self);
        }
        if !self.halted && self.next < self.names.len() {
            Some(&self.names[self.next])
        } else {
            None
        }
    }

    /// Takes note of how the work on the current database ended and moves on.
    /// On a run that is over this changes nothing.
    pub fn record(&mut self, outcome: Outcome)
        ensures
            final(self).names() == old(self).names(),
            final(self).policy() == old(self).policy(),
            !old(self).pending() ==> final(self).position() == old(self).position(),
            !old(self).pending() ==> final(self).failed() == old(self).failed(),
            !old(self).pending() ==> final(self).halted() == old(self).halted(),
            old(self).pending() ==> final(self).position() == old(self).position() + 1,
            old(self).pending() ==> final(self).failed() == (old(self).failed() || outcome
                != Outcome::Done),
            old(self).pending() ==> final(self).halted() == Self::cuts_short(
                old(self).policy(),
                outcome,
            ),
    {
        proof {
            use_type_invariant(&*self);
        }
        if self.halted || self.next >= self.names.len() {
            return ;
        }
        let failed = self.failed || outcome != Outcome::Done;
        let halted = outcome == Outcome::Fatal || (outcome == Outcome::Failed && self.policy
            == Policy::StopAtFailure);
        self.next = self.next + 1;
        self.failed = failed;
        self.halted = halted;
    }

    /// Whether the work on every database so far ended well.
    pub fn succeeded(&self) -> (r: bool)
        ensures
            r == !self.failed(),
    {
        !self.failed
    }
}

/// Starts an update of `databases`.  They are rebuilt one after the other in
/// the order given.  A rebuild that fails while reading or writing does not
/// keep the databases after it from being rebuilt; one that cannot be
/// started ends the run.
pub fn update_databases(databases: Vec<String>) -> (run: Run)
    ensures
        run.names() == databases@,
        run.position() == 0,
        !run.failed(),
        !run.halted(),
        run.policy() == Policy::KeepGoing,
{
    Run::start(databases, Policy::KeepGoing)
}

/// Starts a query of `databases`.  They are queried one after the other in
/// the order given, and the first that fails ends the run.
pub fn lookup_databases(databases: Vec<String>) -> (run: Run)
    ensures
        run.names() == databases@,
        run.position() == 0,
        !run.failed(),
        !run.halted(),
        run.policy() == Policy::StopAtFailure,
{
    Run::start(databases, Policy::StopAtFailure)
}

} // verus!
