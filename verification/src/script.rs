//! Applying one migration script: every statement in order, then the ledger
//! row, then the commit, all in one transaction; nothing of it is kept when
//! any step fails.
//!
//! The run never touches a store.  It says what to do next and is told
//! whether that worked.

use vstd::prelude::*;
use crate::migrations::{split_statements, statements};
use crate::text::views;

verus! {

/// How far a run has come.
#[derive(Clone, Copy, Debug, PartialEq, Eq, Structural)]
pub enum Phase {
    /// The transaction is to be opened.
    Opening,
    /// The statement at `done` is to be executed.
    Running,
    /// The ledger row is to be inserted.
    Recording,
    /// The transaction is to be committed.
    Committing,
    /// A step failed inside the transaction: it is to be rolled back.
    Undoing,
    /// Committed.
    Applied,
    /// Over without a commit.
    Failed,
}

/// A run: the script's name and statements, the phase, and the number of
/// statements that were executed.
pub struct RunView {
    pub filename: Seq<char>,
    pub statements: Seq<Seq<char>>,
    pub phase: Phase,
    pub done: int,
}

/// What the run asks of the caller.
#[derive(Debug, Clone, PartialEq, Eq)]
pub enum Request {
    /// Open a transaction.
    Begin,
    /// Execute this statement inside the transaction.
    Execute(String),
    /// Insert the ledger row for this file name inside the transaction.
    Record(String),
    /// Commit the transaction.
    Commit,
    /// Roll the transaction back.
    Rollback,
    /// Nothing more: the script is applied.
    Applied,
    /// Nothing more: the script failed and nothing of it was kept.
    Failed,
}

/// A run before its first step.
pub open spec fn fresh(filename: Seq<char>, sql: Seq<char>) -> RunView {
    RunView { filename, statements: statements(sql), phase: Phase::Opening, done: 0 }
}

/// What holds of every state of a run: the count of executed statements
/// fits the phase.
pub open spec fn run_wf(s: RunView) -> bool {
    &&& 0 <= s.done <= s.statements.len()
    &&& s.phase == Phase::Opening ==> s.done == 0
    &&& s.phase == Phase::Running ==> s.done < s.statements.len()
    &&& (s.phase == Phase::Recording || s.phase == Phase::Committing || s.phase == Phase::Applied)
        ==> s.done == s.statements.len()
}

/// The phase that follows once the caller has said whether the step that was
/// asked for worked.
pub open spec fn next_phase(s: RunView, ok: bool) -> Phase {
    match s.phase {
        Phase::Opening => if !ok {
            Phase::Failed
        } else if s.statements.len() > 0 {
            Phase::Running
        } else {
            Phase::Recording
        },
        Phase::Running => if !ok {
            Phase::Undoing
        } else if s.done + 1 < s.statements.len() {
            Phase::Running
        } else {
            Phase::Recording
        },
        Phase::Recording => if ok {
            Phase::Committing
        } else {
            Phase::Undoing
        },
        Phase::Committing => if ok {
            Phase::Applied
        } else {
            Phase::Failed
        },
        Phase::Undoing => Phase::Failed,
        Phase::Applied => Phase::Applied,
        Phase::Failed => Phase::Failed,
    }
}

/// The run once the caller has answered.
pub open spec fn answered(s: RunView, ok: bool) -> RunView {
    RunView {
        filename: s.filename,
        statements: s.statements,
        phase: next_phase(s, ok),
        done: if s.phase == Phase::Running && ok {
            s.done + 1
        } else {
            s.done
        },
    }
}

/// Whether `request` is what a run in state `s` asks for.
pub open spec fn asks(request: Request, s: RunView) -> bool {
    match s.phase {
        Phase::Opening => request == Request::Begin,
        Phase::Running => request matches Request::Execute(text) && 0 <= s.done
            < s.statements.len() && text@ == s.statements[s.done],
        Phase::Recording => request matches Request::Record(name) && name@ == s.filename,
        Phase::Committing => request == Request::Commit,
        Phase::Undoing => request == Request::Rollback,
        Phase::Applied => request == Request::Applied,
        Phase::Failed => request == Request::Failed,
    }
}

/// The run of one script.
pub struct ScriptRun {
    filename: String,
    statements: Vec<String>,
    phase: Phase,
    done: usize,
}

impl ScriptRun {
    /// Where the run stands.
    pub closed spec fn view(&self) -> RunView {
        RunView {
            filename: self.filename@,
            statements: views(self.statements@),
            phase: self.phase,
            done: self.done as int,
        }
    }

    /// The state is one that a run can be in.
    pub open spec fn wf(&self) -> bool {
        run_wf(self@)
    }

    /// A run for the script `filename` with the text `sql`.
    pub fn new(filename: &str, sql: &str) -> (r: ScriptRun)
        ensures
            r.wf(),
            r@ == fresh(filename@, sql@),
    {
        ScriptRun {
            filename: filename.to_owned(),
            statements: split_statements(sql),
            phase: Phase::Opening,
            done: 0,
        }
    }

    /// What to do next.
    pub fn request(&self) -> (r: Request)
        requires
            self.wf(),
        ensures
            asks(r, self@),
    {
        proof {
            assert(views(self.statements@).len() == self.statements@.len());
        }
        match self.phase {
            Phase::Opening => Request::Begin,
            Phase::Running => Request::Execute(self.statements[self.done].clone()),
            Phase::Recording => Request::Record(self.filename.clone()),
            Phase::Committing => Request::Commit,
            Phase::Undoing => Request::Rollback,
            Phase::Applied => Request::Applied,
            Phase::Failed => Request::Failed,
        }
    }

    /// Takes in whether the step that was asked for worked.
    pub fn reply(&mut self, ok: bool)
        requires
            old(self).wf(),
        ensures
            final(self).wf(),
            final(self)@ == answered(old(self)@, ok),
    {
        proof {
            assert(views(self.statements@).len() == self.statements@.len());
            assert(self@.phase == Phase::Running ==> self.done < self.statements.len());
        }
        match self.phase {
            Phase::Opening => {
                if !ok {
                    self.phase = Phase::Failed;
                } else if self.statements.len() > 0 {
                    self.phase = Phase::Running;
                } else {
                    self.phase = Phase::Recording;
                }
            },
            Phase::Running => {
                if !ok {
                    self.phase = Phase::Undoing;
                } else {
                    self.done += 1;
                    if self.done >= self.statements.len() {
                        self.phase = Phase::Recording;
                    }
                }
            },
            Phase::Recording => {
                if ok {
                    self.phase = Phase::Committing;
                } else {
                    self.phase = Phase::Undoing;
                }
            },
            Phase::Committing => {
                if ok {
                    self.phase = Phase::Applied;
                } else {
                    self.phase = Phase::Failed;
                }
            },
            Phase::Undoing => {
                self.phase = Phase::Failed;
            },
            Phase::Applied => {},
            Phase::Failed => {},
        }
    }

    /// The phase of the run.
    pub fn phase(&self) -> (r: Phase)
        ensures
            r == self@.phase,
    {
        self.phase
    }
}

/// The run after `n` steps that all worked.
pub open spec fn after_ok(s: RunView, n: nat) -> RunView
    decreases n,
{
    if n == 0 {
        s
    } else {
        answered(after_ok(s, (n - 1) as nat), true)
    }
}

/// A run that cannot end in a commit any more.
pub open spec fn doomed(s: RunView) -> bool {
    s.phase == Phase::Undoing || s.phase == Phase::Failed
}

/// The run after the answers `replies`, taken in order.
pub open spec fn after_replies(s: RunView, replies: Seq<bool>) -> RunView
    decreases replies.len(),
{
    if replies.len() == 0 {
        s
    } else {
        answered(after_replies(s, replies.drop_last()), replies.last())
    }
}

/// When every step works, the steps come in this order: the transaction is
/// opened, the statements are executed one by one in the order of the
/// script, the ledger row is inserted, the transaction is committed, and
/// the script is applied.
pub proof fn steps_come_in_order(filename: Seq<char>, sql: Seq<char>, n: nat)
    ensures
        ({
            let s = after_ok(fresh(filename, sql), n);
            let count = statements(sql).len();
            &&& run_wf(s)
            &&& n == 0 ==> s.phase == Phase::Opening
            &&& 1 <= n <= count ==> s.phase == Phase::Running && s.done == n - 1
            &&& n == count + 1 ==> s.phase == Phase::Recording
            &&& n == count + 2 ==> s.phase == Phase::Committing
            &&& n >= count + 3 ==> s.phase == Phase::Applied
            &&& s.statements == statements(sql) && s.filename == filename
        }),
    decreases n,
{
    if n > 0 {
        steps_come_in_order(filename, sql, (n - 1) as nat);
    }
}

/// No partial application.  Once a step has failed, whatever the answers
/// that follow, the run never asks for a commit and never ends as applied;
/// a failure inside the transaction is followed by its rollback.
pub proof fn failure_is_final(s: RunView, replies: Seq<bool>)
    requires
        run_wf(s),
        s.phase != Phase::Applied,
    ensures
        doomed(answered(s, false)),
        s.phase == Phase::Running || s.phase == Phase::Recording ==> answered(s, false).phase
            == Phase::Undoing,
        doomed(after_replies(answered(s, false), replies)),
        after_replies(answered(s, false), replies).phase != Phase::Committing,
        after_replies(answered(s, false), replies).phase != Phase::Applied,
    decreases replies.len(),
{
    if replies.len() > 0 {
        failure_is_final(s, replies.drop_last());
    }
}

/// A script is applied only after all of its statements were executed.
pub proof fn applied_means_all_ran(s: RunView, replies: Seq<bool>)
    requires
        run_wf(s),
    ensures
        run_wf(after_replies(s, replies)),
        after_replies(s, replies).phase == Phase::Applied ==> after_replies(s, replies).done
            == s.statements.len(),
        after_replies(s, replies).statements == s.statements,
        after_replies(s, replies).filename == s.filename,
    decreases replies.len(),
{
    if replies.len() > 0 {
        applied_means_all_ran(s, replies.drop_last());
    }
}

} // verus!
