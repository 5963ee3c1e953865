//! A session walks through the steps of one request. It hands out the step
//! that is due, is told whether the step succeeded, and stops at the first
//! failure: nothing is retried and nothing already written is taken back.

use crate::apply::{
    lemma_perform_all_concat, lemma_steps_idempotent, perform_all, plan_steps, schedule, Step,
    Store,
};
use crate::resolver::{RequestError, ThemeRequest};
use vstd::prelude::*;

verus! {

/// Where a session stands.
#[derive(Clone, Copy, Debug, PartialEq, Eq, Structural)]
pub enum Status {
    /// This step is to be carried out next.
    Pending(Step),
    /// Every step succeeded.
    Finished,
    /// This step failed; the steps after it were not attempted.
    Failed(Step),
}

/// The progress of one request through its steps.
pub struct Session {
    steps: Vec<Step>,
    done: usize,
    failed: bool,
}

/// A session as contracts see it.
pub struct SessionView {
    /// All the steps of the request, in order.
    pub schedule: Seq<Step>,
    /// How many of them have succeeded.
    pub completed: nat,
    /// Whether the step after those has failed.
    pub failed: bool,
}

impl SessionView {
    pub open spec fn well_formed(self) -> bool {
        &&& self.completed <= self.schedule.len()
        &&& self.failed ==> self.completed < self.schedule.len()
    }

    pub open spec fn status(self) -> Status {
        if self.completed >= self.schedule.len() {
            Status::Finished
        } else if self.failed {
            Status::Failed(self.schedule[self.completed as int])
        } else {
            Status::Pending(self.schedule[self.completed as int])
        }
    }

    /// The session after the pending step was reported. Without a pending
    /// step a report changes nothing.
    pub open spec fn after(self, succeeded: bool) -> SessionView {
        if !(self.status() is Pending) {
            self
        } else if succeeded {
            SessionView { completed: self.completed + 1, ..self }
        } else {
            SessionView { failed: true, ..self }
        }
    }

    /// The steps that have succeeded so far.
    pub open spec fn carried_out(self) -> Seq<Step> {
        self.schedule.take(self.completed as int)
    }

    /// The stored state that the session has brought about, from `store`.
    pub open spec fn store_from(self, store: Store) -> Store {
        perform_all(store, self.carried_out())
    }
}

impl View for Session {
    type V = SessionView;

    closed spec fn view(&self) -> SessionView {
        SessionView { schedule: self.steps@, completed: self.done as nat, failed: self.failed }
    }
}

impl Session {
    #[verifier::type_invariant]
    spec fn sound(self) -> bool {
        self@.well_formed()
    }

    /// Starts on a request. One that asks for the stylesheet without a
    /// payload is refused here, before any step exists.
    pub fn begin(request: &ThemeRequest) -> (started: Result<Session, RequestError>)
        ensures
            started is Ok <==> request.well_formed(),
            started is Err ==> started->Err_0 == RequestError::StylesheetWithoutPayload,
            started is Ok ==> started->Ok_0@ == (SessionView {
                schedule: schedule(request.plan(), request.payload is Some),
                completed: 0,
                failed: false,
            }),
    {
        match request.validate() {
            Err(error) => Err(error),
            Ok(()) => {
                let plan = request.resolve();
                let steps = plan_steps(&plan, request.payload.is_some());
                Ok(Session { steps, done: 0, failed: false })
            },
        }
    }

    /// Where the session stands: the step to carry out next, or how it ended.
    pub fn status(&self) -> (status: Status)
        ensures
            status == self@.status(),
            self@.well_formed(),
    {
        proof {
            use_type_invariant(self);
        }
        if self.done >= self.steps.len() {
            Status::Finished
        } else if self.failed {
            Status::Failed(self.steps[self.done])
        } else {
            Status::Pending(self.steps[self.done])
        }
    }

    /// Takes note of how the pending step went. After a success the next
    /// step is due; after a failure the session has failed for good.
    pub fn record(&mut self, succeeded: bool)
        ensures
            final(self)@ == old(self)@.after(succeeded),
            final(self)@.well_formed(),
    {
        proof {
            use_type_invariant(&*self);
        }
        if self.done < self.steps.len() && !self.failed {
            if succeeded {
                self.done = self.done + 1;
            } else {
                self.failed = true;
            }
        }
    }
}

/// A session that has finished has carried out its whole schedule.
pub proof fn lemma_finished_session(session: SessionView, store: Store)
    requires
        session.well_formed(),
        session.status() == Status::Finished,
    ensures
        session.carried_out() == session.schedule,
        session.store_from(store) == perform_all(store, session.schedule),
{
    assert(session.schedule.take(session.completed as int) =~= session.schedule);
}

/// A report moves a session forward by at most the one step that was
/// pending: what it had carried out stays carried out, in the same order.
pub proof fn lemma_report_extends(session: SessionView, succeeded: bool)
    requires
        session.well_formed(),
    ensures
        session.after(succeeded).well_formed(),
        session.after(succeeded).schedule == session.schedule,
        session.after(succeeded).carried_out() == if succeeded && session.status() is Pending {
            session.carried_out().push(session.status()->Pending_0)
        } else {
            session.carried_out()
        },
        session.status() is Failed ==> session.after(succeeded) == session,
        session.status() == Status::Finished ==> session.after(succeeded) == session,
{
    if succeeded && session.status() is Pending {
        assert(session.schedule.take((session.completed + 1) as int) =~= session.carried_out().push(
            session.schedule[session.completed as int],
        ));
    }
}

/// Wherever a session stopped, going through the whole schedule again
/// leaves the store as one run without a failure does.
pub proof fn lemma_rerun_completes(session: SessionView, store: Store)
    requires
        session.well_formed(),
    ensures
        perform_all(session.store_from(store), session.schedule) == perform_all(
            store,
            session.schedule,
        ),
{
    let done = session.carried_out();
    let rest = session.schedule.skip(session.completed as int);
    let partial = perform_all(store, done);
    assert(done + rest =~= session.schedule);
    lemma_perform_all_concat(partial, done, rest);
    lemma_steps_idempotent(store, done);
    lemma_perform_all_concat(store, done, rest);
}

} // verus!
