//! Sessions: performing a device program step by step.
use vstd::prelude::*;

use crate::float_bits::Float32;
use crate::program::{Expect, Step, Task};
#[allow(unused_imports)]
use crate::program::{StepView, TaskView};

verus! {

/// What performing a step brought.
#[derive(Debug, Clone, Copy, PartialEq, Eq, Structural)]
pub enum Event {
    Done,
    Failed,
    Float(Float32),
    Word(u32),
}

/// How a session stands: on its way or through, stopped because the device
/// failed, or stopped because a step brought something else than expected.
#[derive(Debug, Clone, Copy, PartialEq, Eq, Structural)]
pub enum Outcome {
    Accepted,
    Failed,
    Mismatch,
}

/// How an event answers an expectation.
pub open spec fn outcome_of(expect: Expect, event: Event) -> Outcome {
    if event is Failed {
        Outcome::Failed
    } else {
        match expect {
            Expect::Success => Outcome::Accepted,
            Expect::FloatIs(wanted) => match event {
                Event::Float(got) => if got.equals(wanted) {
                    Outcome::Accepted
                } else {
                    Outcome::Mismatch
                },
                _ => Outcome::Mismatch,
            },
            Expect::WordIs(wanted) => match event {
                Event::Word(got) => if got == wanted {
                    Outcome::Accepted
                } else {
                    Outcome::Mismatch
                },
                _ => Outcome::Mismatch,
            },
        }
    }
}

/// Holds an event against an expectation.
pub fn judge(expect: Expect, event: Event) -> (outcome: Outcome)
    ensures
        outcome == outcome_of(expect, event),
{
    match event {
        Event::Failed => Outcome::Failed,
        _ => {
            let accepted: bool = match expect {
                Expect::Success => true,
                Expect::FloatIs(wanted) => match event {
                    Event::Float(got) => got.same_value(wanted),
                    _ => false,
                },
                Expect::WordIs(wanted) => match event {
                    Event::Word(got) => got == wanted,
                    _ => false,
                },
            };
            if accepted {
                Outcome::Accepted
            } else {
                Outcome::Mismatch
            }
        },
    }
}

/// A program on its way: how many tasks are done, whether one of them ended
/// the program, and how many of the steps that are left in that case are done.
pub struct SessionView {
    pub tasks: Seq<TaskView>,
    pub done: nat,
    pub outcome: Outcome,
    pub undone: nat,
}

impl SessionView {
    /// The steps that are left after the program ended at a task.
    pub open spec fn leftovers(self) -> Seq<StepView> {
        match self.outcome {
            Outcome::Accepted => seq![],
            Outcome::Failed => self.tasks[self.done as int].on_failure,
            Outcome::Mismatch => self.tasks[self.done as int].on_mismatch,
        }
    }

    pub open spec fn wf(self) -> bool {
        if self.outcome is Accepted {
            self.done <= self.tasks.len()
        } else {
            self.done < self.tasks.len() && self.undone <= self.leftovers().len()
        }
    }

    /// The step to perform next, if there is one.
    pub open spec fn current(self) -> Option<StepView> {
        if self.outcome is Accepted {
            if self.done < self.tasks.len() {
                Some(self.tasks[self.done as int].step)
            } else {
                None
            }
        } else if self.undone < self.leftovers().len() {
            Some(self.leftovers()[self.undone as int])
        } else {
            None
        }
    }

    /// The session after its current step brought an event.
    pub open spec fn after(self, event: Event) -> SessionView {
        if self.current() is None {
            self
        } else if self.outcome is Accepted {
            match outcome_of(self.tasks[self.done as int].expect, event) {
                Outcome::Accepted => SessionView { done: self.done + 1, ..self },
                ended => SessionView { outcome: ended, undone: 0, ..self },
            }
        } else {
            SessionView { undone: self.undone + 1, ..self }
        }
    }

    /// The steps that are performed while these events come.
    pub open spec fn performed(self, events: Seq<Event>) -> Seq<StepView>
        decreases events.len(),
    {
        if events.len() == 0 || self.current() is None {
            seq![]
        } else {
            seq![self.current()->0] + self.after(events[0]).performed(events.skip(1))
        }
    }

    /// The session after these events.
    pub open spec fn after_all(self, events: Seq<Event>) -> SessionView
        decreases events.len(),
    {
        if events.len() == 0 {
            self
        } else {
            self.after(events[0]).after_all(events.skip(1))
        }
    }
}

/// A session that has not begun.
pub open spec fn fresh(tasks: Seq<TaskView>) -> SessionView {
    SessionView { tasks, done: 0, outcome: Outcome::Accepted, undone: 0 }
}

/// The steps of tasks.
pub open spec fn steps_of(tasks: Seq<TaskView>) -> Seq<StepView> {
    tasks.map_values(|task: TaskView| task.step)
}

/// Where every step brings what is expected, all steps of the program are
/// performed, each once and in order, and the session ends accepted.
pub proof fn law_accepted_programs_run_through(tasks: Seq<TaskView>, events: Seq<Event>)
    requires
        events.len() == tasks.len(),
        forall|i: int|
            0 <= i < tasks.len() ==> outcome_of(
                (#[trigger] tasks[i]).expect,
                events[i],
            ) is Accepted,
    ensures
        fresh(tasks).performed(events) == steps_of(tasks),
        fresh(tasks).after_all(events) == (SessionView { done: tasks.len(), ..fresh(tasks) }),
        fresh(tasks).after_all(events).current() is None,
{
    lemma_accepted_stretch(fresh(tasks), events);
    assert(steps_of(tasks).skip(0) =~= steps_of(tasks));
}

proof fn lemma_accepted_stretch(session: SessionView, events: Seq<Event>)
    requires
        session.outcome is Accepted,
        session.done + events.len() <= session.tasks.len(),
        forall|i: int|
            0 <= i < events.len() ==> outcome_of(
                session.tasks[session.done + i].expect,
                #[trigger] events[i],
            ) is Accepted,
    ensures
        session.performed(events) =~= steps_of(session.tasks).subrange(
            session.done as int,
            (session.done + events.len()) as int,
        ),
        session.after_all(events) == (SessionView {
            done: (session.done + events.len()) as nat,
            ..session
        }),
    decreases events.len(),
{
    if events.len() > 0 {
        assert(outcome_of(session.tasks[session.done + 0int].expect, events[0]) is Accepted);
        let next = session.after(events[0]);
        assert forall|i: int| 0 <= i < events.skip(1).len() implies outcome_of(
            next.tasks[next.done + i].expect,
            #[trigger] events.skip(1)[i],
        ) is Accepted by {
            assert(events.skip(1)[i] == events[i + 1]);
            assert(outcome_of(session.tasks[session.done + (i + 1)].expect, events[i + 1]) is Accepted);
        }
        lemma_accepted_stretch(next, events.skip(1));
    }
}

proof fn lemma_undoing_stretch(session: SessionView, events: Seq<Event>)
    requires
        !(session.outcome is Accepted),
        session.undone + events.len() <= session.leftovers().len(),
    ensures
        session.performed(events) =~= session.leftovers().subrange(
            session.undone as int,
            (session.undone + events.len()) as int,
        ),
        session.after_all(events) == (SessionView {
            undone: (session.undone + events.len()) as nat,
            ..session
        }),
    decreases events.len(),
{
    if events.len() > 0 {
        lemma_undoing_stretch(session.after(events[0]), events.skip(1));
    }
}

proof fn lemma_performed_parts(session: SessionView, first: Seq<Event>, second: Seq<Event>)
    requires
        session.performed(first).len() == first.len(),
    ensures
        session.performed(first + second) =~= session.performed(first) + session.after_all(
            first,
        ).performed(second),
        session.after_all(first + second) == session.after_all(first).after_all(second),
    decreases first.len(),
{
    if first.len() == 0 {
        assert(first + second =~= second);
    } else {
        assert((first + second)[0] == first[0]);
        assert((first + second).skip(1) =~= first.skip(1) + second);
        lemma_performed_parts(session.after(first[0]), first.skip(1), second);
    }
}

/// Where a step brings something else than expected, the steps before it and
/// the step itself have been performed, what is left at that task for this
/// outcome is performed after it, and nothing else.
pub proof fn law_stopped_programs_clean_up(
    tasks: Seq<TaskView>,
    stop: int,
    events: Seq<Event>,
    ended: Outcome,
)
    requires
        0 <= stop < tasks.len(),
        forall|i: int|
            0 <= i < stop ==> outcome_of((#[trigger] tasks[i]).expect, events[i]) is Accepted,
        stop < events.len(),
        ended == outcome_of(tasks[stop].expect, events[stop]),
        !(ended is Accepted),
        events.len() == stop + 1 + (if ended is Failed {
            tasks[stop].on_failure.len()
        } else {
            tasks[stop].on_mismatch.len()
        }),
    ensures
        fresh(tasks).performed(events) == steps_of(tasks).take(stop + 1) + (if ended is Failed {
            tasks[stop].on_failure
        } else {
            tasks[stop].on_mismatch
        }),
        fresh(tasks).after_all(events).outcome == ended,
        fresh(tasks).after_all(events).done == stop,
        fresh(tasks).after_all(events).current() is None,
{
    let start = fresh(tasks);
    let before = events.take(stop);
    let rest = events.skip(stop);
    assert(events =~= before + rest);
    assert forall|i: int| 0 <= i < before.len() implies outcome_of(
        start.tasks[start.done + i].expect,
        #[trigger] before[i],
    ) is Accepted by {
        assert(before[i] == events[i]);
        assert(outcome_of(tasks[i].expect, events[i]) is Accepted);
    }
    lemma_accepted_stretch(start, before);
    lemma_performed_parts(start, before, rest);
    let at_stop = start.after_all(before);
    assert(rest[0] == events[stop]);
    let stopped = at_stop.after(rest[0]);
    lemma_undoing_stretch(stopped, rest.skip(1));
    assert(stopped.performed(rest.skip(1)) =~= stopped.leftovers());
    assert(fresh(tasks).performed(events) =~= steps_of(tasks).take(stop + 1)
        + stopped.leftovers());
}

/// A program on its way.
pub struct Session {
    tasks: Vec<Task>,
    done: usize,
    outcome: Outcome,
    undone: usize,
}

impl View for Session {
    type V = SessionView;

    closed spec fn view(&self) -> SessionView {
        SessionView {
            tasks: crate::program::tasks_view(self.tasks@),
            done: self.done as nat,
            outcome: self.outcome,
            undone: self.undone as nat,
        }
    }
}

impl Session {
    /// Starts a program.
    pub fn new(tasks: Vec<Task>) -> (session: Session)
        ensures
            session@ == fresh(crate::program::tasks_view(tasks@)),
            session@.wf(),
    {
        Session { tasks, done: 0, outcome: Outcome::Accepted, undone: 0 }
    }

    /// The step to perform next, if there is one.
    pub fn current(&self) -> (step: Option<&Step>)
        requires
            self@.wf(),
        ensures
            step is Some <==> self@.current() is Some,
            step matches Some(step) ==> self@.current() == Some(step@),
    {
        match self.outcome {
            Outcome::Accepted => {
                if self.done < self.tasks.len() {
                    Some(&self.tasks[self.done].step)
                } else {
                    None
                }
            },
            Outcome::Failed => {
                if self.undone < self.tasks[self.done].on_failure.len() {
                    Some(&self.tasks[self.done].on_failure[self.undone])
                } else {
                    None
                }
            },
            Outcome::Mismatch => {
                if self.undone < self.tasks[self.done].on_mismatch.len() {
                    Some(&self.tasks[self.done].on_mismatch[self.undone])
                } else {
                    None
                }
            },
        }
    }

    /// Takes note of what the current step brought.
    pub fn advance(&mut self, event: Event)
        requires
            old(self)@.wf(),
        ensures
            final(self)@ == old(self)@.after(event),
            final(self)@.wf(),
    {
        if self.current().is_none() {
            return;
        }
        match self.outcome {
            Outcome::Accepted => match judge(self.tasks[self.done].expect, event) {
                Outcome::Accepted => {
                    assert(self.done < self.tasks.len());
                    self.done = self.done + 1;
                },
                Outcome::Failed => {
                    self.outcome = Outcome::Failed;
                    self.undone = 0;
                },
                Outcome::Mismatch => {
                    self.outcome = Outcome::Mismatch;
                    self.undone = 0;
                },
            },
            Outcome::Failed => {
                assert(self.undone < self.tasks[self.done as int].on_failure.len());
                self.undone = self.undone + 1;
            },
            Outcome::Mismatch => {
                assert(self.undone < self.tasks[self.done as int].on_mismatch.len());
                self.undone = self.undone + 1;
            },
        }
    }

    /// How the session stands.
    pub fn outcome(&self) -> (outcome: Outcome)
        ensures
            outcome == self@.outcome,
    {
        self.outcome
    }

    /// The number of the task that the session stands at.
    pub fn position(&self) -> (position: usize)
        ensures
            position == self@.done,
    {
        self.done
    }

    /// The round of the task that the session stopped at.
    pub fn stopped_round(&self) -> (round: Option<usize>)
        requires
            self@.wf(),
        ensures
            self@.outcome is Accepted ==> round is None,
            !(self@.outcome is Accepted) ==> round == Some(self@.tasks[self@.done as int].round),
    {
        match self.outcome {
            Outcome::Accepted => None,
            _ => Some(self.tasks[self.done].round),
        }
    }
}

} // verus!
