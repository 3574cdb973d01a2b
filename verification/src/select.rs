//! One round of selecting, as the decisions between its steps.
//!
//! The caller does what each [`Action`] says, on the inbox's page or by a call to the kernel,
//! and hands what came of it to [`Select::step`], which answers with the next action.
//!
//! A round queues a watch for every registration and hands what is queued to the kernel, then
//! reads the completions. Where there are more watches than free slots, what is queued is handed
//! over, and what came of it is read, in between, as often as it takes.
use vstd::prelude::*;
use crate::error::{Error, ErrorKind, ErrorView, SyscallError};
use crate::inbox;
use crate::inbox::{Completion, Inbox, Submission, SubmissionWrite, SubmitRequest};
use crate::selector;
use crate::selector::{Event, Events, Registration};
use crate::types::Duration;

verus! {

/// What the caller of a round does next.
#[derive(Debug)]
pub enum Action {
    /// Write a submission into its slot and then store the submission ring's tail. Answered by
    /// [`Reply::Done`].
    Queue(SubmissionWrite),
    /// Load the submission ring's head and then its tail. Answered by [`Reply::Ring`].
    LoadSubmissionRing,
    /// Call the kernel. Answered by [`Reply::Submitted`].
    Submit(SubmitRequest),
    /// Load the completion ring's head and then its tail. Answered by [`Reply::Ring`].
    LoadCompletionRing,
    /// Read the completion at an offset of the page. Answered by [`Reply::Completion`].
    ReadCompletion(u64),
    /// Load the completion ring's head. Answered by [`Reply::Position`].
    LoadCompletionHead,
    /// Store the completion ring's head. Answered by [`Reply::Done`].
    StoreCompletionHead(u32),
    /// Return from the round. It takes no reply.
    Return(Result<(), Error>),
}

/// An [`Action`] with its error taken by its view.
pub enum ActionView {
    Queue(SubmissionWrite),
    LoadSubmissionRing,
    Submit(SubmitRequest),
    LoadCompletionRing,
    ReadCompletion(u64),
    LoadCompletionHead,
    StoreCompletionHead(u32),
    Return(Result<(), ErrorView>),
}

impl View for Action {
    type V = ActionView;

    open spec fn view(&self) -> ActionView {
        match *self {
            Action::Queue(write) => ActionView::Queue(write),
            Action::LoadSubmissionRing => ActionView::LoadSubmissionRing,
            Action::Submit(request) => ActionView::Submit(request),
            Action::LoadCompletionRing => ActionView::LoadCompletionRing,
            Action::ReadCompletion(offset) => ActionView::ReadCompletion(offset),
            Action::LoadCompletionHead => ActionView::LoadCompletionHead,
            Action::StoreCompletionHead(head) => ActionView::StoreCompletionHead(head),
            Action::Return(result) => ActionView::Return(crate::error::outcome(result)),
        }
    }
}

/// What came of an [`Action`].
#[derive(Clone, Copy, Debug)]
pub enum Reply {
    /// The position loaded.
    Position(u32),
    /// The head and tail loaded.
    Ring { head: u32, tail: u32 },
    /// The store was done.
    Done,
    /// The kernel's answer.
    Submitted(Result<u32, SyscallError>),
    /// The completion read.
    Completion(Completion),
}

/// How far a round has come: the action whose reply it waits for.
#[derive(Clone, Copy, Debug, PartialEq, Eq, Structural)]
pub enum Phase {
    /// [`Action::LoadSubmissionRing`], to find a slot for the next watch.
    Arming,
    /// [`Action::Queue`].
    Queueing,
    /// [`Action::Submit`], of a full ring, to free slots for the watches that are left.
    Flushing,
    /// [`Action::LoadSubmissionRing`], to find a slot freed for the next watch.
    Rearming,
    /// [`Action::LoadSubmissionRing`], to count what is queued.
    Counting,
    /// [`Action::Submit`].
    Submitting,
    /// [`Action::LoadCompletionRing`], to see if a completion is unread.
    Peeking,
    /// [`Action::ReadCompletion`].
    Reading,
    /// [`Action::LoadCompletionHead`], to move it past what was read.
    Advancing,
    /// [`Action::StoreCompletionHead`].
    Storing,
    /// The round has returned.
    Finished,
}

/// A round of selecting under way.
#[derive(Debug)]
pub struct Select {
    inbox: Inbox,
    watches: Vec<Submission>,
    queued: usize,
    timeout_nanos: u64,
    phase: Phase,
}

/// The state of a round.
pub struct SelectView {
    pub inbox: Inbox,
    /// The watches to queue, one for every registration.
    pub watches: Seq<Submission>,
    /// How many of them have been queued.
    pub queued: nat,
    /// The wait to hand to the kernel.
    pub timeout_nanos: u64,
    pub phase: Phase,
}

/// What one step of a round leads to: its next state, the events so far and the next action.
pub struct Step {
    pub state: SelectView,
    pub events: Seq<Event>,
    pub action: ActionView,
}

/// What a round returns if the kernel took what was queued and freed no slot.
pub open spec fn no_slot() -> ErrorView {
    ErrorView::saying(ErrorKind::Other, "submission ring full"@)
}

/// The beginning of a round that waits on an inbox for what is registered.
pub open spec fn started(
    inbox: Inbox,
    registrations: Seq<Registration>,
    timeout: Option<Duration>,
) -> Step {
    SelectView {
        inbox,
        watches: selector::watches(registrations),
        queued: 0,
        timeout_nanos: selector::wait_nanos(timeout),
        phase: Phase::Arming,
    }.arm_next(Seq::empty())
}

impl SelectView {
    /// The state in another phase.
    pub open spec fn at(self, phase: Phase) -> SelectView {
        SelectView { phase, ..self }
    }

    /// Whether a reply can be taken: it is of the kind the phase waits for, and where it has
    /// the round find a slot of a ring, the ring has slots.
    pub open spec fn accepts(self, reply: Reply) -> bool {
        match (self.phase, reply) {
            (Phase::Arming, Reply::Ring { .. }) => self.inbox.submission_ring_size > 0,
            (Phase::Queueing, Reply::Done) => true,
            (Phase::Flushing, Reply::Submitted(_)) => true,
            (Phase::Rearming, Reply::Ring { .. }) => self.inbox.submission_ring_size > 0,
            (Phase::Counting, Reply::Ring { .. }) => true,
            (Phase::Submitting, Reply::Submitted(_)) => true,
            (Phase::Peeking, Reply::Ring { head, tail }) => head != tail
                ==> self.inbox.completion_ring_size > 0,
            (Phase::Reading, Reply::Completion(_)) => true,
            (Phase::Advancing, Reply::Position(_)) => true,
            (Phase::Storing, Reply::Done) => true,
            _ => false,
        }
    }

    /// A watch is left to queue while the round looks for a slot for it or frees one, and none
    /// is left once the round counts what is queued.
    pub open spec fn wf(self) -> bool {
        &&& self.queued <= self.watches.len()
        &&& match self.phase {
            Phase::Arming | Phase::Flushing | Phase::Rearming => self.queued < self.watches.len(),
            Phase::Queueing => self.queued > 0,
            Phase::Counting | Phase::Submitting => self.queued == self.watches.len(),
            _ => true,
        }
    }

    /// On to writing the next watch into the slot at `tail`.
    pub open spec fn queue_next(self, events: Seq<Event>, tail: u32) -> Step {
        Step {
            state: SelectView { queued: self.queued + 1, phase: Phase::Queueing, ..self },
            events,
            action: ActionView::Queue(
                self.inbox.queueing(tail, self.watches[self.queued as int]),
            ),
        }
    }

    /// On to reading completions.
    pub open spec fn peek(self, events: Seq<Event>) -> Step {
        Step { state: self.at(Phase::Peeking), events, action: ActionView::LoadCompletionRing }
    }

    /// The end of the round.
    pub open spec fn finish(self, events: Seq<Event>, result: Result<(), ErrorView>) -> Step {
        Step { state: self.at(Phase::Finished), events, action: ActionView::Return(result) }
    }

    /// On to the next watch, or, once all are queued, to counting what is queued.
    pub open spec fn arm_next(self, events: Seq<Event>) -> Step {
        if self.queued < self.watches.len() {
            Step { state: self.at(Phase::Arming), events, action: ActionView::LoadSubmissionRing }
        } else {
            Step { state: self.at(Phase::Counting), events, action: ActionView::LoadSubmissionRing }
        }
    }

    /// What a reply leads to.
    pub open spec fn next(self, events: Seq<Event>, reply: Reply) -> Step
        recommends
            self.accepts(reply),
    {
        match (self.phase, reply) {
            (Phase::Arming, Reply::Ring { head, tail }) => if self.inbox.has_room(head, tail) {
                self.queue_next(events, tail)
            } else {
                // The ring is handed over as it is, without waiting.
                Step {
                    state: self.at(Phase::Flushing),
                    events,
                    action: ActionView::Submit(
                        SubmitRequest {
                            handle: self.inbox.handle,
                            to_submit: inbox::distance(head, tail) as u32,
                            min_complete: 0,
                            timeout_nanos: 0,
                        },
                    ),
                }
            },
            (Phase::Queueing, Reply::Done) => self.arm_next(events),
            (Phase::Rearming, Reply::Ring { head, tail }) => if self.inbox.has_room(head, tail) {
                self.queue_next(events, tail)
            } else {
                self.finish(events, Err(no_slot()))
            },
            (Phase::Counting, Reply::Ring { head, tail }) => Step {
                state: self.at(Phase::Submitting),
                events,
                action: ActionView::Submit(
                    SubmitRequest {
                        handle: self.inbox.handle,
                        to_submit: inbox::distance(head, tail) as u32,
                        // With nothing registered there is nothing to wait for, and with an
                        // event to report there is no need to.
                        min_complete: if self.watches.len() == 0 || events.len() > 0 {
                            0
                        } else {
                            1
                        },
                        timeout_nanos: self.timeout_nanos,
                    },
                ),
            },
            (Phase::Flushing | Phase::Submitting, Reply::Submitted(Err(e))) => self.finish(
                events,
                Err(e.as_other()),
            ),
            (Phase::Flushing | Phase::Submitting, Reply::Submitted(Ok(_))) | (
                Phase::Storing,
                Reply::Done,
            ) => self.peek(events),
            (Phase::Peeking, Reply::Ring { head, tail }) => if head != tail {
                Step {
                    state: self.at(Phase::Reading),
                    events,
                    action: ActionView::ReadCompletion(self.inbox.first_unread(head)),
                }
            } else if self.queued < self.watches.len() {
                Step {
                    state: self.at(Phase::Rearming),
                    events,
                    action: ActionView::LoadSubmissionRing,
                }
            } else {
                self.finish(events, Ok(()))
            },
            (Phase::Reading, Reply::Completion(completion)) => Step {
                state: self.at(Phase::Advancing),
                events: selector::collected(events, completion),
                action: ActionView::LoadCompletionHead,
            },
            (Phase::Advancing, Reply::Position(head)) => Step {
                state: self.at(Phase::Storing),
                events,
                action: ActionView::StoreCompletionHead(inbox::position(head, 1)),
            },
            _ => Step { state: self, events, action: ActionView::Return(Ok(())) },
        }
    }
}

impl View for Select {
    type V = SelectView;

    closed spec fn view(&self) -> SelectView {
        SelectView {
            inbox: self.inbox,
            watches: self.watches@,
            queued: self.queued as nat,
            timeout_nanos: self.timeout_nanos,
            phase: self.phase,
        }
    }
}

impl Select {
    /// Whether the state is one a round comes by.
    pub open spec fn wf(&self) -> bool {
        self@.wf()
    }

    /// A round with `watches` to queue, which begins on empty `events`.
    pub(crate) fn start(
        inbox: Inbox,
        watches: Vec<Submission>,
        timeout_nanos: u64,
        events: &mut Events,
    ) -> (round: (Select, Action))
        ensures
            round.0.wf(),
            (Step { state: round.0@, events: final(events)@, action: round.1@ }) == (SelectView {
                inbox,
                watches: watches@,
                queued: 0,
                timeout_nanos,
                phase: Phase::Arming,
            }).arm_next(Seq::empty()),
    {
        events.clear();
        let mut round = Select { inbox, watches, queued: 0, timeout_nanos, phase: Phase::Counting };
        let action = round.arm_next();
        (round, action)
    }

    fn arm_next(&mut self) -> (action: Action)
        requires
            old(self)@.queued <= old(self)@.watches.len(),
        ensures
            final(self).wf(),
            final(self)@ == old(self)@.at(final(self)@.phase),
            (final(self)@.phase, action@) == (if old(self)@.queued < old(self)@.watches.len() {
                (Phase::Arming, ActionView::LoadSubmissionRing)
            } else {
                (Phase::Counting, ActionView::LoadSubmissionRing)
            }),
    {
        if self.queued < self.watches.len() {
            self.phase = Phase::Arming;
            Action::LoadSubmissionRing
        } else {
            self.phase = Phase::Counting;
            Action::LoadSubmissionRing
        }
    }

    /// The action that queues the next watch, or `None`, with nothing changed, if no slot is free.
    fn queue_next(&mut self, head: u32, tail: u32) -> (action: Option<Action>)
        requires
            old(self)@.queued < old(self)@.watches.len(),
            old(self)@.inbox.submission_ring_size > 0,
        ensures
            match action {
                Some(action) => {
                    &&& old(self)@.inbox.has_room(head, tail)
                    &&& forall|events: Seq<Event>|
                        (Step { state: final(self)@, events, action: action@ })
                            == #[trigger] old(self)@.queue_next(events, tail)
                },
                None => !old(self)@.inbox.has_room(head, tail) && *final(self) == *old(self),
            },
    {
        match self.inbox.queue(head, tail, &self.watches[self.queued]) {
            Some(write) => {
                assert(self.queued < self.watches.len());
                self.queued = self.queued + 1;
                self.phase = Phase::Queueing;
                Some(Action::Queue(write))
            },
            None => None,
        }
    }

    /// Takes the reply to the last action and decides the next one, collecting what it learns
    /// into `events`.
    pub fn step(&mut self, events: &mut Events, reply: Reply) -> (action: Action)
        requires
            old(self).wf(),
            old(self)@.accepts(reply),
        ensures
            final(self).wf(),
            (Step { state: final(self)@, events: final(events)@, action: action@ }) == old(
                self,
            )@.next(old(events)@, reply),
    {
        match (self.phase, reply) {
            (Phase::Arming, Reply::Ring { head, tail }) => {
                match self.queue_next(head, tail) {
                    Some(action) => action,
                    None => {
                        let pending = self.inbox.pending_submissions(head, tail);
                        self.phase = Phase::Flushing;
                        Action::Submit(self.inbox.submit(pending, 0, 0))
                    },
                }
            },
            (Phase::Queueing, Reply::Done) => self.arm_next(),
            (Phase::Rearming, Reply::Ring { head, tail }) => {
                match self.queue_next(head, tail) {
                    Some(action) => action,
                    None => {
                        self.phase = Phase::Finished;
                        Action::Return(Err(Error::new(ErrorKind::Other, "submission ring full")))
                    },
                }
            },
            (Phase::Counting, Reply::Ring { head, tail }) => {
                let pending = self.inbox.pending_submissions(head, tail);
                let min_complete: u32 = if self.watches.is_empty() || !events.is_empty() {
                    0
                } else {
                    1
                };
                self.phase = Phase::Submitting;
                Action::Submit(self.inbox.submit(pending, min_complete, self.timeout_nanos))
            },
            (Phase::Flushing | Phase::Submitting, Reply::Submitted(answer)) => {
                match Inbox::submitted(answer) {
                    Ok(_) => {
                        self.phase = Phase::Peeking;
                        Action::LoadCompletionRing
                    },
                    Err(error) => {
                        self.phase = Phase::Finished;
                        Action::Return(Err(error))
                    },
                }
            },
            (Phase::Peeking, Reply::Ring { head, tail }) => {
                match self.inbox.peek_completion(head, tail) {
                    Some(offset) => {
                        self.phase = Phase::Reading;
                        Action::ReadCompletion(offset)
                    },
                    None => {
                        if self.queued < self.watches.len() {
                            self.phase = Phase::Rearming;
                            Action::LoadSubmissionRing
                        } else {
                            self.phase = Phase::Finished;
                            Action::Return(Ok(()))
                        }
                    },
                }
            },
            (Phase::Reading, Reply::Completion(completion)) => {
                selector::collect(events, completion);
                self.phase = Phase::Advancing;
                Action::LoadCompletionHead
            },
            (Phase::Advancing, Reply::Position(head)) => {
                let next = self.inbox.advance_completion(head);
                self.phase = Phase::Storing;
                Action::StoreCompletionHead(next)
            },
            (Phase::Storing, Reply::Done) => {
                self.phase = Phase::Peeking;
                Action::LoadCompletionRing
            },
            _ => Action::Return(Ok(())),
        }
    }
}

/// An action is seen as it is, down to what it carries.
pub proof fn actions_are_seen_as_they_are(action: Action)
    ensures
        action is Queue <==> action@ is Queue,
        action is LoadSubmissionRing <==> action@ is LoadSubmissionRing,
        action is Submit <==> action@ is Submit,
        action is LoadCompletionRing <==> action@ is LoadCompletionRing,
        action is ReadCompletion <==> action@ is ReadCompletion,
        action is LoadCompletionHead <==> action@ is LoadCompletionHead,
        action is StoreCompletionHead <==> action@ is StoreCompletionHead,
        action matches Action::Queue(write) ==> action@ == ActionView::Queue(write),
        action matches Action::Submit(request) ==> action@ == ActionView::Submit(request),
        action matches Action::ReadCompletion(offset) ==> action@ == ActionView::ReadCompletion(
            offset,
        ),
        action matches Action::StoreCompletionHead(head) ==> action@
            == ActionView::StoreCompletionHead(head),
        action matches Action::Return(Ok(_)) ==> action@ == ActionView::Return(Ok(())),
        action matches Action::Return(Err(error)) ==> action@ == ActionView::Return(Err(error@)),
{
}

} // verus!
