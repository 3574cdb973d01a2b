//! What whole rounds of selecting promise, whatever the kernel answers and whenever it posts.
use vstd::prelude::*;
use crate::abi;
use crate::error::{ErrorKind, SyscallError};
use crate::inbox;
use crate::inbox::{Completion, Inbox, Submission, SubmissionWrite, SubmitRequest};
use crate::page;
use crate::page::{Moment, Page};
use crate::readiness;
use crate::select;
use crate::select::{ActionView, Phase, Reply, SelectView, Step};
use crate::selector;
use crate::selector::Registration;
use crate::types::Duration;

verus! {

/// The completions among some replies, in order.
pub open spec fn read(replies: Seq<Reply>) -> Seq<Completion>
    decreases replies.len(),
{
    if replies.len() == 0 {
        Seq::empty()
    } else {
        match replies.last() {
            Reply::Completion(completion) => read(replies.drop_last()).push(completion),
            _ => read(replies.drop_last()),
        }
    }
}

impl Step {
    /// Whether the action is the one whose reply the state waits for.
    pub open spec fn is_consistent(self) -> bool {
        &&& self.state.wf()
        &&& match self.state.phase {
            Phase::Arming | Phase::Rearming | Phase::Counting => self.action is LoadSubmissionRing,
            Phase::Queueing => self.action is Queue,
            Phase::Flushing | Phase::Submitting => self.action is Submit,
            Phase::Peeking => self.action is LoadCompletionRing,
            Phase::Reading => self.action is ReadCompletion,
            Phase::Advancing => self.action is LoadCompletionHead,
            Phase::Storing => self.action is StoreCompletionHead,
            Phase::Finished => self.action is Return,
        }
    }

    /// The step that a row of replies leads to.
    pub open spec fn through(self, replies: Seq<Reply>) -> Step
        decreases replies.len(),
    {
        if replies.len() == 0 {
            self
        } else {
            let before = self.through(replies.drop_last());
            before.state.next(before.events, replies.last())
        }
    }

    /// Whether each of a row of replies can be taken when its turn comes.
    pub open spec fn takes(self, replies: Seq<Reply>) -> bool
        decreases replies.len(),
    {
        replies.len() > 0 ==> {
            &&& self.takes(replies.drop_last())
            &&& self.through(replies.drop_last()).state.accepts(replies.last())
        }
    }

    /// What a row of replies has had written into the submission array, in order.
    pub open spec fn written(self, replies: Seq<Reply>) -> Seq<SubmissionWrite>
        decreases replies.len(),
    {
        if replies.len() == 0 {
            Seq::empty()
        } else {
            let earlier = self.written(replies.drop_last());
            match self.through(replies.drop_last()).action {
                ActionView::Queue(write) => earlier.push(write),
                _ => earlier,
            }
        }
    }

    /// How many more actions there can be, before any completion is read.
    spec fn actions_left(self) -> int {
        let left = 5 * (self.state.watches.len() - self.state.queued);
        match self.state.phase {
            Phase::Queueing => left + 4,
            Phase::Arming | Phase::Counting | Phase::Advancing => left + 3,
            Phase::Flushing | Phase::Submitting | Phase::Storing => left + 2,
            Phase::Peeking => left + 1,
            Phase::Rearming | Phase::Reading => left,
            Phase::Finished => 0,
        }
    }
}

/// A round asks, from its beginning on, for the action whose reply it waits for, and takes the
/// reply, whatever the page holds and the kernel answers. The rings have slots.
pub proof fn round_takes_the_reply_it_asks_for(
    inbox: Inbox,
    registrations: Seq<Registration>,
    timeout: Option<Duration>,
    moment: Moment,
    answer: Result<u32, SyscallError>,
)
    requires
        inbox.submission_ring_size > 0,
        inbox.completion_ring_size > 0,
        moment.step.state.inbox == inbox,
        moment.step.is_consistent(),
    ensures
        select::started(inbox, registrations, timeout).is_consistent(),
        select::started(inbox, registrations, timeout).state.inbox == inbox,
        moment.step.action is Submit ==> {
            let reply = Reply::Submitted(answer);
            let after = moment.step.state.next(moment.step.events, reply);
            &&& moment.step.state.accepts(reply)
            &&& after.is_consistent()
            &&& after.state.inbox == inbox
        },
        !(moment.step.action is Submit || moment.step.action is Return) ==> {
            &&& moment.step.state.accepts(moment.page.perform(moment.step.action).1)
            &&& moment.next().step.is_consistent()
            &&& moment.next().step.state.inbox == inbox
        },
{
}

/// What a row of replies makes of a step.
proof fn going_through(step: Step, replies: Seq<Reply>)
    requires
        step.is_consistent(),
        step.takes(replies),
    ensures
        ({
            let end = step.through(replies);
            &&& end.is_consistent()
            &&& end.state.inbox == step.state.inbox
            &&& end.state.watches == step.state.watches
            &&& end.state.timeout_nanos == step.state.timeout_nanos
            &&& end.events == selector::collected_all(step.events, read(replies))
            &&& replies.len() + end.actions_left() <= step.actions_left() + 4 * read(replies).len()
            &&& step.state.phase == Phase::Peeking && step.state.queued == step.state.watches.len()
                ==> {
                &&& end.state.queued == end.state.watches.len()
                &&& end.state.phase matches (Phase::Peeking | Phase::Reading | Phase::Advancing
                    | Phase::Storing | Phase::Finished)
                &&& end.action is Return ==> end.action == ActionView::Return(Ok(()))
            }
        }),
    decreases replies.len(),
{
    if replies.len() > 0 {
        let before = replies.drop_last();
        going_through(step, before);
        if let Reply::Completion(completion) = replies.last() {
            assert(read(replies).drop_last() =~= read(before));
            readiness::collecting_the_last(step.events, read(replies));
        }
    }
}

/// The events of a round are, at every moment, those of the completions it has read, in the order
/// it read them.
pub proof fn round_reports_what_it_reads(
    inbox: Inbox,
    registrations: Seq<Registration>,
    timeout: Option<Duration>,
    replies: Seq<Reply>,
)
    requires
        select::started(inbox, registrations, timeout).takes(replies),
    ensures
        select::started(inbox, registrations, timeout).through(replies).events
            == selector::collected_all(Seq::empty(), read(replies)),
{
    going_through(select::started(inbox, registrations, timeout), replies);
}

/// Once the kernel has answered a round's last call, the round adds to its events those of the
/// completions it reads from then on, in the order it reads them, whenever they are posted. It
/// makes no further call and returns no error.
pub proof fn round_only_reads_after_its_last_call(
    state: SelectView,
    events: Seq<selector::Event>,
    available: u32,
    replies: Seq<Reply>,
)
    requires
        state.wf(),
        state.phase == Phase::Submitting,
        state.next(events, Reply::Submitted(Ok(available))).takes(replies),
    ensures
        ({
            let end = state.next(events, Reply::Submitted(Ok(available))).through(replies);
            &&& end.events == selector::collected_all(events, read(replies))
            &&& !(end.action is Submit)
            &&& end.action is Return ==> end.action == ActionView::Return(Ok(()))
        }),
{
    going_through(state.next(events, Reply::Submitted(Ok(available))), replies);
}

/// Until the kernel has answered a call, a round reads nothing.
proof fn nothing_is_read_before_the_first_call(
    inbox: Inbox,
    registrations: Seq<Registration>,
    timeout: Option<Duration>,
    replies: Seq<Reply>,
)
    requires
        select::started(inbox, registrations, timeout).takes(replies),
        forall|i: int| 0 <= i < replies.len() ==> !(#[trigger] replies[i] is Submitted),
    ensures
        read(replies) == Seq::<Completion>::empty(),
        select::started(inbox, registrations, timeout).through(replies).state.phase matches (
        Phase::Arming | Phase::Queueing | Phase::Flushing | Phase::Counting | Phase::Submitting),
    decreases replies.len(),
{
    if replies.len() > 0 {
        let before = replies.drop_last();
        assert forall|i: int| 0 <= i < before.len() implies !(#[trigger] before[i] is Submitted) by {
            assert(before[i] == replies[i]);
        }
        assert(!(replies[replies.len() - 1] is Submitted));
        nothing_is_read_before_the_first_call(inbox, registrations, timeout, before);
    }
}

/// A round whose call the kernel refuses, be it the last or an earlier one, returns the refusal at
/// once, with the events of the completions it has read so far: none, if it is the first call.
pub proof fn round_reports_a_refusal(
    inbox: Inbox,
    registrations: Seq<Registration>,
    timeout: Option<Duration>,
    replies: Seq<Reply>,
    refusal: SyscallError,
)
    requires
        select::started(inbox, registrations, timeout).takes(replies),
        select::started(inbox, registrations, timeout).through(replies).action is Submit,
    ensures
        ({
            let step = select::started(inbox, registrations, timeout).through(replies);
            let end = step.state.next(step.events, Reply::Submitted(Err(refusal)));
            &&& end.action == ActionView::Return(Err(refusal.as_other()))
            &&& end.events == selector::collected_all(Seq::empty(), read(replies))
            &&& (forall|i: int| 0 <= i < replies.len() ==> !(#[trigger] replies[i] is Submitted))
                ==> end.events == Seq::<selector::Event>::empty()
            &&& end.state.phase == Phase::Finished
        }),
{
    going_through(select::started(inbox, registrations, timeout), replies);
    if forall|i: int| 0 <= i < replies.len() ==> !(#[trigger] replies[i] is Submitted) {
        nothing_is_read_before_the_first_call(inbox, registrations, timeout, replies);
    }
}

/// A round ends, unless there is a next completion to read for ever: each registration takes five
/// actions at most, each completion four, and three more see the round to its end.
pub proof fn round_ends(
    inbox: Inbox,
    registrations: Seq<Registration>,
    timeout: Option<Duration>,
    replies: Seq<Reply>,
)
    requires
        select::started(inbox, registrations, timeout).takes(replies),
    ensures
        replies.len() <= 5 * registrations.len() + 4 * read(replies).len() + 3,
{
    going_through(select::started(inbox, registrations, timeout), replies);
}

/// What came of an action, and the page by the time the next one is taken.
pub struct Turn {
    pub reply: Reply,
    pub page: Page,
}

/// The replies of some turns, in order.
pub open spec fn replies(turns: Seq<Turn>) -> Seq<Reply> {
    turns.map_values(|turn: Turn| turn.reply)
}

impl Moment {
    /// The moment that a row of turns leads to.
    pub open spec fn through(self, turns: Seq<Turn>) -> Moment
        decreases turns.len(),
    {
        if turns.len() == 0 {
            self
        } else {
            let before = self.through(turns.drop_last());
            Moment {
                step: before.step.state.next(before.step.events, turns.last().reply),
                page: turns.last().page,
            }
        }
    }

    /// Whether a turn is one that the moment's action can take. A call to the kernel can leave any
    /// page. Any other action does to the page what it says, and meanwhile the kernel can post
    /// completions.
    pub open spec fn allows(self, turn: Turn) -> bool {
        match self.step.action {
            ActionView::Return(_) => false,
            ActionView::Submit(_) => turn.reply is Submitted,
            _ => {
                let (page, reply) = self.page.perform(self.step.action);
                &&& turn.reply == reply
                &&& turn.page == (Page {
                    completion_tail: turn.page.completion_tail,
                    completions: turn.page.completions,
                    ..page
                })
            },
        }
    }

    /// Whether each of a row of turns is one that its moment's action can take.
    pub open spec fn allows_all(self, turns: Seq<Turn>) -> bool
        decreases turns.len(),
    {
        turns.len() > 0 ==> {
            &&& self.allows_all(turns.drop_last())
            &&& self.through(turns.drop_last()).allows(turns.last())
        }
    }

    /// Whether every call to the kernel is accepted and leaves nothing queued.
    pub open spec fn hands_over_all(self, inbox: Inbox, turns: Seq<Turn>) -> bool
        decreases turns.len(),
    {
        turns.len() > 0 ==> {
            &&& self.hands_over_all(inbox, turns.drop_last())
            &&& self.through(turns.drop_last()).step.action is Submit ==> {
                &&& turns.last().reply matches Reply::Submitted(Ok(_))
                &&& turns.last().page.queued(inbox).len() == 0
            }
        }
    }

    /// What is queued when the kernel is called, over all the calls, in order.
    pub open spec fn handed_over(self, inbox: Inbox, turns: Seq<Turn>) -> Seq<Submission>
        decreases turns.len(),
    {
        if turns.len() == 0 {
            Seq::empty()
        } else {
            let before = self.through(turns.drop_last());
            let earlier = self.handed_over(inbox, turns.drop_last());
            if before.step.action is Submit {
                earlier + before.page.queued(inbox)
            } else {
                earlier
            }
        }
    }

    /// Whether the kernel, in every turn, posts behind what is unread.
    pub open spec fn keeps_unread(self, inbox: Inbox, turns: Seq<Turn>) -> bool
        decreases turns.len(),
    {
        turns.len() > 0 ==> {
            let before = self.through(turns.drop_last());
            let performed = before.page.perform(before.step.action).0;
            &&& self.keeps_unread(inbox, turns.drop_last())
            &&& performed.unread(inbox).is_prefix_of(turns.last().page.unread(inbox))
        }
    }

    /// What the kernel posts, over all the turns, in order.
    pub open spec fn posted(self, inbox: Inbox, turns: Seq<Turn>) -> Seq<Completion>
        decreases turns.len(),
    {
        if turns.len() == 0 {
            Seq::empty()
        } else {
            let before = self.through(turns.drop_last());
            let performed = before.page.perform(before.step.action).0;
            self.posted(inbox, turns.drop_last()) + turns.last().page.unread(inbox).skip(
                performed.unread(inbox).len() as int,
            )
        }
    }
}

/// What is handed over and what is queued make up, at every moment, what was queued at the
/// beginning and the watches written since.
proof fn handing_over(
    inbox: Inbox,
    registrations: Seq<Registration>,
    timeout: Option<Duration>,
    page: Page,
    turns: Seq<Turn>,
)
    requires
        page::is_power_of_two(inbox.submission_ring_size),
        page.queued(inbox).len() <= inbox.submission_ring_size,
        (Moment { step: select::started(inbox, registrations, timeout), page }).allows_all(turns),
        (Moment { step: select::started(inbox, registrations, timeout), page }).hands_over_all(
            inbox,
            turns,
        ),
    ensures
        ({
            let begin = Moment { step: select::started(inbox, registrations, timeout), page };
            let end = begin.through(turns);
            let state = end.step.state;
            let queued = end.page.queued(inbox);
            let written = if state.phase == Phase::Queueing {
                state.queued - 1
            } else {
                state.queued as int
            };
            &&& end.step.is_consistent()
            &&& state.inbox == inbox
            &&& state.watches == selector::watches(registrations)
            &&& queued.len() <= inbox.submission_ring_size
            &&& begin.handed_over(inbox, turns) + queued == page.queued(inbox) + state.watches.take(
                written,
            )
            &&& end.step.action matches ActionView::Queue(write) ==> {
                &&& queued.len() < inbox.submission_ring_size
                &&& write == inbox.queueing(end.page.submission_tail, state.watches[written])
            }
            &&& end.step.action matches ActionView::Submit(request) ==> {
                &&& request.handle == inbox.handle
                &&& request.to_submit == queued.len()
            }
            &&& state.phase matches (Phase::Rearming | Phase::Peeking | Phase::Reading
                | Phase::Advancing | Phase::Storing | Phase::Finished) ==> queued.len() == 0
            &&& state.phase == Phase::Finished ==> {
                &&& end.step.action == ActionView::Return(Ok(()))
                &&& state.queued == state.watches.len()
            }
        }),
    decreases turns.len(),
{
    let begin = Moment { step: select::started(inbox, registrations, timeout), page };
    let all = selector::watches(registrations);
    page::slot_is_remainder(0, inbox.submission_ring_size);
    if turns.len() == 0 {
        assert(all.take(0) =~= Seq::empty());
        assert(begin.handed_over(inbox, turns) + page.queued(inbox) =~= page.queued(inbox)
            + all.take(0));
    } else {
        let earlier = turns.drop_last();
        let turn = turns.last();
        handing_over(inbox, registrations, timeout, page, earlier);
        let before = begin.through(earlier);
        let end = begin.through(turns);
        let handed = begin.handed_over(inbox, earlier);
        let queued = before.page.queued(inbox);
        match before.step.action {
            ActionView::Submit(_) => {
                assert(handed + queued + end.page.queued(inbox) =~= handed + queued);
            },
            ActionView::Queue(write) => {
                let written = before.step.state.queued - 1;
                page::queueing_appends(before.page, inbox, all[written]);
                assert(end.page.queued(inbox) =~= before.page.with_submission(write).queued(inbox));
                assert(handed + queued.push(all[written]) =~= (handed + queued).push(all[written]));
                assert(page.queued(inbox) + all.take(written + 1) =~= (page.queued(inbox)
                    + all.take(written)).push(all[written]));
            },
            _ => {
                assert(end.page.queued(inbox) =~= queued);
            },
        }
    }
}

/// Every watch reaches the kernel, however many there are and however few slots: if every call to
/// the kernel is accepted and leaves nothing queued, what is queued when the kernel is called, over
/// all the calls of a round, is what was queued before the round and then one watch for every
/// registration, in order, each once. Every call asks for all that is queued, and the round returns
/// no error.
pub proof fn every_watch_is_handed_over(
    inbox: Inbox,
    registrations: Seq<Registration>,
    timeout: Option<Duration>,
    page: Page,
    turns: Seq<Turn>,
)
    requires
        page::is_power_of_two(inbox.submission_ring_size),
        page.queued(inbox).len() <= inbox.submission_ring_size,
        (Moment { step: select::started(inbox, registrations, timeout), page }).allows_all(turns),
        (Moment { step: select::started(inbox, registrations, timeout), page }).hands_over_all(
            inbox,
            turns,
        ),
    ensures
        ({
            let begin = Moment { step: select::started(inbox, registrations, timeout), page };
            let end = begin.through(turns);
            let handed = begin.handed_over(inbox, turns);
            let all = page.queued(inbox) + selector::watches(registrations);
            &&& handed.is_prefix_of(all)
            &&& end.step.action matches ActionView::Submit(request) ==> {
                &&& request.handle == inbox.handle
                &&& request.to_submit == end.page.queued(inbox).len()
            }
            &&& end.step.action is Return ==> {
                &&& end.step.action == ActionView::Return(Ok(()))
                &&& handed == all
            }
        }),
{
    let begin = Moment { step: select::started(inbox, registrations, timeout), page };
    let end = begin.through(turns);
    let handed = begin.handed_over(inbox, turns);
    let watches = selector::watches(registrations);
    let all = page.queued(inbox) + watches;
    handing_over(inbox, registrations, timeout, page, turns);
    let queued = end.page.queued(inbox);
    let written = if end.step.state.phase == Phase::Queueing {
        end.step.state.queued - 1
    } else {
        end.step.state.queued as int
    };
    let so_far = page.queued(inbox) + watches.take(written);
    assert(handed + queued == so_far);
    assert forall|i: int| 0 <= i < handed.len() implies handed[i] == all[i] by {
        assert((handed + queued)[i] == handed[i]);
        assert(so_far[i] == all[i]);
    }
    if end.step.action is Return {
        assert(watches.take(watches.len() as int) =~= watches);
        assert(handed + queued =~= handed);
    }
}

/// A watch is never written over what is still queued: whatever the kernel answers and leaves, a
/// round writes a watch if and only if a slot is free, and then behind what is queued. A full ring
/// is handed over whole, without waiting, and one that is still full after that is an error.
pub proof fn no_watch_is_written_over(
    state: SelectView,
    events: Seq<selector::Event>,
    page: Page,
)
    requires
        page::is_power_of_two(state.inbox.submission_ring_size),
        state.phase == Phase::Arming || state.phase == Phase::Rearming,
    ensures
        ({
            let (loaded, reply) = page.perform(ActionView::LoadSubmissionRing);
            let queued = page.queued(state.inbox);
            let action = state.next(events, reply).action;
            if queued.len() < state.inbox.submission_ring_size {
                &&& action matches ActionView::Queue(write)
                &&& loaded.with_submission(write).queued(state.inbox) == queued.push(
                    state.watches[state.queued as int],
                )
            } else if state.phase == Phase::Arming {
                action == ActionView::Submit(
                    SubmitRequest {
                        handle: state.inbox.handle,
                        to_submit: queued.len() as u32,
                        min_complete: 0,
                        timeout_nanos: 0,
                    },
                )
            } else {
                action == ActionView::Return(Err(select::no_slot()))
            }
        }),
{
    if page.queued(state.inbox).len() < state.inbox.submission_ring_size {
        page::queueing_appends(page, state.inbox, state.watches[state.queued as int]);
    }
}

/// Whether a round that has `found` some completions has read them in order, of `all` there were:
/// what is unread is the rest, but for the one whose slot is about to be given up.
spec fn reads_in_order(
    moment: Moment,
    inbox: Inbox,
    found: Seq<Completion>,
    all: Seq<Completion>,
) -> bool {
    let unread = moment.page.unread(inbox);
    &&& moment.step.is_consistent()
    &&& moment.step.state.inbox == inbox
    &&& moment.step.action matches ActionView::ReadCompletion(offset) ==> {
        &&& unread.len() > 0
        &&& offset == inbox.first_unread(moment.page.completion_head)
    }
    &&& moment.step.action matches ActionView::StoreCompletionHead(head) ==> head
        == inbox::position(moment.page.completion_head, 1)
    &&& if moment.step.state.phase matches (Phase::Advancing | Phase::Storing) {
        unread.len() > 0 && found + unread.drop_first() == all
    } else {
        found + unread == all
    }
}

/// One more turn keeps the completions in order.
proof fn reading_one(
    before: Moment,
    turn: Turn,
    inbox: Inbox,
    found: Seq<Completion>,
    all: Seq<Completion>,
)
    requires
        reads_in_order(before, inbox, found, all),
        before.allows(turn),
        before.page.perform(before.step.action).0.unread(inbox).is_prefix_of(
            turn.page.unread(inbox),
        ),
    ensures
        ({
            let kept = before.page.perform(before.step.action).0.unread(inbox);
            let after = Moment {
                step: before.step.state.next(before.step.events, turn.reply),
                page: turn.page,
            };
            let found = match turn.reply {
                Reply::Completion(completion) => found.push(completion),
                _ => found,
            };
            reads_in_order(
                after,
                inbox,
                found,
                all + turn.page.unread(inbox).skip(kept.len() as int),
            )
        }),
{
    let performed = before.page.perform(before.step.action).0;
    let unread = before.page.unread(inbox);
    let kept = performed.unread(inbox);
    let new = turn.page.unread(inbox).skip(kept.len() as int);
    assert(turn.page.unread(inbox) =~= kept + new);
    page::reading_takes_the_oldest(before.page, inbox);
    if before.step.action is StoreCompletionHead {
        assert(kept == unread.drop_first());
        assert(found + (kept + new) =~= (found + kept) + new);
    } else {
        assert(kept =~= unread);
        if before.step.action is ReadCompletion {
            assert(found.push(unread.first()) + (kept + new).drop_first() =~= found + kept + new);
        } else if before.step.action is LoadCompletionHead {
            assert(found + (kept + new).drop_first() =~= found + kept.drop_first() + new);
        } else {
            assert(found + (kept + new) =~= (found + kept) + new);
        }
    }
}

/// A round reads in order, from its beginning on, and its events are those of what it has read.
proof fn reading(
    inbox: Inbox,
    registrations: Seq<Registration>,
    timeout: Option<Duration>,
    page: Page,
    turns: Seq<Turn>,
)
    requires
        (Moment { step: select::started(inbox, registrations, timeout), page }).allows_all(turns),
        (Moment { step: select::started(inbox, registrations, timeout), page }).keeps_unread(
            inbox,
            turns,
        ),
    ensures
        ({
            let begin = Moment { step: select::started(inbox, registrations, timeout), page };
            let end = begin.through(turns);
            let found = read(replies(turns));
            let all = page.unread(inbox) + begin.posted(inbox, turns);
            &&& reads_in_order(end, inbox, found, all)
            &&& end.step.events == selector::collected_all(Seq::empty(), found)
        }),
    decreases turns.len(),
{
    let begin = Moment { step: select::started(inbox, registrations, timeout), page };
    if turns.len() == 0 {
        assert(read(replies(turns)) + page.unread(inbox) =~= page.unread(inbox) + begin.posted(
            inbox,
            turns,
        ));
    } else {
        let earlier = turns.drop_last();
        let turn = turns.last();
        let found = read(replies(earlier));
        let all = page.unread(inbox) + begin.posted(inbox, earlier);
        reading(inbox, registrations, timeout, page, earlier);
        let before = begin.through(earlier);
        reading_one(before, turn, inbox, found, all);
        assert(replies(turns).drop_last() =~= replies(earlier));
        assert(replies(turns).last() == turn.reply);
        if let Reply::Completion(completion) = turn.reply {
            assert(read(replies(turns)).drop_last() =~= found);
            readiness::collecting_the_last(Seq::empty(), read(replies(turns)));
        }
        let kept = before.page.perform(before.step.action).0.unread(inbox);
        let new = turn.page.unread(inbox).skip(kept.len() as int);
        assert(all + new =~= page.unread(inbox) + begin.posted(inbox, turns));
    }
}

/// Every completion reaches the events, whenever it is posted: a round reads what was unread before
/// it and then what the kernel posts behind, in order, each once, and returns well only once it has
/// found nothing unread. What is posted after that is left unread. Its events are those of the
/// completions it has read.
pub proof fn every_completion_is_read(
    inbox: Inbox,
    registrations: Seq<Registration>,
    timeout: Option<Duration>,
    page: Page,
    turns: Seq<Turn>,
)
    requires
        (Moment { step: select::started(inbox, registrations, timeout), page }).allows_all(turns),
        (Moment { step: select::started(inbox, registrations, timeout), page }).keeps_unread(
            inbox,
            turns,
        ),
    ensures
        ({
            let begin = Moment { step: select::started(inbox, registrations, timeout), page };
            let end = begin.through(turns);
            let found = read(replies(turns));
            let all = page.unread(inbox) + begin.posted(inbox, turns);
            &&& end.step.events == selector::collected_all(Seq::empty(), found)
            &&& found.is_prefix_of(all)
            &&& end.step.action == ActionView::Return(Ok(())) ==> {
                &&& begin.through(turns.drop_last()).page.unread(inbox).len() == 0
                &&& found + end.page.unread(inbox) == all
            }
        }),
{
    let begin = Moment { step: select::started(inbox, registrations, timeout), page };
    let found = read(replies(turns));
    let all = page.unread(inbox) + begin.posted(inbox, turns);
    reading(inbox, registrations, timeout, page, turns);
    let unread = begin.through(turns).page.unread(inbox);
    assert forall|i: int| 0 <= i < found.len() implies found[i] == all[i] by {
        assert((found + unread)[i] == found[i]);
        assert((found + unread.drop_first())[i] == found[i]);
    }
    if begin.through(turns).step.action == ActionView::Return(Ok(())) {
        reading(inbox, registrations, timeout, page, turns.drop_last());
        page::reading_takes_the_oldest(begin.through(turns.drop_last()).page, inbox);
    }
}

/// The watches that have been written are the first ones, in order, and all of them once a round
/// has counted what is queued.
proof fn writing(
    inbox: Inbox,
    registrations: Seq<Registration>,
    timeout: Option<Duration>,
    replies: Seq<Reply>,
)
    requires
        select::started(inbox, registrations, timeout).takes(replies),
    ensures
        ({
            let begin = select::started(inbox, registrations, timeout);
            let end = begin.through(replies);
            let written = begin.written(replies);
            let watches = selector::watches(registrations);
            &&& end.is_consistent()
            &&& end.state.inbox == inbox
            &&& end.state.watches == watches
            &&& written.len() <= watches.len()
            &&& forall|i: int|
                0 <= i < written.len() ==> (#[trigger] written[i]).submission == watches[i]
            &&& if end.action is Queue {
                &&& end.state.queued == written.len() + 1
                &&& end.action->Queue_0.submission == watches[written.len() as int]
            } else {
                end.state.queued == written.len()
            }
        }),
    decreases replies.len(),
{
    let begin = select::started(inbox, registrations, timeout);
    if replies.len() > 0 {
        let earlier = replies.drop_last();
        writing(inbox, registrations, timeout, earlier);
        let before = begin.written(earlier);
        let written = begin.written(replies);
        assert forall|i: int| 0 <= i < written.len() implies (#[trigger] written[i]).submission
            == selector::watches(registrations)[i] by {
            if i < before.len() {
                assert(written[i] == before[i]);
            }
        }
    }
}

/// A round writes the watch of every registration, each once and in order, whatever it is answered,
/// and returns well only once it has written them all and found nothing unread after that.
pub proof fn every_watch_is_written_in_turn(
    inbox: Inbox,
    registrations: Seq<Registration>,
    timeout: Option<Duration>,
    replies: Seq<Reply>,
)
    requires
        select::started(inbox, registrations, timeout).takes(replies),
    ensures
        ({
            let begin = select::started(inbox, registrations, timeout);
            let written = begin.written(replies);
            &&& written.len() <= registrations.len()
            &&& forall|i: int|
                0 <= i < written.len() ==> (#[trigger] written[i]).submission == selector::watch(
                    registrations[i],
                )
            &&& begin.through(replies).action == ActionView::Return(Ok(())) ==> {
                &&& written.len() == registrations.len()
                &&& replies.len() > 0
                &&& begin.through(replies.drop_last()).action is LoadCompletionRing
                &&& replies.last() matches Reply::Ring { head, tail }
                &&& head == tail
            }
        }),
{
    let begin = select::started(inbox, registrations, timeout);
    writing(inbox, registrations, timeout, replies);
    if replies.len() > 0 {
        writing(inbox, registrations, timeout, replies.drop_last());
    }
}

/// Completions report nothing if and only if none has a positive result.
proof fn nothing_reported(completions: Seq<Completion>)
    ensures
        selector::collected_all(Seq::empty(), completions).len() == 0 <==> forall|j: int|
            0 <= j < completions.len() ==> (#[trigger] completions[j]).result <= 0,
{
    let events = selector::collected_all(Seq::empty(), completions);
    if events.len() > 0 {
        readiness::events_tell_what_completions_said(completions, 0);
    } else if exists|j: int| 0 <= j < completions.len() && (#[trigger] completions[j]).result > 0 {
        let j = choose|j: int| 0 <= j < completions.len() && (#[trigger] completions[j]).result > 0;
        readiness::every_answer_is_told(completions, j);
    }
}

/// Every call to the kernel is on the round's own inbox and asks it to take as many submissions as
/// lie between the head and the tail that were just found. With watches left to write, the ring is
/// full, and the call does not wait. With none left, it waits as long as the timeout says, for one
/// completion if anything is registered and nothing has been reported yet, and for none otherwise.
#[verifier::rlimit(40)]
pub proof fn every_call_asks_for_what_is_queued(
    inbox: Inbox,
    registrations: Seq<Registration>,
    timeout: Option<Duration>,
    replies: Seq<Reply>,
)
    requires
        select::started(inbox, registrations, timeout).takes(replies),
        select::started(inbox, registrations, timeout).through(replies).action is Submit,
    ensures
        ({
            let begin = select::started(inbox, registrations, timeout);
            let request = begin.through(replies).action->Submit_0;
            let completions = read(replies);
            &&& replies.len() > 0
            &&& begin.through(replies.drop_last()).action is LoadSubmissionRing
            &&& replies.last() matches Reply::Ring { head, tail }
            &&& request.handle == inbox.handle
            &&& request.to_submit == (if head <= tail {
                tail - head
            } else {
                0x1_0000_0000 + tail - head
            })
            &&& if begin.written(replies).len() < registrations.len() {
                &&& request.to_submit >= inbox.submission_ring_size
                &&& request.min_complete == 0
                &&& request.timeout_nanos == 0
            } else {
                &&& request.min_complete <= 1
                &&& request.min_complete == 1 <==> registrations.len() > 0 && forall|j: int|
                    0 <= j < completions.len() ==> (#[trigger] completions[j]).result <= 0
                &&& request.timeout_nanos == selector::wait_nanos(timeout)
            }
        }),
{
    let begin = select::started(inbox, registrations, timeout);
    going_through(begin, replies);
    writing(inbox, registrations, timeout, replies);
    nothing_reported(read(replies));
    if replies.len() > 0 {
        let earlier = replies.drop_last();
        going_through(begin, earlier);
        writing(inbox, registrations, timeout, earlier);
    }
}

/// Every error a round returns has its cause in the last reply: the kernel's refusal of a call, told
/// in the kernel's words, or a ring without a free slot although the kernel has just been handed
/// what was queued.
pub proof fn every_error_has_its_cause(
    inbox: Inbox,
    registrations: Seq<Registration>,
    timeout: Option<Duration>,
    replies: Seq<Reply>,
)
    requires
        select::started(inbox, registrations, timeout).takes(replies),
    ensures
        select::started(inbox, registrations, timeout).through(replies).action matches
            ActionView::Return(Err(error)) ==> {
            &&& replies.len() > 0
            &&& error.kind == ErrorKind::Other
            &&& match replies.last() {
                Reply::Submitted(Err(e)) => error == e.as_other(),
                Reply::Ring { head, tail } => {
                    &&& select::started(inbox, registrations, timeout).through(
                        replies.drop_last(),
                    ).state.phase == Phase::Rearming
                    &&& inbox::distance(head, tail) >= inbox.submission_ring_size
                    &&& error.message == Some("submission ring full"@)
                },
                _ => false,
            }
        },
{
    let begin = select::started(inbox, registrations, timeout);
    going_through(begin, replies);
    if replies.len() > 0 {
        going_through(begin, replies.drop_last());
    }
}

/// A round that looks for a slot, and finds one free, writes at the tail it found and stores the
/// tail after it.
pub proof fn watches_are_written_at_the_tail(
    state: SelectView,
    events: Seq<selector::Event>,
    head: u32,
    tail: u32,
)
    requires
        state.wf(),
        state.phase == Phase::Arming || state.phase == Phase::Rearming,
        state.inbox.submission_ring_size > 0,
    ensures
        ({
            let queued = if head <= tail {
                tail - head
            } else {
                0x1_0000_0000 + tail - head
            };
            let step = state.next(events, Reply::Ring { head, tail });
            &&& step.events == events
            &&& step.action is Queue <==> queued < state.inbox.submission_ring_size
            &&& step.action matches ActionView::Queue(write) ==> {
                &&& write.submission == state.watches[state.queued as int]
                &&& write.offset == abi::SUBMISSIONS_OFF + abi::SUBMISSION_SIZE * (tail & ((
                state.inbox.submission_ring_size - 1) as u32))
                &&& write.tail == (if tail == u32::MAX {
                    0
                } else {
                    tail + 1
                })
            }
        }),
{
}

/// After a call that the kernel has taken, and after every completion, a round looks for a
/// completion. Where head and tail differ, it reads the one at the head, collects it, and moves the
/// head it then finds one step on. It looks for a slot again, or returns, only where they do not
/// differ.
pub proof fn reading_follows_every_call(
    state: SelectView,
    events: Seq<selector::Event>,
    available: u32,
    head: u32,
    tail: u32,
    completion: Completion,
)
    requires
        state.wf(),
        state.inbox.completion_ring_size > 0,
    ensures
        state.phase == Phase::Flushing || state.phase == Phase::Submitting ==> {
            let step = state.next(events, Reply::Submitted(Ok(available)));
            step.action == ActionView::LoadCompletionRing && step.events == events
        },
        state.phase == Phase::Peeking ==> {
            let step = state.next(events, Reply::Ring { head, tail });
            &&& step.events == events
            &&& head != tail ==> step.action == ActionView::ReadCompletion(
                (abi::COMPLETION_RING_OFF + 16 + abi::COMPLETION_SIZE * (head & ((
                state.inbox.completion_ring_size - 1) as u32))) as u64,
            )
            &&& head == tail && state.queued < state.watches.len() ==> step.action
                == ActionView::LoadSubmissionRing
            &&& head == tail && state.queued == state.watches.len() ==> step.action
                == ActionView::Return(Ok(()))
        },
        state.phase == Phase::Reading ==> {
            let step = state.next(events, Reply::Completion(completion));
            &&& step.action == ActionView::LoadCompletionHead
            &&& step.events == selector::collected(events, completion)
        },
        state.phase == Phase::Advancing ==> {
            let step = state.next(events, Reply::Position(head));
            &&& step.events == events
            &&& step.action matches ActionView::StoreCompletionHead(next)
            &&& next == (if head == u32::MAX {
                0
            } else {
                head + 1
            })
        },
        state.phase == Phase::Storing ==> {
            let step = state.next(events, Reply::Done);
            step.action == ActionView::LoadCompletionRing && step.events == events
        },
{
}

} // verus!
