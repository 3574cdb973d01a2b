//! What a page holds, and what queueing, reading and rounds of selecting whose watches find free
//! slots do to it.
use vstd::prelude::*;
use crate::inbox;
use crate::inbox::{Completion, Inbox, Submission, SubmissionWrite, SubmitRequest};
use crate::select;
use crate::select::{ActionView, Phase, Reply, SelectView, Step};
use crate::selector;
use crate::selector::{Event, Registration};
use crate::types::{Duration, RawHandle};

verus! {

/// Whether a ring of this size has a power of two of slots.
pub open spec fn is_power_of_two(size: u32) -> bool {
    exists|exponent: nat| exponent < 32 && size == #[trigger] vstd::arithmetic::power2::pow2(exponent)
}

/// The shared page of an inbox: where its rings stand, and what is written at each offset.
pub struct Page {
    pub submission_head: u32,
    pub submission_tail: u32,
    pub completion_head: u32,
    pub completion_tail: u32,
    pub submissions: Map<int, Submission>,
    pub completions: Map<int, Completion>,
}

impl Page {
    /// The submissions queued and not yet handed to the kernel, oldest first.
    pub open spec fn queued(self, inbox: Inbox) -> Seq<Submission> {
        Seq::new(
            inbox::distance(self.submission_head, self.submission_tail),
            |i: int|
                self.submissions[inbox::submission_offset(
                    inbox::slot(
                        inbox::position(self.submission_head, i),
                        inbox.submission_ring_size,
                    ),
                )],
        )
    }

    /// The completions posted and not yet read, oldest first.
    pub open spec fn unread(self, inbox: Inbox) -> Seq<Completion> {
        Seq::new(
            inbox::distance(self.completion_head, self.completion_tail),
            |i: int|
                self.completions[inbox::completion_offset(
                    inbox::slot(
                        inbox::position(self.completion_head, i),
                        inbox.completion_ring_size,
                    ),
                )],
        )
    }

    /// The page once a submission has been written and its tail stored.
    pub open spec fn with_submission(self, write: SubmissionWrite) -> Page {
        Page {
            submission_tail: write.tail,
            submissions: self.submissions.insert(write.offset as int, write.submission),
            ..self
        }
    }
}

/// A slot is its position's remainder by the size of the ring, which has one.
pub proof fn slot_is_remainder(at: u32, size: u32)
    requires
        is_power_of_two(size),
    ensures
        size > 0,
        inbox::slot(at, size) == at % size,
{
    let exponent = choose|exponent: nat|
        exponent < 32 && size == #[trigger] vstd::arithmetic::power2::pow2(exponent);
    vstd::arithmetic::power2::lemma_pow2_pos(exponent);
    vstd::bits::lemma_u32_low_bits_mask_is_mod(at, exponent);
    vstd::bits::lemma_u32_pow2_no_overflow(exponent);
}

/// Positions that wrap around keep their slots in step: the slot `count` steps on is that of
/// the position that far on, counted without end.
proof fn slot_after(start: u32, count: nat, size: u32)
    requires
        is_power_of_two(size),
    ensures
        size > 0,
        inbox::slot(inbox::position(start, count as int), size) == (start + count) % size as int,
{
    let exponent = choose|exponent: nat|
        exponent < 32 && size == #[trigger] vstd::arithmetic::power2::pow2(exponent);
    let rest = vstd::arithmetic::power2::pow2((32 - exponent) as nat);
    vstd::arithmetic::power2::lemma_pow2_adds(exponent, (32 - exponent) as nat);
    vstd::arithmetic::power2::lemma2_to64();
    vstd::arithmetic::power2::lemma_pow2_pos(exponent);
    vstd::arithmetic::power2::lemma_pow2_pos((32 - exponent) as nat);
    assert(size * rest == 0x1_0000_0000);
    vstd::arithmetic::div_mod::lemma_mod_mod((start + count) as int, size as int, rest as int);
    slot_is_remainder(inbox::position(start, count as int), size);
}

/// As many positions in a row as a ring has slots take a slot each.
pub proof fn slots_are_distinct(start: u32, i: nat, j: nat, size: u32)
    requires
        is_power_of_two(size),
        i < j < i + size,
    ensures
        inbox::slot(inbox::position(start, i as int), size) != inbox::slot(
            inbox::position(start, j as int),
            size,
        ),
{
    slot_after(start, i, size);
    slot_after(start, j, size);
    let (low, high) = ((start + i) as int, (start + j) as int);
    if low % size as int == high % size as int {
        vstd::arithmetic::div_mod::lemma_mod_equivalence(high, low, size as int);
        vstd::arithmetic::div_mod::lemma_small_mod((j - i) as nat, size as nat);
    }
}

/// Queueing adds a submission behind those already queued and leaves them as they are, as long
/// as a slot is free.
pub proof fn queueing_appends(page: Page, inbox: Inbox, submission: Submission)
    requires
        is_power_of_two(inbox.submission_ring_size),
        page.queued(inbox).len() < inbox.submission_ring_size,
    ensures
        page.with_submission(inbox.queueing(page.submission_tail, submission)).queued(inbox)
            == page.queued(inbox).push(submission),
{
    let size = inbox.submission_ring_size;
    let count = page.queued(inbox).len();
    let after = page.with_submission(inbox.queueing(page.submission_tail, submission));
    let head = page.submission_head;
    assert(page.submission_tail == inbox::position(head, count as int));
    assert(after.queued(inbox).len() == count + 1);
    assert forall|i: int| 0 <= i < count implies after.queued(inbox)[i] == page.queued(
        inbox,
    )[i] by {
        slots_are_distinct(head, i as nat, count, size);
    }
    assert(after.queued(inbox) == page.queued(inbox).push(submission));
}

/// The first unread completion is where [`Inbox::first_unread`] points, there is one unless head
/// and tail are the same, and once the head has moved on, the others are unread, in order.
pub proof fn reading_takes_the_oldest(page: Page, inbox: Inbox)
    ensures
        page.unread(inbox).len() == 0 <==> page.completion_head == page.completion_tail,
        page.unread(inbox).len() > 0 ==> {
            &&& page.unread(inbox).first() == page.completions[inbox.first_unread(
                page.completion_head,
            ) as int]
            &&& (Page {
                completion_head: inbox::position(page.completion_head, 1),
                ..page
            }).unread(inbox) == page.unread(inbox).drop_first()
        },
{
    let after = Page { completion_head: inbox::position(page.completion_head, 1), ..page };
    if page.unread(inbox).len() > 0 {
        assert(inbox::position(page.completion_head, 0) == page.completion_head);
        assert forall|i: int| 0 <= i < after.unread(inbox).len() implies after.unread(inbox)[i]
            == page.unread(inbox)[i + 1] by {
            assert(inbox::position(after.completion_head, i) == inbox::position(
                page.completion_head,
                i + 1,
            ));
        }
        assert(after.unread(inbox) == page.unread(inbox).drop_first());
    }
}

/// A submission slot lies behind both rings' headers and shares no byte with another slot.
pub proof fn submission_slots_are_apart(i: u32, j: u32)
    requires
        i < j,
    ensures
        crate::abi::SUBMISSION_RING_OFF + inbox::RING_HEADER_SIZE <= inbox::submission_offset(i),
        crate::abi::COMPLETION_RING_OFF + inbox::RING_HEADER_SIZE <= inbox::submission_offset(i),
        inbox::submission_offset(i) + crate::abi::SUBMISSION_SIZE <= inbox::submission_offset(j),
{
}

/// A completion slot lies behind both rings' headers and shares no byte with another slot, and
/// the slots of a ring of at most 511 end before the submission array starts.
pub proof fn completion_slots_are_apart(i: u32, j: u32)
    requires
        i < j,
    ensures
        crate::abi::SUBMISSION_RING_OFF + inbox::RING_HEADER_SIZE <= inbox::completion_offset(i),
        crate::abi::COMPLETION_RING_OFF + inbox::RING_HEADER_SIZE <= inbox::completion_offset(i),
        inbox::completion_offset(i) + crate::abi::COMPLETION_SIZE <= inbox::completion_offset(j),
        j < 511 ==> inbox::completion_offset(j) + crate::abi::COMPLETION_SIZE
            <= crate::abi::SUBMISSIONS_OFF,
{
}

impl Page {
    /// What comes of an action that touches the page and nothing else, and the page after it.
    pub open spec fn perform(self, action: ActionView) -> (Page, Reply) {
        match action {
            ActionView::Queue(write) => (self.with_submission(write), Reply::Done),
            ActionView::LoadSubmissionRing => (
                self,
                Reply::Ring { head: self.submission_head, tail: self.submission_tail },
            ),
            ActionView::LoadCompletionRing => (
                self,
                Reply::Ring { head: self.completion_head, tail: self.completion_tail },
            ),
            ActionView::ReadCompletion(offset) => (
                self,
                Reply::Completion(self.completions[offset as int]),
            ),
            ActionView::LoadCompletionHead => (self, Reply::Position(self.completion_head)),
            ActionView::StoreCompletionHead(head) => (
                Page { completion_head: head, ..self },
                Reply::Done,
            ),
            ActionView::Submit(_) | ActionView::Return(_) => (self, Reply::Done),
        }
    }
}

/// A round of selecting and the page it works on, at one moment.
pub struct Moment {
    pub step: Step,
    pub page: Page,
}

impl Moment {
    /// The moment after the next action, which touches the page and nothing else.
    pub open spec fn next(self) -> Moment {
        let (page, reply) = self.page.perform(self.step.action);
        Moment { step: self.step.state.next(self.step.events, reply), page }
    }

    /// The moment after `count` such actions.
    pub open spec fn after(self, count: nat) -> Moment
        decreases count,
    {
        if count == 0 {
            self
        } else {
            self.next().after((count - 1) as nat)
        }
    }
}

/// Two actions arm each watch that is left and finds a free slot, and collect nothing.
proof fn arming(state: SelectView, events: Seq<Event>, page: Page)
    requires
        is_power_of_two(state.inbox.submission_ring_size),
        state.queued <= state.watches.len(),
        page.queued(state.inbox).len() + state.watches.len() - state.queued
            <= state.inbox.submission_ring_size,
    ensures
        ({
            let left = (state.watches.len() - state.queued) as nat;
            let end = (Moment { step: state.arm_next(events), page }).after(2 * left);
            &&& end.step.action == ActionView::LoadSubmissionRing
            &&& end.step.events == events
            &&& end.step.state == (SelectView {
                queued: state.watches.len(),
                phase: Phase::Counting,
                ..state
            })
            &&& end.page.queued(state.inbox) == page.queued(state.inbox) + state.watches.skip(
                state.queued as int,
            )
            &&& end.page == (Page {
                submission_tail: end.page.submission_tail,
                submissions: end.page.submissions,
                ..page
            })
        }),
    decreases state.watches.len() - state.queued,
{
    let begin = Moment { step: state.arm_next(events), page };
    let left = (state.watches.len() - state.queued) as nat;
    if left == 0 {
        assert(state.watches.skip(state.queued as int) =~= Seq::empty());
        assert(begin.after(0) == begin);
        assert(page.queued(state.inbox) + Seq::<Submission>::empty() =~= page.queued(state.inbox));
    } else {
        let watch = state.watches[state.queued as int];
        let write = state.inbox.queueing(page.submission_tail, watch);
        queueing_appends(page, state.inbox, watch);
        let queued = SelectView { queued: state.queued + 1, phase: Phase::Queueing, ..state };
        let written = page.with_submission(write);
        assert(begin.next().step == (Step {
            state: queued,
            events,
            action: ActionView::Queue(write),
        }));
        assert(begin.next().next() == (Moment { step: queued.arm_next(events), page: written }));
        assert(begin.after(2 * left) == begin.next().next().after((2 * left - 2) as nat)) by {
            reveal_with_fuel(Moment::after, 3);
        }
        arming(queued, events, written);
        assert(page.queued(state.inbox).push(watch) + state.watches.skip(queued.queued as int)
            =~= page.queued(state.inbox) + state.watches.skip(state.queued as int));
    }
}

/// With as many free slots as registrations, a round of selecting queues one watch for every
/// registration, in order, behind what was queued before, and then hands all of it to the kernel
/// in one call. The call waits as long as the timeout says for at least one completion, or, with
/// nothing registered, for none.
pub proof fn round_submits_every_watch(
    inbox: Inbox,
    registrations: Seq<Registration>,
    timeout: Option<Duration>,
    page: Page,
)
    requires
        is_power_of_two(inbox.submission_ring_size),
        page.queued(inbox).len() + registrations.len() <= inbox.submission_ring_size,
    ensures
        ({
            let begin = Moment { step: select::started(inbox, registrations, timeout), page };
            let end = begin.after(2 * registrations.len() + 1);
            &&& end.step.action == ActionView::Submit(
                SubmitRequest {
                    handle: inbox.handle,
                    to_submit: (page.queued(inbox).len() + registrations.len()) as u32,
                    min_complete: if registrations.len() == 0 {
                        0
                    } else {
                        1
                    },
                    timeout_nanos: selector::wait_nanos(timeout),
                },
            )
            &&& end.step.state.inbox == inbox
            &&& end.step.state.phase == Phase::Submitting
            &&& end.step.state.wf()
            &&& end.step.events == Seq::<Event>::empty()
            &&& end.page.queued(inbox) == page.queued(inbox) + selector::watches(registrations)
            &&& end.page.unread(inbox) == page.unread(inbox)
        }),
{
    let state = SelectView {
        inbox,
        watches: selector::watches(registrations),
        queued: 0,
        timeout_nanos: selector::wait_nanos(timeout),
        phase: Phase::Arming,
    };
    let begin = Moment { step: select::started(inbox, registrations, timeout), page };
    arming(state, Seq::empty(), page);
    assert(state.watches.skip(0) =~= state.watches);
    after_adds(begin, 2 * registrations.len(), 1);
    let counting = begin.after(2 * registrations.len());
    assert(counting.after(1) == counting.next()) by {
        reveal_with_fuel(Moment::after, 2);
    }
    assert(counting.page.queued(inbox).len() == page.queued(inbox).len() + registrations.len());
    assert(counting.page.unread(inbox) =~= page.unread(inbox));
}

proof fn after_adds(moment: Moment, first: nat, second: nat)
    ensures
        moment.after(first + second) == moment.after(first).after(second),
    decreases first,
{
    if first > 0 {
        after_adds(moment.next(), (first - 1) as nat, second);
    }
}

/// While a completion is unread, a round that looks for one reads the oldest, collects it, moves
/// the head past it and looks again.
pub proof fn round_reads_the_oldest(state: SelectView, events: Seq<Event>, page: Page)
    requires
        state.phase == Phase::Peeking,
        page.unread(state.inbox).len() > 0,
    ensures
        ({
            let looking = ActionView::LoadCompletionRing;
            let begin = Moment { step: Step { state, events, action: looking }, page };
            let end = begin.after(4);
            &&& end.step == (Step {
                state,
                events: selector::collected(events, page.unread(state.inbox).first()),
                action: looking,
            })
            &&& end.page == (Page {
                completion_head: inbox::position(page.completion_head, 1),
                ..page
            })
            &&& end.page.unread(state.inbox) == page.unread(state.inbox).drop_first()
        }),
{
    reading_takes_the_oldest(page, state.inbox);
    reveal_with_fuel(Moment::after, 5);
    let looking = ActionView::LoadCompletionRing;
    let begin = Moment { step: Step { state, events, action: looking }, page };
    let reading = begin.next();
    let advancing = reading.next();
    let storing = advancing.next();
    assert(storing.next().step.state == state);
    assert(begin.after(4) == storing.next());
}

proof fn draining(state: SelectView, events: Seq<Event>, page: Page)
    requires
        state.phase == Phase::Peeking,
        state.queued == state.watches.len(),
    ensures
        ({
            let unread = page.unread(state.inbox);
            let looking = ActionView::LoadCompletionRing;
            let begin = Moment { step: Step { state, events, action: looking }, page };
            let end = begin.after(4 * unread.len() + 1);
            &&& end.step.action == ActionView::Return(Ok(()))
            &&& end.step.state == state.at(Phase::Finished)
            &&& end.step.events == selector::collected_all(events, unread)
            &&& end.page == (Page { completion_head: page.completion_tail, ..page })
        }),
    decreases page.unread(state.inbox).len(),
{
    let unread = page.unread(state.inbox);
    let looking = ActionView::LoadCompletionRing;
    let begin = Moment { step: Step { state, events, action: looking }, page };
    reading_takes_the_oldest(page, state.inbox);
    if unread.len() == 0 {
        assert(begin.after(1) == begin.next()) by {
            reveal_with_fuel(Moment::after, 2);
        }
    } else {
        round_reads_the_oldest(state, events, page);
        let rest = Page { completion_head: inbox::position(page.completion_head, 1), ..page };
        after_adds(begin, 4, (4 * (unread.len() - 1) + 1) as nat);
        draining(state, selector::collected(events, unread.first()), rest);
    }
}

/// Once the kernel has answered its last call, a round of selecting over a page that stands still
/// reads every unread completion, oldest first, collects them, leaves none unread and returns
/// well.
pub proof fn round_collects_every_completion(
    state: SelectView,
    events: Seq<Event>,
    available: u32,
    page: Page,
)
    requires
        state.wf(),
        state.phase == Phase::Submitting,
    ensures
        ({
            let unread = page.unread(state.inbox);
            let answered = state.next(events, Reply::Submitted(Ok(available)));
            let end = (Moment { step: answered, page }).after(4 * unread.len() + 1);
            &&& end.step.action == ActionView::Return(Ok(()))
            &&& end.step.state.phase == Phase::Finished
            &&& end.step.events == selector::collected_all(events, unread)
            &&& end.page.unread(state.inbox).len() == 0
            &&& end.page.queued(state.inbox) == page.queued(state.inbox)
        }),
{
    draining(state.at(Phase::Peeking), events, page);
    let end = Page { completion_head: page.completion_tail, ..page };
    reading_takes_the_oldest(end, state.inbox);
    assert(end.queued(state.inbox) =~= page.queued(state.inbox));
}

/// A whole round of selecting, over a page with a free slot for every registration: the kernel is
/// handed the watches, and whatever page it leaves behind when it answers, `answered`, the round
/// reports the completions unread there, and no others.
pub proof fn round_reports_what_the_kernel_posts(
    inbox: Inbox,
    registrations: Seq<Registration>,
    timeout: Option<Duration>,
    page: Page,
    available: u32,
    answered: Page,
)
    requires
        is_power_of_two(inbox.submission_ring_size),
        page.queued(inbox).len() + registrations.len() <= inbox.submission_ring_size,
    ensures
        ({
            let begin = Moment { step: select::started(inbox, registrations, timeout), page };
            let submitted = begin.after(2 * registrations.len() + 1);
            let reply = Reply::Submitted(Ok(available));
            let unread = answered.unread(inbox);
            let end = (Moment {
                step: submitted.step.state.next(submitted.step.events, reply),
                page: answered,
            }).after(4 * unread.len() + 1);
            &&& submitted.step.action is Submit
            &&& submitted.page.queued(inbox) == page.queued(inbox) + selector::watches(
                registrations,
            )
            &&& end.step.action == ActionView::Return(Ok(()))
            &&& end.step.events == selector::collected_all(Seq::empty(), unread)
            &&& end.page.unread(inbox).len() == 0
        }),
{
    round_submits_every_watch(inbox, registrations, timeout, page);
    let begin = Moment { step: select::started(inbox, registrations, timeout), page };
    let submitted = begin.after(2 * registrations.len() + 1);
    round_collects_every_completion(
        submitted.step.state,
        submitted.step.events,
        available,
        answered,
    );
}

/// Positions are counted one by one and start over after the largest.
pub proof fn positions_are_counted(start: u32, i: nat, j: nat)
    ensures
        inbox::position(start, 0) == start,
        inbox::position(start, 1) == (if start == u32::MAX {
            0
        } else {
            start + 1
        }),
        inbox::position(inbox::position(start, i as int), j as int) == inbox::position(
            start,
            (i + j) as int,
        ),
{
    let all: int = 0x1_0000_0000;
    vstd::arithmetic::div_mod::lemma_add_mod_noop((start + i) as int, j as int, all);
    vstd::arithmetic::div_mod::lemma_add_mod_noop(
        inbox::position(start, i as int) as int,
        j as int,
        all,
    );
}

/// As many steps as the distance lead from the head to the tail, and no fewer do. They are what is
/// queued, and a slot is free while they are fewer than the slots.
pub proof fn distance_leads_to_the_tail(inbox: Inbox, head: u32, tail: u32, steps: nat)
    requires
        steps < 0x1_0000_0000,
    ensures
        inbox::position(head, inbox::distance(head, tail) as int) == tail,
        inbox::distance(head, tail) < 0x1_0000_0000,
        inbox::distance(head, inbox::position(head, steps as int)) == steps,
        inbox.has_room(head, inbox::position(head, steps as int)) <==> steps
            < inbox.submission_ring_size,
{
}

/// A slot has the bits of its position that lie under the mask, and no others.
pub proof fn slot_is_under_the_mask(at: u32, size: u32)
    requires
        size > 0,
    ensures
        inbox::slot(at, size) < size,
        inbox::slot(at, size) & !((size - 1) as u32) == 0,
        (inbox::slot(at, size) ^ at) & ((size - 1) as u32) == 0,
{
    let mask = (size - 1) as u32;
    assert(at & mask <= mask && (at & mask) & !mask == 0 && ((at & mask) ^ at) & mask == 0)
        by (bit_vector);
}

/// The slots of either array lie one behind the other, the first at the array's start.
pub proof fn slots_lie_in_a_row(i: u32, j: u32)
    ensures
        inbox::submission_offset(0) == crate::abi::SUBMISSIONS_OFF,
        inbox::submission_offset(j) - inbox::submission_offset(i) == (j - i)
            * crate::abi::SUBMISSION_SIZE,
        inbox::completion_offset(0) == crate::abi::COMPLETION_RING_OFF + inbox::RING_HEADER_SIZE,
        inbox::completion_offset(j) - inbox::completion_offset(i) == (j - i)
            * crate::abi::COMPLETION_SIZE,
{
}

/// Queueing writes the submission it is given, as it is, into the slot of the tail it is given, and
/// moves that tail one step on. The first unread completion is in the slot of the head.
pub proof fn rings_are_used_at_their_ends(inbox: Inbox, at: u32, submission: Submission)
    requires
        inbox.submission_ring_size > 0,
        inbox.completion_ring_size > 0,
    ensures
        ({
            let write = inbox.queueing(at, submission);
            &&& write.submission == submission
            &&& write.offset == 0x4000 + 40 * (at & ((inbox.submission_ring_size - 1) as u32))
            &&& write.tail == (if at == u32::MAX {
                0
            } else {
                at + 1
            })
        }),
        inbox.first_unread(at) == 0x2010 + 16 * (at & ((inbox.completion_ring_size - 1) as u32)),
{
}

/// An inbox has the handle it is set up with and the sizes of its layout, each of its own ring.
pub proof fn inboxes_are_as_laid_out(handle: RawHandle, layout: inbox::RingLayout)
    ensures
        ({
            let inbox = Inbox::laid_out(handle, layout);
            &&& inbox.handle == handle
            &&& inbox.submission_ring_size == layout.submission_ring_size
            &&& inbox.completion_ring_size == layout.completion_ring_size
        }),
{
}

} // verus!
