//! Registrations, the watches they are armed with, and the events their answers become.
use vstd::prelude::*;
use crate::abi;
use crate::error::{Error, SyscallError};
use crate::inbox::{Completion, Inbox, RingLayout, Submission};
use crate::select::{Action, Select};
use crate::types::{Duration, Interest, RawHandle, Token};

verus! {

/// The depth a selector asks of its inbox.
pub const INBOX_DEPTH: u32 = 64;

/// The bit of an event that reports readability.
pub const FLAG_READABLE: u8 = 1;

/// The bit of an event that reports writability.
pub const FLAG_WRITABLE: u8 = 2;

/// A handle to hear about, what to hear, and the token to hear it under. It needs its watch
/// armed again after each event.
#[derive(Clone, Copy, Debug, PartialEq, Eq, Hash, Structural)]
pub struct Registration {
    pub handle: RawHandle,
    pub interest: Interest,
    pub token: Token,
}

/// Readiness of what is registered under one token.
#[derive(Clone, Copy, Debug, PartialEq, Eq, Hash, Structural)]
pub struct Event {
    pub token: usize,
    pub flags: u8,
}

/// What one round of selecting found ready.
pub type Events = Vec<Event>;

impl Event {
    /// Whether the event reports readability.
    pub open spec fn readable(self) -> bool {
        self.flags & FLAG_READABLE != 0
    }

    /// Whether the event reports writability.
    pub open spec fn writable(self) -> bool {
        self.flags & FLAG_WRITABLE != 0
    }
}

/// Whether a watch's flags, asked for or answered, speak of readability.
pub open spec fn has_readable(flags: u32) -> bool {
    flags & abi::READABLE != 0
}

/// Whether a watch's flags, asked for or answered, speak of writability.
pub open spec fn has_writable(flags: u32) -> bool {
    flags & abi::WRITABLE != 0
}

/// The flags of a watch that asks for an interest.
pub open spec fn watch_flags(interest: Interest) -> u32 {
    match (interest.readable, interest.writable) {
        (true, true) => (abi::READABLE + abi::WRITABLE) as u32,
        (true, false) => abi::READABLE,
        (false, true) => abi::WRITABLE,
        (false, false) => 0,
    }
}

/// The flags of an event that reports what a watch answered. An answer that names neither
/// readability nor writability is taken for readability.
pub open spec fn event_flags(result: u32) -> u8 {
    match (has_readable(result), has_writable(result)) {
        (true, true) => (FLAG_READABLE + FLAG_WRITABLE) as u8,
        (false, true) => FLAG_WRITABLE,
        (_, false) => FLAG_READABLE,
    }
}

/// The flags of a watch that asks for `interest`.
pub fn interests_to_flags(interest: Interest) -> (flags: u32)
    ensures
        flags == watch_flags(interest),
        has_readable(flags) == interest.readable,
        has_writable(flags) == interest.writable,
        flags & abi::READABLE != 0 <==> interest.readable,
        flags & abi::WRITABLE != 0 <==> interest.writable,
{
    let mut flags: u32 = 0;
    if interest.is_readable() {
        flags = flags | abi::readable();
    }
    if interest.is_writable() {
        flags = flags | abi::writable();
    }
    proof {
        assert(0u32 | 1 == 1 && 0u32 | 4 == 4 && 1u32 | 4 == 5) by (bit_vector);
        assert(0u32 & 1 == 0 && 0u32 & 4 == 0 && 1u32 & 1 == 1 && 1u32 & 4 == 0 && 4u32 & 1 == 0
            && 4u32 & 4 == 4 && 5u32 & 1 == 1 && 5u32 & 4 == 4) by (bit_vector);
    }
    flags
}

/// The flags of an event that reports `result`, a watch's answer.
pub fn poll_result_to_flags(result: u32) -> (flags: u8)
    ensures
        flags == event_flags(result),
{
    let mut flags: u8 = 0;
    if result & abi::readable() != 0 {
        flags = flags | FLAG_READABLE;
    }
    if result & abi::writable() != 0 {
        flags = flags | FLAG_WRITABLE;
    }
    proof {
        assert(0u8 | 1 == 1 && 0u8 | 2 == 2 && 1u8 | 2 == 3) by (bit_vector);
    }
    // An answer with no specific flags is taken for readability.
    if flags == 0 {
        flags = FLAG_READABLE;
    }
    flags
}

/// The watch that arms a registration.
pub open spec fn watch(registration: Registration) -> Submission {
    Submission {
        op: abi::OP_WATCH,
        handle: registration.handle,
        op_flags: watch_flags(registration.interest),
        token: registration.token.0 as u64,
        ..Submission::zeroed()
    }
}

/// The watches that arm every registration, one each, in order.
pub open spec fn watches(registrations: Seq<Registration>) -> Seq<Submission> {
    registrations.map_values(|registration: Registration| watch(registration))
}

/// The watch that arms `registration`.
pub fn arm(registration: &Registration) -> (submission: Submission)
    ensures
        submission == watch(*registration),
        submission.op == abi::OP_WATCH,
        submission.handle == registration.handle,
        submission.token == registration.token.0,
        submission.op_flags & abi::READABLE != 0 <==> registration.interest.readable,
        submission.op_flags & abi::WRITABLE != 0 <==> registration.interest.writable,
{
    let mut submission = abi::default_submission();
    submission.op = abi::op_watch();
    submission.handle = registration.handle;
    submission.op_flags = interests_to_flags(registration.interest);
    submission.token = registration.token.0 as u64;
    submission
}

/// The tokens of some events, in order.
pub open spec fn tokens(events: Seq<Event>) -> Seq<usize> {
    events.map_values(|event: Event| event.token)
}

/// The events once one more completion is known. A completion with no positive result reports
/// nothing. Any other adds its flags to the event of its token, which it appends if there is
/// none yet.
pub open spec fn collected(events: Seq<Event>, completion: Completion) -> Seq<Event> {
    let token = completion.token as usize;
    let flags = event_flags(completion.result as u32);
    if completion.result <= 0 {
        events
    } else {
        match tokens(events).index_of_first(token) {
            Some(i) => events.update(i, Event { token, flags: events[i].flags | flags }),
            None => events.push(Event { token, flags }),
        }
    }
}

/// Takes one more completion into `events`.
pub fn collect(events: &mut Events, completion: Completion)
    ensures
        final(events)@ == collected(old(events)@, completion),
{
    if completion.result > 0 {
        let flags = poll_result_to_flags(completion.result as u32);
        let token: usize = completion.token as usize;
        let mut i: usize = 0;
        while i < events.len()
            invariant
                i <= events.len(),
                events@ == old(events)@,
                token == completion.token as usize,
                flags == event_flags(completion.result as u32),
                completion.result > 0,
                forall|j: int| 0 <= j < i ==> events@[j].token != token,
            decreases events.len() - i,
        {
            if events[i].token == token {
                let existing = events[i];
                proof {
                    tokens(events@).index_of_first_ensures(token);
                    assert(tokens(events@)[i as int] == token);
                    assert(forall|j: int| 0 <= j < i ==> tokens(events@)[j] != token);
                }
                events.set(i, Event { token: existing.token, flags: existing.flags | flags });
                return ;
            }
            i = i + 1;
        }
        proof {
            tokens(events@).index_of_first_ensures(token);
            assert(forall|j: int| 0 <= j < events@.len() ==> tokens(events@)[j] != token);
        }
        events.push(Event { token, flags });
    }
}

/// The events once a row of completions is known.
pub open spec fn collected_all(events: Seq<Event>, completions: Seq<Completion>) -> Seq<Event>
    decreases completions.len(),
{
    if completions.len() == 0 {
        events
    } else {
        collected_all(collected(events, completions.first()), completions.drop_first())
    }
}

/// The nanoseconds that stand for a wait without end.
pub const FOREVER: u64 = u64::MAX;

/// The wait handed to the kernel for a timeout: without end for none, else its nanoseconds,
/// of which a word keeps the low 64 bits.
pub open spec fn wait_nanos(timeout: Option<Duration>) -> u64 {
    match timeout {
        None => FOREVER,
        Some(span) => (span.total_nanos() % 0x1_0000_0000_0000_0000) as u64,
    }
}

/// The wait handed to the kernel for `timeout`.
pub fn timeout_to_nanos(timeout: Option<Duration>) -> (nanos: u64)
    ensures
        nanos == wait_nanos(timeout),
{
    match timeout {
        None => FOREVER,
        Some(span) => {
            let nanos: u128 = span.as_nanos();
            proof {
                assert(nanos as u64 == nanos % 0x1_0000_0000_0000_0000) by (bit_vector);
            }
            #[verifier::truncate]
            (nanos as u64)
        },
    }
}

/// A timeout of less than the largest word of nanoseconds is handed to the kernel as it is, its
/// seconds as a thousand million nanoseconds each, and so never as a wait without end, which is
/// what no timeout is handed over as.
pub proof fn timeout_is_exact(span: Duration)
    requires
        span.secs * 1_000_000_000 + span.nanos < u64::MAX,
    ensures
        wait_nanos(Some(span)) == span.secs * 1_000_000_000 + span.nanos,
        wait_nanos(None) == u64::MAX,
        wait_nanos(Some(span)) != wait_nanos(None),
{
}

/// Of any timeout the kernel is handed a wait that differs from it by a multiple of as many
/// nanoseconds as there are words.
pub proof fn timeout_keeps_its_low_word(span: Duration)
    ensures
        exists|words: int|
            span.secs * 1_000_000_000 + span.nanos == wait_nanos(Some(span)) + #[trigger] (words
                * 0x1_0000_0000_0000_0000),
{
    let total = span.secs * 1_000_000_000 + span.nanos;
    let words = total / 0x1_0000_0000_0000_0000;
    assert(total == wait_nanos(Some(span)) + words * 0x1_0000_0000_0000_0000);
}

/// Two timeouts that fit a word wait as much apart as they are apart, and one of no seconds and no
/// nanoseconds does not wait.
pub proof fn timeouts_keep_their_distance(shorter: Duration, longer: Duration)
    requires
        longer.secs * 1_000_000_000 + longer.nanos <= u64::MAX,
        shorter.secs * 1_000_000_000 + shorter.nanos <= u64::MAX,
    ensures
        wait_nanos(Some(longer)) - wait_nanos(Some(shorter)) == (longer.secs - shorter.secs)
            * 1_000_000_000 + (longer.nanos - shorter.nanos),
        wait_nanos(Some(Duration { secs: 0, nanos: 0 })) == 0,
{
}

/// The handles of some registrations, in order.
pub open spec fn handles(registrations: Seq<Registration>) -> Seq<RawHandle> {
    registrations.map_values(|registration: Registration| registration.handle)
}

/// The registrations once the first of `new`'s handle has become `new`, or, if its handle is
/// not registered, once `new` has been added.
pub open spec fn reregistered(registrations: Seq<Registration>, new: Registration) -> Seq<
    Registration,
> {
    match handles(registrations).index_of_first(new.handle) {
        Some(i) => registrations.update(i, new),
        None => registrations.push(new),
    }
}

/// The registrations of every handle but `handle`.
pub open spec fn deregistered(registrations: Seq<Registration>, handle: RawHandle) -> Seq<
    Registration,
> {
    registrations.filter(|registration: Registration| registration.handle != handle)
}

/// The first selector's number.
pub const FIRST_SELECTOR_ID: usize = 1;

/// The numbers left for selectors.
#[derive(Debug)]
pub struct SelectorIds {
    /// The next selector's number.
    pub next: usize,
}

/// The number `count` selectors after the one numbered `first`. Numbers wrap around at the end
/// of `usize`.
pub open spec fn selector_id(first: usize, count: nat) -> usize {
    ((first + count) % (usize::MAX + 1)) as usize
}

/// Selectors made one after another have different numbers, as long as the numbers last: each the
/// number after the one before it, and zero after the largest.
pub proof fn selector_ids_are_distinct(first: usize, i: nat, j: nat)
    requires
        i < j < i + usize::MAX + 1,
    ensures
        selector_id(first, i) != selector_id(first, j),
        selector_id(selector_id(first, i), 1) == selector_id(first, i + 1),
        selector_id(first, 0) == first,
        selector_id(first, 1) == (if first == usize::MAX {
            0
        } else {
            first + 1
        }),
{
    let all = usize::MAX + 1;
    let (low, high) = ((first + i) as int, (first + j) as int);
    if low % all == high % all {
        vstd::arithmetic::div_mod::lemma_mod_equivalence(high, low, all);
        vstd::arithmetic::div_mod::lemma_small_mod((j - i) as nat, all as nat);
    }
    vstd::arithmetic::div_mod::lemma_add_mod_noop(low, 1, all);
    vstd::arithmetic::div_mod::lemma_small_mod(1, all as nat);
    vstd::arithmetic::div_mod::lemma_small_mod(first as nat, all as nat);
    if first == usize::MAX {
        vstd::arithmetic::div_mod::lemma_mod_self_0(all);
    } else {
        vstd::arithmetic::div_mod::lemma_small_mod((first + 1) as nat, all as nat);
    }
}

/// What the handles of one selector share: its registrations.
#[derive(Debug)]
pub struct SelectorInner {
    pub registrations: Vec<Registration>,
}

impl View for SelectorInner {
    type V = Seq<Registration>;

    open spec fn view(&self) -> Seq<Registration> {
        self.registrations@
    }
}

/// A handle on a selector: the inbox it waits on and the number that tells selectors apart.
///
/// The registrations are shared between the handles of one selector, so they are kept apart,
/// in a [`SelectorInner`] that each operation is given.
#[derive(Debug, PartialEq, Eq, Structural)]
pub struct Selector {
    pub inbox: Inbox,
    pub id: usize,
}

impl Selector {
    /// A selector with nothing registered, under the next number of `ids`, on the inbox the
    /// kernel answered a setup call for [`INBOX_DEPTH`] with, or the error for its refusal,
    /// which takes no number.
    pub fn new(
        ids: &mut SelectorIds,
        answer: Result<(RawHandle, RingLayout), SyscallError>,
    ) -> (selector: Result<(Selector, SelectorInner), Error>)
        ensures
            match answer {
                Ok((handle, layout)) => {
                    &&& selector matches Ok((shared, inner))
                    &&& shared == (Selector { inbox: Inbox::laid_out(handle, layout), id: old(ids).next })
                    &&& inner@ == Seq::<Registration>::empty()
                    &&& final(ids).next == selector_id(old(ids).next, 1)
                },
                Err(e) => {
                    &&& selector matches Err(error)
                    &&& error@ == e.as_other()
                    &&& *final(ids) == *old(ids)
                },
            },
    {
        match Inbox::new(answer) {
            Ok(inbox) => {
                let id: usize = ids.next;
                ids.next = id.wrapping_add(1);
                proof {
                    let all = usize::MAX + 1;
                    if id == usize::MAX {
                        vstd::arithmetic::div_mod::lemma_mod_self_0(all);
                    } else {
                        vstd::arithmetic::div_mod::lemma_small_mod((id + 1) as nat, all as nat);
                    }
                }
                Ok((Selector { inbox, id }, SelectorInner { registrations: Vec::new() }))
            },
            Err(e) => Err(e),
        }
    }

    /// A second handle on the same selector: the same inbox under the same number.
    pub fn try_clone(&self) -> (clone: Result<Selector, Error>)
        ensures
            clone == Ok::<Selector, Error>(*self),
    {
        Ok(Selector { inbox: self.inbox, id: self.id })
    }

    /// Starts a round of selecting: empties `events` and takes down a watch to arm for every
    /// registration. The round goes on as [`Select`] says, from the action returned with it.
    pub fn select(
        &self,
        inner: &SelectorInner,
        events: &mut Events,
        timeout: Option<Duration>,
    ) -> (round: (Select, Action))
        ensures
            round.0.wf(),
            (crate::select::Step {
                state: round.0@,
                events: final(events)@,
                action: round.1@,
            }) == crate::select::started(self.inbox, inner@, timeout),
    {
        let count = inner.registrations.len();
        let mut submissions: Vec<Submission> = Vec::new();
        let mut i: usize = 0;
        while i < count
            invariant
                i <= count,
                count == inner@.len(),
                submissions@ == watches(inner@).take(i as int),
            decreases count - i,
        {
            submissions.push(arm(&inner.registrations[i]));
            i = i + 1;
            proof {
                assert(watches(inner@).take(i as int) == watches(inner@).take(i - 1).push(
                    watches(inner@)[i - 1],
                ));
            }
        }
        proof {
            assert(watches(inner@).take(count as int) == watches(inner@));
        }
        Select::start(self.inbox, submissions, timeout_to_nanos(timeout), events)
    }

    /// Registers `handle` to hear of `interest` under `token`. A handle can be registered more
    /// than once.
    pub fn register_handle(
        &self,
        inner: &mut SelectorInner,
        handle: RawHandle,
        token: Token,
        interest: Interest,
    ) -> (result: Result<(), Error>)
        ensures
            result is Ok,
            final(inner)@ == old(inner)@.push(Registration { handle, interest, token }),
    {
        inner.registrations.push(Registration { handle, interest, token });
        Ok(())
    }

    /// Changes what the first registration of `handle` hears of and under which token, or
    /// registers the handle if it is not registered.
    pub fn reregister_handle(
        &self,
        inner: &mut SelectorInner,
        handle: RawHandle,
        token: Token,
        interest: Interest,
    ) -> (result: Result<(), Error>)
        ensures
            result is Ok,
            final(inner)@ == reregistered(old(inner)@, Registration { handle, interest, token }),
    {
        let count = inner.registrations.len();
        let mut i: usize = 0;
        while i < count
            invariant
                i <= count,
                count == inner@.len(),
                inner@ == old(inner)@,
                forall|j: int| 0 <= j < i ==> inner@[j].handle != handle,
            decreases count - i,
        {
            if inner.registrations[i].handle == handle {
                proof {
                    handles(inner@).index_of_first_ensures(handle);
                    assert(handles(inner@)[i as int] == handle);
                    assert(forall|j: int| 0 <= j < i ==> handles(inner@)[j] != handle);
                }
                inner.registrations.set(i, Registration { handle, interest, token });
                return Ok(());
            }
            i = i + 1;
        }
        proof {
            handles(inner@).index_of_first_ensures(handle);
            assert(forall|j: int| 0 <= j < count ==> handles(inner@)[j] != handle);
        }
        inner.registrations.push(Registration { handle, interest, token });
        Ok(())
    }

    /// Removes every registration of `handle` and keeps the others, in order.
    pub fn deregister_handle(&self, inner: &mut SelectorInner, handle: RawHandle) -> (result:
        Result<(), Error>)
        ensures
            result is Ok,
            final(inner)@ == deregistered(old(inner)@, handle),
    {
        let count = inner.registrations.len();
        let mut kept: Vec<Registration> = Vec::new();
        let mut i: usize = 0;
        while i < count
            invariant
                i <= count,
                count == inner@.len(),
                inner@ == old(inner)@,
                kept@ == deregistered(inner@.take(i as int), handle),
            decreases count - i,
        {
            let registration = inner.registrations[i];
            proof {
                reveal(Seq::filter);
                assert(inner@.take(i + 1).drop_last() == inner@.take(i as int));
                assert(inner@.take(i + 1).last() == inner@[i as int]);
            }
            if registration.handle != handle {
                kept.push(registration);
            }
            i = i + 1;
        }
        proof {
            assert(inner@.take(count as int) == inner@);
        }
        inner.registrations = kept;
        Ok(())
    }

    /// The number that tells selectors apart.
    pub fn id(&self) -> (id: usize)
        ensures
            id == self.id,
    {
        self.id
    }
}

} // verus!
