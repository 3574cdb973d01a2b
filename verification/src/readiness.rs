//! What the events of a round say of the completions they were collected from.
use vstd::prelude::*;
use crate::abi;
use crate::inbox::Completion;
use crate::selector;
use crate::selector::{Event, Registration, FLAG_READABLE, FLAG_WRITABLE};
use crate::types::{Interest, Token};
use crate::waker::{PipeEnds, Waker};

verus! {

/// Whether a completion reports on a token. One with no positive result reports on none.
pub open spec fn names(completion: Completion, token: usize) -> bool {
    completion.result > 0 && completion.token as usize == token
}

/// Whether a completion's result is taken for readability: it says so, or it says nothing of
/// writability either.
pub open spec fn reads(completion: Completion) -> bool {
    selector::has_readable(completion.result as u32) || !selector::has_writable(
        completion.result as u32,
    )
}

/// Whether a completion's result is taken for writability.
pub open spec fn writes(completion: Completion) -> bool {
    selector::has_writable(completion.result as u32)
}

/// What can be reported of a token.
pub enum Report {
    /// Anything at all.
    Anything,
    /// Readability.
    Readable,
    /// Writability.
    Writable,
}

impl Report {
    /// Whether an event's flags report this.
    pub open spec fn is_in(self, flags: u8) -> bool {
        match self {
            Report::Anything => true,
            Report::Readable => flags & FLAG_READABLE != 0,
            Report::Writable => flags & FLAG_WRITABLE != 0,
        }
    }

    /// Whether a completion's result is taken for this.
    pub open spec fn is_made_by(self, completion: Completion) -> bool {
        match self {
            Report::Anything => true,
            Report::Readable => reads(completion),
            Report::Writable => writes(completion),
        }
    }
}

/// Whether some event of a token makes a report.
pub open spec fn heard(events: Seq<Event>, token: usize, report: Report) -> bool {
    exists|i: int|
        0 <= i < events.len() && (#[trigger] events[i]).token == token && report.is_in(
            events[i].flags,
        )
}

/// Whether some completion makes a report on a token.
pub open spec fn answered(completions: Seq<Completion>, token: usize, report: Report) -> bool {
    exists|i: int|
        0 <= i < completions.len() && names(#[trigger] completions[i], token)
            && report.is_made_by(completions[i])
}

/// Whether an event reports something, and has no bit beyond those that report.
pub open spec fn is_sound(event: Event) -> bool {
    &&& event.readable() || event.writable()
    &&& 1 <= event.flags <= 3
}

/// Joined flags report what either reports, and have no further bit.
proof fn joined_flags(a: u8, b: u8, report: Report)
    ensures
        report.is_in(a | b) <==> report.is_in(a) || report.is_in(b),
        1 <= a <= 3 && 1 <= b <= 3 ==> 1 <= a | b <= 3,
{
    assert((a | b) & 1 != 0 <==> (a & 1 != 0 || b & 1 != 0)) by (bit_vector);
    assert((a | b) & 2 != 0 <==> (a & 2 != 0 || b & 2 != 0)) by (bit_vector);
    assert(1 <= a <= 3 && 1 <= b <= 3 ==> 1 <= a | b <= 3) by (bit_vector);
}

/// The flags made of a result report what the result is taken for, always something, and have no
/// further bit.
pub proof fn flags_report_the_result(completion: Completion)
    ensures
        selector::event_flags(completion.result as u32) & FLAG_READABLE != 0 <==> reads(completion),
        selector::event_flags(completion.result as u32) & FLAG_WRITABLE != 0 <==> writes(
            completion,
        ),
        reads(completion) || writes(completion),
        1 <= selector::event_flags(completion.result as u32) <= 3,
{
    assert(3u8 & 1 == 1 && 3u8 & 2 == 2 && 2u8 & 1 == 0 && 2u8 & 2 == 2 && 1u8 & 1 == 1 && 1u8 & 2
        == 0) by (bit_vector);
}

/// What one more completion changes of what is heard of a token.
proof fn collecting_one(events: Seq<Event>, completion: Completion, token: usize, report: Report)
    ensures
        heard(selector::collected(events, completion), token, report) <==> heard(
            events,
            token,
            report,
        ) || (names(completion, token) && report.is_made_by(completion)),
{
    let after = selector::collected(events, completion);
    let mine = completion.token as usize;
    let flags = selector::event_flags(completion.result as u32);
    let tokens = selector::tokens(events);
    tokens.index_of_first_ensures(mine);
    flags_report_the_result(completion);
    if completion.result > 0 {
        let k = match tokens.index_of_first(mine) {
            Some(k) => {
                joined_flags(events[k].flags, flags, report);
                assert(tokens[k] == mine);
                k
            },
            None => events.len() as int,
        };
        assert(after[k].token == mine);
        assert forall|i: int| 0 <= i < events.len() && i != k implies after[i] == events[i] by {}
        if heard(events, token, report) {
            let i = choose|i: int|
                0 <= i < events.len() && (#[trigger] events[i]).token == token && report.is_in(
                    events[i].flags,
                );
            assert(after[i].token == token && report.is_in(after[i].flags));
        }
        if heard(after, token, report) {
            let i = choose|i: int|
                0 <= i < after.len() && (#[trigger] after[i]).token == token && report.is_in(
                    after[i].flags,
                );
            if i < events.len() {
                assert(events[i].token == token);
            }
        }
    }
}

/// One more completion is one more event at most, no second one of a token, and a sound one.
proof fn collecting_merges(events: Seq<Event>, completion: Completion)
    requires
        selector::tokens(events).no_duplicates(),
        forall|i: int| 0 <= i < events.len() ==> is_sound(#[trigger] events[i]),
    ensures
        ({
            let after = selector::collected(events, completion);
            &&& after.len() <= events.len() + 1
            &&& selector::tokens(after).no_duplicates()
            &&& forall|i: int| 0 <= i < after.len() ==> is_sound(#[trigger] after[i])
        }),
{
    let after = selector::collected(events, completion);
    let mine = completion.token as usize;
    let flags = selector::event_flags(completion.result as u32);
    let tokens = selector::tokens(events);
    tokens.index_of_first_ensures(mine);
    flags_report_the_result(completion);
    if completion.result > 0 {
        match tokens.index_of_first(mine) {
            Some(k) => {
                joined_flags(events[k].flags, flags, Report::Readable);
                joined_flags(events[k].flags, flags, Report::Writable);
                assert(is_sound(events[k]));
                assert(selector::tokens(after) =~= tokens);
                assert forall|i: int| 0 <= i < after.len() implies is_sound(
                    #[trigger] after[i],
                ) by {
                    if i != k {
                        assert(after[i] == events[i]);
                    }
                }
            },
            None => {
                assert(selector::tokens(after) =~= tokens.push(mine));
                assert forall|i: int| 0 <= i < after.len() implies is_sound(
                    #[trigger] after[i],
                ) by {
                    if i < events.len() {
                        assert(after[i] == events[i]);
                    }
                }
            },
        }
    }
}

/// The last of a row of completions is collected last.
pub proof fn collecting_the_last(events: Seq<Event>, completions: Seq<Completion>)
    requires
        completions.len() > 0,
    ensures
        selector::collected_all(events, completions) == selector::collected(
            selector::collected_all(events, completions.drop_last()),
            completions.last(),
        ),
    decreases completions.len(),
{
    if completions.len() == 1 {
        reveal_with_fuel(selector::collected_all, 2);
    } else {
        let rest = completions.drop_first();
        collecting_the_last(selector::collected(events, completions.first()), rest);
        assert(rest.drop_last() =~= completions.drop_last().drop_first());
        assert(completions.drop_last().first() == completions.first());
        assert(rest.last() == completions.last());
    }
}

/// A row's last completion and the row before it report what the row reports.
proof fn answers_of_the_last(completions: Seq<Completion>, token: usize, report: Report)
    requires
        completions.len() > 0,
    ensures
        answered(completions, token, report) <==> answered(completions.drop_last(), token, report)
            || (names(completions.last(), token) && report.is_made_by(completions.last())),
{
    let before = completions.drop_last();
    let last = completions.len() - 1;
    assert(completions[last] == completions.last());
    assert forall|i: int| 0 <= i < last implies before[i] == completions[i] by {}
    if answered(before, token, report) {
        let i = choose|i: int|
            0 <= i < before.len() && names(#[trigger] before[i], token) && report.is_made_by(
                before[i],
            );
        assert(names(completions[i], token));
    }
    if answered(completions, token, report) {
        let i = choose|i: int|
            0 <= i < completions.len() && names(#[trigger] completions[i], token)
                && report.is_made_by(completions[i]);
        if i < last {
            assert(names(before[i], token));
        }
    }
}

/// The events of a round say, token by token, what its completions say: a token has an event if
/// and only if a completion reports on it, and the event reports readability, or writability,
/// if and only if one of its completions does.
pub proof fn events_say_what_completions_say(
    completions: Seq<Completion>,
    token: usize,
    report: Report,
)
    ensures
        heard(selector::collected_all(Seq::empty(), completions), token, report) <==> answered(
            completions,
            token,
            report,
        ),
    decreases completions.len(),
{
    if completions.len() > 0 {
        let before = completions.drop_last();
        events_say_what_completions_say(before, token, report);
        collecting_the_last(Seq::empty(), completions);
        collecting_one(
            selector::collected_all(Seq::empty(), before),
            completions.last(),
            token,
            report,
        );
        answers_of_the_last(completions, token, report);
    }
}

/// A round has no more events than completions, no two of them are of the same token, and each
/// reports readability, writability or both, by flags that have no other bit.
pub proof fn events_are_merged(completions: Seq<Completion>)
    ensures
        ({
            let events = selector::collected_all(Seq::empty(), completions);
            &&& events.len() <= completions.len()
            &&& selector::tokens(events).no_duplicates()
            &&& forall|i: int| 0 <= i < events.len() ==> is_sound(#[trigger] events[i])
        }),
    decreases completions.len(),
{
    if completions.len() > 0 {
        let before = completions.drop_last();
        events_are_merged(before);
        collecting_the_last(Seq::empty(), completions);
        collecting_merges(selector::collected_all(Seq::empty(), before), completions.last());
    }
}

/// The events of a round stand in the order their tokens are first reported on: some completion
/// of an earlier event's token comes before every completion of a later event's.
pub proof fn events_keep_first_order(completions: Seq<Completion>, i: int, j: int)
    requires
        0 <= i < j < selector::collected_all(Seq::empty(), completions).len(),
    ensures
        ({
            let events = selector::collected_all(Seq::empty(), completions);
            exists|a: int|
                0 <= a < completions.len() && names(#[trigger] completions[a], events[i].token)
                    && forall|b: int|
                    0 <= b < completions.len() && names(#[trigger] completions[b], events[j].token)
                        ==> a < b
        }),
    decreases completions.len(),
{
    if completions.len() > 0 {
        let before = completions.drop_last();
        let last = completions.len() - 1;
        let earlier = selector::collected_all(Seq::empty(), before);
        let events = selector::collected_all(Seq::empty(), completions);
        collecting_the_last(Seq::empty(), completions);
        let mine = completions.last().token as usize;
        selector::tokens(earlier).index_of_first_ensures(mine);
        assert forall|k: int| 0 <= k < earlier.len() implies events[k].token
            == earlier[k].token by {
            assert(selector::tokens(earlier)[k] == earlier[k].token);
        }
        assert forall|k: int| 0 <= k < last implies before[k] == completions[k] by {}
        if j < earlier.len() {
            events_keep_first_order(before, i, j);
            let a = choose|a: int|
                0 <= a < before.len() && names(#[trigger] before[a], earlier[i].token) && forall|
                    b: int,
                |
                    0 <= b < before.len() && names(#[trigger] before[b], earlier[j].token) ==> a
                        < b;
            assert(names(completions[a], events[i].token));
            assert forall|b: int|
                0 <= b < completions.len() && names(
                    #[trigger] completions[b],
                    events[j].token,
                ) implies a < b by {
                if b < last {
                    assert(names(before[b], earlier[j].token));
                }
            }
        } else {
            assert(events[j].token == mine);
            events_say_what_completions_say(before, earlier[i].token, Report::Anything);
            events_say_what_completions_say(before, mine, Report::Anything);
            assert(heard(earlier, earlier[i].token, Report::Anything));
            let a = choose|a: int|
                0 <= a < before.len() && names(#[trigger] before[a], earlier[i].token);
            assert(names(completions[a], events[i].token));
            assert(!heard(earlier, mine, Report::Anything)) by {
                if heard(earlier, mine, Report::Anything) {
                    let k = choose|k: int|
                        0 <= k < earlier.len() && (#[trigger] earlier[k]).token == mine;
                    assert(selector::tokens(earlier)[k] == mine);
                    assert(selector::tokens(earlier).contains(mine));
                }
            }
            assert forall|b: int|
                0 <= b < completions.len() && names(
                    #[trigger] completions[b],
                    events[j].token,
                ) implies a < b by {
                if b < last {
                    assert(names(before[b], mine));
                    assert(answered(before, mine, Report::Anything));
                }
            }
        }
    }
}

/// The completion of a registration's watch is reported under the registration's own token.
pub proof fn token_comes_back(registration: Registration, completion: Completion)
    requires
        completion.token == selector::watch(registration).token,
        completion.result > 0,
    ensures
        names(completion, registration.token.0),
        selector::collected(Seq::empty(), completion) == seq![
            Event {
                token: registration.token.0,
                flags: selector::event_flags(completion.result as u32),
            },
        ],
{
    selector::tokens(Seq::empty()).index_of_first_ensures(registration.token.0);
    assert(selector::tokens(Seq::empty()) =~= Seq::empty());
    assert(selector::collected(Seq::empty(), completion) =~= seq![
        Event {
            token: registration.token.0,
            flags: selector::event_flags(completion.result as u32),
        },
    ]);
}

/// An answer that grants a watch all it asked for, and it asked for something, is reported as
/// the interest it was asked for.
pub proof fn interest_comes_back(interest: Interest, completion: Completion)
    requires
        interest.readable || interest.writable,
        completion.result == selector::watch_flags(interest),
    ensures
        reads(completion) == interest.readable,
        writes(completion) == interest.writable,
{
    assert(1u32 & 1 == 1 && 1u32 & 4 == 0 && 4u32 & 1 == 0 && 4u32 & 4 == 4 && 5u32 & 1 == 1
        && 5u32 & 4 == 4) by (bit_vector);
}

/// What the watch of a registration is answered with is reported under the registration's token,
/// whatever else was answered.
pub proof fn readiness_is_reported(
    registrations: Seq<Registration>,
    k: int,
    completions: Seq<Completion>,
    j: int,
    report: Report,
)
    requires
        0 <= k < registrations.len(),
        0 <= j < completions.len(),
        completions[j].token == selector::watches(registrations)[k].token,
        completions[j].result > 0,
        report.is_made_by(completions[j]),
    ensures
        heard(
            selector::collected_all(Seq::empty(), completions),
            registrations[k].token.0,
            report,
        ),
{
    token_comes_back(registrations[k], completions[j]);
    events_say_what_completions_say(completions, registrations[k].token.0, report);
}

/// Where only watches of registrations are answered, only tokens of registrations are reported.
pub proof fn only_registered_tokens_are_reported(
    registrations: Seq<Registration>,
    completions: Seq<Completion>,
    i: int,
)
    requires
        forall|j: int|
            0 <= j < completions.len() ==> exists|k: int|
                0 <= k < registrations.len() && (#[trigger] completions[j]).token
                    == #[trigger] selector::watches(registrations)[k].token,
        0 <= i < selector::collected_all(Seq::empty(), completions).len(),
    ensures
        exists|k: int|
            0 <= k < registrations.len() && (#[trigger] registrations[k]).token.0
                == selector::collected_all(Seq::empty(), completions)[i].token,
{
    let events = selector::collected_all(Seq::empty(), completions);
    let token = events[i].token;
    events_say_what_completions_say(completions, token, Report::Anything);
    assert(heard(events, token, Report::Anything));
    let j = choose|j: int| 0 <= j < completions.len() && names(#[trigger] completions[j], token);
    let k = choose|k: int|
        0 <= k < registrations.len() && completions[j].token
            == #[trigger] selector::watches(registrations)[k].token;
    token_comes_back(registrations[k], completions[j]);
    assert(registrations[k].token.0 == token);
}

/// A wake is heard: a selector that a waker was made for watches the read end of the waker's pipe,
/// for readability alone, and the kernel's answer that this end is readable is reported as
/// readability under the waker's token.
pub proof fn wakes_are_heard(
    registrations: Seq<Registration>,
    ends: PipeEnds,
    token: Token,
    completions: Seq<Completion>,
    j: int,
)
    requires
        0 <= j < completions.len(),
        completions[j].token == selector::watches(
            registrations.push(Waker::listening(ends, token)),
        ).last().token,
        completions[j].result > 0,
        selector::has_readable(completions[j].result as u32),
    ensures
        ({
            let watch = selector::watches(
                registrations.push(Waker::listening(ends, token)),
            ).last();
            &&& watch.handle == ends.read
            &&& watch.op_flags == crate::abi::READABLE
        }),
        heard(
            selector::collected_all(Seq::empty(), completions),
            token.0,
            Report::Readable,
        ),
{
    readiness_is_reported(
        registrations.push(Waker::listening(ends, token)),
        registrations.len() as int,
        completions,
        j,
        Report::Readable,
    );
}

/// Every registration is armed by a watch of its own, in its place: a watch of its handle, under
/// its token, that asks for readability if and only if the registration does, for writability if
/// and only if it does, and for nothing else.
pub proof fn every_registration_is_armed(registrations: Seq<Registration>, k: int)
    requires
        0 <= k < registrations.len(),
    ensures
        selector::watches(registrations).len() == registrations.len(),
        ({
            let watch = selector::watches(registrations)[k];
            let asked = registrations[k];
            &&& watch == selector::watch(asked)
            &&& watch.op == abi::OP_WATCH
            &&& watch.handle == asked.handle
            &&& watch.token == asked.token.0
            &&& watch.op_flags & abi::READABLE != 0 <==> asked.interest.readable
            &&& watch.op_flags & abi::WRITABLE != 0 <==> asked.interest.writable
            &&& watch.op_flags & !(abi::READABLE | abi::WRITABLE) == 0
            &&& watch.flags == 0 && watch.pad == 0
            &&& watch.off == 0 && watch.addr == 0 && watch.len == 0
        }),
{
    assert(1u32 | 4u32 == 5 && 0u32 & !5u32 == 0 && 1u32 & !5u32 == 0 && 4u32 & !5u32 == 0 && 5u32
        & !5u32 == 0) by (bit_vector);
    assert(0u32 & 1 == 0 && 0u32 & 4 == 0 && 1u32 & 1 == 1 && 1u32 & 4 == 0 && 4u32 & 1 == 0 && 4u32
        & 4 == 4 && 5u32 & 1 == 1 && 5u32 & 4 == 4) by (bit_vector);
}

/// Different registrations are armed by different watches.
pub proof fn watches_tell_registrations_apart(a: Registration, b: Registration)
    ensures
        selector::watch(a) == selector::watch(b) <==> a == b,
{
    every_registration_is_armed(seq![a, b], 0);
    every_registration_is_armed(seq![a, b], 1);
}

/// The flags made of an answer report readability if and only if the answer grants it or grants
/// neither, writability if and only if the answer grants it, and nothing else.
pub proof fn answers_become_flags(result: u32)
    ensures
        selector::event_flags(result) & FLAG_READABLE != 0 <==> (result & abi::READABLE != 0
            || result & abi::WRITABLE == 0),
        selector::event_flags(result) & FLAG_WRITABLE != 0 <==> result & abi::WRITABLE != 0,
        selector::event_flags(result) & !(FLAG_READABLE | FLAG_WRITABLE) == 0,
{
    assert(1u8 | 2u8 == 3 && 1u8 & !3u8 == 0 && 2u8 & !3u8 == 0 && 3u8 & !3u8 == 0) by (bit_vector);
    assert(3u8 & 1 == 1 && 3u8 & 2 == 2 && 2u8 & 1 == 0 && 2u8 & 2 == 2 && 1u8 & 1 == 1 && 1u8 & 2
        == 0) by (bit_vector);
}

/// One more completion changes at most one event. One with no positive result changes none. Any
/// other joins its flags to those of the first event of its token, which stays where it is, or, if
/// there is none, is appended as an event of its own.
pub proof fn collecting_changes_one_event(events: Seq<Event>, completion: Completion)
    ensures
        ({
            let after = selector::collected(events, completion);
            let token = completion.token as usize;
            let flags = selector::event_flags(completion.result as u32);
            let known = exists|i: int|
                0 <= i < events.len() && (#[trigger] events[i]).token == token;
            &&& completion.result <= 0 ==> after == events
            &&& completion.result > 0 && !known ==> {
                &&& after.len() == events.len() + 1
                &&& after.last().token == token
                &&& after.last().flags == flags
                &&& forall|i: int| 0 <= i < events.len() ==> #[trigger] after[i] == events[i]
            }
            &&& completion.result > 0 && known ==> {
                &&& after.len() == events.len()
                &&& exists|i: int|
                    {
                        &&& 0 <= i < events.len()
                        &&& (#[trigger] events[i]).token == token
                        &&& after[i].token == token
                        &&& after[i].flags == events[i].flags | flags
                        &&& forall|j: int| 0 <= j < i ==> (#[trigger] events[j]).token != token
                        &&& forall|j: int|
                            0 <= j < events.len() && j != i ==> #[trigger] after[j] == events[j]
                    }
            }
        }),
        selector::collected_all(events, Seq::empty()) == events,
        selector::collected_all(events, seq![completion]) == selector::collected(
            events,
            completion,
        ),
{
    let token = completion.token as usize;
    let tokens = selector::tokens(events);
    tokens.index_of_first_ensures(token);
    assert forall|i: int| 0 <= i < events.len() implies tokens[i] == (#[trigger] events[i]).token by {}
    if exists|i: int| 0 <= i < events.len() && (#[trigger] events[i]).token == token {
        let k = choose|k: int| 0 <= k < events.len() && (#[trigger] events[k]).token == token;
        assert(tokens[k] == token);
        let i = tokens.index_of_first(token).unwrap();
        assert(events[i].token == tokens[i]);
    } else {
        assert(!tokens.contains(token));
    }
    collecting_the_last(events, seq![completion]);
    assert(seq![completion].drop_last() =~= Seq::empty());
}

/// What an event tells is what the completions said: some completion with a positive result is of
/// its token, it is readable if and only if such a one grants readability or grants nothing, and
/// writable if and only if such a one grants writability.
pub proof fn events_tell_what_completions_said(completions: Seq<Completion>, i: int)
    requires
        0 <= i < selector::collected_all(Seq::empty(), completions).len(),
    ensures
        ({
            let event = selector::collected_all(Seq::empty(), completions)[i];
            &&& exists|j: int|
                0 <= j < completions.len() && (#[trigger] completions[j]).result > 0
                    && completions[j].token as usize == event.token
            &&& event.readable() <==> exists|j: int|
                0 <= j < completions.len() && (#[trigger] completions[j]).result > 0
                    && completions[j].token as usize == event.token && (completions[j].result as u32
                    & abi::READABLE != 0 || completions[j].result as u32 & abi::WRITABLE == 0)
            &&& event.writable() <==> exists|j: int|
                0 <= j < completions.len() && (#[trigger] completions[j]).result > 0
                    && completions[j].token as usize == event.token && completions[j].result as u32
                    & abi::WRITABLE != 0
        }),
{
    let events = selector::collected_all(Seq::empty(), completions);
    let event = events[i];
    let token = event.token;
    events_are_merged(completions);
    assert forall|k: int| 0 <= k < events.len() && (#[trigger] events[k]).token == token implies k
        == i by {
        assert(selector::tokens(events)[k] == selector::tokens(events)[i]);
    }
    events_say_what_completions_say(completions, token, Report::Anything);
    events_say_what_completions_say(completions, token, Report::Readable);
    events_say_what_completions_say(completions, token, Report::Writable);
    assert(heard(events, token, Report::Anything));
    assert(heard(events, token, Report::Readable) <==> event.readable());
    assert(heard(events, token, Report::Writable) <==> event.writable());
}

/// Every completion with a positive result has an event of its token.
pub proof fn every_answer_is_told(completions: Seq<Completion>, j: int)
    requires
        0 <= j < completions.len(),
        completions[j].result > 0,
    ensures
        exists|i: int|
            0 <= i < selector::collected_all(Seq::empty(), completions).len() && (
            #[trigger] selector::collected_all(Seq::empty(), completions)[i]).token
                == completions[j].token as usize,
{
    let token = completions[j].token as usize;
    events_say_what_completions_say(completions, token, Report::Anything);
    assert(names(completions[j], token));
}

/// A waker listens at the read end of its pipe, under its token, for readability and nothing else.
pub proof fn wakers_listen_at_the_read_end(ends: PipeEnds, token: Token)
    ensures
        ({
            let listening = Waker::listening(ends, token);
            &&& listening.handle == ends.read
            &&& listening.token == token
            &&& listening.interest.readable
            &&& !listening.interest.writable
        }),
{
}

} // verus!
