use std::collections::HashMap;

use toyos_reactor::error::{Error, ErrorKind, SyscallError};
use toyos_reactor::event;
use toyos_reactor::inbox::{Completion, RingLayout, Submission, SubmitRequest};
use toyos_reactor::select::{Action, Reply};
use toyos_reactor::selector::{
    arm, collect, interests_to_flags, poll_result_to_flags, timeout_to_nanos, Event, Events,
    Registration, Selector, SelectorIds, SelectorInner, FIRST_SELECTOR_ID, FOREVER, INBOX_DEPTH,
};
use toyos_reactor::types::{Duration, Interest, RawHandle, Token};
use toyos_reactor::waker::{PipeEnds, Waker};

const BOTH: Interest = Interest { readable: true, writable: true };
const READS: Interest = Interest { readable: true, writable: false };
const WRITES: Interest = Interest { readable: false, writable: true };
const NEITHER: Interest = Interest { readable: false, writable: false };

fn selector() -> (Selector, SelectorInner) {
    let mut ids = SelectorIds { next: FIRST_SELECTOR_ID };
    let layout = RingLayout { submission_ring_size: 64, completion_ring_size: 128 };
    Selector::new(&mut ids, Ok((RawHandle(9), layout))).unwrap()
}

fn completion(token: u64, result: i32) -> Completion {
    Completion { token, result, flags: 0 }
}

fn registration(handle: u32, token: usize, interest: Interest) -> Registration {
    Registration { handle: RawHandle(handle), interest, token: Token(token) }
}

/// A page, and a kernel that takes what is handed to it and posts what it was told to.
struct Kernel {
    submission_head: u32,
    submission_tail: u32,
    completion_head: u32,
    completion_tail: u32,
    submissions: HashMap<u64, Submission>,
    completions: HashMap<u64, Completion>,
    to_post: Vec<Completion>,
    /// Posted while the first completion is read.
    to_post_late: Vec<Completion>,
    /// Whether every watch is answered, as readable, when it is taken.
    answers: bool,
    /// Whether nothing that is handed over is taken.
    stuck: bool,
    /// The calls accepted before the refusal.
    accepted: usize,
    refusal: Option<SyscallError>,
    actions: usize,
    requests: Vec<SubmitRequest>,
    taken: Vec<Submission>,
}

impl Kernel {
    fn at(start: u32, to_post: Vec<Completion>) -> Kernel {
        Kernel {
            submission_head: start,
            submission_tail: start,
            completion_head: start,
            completion_tail: start,
            submissions: HashMap::new(),
            completions: HashMap::new(),
            to_post,
            to_post_late: Vec::new(),
            answers: false,
            stuck: false,
            accepted: 0,
            refusal: None,
            actions: 0,
            requests: Vec::new(),
            taken: Vec::new(),
        }
    }

    fn post(&mut self, c: Completion) {
        let offset = 0x2010 + (self.completion_tail % 128) as u64 * 16;
        self.completions.insert(offset, c);
        self.completion_tail = self.completion_tail.wrapping_add(1);
        assert!(self.completion_tail.wrapping_sub(self.completion_head) <= 128);
    }

    fn submit(&mut self, request: SubmitRequest) -> Result<u32, SyscallError> {
        self.requests.push(request);
        if let Some(e) = self.refusal {
            if self.requests.len() > self.accepted {
                return Err(e);
            }
        }
        if !self.stuck {
            for _ in 0..request.to_submit {
                let offset = 0x4000 + (self.submission_head % 64) as u64 * 40;
                let watch = self.submissions[&offset];
                self.taken.push(watch);
                self.submission_head = self.submission_head.wrapping_add(1);
                if self.answers {
                    self.post(completion(watch.token, 1));
                }
            }
        }
        for c in std::mem::take(&mut self.to_post) {
            self.post(c);
        }
        Ok(self.completion_tail.wrapping_sub(self.completion_head))
    }

    fn run(
        &mut self,
        selector: &Selector,
        inner: &SelectorInner,
        events: &mut Events,
        timeout: Option<Duration>,
    ) -> Result<(), Error> {
        let (mut round, mut action) = selector.select(inner, events, timeout);
        loop {
            self.actions += 1;
            let reply = match action {
                Action::Queue(write) => {
                    assert!(self.submission_tail.wrapping_sub(self.submission_head) < 64);
                    self.submissions.insert(write.offset, write.submission);
                    self.submission_tail = write.tail;
                    Reply::Done
                }
                Action::LoadSubmissionRing => {
                    Reply::Ring { head: self.submission_head, tail: self.submission_tail }
                }
                Action::Submit(request) => Reply::Submitted(self.submit(request)),
                Action::LoadCompletionRing => {
                    Reply::Ring { head: self.completion_head, tail: self.completion_tail }
                }
                Action::ReadCompletion(offset) => {
                    let read = self.completions[&offset];
                    for c in std::mem::take(&mut self.to_post_late) {
                        self.post(c);
                    }
                    Reply::Completion(read)
                }
                Action::LoadCompletionHead => Reply::Position(self.completion_head),
                Action::StoreCompletionHead(head) => {
                    self.completion_head = head;
                    Reply::Done
                }
                Action::Return(result) => return result,
            };
            action = round.step(events, reply);
        }
    }
}

#[test]
fn depth_is_sixty_four() {
    assert_eq!(INBOX_DEPTH, 64);
}

#[test]
fn selectors_are_numbered_in_turn() {
    let mut ids = SelectorIds { next: FIRST_SELECTOR_ID };
    let layout = RingLayout { submission_ring_size: 64, completion_ring_size: 128 };
    let (first, inner) = Selector::new(&mut ids, Ok((RawHandle(3), layout))).unwrap();
    let (second, _) = Selector::new(&mut ids, Ok((RawHandle(4), layout))).unwrap();
    assert_eq!(first.id(), 1);
    assert_eq!(second.id(), 2);
    assert_eq!(first.inbox.handle, RawHandle(3));
    assert!(inner.registrations.is_empty());
    assert_eq!(ids.next, 3);
}

#[test]
fn a_refused_selector_takes_no_number() {
    let mut ids = SelectorIds { next: 7 };
    let error = Selector::new(&mut ids, Err(SyscallError::PermissionDenied)).unwrap_err();
    assert_eq!(error.kind, ErrorKind::Other);
    assert_eq!(error.message.as_deref(), Some("permission denied"));
    assert_eq!(ids.next, 7);
}

#[test]
fn numbers_wrap_around() {
    let mut ids = SelectorIds { next: usize::MAX };
    let layout = RingLayout { submission_ring_size: 64, completion_ring_size: 128 };
    let (last, _) = Selector::new(&mut ids, Ok((RawHandle(3), layout))).unwrap();
    assert_eq!(last.id(), usize::MAX);
    assert_eq!(ids.next, 0);
}

#[test]
fn a_clone_is_the_same_selector() {
    let (selector, _) = selector();
    let clone = selector.try_clone().unwrap();
    assert_eq!(clone, selector);
}

#[test]
fn interests_become_flags() {
    assert_eq!(interests_to_flags(BOTH), 5);
    assert_eq!(interests_to_flags(READS), 1);
    assert_eq!(interests_to_flags(WRITES), 4);
    assert_eq!(interests_to_flags(NEITHER), 0);
}

#[test]
fn results_become_flags() {
    assert_eq!(poll_result_to_flags(1), 1);
    assert_eq!(poll_result_to_flags(4), 2);
    assert_eq!(poll_result_to_flags(5), 3);
    assert_eq!(poll_result_to_flags(2), 1);
    assert_eq!(poll_result_to_flags(0), 1);
    assert_eq!(poll_result_to_flags(6), 2);
}

#[test]
fn arming_makes_a_watch() {
    let watch = arm(&registration(12, 34, BOTH));
    assert_eq!(
        watch,
        Submission {
            op: 1,
            flags: 0,
            pad: 0,
            handle: RawHandle(12),
            off: 0,
            addr: 0,
            len: 0,
            op_flags: 5,
            token: 34,
        }
    );
}

#[test]
fn timeouts_become_nanoseconds() {
    assert_eq!(timeout_to_nanos(None), FOREVER);
    assert_eq!(FOREVER, u64::MAX);
    assert_eq!(timeout_to_nanos(Some(Duration { secs: 0, nanos: 0 })), 0);
    assert_eq!(timeout_to_nanos(Some(Duration { secs: 2, nanos: 5 })), 2_000_000_005);
}

#[test]
fn long_timeouts_keep_their_low_word() {
    // 2^64 nanoseconds.
    let span = Duration { secs: 18_446_744_073, nanos: 709_551_616 };
    assert_eq!(timeout_to_nanos(Some(span)), 0);
    let span = Duration { secs: u64::MAX, nanos: 999_999_999 };
    let std_span = std::time::Duration::new(u64::MAX, 999_999_999);
    assert_eq!(timeout_to_nanos(Some(span)), std_span.as_nanos() as u64);
}

#[test]
fn registering_appends_even_twice() {
    let (selector, mut inner) = selector();
    selector.register_handle(&mut inner, RawHandle(1), Token(10), READS).unwrap();
    selector.register_handle(&mut inner, RawHandle(1), Token(11), WRITES).unwrap();
    assert_eq!(inner.registrations, vec![registration(1, 10, READS), registration(1, 11, WRITES)]);
}

#[test]
fn reregistering_changes_the_first_or_registers() {
    let (selector, mut inner) = selector();
    selector.register_handle(&mut inner, RawHandle(1), Token(10), READS).unwrap();
    selector.register_handle(&mut inner, RawHandle(2), Token(20), READS).unwrap();
    selector.register_handle(&mut inner, RawHandle(2), Token(21), READS).unwrap();
    selector.reregister_handle(&mut inner, RawHandle(2), Token(22), BOTH).unwrap();
    selector.reregister_handle(&mut inner, RawHandle(3), Token(30), WRITES).unwrap();
    assert_eq!(
        inner.registrations,
        vec![
            registration(1, 10, READS),
            registration(2, 22, BOTH),
            registration(2, 21, READS),
            registration(3, 30, WRITES),
        ]
    );
}

#[test]
fn the_last_reregistration_counts() {
    let (selector, mut inner) = selector();
    selector.reregister_handle(&mut inner, RawHandle(2), Token(1), READS).unwrap();
    selector.reregister_handle(&mut inner, RawHandle(2), Token(2), WRITES).unwrap();
    assert_eq!(inner.registrations, vec![registration(2, 2, WRITES)]);
}

#[test]
fn deregistering_removes_all_of_a_handle_and_keeps_the_rest() {
    let (selector, mut inner) = selector();
    for (handle, token) in [(1, 10), (2, 20), (1, 11), (3, 30)] {
        selector.register_handle(&mut inner, RawHandle(handle), Token(token), READS).unwrap();
    }
    selector.deregister_handle(&mut inner, RawHandle(1)).unwrap();
    let left = vec![registration(2, 20, READS), registration(3, 30, READS)];
    assert_eq!(inner.registrations, left);
    selector.deregister_handle(&mut inner, RawHandle(1)).unwrap();
    assert_eq!(inner.registrations, left);
}

#[test]
fn deregistering_undoes_registering_a_new_handle() {
    let (selector, mut inner) = selector();
    selector.register_handle(&mut inner, RawHandle(1), Token(10), READS).unwrap();
    selector.register_handle(&mut inner, RawHandle(5), Token(50), BOTH).unwrap();
    selector.deregister_handle(&mut inner, RawHandle(5)).unwrap();
    assert_eq!(inner.registrations, vec![registration(1, 10, READS)]);
}

#[test]
fn collecting_merges_by_token() {
    let mut events: Events = Vec::new();
    for c in [completion(7, 1), completion(8, 4), completion(7, 4), completion(9, -2)] {
        collect(&mut events, c);
    }
    collect(&mut events, completion(10, 0));
    assert_eq!(events, vec![Event { token: 7, flags: 3 }, Event { token: 8, flags: 2 }]);
}

#[test]
fn an_answer_without_flags_is_readable() {
    let mut events: Events = Vec::new();
    collect(&mut events, completion(7, 2));
    assert!(event::is_readable(&events[0]));
    assert!(!event::is_writable(&events[0]));
}

#[test]
fn a_round_hands_over_every_watch_and_reports_every_answer() {
    let (selector, mut inner) = selector();
    selector.register_handle(&mut inner, RawHandle(1), Token(10), READS).unwrap();
    selector.register_handle(&mut inner, RawHandle(2), Token(10), WRITES).unwrap();
    selector.register_handle(&mut inner, RawHandle(3), Token(30), BOTH).unwrap();
    let mut kernel = Kernel::at(0, vec![completion(30, 4), completion(10, 1), completion(10, 4)]);
    let mut events: Events = vec![Event { token: 99, flags: 1 }];
    let span = Duration { secs: 1, nanos: 0 };
    kernel.run(&selector, &inner, &mut events, Some(span)).unwrap();
    assert_eq!(
        kernel.requests,
        vec![SubmitRequest {
            handle: RawHandle(9),
            to_submit: 3,
            min_complete: 1,
            timeout_nanos: 1_000_000_000,
        }]
    );
    let watches: Vec<Submission> = inner.registrations.iter().map(arm).collect();
    assert_eq!(kernel.taken, watches);
    assert_eq!(events, vec![Event { token: 30, flags: 2 }, Event { token: 10, flags: 3 }]);
    assert_eq!(kernel.completion_head, kernel.completion_tail);
    assert_eq!(event::token(&events[1]), Token(10));
}

#[test]
fn a_round_works_across_the_wrap() {
    let (selector, mut inner) = selector();
    for i in 0..64u32 {
        selector.register_handle(&mut inner, RawHandle(i), Token(i as usize), READS).unwrap();
    }
    let answers: Vec<Completion> = (0..100).map(|i| completion(i % 64, 1)).collect();
    let mut kernel = Kernel::at(u32::MAX - 20, answers);
    let mut events: Events = Vec::new();
    kernel.run(&selector, &inner, &mut events, None).unwrap();
    assert_eq!(kernel.requests.len(), 1);
    assert_eq!(kernel.requests[0].to_submit, 64);
    assert_eq!(kernel.requests[0].timeout_nanos, u64::MAX);
    let tokens: Vec<u64> = kernel.taken.iter().map(|s| s.token).collect();
    assert_eq!(tokens, (0..64).collect::<Vec<u64>>());
    assert_eq!(events.len(), 64);
    assert_eq!(kernel.completion_head, kernel.completion_tail);
}

#[test]
fn a_round_with_nothing_registered_waits_for_nothing() {
    let (selector, inner) = selector();
    let mut kernel = Kernel::at(5, vec![]);
    let mut events: Events = vec![Event { token: 1, flags: 1 }];
    kernel.run(&selector, &inner, &mut events, None).unwrap();
    assert_eq!(kernel.requests[0].to_submit, 0);
    assert_eq!(kernel.requests[0].min_complete, 0);
    assert!(events.is_empty());
}

#[test]
fn a_round_reports_a_refusal_and_no_events() {
    let (selector, mut inner) = selector();
    selector.register_handle(&mut inner, RawHandle(1), Token(10), READS).unwrap();
    let mut kernel = Kernel::at(0, vec![completion(10, 1)]);
    kernel.refusal = Some(SyscallError::InvalidArgument);
    let mut events: Events = vec![Event { token: 1, flags: 1 }];
    let error = kernel.run(&selector, &inner, &mut events, None).unwrap_err();
    assert_eq!(error.kind, ErrorKind::Other);
    assert_eq!(error.message.as_deref(), Some("invalid argument"));
    assert!(events.is_empty());
}

#[test]
fn what_a_refusal_left_queued_goes_along_next_time() {
    let (selector, mut inner) = selector();
    selector.register_handle(&mut inner, RawHandle(1), Token(10), READS).unwrap();
    let mut kernel = Kernel::at(0, vec![]);
    kernel.refusal = Some(SyscallError::WouldBlock);
    let mut events: Events = Vec::new();
    kernel.run(&selector, &inner, &mut events, None).unwrap_err();
    kernel.refusal = None;
    kernel.run(&selector, &inner, &mut events, None).unwrap();
    assert_eq!(kernel.requests[1].to_submit, 2);
    assert_eq!(kernel.taken.len(), 2);
}

fn register_many(selector: &Selector, inner: &mut SelectorInner, count: u32) {
    for i in 0..count {
        selector.register_handle(inner, RawHandle(i), Token(i as usize), READS).unwrap();
    }
}

fn request(to_submit: u32, min_complete: u32, timeout_nanos: u64) -> SubmitRequest {
    SubmitRequest { handle: RawHandle(9), to_submit, min_complete, timeout_nanos }
}

#[test]
fn more_watches_than_slots_all_reach_the_kernel() {
    let (selector, mut inner) = selector();
    register_many(&selector, &mut inner, 65);
    let mut kernel = Kernel::at(0, vec![]);
    let mut events: Events = Vec::new();
    kernel.run(&selector, &inner, &mut events, Some(Duration { secs: 0, nanos: 7 })).unwrap();
    // Nothing was ready after the first call, so the last one waits.
    assert_eq!(kernel.requests, vec![request(64, 0, 0), request(1, 1, 7)]);
    let watches: Vec<Submission> = inner.registrations.iter().map(arm).collect();
    assert_eq!(kernel.taken, watches);
    assert!(events.is_empty());
}

#[test]
fn what_becomes_ready_in_between_is_reported_without_waiting() {
    let (selector, mut inner) = selector();
    register_many(&selector, &mut inner, 150);
    let mut kernel = Kernel::at(u32::MAX - 70, vec![]);
    kernel.answers = true;
    let mut events: Events = Vec::new();
    kernel.run(&selector, &inner, &mut events, None).unwrap();
    assert_eq!(
        kernel.requests,
        vec![request(64, 0, 0), request(64, 0, 0), request(22, 0, u64::MAX)]
    );
    let watches: Vec<Submission> = inner.registrations.iter().map(arm).collect();
    assert_eq!(kernel.taken, watches);
    let expected: Vec<Event> = (0..150).map(|token| Event { token, flags: 1 }).collect();
    assert_eq!(events, expected);
    assert_eq!(kernel.completion_head, kernel.completion_tail);
    // The round's return is asked for too, and takes no reply.
    assert!(kernel.actions - 1 <= 5 * 150 + 4 * 150 + 3);
}

#[test]
fn what_was_queued_before_goes_first() {
    let (selector, mut inner) = selector();
    register_many(&selector, &mut inner, 40);
    let mut kernel = Kernel::at(0, vec![]);
    kernel.refusal = Some(SyscallError::WouldBlock);
    let mut events: Events = Vec::new();
    kernel.run(&selector, &inner, &mut events, None).unwrap_err();
    kernel.refusal = None;
    kernel.run(&selector, &inner, &mut events, None).unwrap();
    assert_eq!(
        kernel.requests,
        vec![request(40, 1, u64::MAX), request(64, 0, 0), request(16, 1, u64::MAX)]
    );
    let watches: Vec<Submission> = inner.registrations.iter().map(arm).collect();
    assert_eq!(kernel.taken[..40], watches[..]);
    assert_eq!(kernel.taken[40..], watches[..]);
}

#[test]
fn a_ring_that_stays_full_is_an_error() {
    let (selector, mut inner) = selector();
    register_many(&selector, &mut inner, 65);
    let mut kernel = Kernel::at(0, vec![]);
    kernel.stuck = true;
    let mut events: Events = Vec::new();
    let error = kernel.run(&selector, &inner, &mut events, None).unwrap_err();
    assert_eq!(error.kind, ErrorKind::Other);
    assert_eq!(error.message.as_deref(), Some("submission ring full"));
    assert_eq!(kernel.requests, vec![request(64, 0, 0)]);
    assert_eq!(kernel.submission_tail, 64);
    assert_eq!(kernel.submissions[&0x4000], arm(&inner.registrations[0]));
}

#[test]
fn a_refusal_in_between_ends_the_round() {
    let (selector, mut inner) = selector();
    register_many(&selector, &mut inner, 65);
    let mut kernel = Kernel::at(0, vec![]);
    kernel.refusal = Some(SyscallError::Gone);
    let mut events: Events = Vec::new();
    let error = kernel.run(&selector, &inner, &mut events, None).unwrap_err();
    assert_eq!(error.message.as_deref(), Some("the other end is gone"));
    assert_eq!(kernel.requests, vec![request(64, 0, 0)]);
    assert!(events.is_empty());
}

#[test]
fn a_refusal_at_the_end_keeps_what_was_read() {
    let (selector, mut inner) = selector();
    register_many(&selector, &mut inner, 65);
    let mut kernel = Kernel::at(0, vec![completion(3, 4)]);
    kernel.accepted = 1;
    kernel.refusal = Some(SyscallError::Io);
    let mut events: Events = Vec::new();
    kernel.run(&selector, &inner, &mut events, None).unwrap_err();
    assert_eq!(kernel.requests, vec![request(64, 0, 0), request(1, 0, u64::MAX)]);
    assert_eq!(events, vec![Event { token: 3, flags: 2 }]);
}

#[test]
fn what_is_posted_while_reading_is_read_too() {
    let (selector, mut inner) = selector();
    register_many(&selector, &mut inner, 3);
    let mut kernel = Kernel::at(0, vec![completion(2, 1), completion(0, 1)]);
    kernel.to_post_late = vec![completion(1, 4), completion(2, 4)];
    let mut events: Events = Vec::new();
    kernel.run(&selector, &inner, &mut events, None).unwrap();
    assert_eq!(
        events,
        vec![
            Event { token: 2, flags: 3 },
            Event { token: 0, flags: 1 },
            Event { token: 1, flags: 2 },
        ]
    );
    assert_eq!(kernel.requests.len(), 1);
    assert_eq!(kernel.completion_head, kernel.completion_tail);
}

#[test]
fn a_wake_is_heard_under_the_wakers_token() {
    let (selector, mut inner) = selector();
    selector.register_handle(&mut inner, RawHandle(1), Token(10), BOTH).unwrap();
    let ends = PipeEnds { read: RawHandle(31), write: RawHandle(32) };
    Waker::new(&selector, &mut inner, Token(77), Ok(ends)).unwrap();
    let mut kernel = Kernel::at(0, vec![completion(10, 4), completion(77, 1)]);
    let mut events: Events = Vec::new();
    kernel.run(&selector, &inner, &mut events, None).unwrap();
    let watch = kernel.taken[1];
    assert_eq!((watch.handle, watch.op_flags, watch.token), (RawHandle(31), 1, 77));
    assert_eq!(events, vec![Event { token: 10, flags: 2 }, Event { token: 77, flags: 1 }]);
}

#[test]
fn only_what_is_registered_is_reported() {
    let (selector, mut inner) = selector();
    for (handle, token) in [(1, 10), (2, 20), (3, 30)] {
        selector.register_handle(&mut inner, RawHandle(handle), Token(token), BOTH).unwrap();
    }
    selector.deregister_handle(&mut inner, RawHandle(2)).unwrap();
    let answers = inner.registrations.iter().map(|r| completion(arm(r).token, 5)).collect();
    let mut kernel = Kernel::at(0, answers);
    let mut events: Events = Vec::new();
    kernel.run(&selector, &inner, &mut events, None).unwrap();
    assert_eq!(events, vec![Event { token: 10, flags: 3 }, Event { token: 30, flags: 3 }]);
}

#[test]
fn events_tell_what_they_report() {
    let both = Event { token: 3, flags: 3 };
    let writable = Event { token: 4, flags: 2 };
    assert!(event::is_readable(&both) && event::is_writable(&both));
    assert!(!event::is_readable(&writable) && event::is_writable(&writable));
    assert!(!event::is_error(&both));
    assert!(!event::is_read_closed(&both));
    assert!(!event::is_write_closed(&both));
    assert!(!event::is_priority(&both));
    assert!(!event::is_aio(&both));
    assert!(!event::is_lio(&both));
}

#[test]
fn events_in_words() {
    assert_eq!(
        event::debug_details(&Event { token: 0, flags: 1 }),
        "Event { token: 0, readable: true, writable: false }"
    );
    assert_eq!(
        event::debug_details(&Event { token: 90210, flags: 2 }),
        "Event { token: 90210, readable: false, writable: true }"
    );
    let text = event::debug_details(&Event { token: usize::MAX, flags: 3 });
    assert_eq!(text, format!("Event {{ token: {}, readable: true, writable: true }}", usize::MAX));
}
