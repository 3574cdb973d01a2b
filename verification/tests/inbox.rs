use toyos_reactor::abi;
use toyos_reactor::error::{ErrorKind, SyscallError};
use toyos_reactor::inbox::{Inbox, RingLayout, Submission, SubmitRequest};
use toyos_reactor::types::RawHandle;

fn inbox(submissions: u32, completions: u32) -> Inbox {
    Inbox {
        handle: RawHandle(9),
        submission_ring_size: submissions,
        completion_ring_size: completions,
    }
}

fn submission(token: u64) -> Submission {
    Submission {
        op: 1,
        flags: 0,
        pad: 0,
        handle: RawHandle(4),
        off: 0,
        addr: 0,
        len: 0,
        op_flags: 1,
        token,
    }
}

#[test]
fn abi_numbers_are_the_kernels() {
    assert_eq!(abi::OP_WATCH, toyos_abi::inbox::OP_WATCH);
    assert_eq!(abi::READABLE, toyos_abi::inbox::READABLE);
    assert_eq!(abi::WRITABLE, toyos_abi::inbox::WRITABLE);
    assert_eq!(abi::SUBMISSION_RING_OFF, toyos_abi::inbox::SUBMISSION_RING_OFF);
    assert_eq!(abi::COMPLETION_RING_OFF, toyos_abi::inbox::COMPLETION_RING_OFF);
    assert_eq!(abi::SUBMISSIONS_OFF, toyos_abi::inbox::SUBMISSIONS_OFF);
    assert_eq!(abi::SUBMISSION_SIZE as usize, std::mem::size_of::<toyos_abi::inbox::Submission>());
    assert_eq!(abi::COMPLETION_SIZE as usize, std::mem::size_of::<toyos_abi::inbox::Completion>());
    assert_eq!(
        toyos_reactor::inbox::RING_HEADER_SIZE as usize,
        std::mem::size_of::<toyos_abi::inbox::RingHeader>()
    );
}

#[test]
fn new_takes_the_sizes_from_the_layout() {
    let layout = RingLayout { submission_ring_size: 64, completion_ring_size: 128 };
    let made = Inbox::new(Ok((RawHandle(9), layout))).unwrap();
    assert_eq!(made, inbox(64, 128));
}

#[test]
fn new_reports_a_refusal_in_the_kernels_words() {
    let error = Inbox::new(Err(SyscallError::ResourceExhausted)).unwrap_err();
    assert_eq!(error.kind, ErrorKind::Other);
    assert_eq!(error.message.as_deref(), Some("resource exhausted"));
}

#[test]
fn headers_and_slots_sit_where_the_abi_puts_them() {
    let it = inbox(64, 128);
    assert_eq!(it.submission_header(), 0x1000);
    assert_eq!(it.completion_header(), 0x2000);
    assert_eq!(it.submission_at_mut(0), 0x4000);
    assert_eq!(it.submission_at_mut(3), 0x4000 + 3 * 40);
    assert_eq!(it.completion_at(0), 0x2010);
    assert_eq!(it.completion_at(127), 0x2010 + 127 * 16);
    assert_eq!(it.submission_at_mut(u32::MAX), 0x4000 + u32::MAX as u64 * 40);
}

#[test]
fn slots_keep_apart() {
    let it = inbox(64, 128);
    for i in 0..63 {
        assert_eq!(it.submission_at_mut(i) + 40, it.submission_at_mut(i + 1));
    }
    for i in 0..127 {
        assert_eq!(it.completion_at(i) + 16, it.completion_at(i + 1));
    }
    assert!(it.completion_at(510) + 16 <= it.submission_at_mut(0));
    assert!(it.completion_at(511) + 16 > it.submission_at_mut(0));
}

#[test]
fn queue_writes_the_tails_slot_and_moves_on() {
    let write = inbox(64, 128).queue(60, 66, &submission(5)).unwrap();
    assert_eq!(write.offset, 0x4000 + 2 * 40);
    assert_eq!(write.submission, submission(5));
    assert_eq!(write.tail, 67);
}

#[test]
fn queue_wraps_around_with_its_positions() {
    let write = inbox(64, 128).queue(u32::MAX, u32::MAX, &submission(5)).unwrap();
    assert_eq!(write.offset, 0x4000 + 63 * 40);
    assert_eq!(write.tail, 0);
}

#[test]
fn a_rings_worth_of_positions_takes_every_slot_once() {
    let it = inbox(8, 8);
    let mut tail = u32::MAX - 3;
    let mut offsets = Vec::new();
    for token in 0..8 {
        let write = it.queue(u32::MAX - 3, tail, &submission(token)).unwrap();
        offsets.push(write.offset);
        tail = write.tail;
    }
    assert_eq!(it.pending_submissions(u32::MAX - 3, tail), 8);
    assert_eq!(it.queue(u32::MAX - 3, tail, &submission(8)), None);
    offsets.sort();
    let all: Vec<u64> = (0..8).map(|i| 0x4000 + i * 40).collect();
    assert_eq!(offsets, all);
}

#[test]
fn a_full_ring_takes_no_more() {
    let it = inbox(64, 128);
    assert!(it.queue(3, 66, &submission(5)).is_some());
    assert_eq!(it.queue(3, 67, &submission(5)), None);
    assert_eq!(it.queue(3, 68, &submission(5)), None);
    assert_eq!(it.queue(u32::MAX, 63, &submission(5)), None);
}

#[test]
fn pending_counts_across_the_wrap() {
    let it = inbox(64, 128);
    assert_eq!(it.pending_submissions(7, 7), 0);
    assert_eq!(it.pending_submissions(7, 10), 3);
    assert_eq!(it.pending_submissions(u32::MAX, 1), 2);
}

#[test]
fn peek_finds_the_heads_slot_or_nothing() {
    let it = inbox(64, 128);
    assert_eq!(it.peek_completion(5, 5), None);
    assert_eq!(it.peek_completion(130, 131), Some(0x2010 + 2 * 16));
    assert_eq!(it.peek_completion(u32::MAX, 0), Some(0x2010 + 127 * 16));
    assert_eq!(inbox(0, 0).peek_completion(4, 4), None);
}

#[test]
fn advance_moves_one_on() {
    let it = inbox(64, 128);
    assert_eq!(it.advance_completion(41), 42);
    assert_eq!(it.advance_completion(u32::MAX), 0);
}

#[test]
fn submit_asks_for_its_own_inbox() {
    let request = inbox(64, 128).submit(3, 1, 500);
    assert_eq!(
        request,
        SubmitRequest { handle: RawHandle(9), to_submit: 3, min_complete: 1, timeout_nanos: 500 }
    );
}

#[test]
fn submitted_keeps_the_answer() {
    assert_eq!(Inbox::submitted(Ok(7)).unwrap(), 7);
    let error = Inbox::submitted(Err(SyscallError::BadAddress)).unwrap_err();
    assert_eq!(error.kind, ErrorKind::Other);
    assert_eq!(error.message.as_deref(), Some("bad address"));
}
