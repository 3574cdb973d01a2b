//! An inbox: a page shared with the kernel that holds two rings, one a process submits work
//! on and one it reads completions from.
//!
//! The page itself is touched by the caller. This module decides where in it to look, what to
//! write there, and what the ring positions found there mean.
use vstd::prelude::*;
use crate::abi;
use crate::error;
use crate::error::{Error, ErrorView, SyscallError};
use crate::types::RawHandle;

verus! {

/// The bytes of a ring's header. The completion array starts right behind its ring's.
pub const RING_HEADER_SIZE: u64 = 16;

/// One piece of work for the kernel, as it is written into the submission array.
#[derive(Clone, Copy, Debug, PartialEq, Eq, Hash, Structural)]
pub struct Submission {
    pub op: u8,
    pub flags: u8,
    pub pad: u16,
    /// The handle the work is about.
    pub handle: RawHandle,
    pub off: u64,
    pub addr: u64,
    pub len: u32,
    pub op_flags: u32,
    /// The submitter's word, handed back untouched in [`Completion::token`].
    pub token: u64,
}

impl Submission {
    /// The submission whose every field is zero.
    pub open spec fn zeroed() -> Submission {
        Submission {
            op: 0,
            flags: 0,
            pad: 0,
            handle: RawHandle(0),
            off: 0,
            addr: 0,
            len: 0,
            op_flags: 0,
            token: 0,
        }
    }
}

/// One finished piece of work, as the kernel writes it into the completion array.
#[derive(Clone, Copy, Debug, PartialEq, Eq, Hash, Structural)]
pub struct Completion {
    pub token: u64,
    pub result: i32,
    pub flags: u32,
}

/// What an inbox reads of the layout the kernel writes at the start of its page.
#[derive(Clone, Copy, Debug, PartialEq, Eq, Hash, Structural)]
pub struct RingLayout {
    pub submission_ring_size: u32,
    pub completion_ring_size: u32,
}

/// A submission to write into the page, and the tail to publish once it is there.
#[derive(Clone, Copy, Debug, PartialEq, Eq, Hash, Structural)]
pub struct SubmissionWrite {
    /// Where in the page the submission goes, in bytes from the page's start.
    pub offset: u64,
    pub submission: Submission,
    /// The submission ring's tail from then on.
    pub tail: u32,
}

/// A call that hands queued submissions to the kernel and may wait for completions.
#[derive(Clone, Copy, Debug, PartialEq, Eq, Hash, Structural)]
pub struct SubmitRequest {
    pub handle: RawHandle,
    pub to_submit: u32,
    pub min_complete: u32,
    pub timeout_nanos: u64,
}

/// The position `count` steps past `start`. Positions wrap around at the end of `u32`.
pub open spec fn position(start: u32, count: int) -> u32 {
    ((start + count) % 0x1_0000_0000) as u32
}

/// How many steps lead from `head` to `tail`.
pub open spec fn distance(head: u32, tail: u32) -> nat {
    ((tail - head) % 0x1_0000_0000) as nat
}

/// The slot of a ring of `size` slots that holds what is at `at`.
pub open spec fn slot(at: u32, size: u32) -> u32 {
    at & ((size - 1) as u32)
}

/// Where a submission slot sits in the page.
pub open spec fn submission_offset(index: u32) -> int {
    abi::SUBMISSIONS_OFF + index * abi::SUBMISSION_SIZE
}

/// Where a completion slot sits in the page.
pub open spec fn completion_offset(index: u32) -> int {
    abi::COMPLETION_RING_OFF + RING_HEADER_SIZE + index * abi::COMPLETION_SIZE
}

/// An inbox: the kernel's handle on it and the sizes of its two rings. A ring's slots are found
/// by masking positions, so every slot is used only where its size is a power of two.
#[derive(Clone, Copy, Debug, PartialEq, Eq, Hash, Structural)]
pub struct Inbox {
    pub handle: RawHandle,
    pub submission_ring_size: u32,
    pub completion_ring_size: u32,
}

impl Inbox {
    /// The inbox of a handle whose page is laid out like this.
    pub open spec fn laid_out(handle: RawHandle, layout: RingLayout) -> Inbox {
        Inbox {
            handle,
            submission_ring_size: layout.submission_ring_size,
            completion_ring_size: layout.completion_ring_size,
        }
    }

    /// Whether a slot is free on a submission ring whose head and tail are at `head` and `tail`.
    pub open spec fn has_room(self, head: u32, tail: u32) -> bool {
        distance(head, tail) < self.submission_ring_size
    }

    /// The write that queues a submission on a ring whose tail is at `tail`.
    pub open spec fn queueing(self, tail: u32, submission: Submission) -> SubmissionWrite {
        SubmissionWrite {
            offset: submission_offset(slot(tail, self.submission_ring_size)) as u64,
            submission,
            tail: position(tail, 1),
        }
    }

    /// The offset of the first unread completion of a ring whose head is at `head`.
    pub open spec fn first_unread(self, head: u32) -> u64 {
        completion_offset(slot(head, self.completion_ring_size)) as u64
    }

    /// The inbox the kernel answered a setup call with, or the error for its refusal.
    pub fn new(answer: Result<(RawHandle, RingLayout), SyscallError>) -> (inbox: Result<
        Inbox,
        Error,
    >)
        ensures
            error::outcome(inbox) == (match answer {
                Ok((handle, layout)) => Ok::<Inbox, ErrorView>(Inbox::laid_out(handle, layout)),
                Err(e) => Err(e.as_other()),
            }),
    {
        match answer {
            Ok((handle, layout)) => Ok(
                Inbox {
                    handle,
                    submission_ring_size: layout.submission_ring_size,
                    completion_ring_size: layout.completion_ring_size,
                },
            ),
            Err(e) => Err(error::syscall_err_to_io(e)),
        }
    }

    /// Where the submission ring's header sits in the page.
    pub fn submission_header(&self) -> (offset: u64)
        ensures
            offset == abi::SUBMISSION_RING_OFF,
    {
        abi::submission_ring_off()
    }

    /// Where the completion ring's header sits in the page.
    pub fn completion_header(&self) -> (offset: u64)
        ensures
            offset == abi::COMPLETION_RING_OFF,
    {
        abi::completion_ring_off()
    }

    /// Where the submission slot at `index` sits in the page.
    pub fn submission_at_mut(&self, index: u32) -> (offset: u64)
        ensures
            offset == submission_offset(index),
    {
        abi::submissions_off() + index as u64 * abi::submission_size()
    }

    /// Where the completion slot at `index` sits in the page.
    pub fn completion_at(&self, index: u32) -> (offset: u64)
        ensures
            offset == completion_offset(index),
    {
        abi::completion_ring_off() + RING_HEADER_SIZE + index as u64 * abi::completion_size()
    }

    /// Queues a submission on a ring whose head and tail were found at `head` and `tail`: it
    /// goes into the tail's slot, and the tail moves one step on. `None` if no slot is free:
    /// what is queued has to be handed to the kernel first.
    pub fn queue(&self, head: u32, tail: u32, submission: &Submission) -> (write: Option<
        SubmissionWrite,
    >)
        requires
            self.submission_ring_size > 0,
        ensures
            write == (if self.has_room(head, tail) {
                Some(self.queueing(tail, *submission))
            } else {
                None
            }),
    {
        if self.pending_submissions(head, tail) >= self.submission_ring_size {
            return None;
        }
        let index: u32 = tail & (self.submission_ring_size - 1);
        Some(
            SubmissionWrite {
                offset: self.submission_at_mut(index),
                submission: *submission,
                tail: tail.wrapping_add(1),
            },
        )
    }

    /// The call that hands queued submissions to the kernel and may wait for completions.
    pub fn submit(&self, to_submit: u32, min_complete: u32, timeout_nanos: u64) -> (request:
        SubmitRequest)
        ensures
            request == (SubmitRequest {
                handle: self.handle,
                to_submit,
                min_complete,
                timeout_nanos,
            }),
    {
        SubmitRequest { handle: self.handle, to_submit, min_complete, timeout_nanos }
    }

    /// The result of a [`SubmitRequest`], from the kernel's answer to it.
    pub fn submitted(answer: Result<u32, SyscallError>) -> (result: Result<u32, Error>)
        ensures
            error::outcome(result) == (match answer {
                Ok(available) => Ok::<u32, ErrorView>(available),
                Err(e) => Err(e.as_other()),
            }),
    {
        match answer {
            Ok(available) => Ok(available),
            Err(e) => Err(error::syscall_err_to_io(e)),
        }
    }

    /// Where the next unread completion sits in the page, on a ring whose head and tail were
    /// found at `head` and `tail`, or `None` if every completion has been read.
    pub fn peek_completion(&self, head: u32, tail: u32) -> (offset: Option<u64>)
        requires
            head != tail ==> self.completion_ring_size > 0,
        ensures
            offset == (if head == tail {
                None
            } else {
                Some(self.first_unread(head))
            }),
    {
        if head == tail {
            return None;
        }
        let index: u32 = head & (self.completion_ring_size - 1);
        Some(self.completion_at(index))
    }

    /// The completion ring's head once one more completion has been read.
    pub fn advance_completion(&self, head: u32) -> (next: u32)
        ensures
            next == position(head, 1),
    {
        head.wrapping_add(1)
    }

    /// How many submissions are queued and not yet handed to the kernel, on a ring whose head
    /// and tail were found at `head` and `tail`.
    pub fn pending_submissions(&self, head: u32, tail: u32) -> (count: u32)
        ensures
            count == distance(head, tail),
    {
        tail.wrapping_sub(head)
    }
}

} // verus!
