//! What this crate takes from the ToyOS kernel ABI, the crate `toyos_abi`: the numbers both
//! ends of an inbox index its shared page by, the empty submission, and the words for a
//! refused call.
use vstd::prelude::*;
use crate::inbox::Submission;
use crate::types::RawHandle;

verus! {

/// The operation that watches a handle until it is ready.
pub const OP_WATCH: u8 = 1;

/// The bit for readability, in a watch's interest and in its answer.
pub const READABLE: u32 = 1;

/// The bit for writability, in a watch's interest and in its answer.
pub const WRITABLE: u32 = 4;

/// Where the submission ring's header sits in the shared page.
pub const SUBMISSION_RING_OFF: u64 = 0x1000;

/// Where the completion ring's header sits in the shared page.
pub const COMPLETION_RING_OFF: u64 = 0x2000;

/// Where the submission array starts in the shared page.
pub const SUBMISSIONS_OFF: u64 = 0x4000;

/// The bytes one submission takes.
pub const SUBMISSION_SIZE: u64 = 40;

/// The bytes one completion takes.
pub const COMPLETION_SIZE: u64 = 16;

/// `toyos_abi::inbox::OP_WATCH`, claimed to be [`OP_WATCH`].
#[verifier::external_body]
pub(crate) fn op_watch() -> (op: u8)
    ensures
        op == OP_WATCH,
{
    toyos_abi::inbox::OP_WATCH
}

/// `toyos_abi::inbox::READABLE`, claimed to be [`READABLE`].
#[verifier::external_body]
pub(crate) fn readable() -> (flag: u32)
    ensures
        flag == READABLE,
{
    toyos_abi::inbox::READABLE
}

/// `toyos_abi::inbox::WRITABLE`, claimed to be [`WRITABLE`].
#[verifier::external_body]
pub(crate) fn writable() -> (flag: u32)
    ensures
        flag == WRITABLE,
{
    toyos_abi::inbox::WRITABLE
}

/// `toyos_abi::inbox::SUBMISSION_RING_OFF`, claimed to be [`SUBMISSION_RING_OFF`].
#[verifier::external_body]
pub(crate) fn submission_ring_off() -> (offset: u64)
    ensures
        offset == SUBMISSION_RING_OFF,
{
    toyos_abi::inbox::SUBMISSION_RING_OFF
}

/// `toyos_abi::inbox::COMPLETION_RING_OFF`, claimed to be [`COMPLETION_RING_OFF`].
#[verifier::external_body]
pub(crate) fn completion_ring_off() -> (offset: u64)
    ensures
        offset == COMPLETION_RING_OFF,
{
    toyos_abi::inbox::COMPLETION_RING_OFF
}

/// `toyos_abi::inbox::SUBMISSIONS_OFF`, claimed to be [`SUBMISSIONS_OFF`].
#[verifier::external_body]
pub(crate) fn submissions_off() -> (offset: u64)
    ensures
        offset == SUBMISSIONS_OFF,
{
    toyos_abi::inbox::SUBMISSIONS_OFF
}

/// The size of `toyos_abi::inbox::Submission`, claimed to be [`SUBMISSION_SIZE`] bytes, as the
/// crate asserts of it.
#[verifier::external_body]
pub(crate) fn submission_size() -> (size: u64)
    ensures
        size == SUBMISSION_SIZE,
{
    core::mem::size_of::<toyos_abi::inbox::Submission>() as u64
}

/// The size of `toyos_abi::inbox::Completion`, claimed to be [`COMPLETION_SIZE`] bytes, as the
/// crate asserts of it.
#[verifier::external_body]
pub(crate) fn completion_size() -> (size: u64)
    ensures
        size == COMPLETION_SIZE,
{
    core::mem::size_of::<toyos_abi::inbox::Completion>() as u64
}

/// `toyos_abi::inbox::Submission::default`, claimed to be zero in every field.
#[verifier::external_body]
pub(crate) fn default_submission() -> (submission: Submission)
    ensures
        submission == Submission::zeroed(),
{
    let s = toyos_abi::inbox::Submission::default();
    Submission {
        op: s.op,
        flags: s.flags,
        pad: s._pad,
        handle: RawHandle(s.handle.0),
        off: s.off,
        addr: s.addr,
        len: s.len,
        op_flags: s.op_flags,
        token: s.token,
    }
}

/// The kernel's words for the refusal numbered `code`. A number it gives no meaning is an
/// unknown error.
pub open spec fn syscall_error_message(code: u64) -> Seq<char> {
    if code == 1 {
        "not found"@
    } else if code == 2 {
        "permission denied"@
    } else if code == 3 {
        "already exists"@
    } else if code == 4 {
        "invalid argument"@
    } else if code == 5 {
        "bad address"@
    } else if code == 6 {
        "would block"@
    } else if code == 7 {
        "resource exhausted"@
    } else if code == 8 {
        "not supported"@
    } else if code == 9 {
        "the device did not complete the transfer"@
    } else if code == 10 {
        "the other end is gone"@
    } else {
        "unknown error"@
    }
}

/// The `Display` text of a `toyos_abi::syscall::SyscallError`, reached from the word a refused
/// call returns by `SyscallError::from_u64`, which knows every word from `u64::MAX - 255` up as
/// an error. The text is claimed to be [`syscall_error_message`] of the error's number, which
/// is the word's distance from the largest word.
#[verifier::external_body]
pub(crate) fn syscall_error_text(word: u64) -> (text: String)
    requires
        word >= u64::MAX - 255,
    ensures
        text@ == syscall_error_message((u64::MAX - word) as u64),
{
    format!("{}", toyos_abi::syscall::SyscallError::from_u64(word).unwrap())
}

} // verus!
