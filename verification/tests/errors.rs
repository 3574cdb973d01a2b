use toyos_reactor::error::{
    net_err_to_io, syscall_err_to_io, transfer_result, ErrorKind, NetError, SyscallError,
};

const ALL: [(SyscallError, toyos_abi::syscall::SyscallError); 11] = [
    (SyscallError::Unknown, toyos_abi::syscall::SyscallError::Unknown),
    (SyscallError::NotFound, toyos_abi::syscall::SyscallError::NotFound),
    (SyscallError::PermissionDenied, toyos_abi::syscall::SyscallError::PermissionDenied),
    (SyscallError::AlreadyExists, toyos_abi::syscall::SyscallError::AlreadyExists),
    (SyscallError::InvalidArgument, toyos_abi::syscall::SyscallError::InvalidArgument),
    (SyscallError::BadAddress, toyos_abi::syscall::SyscallError::BadAddress),
    (SyscallError::WouldBlock, toyos_abi::syscall::SyscallError::WouldBlock),
    (SyscallError::ResourceExhausted, toyos_abi::syscall::SyscallError::ResourceExhausted),
    (SyscallError::NotSupported, toyos_abi::syscall::SyscallError::NotSupported),
    (SyscallError::Io, toyos_abi::syscall::SyscallError::Io),
    (SyscallError::Gone, toyos_abi::syscall::SyscallError::Gone),
];

#[test]
fn words_are_the_kernels() {
    for (mine, theirs) in ALL {
        assert_eq!(mine.to_u64(), theirs.to_u64());
    }
}

#[test]
fn messages_are_the_kernels() {
    for (mine, theirs) in ALL {
        let error = syscall_err_to_io(mine);
        assert_eq!(error.kind, ErrorKind::Other);
        assert_eq!(error.message, Some(theirs.to_string()));
    }
}

#[test]
fn messages_read_as_stated() {
    let texts = [
        "unknown error",
        "not found",
        "permission denied",
        "already exists",
        "invalid argument",
        "bad address",
        "would block",
        "resource exhausted",
        "not supported",
        "the device did not complete the transfer",
        "the other end is gone",
    ];
    for (i, (mine, _)) in ALL.into_iter().enumerate() {
        assert_eq!(syscall_err_to_io(mine).message.as_deref(), Some(texts[i]));
    }
}

#[test]
fn transfers_keep_their_count() {
    assert_eq!(transfer_result(Ok(0)).unwrap(), 0);
    assert_eq!(transfer_result(Ok(17)).unwrap(), 17);
}

#[test]
fn a_transfer_that_would_block_says_only_that() {
    let error = transfer_result(Err(SyscallError::WouldBlock)).unwrap_err();
    assert_eq!(error.kind, ErrorKind::WouldBlock);
    assert_eq!(error.message, None);
}

#[test]
fn a_transfer_refused_otherwise_says_why() {
    let error = transfer_result(Err(SyscallError::Gone)).unwrap_err();
    assert_eq!(error.kind, ErrorKind::Other);
    assert_eq!(error.message.as_deref(), Some("the other end is gone"));
}

#[test]
fn network_errors_fall_in_their_kinds() {
    let kinds = [
        (NetError::ConnectionRefused, ErrorKind::ConnectionRefused),
        (NetError::ConnectionReset, ErrorKind::ConnectionReset),
        (NetError::TimedOut, ErrorKind::TimedOut),
        (NetError::AddrInUse, ErrorKind::AddrInUse),
        (NetError::NotConnected, ErrorKind::NotConnected),
        (NetError::InvalidInput, ErrorKind::InvalidInput),
        (NetError::NetdNotFound, ErrorKind::NotConnected),
        (NetError::ResourceExhausted, ErrorKind::Other),
        (NetError::Protocol(77), ErrorKind::Other),
        (NetError::Io, ErrorKind::Other),
    ];
    for (e, kind) in kinds {
        let error = net_err_to_io(e);
        assert_eq!(error.kind, kind);
        assert_eq!(error.message.as_deref(), Some("netd error"));
    }
}
