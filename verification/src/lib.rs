//! The decisions of a non-blocking I/O reactor on ToyOS.
//!
//! A [`selector::Selector`] watches kernel handles through an [`inbox::Inbox`], a pair of rings
//! in a page shared with the kernel, and turns what the kernel answers into events. A
//! [`stream::TcpStream`] is a TCP connection whose bytes travel through two kernel pipes, and a
//! [`waker::Waker`] interrupts a selector from elsewhere.
//!
//! Nothing here touches the page, the kernel or the network daemon. Functions say what is to be
//! asked of them and take what they answered as a value, so that each decision is proved for
//! every answer there can be. [`page`], [`run`], [`readiness`] and [`registry`] hold what the
//! decisions promise together.
pub mod abi;
pub mod error;
pub mod event;
pub mod inbox;
pub mod page;
pub mod readiness;
pub mod registry;
pub mod run;
pub mod select;
pub mod selector;
pub mod stream;
pub mod types;
pub mod waker;
