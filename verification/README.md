# toyos_reactor

The decisions of a non-blocking I/O reactor on ToyOS, verified with Verus: which watches a round of
selecting queues on the kernel's inbox and where in the shared page, which events its completions
become, what registering and deregistering leave registered, what a TCP stream and a waker ask of
netd and of the kernel, and what their answers mean.

- `src/` is the library. It touches neither memory shared with the kernel nor the network: a
  function says what is to be done and takes what came of it as a value. `abi.rs` holds what is
  taken from the crate `toyos_abi` without proof. `page.rs`, `run.rs`, `readiness.rs` and
  `registry.rs` hold the laws that relate the functions to each other.
- `app/` does what the library says: it maps the page, makes the calls to the kernel and to netd,
  shares a selector between its handles and implements the standard library's traits.
- `tests/` runs the library, whole rounds over a simulated page among them.

A round hands over a watch for every registration, however many there are. Where they outnumber the
free slots of the submission ring, it hands the full ring over, reads what that completes, and goes
on; nothing queued is ever written over. A ring that the kernel frees no slot of is an error.
