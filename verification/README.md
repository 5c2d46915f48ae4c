# TheKernel Linux ABI policy, verified

Linux-visible kernel policy as pure, bounded state machines, written in Verus.
The library performs no I/O, takes no locks and reads no task state. A kernel
freezes the facts it owns, calls the library, and carries out the plan that
comes back. A function states in its contract what it returns or changes, each
error with the inputs on which it comes, and Verus proves it. Six things are
decided elsewhere: whether the allocator grants storage, what a consumer's
retained registration answers to a call, how many credits of a watch account
other owners hold, whether the flag of a prepared publication reads as set,
which byte order the machine has, and the address by which a source of budget
identities is told from the others. There the contract says which call is made,
with which arguments, and what becomes of every answer.

## Modules

- `fd`: descriptor tables with reservations, prepared publications and close
  batches; open file descriptions; retained readiness registrations; epoll
  interests, delivery and rescans; the finite graph of nested epolls.
- `io_uring`: ring geometry, submission and registration decoding, request and
  completion lifecycles, registered files and buffers with leases.
- `mm`: checked ranges and mapping generations, pin budgets and registries,
  fault admission and completion, remap and memlock arithmetic, userfaultfd
  negotiation, registration tables, registration deltas and resolver results.
- `packet`: packet-socket addresses, protocol selection, generation-tagged
  binding, options, receive decisions and delivery matching.
- `counting`, `slots`, `checks`, `powers`: the small theories that the models
  share. `allocation` reserves storage up front and names what the allocator may
  answer. `sharing` clones reference-counted owners.

## Models and laws

Each stateful type has a mathematical model: a struct of sequences and numbers
that the contracts speak of, with a predicate `wf` that every constructor
establishes and every operation keeps. What holds across operations is stated
as public proof functions beside the type, for example that a released token
never becomes live again, that pages stay fenced as long as their token is
live, that charges add up and stay within their quotas,
that a writing pin shares no page, that the epoll graph has no cycle, and that
a planned registration delta commits.

Linux flag sets are small value types. Their named values are functions, such
as `ReadyMask::IN()`.

## What is taken on trust

A few private functions call the standard library where no contract is
available: cloning and comparing `Arc`s, two atomic updates on a watch account,
the byte order of 16-bit fields, the permanent byte and its address that mark a
source of budget identities, and the cancellation callback of a retained
registration while it is dropped. Each says in its comment what is claimed.
