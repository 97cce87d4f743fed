# ferrite_session

Session types as values, with the typing rules of the session combinators
proved in Verus.

Everything a session type says is a value here.  Recursive protocols are
`Protocol::Rec` bodies whose recursion point is a de Bruijn variable
`Protocol::Var`, unfolded by substitution; the continuation of each branch
of a `case` is an `InternalSession`.  Misuse is therefore refused when a
combinator is applied, with a `SessionError`, rather than by the compiler.

A protocol (`protocol::Protocol`) says what happens on a channel: values
received, choices made, recursion, and shared sessions that clients acquire
and release.  A context (`context::Slot`) lists the channels a session
uses.  A `session::PartialSession` is the judgment `Δ ⊢ P`; each combinator
(`offer_left`, `case`, `receive_value`, `send_value_to`, `fix_session`,
`unfix_session`, `accept_shared_session`, `acquire_shared_session`, ...)
is one typing rule, whose contract gives the conclusion exactly, says
on which premises it refuses, and with which error, and fixes the first
thing the session does when it runs (`action::Action`): which message it
sends or receives on which channel, or, for `case`, which branch a
received label selects (`action::choose_branch`).

At run time, `monitor::ChannelMonitor` checks each message on a channel
against the channel's protocol, and `server::SharedServer` decides which
client holds a shared session: one at a time, first come first served.
`laws` puts provider and consumer rules on the two ends of one channel:
the label `offer_left` sends makes `case` run its left branch, a sent
value is the one a receiver waits for, and a shared session is held by
one client until its detaching session releases it.

Layout:

- `src/` the verified library.
- `tests/` tests of the library on concrete values.
- `app/` the runtime on tokio: channels, the combinators performing the
  actions the library fixes, and the shared-session server loop.
