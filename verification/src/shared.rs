//! Shared sessions: a provider of `LinearToShared<F>` serves its clients one
//! at a time.  A client acquires the session, follows `F` with its recursion
//! point replaced by `SharedToLinear<F>`, and releases it; the provider
//! accepts, serves, and detaches to serve the next client.
use vstd::prelude::*;
use crate::protocol::{Protocol, shared_applied, closed, subst};
use crate::context::{
    Slot,
    empty_context,
    insert_target,
    is_empty_context,
    closed_slot,
    closed_context,
    lemma_update_closed,
};
use crate::session::{PartialSession, SessionError, empty_slot_error, closed_judgment, slot_protocol};
use crate::monitor::{Role, Message, advance};
use crate::action::{Action, Channel, Step, steps};

verus! {

/// A shared session under construction, providing `LinearToShared<F>`.
#[derive(Debug)]
pub struct SharedSession {
    body: Protocol,
}

/// A handle on a running shared session of `LinearToShared<F>`, through
/// which clients acquire it.
#[derive(Debug)]
pub struct SharedChannel {
    body: Protocol,
}

impl SharedSession {
    /// The shared session of `LinearToShared<body>`, as a premise: it is
    /// built when it runs, and must then provide this protocol.
    pub fn new(body: Protocol) -> (res: SharedSession)
        ensures
            res.shared_body() == body,
    {
        SharedSession { body }
    }

    /// The body `F` of the shared protocol.
    pub closed spec fn shared_body(&self) -> Protocol {
        self.body
    }

    /// The body `F` of the shared protocol.
    pub fn body(&self) -> (res: &Protocol)
        ensures
            *res == self.shared_body(),
    {
        &self.body
    }
}

impl SharedChannel {
    /// The body `F` of the shared protocol.
    pub closed spec fn shared_body(&self) -> Protocol {
        self.body
    }

    /// The body `F` of the shared protocol.
    pub fn body(&self) -> (res: &Protocol)
        ensures
            *res == self.shared_body(),
    {
        &self.body
    }

    /// Another handle on the same shared session.
    pub fn duplicate(&self) -> (res: SharedChannel)
        ensures
            res.shared_body() == self.shared_body(),
    {
        SharedChannel { body: self.body.duplicate() }
    }

    /// From `Δ ++ [shared_applied(F)] ⊢ A` to `Δ ⊢ A`: acquire the shared session
    /// through this handle, then continue with it as the last channel.
    pub fn acquire(&self, cont: PartialSession) -> (res: Result<PartialSession, SessionError>)
        ensures
            res is Ok <==> acquire_error(self.shared_body(), cont.ctx()) is None,
            res matches Err(e) ==> acquire_error(self.shared_body(), cont.ctx()) == Some(e),
            res matches Ok(s) ==> s.ctx() == cont.ctx().drop_last() && s.offered()
                == cont.offered(),
            res matches Ok(s) ==> (closed_judgment(cont) ==> closed_judgment(s)),
            res matches Ok(s) ==> s.first_action() == Action::Acquire && advance(
                Protocol::LinearToShared(Box::new(self.shared_body())),
                Message::Acquire,
            ) == Some((Role::Consumer, Some(slot_protocol(cont.ctx().last())))),
    {
        acquire_shared_session(self.duplicate(), cont)
    }
}

/// Starts a shared session; the handle it gives is what clients acquire.
pub fn run_shared_session(session: SharedSession) -> (res: SharedChannel)
    ensures
        res.shared_body() == session.shared_body(),
{
    SharedChannel { body: session.body }
}

/// A shared protocol `LinearToShared<F>` with no free variable.
pub open spec fn closed_shared(body: Protocol) -> bool {
    closed(Protocol::LinearToShared(Box::new(body)))
}

/// The body `F` of a context `[Lock<F>]`, if the context is that.
pub open spec fn lock_context_body(ctx: Seq<Slot>) -> Option<Protocol> {
    if ctx.len() == 1 && ctx[0] is Chan && ctx[0]->Chan_0 is Lock {
        Some(*ctx[0]->Chan_0->Lock_0)
    } else {
        None
    }
}

/// The error of accepting a shared session with this linear part, if any.
pub open spec fn accept_error(cont: PartialSession) -> Option<SessionError> {
    match lock_context_body(cont.ctx()) {
        None => Some(SessionError::SlotMismatch),
        Some(f) => if cont.offered() != shared_applied(f) {
            Some(SessionError::ProtocolMismatch)
        } else {
            None
        },
    }
}

/// From `[Lock<F>] ⊢ shared_applied(F)` to a shared session of `LinearToShared<F>`:
/// wait for a client, then serve it with the linear part.
pub fn accept_shared_session(cont: PartialSession) -> (res: Result<SharedSession, SessionError>)
    ensures
        res is Ok <==> accept_error(cont) is None,
        res matches Err(e) ==> accept_error(cont) == Some(e),
        res matches Ok(s) ==> lock_context_body(cont.ctx()) == Some(s.shared_body()),
        res matches Ok(s) ==> cont.ctx() == seq![Slot::Chan(Protocol::Lock(Box::new(s.shared_body())))]
            && cont.offered() == shared_applied(s.shared_body()),
        res matches Ok(s) ==> (closed_judgment(cont) ==> closed_shared(s.shared_body())),
{
    proof {
        if closed_judgment(cont) && cont.ctx().len() == 1 {
            assert(closed_slot(cont.ctx()[0]));
        }
    }
    let context = cont.context();
    if context.len() != 1 {
        return Err(SessionError::SlotMismatch);
    }
    let body = match &context[0] {
        Slot::Chan(Protocol::Lock(f)) => f.duplicate(),
        _ => {
            return Err(SessionError::SlotMismatch);
        },
    };
    let applied = body.shared_applied();
    if !cont.offer().same(&applied) {
        return Err(SessionError::ProtocolMismatch);
    }
    Ok(SharedSession { body })
}

/// From a shared session of `LinearToShared<F>` and a context `Δ` of empty
/// slots to `[Lock<F>] ++ Δ ⊢ SharedToLinear<F>`: give the lock back once
/// the client releases, then serve the next client as `cont`.
pub fn detach_shared_session(cont: SharedSession, rest: Vec<Slot>) -> (res: Result<
    PartialSession,
    SessionError,
>)
    ensures
        res is Ok <==> empty_context(rest@),
        res matches Err(e) ==> e == SessionError::ContextNotEmpty,
        res matches Ok(s) ==> {
            &&& s.ctx() == seq![Slot::Chan(Protocol::Lock(Box::new(cont.shared_body())))] + rest@
            &&& s.offered() == Protocol::SharedToLinear(Box::new(cont.shared_body()))
        },
        res matches Ok(s) ==> (closed_shared(cont.shared_body()) ==> closed_judgment(s)),
        res matches Ok(s) ==> {
            &&& s.first_action() == Action::Detach
            &&& steps(s.first_action()) == seq![
                Step::Receive(Channel::Offer, Message::Release),
                Step::Send(Channel::Slot(0), Message::Release),
            ]
            &&& advance(s.offered(), Message::Release) == Some((Role::Consumer, None::<Protocol>))
            &&& advance(slot_protocol(s.ctx()[0]), Message::Release) == Some(
                (Role::Consumer, None::<Protocol>),
            )
        },
{
    if !is_empty_context(&rest) {
        return Err(SessionError::ContextNotEmpty);
    }
    let mut context: Vec<Slot> = Vec::new();
    context.push(Slot::Chan(Protocol::Lock(Box::new(cont.body.duplicate()))));
    let mut i: usize = 0;
    while i < rest.len()
        invariant
            i <= rest.len(),
            context@ == seq![Slot::Chan(Protocol::Lock(Box::new(cont.body)))] + rest@.take(
                i as int,
            ),
        decreases rest.len() - i,
    {
        context.push(rest[i].duplicate());
        proof {
            assert(rest@.take(i + 1) == rest@.take(i as int).push(rest@[i as int]));
            assert(seq![Slot::Chan(Protocol::Lock(Box::new(cont.body)))] + rest@.take(i + 1) == (
            seq![Slot::Chan(Protocol::Lock(Box::new(cont.body)))] + rest@.take(
                i as int,
            )).push(rest@[i as int]));
        }
        i = i + 1;
    }
    proof {
        assert(rest@.take(rest@.len() as int) == rest@);
        if closed_shared(cont.body) {
            assert forall|k: int| 0 <= k < context@.len() implies closed_slot(
                #[trigger] context@[k],
            ) by {
                if k > 0 {
                    assert(context@[k] == rest@[k - 1]);
                }
            }
        }
    }
    Ok(PartialSession::by_rule(context, Protocol::SharedToLinear(Box::new(cont.body)), Action::Detach))
}

/// The error of acquiring a shared session of body `f` into the last slot
/// of `ctx`, if any.
pub open spec fn acquire_error(f: Protocol, ctx: Seq<Slot>) -> Option<SessionError> {
    if ctx.len() == 0 {
        Some(SessionError::LensOutOfRange)
    } else if ctx.last() != Slot::Chan(shared_applied(f)) {
        Some(SessionError::SlotMismatch)
    } else {
        None
    }
}

/// From `Δ ++ [shared_applied(F)] ⊢ A` to `Δ ⊢ A`: acquire the shared session,
/// then continue with it as the last channel of the context.
pub fn acquire_shared_session(shared: SharedChannel, cont: PartialSession) -> (res: Result<
    PartialSession,
    SessionError,
>)
    ensures
        res is Ok <==> acquire_error(shared.shared_body(), cont.ctx()) is None,
        res matches Err(e) ==> acquire_error(shared.shared_body(), cont.ctx()) == Some(e),
        res matches Ok(s) ==> s.ctx() == cont.ctx().drop_last() && s.offered() == cont.offered(),
        res matches Ok(s) ==> (closed_judgment(cont) ==> closed_judgment(s)),
        res matches Ok(s) ==> s.first_action() == Action::Acquire && advance(
            Protocol::LinearToShared(Box::new(shared.shared_body())),
            Message::Acquire,
        ) == Some((Role::Consumer, Some(slot_protocol(cont.ctx().last())))),
{
    let context = cont.context();
    let len = context.len();
    if len == 0 {
        return Err(SessionError::LensOutOfRange);
    }
    let applied = Slot::Chan(shared.body.shared_applied());
    if !context[len - 1].same(&applied) {
        return Err(SessionError::SlotMismatch);
    }
    let mut rest: Vec<Slot> = Vec::new();
    let mut i: usize = 0;
    while i < len - 1
        invariant
            len == context@.len(),
            len > 0,
            i <= len - 1,
            rest@ == context@.take(i as int),
        decreases len - 1 - i,
    {
        rest.push(context[i].duplicate());
        proof {
            assert(context@.take(i + 1) == context@.take(i as int).push(context@[i as int]));
        }
        i = i + 1;
    }
    proof {
        assert(context@.take(len - 1) == context@.drop_last());
    }
    Ok(PartialSession::by_rule(rest, cont.offer().duplicate(), Action::Acquire))
}

/// The error of a client program that acquires the shared session of body
/// `f` as its only channel and ends, if any.
pub open spec fn async_acquire_error(f: Protocol, cont: PartialSession) -> Option<SessionError> {
    if cont.ctx().len() != 1 {
        Some(SessionError::SlotMismatch)
    } else if cont.ctx()[0] != Slot::Chan(shared_applied(f)) {
        Some(SessionError::SlotMismatch)
    } else if cont.offered() != Protocol::End {
        Some(SessionError::ProtocolMismatch)
    } else {
        None
    }
}

/// From `[shared_applied(F)] ⊢ End` to the closed program `[] ⊢ End` that acquires
/// the shared session and runs `cont` on it, ready to be spawned.
pub fn async_acquire_shared_session(shared: SharedChannel, cont: PartialSession) -> (res: Result<
    PartialSession,
    SessionError,
>)
    ensures
        res is Ok <==> async_acquire_error(shared.shared_body(), cont) is None,
        res matches Err(e) ==> async_acquire_error(shared.shared_body(), cont) == Some(e),
        res matches Ok(s) ==> s.ctx() == Seq::<Slot>::empty() && s.offered() == Protocol::End,
        res matches Ok(s) ==> closed_judgment(s),
        res matches Ok(s) ==> s.first_action() == Action::Acquire && advance(
            Protocol::LinearToShared(Box::new(shared.shared_body())),
            Message::Acquire,
        ) == Some((Role::Consumer, Some(slot_protocol(cont.ctx()[0])))),
{
    if cont.context().len() != 1 {
        return Err(SessionError::SlotMismatch);
    }
    match cont.offer() {
        Protocol::End => {},
        _ => {
            let applied = Slot::Chan(shared.body.shared_applied());
            if !cont.context()[0].same(&applied) {
                return Err(SessionError::SlotMismatch);
            }
            return Err(SessionError::ProtocolMismatch);
        },
    }
    let res = acquire_shared_session(shared, cont);
    proof {
        if res is Ok {
            assert(res->Ok_0.ctx() =~= Seq::<Slot>::empty());
        }
    }
    res
}

/// From `Δ[n := Empty] ⊢ A` to `Δ[n := SharedToLinear<F>] ⊢ A`: release the
/// shared session held at `n`, then continue.
pub fn release_shared_session(n: usize, body: Protocol, cont: PartialSession) -> (res: Result<
    PartialSession,
    SessionError,
>)
    ensures
        res is Ok <==> empty_slot_error(cont.ctx(), n as int) is None,
        res matches Err(e) ==> empty_slot_error(cont.ctx(), n as int) == Some(e),
        res matches Ok(s) ==> s.ctx() == cont.ctx().update(
            n as int,
            Slot::Chan(Protocol::SharedToLinear(Box::new(body))),
        ) && s.offered() == cont.offered(),
        res matches Ok(s) ==> (closed_judgment(cont) && closed(
            Protocol::SharedToLinear(Box::new(body)),
        ) ==> closed_judgment(s)),
        res matches Ok(s) ==> s.first_action() == Action::Send(Channel::Slot(n), Message::Release)
            && advance(slot_protocol(s.ctx()[n as int]), Message::Release) == Some(
            (Role::Consumer, None::<Protocol>),
        ),
{
    let context = cont.context();
    if n >= context.len() {
        return Err(SessionError::LensOutOfRange);
    }
    match &context[n] {
        Slot::Empty => {},
        Slot::Chan(_) => {
            return Err(SessionError::SlotMismatch);
        },
    }
    proof {
        if closed_judgment(cont) && closed(Protocol::SharedToLinear(Box::new(body))) {
            lemma_update_closed(
                cont.ctx(),
                n as int,
                Slot::Chan(Protocol::SharedToLinear(Box::new(body))),
            );
        }
    }
    let updated = insert_target(context, n, Slot::Chan(Protocol::SharedToLinear(Box::new(body))));
    Ok(PartialSession::by_rule(
        updated,
        cont.offer().duplicate(),
        Action::Send(Channel::Slot(n), Message::Release),
    ))
}

/// A shared session is accepted only from a linear part that holds nothing
/// but the lock of its body `F` and offers exactly `F` with the release
/// obligation at its recursion point, and from every such linear part.
pub proof fn law_accept_needs_applied(cont: PartialSession, f: Protocol)
    requires
        cont.ctx() == seq![Slot::Chan(Protocol::Lock(Box::new(f)))],
    ensures
        accept_error(cont) is None <==> cont.offered() == subst(
            f,
            0,
            Protocol::SharedToLinear(Box::new(f)),
        ),
{
}

/// No other context than `[Lock<F>]` is accepted.
pub proof fn law_accept_needs_lock_alone(cont: PartialSession)
    requires
        accept_error(cont) is None,
    ensures
        cont.ctx().len() == 1,
        cont.ctx()[0] is Chan,
        cont.ctx()[0]->Chan_0 is Lock,
        cont.offered() == subst(
            *cont.ctx()[0]->Chan_0->Lock_0,
            0,
            Protocol::SharedToLinear(cont.ctx()[0]->Chan_0->Lock_0),
        ),
{
}

} // verus!
