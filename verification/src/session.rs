//! Partial sessions and the typing rules of the linear combinators.
//!
//! A `PartialSession` is the judgment `Δ ⊢ P` of a session under
//! construction: it uses the channels of the context `Δ` and offers `P`.
//! Each combinator below is one typing rule: from the judgments of its
//! premises it gives the judgment of its conclusion, or refuses premises
//! that do not fit with a `SessionError`.  A premise whose session is built
//! only when the session runs (a continuation that depends on a received
//! value, or a recursive call) is stated with `PartialSession::new`.
//!
//! Each rule also fixes what the session does first when it runs: the one
//! message of the rule, on the channel the rule is about.  Its contract
//! states that message and that it moves the channel from the protocol of
//! the conclusion to the protocol of the premise.
use vstd::prelude::*;
use crate::protocol::{Protocol, InternalChoice, choice, unfold, closed, lemma_unfold_closed_iff};
use crate::monitor::{Role, Message, advance};
use crate::action::{Action, Channel};
use crate::context::{
    Slot,
    empty_context,
    agree_except,
    is_empty_context,
    insert_target,
    closed_slot,
    closed_context,
    lemma_update_closed,
};

verus! {

/// Why a typing rule refused its premises.
#[derive(Debug, Clone, Copy, PartialEq, Eq, Structural)]
pub enum SessionError {
    /// The lens does not point at a slot of the context.
    LensOutOfRange,
    /// The slot that the lens points at does not hold what the rule needs.
    SlotMismatch,
    /// A context that must hold only empty slots holds a channel.
    ContextNotEmpty,
    /// A session offers another protocol than the rule needs.
    ProtocolMismatch,
    /// The branches of a case use different contexts.
    BranchMismatch,
}

/// The judgment `Δ ⊢ P` of a session under construction, with what the
/// session does first when it runs.
#[derive(Debug)]
pub struct PartialSession {
    context: Vec<Slot>,
    offer: Protocol,
    action: Action,
}

/// The session that one branch of a case runs, in the context where the
/// chosen branch's protocol stands in the slot of the lens.
#[derive(Debug)]
pub struct InternalSession {
    pub session: PartialSession,
}

impl PartialSession {
    /// The context `Δ`.
    pub closed spec fn ctx(&self) -> Seq<Slot> {
        self.context@
    }

    /// The offered protocol `P`.
    pub closed spec fn offered(&self) -> Protocol {
        self.offer
    }

    /// What the session does first when it runs.
    pub closed spec fn first_action(&self) -> Action {
        self.action
    }

    /// What the session does first when it runs.
    pub fn action(&self) -> (res: Action)
        ensures
            res == self.first_action(),
    {
        self.action
    }

    /// The context `Δ`.
    pub fn context(&self) -> (res: &Vec<Slot>)
        ensures
            res@ == self.ctx(),
    {
        &self.context
    }

    /// The offered protocol `P`.
    pub fn offer(&self) -> (res: &Protocol)
        ensures
            *res == self.offered(),
    {
        &self.offer
    }

    /// The judgment `context ⊢ offer`, as a premise: the session it stands
    /// for is built when it runs, and must then have this judgment.
    pub fn new(context: Vec<Slot>, offer: Protocol) -> (res: PartialSession)
        ensures
            res.ctx() == context@,
            res.offered() == offer,
            res.first_action() == Action::Declared,
    {
        PartialSession { context, offer, action: Action::Declared }
    }

    /// The conclusion of a rule whose premises were checked, doing `action` first.
    pub(crate) fn by_rule(context: Vec<Slot>, offer: Protocol, action: Action) -> (res:
        PartialSession)
        ensures
            res.ctx() == context@,
            res.offered() == offer,
            res.first_action() == action,
    {
        PartialSession { context, offer, action }
    }

    /// Whether two judgments are the same.
    pub fn same(&self, other: &PartialSession) -> (res: bool)
        ensures
            res == (self.ctx() == other.ctx() && self.offered() == other.offered()),
    {
        if !self.offer.same(&other.offer) || self.context.len() != other.context.len() {
            return false;
        }
        let mut i: usize = 0;
        while i < self.context.len()
            invariant
                i <= self.context.len(),
                self.context@.len() == other.context@.len(),
                forall|j: int| 0 <= j < i ==> self.context@[j] == other.context@[j],
            decreases self.context.len() - i,
        {
            if !self.context[i].same(&other.context[i]) {
                return false;
            }
            i = i + 1;
        }
        proof {
            assert(self.context@ =~= other.context@);
        }
        true
    }
}

/// A judgment whose protocols have no free variable.
pub open spec fn closed_judgment(s: PartialSession) -> bool {
    closed_context(s.ctx()) && closed(s.offered())
}

/// The error of a rule that needs slot `n` of `ctx` to be empty, if any.
pub open spec fn empty_slot_error(ctx: Seq<Slot>, n: int) -> Option<SessionError> {
    if n >= ctx.len() {
        Some(SessionError::LensOutOfRange)
    } else if ctx[n] != Slot::Empty {
        Some(SessionError::SlotMismatch)
    } else {
        None
    }
}

/// The error of a rule that needs slot `n` of `ctx` to hold a channel, if any.
pub open spec fn chan_slot_error(ctx: Seq<Slot>, n: int) -> Option<SessionError> {
    if n >= ctx.len() {
        Some(SessionError::LensOutOfRange)
    } else if !(ctx[n] is Chan) {
        Some(SessionError::SlotMismatch)
    } else {
        None
    }
}

/// The protocol of a channel slot.
pub open spec fn slot_protocol(s: Slot) -> Protocol {
    match s {
        Slot::Chan(p) => p,
        Slot::Empty => Protocol::End,
    }
}

/// Checks that slot `n` of the context is empty.
fn check_empty_slot(ctx: &Vec<Slot>, n: usize) -> (res: Result<(), SessionError>)
    ensures
        res is Ok <==> empty_slot_error(ctx@, n as int) is None,
        res matches Err(e) ==> empty_slot_error(ctx@, n as int) == Some(e),
{
    if n >= ctx.len() {
        Err(SessionError::LensOutOfRange)
    } else {
        match &ctx[n] {
            Slot::Empty => Ok(()),
            Slot::Chan(_) => Err(SessionError::SlotMismatch),
        }
    }
}

/// The protocol of slot `n` of the context, which must hold a channel.
fn chan_at(ctx: &Vec<Slot>, n: usize) -> (res: Result<Protocol, SessionError>)
    ensures
        res is Ok <==> chan_slot_error(ctx@, n as int) is None,
        res matches Err(e) ==> chan_slot_error(ctx@, n as int) == Some(e),
        res matches Ok(p) ==> ctx@[n as int] == Slot::Chan(p),
{
    if n >= ctx.len() {
        Err(SessionError::LensOutOfRange)
    } else {
        match &ctx[n] {
            Slot::Empty => Err(SessionError::SlotMismatch),
            Slot::Chan(p) => Ok(p.duplicate()),
        }
    }
}

/// The error of running `s` as a whole program, if any: a program uses no
/// channel and offers `End`.
pub open spec fn program_error(s: PartialSession) -> Option<SessionError> {
    if s.ctx().len() != 0 {
        Some(SessionError::ContextNotEmpty)
    } else if s.offered() != Protocol::End {
        Some(SessionError::ProtocolMismatch)
    } else {
        None
    }
}

/// Checks that `s` is a whole program, `[] ⊢ End`, which can run on its own.
pub fn check_program(s: &PartialSession) -> (res: Result<(), SessionError>)
    ensures
        res is Ok <==> program_error(*s) is None,
        res matches Err(e) ==> program_error(*s) == Some(e),
{
    if s.context.len() != 0 {
        return Err(SessionError::ContextNotEmpty);
    }
    match &s.offer {
        Protocol::End => Ok(()),
        _ => Err(SessionError::ProtocolMismatch),
    }
}

/// `Δ ⊢ End` for a context `Δ` of empty slots:
/// the session that ends at once.
pub fn terminate(context: Vec<Slot>) -> (res: Result<PartialSession, SessionError>)
    ensures
        res is Ok <==> empty_context(context@),
        res matches Err(e) ==> e == SessionError::ContextNotEmpty,
        res matches Ok(s) ==> s.ctx() == context@ && s.offered() == Protocol::End,
        res matches Ok(s) ==> closed_judgment(s),
        res matches Ok(s) ==> s.first_action() == Action::Send(Channel::Offer, Message::Close),
        advance(Protocol::End, Message::Close) == Some((Role::Provider, None::<Protocol>)),
{
    if is_empty_context(&context) {
        Ok(PartialSession::by_rule(context, Protocol::End, Action::Send(Channel::Offer, Message::Close)))
    } else {
        Err(SessionError::ContextNotEmpty)
    }
}

/// From `Δ[n := Empty] ⊢ P` to `Δ[n := End] ⊢ P`: wait for the channel at
/// `n` to end, then continue.
pub fn wait(n: usize, cont: PartialSession) -> (res: Result<PartialSession, SessionError>)
    ensures
        res is Ok <==> empty_slot_error(cont.ctx(), n as int) is None,
        res matches Err(e) ==> empty_slot_error(cont.ctx(), n as int) == Some(e),
        res matches Ok(s) ==> s.ctx() == cont.ctx().update(n as int, Slot::Chan(Protocol::End))
            && s.offered() == cont.offered(),
        res matches Ok(s) ==> (closed_judgment(cont) ==> closed_judgment(s)),
        res matches Ok(s) ==> s.first_action() == Action::Receive(Channel::Slot(n), Message::Close)
            && advance(slot_protocol(s.ctx()[n as int]), Message::Close) == Some(
            (Role::Provider, None::<Protocol>),
        ),
{
    check_empty_slot(&cont.context, n)?;
    proof {
        if closed_judgment(cont) {
            lemma_update_closed(cont.ctx(), n as int, Slot::Chan(Protocol::End));
        }
    }
    let context = insert_target(&cont.context, n, Slot::Chan(Protocol::End));
    Ok(PartialSession::by_rule(context, cont.offer, Action::Receive(Channel::Slot(n), Message::Close)))
}

/// From `Δ ⊢ P` to `Δ ⊢ P ⊕ Q`: choose the left branch, then continue.
pub fn offer_left(cont: PartialSession, right: Protocol) -> (res: PartialSession)
    ensures
        res.ctx() == cont.ctx(),
        res.offered() == choice(cont.offered(), right),
        closed_judgment(cont) && closed(right) ==> closed_judgment(res),
        res.first_action() == Action::Send(Channel::Offer, Message::Left),
        advance(res.offered(), Message::Left) == Some((Role::Provider, Some(cont.offered()))),
{
    let PartialSession { context, offer, .. } = cont;
    PartialSession::by_rule(
        context,
        Protocol::InternalChoice(Box::new(InternalChoice { left: offer, right })),
        Action::Send(Channel::Offer, Message::Left),
    )
}

/// From `Δ ⊢ Q` to `Δ ⊢ P ⊕ Q`: choose the right branch, then continue.
pub fn offer_right(left: Protocol, cont: PartialSession) -> (res: PartialSession)
    ensures
        res.ctx() == cont.ctx(),
        res.offered() == choice(left, cont.offered()),
        closed_judgment(cont) && closed(left) ==> closed_judgment(res),
        res.first_action() == Action::Send(Channel::Offer, Message::Right),
        advance(res.offered(), Message::Right) == Some((Role::Provider, Some(cont.offered()))),
{
    let PartialSession { context, offer, .. } = cont;
    PartialSession::by_rule(
        context,
        Protocol::InternalChoice(Box::new(InternalChoice { left, right: offer })),
        Action::Send(Channel::Offer, Message::Right),
    )
}

/// The error of a case on lens `n` with these branches, if any.
pub open spec fn case_error(n: int, left: PartialSession, right: PartialSession) -> Option<
    SessionError,
> {
    if n >= left.ctx().len() {
        Some(SessionError::LensOutOfRange)
    } else if !(left.ctx()[n] is Chan) {
        Some(SessionError::SlotMismatch)
    } else if !agree_except(left.ctx(), right.ctx(), n) {
        Some(SessionError::BranchMismatch)
    } else if !(right.ctx()[n] is Chan) {
        Some(SessionError::SlotMismatch)
    } else if left.offered() != right.offered() {
        Some(SessionError::ProtocolMismatch)
    } else {
        None
    }
}

/// From `Δ[n := P] ⊢ S` and `Δ[n := Q] ⊢ S` to `Δ[n := P ⊕ Q] ⊢ S`:
/// receive the choice on the channel at `n` and run the chosen branch.
pub fn case(n: usize, left: InternalSession, right: InternalSession) -> (res: Result<
    PartialSession,
    SessionError,
>)
    ensures
        res is Ok <==> case_error(n as int, left.session, right.session) is None,
        res matches Err(e) ==> case_error(n as int, left.session, right.session) == Some(e),
        res matches Ok(s) ==> {
            &&& s.ctx() == left.session.ctx().update(
                n as int,
                Slot::Chan(
                    choice(
                        slot_protocol(left.session.ctx()[n as int]),
                        slot_protocol(right.session.ctx()[n as int]),
                    ),
                ),
            )
            &&& s.offered() == left.session.offered()
        },
        res matches Ok(s) ==> (closed_judgment(left.session) && closed_judgment(right.session)
            ==> closed_judgment(s)),
        res matches Ok(s) ==> {
            &&& left.session.ctx().len() == right.session.ctx().len()
            &&& s.ctx().len() == left.session.ctx().len()
            &&& forall|i: int|
                0 <= i < s.ctx().len() && i != n ==> s.ctx()[i] == left.session.ctx()[i]
                    && s.ctx()[i] == right.session.ctx()[i]
        },
        res matches Ok(s) ==> {
            &&& s.first_action() == Action::Branch(n)
            &&& advance(slot_protocol(s.ctx()[n as int]), Message::Left) == Some(
                (Role::Provider, Some(slot_protocol(left.session.ctx()[n as int]))),
            )
            &&& advance(slot_protocol(s.ctx()[n as int]), Message::Right) == Some(
                (Role::Provider, Some(slot_protocol(right.session.ctx()[n as int]))),
            )
        },
{
    let l = left.session;
    let r = right.session;
    let p = chan_at(&l.context, n)?;
    if !contexts_agree_except(&l.context, &r.context, n) {
        return Err(SessionError::BranchMismatch);
    }
    let q = chan_at(&r.context, n)?;
    if !l.offer.same(&r.offer) {
        return Err(SessionError::ProtocolMismatch);
    }
    proof {
        if closed_judgment(l) && closed_judgment(r) {
            assert(closed_slot(l.ctx()[n as int]));
            assert(closed_slot(r.ctx()[n as int]));
            lemma_update_closed(l.ctx(), n as int, Slot::Chan(choice(p, q)));
        }
    }
    let context = insert_target(
        &l.context,
        n,
        Slot::Chan(Protocol::InternalChoice(Box::new(InternalChoice { left: p, right: q }))),
    );
    Ok(PartialSession::by_rule(context, l.offer, Action::Branch(n)))
}

/// Whether two contexts agree on every slot but `n`.
fn contexts_agree_except(c1: &Vec<Slot>, c2: &Vec<Slot>, n: usize) -> (res: bool)
    ensures
        res == agree_except(c1@, c2@, n as int),
{
    if c1.len() != c2.len() {
        return false;
    }
    let mut i: usize = 0;
    while i < c1.len()
        invariant
            i <= c1.len(),
            c1@.len() == c2@.len(),
            forall|j: int| 0 <= j < i && j != n ==> c1@[j] == c2@[j],
        decreases c1.len() - i,
    {
        if i != n && !c1[i].same(&c2[i]) {
            return false;
        }
        i = i + 1;
    }
    true
}

/// From `Δ ⊢ P` to `Δ ⊢ T ⊃ P`, `T` named by `tag`: receive a value of
/// type `T` from the consumer, then continue.
pub fn receive_value(tag: u64, cont: PartialSession) -> (res: PartialSession)
    ensures
        res.ctx() == cont.ctx(),
        res.offered() == Protocol::ReceiveValue(tag, Box::new(cont.offered())),
        closed_judgment(cont) ==> closed_judgment(res),
        res.first_action() == Action::Receive(Channel::Offer, Message::Value(tag)),
        advance(res.offered(), Message::Value(tag)) == Some(
            (Role::Consumer, Some(cont.offered())),
        ),
{
    let PartialSession { context, offer, .. } = cont;
    PartialSession::by_rule(
        context,
        Protocol::ReceiveValue(tag, Box::new(offer)),
        Action::Receive(Channel::Offer, Message::Value(tag)),
    )
}

/// From `Δ[n := Q] ⊢ P` to `Δ[n := T ⊃ Q] ⊢ P`, `T` named by `tag`: send a
/// value, produced when the session runs, to the channel at `n`, then continue.
pub fn send_value_to_async(n: usize, tag: u64, cont: PartialSession) -> (res: Result<
    PartialSession,
    SessionError,
>)
    ensures
        res is Ok <==> chan_slot_error(cont.ctx(), n as int) is None,
        res matches Err(e) ==> chan_slot_error(cont.ctx(), n as int) == Some(e),
        res matches Ok(s) ==> {
            &&& s.ctx() == cont.ctx().update(
                n as int,
                Slot::Chan(
                    Protocol::ReceiveValue(tag, Box::new(slot_protocol(cont.ctx()[n as int]))),
                ),
            )
            &&& s.offered() == cont.offered()
        },
        res matches Ok(s) ==> (closed_judgment(cont) ==> closed_judgment(s)),
        res matches Ok(s) ==> s.first_action() == Action::Send(Channel::Slot(n), Message::Value(tag))
            && advance(slot_protocol(s.ctx()[n as int]), Message::Value(tag)) == Some(
            (Role::Consumer, Some(slot_protocol(cont.ctx()[n as int]))),
        ),
{
    let q = chan_at(&cont.context, n)?;
    proof {
        if closed_judgment(cont) {
            assert(closed_slot(cont.ctx()[n as int]));
            lemma_update_closed(
                cont.ctx(),
                n as int,
                Slot::Chan(Protocol::ReceiveValue(tag, Box::new(q))),
            );
        }
    }
    let context = insert_target(&cont.context, n, Slot::Chan(Protocol::ReceiveValue(tag, Box::new(q))));
    Ok(PartialSession::by_rule(context, cont.offer, Action::Send(Channel::Slot(n), Message::Value(tag))))
}

/// From `Δ[n := Q] ⊢ P` to `Δ[n := T ⊃ Q] ⊢ P`, `T` named by `tag`: send a
/// value at hand to the channel at `n`, then continue.
pub fn send_value_to(n: usize, tag: u64, cont: PartialSession) -> (res: Result<
    PartialSession,
    SessionError,
>)
    ensures
        res is Ok <==> chan_slot_error(cont.ctx(), n as int) is None,
        res matches Err(e) ==> chan_slot_error(cont.ctx(), n as int) == Some(e),
        res matches Ok(s) ==> {
            &&& s.ctx() == cont.ctx().update(
                n as int,
                Slot::Chan(
                    Protocol::ReceiveValue(tag, Box::new(slot_protocol(cont.ctx()[n as int]))),
                ),
            )
            &&& s.offered() == cont.offered()
        },
        res matches Ok(s) ==> (closed_judgment(cont) ==> closed_judgment(s)),
        res matches Ok(s) ==> s.first_action() == Action::Send(Channel::Slot(n), Message::Value(tag))
            && advance(slot_protocol(s.ctx()[n as int]), Message::Value(tag)) == Some(
            (Role::Consumer, Some(slot_protocol(cont.ctx()[n as int]))),
        ),
{
    send_value_to_async(n, tag, cont)
}

/// From `Δ ⊢ F[μF]` to `Δ ⊢ μF`: fold the offered protocol into its
/// recursive form.
pub fn fix_session(body: Protocol, cont: PartialSession) -> (res: Result<
    PartialSession,
    SessionError,
>)
    ensures
        res is Ok <==> cont.offered() == unfold(body),
        res matches Err(e) ==> e == SessionError::ProtocolMismatch,
        res matches Ok(s) ==> s.ctx() == cont.ctx() && s.offered() == Protocol::Rec(
            Box::new(body),
        ),
        res matches Ok(s) ==> (closed_judgment(cont) ==> closed_judgment(s)),
        res matches Ok(s) ==> s.first_action() == Action::Send(Channel::Offer, Message::Fold)
            && advance(s.offered(), Message::Fold) == Some((Role::Provider, Some(cont.offered()))),
{
    proof {
        lemma_unfold_closed_iff(body);
    }
    let unfolded = body.unfold();
    if !cont.offer.same(&unfolded) {
        return Err(SessionError::ProtocolMismatch);
    }
    let PartialSession { context, .. } = cont;
    Ok(PartialSession::by_rule(context, Protocol::Rec(Box::new(body)), Action::Send(Channel::Offer, Message::Fold)))
}

/// The error of unfolding the channel at lens `n` of `ctx` into `unfold(body)`, if any.
pub open spec fn unfix_error(ctx: Seq<Slot>, n: int, body: Protocol) -> Option<SessionError> {
    if n >= ctx.len() {
        Some(SessionError::LensOutOfRange)
    } else if ctx[n] != Slot::Chan(unfold(body)) {
        Some(SessionError::SlotMismatch)
    } else {
        None
    }
}

/// From `Δ[n := F[μF]] ⊢ P` to `Δ[n := μF] ⊢ P`: unfold the recursive
/// protocol of the channel at `n`, then continue.
pub fn unfix_session(n: usize, body: Protocol, cont: PartialSession) -> (res: Result<
    PartialSession,
    SessionError,
>)
    ensures
        res is Ok <==> unfix_error(cont.ctx(), n as int, body) is None,
        res matches Err(e) ==> unfix_error(cont.ctx(), n as int, body) == Some(e),
        res matches Ok(s) ==> s.ctx() == cont.ctx().update(
            n as int,
            Slot::Chan(Protocol::Rec(Box::new(body))),
        ) && s.offered() == cont.offered(),
        res matches Ok(s) ==> (closed_judgment(cont) ==> closed_judgment(s)),
        res matches Ok(s) ==> s.first_action() == Action::Receive(Channel::Slot(n), Message::Fold)
            && advance(slot_protocol(s.ctx()[n as int]), Message::Fold) == Some(
            (Role::Provider, Some(slot_protocol(cont.ctx()[n as int]))),
        ),
{
    if n >= cont.context.len() {
        return Err(SessionError::LensOutOfRange);
    }
    let unfolded = Slot::Chan(body.unfold());
    if !cont.context[n].same(&unfolded) {
        return Err(SessionError::SlotMismatch);
    }
    proof {
        if closed_judgment(cont) {
            assert(closed_slot(cont.ctx()[n as int]));
            lemma_unfold_closed_iff(body);
            lemma_update_closed(cont.ctx(), n as int, Slot::Chan(Protocol::Rec(Box::new(body))));
        }
    }
    let context = insert_target(&cont.context, n, Slot::Chan(Protocol::Rec(Box::new(body))));
    Ok(PartialSession::by_rule(context, cont.offer, Action::Receive(Channel::Slot(n), Message::Fold)))
}

/// The branches of a case share every slot but the lens: a case is
/// accepted only if they agree on every other slot, those before the lens
/// and those after it, and every such pair of branches with a channel at
/// the lens and one offered protocol is accepted.
pub proof fn law_case_branches_share_context(n: nat, left: PartialSession, right: PartialSession)
    ensures
        case_error(n as int, left, right) is None ==> {
            &&& 0 <= n < left.ctx().len()
            &&& left.ctx().len() == right.ctx().len()
            &&& forall|i: int|
                0 <= i < left.ctx().len() && i != n ==> #[trigger] left.ctx()[i] == right.ctx()[i]
            &&& left.ctx()[n as int] is Chan
            &&& right.ctx()[n as int] is Chan
            &&& left.offered() == right.offered()
        },
        (0 <= n < left.ctx().len() && left.ctx().len() == right.ctx().len() && (forall|i: int|
            0 <= i < left.ctx().len() && i != n ==> #[trigger] left.ctx()[i] == right.ctx()[i])
            && left.ctx()[n as int] is Chan && right.ctx()[n as int] is Chan && left.offered()
            == right.offered()) ==> case_error(n as int, left, right) is None,
{
    if case_error(n as int, left, right) is None {
        assert(agree_except(left.ctx(), right.ctx(), n as int));
        assert forall|i: int|
            0 <= i < left.ctx().len() && i != n implies #[trigger] left.ctx()[i] == right.ctx()[i] by {
            assert(left.ctx()[i] == right.ctx()[i]);
        }
    }
}

} // verus!
