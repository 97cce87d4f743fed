//! How the rules of a provider and of a consumer of one channel meet.
//!
//! Each rule fixes the message its session exchanges first, and states that
//! the message moves the channel from the protocol of the conclusion to that
//! of the premise.  The laws below put a provider rule and the matching
//! consumer rule on the two ends of one channel: what the one sends is what
//! the other expects, and both continue on the same protocol.  For shared
//! sessions, they tie the acquiring and detaching rules to the server's
//! decisions: one client at a time.
use vstd::prelude::*;
use crate::protocol::{Protocol, choice, unfold, shared_applied};
use crate::context::Slot;
use crate::session::{PartialSession, slot_protocol, case_error};
use crate::monitor::{Role, Message, advance};
use crate::action::{Action, Channel, Branch, branch_of, lock_event};
use crate::server::{ServerModel, ServerEvent, ServerAction, server_wf, next, lemma_next_keeps_wf};

verus! {

/// The label that `offer_left(cont, q)` sends makes a `case` on that channel
/// run its left branch, never its right one, and the left branch goes on
/// with the protocol that `cont` offers.
pub proof fn law_offer_left_runs_left_branch(
    provider: PartialSession,
    cont: PartialSession,
    q: Protocol,
    n: int,
    left: PartialSession,
    right: PartialSession,
)
    requires
        provider.first_action() == Action::Send(Channel::Offer, Message::Left),
        provider.offered() == choice(cont.offered(), q),
        case_error(n, left, right) is None,
        choice(slot_protocol(left.ctx()[n]), slot_protocol(right.ctx()[n])) == provider.offered(),
    ensures
        branch_of(provider.first_action()->Send_1) == Some(Branch::Left),
        left.ctx()[n] == Slot::Chan(cont.offered()),
        right.ctx()[n] == Slot::Chan(q),
        advance(provider.offered(), Message::Left) == Some(
            (Role::Provider, Some(slot_protocol(left.ctx()[n]))),
        ),
{
}

/// The label that `offer_right(p, cont)` sends makes a `case` on that
/// channel run its right branch, never its left one, and the right branch
/// goes on with the protocol that `cont` offers.
pub proof fn law_offer_right_runs_right_branch(
    provider: PartialSession,
    p: Protocol,
    cont: PartialSession,
    n: int,
    left: PartialSession,
    right: PartialSession,
)
    requires
        provider.first_action() == Action::Send(Channel::Offer, Message::Right),
        provider.offered() == choice(p, cont.offered()),
        case_error(n, left, right) is None,
        choice(slot_protocol(left.ctx()[n]), slot_protocol(right.ctx()[n])) == provider.offered(),
    ensures
        branch_of(provider.first_action()->Send_1) == Some(Branch::Right),
        left.ctx()[n] == Slot::Chan(p),
        right.ctx()[n] == Slot::Chan(cont.offered()),
        advance(provider.offered(), Message::Right) == Some(
            (Role::Provider, Some(slot_protocol(right.ctx()[n]))),
        ),
{
}

/// A `case` that receives anything but a label runs no branch.
pub proof fn law_case_refuses_other_messages(m: Message)
    requires
        m != Message::Left,
        m != Message::Right,
    ensures
        branch_of(m) is None,
{
}

/// What `send_value_to` sends at the lens is what a `receive_value`
/// providing that channel waits for: a value of the same type, after which
/// both go on with one protocol.
pub proof fn law_send_meets_receive(
    provider: PartialSession,
    provider_cont: PartialSession,
    tag: u64,
    consumer: PartialSession,
    consumer_cont: PartialSession,
    n: int,
    sent: u64,
)
    requires
        provider.first_action() == Action::Receive(Channel::Offer, Message::Value(tag)),
        provider.offered() == Protocol::ReceiveValue(tag, Box::new(provider_cont.offered())),
        0 <= n < consumer_cont.ctx().len(),
        consumer.first_action() == Action::Send(Channel::Slot(n as usize), Message::Value(sent)),
        consumer.ctx() == consumer_cont.ctx().update(
            n,
            Slot::Chan(
                Protocol::ReceiveValue(sent, Box::new(slot_protocol(consumer_cont.ctx()[n]))),
            ),
        ),
        consumer.ctx()[n] == Slot::Chan(provider.offered()),
    ensures
        sent == tag,
        slot_protocol(consumer_cont.ctx()[n]) == provider_cont.offered(),
        advance(provider.offered(), Message::Value(sent)) == Some(
            (Role::Consumer, Some(provider_cont.offered())),
        ),
{
}

/// What `fix_session` folds is what `unfix_session` unfolds: the provider's
/// `Fold` is the message the consumer waits for, and both go on with the
/// unfolded protocol.
pub proof fn law_fix_meets_unfix(
    body: Protocol,
    provider: PartialSession,
    provider_cont: PartialSession,
    consumer: PartialSession,
    consumer_cont: PartialSession,
    n: int,
)
    requires
        provider.first_action() == Action::Send(Channel::Offer, Message::Fold),
        provider.offered() == Protocol::Rec(Box::new(body)),
        provider_cont.offered() == unfold(body),
        0 <= n < consumer_cont.ctx().len(),
        consumer.first_action() == Action::Receive(Channel::Slot(n as usize), Message::Fold),
        consumer_cont.ctx()[n] == Slot::Chan(unfold(body)),
    ensures
        provider.first_action()->Send_1 == consumer.first_action()->Receive_1,
        slot_protocol(consumer_cont.ctx()[n]) == provider_cont.offered(),
        advance(provider.offered(), Message::Fold) == Some(
            (Role::Provider, Some(provider_cont.offered())),
        ),
{
}

/// A client that acquires a shared session of `F` gets the protocol that a
/// provider accepting with `[Lock<F>] ⊢ shared_applied(F)` offers.
pub proof fn law_acquire_meets_accept(body: Protocol, client: PartialSession, provider: PartialSession)
    requires
        client.ctx().len() > 0,
        client.ctx().last() == Slot::Chan(shared_applied(body)),
        provider.ctx() == seq![Slot::Chan(Protocol::Lock(Box::new(body)))],
        provider.offered() == shared_applied(body),
    ensures
        advance(Protocol::LinearToShared(Box::new(body)), Message::Acquire) == Some(
            (Role::Consumer, Some(provider.offered())),
        ),
        slot_protocol(client.ctx().last()) == provider.offered(),
{
}

/// Mutual exclusion of a shared session: while a client holds it, the
/// request that any acquiring session raises is not granted, and the lock
/// is freed only by the release that a detaching session raises for that
/// holder; that release hands the lock to the first waiting client, if any.
pub proof fn law_detach_mutual_exclusion(
    m: ServerModel,
    holder: u64,
    detaching: PartialSession,
    acquiring: PartialSession,
    other: u64,
)
    requires
        server_wf(m),
        m.holder == Some(holder),
        detaching.first_action() == Action::Detach,
        acquiring.first_action() == Action::Acquire,
    ensures
        lock_event(acquiring.first_action(), other) == Some(ServerEvent::Acquire(other)),
        !(next(m, ServerEvent::Acquire(other)).1 is Grant),
        next(m, ServerEvent::Acquire(other)).0.holder == Some(holder),
        other != holder ==> next(m, ServerEvent::Release(other)) == (m, ServerAction::Reject),
        lock_event(detaching.first_action(), holder) == Some(ServerEvent::Release(holder)),
        next(m, ServerEvent::Release(holder)).0.holder == (if m.waiting.len() > 0 {
            Some(m.waiting[0])
        } else {
            None::<u64>
        }),
{
}

/// The server's state after the events `es`, in order.
pub open spec fn after_events(m: ServerModel, es: Seq<ServerEvent>) -> ServerModel
    decreases es.len(),
{
    if es.len() == 0 {
        m
    } else {
        next(after_events(m, es.drop_last()), es.last()).0
    }
}

/// Mutual exclusion over any run: once a client holds the shared session,
/// whatever requests, foreign releases and closes arrive, it keeps the lock
/// and nobody else is granted it, until the release that its detaching
/// session raises.
pub proof fn law_lock_held_until_release(m: ServerModel, holder: u64, es: Seq<ServerEvent>)
    requires
        server_wf(m),
        m.holder == Some(holder),
        forall|i: int| 0 <= i < es.len() ==> es[i] != ServerEvent::Release(holder),
    ensures
        after_events(m, es).holder == Some(holder),
        server_wf(after_events(m, es)),
        forall|i: int|
            0 <= i < es.len() ==> !(#[trigger] next(after_events(m, es.take(i)), es[i]).1 is Grant),
    decreases es.len(),
{
    if es.len() > 0 {
        let init = es.drop_last();
        law_lock_held_until_release(m, holder, init);
        let r = after_events(m, init);
        lemma_next_keeps_wf(r, es.last());
        assert forall|i: int|
            0 <= i < es.len() implies !(#[trigger] next(after_events(m, es.take(i)), es[i]).1 is Grant) by {
            if i < init.len() {
                assert(es.take(i) == init.take(i));
                assert(es[i] == init[i]);
                assert(!(next(after_events(m, init.take(i)), init[i]).1 is Grant));
            } else {
                assert(es.take(i) == init);
            }
        }
    }
}

} // verus!
