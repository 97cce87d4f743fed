//! The messages that pass on a channel, and the check that each one is what
//! the channel's protocol allows next.
use vstd::prelude::*;
use crate::protocol::{Protocol, unfold, shared_applied};

verus! {

/// The end of a channel that sends a message.
#[derive(Debug, Clone, Copy, PartialEq, Eq, Structural)]
pub enum Role {
    /// The session that offers the protocol.
    Provider,
    /// The session that holds the channel in its context.
    Consumer,
}

/// The kind of a message on a channel.
#[derive(Debug, Clone, Copy, PartialEq, Eq, Structural)]
pub enum Message {
    /// A value of the type named by the tag.
    Value(u64),
    /// The left branch of a choice.
    Left,
    /// The right branch of a choice.
    Right,
    /// The provider folds the protocol into its recursive form.
    Fold,
    /// The session is over.
    Close,
    /// A client acquires a shared session.
    Acquire,
    /// A client gives back a shared session, or a provider its lock.
    Release,
}

/// Who sends `m` on a channel of protocol `p`, and what the protocol is
/// afterwards (`None` once the channel is finished); `None` if `m` does not
/// fit `p`.
pub open spec fn advance(p: Protocol, m: Message) -> Option<(Role, Option<Protocol>)> {
    match (p, m) {
        (Protocol::End, Message::Close) => Some((Role::Provider, None)),
        (Protocol::ReceiveValue(t, next), Message::Value(u)) => if t == u {
            Some((Role::Consumer, Some(*next)))
        } else {
            None
        },
        (Protocol::InternalChoice(c), Message::Left) => Some((Role::Provider, Some(c.left))),
        (Protocol::InternalChoice(c), Message::Right) => Some((Role::Provider, Some(c.right))),
        (Protocol::Rec(f), Message::Fold) => Some((Role::Provider, Some(unfold(*f)))),
        (Protocol::LinearToShared(f), Message::Acquire) => Some(
            (Role::Consumer, Some(shared_applied(*f))),
        ),
        (Protocol::SharedToLinear(_), Message::Release) => Some((Role::Consumer, None)),
        (Protocol::Lock(_), Message::Release) => Some((Role::Consumer, None)),
        _ => None,
    }
}

/// The state of a channel of protocol `p` after the messages `ms`, if each
/// came from the right end and fits; the inner `None` means finished.
pub open spec fn after(p: Option<Protocol>, ms: Seq<(Role, Message)>) -> Option<Option<Protocol>>
    decreases ms.len(),
{
    if ms.len() == 0 {
        Some(p)
    } else {
        match after(p, ms.drop_last()) {
            Some(Some(q)) => match advance(q, ms.last().1) {
                Some((r, next)) => if r == ms.last().0 {
                    Some(next)
                } else {
                    None
                },
                None => None,
            },
            _ => None,
        }
    }
}

/// Why a message was refused.
#[derive(Debug, Clone, Copy, PartialEq, Eq, Structural)]
pub enum MonitorError {
    /// The channel is already finished.
    Finished,
    /// The protocol does not allow this message now.
    Unexpected,
    /// The message fits the protocol, but the other end must send it.
    WrongSender,
}

/// Tracks a channel from its start: its protocol now, and what passed.
pub struct ChannelMonitor {
    current: Option<Protocol>,
    initial: Ghost<Protocol>,
    history: Ghost<Seq<(Role, Message)>>,
}

impl ChannelMonitor {
    /// The protocol the channel follows now; `None` once it is finished.
    pub closed spec fn state(&self) -> Option<Protocol> {
        self.current
    }

    /// The protocol the channel started with.
    pub closed spec fn start(&self) -> Protocol {
        self.initial@
    }

    /// The messages that passed, in order, with their senders.
    pub closed spec fn passed(&self) -> Seq<(Role, Message)> {
        self.history@
    }

    /// The monitor's record agrees with its state.
    #[verifier::type_invariant]
    pub closed spec fn wf(&self) -> bool {
        after(Some(self.initial@), self.history@) == Some(self.current)
    }

    /// A monitor for a fresh channel of protocol `p`.
    pub fn new(p: Protocol) -> (res: ChannelMonitor)
        ensures
            res.wf(),
            res.state() == Some(p),
            res.start() == p,
            res.passed() == Seq::<(Role, Message)>::empty(),
    {
        ChannelMonitor { current: Some(p), initial: Ghost(p), history: Ghost(Seq::empty()) }
    }

    /// The protocol the channel follows now, if it is not finished.
    pub fn current(&self) -> (res: &Option<Protocol>)
        ensures
            *res == self.state(),
    {
        &self.current
    }

    /// Records that `from` sends `m`, if the protocol allows it; a refused
    /// message leaves the monitor as it was.
    pub fn send(&mut self, from: Role, m: Message) -> (res: Result<(), MonitorError>)
        ensures
            final(self).wf(),
            final(self).start() == old(self).start(),
            match old(self).state() {
                None => res == Err::<(), MonitorError>(MonitorError::Finished),
                Some(p) => match advance(p, m) {
                    None => res == Err::<(), MonitorError>(MonitorError::Unexpected),
                    Some((r, next)) => if r != from {
                        res == Err::<(), MonitorError>(MonitorError::WrongSender)
                    } else {
                        res is Ok && final(self).state() == next
                    },
                },
            },
            res is Ok ==> final(self).passed() == old(self).passed().push((from, m))
                && Some(final(self).state()) == after(
                Some(old(self).start()),
                final(self).passed(),
            ),
            res is Err ==> final(self).passed() == old(self).passed() && final(self).state()
                == old(self).state(),
    {
        proof {
            use_type_invariant(&*self);
        }
        let p = match &self.current {
            None => {
                return Err(MonitorError::Finished);
            },
            Some(p) => p,
        };
        let step = advance_exec(p, m);
        match step {
            None => Err(MonitorError::Unexpected),
            Some((r, next)) => {
                if r != from {
                    return Err(MonitorError::WrongSender);
                }
                let ghost old_history = self.history@;
                proof {
                    assert(old_history.push((from, m)).drop_last() == old_history);
                }
                let initial = self.initial;
                *self = ChannelMonitor {
                    current: next,
                    initial,
                    history: Ghost(old_history.push((from, m))),
                };
                Ok(())
            },
        }
    }
}

/// `advance(p, m)`.
pub fn advance_exec(p: &Protocol, m: Message) -> (res: Option<(Role, Option<Protocol>)>)
    ensures
        res == advance(*p, m),
{
    match (p, m) {
        (Protocol::End, Message::Close) => Some((Role::Provider, None)),
        (Protocol::ReceiveValue(t, next), Message::Value(u)) => {
            if *t == u {
                Some((Role::Consumer, Some(next.duplicate())))
            } else {
                None
            }
        },
        (Protocol::InternalChoice(c), Message::Left) => Some(
            (Role::Provider, Some(c.left.duplicate())),
        ),
        (Protocol::InternalChoice(c), Message::Right) => Some(
            (Role::Provider, Some(c.right.duplicate())),
        ),
        (Protocol::Rec(f), Message::Fold) => Some((Role::Provider, Some(f.unfold()))),
        (Protocol::LinearToShared(f), Message::Acquire) => Some(
            (Role::Consumer, Some(f.shared_applied())),
        ),
        (Protocol::SharedToLinear(_), Message::Release) => Some((Role::Consumer, None)),
        (Protocol::Lock(_), Message::Release) => Some((Role::Consumer, None)),
        _ => None,
    }
}

/// Messages that fit keep a closed protocol closed.
pub proof fn lemma_advance_keeps_closed(p: Protocol, m: Message)
    requires
        crate::protocol::closed(p),
        advance(p, m) matches Some((_, Some(q))),
    ensures
        advance(p, m) matches Some((_, Some(q))) && crate::protocol::closed(q),
{
    match p {
        Protocol::Rec(f) => {
            crate::protocol::lemma_unfold_closed(*f);
        },
        Protocol::LinearToShared(f) => {
            crate::protocol::lemma_shared_applied_closed(*f);
        },
        _ => {},
    }
}

/// Only the provider ends a channel of protocol `End`, and afterwards
/// nothing more can pass on it.
pub proof fn lemma_closed_channel_is_final(p: Protocol, ms: Seq<(Role, Message)>, m: (Role, Message))
    requires
        after(Some(p), ms) == Some(None::<Protocol>),
    ensures
        after(Some(p), ms.push(m)) is None,
{
    assert(ms.push(m).drop_last() == ms);
}

/// A value fits a channel only where its protocol receives a value of that
/// very type, sent by the consumer; any other tag, or a value where no value
/// is due, does not fit.
pub proof fn law_value_needs_its_tag(p: Protocol, u: u64)
    ensures
        advance(p, Message::Value(u)) is Some <==> (p is ReceiveValue && p->ReceiveValue_0 == u),
        advance(p, Message::Value(u)) matches Some((r, next)) ==> r == Role::Consumer && next
            == Some(*p->ReceiveValue_1),
{
}

/// The monitor takes a value only of the type its channel's protocol names
/// now; it refuses every other value without moving on.
pub proof fn law_monitor_refuses_other_tags(t: u64, next: Protocol, u: u64)
    requires
        u != t,
    ensures
        advance(Protocol::ReceiveValue(t, Box::new(next)), Message::Value(u)) is None,
{
}

} // verus!
