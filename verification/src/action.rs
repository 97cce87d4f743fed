//! What a session does first when it runs: the one communication of the
//! typing rule it was built with, before it continues as its premise.
use vstd::prelude::*;
use crate::monitor::Message;
use crate::server::ServerEvent;

verus! {

/// A channel of a running session.
#[derive(Debug, Clone, Copy, PartialEq, Eq, Structural)]
pub enum Channel {
    /// The channel the session provides.
    Offer,
    /// The channel in this slot of the session's context.
    Slot(usize),
}

/// The first thing a session does when it runs.
#[derive(Debug, Clone, Copy, PartialEq, Eq, Structural)]
pub enum Action {
    /// A premise stated outright: what it does is known once it is built.
    Declared,
    /// Send the message on the channel, then continue.
    Send(Channel, Message),
    /// Receive the message on the channel, then continue.
    Receive(Channel, Message),
    /// Receive a label on the channel in this slot and run the branch that
    /// `branch_of` gives for it.
    Branch(usize),
    /// Ask the shared session for its lock, then continue with the channel
    /// it grants as the last slot.
    Acquire,
    /// Give the shared session back: the two steps that `steps` lists.
    Detach,
}

/// One message that a session sends or receives.
#[derive(Debug, Clone, Copy, PartialEq, Eq, Structural)]
pub enum Step {
    /// Send the message on the channel.
    Send(Channel, Message),
    /// Receive the message on the channel.
    Receive(Channel, Message),
}

/// The messages an action exchanges on the session's channels, in order.
/// A branch waits for a label that is not fixed in advance, and acquiring
/// goes through the shared session's server, not through a channel of the
/// session: neither has a fixed step here.
pub open spec fn steps(a: Action) -> Seq<Step> {
    match a {
        Action::Send(c, m) => seq![Step::Send(c, m)],
        Action::Receive(c, m) => seq![Step::Receive(c, m)],
        Action::Detach => seq![
            Step::Receive(Channel::Offer, Message::Release),
            Step::Send(Channel::Slot(0), Message::Release),
        ],
        _ => Seq::empty(),
    }
}

/// `steps(a)`.
pub fn action_steps(a: Action) -> (res: Vec<Step>)
    ensures
        res@ == steps(a),
{
    let mut res: Vec<Step> = Vec::new();
    match a {
        Action::Send(c, m) => {
            res.push(Step::Send(c, m));
        },
        Action::Receive(c, m) => {
            res.push(Step::Receive(c, m));
        },
        Action::Detach => {
            res.push(Step::Receive(Channel::Offer, Message::Release));
            res.push(Step::Send(Channel::Slot(0), Message::Release));
        },
        _ => {},
    }
    proof {
        assert(res@ =~= steps(a));
    }
    res
}

/// A branch of an internal choice.
#[derive(Debug, Clone, Copy, PartialEq, Eq, Structural)]
pub enum Branch {
    Left,
    Right,
}

/// The branch that a received label selects; `None` for a message that is
/// no label.
pub open spec fn branch_of(m: Message) -> Option<Branch> {
    match m {
        Message::Left => Some(Branch::Left),
        Message::Right => Some(Branch::Right),
        _ => None,
    }
}

/// The branch that a received label selects, or `None` if the message is
/// no label.
pub fn choose_branch(m: Message) -> (res: Option<Branch>)
    ensures
        res == branch_of(m),
{
    match m {
        Message::Left => Some(Branch::Left),
        Message::Right => Some(Branch::Right),
        _ => None,
    }
}

/// The event that a session's action raises at the shared session's server,
/// for a session run by (or for) the client `client`: acquiring asks for the
/// lock, detaching gives it back; other actions do not reach the server.
pub open spec fn lock_event(a: Action, client: u64) -> Option<ServerEvent> {
    match a {
        Action::Acquire => Some(ServerEvent::Acquire(client)),
        Action::Detach => Some(ServerEvent::Release(client)),
        _ => None,
    }
}

/// `lock_event(a, client)`.
pub fn server_event(a: Action, client: u64) -> (res: Option<ServerEvent>)
    ensures
        res == lock_event(a, client),
{
    match a {
        Action::Acquire => Some(ServerEvent::Acquire(client)),
        Action::Detach => Some(ServerEvent::Release(client)),
        _ => None,
    }
}

} // verus!
