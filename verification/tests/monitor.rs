use ferrite_session::monitor::{advance_exec, ChannelMonitor, Message, MonitorError, Role};
use ferrite_session::protocol::{InternalChoice, Protocol};

fn recv(tag: u64, next: Protocol) -> Protocol {
    Protocol::ReceiveValue(tag, Box::new(next))
}

fn choice(left: Protocol, right: Protocol) -> Protocol {
    Protocol::InternalChoice(Box::new(InternalChoice { left, right }))
}

#[test]
fn a_choice_then_a_value_then_the_end() {
    let mut m = ChannelMonitor::new(choice(recv(2, Protocol::End), Protocol::End));
    assert_eq!(m.send(Role::Provider, Message::Left), Ok(()));
    assert_eq!(m.current(), &Some(recv(2, Protocol::End)));
    assert_eq!(m.send(Role::Consumer, Message::Value(2)), Ok(()));
    assert_eq!(m.current(), &Some(Protocol::End));
    assert_eq!(m.send(Role::Provider, Message::Close), Ok(()));
    assert_eq!(m.current(), &None);
    assert_eq!(m.send(Role::Provider, Message::Close), Err(MonitorError::Finished));
}

#[test]
fn wrong_messages_are_refused_and_change_nothing() {
    let mut m = ChannelMonitor::new(recv(2, Protocol::End));
    assert_eq!(m.send(Role::Consumer, Message::Value(3)), Err(MonitorError::Unexpected));
    assert_eq!(m.send(Role::Provider, Message::Value(2)), Err(MonitorError::WrongSender));
    assert_eq!(m.send(Role::Provider, Message::Left), Err(MonitorError::Unexpected));
    assert_eq!(m.current(), &Some(recv(2, Protocol::End)));
}

#[test]
fn fold_unfolds_a_recursive_protocol() {
    let body = recv(1, Protocol::Var(0));
    let mut m = ChannelMonitor::new(Protocol::Rec(Box::new(body.duplicate())));
    assert_eq!(m.send(Role::Provider, Message::Fold), Ok(()));
    assert_eq!(m.current(), &Some(recv(1, Protocol::Rec(Box::new(body.duplicate())))));
    assert_eq!(m.send(Role::Consumer, Message::Value(1)), Ok(()));
    assert_eq!(m.current(), &Some(Protocol::Rec(Box::new(body))));
}

#[test]
fn acquire_and_release_a_shared_protocol() {
    let body = recv(7, Protocol::Var(0));
    let mut m = ChannelMonitor::new(Protocol::LinearToShared(Box::new(body.duplicate())));
    assert_eq!(m.send(Role::Provider, Message::Acquire), Err(MonitorError::WrongSender));
    assert_eq!(m.send(Role::Consumer, Message::Acquire), Ok(()));
    let release = Protocol::SharedToLinear(Box::new(body.duplicate()));
    assert_eq!(m.current(), &Some(recv(7, release.duplicate())));
    assert_eq!(m.send(Role::Consumer, Message::Value(7)), Ok(()));
    assert_eq!(m.current(), &Some(release));
    assert_eq!(m.send(Role::Consumer, Message::Release), Ok(()));
    assert_eq!(m.current(), &None);
}

#[test]
fn advance_on_each_protocol() {
    assert_eq!(advance_exec(&Protocol::End, Message::Close), Some((Role::Provider, None)));
    assert_eq!(advance_exec(&Protocol::End, Message::Left), None);
    assert_eq!(
        advance_exec(&choice(Protocol::End, recv(1, Protocol::End)), Message::Right),
        Some((Role::Provider, Some(recv(1, Protocol::End))))
    );
    assert_eq!(advance_exec(&Protocol::Var(0), Message::Fold), None);
    assert_eq!(
        advance_exec(&Protocol::Lock(Box::new(Protocol::End)), Message::Release),
        Some((Role::Consumer, None))
    );
}
