use ferrite_session::action::{action_steps, server_event, Action, Channel, Step};
use ferrite_session::context::Slot;
use ferrite_session::monitor::Message;
use ferrite_session::server::ServerEvent;
use ferrite_session::protocol::Protocol;
use ferrite_session::session::{receive_value, send_value_to, terminate, PartialSession, SessionError};
use ferrite_session::shared::{
    accept_shared_session, acquire_shared_session, async_acquire_shared_session,
    detach_shared_session, release_shared_session, run_shared_session, SharedSession,
};

fn recv(tag: u64, next: Protocol) -> Protocol {
    Protocol::ReceiveValue(tag, Box::new(next))
}

fn lock(body: Protocol) -> Protocol {
    Protocol::Lock(Box::new(body))
}

fn release(body: Protocol) -> Protocol {
    Protocol::SharedToLinear(Box::new(body))
}

// A shared counter: each client sends one value (tag 7) and releases.
fn counter_body() -> Protocol {
    recv(7, Protocol::Var(0))
}

fn counter_applied() -> Protocol {
    recv(7, release(counter_body()))
}

#[test]
fn shared_counter_type_checks() {
    let detach = detach_shared_session(SharedSession::new(counter_body()), vec![]).unwrap();
    assert_eq!(detach.context(), &vec![Slot::Chan(lock(counter_body()))]);
    assert_eq!(detach.offer(), &release(counter_body()));
    let linear = receive_value(7, detach);
    assert_eq!(linear.offer(), &counter_applied());
    let shared = accept_shared_session(linear).unwrap();
    assert_eq!(shared.body(), &counter_body());
    let handle = run_shared_session(shared);
    assert_eq!(handle.body(), &counter_body());
}

#[test]
fn detach_keeps_the_empty_slots_after_the_lock() {
    let s = detach_shared_session(SharedSession::new(Protocol::End), vec![Slot::Empty, Slot::Empty]).unwrap();
    assert_eq!(s.context(), &vec![Slot::Chan(lock(Protocol::End)), Slot::Empty, Slot::Empty]);
    assert_eq!(s.offer(), &release(Protocol::End));
}

#[test]
fn detach_refuses_open_channels() {
    let res = detach_shared_session(SharedSession::new(Protocol::End), vec![Slot::Chan(Protocol::End)]);
    assert_eq!(res.err(), Some(SessionError::ContextNotEmpty));
}

#[test]
fn accept_errors() {
    let no_lock = PartialSession::new(vec![], counter_applied());
    assert_eq!(accept_shared_session(no_lock).err(), Some(SessionError::SlotMismatch));
    let two_slots = PartialSession::new(
        vec![Slot::Chan(lock(counter_body())), Slot::Empty],
        counter_applied(),
    );
    assert_eq!(accept_shared_session(two_slots).err(), Some(SessionError::SlotMismatch));
    let not_a_lock = PartialSession::new(vec![Slot::Chan(Protocol::End)], counter_applied());
    assert_eq!(accept_shared_session(not_a_lock).err(), Some(SessionError::SlotMismatch));
    let wrong_offer = PartialSession::new(vec![Slot::Chan(lock(counter_body()))], Protocol::End);
    assert_eq!(accept_shared_session(wrong_offer).err(), Some(SessionError::ProtocolMismatch));
}

#[test]
fn acquire_puts_the_shared_session_last() {
    let handle = run_shared_session(SharedSession::new(counter_body()));
    let cont = PartialSession::new(
        vec![Slot::Empty, Slot::Chan(counter_applied())],
        Protocol::End,
    );
    let s = handle.acquire(cont).unwrap();
    assert_eq!(s.context(), &vec![Slot::Empty]);
    assert_eq!(s.offer(), &Protocol::End);

    let cont = PartialSession::new(vec![Slot::Chan(counter_applied())], recv(1, Protocol::End));
    let s = acquire_shared_session(handle.duplicate(), cont).unwrap();
    assert!(s.context().is_empty());
    assert_eq!(s.offer(), &recv(1, Protocol::End));
}

#[test]
fn acquire_errors() {
    let handle = run_shared_session(SharedSession::new(counter_body()));
    let empty = PartialSession::new(vec![], Protocol::End);
    assert_eq!(handle.acquire(empty).err(), Some(SessionError::LensOutOfRange));
    let wrong = PartialSession::new(vec![Slot::Chan(Protocol::End)], Protocol::End);
    assert_eq!(handle.acquire(wrong).err(), Some(SessionError::SlotMismatch));
}

#[test]
fn async_acquire_builds_a_closed_program() {
    let handle = run_shared_session(SharedSession::new(counter_body()));
    let cont = PartialSession::new(vec![Slot::Chan(counter_applied())], Protocol::End);
    let program = async_acquire_shared_session(handle.duplicate(), cont).unwrap();
    assert!(program.context().is_empty());
    assert_eq!(program.offer(), &Protocol::End);

    let two = PartialSession::new(vec![Slot::Chan(counter_applied()), Slot::Empty], Protocol::End);
    assert_eq!(async_acquire_shared_session(handle.duplicate(), two).err(), Some(SessionError::SlotMismatch));
    let wrong_slot = PartialSession::new(vec![Slot::Empty], Protocol::End);
    assert_eq!(async_acquire_shared_session(handle.duplicate(), wrong_slot).err(), Some(SessionError::SlotMismatch));
    let not_end = PartialSession::new(vec![Slot::Chan(counter_applied())], recv(1, Protocol::End));
    assert_eq!(async_acquire_shared_session(handle, not_end).err(), Some(SessionError::ProtocolMismatch));
}

#[test]
fn release_fills_the_slot_with_the_obligation() {
    let cont = PartialSession::new(vec![Slot::Chan(Protocol::End), Slot::Empty], Protocol::End);
    let s = release_shared_session(1, counter_body(), cont).unwrap();
    assert_eq!(s.context(), &vec![Slot::Chan(Protocol::End), Slot::Chan(release(counter_body()))]);
    assert_eq!(s.offer(), &Protocol::End);
}

#[test]
fn release_errors() {
    let cont = PartialSession::new(vec![Slot::Chan(Protocol::End)], Protocol::End);
    assert_eq!(release_shared_session(0, counter_body(), cont).err(), Some(SessionError::SlotMismatch));
    let cont = PartialSession::new(vec![], Protocol::End);
    assert_eq!(release_shared_session(0, counter_body(), cont).err(), Some(SessionError::LensOutOfRange));
}

#[test]
fn a_client_acquires_sends_and_releases() {
    // [] ⊢ End: acquire the counter, send 7 to it, release it, end.
    let done = terminate(vec![Slot::Empty]).unwrap();
    let released = release_shared_session(0, counter_body(), done).unwrap();
    let sent = send_value_to(0, 7, released).unwrap();
    assert_eq!(sent.context(), &vec![Slot::Chan(counter_applied())]);
    let handle = run_shared_session(SharedSession::new(counter_body()));
    let program = handle.acquire(sent).unwrap();
    assert!(program.context().is_empty());
    assert_eq!(program.offer(), &Protocol::End);
}

#[test]
fn shared_rules_say_what_they_do_first() {
    let detach = detach_shared_session(SharedSession::new(counter_body()), vec![]).unwrap();
    assert_eq!(detach.action(), Action::Detach);
    assert_eq!(server_event(detach.action(), 4), Some(ServerEvent::Release(4)));
    let handle = run_shared_session(SharedSession::new(counter_body()));
    let acquired = handle.acquire(PartialSession::new(vec![Slot::Chan(counter_applied())], Protocol::End)).unwrap();
    assert_eq!(acquired.action(), Action::Acquire);
    assert_eq!(server_event(acquired.action(), 9), Some(ServerEvent::Acquire(9)));
    let released = release_shared_session(0, counter_body(), PartialSession::new(vec![Slot::Empty], Protocol::End)).unwrap();
    assert_eq!(released.action(), Action::Send(Channel::Slot(0), Message::Release));
    assert_eq!(server_event(released.action(), 9), None);
}

#[test]
fn detach_receives_the_release_then_gives_the_lock_back() {
    let detach = detach_shared_session(SharedSession::new(counter_body()), vec![Slot::Empty]).unwrap();
    assert_eq!(
        action_steps(detach.action()),
        vec![
            Step::Receive(Channel::Offer, Message::Release),
            Step::Send(Channel::Slot(0), Message::Release),
        ]
    );
    let released = release_shared_session(0, counter_body(), PartialSession::new(vec![Slot::Empty], Protocol::End)).unwrap();
    assert_eq!(action_steps(released.action()), vec![Step::Send(Channel::Slot(0), Message::Release)]);
    assert!(action_steps(Action::Acquire).is_empty());
}
