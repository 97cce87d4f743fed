use ferrite_session::action::{choose_branch, Action, Branch, Channel};
use ferrite_session::context::Slot;
use ferrite_session::monitor::Message;
use ferrite_session::protocol::{InternalChoice, Protocol};
use ferrite_session::session::{
    case, check_program, fix_session, offer_left, offer_right, receive_value, send_value_to,
    send_value_to_async, terminate, unfix_session, wait, InternalSession, PartialSession,
    SessionError,
};

fn recv(tag: u64, next: Protocol) -> Protocol {
    Protocol::ReceiveValue(tag, Box::new(next))
}

fn choice(left: Protocol, right: Protocol) -> Protocol {
    Protocol::InternalChoice(Box::new(InternalChoice { left, right }))
}

fn chan(p: Protocol) -> Slot {
    Slot::Chan(p)
}

fn judgment(context: Vec<Slot>, offer: Protocol) -> PartialSession {
    PartialSession::new(context, offer)
}

#[test]
fn terminate_in_empty_context() {
    let s = terminate(vec![Slot::Empty, Slot::Empty]).unwrap();
    assert_eq!(s.context(), &vec![Slot::Empty, Slot::Empty]);
    assert_eq!(s.offer(), &Protocol::End);
    let none = terminate(vec![]).unwrap();
    assert!(none.context().is_empty());
}

#[test]
fn terminate_refuses_a_channel_left_open() {
    let res = terminate(vec![Slot::Empty, chan(Protocol::End)]);
    assert_eq!(res.err(), Some(SessionError::ContextNotEmpty));
}

#[test]
fn wait_consumes_an_ended_channel() {
    let cont = terminate(vec![Slot::Empty]).unwrap();
    let s = wait(0, cont).unwrap();
    assert_eq!(s.context(), &vec![chan(Protocol::End)]);
    assert_eq!(s.offer(), &Protocol::End);
}

#[test]
fn wait_errors() {
    let cont = judgment(vec![Slot::Empty], Protocol::End);
    assert_eq!(wait(1, cont).err(), Some(SessionError::LensOutOfRange));
    let busy = judgment(vec![chan(Protocol::End)], Protocol::End);
    assert_eq!(wait(0, busy).err(), Some(SessionError::SlotMismatch));
}

#[test]
fn offer_left_and_right_offer_a_choice() {
    let cont = judgment(vec![chan(Protocol::End)], recv(3, Protocol::End));
    let s = offer_left(cont, Protocol::End);
    assert_eq!(s.context(), &vec![chan(Protocol::End)]);
    assert_eq!(s.offer(), &choice(recv(3, Protocol::End), Protocol::End));

    let cont = judgment(vec![], Protocol::End);
    let s = offer_right(recv(3, Protocol::End), cont);
    assert!(s.context().is_empty());
    assert_eq!(s.offer(), &choice(recv(3, Protocol::End), Protocol::End));
}

#[test]
fn case_joins_two_branches() {
    let left = InternalSession {
        session: judgment(vec![Slot::Empty, chan(recv(1, Protocol::End))], Protocol::End),
    };
    let right = InternalSession {
        session: judgment(vec![Slot::Empty, chan(Protocol::End)], Protocol::End),
    };
    let s = case(1, left, right).unwrap();
    assert_eq!(
        s.context(),
        &vec![Slot::Empty, chan(choice(recv(1, Protocol::End), Protocol::End))]
    );
    assert_eq!(s.offer(), &Protocol::End);
}

#[test]
fn case_errors() {
    let branch = |ctx: Vec<Slot>, offer: Protocol| InternalSession {
        session: judgment(ctx, offer),
    };
    assert_eq!(
        case(2, branch(vec![chan(Protocol::End)], Protocol::End), branch(vec![chan(Protocol::End)], Protocol::End)).err(),
        Some(SessionError::LensOutOfRange)
    );
    assert_eq!(
        case(0, branch(vec![Slot::Empty], Protocol::End), branch(vec![chan(Protocol::End)], Protocol::End)).err(),
        Some(SessionError::SlotMismatch)
    );
    assert_eq!(
        case(
            0,
            branch(vec![chan(Protocol::End), Slot::Empty], Protocol::End),
            branch(vec![chan(Protocol::End), chan(Protocol::End)], Protocol::End)
        )
        .err(),
        Some(SessionError::BranchMismatch)
    );
    assert_eq!(
        case(0, branch(vec![chan(Protocol::End)], Protocol::End), branch(vec![chan(Protocol::End), Slot::Empty], Protocol::End)).err(),
        Some(SessionError::BranchMismatch)
    );
    assert_eq!(
        case(0, branch(vec![chan(Protocol::End)], Protocol::End), branch(vec![Slot::Empty], Protocol::End)).err(),
        Some(SessionError::SlotMismatch)
    );
    assert_eq!(
        case(0, branch(vec![chan(Protocol::End)], Protocol::End), branch(vec![chan(Protocol::End)], recv(1, Protocol::End))).err(),
        Some(SessionError::ProtocolMismatch)
    );
}

#[test]
fn receive_value_prefixes_the_offer() {
    let cont = judgment(vec![Slot::Empty], choice(Protocol::End, Protocol::End));
    let s = receive_value(9, cont);
    assert_eq!(s.context(), &vec![Slot::Empty]);
    assert_eq!(s.offer(), &recv(9, choice(Protocol::End, Protocol::End)));
}

#[test]
fn send_value_to_prefixes_the_slot() {
    let cont = judgment(vec![Slot::Empty, chan(Protocol::End)], Protocol::End);
    let s = send_value_to(1, 4, cont).unwrap();
    assert_eq!(s.context(), &vec![Slot::Empty, chan(recv(4, Protocol::End))]);
    assert_eq!(s.offer(), &Protocol::End);

    let cont = judgment(vec![chan(recv(2, Protocol::End))], Protocol::End);
    let s = send_value_to_async(0, 2, cont).unwrap();
    assert_eq!(s.context(), &vec![chan(recv(2, recv(2, Protocol::End)))]);
}

#[test]
fn send_value_to_errors() {
    let cont = judgment(vec![Slot::Empty], Protocol::End);
    assert_eq!(send_value_to(0, 1, cont).err(), Some(SessionError::SlotMismatch));
    let cont = judgment(vec![Slot::Empty], Protocol::End);
    assert_eq!(send_value_to_async(3, 1, cont).err(), Some(SessionError::LensOutOfRange));
}

#[test]
fn fix_session_folds_the_offer() {
    // μX. 5 ⊃ X
    let body = recv(5, Protocol::Var(0));
    let unfolded = recv(5, Protocol::Rec(Box::new(body.duplicate())));
    let cont = judgment(vec![Slot::Empty], unfolded);
    let s = fix_session(body.duplicate(), cont).unwrap();
    assert_eq!(s.context(), &vec![Slot::Empty]);
    assert_eq!(s.offer(), &Protocol::Rec(Box::new(body)));
}

#[test]
fn fix_session_refuses_another_protocol() {
    let body = recv(5, Protocol::Var(0));
    let cont = judgment(vec![], recv(5, Protocol::End));
    assert_eq!(fix_session(body, cont).err(), Some(SessionError::ProtocolMismatch));
}

#[test]
fn unfix_session_unfolds_a_slot() {
    let body = choice(Protocol::End, Protocol::Var(0));
    let unfolded = choice(Protocol::End, Protocol::Rec(Box::new(body.duplicate())));
    let cont = judgment(vec![chan(unfolded), Slot::Empty], Protocol::End);
    let s = unfix_session(0, body.duplicate(), cont).unwrap();
    assert_eq!(s.context(), &vec![chan(Protocol::Rec(Box::new(body))), Slot::Empty]);
    assert_eq!(s.offer(), &Protocol::End);
}

#[test]
fn unfix_session_errors() {
    let body = choice(Protocol::End, Protocol::Var(0));
    let cont = judgment(vec![chan(Protocol::End)], Protocol::End);
    assert_eq!(unfix_session(1, body.duplicate(), cont).err(), Some(SessionError::LensOutOfRange));
    let cont = judgment(vec![chan(Protocol::End)], Protocol::End);
    assert_eq!(unfix_session(0, body, cont).err(), Some(SessionError::SlotMismatch));
}

#[test]
fn a_recursive_echo_server_type_checks() {
    // The server offers μX. 1 ⊃ (X ⊕ End): it receives a value, then either
    // goes round again or stops.  The recursive call is stated as a premise.
    let body = recv(1, choice(Protocol::Var(0), Protocol::End));
    let again = judgment(vec![], Protocol::Rec(Box::new(body.duplicate())));
    let stop = terminate(vec![]).unwrap();
    let step_again = offer_left(again, Protocol::End);
    let step_stop = offer_right(Protocol::Rec(Box::new(body.duplicate())), stop);
    assert!(step_again.same(&step_stop));
    let server = fix_session(body.duplicate(), receive_value(1, step_again)).unwrap();
    assert_eq!(server.offer(), &Protocol::Rec(Box::new(body)));
}

#[test]
fn judgments_compare_by_context_and_offer() {
    let a = judgment(vec![Slot::Empty], Protocol::End);
    let b = judgment(vec![Slot::Empty], Protocol::End);
    let c = judgment(vec![chan(Protocol::End)], Protocol::End);
    let d = judgment(vec![Slot::Empty], recv(1, Protocol::End));
    assert!(a.same(&b));
    assert!(!a.same(&c));
    assert!(!a.same(&d));
}

#[test]
fn only_closed_programs_run_on_their_own() {
    assert_eq!(check_program(&terminate(vec![]).unwrap()), Ok(()));
    assert_eq!(
        check_program(&judgment(vec![Slot::Empty], Protocol::End)),
        Err(SessionError::ContextNotEmpty)
    );
    assert_eq!(
        check_program(&judgment(vec![], recv(1, Protocol::End))),
        Err(SessionError::ProtocolMismatch)
    );
}

#[test]
fn offer_left_sends_left_and_offer_right_sends_right() {
    let left = offer_left(terminate(vec![]).unwrap(), Protocol::End);
    let right = offer_right(Protocol::End, terminate(vec![]).unwrap());
    // same judgment, different first message
    assert!(left.same(&right));
    assert_eq!(left.action(), Action::Send(Channel::Offer, Message::Left));
    assert_eq!(right.action(), Action::Send(Channel::Offer, Message::Right));
    assert_eq!(choose_branch(Message::Left), Some(Branch::Left));
    assert_eq!(choose_branch(Message::Right), Some(Branch::Right));
    assert_eq!(choose_branch(Message::Close), None);
}

#[test]
fn each_rule_says_what_it_does_first() {
    let t = terminate(vec![]).unwrap();
    assert_eq!(t.action(), Action::Send(Channel::Offer, Message::Close));
    let w = wait(0, terminate(vec![Slot::Empty]).unwrap()).unwrap();
    assert_eq!(w.action(), Action::Receive(Channel::Slot(0), Message::Close));
    let r = receive_value(6, terminate(vec![]).unwrap());
    assert_eq!(r.action(), Action::Receive(Channel::Offer, Message::Value(6)));
    let s = send_value_to(0, 6, judgment(vec![chan(Protocol::End)], Protocol::End)).unwrap();
    assert_eq!(s.action(), Action::Send(Channel::Slot(0), Message::Value(6)));
    let body = recv(5, Protocol::Var(0));
    let f = fix_session(body.duplicate(), judgment(vec![], body.unfold())).unwrap();
    assert_eq!(f.action(), Action::Send(Channel::Offer, Message::Fold));
    let u = unfix_session(0, body.duplicate(), judgment(vec![chan(body.unfold())], Protocol::End)).unwrap();
    assert_eq!(u.action(), Action::Receive(Channel::Slot(0), Message::Fold));
    assert_eq!(judgment(vec![], Protocol::End).action(), Action::Declared);
}

#[test]
fn case_branches_on_the_label_at_its_lens() {
    let left = InternalSession { session: judgment(vec![chan(Protocol::End)], Protocol::End) };
    let right = InternalSession { session: judgment(vec![chan(recv(1, Protocol::End))], Protocol::End) };
    let s = case(0, left, right).unwrap();
    assert_eq!(s.action(), Action::Branch(0));
    assert_eq!(choose_branch(Message::Left), Some(Branch::Left));
    assert_eq!(choose_branch(Message::Value(1)), None);
}
