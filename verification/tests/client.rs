use delivery_service::actor::client::{Action, Client, Event, Handle, Message};
use delivery_service::actor::web_socket;
use std::ops::ControlFlow;

fn socket(id: &str, sender: u32) -> web_socket::Handle<u32> {
    web_socket::Handle { id: String::from(id), sender }
}

fn ids(actor: &Client<u32>) -> Vec<(String, u32)> {
    actor.sockets().iter().map(|handle| (handle.id.clone(), handle.sender)).collect()
}

fn closed(id: &str) -> (String, Result<(), web_socket::HandleError>) {
    (String::from(id), Err(web_socket::HandleError::SocketClosed))
}

fn sent(id: &str) -> (String, Result<(), web_socket::HandleError>) {
    (String::from(id), Ok(()))
}

#[test]
fn new_mailbox_is_active_and_empty() {
    let actor: Client<u32> = Client::new(String::from("alice"));
    assert_eq!(actor.id(), "alice");
    assert!(actor.is_active());
    assert!(actor.sockets().is_empty());
}

#[test]
fn attach_registers_the_connection_under_its_id() {
    let mut actor = Client::new(String::from("alice"));
    assert_eq!(actor.handle_message(Message::AddConnection(socket("s1", 1))), Action::Continue);
    assert_eq!(actor.handle_message(Message::AddConnection(socket("s2", 2))), Action::Continue);
    assert_eq!(ids(&actor), vec![(String::from("s1"), 1), (String::from("s2"), 2)]);
    assert!(actor.is_active());
}

#[test]
fn attach_under_a_known_id_replaces_the_connection() {
    let mut actor = Client::new(String::from("alice"));
    actor.handle_message(Message::AddConnection(socket("s1", 1)));
    actor.handle_message(Message::AddConnection(socket("s1", 7)));
    assert_eq!(ids(&actor), vec![(String::from("s1"), 7)]);
}

#[test]
fn message_is_fanned_out_unchanged() {
    let mut actor = Client::new(String::from("alice"));
    actor.handle_message(Message::AddConnection(socket("s1", 1)));
    actor.handle_message(Message::AddConnection(socket("s2", 2)));
    assert_eq!(
        actor.handle_message(Message::Send(vec![1, 2, 3, 4, 5])),
        Action::FanOut(vec![1, 2, 3, 4, 5])
    );
    assert_eq!(ids(&actor), vec![(String::from("s1"), 1), (String::from("s2"), 2)]);
}

#[test]
fn prune_drops_closed_connections_only() {
    let mut actor = Client::new(String::from("alice"));
    for (id, sender) in [("s1", 1), ("s2", 2), ("s3", 3)] {
        actor.handle_message(Message::AddConnection(socket(id, sender)));
    }
    let flow = actor.prune(&vec![sent("s1"), closed("s2"), sent("s3")]);
    assert_eq!(flow, ControlFlow::Continue(()));
    assert!(actor.is_active());
    assert_eq!(ids(&actor), vec![(String::from("s1"), 1), (String::from("s3"), 3)]);
}

#[test]
fn prune_ignores_ids_that_are_not_attached() {
    let mut actor = Client::new(String::from("alice"));
    actor.handle_message(Message::AddConnection(socket("s1", 1)));
    let flow = actor.prune(&vec![closed("other"), sent("s1")]);
    assert_eq!(flow, ControlFlow::Continue(()));
    assert_eq!(ids(&actor), vec![(String::from("s1"), 1)]);
}

#[test]
fn losing_the_last_connection_ends_the_mailbox() {
    let mut actor = Client::new(String::from("alice"));
    actor.handle_message(Message::AddConnection(socket("s1", 1)));
    actor.handle_message(Message::AddConnection(socket("s2", 2)));
    assert_eq!(
        actor.step(Event::Delivered(vec![closed("s1"), closed("s2")])),
        Action::Stop
    );
    assert!(!actor.is_active());
    assert!(actor.sockets().is_empty());
}

#[test]
fn mailbox_without_connections_stays_active_until_a_delivery() {
    let mut actor: Client<u32> = Client::new(String::from("alice"));
    assert!(actor.is_active());
    assert_eq!(actor.step(Event::Command(Message::Send(vec![1]))), Action::FanOut(vec![1]));
    assert!(actor.is_active());
    assert_eq!(actor.step(Event::Delivered(vec![])), Action::Stop);
    assert!(!actor.is_active());
}

#[test]
fn ended_mailbox_takes_nothing() {
    let mut actor: Client<u32> = Client::new(String::from("alice"));
    actor.step(Event::Delivered(vec![]));
    assert_eq!(actor.step(Event::Command(Message::AddConnection(socket("s1", 1)))), Action::Stop);
    assert_eq!(actor.step(Event::Command(Message::Send(vec![1]))), Action::Stop);
    assert_eq!(actor.step(Event::Delivered(vec![sent("s1")])), Action::Stop);
    assert_eq!(actor.step(Event::QueueClosed), Action::Stop);
    assert_eq!(actor.handle_message(Message::Send(vec![1])), Action::Stop);
    assert_eq!(actor.prune(&vec![]), ControlFlow::Break(()));
    assert!(!actor.is_active());
    assert!(actor.sockets().is_empty());
}

#[test]
fn closed_queue_ends_the_mailbox() {
    let mut actor = Client::new(String::from("alice"));
    actor.handle_message(Message::AddConnection(socket("s1", 1)));
    assert_eq!(actor.step(Event::QueueClosed), Action::Stop);
    assert!(!actor.is_active());
    assert!(actor.sockets().is_empty());
}

#[test]
fn rebirth_keeps_the_identity() {
    let handle = Handle::new(String::from("alice"), 1u32);
    assert_eq!(handle.id, "alice");
    assert_eq!(handle.sender, 1);
    let successor = handle.rebirth(2u32);
    assert_eq!(successor.id, "alice");
    assert_eq!(successor.sender, 2);
}
