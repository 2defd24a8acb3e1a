use delivery_service::actor::client::{self, Client};
use delivery_service::actor::switchboard::{self, Connected, SendMessageError, Switchboard};
use delivery_service::actor::web_socket::{self, Frame, WebSocket};

/// The workers wired together in one thread: every queue is served at once,
/// and a worker is addressed by its place in the list of its kind.
struct Runtime {
    registry: Switchboard<usize, usize>,
    mailboxes: Vec<Client<usize>>,
    transports: Vec<(WebSocket, Vec<Frame>)>,
}

enum Done {
    Replied(Result<(), switchboard::ClientNotFound>),
    Connected(Connected),
}

impl Runtime {
    fn new() -> Self {
        Runtime { registry: Switchboard::new(), mailboxes: Vec::new(), transports: Vec::new() }
    }

    /// A delivery request.
    fn post(&mut self, identity: &str, body: &[u8]) -> Result<(), SendMessageError> {
        let command = switchboard::Message::Send {
            client_id: String::from(identity),
            message: body.to_vec(),
        };
        match self.serve(command) {
            Done::Replied(reply) => switchboard::send_result(Some(reply)),
            Done::Connected(_) => unreachable!(),
        }
    }

    /// A connect request. Gives the place of the new connection's worker.
    fn get(&mut self, identity: &str) -> (usize, Connected) {
        let actor = WebSocket::new();
        let place = self.transports.len();
        let socket = web_socket::Handle::new(&actor, place);
        self.transports.push((actor, Vec::new()));
        let command = switchboard::Message::Connect { client_id: String::from(identity), socket };
        match self.serve(command) {
            Done::Connected(ended) => (place, ended),
            Done::Replied(_) => unreachable!(),
        }
    }

    /// The peer closes the connection.
    fn close(&mut self, place: usize) {
        let action = self.transports[place].0.step(web_socket::Event::Frame(Frame::Close));
        assert_eq!(action, web_socket::Action::Stop(Ok(())));
    }

    fn received(&self, place: usize) -> &Vec<Frame> {
        &self.transports[place].1
    }

    fn attached(&self, mailbox: usize) -> Vec<usize> {
        self.mailboxes[mailbox].sockets().iter().map(|handle| handle.sender).collect()
    }

    fn mailbox_of(&self, identity: &str) -> usize {
        self.registry.client(&String::from(identity)).unwrap().sender
    }

    fn serve(&mut self, command: switchboard::Message<usize>) -> Done {
        let mut action = self.registry.step(switchboard::Event::Command(command));
        loop {
            action = match action {
                switchboard::Action::Reply(reply) => return Done::Replied(reply),
                switchboard::Action::Connected(ended) => return Done::Connected(ended),
                switchboard::Action::Forward(message) => {
                    let target = self.registry.target().unwrap().sender;
                    let result = self.offer(target, client::Message::Send(message));
                    self.registry.step(switchboard::Event::Forwarded(result))
                }
                switchboard::Action::Spawn(identity) => {
                    self.mailboxes.push(Client::new(identity));
                    self.registry.step(switchboard::Event::Spawned(self.mailboxes.len() - 1))
                }
                switchboard::Action::Attach => {
                    let target = self.registry.target().unwrap().sender;
                    let socket = self.registry.socket().unwrap();
                    let socket = web_socket::Handle { id: socket.id.clone(), sender: socket.sender };
                    let result = self.offer(target, client::Message::AddConnection(socket));
                    self.registry.step(switchboard::Event::Attached(result))
                }
                switchboard::Action::Continue | switchboard::Action::Stop => unreachable!(),
            };
        }
    }

    fn offer(
        &mut self,
        mailbox: usize,
        command: client::Message<usize>,
    ) -> Result<(), client::HandleError> {
        if !self.mailboxes[mailbox].is_active() {
            return Err(client::HandleError::Closed);
        }
        if let client::Action::FanOut(data) =
            self.mailboxes[mailbox].step(client::Event::Command(command))
        {
            let targets: Vec<(String, usize)> = self.mailboxes[mailbox]
                .sockets()
                .iter()
                .map(|handle| (handle.id.clone(), handle.sender))
                .collect();
            let mut results = Vec::new();
            for (id, place) in targets {
                results.push((id, self.push(place, data.clone())));
            }
            self.mailboxes[mailbox].step(client::Event::Delivered(results));
        }
        Ok(())
    }

    fn push(&mut self, place: usize, data: Vec<u8>) -> Result<(), web_socket::HandleError> {
        let (actor, written) = &mut self.transports[place];
        if actor.state() != web_socket::State::Running {
            return Err(web_socket::HandleError::SocketClosed);
        }
        let command = web_socket::Event::Command(web_socket::Message::Send(data));
        if let web_socket::Action::Write(frame) = actor.step(command) {
            written.push(frame);
            actor.step(web_socket::Event::Written);
        }
        Ok(())
    }
}

#[test]
fn delivery_to_unknown_identity_is_not_found() {
    let mut relay = Runtime::new();
    assert_eq!(relay.post("alice", &[1]), Err(SendMessageError::ClientNotFound));
    let (bob, _) = relay.get("bob");
    assert_eq!(relay.post("alice", &[1]), Err(SendMessageError::ClientNotFound));
    assert!(relay.received(bob).is_empty());
}

#[test]
fn delivery_reaches_the_connections_of_its_identity_only() {
    let mut relay = Runtime::new();
    let (a1, first) = relay.get("alice");
    let (a2, second) = relay.get("alice");
    let (b1, _) = relay.get("bob");
    assert_eq!(first, Connected::Attached);
    assert_eq!(second, Connected::Attached);
    assert_eq!(relay.post("alice", &[0xDE, 0xAD]), Ok(()));
    assert_eq!(relay.received(a1), &vec![Frame::Binary(vec![0xDE, 0xAD])]);
    assert_eq!(relay.received(a2), &vec![Frame::Binary(vec![0xDE, 0xAD])]);
    assert!(relay.received(b1).is_empty());
}

#[test]
fn two_connections_get_identical_copies() {
    let mut relay = Runtime::new();
    let (one, _) = relay.get("alice");
    let (other, _) = relay.get("alice");
    let body: Vec<u8> = (0..=255).collect();
    assert_eq!(relay.post("alice", &body), Ok(()));
    assert_eq!(relay.received(one), relay.received(other));
    assert_eq!(relay.received(one), &vec![Frame::Binary(body)]);
}

#[test]
fn empty_message_is_delivered_as_an_empty_frame() {
    let mut relay = Runtime::new();
    let (socket, _) = relay.get("alice");
    assert_eq!(relay.post("alice", &[]), Ok(()));
    assert_eq!(relay.received(socket), &vec![Frame::Binary(vec![])]);
}

#[test]
fn closed_connection_is_pruned_and_the_others_still_served() {
    let mut relay = Runtime::new();
    let (s1, _) = relay.get("alice");
    let (s2, _) = relay.get("alice");
    let (s3, _) = relay.get("alice");
    let mailbox = relay.mailbox_of("alice");
    relay.close(s2);
    assert_eq!(relay.attached(mailbox), vec![s1, s2, s3]);
    assert_eq!(relay.post("alice", &[7]), Ok(()));
    assert_eq!(relay.received(s1), &vec![Frame::Binary(vec![7])]);
    assert!(relay.received(s2).is_empty());
    assert_eq!(relay.received(s3), &vec![Frame::Binary(vec![7])]);
    assert_eq!(relay.attached(mailbox), vec![s1, s3]);
    assert_eq!(relay.post("alice", &[8]), Ok(()));
    assert_eq!(relay.received(s1), &vec![Frame::Binary(vec![7]), Frame::Binary(vec![8])]);
    assert!(relay.received(s2).is_empty());
    assert_eq!(relay.attached(mailbox), vec![s1, s3]);
}

#[test]
fn delivery_after_every_connection_closed_is_dropped() {
    let mut relay = Runtime::new();
    let (s1, _) = relay.get("alice");
    let mailbox = relay.mailbox_of("alice");
    relay.close(s1);
    assert!(relay.mailboxes[mailbox].is_active());
    assert_eq!(relay.post("alice", &[1]), Ok(()));
    assert!(!relay.mailboxes[mailbox].is_active());
    assert!(relay.attached(mailbox).is_empty());
    assert_eq!(relay.post("alice", &[2]), Ok(()));
    assert!(relay.received(s1).is_empty());
    assert_eq!(relay.mailbox_of("alice"), mailbox);
}

#[test]
fn connect_after_the_mailbox_ended_is_served_by_a_successor() {
    let mut relay = Runtime::new();
    let (a, _) = relay.get("alice");
    let first = relay.mailbox_of("alice");
    relay.close(a);
    assert_eq!(relay.post("alice", &[1]), Ok(()));
    assert!(!relay.mailboxes[first].is_active());

    let (b, ended) = relay.get("alice");
    assert_eq!(ended, Connected::Reborn);
    let second = relay.mailbox_of("alice");
    assert_ne!(first, second);
    assert_eq!(relay.mailboxes[second].id(), "alice");
    assert_eq!(relay.attached(second), vec![b]);
    assert_eq!(relay.post("alice", &[2, 3]), Ok(()));
    assert_eq!(relay.received(b), &vec![Frame::Binary(vec![2, 3])]);
    assert!(relay.received(a).is_empty());
}

#[test]
fn connect_right_after_a_close_is_served_by_the_same_mailbox() {
    let mut relay = Runtime::new();
    let (a, _) = relay.get("alice");
    let mailbox = relay.mailbox_of("alice");
    relay.close(a);
    let (b, ended) = relay.get("alice");
    assert_eq!(ended, Connected::Attached);
    assert_eq!(relay.mailbox_of("alice"), mailbox);
    assert_eq!(relay.post("alice", &[4]), Ok(()));
    assert_eq!(relay.received(b), &vec![Frame::Binary(vec![4])]);
    assert_eq!(relay.attached(mailbox), vec![b]);
}

#[test]
fn two_sockets_then_both_closed() {
    let mut relay = Runtime::new();
    let (s1, _) = relay.get("alice");
    assert_eq!(relay.post("alice", &[1, 2, 3, 4, 5]), Ok(()));
    assert_eq!(relay.received(s1), &vec![Frame::Binary(vec![1, 2, 3, 4, 5])]);

    let (s2, _) = relay.get("alice");
    assert_eq!(relay.post("alice", &[0xAA, 0xBB]), Ok(()));
    assert_eq!(
        relay.received(s1),
        &vec![Frame::Binary(vec![1, 2, 3, 4, 5]), Frame::Binary(vec![0xAA, 0xBB])]
    );
    assert_eq!(relay.received(s2), &vec![Frame::Binary(vec![0xAA, 0xBB])]);

    relay.close(s1);
    relay.close(s2);
    // The entry for alice stays in the registry: the message is accepted and
    // reaches nobody.
    assert_eq!(relay.post("alice", &[9]), Ok(()));
    assert_eq!(relay.received(s1).len(), 2);
    assert_eq!(relay.received(s2).len(), 1);
    assert_eq!(relay.post("carol", &[9]), Err(SendMessageError::ClientNotFound));
}
