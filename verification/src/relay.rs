//! The three kinds of worker wired together, as a model.
//!
//! A [`Relay`] holds the registry, the mailbox behind each of its entries and
//! the transport worker of each connection. Its steps run the transitions of
//! the workers ([`switchboard::next`], [`client::next`], [`web_socket::next`])
//! one after the other, the way a runtime does that hands every message over
//! at once: a request is carried through before the next one is looked at,
//! and a send to a connection is refused exactly when the connection's worker
//! has stopped. A connection whose write would fail counts as stopped.
//!
//! What the relay promises to those who use it is stated and proved here, of
//! every state that the steps can reach.

use crate::actor::client;
use crate::actor::switchboard;
use crate::actor::switchboard::ClientNotFound;
use crate::actor::web_socket;
use vstd::prelude::*;

verus! {

/// A mailbox worker: whether it is active, and the connections attached to it.
#[verifier::ext_equal]
pub struct Mailbox<S> {
    pub active: bool,
    pub sockets: Map<Seq<char>, S>,
}

impl<S> Mailbox<S> {
    /// A mailbox as it starts: active, with no connection.
    pub open spec fn fresh() -> Mailbox<S> {
        Mailbox { active: true, sockets: Map::empty() }
    }

    /// The mailbox after `event`.
    pub open spec fn after(self, event: client::Event<S>) -> Mailbox<S> {
        let (active, sockets, action) = client::next(self.active, self.sockets, event);
        Mailbox { active, sockets }
    }

    /// How an offer to the mailbox's queue ends: the queue of a worker that
    /// has ended takes nothing.
    pub open spec fn offer(self) -> Result<(), client::HandleError> {
        if self.active {
            Ok(())
        } else {
            Err(client::HandleError::Closed)
        }
    }
}

/// A transport worker: its state, and what the frames hold that it has
/// written to its connection so far.
#[verifier::ext_equal]
pub struct Transport {
    pub state: web_socket::State,
    pub written: Seq<web_socket::FrameView>,
}

impl Transport {
    /// A transport worker as it starts: running, with nothing written.
    pub open spec fn fresh() -> Transport {
        Transport { state: web_socket::State::Running, written: Seq::empty() }
    }

    /// The worker after `event`. A frame that it hands out is written.
    pub open spec fn after(self, event: web_socket::Event) -> Transport {
        let (state, action) = web_socket::next(self.state, event);
        Transport {
            state,
            written: match action {
                web_socket::Action::Write(frame) => self.written.push(frame@),
                _ => self.written,
            },
        }
    }
}

/// The relay as a whole.
#[verifier::ext_equal]
pub struct Relay<C, S> {
    /// The registry: under each identity, the sending end of its mailbox's queue.
    pub registry: Map<Seq<char>, C>,
    /// Under each identity, the mailbox that the registry's entry leads to.
    pub mailboxes: Map<Seq<char>, Mailbox<S>>,
    /// Under each connection id, the connection's worker.
    pub transports: Map<Seq<char>, Transport>,
}

impl<C, S> Relay<C, S> {
    /// A relay as it starts: nothing registered, nothing connected.
    pub open spec fn fresh() -> Relay<C, S> {
        Relay { registry: Map::empty(), mailboxes: Map::empty(), transports: Map::empty() }
    }

    /// Whether the connection's worker runs, so that its queue takes a command.
    pub open spec fn takes(self, connection: Seq<char>) -> bool {
        self.transports.contains_key(connection)
            && self.transports[connection].state is Running
    }

    /// Whether `connection` is attached to the mailbox of `identity`.
    pub open spec fn attached(self, identity: Seq<char>, connection: Seq<char>) -> bool {
        self.mailboxes.contains_key(identity) && self.mailboxes[identity].sockets.contains_key(
            connection,
        )
    }

    /// The state hangs together: each registry entry has its mailbox; an
    /// attached connection has its worker and is attached to one mailbox only;
    /// a mailbox that has ended keeps no connection.
    pub open spec fn wf(self) -> bool {
        &&& self.registry.dom() == self.mailboxes.dom()
        &&& forall|identity: Seq<char>, connection: Seq<char>| #[trigger]
            self.attached(identity, connection) ==> self.transports.contains_key(connection)
        &&& forall|one: Seq<char>, other: Seq<char>, connection: Seq<char>|
            #[trigger] self.attached(one, connection) && #[trigger] self.attached(other, connection)
                ==> one == other
        &&& forall|identity: Seq<char>| #[trigger]
            self.mailboxes.contains_key(identity) && !self.mailboxes[identity].active
                ==> self.mailboxes[identity].sockets == Map::<Seq<char>, S>::empty()
    }

    /// The connections of the mailbox of `identity` whose worker has stopped.
    pub open spec fn closed(self, identity: Seq<char>) -> Set<Seq<char>> {
        Set::new(|connection: Seq<char>| self.attached(identity, connection) && !self.takes(connection))
    }

    /// The mailbox of `identity` carries out a message: each attached
    /// connection whose worker runs writes the frame that the worker makes of
    /// the bytes; the others are dropped from the mailbox, which ends if none
    /// is left.
    pub open spec fn fan_out(self, identity: Seq<char>, message: Vec<u8>) -> Relay<C, S> {
        let mailbox = self.mailboxes[identity];
        match client::next(
            mailbox.active,
            mailbox.sockets,
            client::Event::Command(client::Message::Send(message)),
        ).2 {
            client::Action::FanOut(data) => {
                let left = mailbox.sockets.remove_keys(self.closed(identity));
                Relay {
                    registry: self.registry,
                    mailboxes: self.mailboxes.insert(
                        identity,
                        Mailbox { active: !left.is_empty(), sockets: left },
                    ),
                    transports: Map::new(
                        |connection: Seq<char>| self.transports.contains_key(connection),
                        |connection: Seq<char>|
                            if self.attached(identity, connection) && self.takes(connection) {
                                self.transports[connection].after(
                                    web_socket::Event::Command(web_socket::Message::Send(data)),
                                )
                            } else {
                                self.transports[connection]
                            },
                    ),
                }
            },
            _ => self,
        }
    }

    /// A delivery request: `message` for `client_id`. Gives the relay
    /// afterwards and what the sender is told.
    pub open spec fn deliver(self, client_id: String, message: Vec<u8>) -> (
        Relay<C, S>,
        Result<(), ClientNotFound>,
    ) {
        let (registry, state, action) = switchboard::next(
            self.registry,
            switchboard::State::<S>::Idle,
            switchboard::Event::Command(switchboard::Message::Send { client_id, message }),
        );
        match action {
            switchboard::Action::Forward(bytes) => {
                let mailbox = self.mailboxes[client_id@];
                let relay = if mailbox.active {
                    self.fan_out(client_id@, bytes)
                } else {
                    self
                };
                match switchboard::next(
                    registry,
                    state,
                    switchboard::Event::Forwarded(mailbox.offer()),
                ).2 {
                    switchboard::Action::Reply(reply) => (relay, reply),
                    _ => (relay, Ok(())),
                }
            },
            switchboard::Action::Reply(reply) => (self, reply),
            _ => (self, Ok(())),
        }
    }

    /// A connect request: a new connection for `client_id`, whose worker has
    /// just started behind `socket`. Where the registry asks for a mailbox
    /// worker, `spawned` is the sending end of the new worker's queue. Gives
    /// the relay afterwards and how the request ended.
    pub open spec fn connect(self, client_id: String, socket: web_socket::Handle<S>, spawned: C) -> (
        Relay<C, S>,
        switchboard::Connected,
    ) {
        let transports = self.transports.insert(socket.id@, Transport::fresh());
        let attach = client::Event::Command(client::Message::AddConnection(socket));
        let asked = switchboard::next(
            self.registry,
            switchboard::State::Idle,
            switchboard::Event::Command(switchboard::Message::Connect { client_id, socket }),
        );
        // Where no mailbox is registered, one is started and registered.
        let created = if asked.2 is Spawn {
            (
                switchboard::next(asked.0, asked.1, switchboard::Event::Spawned(spawned)),
                self.mailboxes.insert(client_id@, Mailbox::fresh()),
            )
        } else {
            (asked, self.mailboxes)
        };
        // The connection is offered to the registered mailbox.
        let mailbox = created.1[client_id@];
        let offered = switchboard::next(
            created.0.0,
            created.0.1,
            switchboard::Event::Attached(mailbox.offer()),
        );
        let mailboxes = if mailbox.active {
            created.1.insert(client_id@, mailbox.after(attach))
        } else {
            created.1
        };
        match offered.2 {
            switchboard::Action::Spawn(_) => {
                // The mailbox had ended: a successor is started and
                // registered, and the connection is offered to it.
                let revived = switchboard::next(
                    offered.0,
                    offered.1,
                    switchboard::Event::Spawned(spawned),
                );
                let successor = Mailbox::<S>::fresh();
                let retried = switchboard::next(
                    revived.0,
                    revived.1,
                    switchboard::Event::Attached(successor.offer()),
                );
                (
                    Relay {
                        registry: retried.0,
                        mailboxes: mailboxes.insert(client_id@, successor.after(attach)),
                        transports,
                    },
                    match retried.2 {
                        switchboard::Action::Connected(ended) => ended,
                        _ => switchboard::Connected::Faulted,
                    },
                )
            },
            switchboard::Action::Connected(ended) => (
                Relay { registry: offered.0, mailboxes, transports },
                ended,
            ),
            _ => (Relay { registry: offered.0, mailboxes, transports }, switchboard::Connected::Faulted),
        }
    }

    /// Something happens to a connection: `event` reaches its worker.
    pub open spec fn observe(self, connection: Seq<char>, event: web_socket::Event) -> Relay<C, S> {
        if self.transports.contains_key(connection) {
            Relay {
                registry: self.registry,
                mailboxes: self.mailboxes,
                transports: self.transports.insert(
                    connection,
                    self.transports[connection].after(event),
                ),
            }
        } else {
            self
        }
    }
}

/// A relay as it starts hangs together.
pub proof fn fresh_is_wf<C, S>()
    ensures
        Relay::<C, S>::fresh().wf(),
{
}

/// A message for an identity that nothing is registered for is refused with
/// `ClientNotFound`, and leaves the relay as it is.
pub proof fn unknown_identity_is_refused<C, S>(
    relay: Relay<C, S>,
    client_id: String,
    message: Vec<u8>,
)
    requires
        !relay.registry.contains_key(client_id@),
    ensures
        relay.deliver(client_id, message) == (relay, Err::<(), ClientNotFound>(ClientNotFound)),
{
}

/// A message for a registered identity is accepted, whatever has become of
/// the mailbox and its connections, and leaves the registry as it is.
pub proof fn registered_identity_is_accepted<C, S>(
    relay: Relay<C, S>,
    client_id: String,
    message: Vec<u8>,
)
    requires
        relay.registry.contains_key(client_id@),
    ensures
        relay.deliver(client_id, message).1 == Ok::<(), ClientNotFound>(()),
        relay.deliver(client_id, message).0.registry == relay.registry,
{
}

/// A message for an identity with a connection attached is accepted. Every
/// connection attached to that identity whose worker runs then writes exactly
/// one more frame: a binary frame that holds the bytes of the message. No
/// other connection writes anything, and no worker starts or stops.
pub proof fn delivery_reaches_every_connection<C, S>(
    relay: Relay<C, S>,
    client_id: String,
    message: Vec<u8>,
    connection: Seq<char>,
)
    requires
        relay.wf(),
        relay.attached(client_id@, connection),
    ensures
        relay.deliver(client_id, message).1 == Ok::<(), ClientNotFound>(()),
        relay.deliver(client_id, message).0.transports.dom() == relay.transports.dom(),
        forall|other: Seq<char>| #[trigger]
            relay.transports.contains_key(other) ==> {
                let before = relay.transports[other];
                let after = relay.deliver(client_id, message).0.transports[other];
                &&& after.state == before.state
                &&& after.written == if relay.attached(client_id@, other) && relay.takes(other) {
                    before.written.push(web_socket::FrameView::Binary(message@))
                } else {
                    before.written
                }
            },
{
    assert(relay.mailboxes.dom().contains(client_id@));
    assert(relay.registry.dom().contains(client_id@));
    let mailbox = relay.mailboxes[client_id@];
    assert(mailbox.active) by {
        if !mailbox.active {
            assert(mailbox.sockets.contains_key(connection));
        }
    }
}

/// Two connections attached to one identity, both with a running worker, get
/// the same frame from a delivery: each a binary frame that holds the bytes of
/// the message, whole and unchanged.
pub proof fn copies_are_identical<C, S>(
    relay: Relay<C, S>,
    client_id: String,
    message: Vec<u8>,
    one: Seq<char>,
    other: Seq<char>,
)
    requires
        relay.wf(),
        relay.attached(client_id@, one),
        relay.attached(client_id@, other),
        relay.takes(one),
        relay.takes(other),
    ensures
        relay.deliver(client_id, message).0.transports[one].written.last()
            == web_socket::FrameView::Binary(message@),
        relay.deliver(client_id, message).0.transports[other].written.last()
            == web_socket::FrameView::Binary(message@),
{
    delivery_reaches_every_connection(relay, client_id, message, one);
}

/// A connection whose worker has stopped is dropped by the next delivery to
/// its identity, and the sender is told nothing of it: the message is
/// accepted, the connection is no longer attached, and the connections of that
/// identity whose worker runs stay attached and write the message. A later
/// delivery finds the dropped connection gone and leaves it alone.
pub proof fn closed_connection_is_pruned<C, S>(
    relay: Relay<C, S>,
    client_id: String,
    message: Vec<u8>,
    later: Vec<u8>,
    gone: Seq<char>,
)
    requires
        relay.wf(),
        relay.attached(client_id@, gone),
        !relay.takes(gone),
    ensures
        relay.deliver(client_id, message).1 == Ok::<(), ClientNotFound>(()),
        !relay.deliver(client_id, message).0.attached(client_id@, gone),
        forall|other: Seq<char>|
            relay.attached(client_id@, other) && relay.takes(other) ==> {
                &&& #[trigger] relay.deliver(client_id, message).0.attached(client_id@, other)
                &&& relay.deliver(client_id, message).0.transports[other].written
                    == relay.transports[other].written.push(web_socket::FrameView::Binary(message@))
            },
        relay.deliver(client_id, message).0.deliver(client_id, later).1 == Ok::<(), ClientNotFound>(
            (),
        ),
        !relay.deliver(client_id, message).0.deliver(client_id, later).0.attached(client_id@, gone),
        relay.deliver(client_id, message).0.deliver(client_id, later).0.transports[gone]
            == relay.transports[gone],
{
    assert(relay.mailboxes.dom().contains(client_id@));
    assert(relay.registry.dom().contains(client_id@));
    let mailbox = relay.mailboxes[client_id@];
    assert(mailbox.active) by {
        if !mailbox.active {
            assert(mailbox.sockets.contains_key(gone));
        }
    }
    assert(relay.closed(client_id@).contains(gone));
    let after = relay.deliver(client_id, message).0;
    assert(after == relay.fan_out(client_id@, message));
    assert(after.transports[gone] == relay.transports[gone]);
    assert(after.registry.dom().contains(client_id@));
}

/// Where every connection of a registered identity has stopped, or none was
/// ever attached, a delivery reaches nobody and is accepted all the same. It
/// ends the mailbox if that still ran, and leaves the registry's entry where
/// it is: every later delivery is accepted and dropped in the same way, and
/// changes nothing any more.
pub proof fn delivery_without_live_connection_is_dropped<C, S>(
    relay: Relay<C, S>,
    client_id: String,
    message: Vec<u8>,
    later: Vec<u8>,
)
    requires
        relay.wf(),
        relay.registry.contains_key(client_id@),
        forall|connection: Seq<char>| #[trigger]
            relay.attached(client_id@, connection) ==> !relay.takes(connection),
    ensures
        relay.deliver(client_id, message).1 == Ok::<(), ClientNotFound>(()),
        relay.deliver(client_id, message).0.registry == relay.registry,
        relay.deliver(client_id, message).0.transports == relay.transports,
        relay.deliver(client_id, message).0.mailboxes[client_id@] == (Mailbox::<S> {
            active: false,
            sockets: Map::empty(),
        }),
        relay.deliver(client_id, message).0.deliver(client_id, later) == (
            relay.deliver(client_id, message).0,
            Ok::<(), ClientNotFound>(()),
        ),
{
    assert(relay.mailboxes.dom().contains(client_id@));
    let mailbox = relay.mailboxes[client_id@];
    let after = relay.deliver(client_id, message).0;
    if mailbox.active {
        assert(after == relay.fan_out(client_id@, message));
        assert(after.transports =~= relay.transports);
        let left = mailbox.sockets.remove_keys(relay.closed(client_id@));
        assert(left =~= Map::<Seq<char>, S>::empty()) by {
            assert forall|connection: Seq<char>| !left.contains_key(connection) by {
                if mailbox.sockets.contains_key(connection) {
                    assert(relay.attached(client_id@, connection));
                    assert(relay.closed(client_id@).contains(connection));
                }
            }
        }
        assert(after.mailboxes[client_id@] =~= (Mailbox::<S> { active: false, sockets: Map::empty() }));
    } else {
        assert(after == relay);
        assert(mailbox =~= (Mailbox::<S> { active: false, sockets: Map::empty() }));
    }
    assert(after.registry.dom().contains(client_id@));
}

/// A connect request with a new connection always ends with the connection
/// attached to the mailbox that is registered for its identity, and with the
/// connection's worker running. A registered mailbox that runs takes the
/// connection and keeps those it has. Where none is registered, one is
/// started; where the registered one has ended, a successor takes its place
/// in the registry. Either of these starts with the new connection alone.
/// Nothing else changes.
pub proof fn connect_attaches<C, S>(
    relay: Relay<C, S>,
    client_id: String,
    socket: web_socket::Handle<S>,
    spawned: C,
)
    requires
        relay.wf(),
        !relay.transports.contains_key(socket.id@),
    ensures
        ({
            let (after, ended) = relay.connect(client_id, socket, spawned);
            let registered = relay.registry.contains_key(client_id@);
            let live = registered && relay.mailboxes[client_id@].active;
            &&& after.wf()
            &&& ended == if live || !registered {
                switchboard::Connected::Attached
            } else {
                switchboard::Connected::Reborn
            }
            &&& after.registry == if live {
                relay.registry
            } else {
                relay.registry.insert(client_id@, spawned)
            }
            &&& after.mailboxes == relay.mailboxes.insert(
                client_id@,
                Mailbox {
                    active: true,
                    sockets: if live {
                        relay.mailboxes[client_id@].sockets.insert(socket.id@, socket.sender)
                    } else {
                        Map::<Seq<char>, S>::empty().insert(socket.id@, socket.sender)
                    },
                },
            )
            &&& after.transports == relay.transports.insert(socket.id@, Transport::fresh())
            &&& after.attached(client_id@, socket.id@)
            &&& after.takes(socket.id@)
        }),
{
    let (after, ended) = relay.connect(client_id, socket, spawned);
    let registered = relay.registry.contains_key(client_id@);
    assert(registered == relay.mailboxes.dom().contains(client_id@));
    let live = registered && relay.mailboxes[client_id@].active;
    let sockets = if live {
        relay.mailboxes[client_id@].sockets.insert(socket.id@, socket.sender)
    } else {
        Map::<Seq<char>, S>::empty().insert(socket.id@, socket.sender)
    };
    let mailboxes = relay.mailboxes.insert(client_id@, Mailbox { active: true, sockets });
    assert(after.mailboxes =~= mailboxes);
    assert(after.registry =~= if live {
        relay.registry
    } else {
        relay.registry.insert(client_id@, spawned)
    });
    assert(after.registry.dom() =~= after.mailboxes.dom());
    assert forall|identity: Seq<char>, connection: Seq<char>| #[trigger]
        after.attached(identity, connection) implies after.transports.contains_key(connection) by {
        if connection != socket.id@ {
            assert(relay.attached(identity, connection));
        }
    }
    assert forall|one: Seq<char>, other: Seq<char>, connection: Seq<char>|
        #[trigger] after.attached(one, connection) && #[trigger] after.attached(
            other,
            connection,
        ) implies one == other by {
        if connection == socket.id@ {
            if one != client_id@ {
                assert(relay.attached(one, connection));
            }
            if other != client_id@ {
                assert(relay.attached(other, connection));
            }
        } else {
            assert(relay.attached(one, connection));
            assert(relay.attached(other, connection));
        }
    }
    assert forall|identity: Seq<char>| #[trigger]
        after.mailboxes.contains_key(identity)
            && !after.mailboxes[identity].active implies after.mailboxes[identity].sockets
        == Map::<Seq<char>, S>::empty() by {
        assert(relay.mailboxes.contains_key(identity));
    }
}

/// A connect request for an identity whose mailbox has ended succeeds all the
/// same: a successor takes the mailbox's place in the registry, the new
/// connection is attached to it, and the next message for the identity is
/// accepted and written to the new connection, as its first frame.
pub proof fn connect_revives_ended_mailbox<C, S>(
    relay: Relay<C, S>,
    client_id: String,
    socket: web_socket::Handle<S>,
    spawned: C,
    message: Vec<u8>,
)
    requires
        relay.wf(),
        relay.registry.contains_key(client_id@),
        !relay.mailboxes[client_id@].active,
        !relay.transports.contains_key(socket.id@),
    ensures
        relay.connect(client_id, socket, spawned).1 == switchboard::Connected::Reborn,
        relay.connect(client_id, socket, spawned).0.registry == relay.registry.insert(
            client_id@,
            spawned,
        ),
        relay.connect(client_id, socket, spawned).0.attached(client_id@, socket.id@),
        relay.connect(client_id, socket, spawned).0.deliver(client_id, message).1 == Ok::<
            (),
            ClientNotFound,
        >(()),
        relay.connect(client_id, socket, spawned).0.deliver(
            client_id,
            message,
        ).0.transports[socket.id@].written == Seq::<web_socket::FrameView>::empty().push(
            web_socket::FrameView::Binary(message@),
        ),
{
    connect_attaches(relay, client_id, socket, spawned);
    let after = relay.connect(client_id, socket, spawned).0;
    delivery_reaches_every_connection(after, client_id, message, socket.id@);
}

/// A delivery keeps the state of the relay together.
pub proof fn deliver_keeps_wf<C, S>(relay: Relay<C, S>, client_id: String, message: Vec<u8>)
    requires
        relay.wf(),
    ensures
        relay.deliver(client_id, message).0.wf(),
{
    let after = relay.deliver(client_id, message).0;
    if relay.registry.contains_key(client_id@) {
        assert(relay.mailboxes.dom().contains(client_id@));
        if relay.mailboxes[client_id@].active {
            assert(after == relay.fan_out(client_id@, message));
            assert(after.registry.dom() =~= after.mailboxes.dom());
            assert forall|identity: Seq<char>, connection: Seq<char>| #[trigger]
                after.attached(identity, connection) implies relay.attached(identity, connection) by {}
            assert forall|identity: Seq<char>| #[trigger]
                after.mailboxes.contains_key(identity)
                    && !after.mailboxes[identity].active implies after.mailboxes[identity].sockets
                == Map::<Seq<char>, S>::empty() by {
                if identity == client_id@ {
                    assert(after.mailboxes[identity].sockets =~= Map::<Seq<char>, S>::empty());
                } else {
                    assert(relay.mailboxes.contains_key(identity));
                }
            }
        }
    }
}

/// Whatever happens to a connection keeps the state of the relay together,
/// and leaves the registry and the mailboxes as they are: a mailbox learns
/// that a connection has stopped only when a delivery finds it so.
pub proof fn observe_keeps_wf<C, S>(relay: Relay<C, S>, connection: Seq<char>, event: web_socket::Event)
    requires
        relay.wf(),
    ensures
        relay.observe(connection, event).wf(),
        relay.observe(connection, event).registry == relay.registry,
        relay.observe(connection, event).mailboxes == relay.mailboxes,
        relay.transports.contains_key(connection) && event.exit() is Some ==> !relay.observe(
            connection,
            event,
        ).takes(connection),
{
    let after = relay.observe(connection, event);
    assert forall|identity: Seq<char>, other: Seq<char>| #[trigger]
        after.attached(identity, other) implies relay.attached(identity, other) by {}
}

/// What a delivery does to a mailbox in the relay is what the mailbox worker
/// does with the message and then with a report of the sends that is true:
/// one that names attached connections only, each of the stopped ones among
/// them, and calls a send refused exactly where the connection's worker had
/// stopped.
pub proof fn fan_out_follows_the_mailbox<C, S>(
    relay: Relay<C, S>,
    identity: Seq<char>,
    message: Vec<u8>,
    results: Vec<(String, Result<(), web_socket::HandleError>)>,
)
    requires
        relay.mailboxes.contains_key(identity),
        relay.mailboxes[identity].active,
        forall|i: int|
            0 <= i < results@.len() ==> relay.attached(identity, (#[trigger] results@[i]).0@) && (
            results@[i].1 is Err <==> !relay.takes(results@[i].0@)),
        forall|connection: Seq<char>|
            relay.attached(identity, connection) && !relay.takes(connection) ==> exists|i: int|
                0 <= i < results@.len() && (#[trigger] results@[i]).0@ == connection,
    ensures
        relay.fan_out(identity, message).mailboxes[identity] == relay.mailboxes[identity].after(
            client::Event::Command(client::Message::Send(message)),
        ).after(client::Event::Delivered(results)),
{
    let reported = client::closed_ids(results@);
    let sockets = relay.mailboxes[identity].sockets;
    assert forall|connection: Seq<char>| #[trigger]
        sockets.contains_key(connection) implies (reported.contains(connection)
        <==> relay.closed(identity).contains(connection)) by {
        assert(relay.attached(identity, connection));
        if !relay.takes(connection) {
            let i = choose|i: int|
                0 <= i < results@.len() && (#[trigger] results@[i]).0@ == connection;
            assert(results@[i].1 is Err);
        }
    }
    assert(sockets.remove_keys(reported) =~= sockets.remove_keys(relay.closed(identity)));
}

} // verus!
