//! The registry worker: it knows which mailbox answers for which identity.
//!
//! The worker takes delivery requests and connect requests, one at a time. A
//! delivery goes to the mailbox registered for the identity, and is refused
//! when none is registered. A connect request attaches the new connection to
//! the registered mailbox, after creating one if none is registered; when the
//! registered mailbox turns out to have ended, a successor takes its place in
//! the registry and the attachment is tried once more.
//!
//! An entry, once made, stays: it is replaced only when a connect request
//! finds its mailbox ended. A delivery that finds it ended is dropped, and the
//! sender is told that all went well.
//!
//! The runtime that owns the queue reports what happened as an [`Event`], and
//! [`Switchboard::step`] answers with the [`Action`] to perform next.

use crate::actor::client;
use crate::actor::web_socket;
use crate::table::Table;
use vstd::prelude::*;

verus! {

/// No mailbox is registered for the identity.
#[derive(Clone, Copy, Debug, PartialEq, Eq)]
pub struct ClientNotFound;

/// Why a message could not be delivered.
#[derive(Clone, Copy, Debug, PartialEq, Eq)]
pub enum SendMessageError {
    /// The registry worker's processing loop has ended.
    Closed,
    /// No mailbox is registered for the identity.
    ClientNotFound,
}

impl From<ClientNotFound> for SendMessageError {
    fn from(_error: ClientNotFound) -> (error: Self) {
        SendMessageError::ClientNotFound
    }
}

impl vstd::std_specs::convert::FromSpecImpl<ClientNotFound> for SendMessageError {
    open spec fn obeys_from_spec() -> bool {
        true
    }

    open spec fn from_spec(_error: ClientNotFound) -> Self {
        SendMessageError::ClientNotFound
    }
}

/// What the sender of a message is told, given the registry's reply, or
/// `None` where the registry took no request or gave no reply.
pub fn send_result(reply: Option<Result<(), ClientNotFound>>) -> (result: Result<
    (),
    SendMessageError,
>)
    ensures
        result == match reply {
            None => Err::<(), SendMessageError>(SendMessageError::Closed),
            Some(Ok(_)) => Ok(()),
            Some(Err(_)) => Err(SendMessageError::ClientNotFound),
        },
{
    match reply {
        None => Err(SendMessageError::Closed),
        Some(Ok(_)) => Ok(()),
        Some(Err(error)) => Err(SendMessageError::from(error)),
    }
}

/// A command to the registry worker.
pub enum Message<S> {
    /// Deliver `message` to the connections of `client_id`.
    Send { client_id: String, message: Vec<u8> },
    /// Attach `socket` to the mailbox of `client_id`.
    Connect { client_id: String, socket: web_socket::Handle<S> },
}

/// What the runtime reports to the worker.
pub enum Event<C, S> {
    /// A command arrived on the queue.
    Command(Message<S>),
    /// Every handle is gone and the queue is empty.
    QueueClosed,
    /// The message handed out last was offered to its mailbox, with this result.
    Forwarded(Result<(), client::HandleError>),
    /// The mailbox worker asked for runs; this is the sending end of its queue.
    Spawned(C),
    /// The connection was offered to its mailbox, with this result.
    Attached(Result<(), client::HandleError>),
}

/// How far a connect request has come.
#[derive(Clone, Copy, Debug, PartialEq, Eq)]
pub enum Stage {
    /// No mailbox was registered: one is being created.
    Creating,
    /// The connection is offered to the registered mailbox.
    Attaching,
    /// The registered mailbox had ended: its successor is being created.
    Reviving,
    /// The connection is offered to the successor.
    Retrying,
}

/// What the worker is busy with.
pub enum State<S> {
    /// Nothing: the next command can be taken.
    Idle,
    /// A message for `client_id` is on its way to the mailbox.
    Sending { client_id: String },
    /// `socket` is being attached to the mailbox of `client_id`.
    Connecting { client_id: String, socket: web_socket::Handle<S>, stage: Stage },
    /// The processing loop has ended.
    Stopped,
}

/// How a connect request ended.
#[derive(Clone, Copy, Debug, PartialEq, Eq)]
pub enum Connected {
    /// The registered mailbox took the connection.
    Attached,
    /// The registered mailbox had ended; its successor took the connection.
    Reborn,
    /// The successor had ended as well. That should not happen, and the
    /// connection is attached nowhere.
    Faulted,
}

/// What the worker asks of the runtime.
#[derive(Debug, PartialEq, Eq)]
pub enum Action {
    /// Nothing to do: wait for the next event.
    Continue,
    /// Tell the sender of the message this, then take the next command.
    Reply(Result<(), ClientNotFound>),
    /// Offer these bytes to the mailbox of [`Switchboard::target`], then
    /// report the result as `Forwarded`.
    Forward(Vec<u8>),
    /// Start a mailbox worker for this identity, then report the sending end
    /// of its queue as `Spawned`.
    Spawn(String),
    /// Offer the connection of [`Switchboard::socket`] to the mailbox of
    /// [`Switchboard::target`], then report the result as `Attached`.
    Attach,
    /// The connect request has ended this way; take the next command.
    Connected(Connected),
    /// Leave the processing loop and drop the queue.
    Stop,
}

/// The transition of the registry worker: from the registered mailboxes, what
/// the worker is busy with and an event, to the same two afterwards and the
/// action to perform. The registry maps each identity to the sending end of
/// its mailbox's queue.
pub open spec fn next<C, S>(clients: Map<Seq<char>, C>, state: State<S>, event: Event<C, S>) -> (
    Map<Seq<char>, C>,
    State<S>,
    Action,
) {
    match (state, event) {
        (State::Stopped, _) => (clients, State::Stopped, Action::Stop),
        (State::Idle, Event::QueueClosed) => (clients, State::Stopped, Action::Stop),
        (State::Idle, Event::Command(Message::Send { client_id, message })) => {
            if clients.contains_key(client_id@) {
                (clients, State::Sending { client_id }, Action::Forward(message))
            } else {
                (clients, State::Idle, Action::Reply(Err(ClientNotFound)))
            }
        },
        (State::Sending { client_id }, Event::Forwarded(_)) => (
            clients,
            State::Idle,
            Action::Reply(Ok(())),
        ),
        (State::Idle, Event::Command(Message::Connect { client_id, socket })) => {
            if clients.contains_key(client_id@) {
                (
                    clients,
                    State::Connecting { client_id, socket, stage: Stage::Attaching },
                    Action::Attach,
                )
            } else {
                (
                    clients,
                    State::Connecting { client_id, socket, stage: Stage::Creating },
                    Action::Spawn(client_id),
                )
            }
        },
        (State::Connecting { client_id, socket, stage: Stage::Creating }, Event::Spawned(sender)) => (
            clients.insert(client_id@, sender),
            State::Connecting { client_id, socket, stage: Stage::Attaching },
            Action::Attach,
        ),
        (State::Connecting { client_id, socket, stage: Stage::Reviving }, Event::Spawned(sender)) => (
            clients.insert(client_id@, sender),
            State::Connecting { client_id, socket, stage: Stage::Retrying },
            Action::Attach,
        ),
        (State::Connecting { client_id, socket, stage: Stage::Attaching }, Event::Attached(result)) => {
            if result is Ok {
                (clients, State::Idle, Action::Connected(Connected::Attached))
            } else {
                (
                    clients,
                    State::Connecting { client_id, socket, stage: Stage::Reviving },
                    Action::Spawn(client_id),
                )
            }
        },
        (State::Connecting { client_id, socket, stage: Stage::Retrying }, Event::Attached(result)) => {
            if result is Ok {
                (clients, State::Idle, Action::Connected(Connected::Reborn))
            } else {
                (clients, State::Idle, Action::Connected(Connected::Faulted))
            }
        },
        _ => (clients, state, Action::Continue),
    }
}

/// The identity whose mailbox the worker is dealing with, if any.
pub open spec fn client_in_hand<S>(state: State<S>) -> Option<Seq<char>> {
    match state {
        State::Sending { client_id } => Some(client_id@),
        State::Connecting { client_id, socket, stage } => Some(client_id@),
        _ => None,
    }
}

/// The registry worker.
pub struct Switchboard<C, S> {
    clients: Table<client::Handle<C>>,
    state: State<S>,
}

impl<C, S> View for Switchboard<C, S> {
    type V = Map<Seq<char>, C>;

    /// The registry: under each identity, the sending end of the queue of the
    /// mailbox that is registered for it.
    closed spec fn view(&self) -> Map<Seq<char>, C> {
        self.clients@.map_values(|handle: client::Handle<C>| handle.sender)
    }
}

impl<C, S> Switchboard<C, S> {
    /// What the worker is busy with.
    pub closed spec fn spec_state(&self) -> State<S> {
        self.state
    }

    /// Every mailbox is kept under the identity it answers for, and the
    /// mailbox of a message on its way, or of a connection being offered, is
    /// registered.
    pub closed spec fn wf(&self) -> bool {
        &&& self.clients.wf()
        &&& forall|id: Seq<char>| #[trigger]
            self.clients@.contains_key(id) ==> self.clients@[id].id@ == id
        &&& match self.state {
            State::Sending { client_id } => self.clients@.contains_key(client_id@),
            State::Connecting { client_id, socket, stage } => stage != Stage::Creating
                ==> self.clients@.contains_key(client_id@),
            _ => true,
        }
    }

    /// An idle worker with an empty registry.
    pub fn new() -> (actor: Self)
        ensures
            actor.wf(),
            actor@ == Map::<Seq<char>, C>::empty(),
            actor.spec_state() == State::<S>::Idle,
    {
        let actor = Switchboard { clients: Table::new(), state: State::Idle };
        assert(actor@ =~= Map::<Seq<char>, C>::empty());
        actor
    }

    /// What the worker is busy with.
    pub fn state(&self) -> (state: &State<S>)
        ensures
            *state == self.spec_state(),
    {
        &self.state
    }

    /// Whether a mailbox is registered for `client_id`.
    pub fn is_registered(&self, client_id: &String) -> (registered: bool)
        requires
            self.wf(),
        ensures
            registered == self@.contains_key(client_id@),
    {
        self.clients.contains_key(client_id)
    }

    /// The mailbox registered for `client_id`, if there is one.
    pub fn client(&self, client_id: &String) -> (handle: Option<&client::Handle<C>>)
        requires
            self.wf(),
        ensures
            match handle {
                Some(handle) => {
                    &&& self@.contains_key(client_id@)
                    &&& handle.id@ == client_id@
                    &&& handle.sender == self@[client_id@]
                },
                None => !self@.contains_key(client_id@),
            },
    {
        self.clients.get(client_id)
    }

    /// The mailbox that the action handed out last is about: the one
    /// registered for the identity of the message on its way or of the
    /// connection being offered. There is one unless the worker is idle, has
    /// stopped or waits for the first mailbox of an identity.
    pub fn target(&self) -> (handle: Option<&client::Handle<C>>)
        requires
            self.wf(),
        ensures
            match handle {
                Some(handle) => {
                    &&& client_in_hand(self.spec_state()) == Some(handle.id@)
                    &&& self@.contains_key(handle.id@)
                    &&& handle.sender == self@[handle.id@]
                },
                None => match self.spec_state() {
                    State::Connecting { client_id, socket, stage } => stage == Stage::Creating
                        && !self@.contains_key(client_id@),
                    State::Sending { client_id } => false,
                    _ => true,
                },
            },
    {
        match &self.state {
            State::Sending { client_id } => self.clients.get(client_id),
            State::Connecting { client_id, socket, stage } => self.clients.get(client_id),
            _ => None,
        }
    }

    /// The connection that is being attached, if one is.
    pub fn socket(&self) -> (socket: Option<&web_socket::Handle<S>>)
        ensures
            socket == match self.spec_state() {
                State::Connecting { client_id, socket, stage } => Some(&socket),
                _ => None,
            },
    {
        match &self.state {
            State::Connecting { client_id, socket, stage } => Some(socket),
            _ => None,
        }
    }

    /// Registers the mailbox behind `sender` for `client_id`, in place of the
    /// one registered before, if there was one.
    fn register(&mut self, client_id: &String, sender: C)
        requires
            old(self).wf(),
        ensures
            final(self).wf(),
            final(self).spec_state() == old(self).spec_state(),
            final(self)@ == old(self)@.insert(client_id@, sender),
            final(self).clients@.contains_key(client_id@),
    {
        let handle = match self.clients.get(client_id) {
            Some(ended) => ended.rebirth(sender),
            None => client::Handle::new(client_id.clone(), sender),
        };
        self.clients.insert(client_id.clone(), handle);
        proof {
            assert(self.clients@.contains_key(client_id@));
            assert(self@ =~= old(self)@.insert(client_id@, sender));
        }
    }

    /// Takes a command, as [`next`] says.
    ///
    /// An idle worker refuses a message for an identity without a registered
    /// mailbox, and hands out a message for a registered one to be forwarded.
    /// It hands out a connection to be attached to the registered mailbox;
    /// where none is registered, it asks for one first. A worker that is busy
    /// or has stopped takes no command.
    pub fn handle_message(&mut self, message: Message<S>) -> (action: Action)
        requires
            old(self).wf(),
        ensures
            final(self).wf(),
            (final(self)@, final(self).spec_state(), action) == next(
                old(self)@,
                old(self).spec_state(),
                Event::<C, S>::Command(message),
            ),
    {
        match &self.state {
            State::Idle => {},
            State::Stopped => {
                return Action::Stop;
            },
            _ => {
                return Action::Continue;
            },
        }
        match message {
            Message::Send { client_id, message } => {
                if self.clients.contains_key(&client_id) {
                    self.state = State::Sending { client_id };
                    Action::Forward(message)
                } else {
                    Action::Reply(Err(ClientNotFound))
                }
            },
            Message::Connect { client_id, socket } => {
                if self.clients.contains_key(&client_id) {
                    self.state = State::Connecting { client_id, socket, stage: Stage::Attaching };
                    Action::Attach
                } else {
                    let spawn = Action::Spawn(client_id.clone());
                    self.state = State::Connecting { client_id, socket, stage: Stage::Creating };
                    spawn
                }
            },
        }
    }

    /// One turn of the processing loop, as [`next`] says.
    ///
    /// An event that the worker does not wait for changes nothing and is
    /// answered with `Continue`.
    pub fn step(&mut self, event: Event<C, S>) -> (action: Action)
        requires
            old(self).wf(),
        ensures
            final(self).wf(),
            (final(self)@, final(self).spec_state(), action) == next(
                old(self)@,
                old(self).spec_state(),
                event,
            ),
    {
        let mut state = State::Idle;
        std::mem::swap(&mut self.state, &mut state);
        match (state, event) {
            (State::Stopped, _) => {
                self.state = State::Stopped;
                Action::Stop
            },
            (State::Idle, Event::QueueClosed) => {
                self.state = State::Stopped;
                Action::Stop
            },
            (State::Idle, Event::Command(message)) => self.handle_message(message),
            (State::Sending { client_id }, Event::Forwarded(_)) => Action::Reply(Ok(())),
            (State::Connecting { client_id, socket, stage: Stage::Creating }, Event::Spawned(sender)) => {
                self.register(&client_id, sender);
                self.state = State::Connecting { client_id, socket, stage: Stage::Attaching };
                Action::Attach
            },
            (State::Connecting { client_id, socket, stage: Stage::Reviving }, Event::Spawned(sender)) => {
                self.register(&client_id, sender);
                self.state = State::Connecting { client_id, socket, stage: Stage::Retrying };
                Action::Attach
            },
            (
                State::Connecting { client_id, socket, stage: Stage::Attaching },
                Event::Attached(result),
            ) => {
                match result {
                    Ok(_) => Action::Connected(Connected::Attached),
                    Err(_) => {
                        let spawn = Action::Spawn(client_id.clone());
                        self.state = State::Connecting { client_id, socket, stage: Stage::Reviving };
                        spawn
                    },
                }
            },
            (
                State::Connecting { client_id, socket, stage: Stage::Retrying },
                Event::Attached(result),
            ) => {
                match result {
                    Ok(_) => Action::Connected(Connected::Reborn),
                    Err(_) => Action::Connected(Connected::Faulted),
                }
            },
            (state, _) => {
                self.state = state;
                Action::Continue
            },
        }
    }
}

} // verus!
