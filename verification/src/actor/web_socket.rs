//! The transport worker: it owns one live connection.
//!
//! The worker turns send commands into outbound binary frames and watches the
//! inbound side for the end of the connection. It is written as a state
//! machine: the runtime that owns the queue and the socket reports what
//! happened as an [`Event`], and [`WebSocket::step`] answers with the
//! [`Action`] to perform next. Once the worker has stopped it stays stopped.

use std::ops::ControlFlow;
use vstd::prelude::*;

verus! {

/// How many commands a worker's queue holds before senders have to wait.
pub const QUEUE_CAPACITY: usize = 8;

/// One frame on a connection.
#[derive(Debug, PartialEq, Eq)]
pub enum Frame {
    Text(String),
    Binary(Vec<u8>),
    Ping(Vec<u8>),
    Pong(Vec<u8>),
    Close,
}

/// What a frame holds.
pub enum FrameView {
    Text(Seq<char>),
    Binary(Seq<u8>),
    Ping(Seq<u8>),
    Pong(Seq<u8>),
    Close,
}

impl View for Frame {
    type V = FrameView;

    open spec fn view(&self) -> FrameView {
        match self {
            Frame::Text(text) => FrameView::Text(text@),
            Frame::Binary(data) => FrameView::Binary(data@),
            Frame::Ping(data) => FrameView::Ping(data@),
            Frame::Pong(data) => FrameView::Pong(data@),
            Frame::Close => FrameView::Close,
        }
    }
}

/// A command to a transport worker.
#[derive(Debug, PartialEq, Eq)]
pub enum Message {
    /// Push these bytes to the peer.
    Send(Vec<u8>),
}

impl View for Message {
    type V = Seq<u8>;

    /// The bytes to push.
    open spec fn view(&self) -> Seq<u8> {
        match self {
            Message::Send(data) => data@,
        }
    }
}

/// Why a connection failed.
#[derive(Clone, Copy, Debug, PartialEq, Eq)]
pub enum TransportError {
    /// An outbound frame could not be written.
    Write,
    /// The inbound side reported an error.
    Read,
}

/// Whether a worker still serves its connection.
#[derive(Clone, Copy, Debug, PartialEq, Eq)]
pub enum State {
    Running,
    /// The processing loop has ended, with this result.
    Stopped(Result<(), TransportError>),
}

/// What the runtime reports to the worker.
#[derive(Debug, PartialEq, Eq)]
pub enum Event {
    /// A command arrived on the queue.
    Command(Message),
    /// Every handle is gone and the queue is empty.
    QueueClosed,
    /// The frame handed out last was written.
    Written,
    /// The frame handed out last could not be written.
    WriteFailed,
    /// The peer sent a frame.
    Frame(Frame),
    /// The inbound side reported an error.
    ReadFailed,
    /// The inbound side ended.
    StreamEnded,
}

impl Event {
    /// The result with which the processing loop ends on this event, if it
    /// ends on it: a closed queue, a close frame and the end of the stream end
    /// it in good order, a failed write or read with that failure.
    pub open spec fn exit(&self) -> Option<Result<(), TransportError>> {
        match self {
            Event::QueueClosed => Some(Ok(())),
            Event::WriteFailed => Some(Err(TransportError::Write)),
            Event::Frame(Frame::Close) => Some(Ok(())),
            Event::ReadFailed => Some(Err(TransportError::Read)),
            Event::StreamEnded => Some(Ok(())),
            _ => None,
        }
    }
}

/// What the worker asks of the runtime.
#[derive(Debug, PartialEq, Eq)]
pub enum Action {
    /// Nothing to do: wait for the next event.
    Continue,
    /// Write this frame to the connection, then report `Written` or `WriteFailed`.
    Write(Frame),
    /// Leave the processing loop with this result and drop the queue.
    Stop(Result<(), TransportError>),
}

/// The transition of a transport worker: from its state and an event to its
/// state afterwards and the action to perform.
///
/// A stopped worker stays as it is and answers every event with the result it
/// stopped with. A running worker stops on the events that [`Event::exit`]
/// names, answers a command with one binary frame that holds exactly the
/// command's bytes, and lets every other event pass.
pub open spec fn next(state: State, event: Event) -> (State, Action) {
    match state {
        State::Stopped(result) => (state, Action::Stop(result)),
        State::Running => match event.exit() {
            Some(result) => (State::Stopped(result), Action::Stop(result)),
            None => match event {
                Event::Command(Message::Send(data)) => (
                    State::Running,
                    Action::Write(Frame::Binary(data)),
                ),
                _ => (State::Running, Action::Continue),
            },
        },
    }
}

/// Why a command could not be handed to a transport worker.
#[derive(Clone, Copy, Debug, PartialEq, Eq)]
pub enum HandleError {
    /// The worker's processing loop has ended.
    SocketClosed,
}

/// A character of the alphabet that connection ids are drawn from.
pub open spec fn is_id_symbol(c: char) -> bool {
    ('a' <= c && c <= 'z') || ('A' <= c && c <= 'Z') || ('0' <= c && c <= '9') || c == '_' || c
        == '-'
}

/// A fresh random connection id.
///
/// Calls `nanoid::format` with `nanoid::rngs::default` as the source of random
/// bytes, the alphabet `nanoid::alphabet::SAFE` and the size 21, which is what
/// `nanoid!()` stands for. Trusted: the result has 21 characters, each of them a
/// letter, a digit, `_` or `-`. Which characters is left open, and so is
/// whether two calls give different ids. The random source panics where the
/// operating system hands out no random bytes.
#[verifier::external_body]
fn generate_id() -> (id: String)
    ensures
        id@.len() == 21,
        forall|i: int| 0 <= i < id@.len() ==> is_id_symbol(#[trigger] id@[i]),
{
    nanoid::format(nanoid::rngs::default, &nanoid::alphabet::SAFE, 21)
}

/// The transport worker of one connection.
pub struct WebSocket {
    id: String,
    state: State,
}

impl WebSocket {
    /// The connection id.
    pub closed spec fn spec_id(&self) -> Seq<char> {
        self.id@
    }

    /// Whether the worker still runs, or how it stopped.
    pub closed spec fn spec_state(&self) -> State {
        self.state
    }

    /// A running worker under a fresh random id of 21 characters.
    pub fn new() -> (actor: Self)
        ensures
            actor.spec_state() == State::Running,
            actor.spec_id().len() == 21,
            forall|i: int|
                0 <= i < actor.spec_id().len() ==> is_id_symbol(#[trigger] actor.spec_id()[i]),
    {
        Self::with_id(generate_id())
    }

    /// A running worker under the given id.
    pub fn with_id(id: String) -> (actor: Self)
        ensures
            actor.spec_state() == State::Running,
            actor.spec_id() == id@,
    {
        WebSocket { id, state: State::Running }
    }

    /// The connection id.
    pub fn id(&self) -> (id: &String)
        ensures
            id@ == self.spec_id(),
    {
        &self.id
    }

    /// Whether the worker still runs, or how it stopped.
    pub fn state(&self) -> (state: State)
        ensures
            state == self.spec_state(),
    {
        self.state
    }

    /// The frame that carries out a command: one binary frame with exactly the
    /// bytes of the command.
    pub fn handle_message(&self, message: Message) -> (frame: Frame)
        ensures
            frame@ == FrameView::Binary(message@),
            Action::Write(frame) == next(State::Running, Event::Command(message)).1,
    {
        match message {
            Message::Send(data) => Frame::Binary(data),
        }
    }

    /// Whether an inbound frame ends the connection. A close frame does;
    /// every other frame is ignored, since the connection only pushes.
    pub fn handle_socket_message(&self, message: &Frame) -> (flow: ControlFlow<()>)
        ensures
            flow is Break <==> message is Close,
    {
        match message {
            Frame::Close => ControlFlow::Break(()),
            _ => ControlFlow::Continue(()),
        }
    }

    /// One turn of the processing loop, as [`next`] says.
    pub fn step(&mut self, event: Event) -> (action: Action)
        ensures
            final(self).spec_id() == old(self).spec_id(),
            (final(self).spec_state(), action) == next(old(self).spec_state(), event),
    {
        if let State::Stopped(result) = self.state {
            return Action::Stop(result);
        }
        match event {
            Event::Command(message) => Action::Write(self.handle_message(message)),
            Event::Written => Action::Continue,
            Event::Frame(frame) => {
                match self.handle_socket_message(&frame) {
                    ControlFlow::Break(_) => self.stop(Ok(())),
                    ControlFlow::Continue(_) => Action::Continue,
                }
            },
            Event::QueueClosed | Event::StreamEnded => self.stop(Ok(())),
            Event::WriteFailed => self.stop(Err(TransportError::Write)),
            Event::ReadFailed => self.stop(Err(TransportError::Read)),
        }
    }

    /// Ends the processing loop with `result`.
    fn stop(&mut self, result: Result<(), TransportError>) -> (action: Action)
        ensures
            final(self).spec_id() == old(self).spec_id(),
            final(self).spec_state() == State::Stopped(result),
            action == Action::Stop(result),
    {
        self.state = State::Stopped(result);
        Action::Stop(result)
    }
}

/// What a mailbox keeps of a connection: its id and the sending end of the
/// worker's queue. The library never looks into the sending end.
pub struct Handle<S> {
    pub id: String,
    pub sender: S,
}

impl<S> Handle<S> {
    /// The handle of `actor`, with `sender` as the sending end of its queue.
    pub fn new(actor: &WebSocket, sender: S) -> (handle: Self)
        ensures
            handle.id@ == actor.spec_id(),
            handle.sender == sender,
    {
        Handle { id: actor.id.clone(), sender }
    }
}

} // verus!
