//! The mailbox worker: it answers for one recipient.
//!
//! The worker keeps the connections that are attached to one identity. A
//! message for the identity goes out to every one of them; a connection whose
//! worker has ended is dropped when the sends report it, and a mailbox that
//! loses its last connection that way ends with it. A mailbox that has ended
//! is never revived: the registry puts a successor in its place.
//!
//! The runtime that owns the queue reports what happened as an [`Event`], and
//! [`Client::step`] answers with the [`Action`] to perform next.

use crate::actor::web_socket;
use crate::table::Table;
use std::ops::ControlFlow;
use vstd::prelude::*;

verus! {

/// A command to a mailbox worker.
pub enum Message<S> {
    /// Push these bytes to every attached connection.
    Send(Vec<u8>),
    /// Attach this connection.
    AddConnection(web_socket::Handle<S>),
}

/// What the runtime reports to the worker.
pub enum Event<S> {
    /// A command arrived on the queue.
    Command(Message<S>),
    /// Every handle is gone and the queue is empty.
    QueueClosed,
    /// The sends of the fan-out handed out last have all ended: for each
    /// connection, its id and how its send went.
    Delivered(Vec<(String, Result<(), web_socket::HandleError>)>),
}

/// What the worker asks of the runtime.
#[derive(Debug, PartialEq, Eq)]
pub enum Action {
    /// Nothing to do: wait for the next event.
    Continue,
    /// Send these bytes once to each connection of [`Client::sockets`], all at
    /// the same time, then report how each send went as `Delivered`.
    FanOut(Vec<u8>),
    /// Leave the processing loop and drop the queue.
    Stop,
}

/// Why a command could not be handed to a mailbox worker.
#[derive(Clone, Copy, Debug, PartialEq, Eq)]
pub enum HandleError {
    /// The worker's processing loop has ended.
    Closed,
}

/// The ids of the connections whose send was refused because their worker had ended.
pub open spec fn closed_ids(
    results: Seq<(String, Result<(), web_socket::HandleError>)>,
) -> Set<Seq<char>> {
    Set::new(
        |id: Seq<char>|
            exists|i: int| 0 <= i < results.len() && (#[trigger] results[i]).0@ == id && results[i].1 is Err,
    )
}

/// One more result adds its connection to the closed ones if it is a refusal,
/// and nothing otherwise.
proof fn lemma_closed_ids_grow(
    results: Seq<(String, Result<(), web_socket::HandleError>)>,
    i: int,
)
    requires
        0 <= i < results.len(),
    ensures
        closed_ids(results.subrange(0, i + 1)) == if results[i].1 is Err {
            closed_ids(results.subrange(0, i)).insert(results[i].0@)
        } else {
            closed_ids(results.subrange(0, i))
        },
{
    let prefix = results.subrange(0, i);
    let next = results.subrange(0, i + 1);
    let grown = if results[i].1 is Err {
        closed_ids(prefix).insert(results[i].0@)
    } else {
        closed_ids(prefix)
    };
    assert(next[i] == results[i]);
    assert forall|k: Seq<char>| closed_ids(next).contains(k) <==> grown.contains(k) by {
        if closed_ids(prefix).contains(k) {
            let j = choose|j: int|
                0 <= j < prefix.len() && (#[trigger] prefix[j]).0@ == k && prefix[j].1 is Err;
            assert(next[j] == prefix[j]);
        }
        if closed_ids(next).contains(k) {
            let j = choose|j: int|
                0 <= j < next.len() && (#[trigger] next[j]).0@ == k && next[j].1 is Err;
            if j < i {
                assert(prefix[j] == next[j]);
            }
        }
    }
    assert(closed_ids(next) =~= grown);
}

/// The transition of a mailbox worker: from whether it is active, the
/// connections attached to it and an event, to the same two afterwards and the
/// action to perform.
///
/// A worker that has ended stays as it is and answers every event with
/// `Stop`. An active worker attaches a connection under its id, in place of an
/// earlier one with that id; answers a message with the fan-out of its bytes,
/// which leaves the worker as it is; drops the connections that a fan-out
/// found closed, and ends if none is left; and ends when its queue is closed.
pub open spec fn next<S>(active: bool, sockets: Map<Seq<char>, S>, event: Event<S>) -> (
    bool,
    Map<Seq<char>, S>,
    Action,
) {
    if !active {
        (false, sockets, Action::Stop)
    } else {
        match event {
            Event::Command(Message::Send(data)) => (true, sockets, Action::FanOut(data)),
            Event::Command(Message::AddConnection(handle)) => (
                true,
                sockets.insert(handle.id@, handle.sender),
                Action::Continue,
            ),
            Event::Delivered(results) => {
                let left = sockets.remove_keys(closed_ids(results@));
                if left.is_empty() {
                    (false, left, Action::Stop)
                } else {
                    (true, left, Action::Continue)
                }
            },
            Event::QueueClosed => (false, Map::empty(), Action::Stop),
        }
    }
}

/// The mailbox worker of one identity, in one generation.
pub struct Client<S> {
    id: String,
    sockets: Table<web_socket::Handle<S>>,
    active: bool,
}

impl<S> View for Client<S> {
    type V = Map<Seq<char>, S>;

    /// The attached connections: under each connection id, the sending end of
    /// that connection's queue.
    closed spec fn view(&self) -> Map<Seq<char>, S> {
        self.sockets@.map_values(|handle: web_socket::Handle<S>| handle.sender)
    }
}

impl<S> Client<S> {
    /// The identity that the worker answers for.
    pub closed spec fn spec_id(&self) -> Seq<char> {
        self.id@
    }

    /// Whether the worker still runs. It starts active and ends for good.
    pub closed spec fn spec_active(&self) -> bool {
        self.active
    }

    /// Every connection is kept under its own id, and a worker that has ended
    /// keeps none.
    pub closed spec fn wf(&self) -> bool {
        &&& self.sockets.wf()
        &&& forall|id: Seq<char>| #[trigger] self.sockets@.contains_key(id) ==> self.sockets@[id].id@ == id
        &&& !self.active ==> self.sockets@.is_empty()
    }

    /// An active worker for `id` with no connection attached.
    pub fn new(id: String) -> (actor: Self)
        ensures
            actor.wf(),
            actor.spec_id() == id@,
            actor.spec_active(),
            actor@ == Map::<Seq<char>, S>::empty(),
    {
        let actor = Client { id, sockets: Table::new(), active: true };
        assert(actor@ =~= Map::<Seq<char>, S>::empty());
        actor
    }

    /// The identity that the worker answers for.
    pub fn id(&self) -> (id: &String)
        ensures
            id@ == self.spec_id(),
    {
        &self.id
    }

    /// Whether the worker still runs. One that has ended keeps no connection.
    pub fn is_active(&self) -> (active: bool)
        requires
            self.wf(),
        ensures
            active == self.spec_active(),
            !active ==> self@ == Map::<Seq<char>, S>::empty(),
    {
        proof {
            if !self.active {
                assert(self@ =~= Map::<Seq<char>, S>::empty());
            }
        }
        self.active
    }

    /// The attached connections: each of them once, and nothing else.
    pub fn sockets(&self) -> (sockets: Vec<&web_socket::Handle<S>>)
        requires
            self.wf(),
        ensures
            self@.dom().finite(),
            sockets@.len() == self@.len(),
            forall|i: int|
                0 <= i < sockets@.len() ==> self@.contains_key((#[trigger] sockets@[i]).id@)
                    && self@[sockets@[i].id@] == sockets@[i].sender,
            forall|i: int, j: int|
                0 <= i < j < sockets@.len() ==> (#[trigger] sockets@[i]).id@ != (
                #[trigger] sockets@[j]).id@,
    {
        let sockets = self.sockets.values();
        proof {
            let keys = self.sockets.keys();
            assert(self@.dom() =~= self.sockets@.dom());
            assert forall|i: int| 0 <= i < sockets@.len() implies self@.contains_key(
                (#[trigger] sockets@[i]).id@,
            ) && self@[sockets@[i].id@] == sockets@[i].sender && sockets@[i].id@ == keys[i] by {
                assert(keys.to_set().contains(keys[i]));
            }
        }
        sockets
    }

    /// Carries out one command.
    ///
    /// A worker that has ended takes no command. An active worker attaches a
    /// connection under its id, in place of an earlier one with that id, and
    /// answers a message with the fan-out of its bytes; the message leaves the
    /// worker as it is.
    pub fn handle_message(&mut self, message: Message<S>) -> (action: Action)
        requires
            old(self).wf(),
        ensures
            final(self).wf(),
            final(self).spec_id() == old(self).spec_id(),
            (final(self).spec_active(), final(self)@, action) == next(
                old(self).spec_active(),
                old(self)@,
                Event::Command(message),
            ),
    {
        if !self.active {
            return Action::Stop;
        }
        match message {
            Message::Send(data) => Action::FanOut(data),
            Message::AddConnection(handle) => {
                let id = handle.id.clone();
                self.sockets.insert(id, handle);
                proof {
                    assert(self.sockets@.contains_key(handle.id@));
                    assert(!self.sockets@.is_empty());
                    assert(self@ =~= old(self)@.insert(handle.id@, handle.sender));
                }
                Action::Continue
            },
        }
    }

    /// Drops the connections that a fan-out found closed, and ends the worker
    /// if none is left.
    ///
    /// Only a refused send drops a connection, and only here does a worker end
    /// for want of connections: one that never had any, and was never asked to
    /// deliver, stays active.
    pub fn prune(&mut self, results: &Vec<(String, Result<(), web_socket::HandleError>)>) -> (flow:
        ControlFlow<()>)
        requires
            old(self).wf(),
        ensures
            final(self).wf(),
            final(self).spec_id() == old(self).spec_id(),
            final(self)@ == old(self)@.remove_keys(closed_ids(results@)),
            final(self).spec_active() == (old(self).spec_active() && !final(self)@.is_empty()),
            flow is Break <==> !final(self).spec_active(),
    {
        let ghost before = self.sockets@;
        let mut i: usize = 0;
        proof {
            assert(closed_ids(results@.subrange(0, 0)) =~= Set::<Seq<char>>::empty());
            assert(before.remove_keys(Set::<Seq<char>>::empty()) =~= before);
        }
        while i < results.len()
            invariant
                i <= results@.len(),
                self.sockets.wf(),
                self.id == old(self).id,
                self.active == old(self).active,
                before == old(self).sockets@,
                forall|id: Seq<char>| #[trigger]
                    before.contains_key(id) ==> before[id].id@ == id,
                self.sockets@ == before.remove_keys(closed_ids(results@.subrange(0, i as int))),
            decreases results@.len() - i,
        {
            proof {
                lemma_closed_ids_grow(results@, i as int);
            }
            if results[i].1.is_err() {
                self.sockets.remove(&results[i].0);
            }
            assert(self.sockets@ =~= before.remove_keys(
                closed_ids(results@.subrange(0, i + 1)),
            ));
            i += 1;
        }
        proof {
            assert(results@.subrange(0, i as int) =~= results@);
            assert(self@ =~= old(self)@.remove_keys(closed_ids(results@)));
            assert(self@.dom() =~= self.sockets@.dom());
        }
        if self.sockets.is_empty() {
            self.active = false;
        }
        if self.active {
            ControlFlow::Continue(())
        } else {
            ControlFlow::Break(())
        }
    }

    /// One turn of the processing loop, as [`next`] says.
    pub fn step(&mut self, event: Event<S>) -> (action: Action)
        requires
            old(self).wf(),
        ensures
            final(self).wf(),
            final(self).spec_id() == old(self).spec_id(),
            (final(self).spec_active(), final(self)@, action) == next(
                old(self).spec_active(),
                old(self)@,
                event,
            ),
    {
        if !self.active {
            return Action::Stop;
        }
        match event {
            Event::Command(message) => self.handle_message(message),
            Event::Delivered(results) => match self.prune(&results) {
                ControlFlow::Continue(_) => Action::Continue,
                ControlFlow::Break(_) => Action::Stop,
            },
            Event::QueueClosed => {
                self.sockets = Table::new();
                self.active = false;
                assert(self@ =~= Map::<Seq<char>, S>::empty());
                Action::Stop
            },
        }
    }
}

/// What the registry keeps of a mailbox worker: the identity it answers for
/// and the sending end of its queue. The library never looks into the sending
/// end.
pub struct Handle<C> {
    pub id: String,
    pub sender: C,
}

impl<C> Handle<C> {
    /// The handle of a worker for `id`, with `sender` as the sending end of its queue.
    pub fn new(id: String, sender: C) -> (handle: Self)
        ensures
            handle.id@ == id@,
            handle.sender == sender,
    {
        Handle { id, sender }
    }

    /// The handle of this worker's successor: of a new worker for the same
    /// identity, which starts with no connection and keeps nothing of this
    /// one. `sender` is the sending end of the successor's queue.
    pub fn rebirth(&self, sender: C) -> (handle: Self)
        ensures
            handle.id@ == self.id@,
            handle.sender == sender,
    {
        Handle::new(self.id.clone(), sender)
    }
}

} // verus!
