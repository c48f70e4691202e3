//! The registry of connections and the decisions of the reactor.
//!
//! A `WebSocketServer` keeps every live connection under its token and hands
//! out the tokens. It makes no call on the poller or on a socket: for each
//! notification and for each result of an accept, a read or a write it says
//! what is to be done next, and with which interest a socket is registered
//! again.

use vstd::prelude::*;
use std::collections::HashMap;
use crate::client::{
    interest_of,
    ClientState,
    ConnectionError,
    SocketRead,
    SocketWrite,
    Step,
    WebSocketClient,
};
use crate::codec::nothing_collected;
use crate::readiness::{
    connection_modes,
    connection_opts,
    event_kinds,
    poll_modes,
    Readiness,
    Registration,
    SERVER_TOKEN,
};

verus! {

broadcast use vstd::std_specs::hash::group_hash_axioms;

/// No connection is registered under the token.
#[derive(Clone, Copy, Debug, PartialEq, Eq, Structural)]
pub struct NotFound;

/// Why no connection came of a notification on the listening socket.
#[derive(Clone, Copy, Debug, PartialEq, Eq, Structural)]
pub enum AcceptError {
    /// The accept failed.
    Failed,
    /// No connection was waiting.
    Unavailable,
    /// Every token has been handed out.
    Exhausted,
}

/// What an accept on the listening socket gave.
pub enum Incoming<S> {
    /// The accept failed.
    Failed,
    /// No connection was waiting.
    Unavailable,
    /// A new stream.
    Stream(S),
}

/// What a notification asks for.
#[derive(Clone, Copy, Debug, PartialEq, Eq, Structural)]
pub struct Plan {
    /// Accept on the listening socket and hand the result to `accept`.
    pub accept: bool,
    /// Read from the connection's socket and hand the results to `read`.
    pub read: bool,
    /// Ask `respond` what is to be written to the connection's socket.
    pub write: bool,
}

/// What is to be done for a connection after an event was handled.
pub enum Dispatch<S> {
    /// Read from the socket again and hand over what it gives.
    ReadAgain,
    /// Write these bytes to the socket and hand over what the write gives.
    Send(Vec<u8>),
    /// Register the socket again as this says.
    Reregister(Registration),
    /// The connection has left the registry: take its socket out of the
    /// poller and drop it.
    Drop(WebSocketClient<S>, ConnectionError),
}

/// `HashMap::get_mut`: a mutable reference to the value under the key, if
/// there is one. What is written through it is what the map holds under
/// the key afterwards, and nothing else in the map changes.
#[verifier::external_body]
fn value_mut<'a, V>(map: &'a mut HashMap<usize, V>, key: usize) -> (found: Option<&'a mut V>)
    ensures
        match found {
            Some(value) => {
                &&& old(map)@.contains_key(key)
                &&& *value == old(map)@[key]
                &&& final(map)@ == old(map)@.insert(key, *final(value))
            },
            None => {
                &&& !old(map)@.contains_key(key)
                &&& final(map)@ == old(map)@
            },
        },
{
    map.get_mut(&key)
}

/// The registry of connections, with the counter from which tokens come.
pub struct WebSocketServer<S> {
    clients: HashMap<usize, WebSocketClient<S>>,
    token_counter: usize,
}

impl<S> WebSocketServer<S> {
    /// The live connections, each under the number of its token.
    pub closed spec fn connections(&self) -> Map<usize, WebSocketClient<S>> {
        self.clients@
    }

    /// The number of the token that the next connection gets.
    pub closed spec fn next_token(&self) -> usize {
        self.token_counter
    }

    /// Whether a connection is registered under the token.
    pub open spec fn holds(&self, token: mio::Token) -> bool {
        self.connections().contains_key(token.0)
    }

    /// The same connections and the same next token as in `other`.
    pub open spec fn unchanged(&self, other: Self) -> bool {
        &&& self.connections() == other.connections()
        &&& self.next_token() == other.next_token()
    }

    /// No connection has the listening socket's token, every connection has
    /// a token that was handed out, and every connection is well formed.
    pub closed spec fn wf(&self) -> bool {
        &&& self.token_counter > SERVER_TOKEN
        &&& forall|key: usize| #[trigger]
            self.clients@.contains_key(key) ==> SERVER_TOKEN < key < self.token_counter
        &&& forall|key: usize| #[trigger]
            self.clients@.contains_key(key) ==> self.clients@[key].wf()
    }

    /// What `wf` says of the tokens and of the connections.
    pub proof fn lemma_wf(&self)
        requires
            self.wf(),
        ensures
            self.next_token() > SERVER_TOKEN,
            self.connections().dom().finite(),
            forall|key: usize| #[trigger]
                self.connections().contains_key(key) ==> SERVER_TOKEN < key < self.next_token(),
            forall|key: usize| #[trigger]
                self.connections().contains_key(key) ==> self.connections()[key].wf(),
    {
    }

    /// A registry without connections whose first token is 1.
    pub fn new() -> (server: WebSocketServer<S>)
        ensures
            server.wf(),
            server.connections() == Map::<usize, WebSocketClient<S>>::empty(),
            server.next_token() == 1,
    {
        WebSocketServer { clients: HashMap::new(), token_counter: 1 }
    }

    /// A registry without connections whose first token is `first`. The
    /// listening socket's token is not to be had.
    pub fn starting_at(first: mio::Token) -> (server: Option<WebSocketServer<S>>)
        ensures
            server is Some <==> first.0 != SERVER_TOKEN,
            server matches Some(s) ==> {
                &&& s.wf()
                &&& s.connections() == Map::<usize, WebSocketClient<S>>::empty()
                &&& s.next_token() == first.0
            },
    {
        if first.0 == SERVER_TOKEN {
            None
        } else {
            Some(WebSocketServer { clients: HashMap::new(), token_counter: first.0 })
        }
    }

    /// The number of live connections.
    pub fn len(&self) -> (n: usize)
        ensures
            n == self.connections().len(),
    {
        self.clients.len()
    }

    /// Whether a connection is registered under the token.
    pub fn contains(&self, token: mio::Token) -> (held: bool)
        ensures
            held == self.holds(token),
    {
        self.clients.contains_key(&token.0)
    }

    /// Hands out the next token, unless all have been handed out. Tokens
    /// come in increasing order and none is the listening socket's.
    pub fn allocate(&mut self) -> (token: Option<mio::Token>)
        requires
            old(self).wf(),
        ensures
            final(self).wf(),
            final(self).connections() == old(self).connections(),
            token is Some <==> old(self).next_token() < usize::MAX,
            token matches Some(t) ==> {
                &&& t.0 == old(self).next_token()
                &&& t.0 != SERVER_TOKEN
                &&& !old(self).holds(t)
                &&& final(self).next_token() == old(self).next_token() + 1
            },
            token is None ==> final(self).next_token() == old(self).next_token(),
    {
        if self.token_counter < usize::MAX {
            let token = mio::Token(self.token_counter);
            self.token_counter = self.token_counter + 1;
            Some(token)
        } else {
            None
        }
    }

    /// Whether `insert` takes a connection under the token: the token was
    /// handed out and no connection has it.
    pub open spec fn admits(&self, token: mio::Token) -> bool {
        &&& SERVER_TOKEN < token.0 < self.next_token()
        &&& !self.holds(token)
    }

    /// Registers a connection under a token that `allocate` has handed out
    /// and that no live connection has. Any other token is refused and the
    /// connection is handed back.
    pub fn insert(&mut self, token: mio::Token, client: WebSocketClient<S>) -> (refused: Option<
        WebSocketClient<S>,
    >)
        requires
            old(self).wf(),
            client.wf(),
        ensures
            final(self).wf(),
            final(self).next_token() == old(self).next_token(),
            if old(self).admits(token) {
                &&& refused is None
                &&& final(self).connections() == old(self).connections().insert(token.0, client)
            } else {
                &&& refused == Some(client)
                &&& final(self).connections() == old(self).connections()
            },
    {
        if token.0 == SERVER_TOKEN || token.0 >= self.token_counter || self.clients.contains_key(
            &token.0,
        ) {
            Some(client)
        } else {
            self.clients.insert(token.0, client);
            None
        }
    }

    /// The connection under the token.
    pub fn get(&self, token: mio::Token) -> (found: Result<&WebSocketClient<S>, NotFound>)
        requires
            self.wf(),
        ensures
            found is Ok <==> self.holds(token),
            found matches Ok(client) ==> *client == self.connections()[token.0] && client.wf(),
    {
        match self.clients.get(&token.0) {
            Some(client) => Ok(client),
            None => Err(NotFound),
        }
    }

    /// The connection under the token, to change it in place.
    pub fn get_mut(&mut self, token: mio::Token) -> (found: Result<
        &mut WebSocketClient<S>,
        NotFound,
    >)
        requires
            old(self).wf(),
        ensures
            found is Ok <==> old(self).holds(token),
            final(self).next_token() == old(self).next_token(),
            match found {
                Ok(client) => {
                    &&& *client == old(self).connections()[token.0]
                    &&& client.wf()
                    &&& final(self).connections() == old(self).connections().insert(
                        token.0,
                        *final(client),
                    )
                    &&& final(client).wf() ==> final(self).wf()
                },
                Err(_) => final(self).unchanged(*old(self)) && final(self).wf(),
            },
    {
        match value_mut(&mut self.clients, token.0) {
            Some(client) => Ok(client),
            None => Err(NotFound),
        }
    }

    /// Takes the connection under the token out of the registry.
    pub fn remove(&mut self, token: mio::Token) -> (removed: Option<WebSocketClient<S>>)
        requires
            old(self).wf(),
        ensures
            final(self).wf(),
            final(self).next_token() == old(self).next_token(),
            final(self).connections() == old(self).connections().remove(token.0),
            removed is Some <==> old(self).holds(token),
            removed matches Some(client) ==> client == old(self).connections()[token.0]
                && client.wf(),
    {
        self.clients.remove(&token.0)
    }

    /// What a notification asks for: on the listening socket's token,
    /// readiness to read means that a connection may be accepted; on any
    /// other token it means that the connection can be read from. Readiness
    /// to write is the connection's, whatever the token.
    pub fn ready(&self, token: mio::Token, events: mio::EventSet) -> (plan: Plan)
        ensures
            plan.accept == (event_kinds(events).contains(Readiness::Readable) && token.0
                == SERVER_TOKEN),
            plan.read == (event_kinds(events).contains(Readiness::Readable) && token.0
                != SERVER_TOKEN),
            plan.write == event_kinds(events).contains(Readiness::Writable),
    {
        let readable = events.is_readable();
        Plan {
            accept: readable && token.0 == SERVER_TOKEN,
            read: readable && token.0 != SERVER_TOKEN,
            write: events.is_writable(),
        }
    }

    /// What `accept` makes of a new stream: the registry after it and the
    /// registration that is due.
    pub open spec fn accepts(before: Self, socket: S, after: Self, registration: Registration) -> bool {
        let client = after.connections()[registration.token.0];
        &&& registration.token.0 == before.next_token()
        &&& registration.token.0 != SERVER_TOKEN
        &&& !before.holds(registration.token)
        &&& event_kinds(registration.interest) == set![Readiness::Readable]
        &&& poll_modes(registration.opts) == connection_modes()
        &&& after.next_token() == before.next_token() + 1
        &&& after.connections() == before.connections().insert(registration.token.0, client)
        &&& client.socket_view() == socket
        &&& client.state_view() == ClientState::AwaitingHandshake
        &&& client.interest_view() == set![Readiness::Readable]
        &&& client.codec().collected() == nothing_collected()
        &&& client.codec().fed() == Seq::<Seq<u8>>::empty()
        &&& client.unsent_view() is None
    }

    /// Takes what an accept on the listening socket gave.
    ///
    /// A new stream becomes a connection under the next token and is to be
    /// registered for reading, edge-triggered and one-shot. A failed accept,
    /// and one that found no connection waiting, leave the registry as it is
    /// and are reported; so is a stream for which no token is left, which is
    /// dropped.
    pub fn accept(&mut self, incoming: Incoming<S>) -> (accepted: Result<Registration, AcceptError>)
        requires
            old(self).wf(),
        ensures
            final(self).wf(),
            match incoming {
                Incoming::Failed => accepted == Err::<Registration, AcceptError>(
                    AcceptError::Failed,
                ),
                Incoming::Unavailable => accepted == Err::<Registration, AcceptError>(
                    AcceptError::Unavailable,
                ),
                Incoming::Stream(socket) => if old(self).next_token() < usize::MAX {
                    &&& accepted is Ok
                    &&& Self::accepts(*old(self), socket, *final(self), accepted->Ok_0)
                } else {
                    accepted == Err::<Registration, AcceptError>(AcceptError::Exhausted)
                },
            },
            accepted is Err ==> final(self).unchanged(*old(self)),
    {
        match incoming {
            Incoming::Failed => Err(AcceptError::Failed),
            Incoming::Unavailable => Err(AcceptError::Unavailable),
            Incoming::Stream(socket) => match self.allocate() {
                None => Err(AcceptError::Exhausted),
                Some(new_token) => {
                    let client = WebSocketClient::new(socket);
                    let interest = client.interest();
                    self.clients.insert(new_token.0, client);
                    Ok(Registration { token: new_token, interest: interest, opts: connection_opts() })
                },
            },
        }
    }

    /// How a connection's step becomes the reactor's: the connection stays
    /// in the registry as the step left it, unless it is given up, and a
    /// registration that is due carries the interest the connection has
    /// then.
    pub open spec fn dispatches(
        before: Self,
        token: mio::Token,
        client: WebSocketClient<S>,
        step: Step,
        after: Self,
        action: Dispatch<S>,
    ) -> bool {
        &&& after.next_token() == before.next_token()
        &&& match step {
            Step::Again => {
                &&& action is ReadAgain
                &&& after.connections() == before.connections().insert(token.0, client)
            },
            Step::Send(bytes) => {
                &&& action matches Dispatch::Send(sent)
                &&& sent == bytes
                &&& after.connections() == before.connections().insert(token.0, client)
            },
            Step::Rearm => {
                &&& action matches Dispatch::Reregister(registration)
                &&& registration.token == token
                &&& event_kinds(registration.interest) == client.interest_view()
                &&& poll_modes(registration.opts) == connection_modes()
                &&& after.connections() == before.connections().insert(token.0, client)
            },
            Step::Abandon(error) => {
                &&& action matches Dispatch::Drop(dropped, reason)
                &&& dropped == client
                &&& reason == error
                &&& after.connections() == before.connections().remove(token.0)
            },
        }
    }

    /// Puts a connection back under its token as a step left it, or hands
    /// it over to be dropped, and says what the reactor is to do.
    fn settle(&mut self, token: mio::Token, client: WebSocketClient<S>, step: Step) -> (action:
        Dispatch<S>)
        requires
            old(self).wf(),
            client.wf(),
            SERVER_TOKEN < token.0 < old(self).next_token(),
        ensures
            final(self).wf(),
            Self::dispatches(*old(self), token, client, step, *final(self), action),
    {
        match step {
            Step::Abandon(error) => {
                self.clients.remove(&token.0);
                Dispatch::Drop(client, error)
            },
            Step::Again => {
                self.clients.insert(token.0, client);
                Dispatch::ReadAgain
            },
            Step::Send(bytes) => {
                self.clients.insert(token.0, client);
                Dispatch::Send(bytes)
            },
            Step::Rearm => {
                let interest = client.interest();
                self.clients.insert(token.0, client);
                Dispatch::Reregister(
                    Registration { token: token, interest: interest, opts: connection_opts() },
                )
            },
        }
    }

    /// What is settled for a connection that was taken out of the registry
    /// is settled for the registry as it was before.
    proof fn lemma_settled(
        before: Self,
        taken: Self,
        token: mio::Token,
        client: WebSocketClient<S>,
        step: Step,
        after: Self,
        action: Dispatch<S>,
    )
        requires
            taken.connections() == before.connections().remove(token.0),
            taken.next_token() == before.next_token(),
            Self::dispatches(taken, token, client, step, after, action),
        ensures
            Self::dispatches(before, token, client, step, after, action),
    {
        assert(taken.connections().insert(token.0, client) =~= before.connections().insert(
            token.0,
            client,
        ));
        assert(taken.connections().remove(token.0) =~= before.connections().remove(token.0));
    }

    /// Takes what a read of a connection's socket gave: the connection
    /// under the token takes it, and its step becomes the reactor's.
    pub fn read(&mut self, token: mio::Token, input: SocketRead<'_>) -> (action: Result<
        Dispatch<S>,
        NotFound,
    >)
        requires
            old(self).wf(),
        ensures
            final(self).wf(),
            action is Ok <==> old(self).holds(token),
            action is Err ==> final(self).unchanged(*old(self)),
            action matches Ok(dispatch) ==> exists|client: WebSocketClient<S>, step: Step|
                {
                    &&& WebSocketClient::reads(old(self).connections()[token.0], input, client, step)
                    &&& #[trigger] Self::dispatches(
                        *old(self),
                        token,
                        client,
                        step,
                        *final(self),
                        dispatch,
                    )
                },
    {
        match self.clients.remove(&token.0) {
            None => {
                assert(self.clients@ =~= old(self).clients@);
                Err(NotFound)
            },
            Some(mut client) => {
                let step = client.read(input);
                let ghost taken = *self;
                let dispatch = self.settle(token, client, step);
                proof {
                    Self::lemma_settled(*old(self), taken, token, client, step, *self, dispatch);
                }
                Ok(dispatch)
            },
        }
    }

    /// What is to be written to a connection's socket now that it can be
    /// written to: the connection under the token says it, and its step
    /// becomes the reactor's.
    pub fn respond(&mut self, token: mio::Token) -> (action: Result<Dispatch<S>, NotFound>)
        requires
            old(self).wf(),
        ensures
            final(self).wf(),
            action is Ok <==> old(self).holds(token),
            action is Err ==> final(self).unchanged(*old(self)),
            action matches Ok(dispatch) ==> exists|client: WebSocketClient<S>, step: Step|
                {
                    &&& WebSocketClient::responds(old(self).connections()[token.0], client, step)
                    &&& #[trigger] Self::dispatches(
                        *old(self),
                        token,
                        client,
                        step,
                        *final(self),
                        dispatch,
                    )
                },
    {
        match self.clients.remove(&token.0) {
            None => {
                assert(self.clients@ =~= old(self).clients@);
                Err(NotFound)
            },
            Some(mut client) => {
                let step = client.respond();
                let ghost taken = *self;
                let dispatch = self.settle(token, client, step);
                proof {
                    Self::lemma_settled(*old(self), taken, token, client, step, *self, dispatch);
                }
                Ok(dispatch)
            },
        }
    }

    /// Takes what the write to a connection's socket gave: the connection
    /// under the token takes it, and its step becomes the reactor's.
    pub fn write(&mut self, token: mio::Token, outcome: SocketWrite) -> (action: Result<
        Dispatch<S>,
        NotFound,
    >)
        requires
            old(self).wf(),
        ensures
            final(self).wf(),
            action is Ok <==> old(self).holds(token),
            action is Err ==> final(self).unchanged(*old(self)),
            action matches Ok(dispatch) ==> exists|client: WebSocketClient<S>, step: Step|
                {
                    &&& WebSocketClient::writes(
                        old(self).connections()[token.0],
                        outcome,
                        client,
                        step,
                    )
                    &&& #[trigger] Self::dispatches(
                        *old(self),
                        token,
                        client,
                        step,
                        *final(self),
                        dispatch,
                    )
                },
    {
        match self.clients.remove(&token.0) {
            None => {
                assert(self.clients@ =~= old(self).clients@);
                Err(NotFound)
            },
            Some(mut client) => {
                let step = client.write(outcome);
                let ghost taken = *self;
                let dispatch = self.settle(token, client, step);
                proof {
                    Self::lemma_settled(*old(self), taken, token, client, step, *self, dispatch);
                }
                Ok(dispatch)
            },
        }
    }

    /// One operation in the life of a registry, as far as tokens go: either
    /// it hands out the next token and moves the counter by one, as
    /// `allocate` does and `accept` for a new stream, or it hands out none
    /// and leaves the counter, as every other operation does.
    pub open spec fn hands_out(before: Self, after: Self, token: Option<mio::Token>) -> bool {
        match token {
            Some(t) => t.0 == before.next_token() && after.next_token() == before.next_token() + 1,
            None => after.next_token() == before.next_token(),
        }
    }

    /// The counter never goes back along a sequence of operations.
    proof fn lemma_counter_grows(
        trace: Seq<Self>,
        handed: Seq<Option<mio::Token>>,
        from: int,
        to: int,
    )
        requires
            trace.len() == handed.len() + 1,
            forall|k: int|
                0 <= k < handed.len() ==> Self::hands_out(trace[k], trace[k + 1], #[trigger] handed[k]),
            0 <= from <= to < trace.len(),
        ensures
            trace[from].next_token() <= trace[to].next_token(),
        decreases to - from,
    {
        if from < to {
            Self::lemma_counter_grows(trace, handed, from, to - 1);
            assert(Self::hands_out(trace[to - 1], trace[to - 1 + 1], handed[to - 1]));
        }
    }

    /// Tokens come out distinct, never the listening socket's, and in
    /// strictly increasing order: along any sequence of operations on a
    /// registry, a token handed out earlier is smaller than one handed out
    /// later.
    pub proof fn lemma_tokens_increase(
        trace: Seq<Self>,
        handed: Seq<Option<mio::Token>>,
        earlier: int,
        later: int,
    )
        requires
            trace.len() == handed.len() + 1,
            trace[0].wf(),
            forall|k: int|
                0 <= k < handed.len() ==> Self::hands_out(trace[k], trace[k + 1], #[trigger] handed[k]),
            0 <= earlier < later < handed.len(),
            handed[earlier] is Some,
            handed[later] is Some,
        ensures
            handed[earlier]->Some_0.0 != SERVER_TOKEN,
            handed[later]->Some_0.0 != SERVER_TOKEN,
            handed[earlier]->Some_0.0 < handed[later]->Some_0.0,
    {
        Self::lemma_counter_grows(trace, handed, 0, earlier);
        Self::lemma_counter_grows(trace, handed, earlier + 1, later);
        assert(Self::hands_out(trace[earlier], trace[earlier + 1], handed[earlier]));
        assert(Self::hands_out(trace[later], trace[later + 1], handed[later]));
    }

    /// What is done for one connection leaves every other where it was,
    /// whether the connection stays or is given up.
    pub proof fn lemma_others_stay(
        before: Self,
        token: mio::Token,
        client: WebSocketClient<S>,
        step: Step,
        after: Self,
        action: Dispatch<S>,
        other: mio::Token,
    )
        requires
            Self::dispatches(before, token, client, step, after, action),
            other.0 != token.0,
        ensures
            after.holds(other) == before.holds(other),
            before.holds(other) ==> after.connections()[other.0] == before.connections()[other.0],
    {
    }

    /// A registration that is due after an event was handled carries the
    /// interest that the connection has after the event: `Readable` while
    /// the handshake is awaited and once it is done, `Writable` while the
    /// response is due.
    pub proof fn lemma_rearm_follows_state(
        before: Self,
        token: mio::Token,
        client: WebSocketClient<S>,
        step: Step,
        after: Self,
        action: Dispatch<S>,
    )
        requires
            client.wf(),
            Self::dispatches(before, token, client, step, after, action),
            action is Reregister,
        ensures
            after.holds(token),
            after.connections()[token.0] == client,
            action->Reregister_0.token == token,
            event_kinds(action->Reregister_0.interest) == interest_of(client.state_view()),
            !event_kinds(action->Reregister_0.interest).is_empty(),
            poll_modes(action->Reregister_0.opts) == connection_modes(),
    {
        client.lemma_interest();
    }

    /// The registration that is due for the connection under the token: its
    /// interest as it is now, edge-triggered and one-shot.
    pub fn rearm(&self, token: mio::Token) -> (due: Result<Registration, NotFound>)
        requires
            self.wf(),
        ensures
            due is Ok <==> self.holds(token),
            due matches Ok(registration) ==> {
                &&& registration.token == token
                &&& event_kinds(registration.interest) == self.connections()[token.0].interest_view()
                &&& poll_modes(registration.opts) == connection_modes()
            },
    {
        match self.clients.get(&token.0) {
            None => Err(NotFound),
            Some(client) => Ok(
                Registration { token: token, interest: client.interest(), opts: connection_opts() },
            ),
        }
    }

    /// Takes the poller's refusal to register the connection under the
    /// token: the connection leaves the registry and is handed over to be
    /// dropped. The other connections stay.
    pub fn registration_failed(&mut self, token: mio::Token) -> (action: Result<
        Dispatch<S>,
        NotFound,
    >)
        requires
            old(self).wf(),
        ensures
            final(self).wf(),
            action is Ok <==> old(self).holds(token),
            action is Err ==> final(self).unchanged(*old(self)),
            action matches Ok(dispatch) ==> Self::dispatches(
                *old(self),
                token,
                old(self).connections()[token.0],
                Step::Abandon(ConnectionError::Registration),
                *final(self),
                dispatch,
            ),
    {
        match self.clients.remove(&token.0) {
            None => {
                assert(self.clients@ =~= old(self).clients@);
                Err(NotFound)
            },
            Some(client) => Ok(Dispatch::Drop(client, ConnectionError::Registration)),
        }
    }
}

} // verus!
