//! The example arithmetic server: it keeps one running value, applies each
//! client message to it, and answers the sender with the new value.
//! `MathServer::handle` is the whole decision logic of its event loop; the
//! loop itself (receiving events, sending replies) runs outside.

use vstd::prelude::*;
use futures::sync::mpsc::UnboundedSender;
use crate::address::ClientAddr;
use crate::registry::ClientRegistry;
use crate::server::ServerInboundEvent;

verus! {

/// What a client asks of the arithmetic server.
#[derive(Clone, Copy, Debug, PartialEq, Eq, Structural)]
pub enum MathToServerEvent {
    /// Report the value.
    Get,
    /// Add to the value.
    Add(u32),
    /// Subtract from the value.
    Sub(u32),
    /// Multiply the value.
    Mul(u32),
    /// Divide the value, rounding down.
    Div(u32),
}

/// What the arithmetic server answers.
#[derive(Clone, Copy, Debug, PartialEq, Eq, Structural)]
pub enum MathToClientEvent {
    /// The value after the client's request.
    Val(u32),
}

/// The event type of the arithmetic server's loop; `SOE` is the form in
/// which replies travel to the clients' connections.
pub type MathInboundEvent<SOE> = ServerInboundEvent<MathToServerEvent, SOE>;

/// The value that `op` makes of `value`, as an exact integer.
pub open spec fn op_result(op: MathToServerEvent, value: int) -> int {
    match op {
        MathToServerEvent::Get => value,
        MathToServerEvent::Add(n) => value + n,
        MathToServerEvent::Sub(n) => value - n,
        MathToServerEvent::Mul(n) => value * n,
        MathToServerEvent::Div(n) => value / (n as int),
    }
}

/// `op` can be applied to `value` without leaving `u32` or dividing by zero
/// (elsewhere the arithmetic panics).
pub open spec fn op_defined(op: MathToServerEvent, value: u32) -> bool {
    match op {
        MathToServerEvent::Div(n) => n != 0,
        _ => 0 <= op_result(op, value as int) <= u32::MAX,
    }
}

impl MathToServerEvent {
    /// Whether this request can be applied to `value`.
    pub fn defined_at(&self, value: u32) -> (ok: bool)
        ensures
            ok == op_defined(*self, value),
    {
        match *self {
            MathToServerEvent::Get => true,
            MathToServerEvent::Add(n) => value.checked_add(n).is_some(),
            MathToServerEvent::Sub(n) => n <= value,
            MathToServerEvent::Mul(n) => value.checked_mul(n).is_some(),
            MathToServerEvent::Div(n) => n != 0,
        }
    }

    /// The value that this request makes of `value`.
    pub fn apply_to(&self, value: u32) -> (result: u32)
        requires
            op_defined(*self, value),
        ensures
            result == op_result(*self, value as int),
    {
        match *self {
            MathToServerEvent::Get => value,
            MathToServerEvent::Add(n) => value + n,
            MathToServerEvent::Sub(n) => value - n,
            MathToServerEvent::Mul(n) => value * n,
            MathToServerEvent::Div(n) => value / n,
        }
    }
}

/// What the loop does after an event.
#[derive(Clone, Copy, Debug, PartialEq, Eq, Structural)]
pub enum MathAction {
    /// A client was registered; carry on.
    Registered { address: ClientAddr },
    /// A client was unregistered; carry on.
    Forgotten { address: ClientAddr },
    /// Send `Val(value)` to the client at `address`; carry on.
    Reply { address: ClientAddr, value: u32 },
    /// The message came from an address with no registered client: nobody
    /// is answered; carry on.
    UnknownClient { address: ClientAddr, value: u32 },
    /// The server could not listen: leave the loop.
    BindFailed { address: ClientAddr },
    /// The server stopped: leave the loop.
    Finished { address: ClientAddr },
}

impl MathAction {
    /// Whether the loop ends after this action.
    pub open spec fn ends_loop(self) -> bool {
        self is BindFailed || self is Finished
    }

    /// Whether the loop ends after this action.
    pub fn stops(&self) -> (stop: bool)
        ensures
            stop == self.ends_loop(),
    {
        match self {
            MathAction::BindFailed { .. } | MathAction::Finished { .. } => true,
            _ => false,
        }
    }
}

/// The server can take `event` when its running value is `value`.
pub open spec fn step_defined<SOE>(value: u32, event: MathInboundEvent<SOE>) -> bool {
    match event {
        ServerInboundEvent::ClientMessage { event: op, .. } => op_defined(op, value),
        _ => true,
    }
}

/// The server's rules: from the running value and the registered clients,
/// an event gives the next value, the next registered clients and the
/// action for the loop.
pub open spec fn math_step<SOE>(
    value: u32,
    clients: Map<ClientAddr, UnboundedSender<SOE>>,
    event: MathInboundEvent<SOE>,
) -> (u32, Map<ClientAddr, UnboundedSender<SOE>>, MathAction) {
    match event {
        ServerInboundEvent::ClientConnected { address, client_sender } => (
            value,
            clients.insert(address, client_sender),
            MathAction::Registered { address },
        ),
        ServerInboundEvent::ClientMessage { address, event: op } => {
            let next = op_result(op, value as int) as u32;
            (
                next,
                clients,
                if clients.contains_key(address) {
                    MathAction::Reply { address, value: next }
                } else {
                    MathAction::UnknownClient { address, value: next }
                },
            )
        },
        ServerInboundEvent::ClientDisconnected { address } => (
            value,
            clients.remove(address),
            MathAction::Forgotten { address },
        ),
        ServerInboundEvent::FailureToBind { address } => (
            value,
            clients,
            MathAction::BindFailed { address },
        ),
        ServerInboundEvent::ServerFinished { address } => (
            value,
            clients,
            MathAction::Finished { address },
        ),
    }
}


/// The loop ends after exactly two actions: a bind failure and the end of
/// the server; after registering, forgetting, replying or ignoring a
/// message it carries on.
pub proof fn lemma_loop_ends_only_on_bind_failure_or_finish(action: MathAction)
    ensures
        action.ends_loop() <==> (action matches MathAction::BindFailed { .. } || action matches MathAction::Finished { .. }),
        action matches MathAction::Reply { .. } ==> !action.ends_loop(),
        action matches MathAction::UnknownClient { .. } ==> !action.ends_loop(),
        action matches MathAction::Registered { .. } ==> !action.ends_loop(),
        action matches MathAction::Forgotten { .. } ==> !action.ends_loop(),
{
}

/// What each request does to the value, in plain arithmetic: `Get` keeps
/// it, `Add(n)` and `Sub(n)` move it up or down by exactly `n`, `Mul(n)`
/// scales it by `n`, and `Div(n)` rounds the quotient down, for every value
/// (not only for multiples of `n`).
pub proof fn lemma_request_arithmetic(op: MathToServerEvent, value: u32)
    ensures
        op is Get ==> op_result(op, value as int) == value,
        op matches MathToServerEvent::Add(n) ==> op_result(op, value as int) - n == value,
        op matches MathToServerEvent::Sub(n) ==> op_result(op, value as int) + n == value,
        op matches MathToServerEvent::Mul(n) ==> op_result(op, value as int) == (value as int)
            * (n as int),
        op matches MathToServerEvent::Div(n) ==> (n != 0 ==> {
            let q = op_result(op, value as int);
            &&& 0 <= q
            &&& q * (n as int) <= value as int
            &&& (value as int) < (q + 1) * (n as int)
        }),
{
    if let MathToServerEvent::Div(n) = op {
        if n != 0 {
            let q = (value as int) / (n as int);
            assert(0 <= q && q * (n as int) <= value as int && (value as int) < (q + 1) * (n as int))
                by (nonlinear_arith)
                requires
                    n > 0,
                    value >= 0,
                    q == (value as int) / (n as int),
            ;
        }
    }
}

/// A request can be taken exactly when its arithmetic neither leaves `u32`
/// nor divides by zero: any non-zero divisor is fine, remainder or not.
pub proof fn lemma_request_defined_exactly(op: MathToServerEvent, value: u32)
    ensures
        op is Get ==> op_defined(op, value),
        op matches MathToServerEvent::Add(n) ==> (op_defined(op, value) <==> value + n
            <= u32::MAX),
        op matches MathToServerEvent::Sub(n) ==> (op_defined(op, value) <==> n <= value),
        op matches MathToServerEvent::Mul(n) ==> (op_defined(op, value) <==> (value as int) * (
        n as int) <= u32::MAX),
        op matches MathToServerEvent::Div(n) ==> (op_defined(op, value) <==> n != 0),
{
    if let MathToServerEvent::Mul(n) = op {
        assert(0 <= (value as int) * (n as int)) by (nonlinear_arith)
            requires
                value >= 0,
                n >= 0,
        ;
    }
}

/// Only a client message can be refused, and only when its request cannot
/// be applied to the value; connections, disconnections, bind failures and
/// the end of the server are always taken.
pub proof fn lemma_only_undefined_requests_are_refused<SOE>(value: u32, event: MathInboundEvent<SOE>)
    ensures
        !(event is ClientMessage) ==> step_defined(value, event),
        event matches ServerInboundEvent::ClientMessage { event: op, .. } ==> (step_defined(
            value,
            event,
        ) <==> op_defined(op, value)),
{
}

/// A connection registers the connecting client on its channel and touches
/// no other client: every other address is registered, with the same
/// channel, exactly when it was before. The value is unchanged.
pub proof fn lemma_connect_touches_only_its_address<SOE>(
    value: u32,
    clients: Map<ClientAddr, UnboundedSender<SOE>>,
    address: ClientAddr,
    sender: UnboundedSender<SOE>,
)
    ensures
        ({
            let next = math_step(
                value,
                clients,
                ServerInboundEvent::ClientConnected { address, client_sender: sender },
            );
            &&& next.0 == value
            &&& next.1.contains_key(address)
            &&& next.1[address] == sender
            &&& forall|other: ClientAddr|
                other != address ==> (#[trigger] next.1.contains_key(other)
                    <==> clients.contains_key(other))
            &&& forall|other: ClientAddr|
                other != address && clients.contains_key(other) ==> #[trigger] next.1[other]
                    == clients[other]
        }),
{
}

/// A disconnection forgets the disconnecting client and touches no other
/// client: every other address is registered, with the same channel,
/// exactly when it was before. The value is unchanged.
pub proof fn lemma_disconnect_touches_only_its_address<SOE>(
    value: u32,
    clients: Map<ClientAddr, UnboundedSender<SOE>>,
    address: ClientAddr,
)
    ensures
        ({
            let next = math_step(value, clients, ServerInboundEvent::ClientDisconnected { address });
            &&& next.0 == value
            &&& !next.1.contains_key(address)
            &&& forall|other: ClientAddr|
                other != address ==> (#[trigger] next.1.contains_key(other)
                    <==> clients.contains_key(other))
            &&& forall|other: ClientAddr|
                other != address && clients.contains_key(other) ==> #[trigger] next.1[other]
                    == clients[other]
        }),
{
}

/// A message is answered exactly when its sender is registered, and the
/// answer carries the value after the request.
pub proof fn lemma_answered_exactly_when_registered<SOE>(
    value: u32,
    clients: Map<ClientAddr, UnboundedSender<SOE>>,
    address: ClientAddr,
    op: MathToServerEvent,
)
    ensures
        ({
            let next = math_step(value, clients, ServerInboundEvent::ClientMessage { address, event: op });
            &&& clients.contains_key(address) ==> next.2 == MathAction::Reply { address, value: next.0 }
            &&& !clients.contains_key(address) ==> next.2 == MathAction::UnknownClient {
                address,
                value: next.0,
            }
        }),
{
}

/// With two clients connected one after the other at different addresses,
/// the first is still answered, on its own channel; and when the second
/// disconnects, the first is still answered.
pub proof fn lemma_clients_are_independent<SOE>(
    value: u32,
    clients: Map<ClientAddr, UnboundedSender<SOE>>,
    first: ClientAddr,
    first_sender: UnboundedSender<SOE>,
    second: ClientAddr,
    second_sender: UnboundedSender<SOE>,
    op: MathToServerEvent,
)
    requires
        first != second,
        op_defined(op, value),
    ensures
        ({
            let s1 = math_step(
                value,
                clients,
                ServerInboundEvent::ClientConnected { address: first, client_sender: first_sender },
            );
            let s2 = math_step(
                s1.0,
                s1.1,
                ServerInboundEvent::ClientConnected { address: second, client_sender: second_sender },
            );
            let s3 = math_step(s2.0, s2.1, ServerInboundEvent::ClientDisconnected { address: second });
            let m2 = math_step(s2.0, s2.1, ServerInboundEvent::ClientMessage { address: first, event: op });
            let m3 = math_step(s3.0, s3.1, ServerInboundEvent::ClientMessage { address: first, event: op });
            &&& m2.2 is Reply
            &&& m2.1[first] == first_sender
            &&& m3.2 is Reply
            &&& m3.1[first] == first_sender
        }),
{
    lemma_connect_touches_only_its_address(
        value,
        clients,
        first,
        first_sender,
    );
    let s1 = math_step(
        value,
        clients,
        ServerInboundEvent::ClientConnected { address: first, client_sender: first_sender },
    );
    lemma_connect_touches_only_its_address(s1.0, s1.1, second, second_sender);
    let s2 = math_step(
        s1.0,
        s1.1,
        ServerInboundEvent::ClientConnected { address: second, client_sender: second_sender },
    );
    assert(s2.1.contains_key(first) && s2.1[first] == first_sender);
    lemma_disconnect_touches_only_its_address(s2.0, s2.1, second);
    let s3 = math_step(s2.0, s2.1, ServerInboundEvent::ClientDisconnected { address: second });
    assert(s3.1.contains_key(first) && s3.1[first] == first_sender);
    lemma_answered_exactly_when_registered(s2.0, s2.1, first, op);
    lemma_answered_exactly_when_registered(s3.0, s3.1, first, op);
}

/// A client that connected is answered, on the channel it connected with,
/// with the value its request produced.
pub proof fn lemma_connected_client_is_answered<SOE>(
    value: u32,
    clients: Map<ClientAddr, UnboundedSender<SOE>>,
    address: ClientAddr,
    sender: UnboundedSender<SOE>,
    op: MathToServerEvent,
)
    requires
        op_defined(op, value),
    ensures
        ({
            let connected = math_step(
                value,
                clients,
                ServerInboundEvent::ClientConnected { address, client_sender: sender },
            );
            let answered = math_step(
                connected.0,
                connected.1,
                ServerInboundEvent::ClientMessage { address, event: op },
            );
            &&& answered.2 == MathAction::Reply { address, value: op_result(op, value as int) as u32 }
            &&& answered.1.contains_key(address)
            &&& answered.1[address] == sender
        }),
{
}

/// Once a client disconnected, its messages are still applied to the value
/// but nobody is answered.
pub proof fn lemma_disconnected_client_is_not_answered<SOE>(
    value: u32,
    clients: Map<ClientAddr, UnboundedSender<SOE>>,
    address: ClientAddr,
    op: MathToServerEvent,
)
    requires
        op_defined(op, value),
    ensures
        ({
            let gone = math_step(value, clients, ServerInboundEvent::ClientDisconnected { address });
            let after = math_step(
                gone.0,
                gone.1,
                ServerInboundEvent::ClientMessage { address, event: op },
            );
            &&& after.0 == op_result(op, value as int)
            &&& after.2 == MathAction::UnknownClient { address, value: after.0 }
        }),
{
}

/// Messages change the value and never the clients; every other event
/// changes the clients at most and never the value.
pub proof fn lemma_value_and_clients_move_separately<SOE>(
    value: u32,
    clients: Map<ClientAddr, UnboundedSender<SOE>>,
    event: MathInboundEvent<SOE>,
)
    requires
        step_defined(value, event),
    ensures
        event is ClientMessage ==> math_step(value, clients, event).1 == clients,
        !(event is ClientMessage) ==> math_step(value, clients, event).0 == value,
        event is FailureToBind || event is ServerFinished ==> math_step(value, clients, event).1
            == clients && math_step(value, clients, event).2.ends_loop(),
        !(event is FailureToBind || event is ServerFinished) ==> !math_step(
            value,
            clients,
            event,
        ).2.ends_loop(),
{
}

/// Adding `n` and then subtracting `n` gives the value back.
pub proof fn lemma_add_then_sub_restores(value: u32, n: u32)
    requires
        op_defined(MathToServerEvent::Add(n), value),
    ensures
        op_defined(MathToServerEvent::Sub(n), op_result(MathToServerEvent::Add(n), value as int) as u32),
        op_result(
            MathToServerEvent::Sub(n),
            op_result(MathToServerEvent::Add(n), value as int),
        ) == value,
{
}

/// Multiplying by a non-zero `n` and then dividing by `n` gives the value back.
pub proof fn lemma_mul_then_div_restores(value: u32, n: u32)
    requires
        n != 0,
        op_defined(MathToServerEvent::Mul(n), value),
    ensures
        op_result(
            MathToServerEvent::Div(n),
            op_result(MathToServerEvent::Mul(n), value as int),
        ) == value,
{
    assert((value as int * n as int) / (n as int) == value as int) by (nonlinear_arith)
        requires
            n != 0,
            value >= 0,
    ;
}

/// A `Get` leaves the value as it is.
pub proof fn lemma_get_keeps_value(value: u32)
    ensures
        op_defined(MathToServerEvent::Get, value),
        op_result(MathToServerEvent::Get, value as int) == value,
{
}

/// The arithmetic server's state: the running value and its clients, each
/// with the channel on which its replies (of type `SOE`) are sent.
#[verifier::reject_recursive_types(SOE)]
pub struct MathServer<SOE> {
    value: u32,
    clients: ClientRegistry<UnboundedSender<SOE>>,
}

impl<SOE> MathServer<SOE> {
    /// The server's invariant.
    pub closed spec fn wf(&self) -> bool {
        self.clients.wf()
    }

    /// The running value.
    pub closed spec fn current(&self) -> u32 {
        self.value
    }

    /// The registered clients and their reply channels.
    pub closed spec fn connected(&self) -> Map<ClientAddr, UnboundedSender<SOE>> {
        self.clients@
    }

    /// A server whose value is 0 and that has no clients.
    pub fn new() -> (server: Self)
        ensures
            server.wf(),
            server.current() == 0,
            server.connected() == Map::<ClientAddr, UnboundedSender<SOE>>::empty(),
    {
        MathServer { value: 0, clients: ClientRegistry::new() }
    }

    /// The running value.
    pub fn value(&self) -> (value: u32)
        ensures
            value == self.current(),
    {
        self.value
    }

    /// Whether `handle` can take `event` (elsewhere the arithmetic panics).
    pub fn accepts(&self, event: &MathInboundEvent<SOE>) -> (ok: bool)
        ensures
            ok == step_defined(self.current(), *event),
    {
        match event {
            ServerInboundEvent::ClientMessage { event: op, .. } => op.defined_at(self.value),
            _ => true,
        }
    }

    /// Takes one event of the loop: registers or unregisters a client,
    /// applies a client's request to the value, or ends the loop; says what
    /// the loop does next.
    pub fn handle(&mut self, event: MathInboundEvent<SOE>) -> (action: MathAction)
        requires
            old(self).wf(),
            step_defined(old(self).current(), event),
        ensures
            final(self).wf(),
            final(self).current() == math_step(old(self).current(), old(self).connected(), event).0,
            final(self).connected() == math_step(old(self).current(), old(self).connected(), event).1,
            action == math_step(old(self).current(), old(self).connected(), event).2,
    {
        match event {
            ServerInboundEvent::ClientConnected { address, client_sender } => {
                let _ = self.clients.insert(address, client_sender);
                MathAction::Registered { address }
            },
            ServerInboundEvent::ClientMessage { address, event: op } => {
                self.value = op.apply_to(self.value);
                if self.clients.get(&address).is_some() {
                    MathAction::Reply { address, value: self.value }
                } else {
                    MathAction::UnknownClient { address, value: self.value }
                }
            },
            ServerInboundEvent::ClientDisconnected { address } => {
                let _ = self.clients.remove(&address);
                MathAction::Forgotten { address }
            },
            ServerInboundEvent::FailureToBind { address } => MathAction::BindFailed { address },
            ServerInboundEvent::ServerFinished { address } => MathAction::Finished { address },
        }
    }

    /// The reply channel registered for `address`, if any.
    pub fn sender_for(&self, address: &ClientAddr) -> (found: Option<&UnboundedSender<SOE>>)
        requires
            self.wf(),
        ensures
            match found {
                Some(sender) => self.connected().contains_key(*address) && *sender
                    == self.connected()[*address],
                None => !self.connected().contains_key(*address),
            },
    {
        self.clients.get(address)
    }
}

} // verus!
