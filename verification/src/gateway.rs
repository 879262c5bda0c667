//! The tunnel client's gateway: what it does with each event of its
//! websocket to the relay server, and the local connections it keeps.

use vstd::prelude::*;
use crate::models::{TunnelMessage, TunnelReady, TunnelType, WsMessage};
use crate::registry::ConnectionRegistry;
use crate::text::{decimal, lemma_parse_decimal, parsed_u16, u16_to_decimal};

verus! {

/// What the websocket to the relay server delivered.
pub enum GatewayEvent {
    /// A text frame carrying a message of the server.
    Server(WsMessage),
    /// A close frame, or a frame that carries no text.
    OtherFrame,
    /// Reading failed; the text describes the failure.
    ReadError(String),
    /// The websocket has ended.
    Ended,
}

/// What the gateway does next.
pub enum GatewayAction<H> {
    /// Print the message, if any, and stop the gateway.
    Shutdown { message: Option<String> },
    /// Print this line.
    Announce(String),
    /// Print the notice, open a local connection and attach it under the id.
    Open { connection_id: String, notice: String },
    /// Print the notice and stop the connection that was detached, if any.
    Close { notice: String, connection: Option<H> },
    /// Hand the bytes to the attached connection of their id.
    Deliver(TunnelMessage),
    /// Nothing to do.
    Ignore,
}

/// The line printed when the tunnel is ready.
pub open spec fn ready_notice(r: TunnelReady) -> Seq<char> {
    (match r.protocal {
        TunnelType::TCP => "tcp://"@,
        TunnelType::UDP => "udp://"@,
    }) + r.ip@ + ":"@ + decimal(r.port as nat)
}

/// The line printed when the server gives up with `reason`.
pub open spec fn error_notice(reason: Seq<char>) -> Seq<char> {
    if reason == "No available port"@ {
        "Server is full. try again later"@
    } else {
        "unknown error: "@ + reason
    }
}

/// The client end of a tunnel; `H` is the handle of a local connection.
pub struct Gateway<H> {
    connections: ConnectionRegistry<H>,
}

impl<H> Gateway<H> {
    /// The attached local connections, by connection id.
    pub closed spec fn view(self) -> Map<Seq<char>, H> {
        self.connections@
    }

    /// A gateway with no connection attached.
    pub fn new() -> (r: Self)
        ensures
            r@ == Map::<Seq<char>, H>::empty(),
    {
        Gateway { connections: ConnectionRegistry::new() }
    }

    /// Attaches the local connection opened for `connection_id`.
    pub fn attach(&mut self, connection_id: String, connection: H)
        ensures
            final(self)@ == old(self)@.insert(connection_id@, connection),
    {
        let _ = self.connections.insert(connection_id, connection);
    }

    /// The local connection attached under `connection_id`.
    pub fn connection(&self, connection_id: &String) -> (r: Option<&H>)
        ensures
            r is Some == self@.contains_key(connection_id@),
            r matches Some(h) ==> *h == self@[connection_id@],
    {
        self.connections.get(connection_id)
    }

    /// Decides what to do with one event of the websocket.
    pub fn handle(&mut self, event: GatewayEvent) -> (r: GatewayAction<H>)
        ensures
            final(self)@ == after_event(old(self)@, event),
            match event {
                GatewayEvent::Server(WsMessage::InvaildSession) => {
                    &&& r matches GatewayAction::Shutdown { message: None }
                    &&& final(self)@ == old(self)@
                },
                GatewayEvent::Server(WsMessage::Ready(info)) => {
                    &&& r matches GatewayAction::Announce(line)
                    &&& line@ == ready_notice(info)
                    &&& final(self)@ == old(self)@
                },
                GatewayEvent::Server(WsMessage::Connect(id)) => {
                    &&& r matches GatewayAction::Open { connection_id, notice }
                    &&& connection_id@ == id@
                    &&& notice@ == "connecting: "@ + id@
                    &&& final(self)@ == old(self)@
                },
                GatewayEvent::Server(WsMessage::Disconnect(id)) => {
                    &&& r matches GatewayAction::Close { notice, connection }
                    &&& notice@ == "disconnecting: "@ + id@
                    &&& connection is Some == old(self)@.contains_key(id@)
                    &&& (connection matches Some(h) ==> h == old(self)@[id@])
                    &&& final(self)@ == old(self)@.remove(id@)
                },
                GatewayEvent::Server(WsMessage::Message(m)) => {
                    &&& (delivery_target(old(self)@, m) is Some <==> r == GatewayAction::<H>::Deliver(m))
                    &&& (if old(self)@.contains_key(m.connection_id@) {
                        r == GatewayAction::<H>::Deliver(m)
                    } else {
                        r == GatewayAction::<H>::Ignore
                    })
                    &&& final(self)@ == old(self)@
                },
                GatewayEvent::Server(WsMessage::Error(reason)) => {
                    &&& r matches GatewayAction::Shutdown { message: Some(line) }
                    &&& line@ == error_notice(reason@)
                    &&& final(self)@ == old(self)@
                },
                GatewayEvent::ReadError(e) => {
                    &&& r matches GatewayAction::Shutdown { message: Some(line) }
                    &&& line@ == "Error: "@ + e@
                    &&& final(self)@ == old(self)@
                },
                GatewayEvent::Ended => {
                    &&& r matches GatewayAction::Shutdown { message: None }
                    &&& final(self)@ == old(self)@
                },
                GatewayEvent::OtherFrame => {
                    &&& r == GatewayAction::<H>::Ignore
                    &&& final(self)@ == old(self)@
                },
            },
    {
        match event {
            GatewayEvent::Server(message) => match message {
                WsMessage::InvaildSession => GatewayAction::Shutdown { message: None },
                WsMessage::Ready(info) => {
                    let mut line = match info.protocal {
                        TunnelType::TCP => String::from_str("tcp://"),
                        TunnelType::UDP => String::from_str("udp://"),
                    };
                    line.append(info.ip.as_str());
                    line.append(":");
                    let port = u16_to_decimal(info.port);
                    line.append(port.as_str());
                    GatewayAction::Announce(line)
                },
                WsMessage::Connect(id) => {
                    let mut notice = String::from_str("connecting: ");
                    notice.append(id.as_str());
                    GatewayAction::Open { connection_id: id, notice }
                },
                WsMessage::Disconnect(id) => {
                    let mut notice = String::from_str("disconnecting: ");
                    notice.append(id.as_str());
                    let connection = self.connections.remove(&id);
                    GatewayAction::Close { notice, connection }
                },
                WsMessage::Message(m) => {
                    if self.connections.contains_key(&m.connection_id) {
                        GatewayAction::Deliver(m)
                    } else {
                        GatewayAction::Ignore
                    }
                },
                WsMessage::Error(reason) => {
                    let full = String::from_str("No available port");
                    let line = if reason == full {
                        String::from_str("Server is full. try again later")
                    } else {
                        let mut line = String::from_str("unknown error: ");
                        line.append(reason.as_str());
                        line
                    };
                    GatewayAction::Shutdown { message: Some(line) }
                },
            },
            GatewayEvent::ReadError(e) => {
                let mut line = String::from_str("Error: ");
                line.append(e.as_str());
                GatewayAction::Shutdown { message: Some(line) }
            },
            GatewayEvent::Ended => GatewayAction::Shutdown { message: None },
            GatewayEvent::OtherFrame => GatewayAction::Ignore,
        }
    }
}

/// One step of the client's loop: an event handled, or a local connection
/// attached under an id.
pub enum GatewayStep<H> {
    Handle(GatewayEvent),
    Attach(String, H),
}

/// The attached connections once `event` is handled: a disconnect detaches
/// its id, and every other event leaves them alone.
pub open spec fn after_event<H>(attached: Map<Seq<char>, H>, event: GatewayEvent) -> Map<Seq<char>, H> {
    match event {
        GatewayEvent::Server(WsMessage::Disconnect(id)) => attached.remove(id@),
        _ => attached,
    }
}

/// The attached connections after one step.
pub open spec fn after_step<H>(attached: Map<Seq<char>, H>, step: GatewayStep<H>) -> Map<Seq<char>, H> {
    match step {
        GatewayStep::Handle(event) => after_event(attached, event),
        GatewayStep::Attach(id, connection) => attached.insert(id@, connection),
    }
}

/// The attached connections after `steps`, taken in order.
pub open spec fn after_steps<H>(attached: Map<Seq<char>, H>, steps: Seq<GatewayStep<H>>) -> Map<Seq<char>, H>
    decreases steps.len(),
{
    if steps.len() == 0 {
        attached
    } else {
        after_step(after_steps(attached, steps.drop_last()), steps.last())
    }
}

/// Whether a step detaches `id` or attaches another connection under it.
pub open spec fn touches<H>(step: GatewayStep<H>, id: Seq<char>) -> bool {
    match step {
        GatewayStep::Handle(GatewayEvent::Server(WsMessage::Disconnect(x))) => x@ == id,
        GatewayStep::Attach(x, _) => x@ == id,
        _ => false,
    }
}

/// The connection that handling bytes `m` hands them to, when `attached`
/// are the attached connections: the one under `m`'s id, if any.
pub open spec fn delivery_target<H>(attached: Map<Seq<char>, H>, m: TunnelMessage) -> Option<H> {
    if attached.contains_key(m.connection_id@) {
        Some(attached[m.connection_id@])
    } else {
        None
    }
}

/// Once `connection` is attached under `id`, bytes for `id` go to it, and
/// to it alone, after any run of steps none of which detaches `id` or
/// attaches another connection under it, whatever other frames come
/// between.
pub proof fn lemma_attached_receives_until_disconnect<H>(
    attached: Map<Seq<char>, H>,
    id: Seq<char>,
    connection: H,
    steps: Seq<GatewayStep<H>>,
    m: TunnelMessage,
)
    requires
        forall|i: int| 0 <= i < steps.len() ==> !touches(#[trigger] steps[i], id),
        m.connection_id@ == id,
    ensures
        after_steps(attached.insert(id, connection), steps).contains_key(id),
        after_steps(attached.insert(id, connection), steps)[id] == connection,
        delivery_target(after_steps(attached.insert(id, connection), steps), m) == Some(connection),
    decreases steps.len(),
{
    if steps.len() > 0 {
        let rest = steps.drop_last();
        assert forall|i: int| 0 <= i < rest.len() implies !touches(#[trigger] rest[i], id) by {
            assert(rest[i] == steps[i]);
        }
        lemma_attached_receives_until_disconnect(attached, id, connection, rest, m);
        assert(!touches(steps[steps.len() - 1], id));
    }
}

/// The announcement of a ready tunnel reads, for every address: the scheme
/// of its transport (`tcp://` or `udp://`), then the ip exactly as given,
/// then `:`, then the port in decimal, which reads back as the port.
pub proof fn lemma_ready_notice_reads_back(r: TunnelReady)
    ensures
        ready_notice(r).len() == 7 + r.ip@.len() + decimal(r.port as nat).len(),
        ready_notice(r)[0] == (if r.protocal == TunnelType::TCP { 't' } else { 'u' }),
        ready_notice(r).subrange(1, 6) =~= seq!['c', 'p', ':', '/', '/'] || r.protocal == TunnelType::UDP,
        ready_notice(r).subrange(1, 6) =~= seq!['d', 'p', ':', '/', '/'] || r.protocal == TunnelType::TCP,
        ready_notice(r).subrange(6, 6 + r.ip@.len() as int) == r.ip@,
        ready_notice(r)[6 + r.ip@.len() as int] == ':',
        parsed_u16(ready_notice(r).skip(7 + r.ip@.len() as int)) == Some(r.port),
{
    reveal_strlit("tcp://");
    reveal_strlit("udp://");
    reveal_strlit(":");
    lemma_parse_decimal(r.port);
    let scheme = match r.protocal {
        TunnelType::TCP => "tcp://"@,
        TunnelType::UDP => "udp://"@,
    };
    let n = ready_notice(r);
    assert(n =~= scheme + r.ip@ + seq![':'] + decimal(r.port as nat));
    assert(n.skip(7 + r.ip@.len() as int) =~= decimal(r.port as nat));
    assert(n.subrange(6, 6 + r.ip@.len() as int) =~= r.ip@);
}

} // verus!
