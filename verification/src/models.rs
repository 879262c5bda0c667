use vstd::prelude::*;

verus! {

/// The transport that a tunnel carries.
#[derive(PartialEq, Eq, Structural)]
pub enum TunnelType {
    TCP,
    UDP,
}

/// A chunk of bytes read from (or to be written to) one tunnelled
/// connection, tagged with the id of that connection.
pub struct TunnelMessage {
    pub connection_id: String,
    pub data: Vec<u8>,
}

impl TunnelMessage {
    /// Tags `data` with `connection_id`.
    pub fn new(connection_id: String, data: Vec<u8>) -> (m: Self)
        ensures
            m.connection_id@ == connection_id@,
            m.data@ == data@,
    {
        Self { connection_id, data }
    }
}

/// What the relay server tells a client once its tunnel is open: the
/// transport and the public address that now reaches the client.
pub struct TunnelReady {
    pub protocal: TunnelType,
    pub ip: String,
    pub port: u16,
}

/// The messages exchanged over the websocket between the relay server and
/// a tunnel client.
pub enum WsMessage {
    /// The server does not know the client's session.
    InvaildSession,
    /// The tunnel is open.
    Ready(TunnelReady),
    /// A new connection with this id arrived at the public side.
    Connect(String),
    /// The connection with this id is gone.
    Disconnect(String),
    /// Bytes of one tunnelled connection.
    Message(TunnelMessage),
    /// The server gives up, with a reason.
    Error(String),
}

} // verus!
