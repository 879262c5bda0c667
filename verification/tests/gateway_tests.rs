use tunnel::gateway::{Gateway, GatewayAction, GatewayEvent};
use tunnel::models::{TunnelMessage, TunnelReady, TunnelType, WsMessage};

fn shutdown_message(a: GatewayAction<u32>) -> Option<String> {
    match a {
        GatewayAction::Shutdown { message } => message,
        _ => panic!("expected a shutdown"),
    }
}

#[test]
fn ready_announces_public_address() {
    let mut g: Gateway<u32> = Gateway::new();
    let ready = TunnelReady { protocal: TunnelType::TCP, ip: "1.2.3.4".to_string(), port: 30001 };
    match g.handle(GatewayEvent::Server(WsMessage::Ready(ready))) {
        GatewayAction::Announce(line) => assert_eq!(line, "tcp://1.2.3.4:30001"),
        _ => panic!("expected an announcement"),
    }
    let ready = TunnelReady { protocal: TunnelType::UDP, ip: "h".to_string(), port: 5 };
    match g.handle(GatewayEvent::Server(WsMessage::Ready(ready))) {
        GatewayAction::Announce(line) => assert_eq!(line, "udp://h:5"),
        _ => panic!("expected an announcement"),
    }
}

#[test]
fn connect_then_message_then_disconnect() {
    let mut g: Gateway<u32> = Gateway::new();
    match g.handle(GatewayEvent::Server(WsMessage::Connect("c1".to_string()))) {
        GatewayAction::Open { connection_id, notice } => {
            assert_eq!(connection_id, "c1");
            assert_eq!(notice, "connecting: c1");
            g.attach(connection_id, 42);
        }
        _ => panic!("expected an open"),
    }
    assert_eq!(g.connection(&"c1".to_string()), Some(&42));
    match g.handle(GatewayEvent::Server(WsMessage::Message(TunnelMessage::new("c1".to_string(), vec![9])))) {
        GatewayAction::Deliver(m) => assert_eq!(m.data, vec![9]),
        _ => panic!("expected a delivery"),
    }
    match g.handle(GatewayEvent::Server(WsMessage::Disconnect("c1".to_string()))) {
        GatewayAction::Close { notice, connection } => {
            assert_eq!(notice, "disconnecting: c1");
            assert_eq!(connection, Some(42));
        }
        _ => panic!("expected a close"),
    }
    assert!(matches!(
        g.handle(GatewayEvent::Server(WsMessage::Message(TunnelMessage::new("c1".to_string(), vec![9])))),
        GatewayAction::Ignore
    ));
    match g.handle(GatewayEvent::Server(WsMessage::Disconnect("c1".to_string()))) {
        GatewayAction::Close { connection, .. } => assert_eq!(connection, None),
        _ => panic!("expected a close"),
    }
}

#[test]
fn errors_stop_the_gateway() {
    let mut g: Gateway<u32> = Gateway::new();
    let full = g.handle(GatewayEvent::Server(WsMessage::Error("No available port".to_string())));
    assert_eq!(shutdown_message(full), Some("Server is full. try again later".to_string()));
    let other = g.handle(GatewayEvent::Server(WsMessage::Error("boom".to_string())));
    assert_eq!(shutdown_message(other), Some("unknown error: boom".to_string()));
    let read = g.handle(GatewayEvent::ReadError("reset".to_string()));
    assert_eq!(shutdown_message(read), Some("Error: reset".to_string()));
    assert_eq!(shutdown_message(g.handle(GatewayEvent::Ended)), None);
    assert_eq!(shutdown_message(g.handle(GatewayEvent::Server(WsMessage::InvaildSession))), None);
}

#[test]
fn other_frames_are_ignored() {
    let mut g: Gateway<u32> = Gateway::new();
    assert!(matches!(g.handle(GatewayEvent::OtherFrame), GatewayAction::Ignore));
}
