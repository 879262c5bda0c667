use tunnel::models::{TunnelMessage, TunnelType, WsMessage};
use tunnel::session::{AppState, SessionStart, TcpConnect, TcpDiconnect, WsConn};

#[test]
fn start_takes_last_port_and_stop_returns_it() {
    let mut pool = vec![4000u16, 4001, 4002];
    let mut s: WsConn<u32> = WsConn::new(TunnelType::TCP);
    match s.on_started(&mut pool) {
        SessionStart::Listen(p) => assert_eq!(p, 4002),
        _ => panic!("expected a listening session"),
    }
    assert_eq!(s.port, Some(4002));
    assert_eq!(pool, vec![4000, 4001]);
    assert_eq!(s.on_stopped(&mut pool), Some(4002));
    assert_eq!(pool, vec![4000, 4001, 4002]);
}

#[test]
fn empty_pool_refuses_session() {
    let mut pool: Vec<u16> = Vec::new();
    let mut s: WsConn<u32> = WsConn::new(TunnelType::TCP);
    match s.on_started(&mut pool) {
        SessionStart::Refused(WsMessage::Error(reason)) => assert_eq!(reason, "No available port"),
        _ => panic!("expected a refusal"),
    }
    assert_eq!(s.port, None);
    assert_eq!(s.on_stopped(&mut pool), None);
    assert!(pool.is_empty());
}

#[test]
fn udp_session_reserves_port() {
    let mut pool = vec![9u16];
    let mut s: WsConn<u32> = WsConn::new(TunnelType::UDP);
    match s.on_started(&mut pool) {
        SessionStart::Reserved(p) => assert_eq!(p, 9),
        _ => panic!("expected a reserved port"),
    }
}

#[test]
fn routes_to_registered_connection_until_disconnect() {
    let mut s: WsConn<u32> = WsConn::new(TunnelType::TCP);
    s.on_tcp_connect(TcpConnect { id: "c1".to_string(), addr: 11 });
    let msg = TunnelMessage::new("c1".to_string(), vec![1]);
    assert_eq!(s.route(&msg), Some(&11));
    let other = TunnelMessage::new("c2".to_string(), vec![1]);
    assert_eq!(s.route(&other), None);
    s.on_tcp_disconnect(TcpDiconnect { id: "c1".to_string() });
    assert_eq!(s.route(&msg), None);
}

#[test]
fn udp_session_routes_nothing() {
    let mut s: WsConn<u32> = WsConn::new(TunnelType::UDP);
    s.on_tcp_connect(TcpConnect { id: "c1".to_string(), addr: 11 });
    let msg = TunnelMessage::new("c1".to_string(), vec![1]);
    assert_eq!(s.route(&msg), None);
}

#[test]
fn outgoing_wraps_message() {
    let msg = TunnelMessage::new("c1".to_string(), vec![7, 8]);
    match WsConn::<u32>::outgoing(msg) {
        WsMessage::Message(m) => {
            assert_eq!(m.connection_id, "c1");
            assert_eq!(m.data, vec![7, 8]);
        }
        _ => panic!("expected a tunnel message"),
    }
}

#[test]
fn app_state_shares_the_pool() {
    let state = AppState::new(vec![1, 2, 3]);
    let pool = state.ports().clone();
    assert_eq!(*pool.lock().unwrap(), vec![1, 2, 3]);
}

#[test]
fn interleaved_sessions_neither_lose_nor_double_ports() {
    let mut pool = vec![1u16, 2];
    let mut a: WsConn<u32> = WsConn::new(TunnelType::TCP);
    let mut b: WsConn<u32> = WsConn::new(TunnelType::TCP);
    let mut c: WsConn<u32> = WsConn::new(TunnelType::TCP);
    a.on_started(&mut pool);
    b.on_started(&mut pool);
    assert!(matches!(c.on_started(&mut pool), SessionStart::Refused(_)));
    assert_eq!((a.port, b.port, c.port), (Some(2), Some(1), None));
    assert!(pool.is_empty());
    a.on_stopped(&mut pool);
    c.on_stopped(&mut pool);
    assert_eq!(pool, vec![2]);
    b.on_stopped(&mut pool);
    let mut all = pool.clone();
    all.sort();
    assert_eq!(all, vec![1, 2]);
}
