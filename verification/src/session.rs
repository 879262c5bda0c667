//! The relay server's side of one websocket session: the tunnel port it
//! takes from the shared pool, and the public TCP connections it relays.

use vstd::prelude::*;
use vstd::multiset::Multiset;
use std::sync::{Arc, Mutex};
use crate::models::{TunnelMessage, TunnelType, WsMessage};
use crate::registry::ConnectionRegistry;

verus! {

#[verifier::external_type_specification]
#[verifier::external_body]
#[verifier::reject_recursive_types(T)]
pub struct ExMutex<T: ?Sized>(Mutex<T>);

/// The vector a mutex was created holding. This is fixed once the mutex
/// exists; what the mutex holds later, as sessions lock it and take or
/// return ports, is not named.
pub uninterp spec fn made_with(m: Mutex<Vec<u16>>) -> Seq<u16>;

/// Calls `Mutex::new`, which creates a mutex holding `ports`. Only that
/// creation is stated; nothing is said of its contents afterwards.
#[verifier::external_body]
fn new_mutex(ports: Vec<u16>) -> (m: Mutex<Vec<u16>>)
    ensures
        made_with(m) == ports@,
{
    Mutex::new(ports)
}

/// State shared by every session of the relay server: the pool of free
/// tunnel ports.
pub struct AppState {
    ports: Arc<Mutex<Vec<u16>>>,
}

impl AppState {
    /// Opens the pool of free tunnel ports, shared by every session: a mutex
    /// behind an `Arc`, created holding exactly `ports`, in order.
    pub fn new(ports: Vec<u16>) -> (r: Self)
        ensures
            made_with(*r.pool()) == ports@,
    {
        AppState { ports: Arc::new(new_mutex(ports)) }
    }

    /// The handle of the shared pool.
    pub closed spec fn pool(self) -> Arc<Mutex<Vec<u16>>> {
        self.ports
    }

    /// The shared pool.
    pub fn ports(&self) -> (r: &Arc<Mutex<Vec<u16>>>)
        ensures
            *r == self.pool(),
    {
        &self.ports
    }
}

/// The port a session takes from a pool holding `pool`: the last one.
pub open spec fn taken_port(pool: Seq<u16>) -> Option<u16> {
    if pool.len() == 0 {
        None
    } else {
        Some(pool.last())
    }
}

/// The pool once a session has taken its port.
pub open spec fn pool_after_take(pool: Seq<u16>) -> Seq<u16> {
    if pool.len() == 0 {
        pool
    } else {
        pool.drop_last()
    }
}

/// The pool once a session holding `port` has given it back.
pub open spec fn pool_after_release(pool: Seq<u16>, port: Option<u16>) -> Seq<u16> {
    match port {
        Some(p) => pool.push(p),
        None => pool,
    }
}

/// The reason sent to a client when the pool is empty.
pub open spec fn no_port_reason() -> Seq<char> {
    "No available port"@
}

/// What a session does once it has started.
pub enum SessionStart {
    /// No port was free: send this message and close the websocket.
    Refused(WsMessage),
    /// Serve public TCP connections on this port.
    Listen(u16),
    /// The port is held, and nothing serves it.
    Reserved(u16),
}

/// A public TCP connection of the session has opened.
pub struct TcpConnect<H> {
    pub id: String,
    pub addr: H,
}

/// A public TCP connection of the session has closed.
pub struct TcpDiconnect {
    pub id: String,
}

/// One websocket session of the relay server; `H` is the handle of a
/// public TCP connection.
pub struct WsConn<H> {
    pub tunnel_type: TunnelType,
    pub port: Option<u16>,
    pub tcp_connections: ConnectionRegistry<H>,
}

impl<H> WsConn<H> {
    /// A session that holds no port and no connection yet.
    pub fn new(tunnel_type: TunnelType) -> (r: Self)
        ensures
            r.tunnel_type == tunnel_type,
            r.port is None,
            r.tcp_connections@ == Map::<Seq<char>, H>::empty(),
    {
        WsConn { tunnel_type, port: None, tcp_connections: ConnectionRegistry::new() }
    }

    /// Takes a port from `pool` (the last one) when the session starts.
    /// With an empty pool the session is refused and keeps no port.
    pub fn on_started(&mut self, pool: &mut Vec<u16>) -> (r: SessionStart)
        ensures
            final(pool)@ == pool_after_take(old(pool)@),
            final(self).tunnel_type == old(self).tunnel_type,
            final(self).tcp_connections@ == old(self).tcp_connections@,
            match taken_port(old(pool)@) {
                None => {
                    &&& final(self).port == old(self).port
                    &&& r matches SessionStart::Refused(WsMessage::Error(reason))
                    &&& reason@ == no_port_reason()
                },
                Some(p) => {
                    &&& final(self).port == Some(p)
                    &&& (old(self).tunnel_type == TunnelType::TCP ==> r == SessionStart::Listen(p))
                    &&& (old(self).tunnel_type == TunnelType::UDP ==> r == SessionStart::Reserved(p))
                },
            },
    {
        match pool.pop() {
            None => {
                let reason = String::from_str("No available port");
                SessionStart::Refused(WsMessage::Error(reason))
            },
            Some(port) => {
                self.port = Some(port);
                match self.tunnel_type {
                    TunnelType::TCP => SessionStart::Listen(port),
                    TunnelType::UDP => SessionStart::Reserved(port),
                }
            },
        }
    }

    /// Gives the session's port, if it holds one, back to `pool` when the
    /// session stops; returns that port.
    pub fn on_stopped(&mut self, pool: &mut Vec<u16>) -> (r: Option<u16>)
        ensures
            r == old(self).port,
            final(pool)@ == pool_after_release(old(pool)@, old(self).port),
            final(self).port == old(self).port,
            final(self).tunnel_type == old(self).tunnel_type,
            final(self).tcp_connections@ == old(self).tcp_connections@,
    {
        match self.port {
            Some(port) => {
                pool.push(port);
                Some(port)
            },
            None => None,
        }
    }

    /// Registers a public TCP connection under its id.
    pub fn on_tcp_connect(&mut self, msg: TcpConnect<H>)
        ensures
            final(self).tcp_connections@ == old(self).tcp_connections@.insert(msg.id@, msg.addr),
            final(self).port == old(self).port,
            final(self).tunnel_type == old(self).tunnel_type,
    {
        let _ = self.tcp_connections.insert(msg.id, msg.addr);
    }

    /// Forgets a public TCP connection.
    pub fn on_tcp_disconnect(&mut self, msg: TcpDiconnect)
        ensures
            final(self).tcp_connections@ == old(self).tcp_connections@.remove(msg.id@),
            final(self).port == old(self).port,
            final(self).tunnel_type == old(self).tunnel_type,
    {
        let _ = self.tcp_connections.remove(&msg.id);
    }

    /// The public connection that bytes sent by the client go to: the one
    /// registered under the message's id, on a TCP tunnel; none otherwise.
    pub fn route(&self, msg: &TunnelMessage) -> (r: Option<&H>)
        ensures
            r is Some == (self.tunnel_type == TunnelType::TCP
                && self.tcp_connections@.contains_key(msg.connection_id@)),
            r matches Some(h) ==> *h == self.tcp_connections@[msg.connection_id@],
    {
        match self.tunnel_type {
            TunnelType::TCP => self.tcp_connections.get(&msg.connection_id),
            TunnelType::UDP => None,
        }
    }

    /// The websocket message that carries bytes read from a public
    /// connection to the client.
    pub fn outgoing(msg: TunnelMessage) -> (r: WsMessage)
        ensures
            r == WsMessage::Message(msg),
    {
        WsMessage::Message(msg)
    }
}

/// Whether no port occurs twice in a pool.
pub open spec fn no_port_twice(pool: Seq<u16>) -> bool {
    forall|i: int, j: int| 0 <= i < pool.len() && 0 <= j < pool.len() && i != j ==> #[trigger] pool[i]
        != #[trigger] pool[j]
}

/// A session that starts holding no port and then stops leaves the pool as
/// it found it, whether it got a port or was refused.
pub proof fn lemma_start_stop_restores_pool(pool: Seq<u16>)
    ensures
        pool_after_release(pool_after_take(pool), taken_port(pool)) == pool,
{
    if pool.len() > 0 {
        assert(pool.drop_last().push(pool.last()) =~= pool);
    }
}

/// Taking a port keeps every port of the pool distinct, and the port taken
/// is no longer in the pool, so no other session can take it too.
pub proof fn lemma_take_keeps_ports_distinct(pool: Seq<u16>)
    requires
        no_port_twice(pool),
    ensures
        no_port_twice(pool_after_take(pool)),
        taken_port(pool) matches Some(p) ==> !pool_after_take(pool).contains(p),
        forall|q: u16| pool_after_take(pool).contains(q) ==> pool.contains(q),
{
    if pool.len() > 0 {
        let rest = pool.drop_last();
        assert forall|q: u16| rest.contains(q) implies pool.contains(q) by {
            let i = choose|i: int| 0 <= i < rest.len() && rest[i] == q;
            assert(pool[i] == q);
        }
        if rest.contains(pool.last()) {
            let i = choose|i: int| 0 <= i < rest.len() && rest[i] == pool.last();
            assert(pool[i] == pool[pool.len() - 1]);
        }
    }
}

/// Giving back a port that is not in the pool keeps every port of the
/// pool distinct.
pub proof fn lemma_release_keeps_ports_distinct(pool: Seq<u16>, port: u16)
    requires
        no_port_twice(pool),
        !pool.contains(port),
    ensures
        no_port_twice(pool_after_release(pool, Some(port))),
{
    let after = pool.push(port);
    assert forall|i: int, j: int| 0 <= i < after.len() && 0 <= j < after.len() && i != j implies #[trigger] after[i]
        != #[trigger] after[j] by {
        if i < pool.len() && j < pool.len() {
        } else if i < pool.len() {
            assert(after[i] == pool[i]);
        } else {
            assert(after[j] == pool[j]);
        }
    }
}

/// Where one session of the relay server stands in its life.
pub enum SessionPhase {
    /// Created, not started yet.
    Fresh,
    /// Started, holding this port (none when it was refused).
    Live(Option<u16>),
    /// Stopped; it gave its port back.
    Stopped,
}

/// A start or a stop of the session with this index, among sessions that
/// share one pool.
pub enum PoolStep {
    Start(usize),
    Stop(usize),
}

/// The ports that a session in `phase` holds.
pub open spec fn phase_ports(phase: SessionPhase) -> Multiset<u16> {
    match phase {
        SessionPhase::Live(Some(p)) => Multiset::singleton(p),
        _ => Multiset::empty(),
    }
}

/// The ports held by the live sessions among `phases`.
pub open spec fn held_ports(phases: Seq<SessionPhase>) -> Multiset<u16>
    decreases phases.len(),
{
    if phases.len() == 0 {
        Multiset::empty()
    } else {
        held_ports(phases.drop_last()).add(phase_ports(phases.last()))
    }
}

/// The pool and the sessions' phases after one step, as `on_started` and
/// `on_stopped` change them: a fresh session that starts takes
/// `taken_port` and leaves `pool_after_take`; a live session that stops
/// leaves `pool_after_release`. A step that does not apply changes nothing.
pub open spec fn pool_step(pool: Seq<u16>, phases: Seq<SessionPhase>, step: PoolStep) -> (Seq<u16>, Seq<SessionPhase>) {
    match step {
        PoolStep::Start(i) => if i < phases.len() && phases[i as int] is Fresh {
            (pool_after_take(pool), phases.update(i as int, SessionPhase::Live(taken_port(pool))))
        } else {
            (pool, phases)
        },
        PoolStep::Stop(i) => if i < phases.len() && phases[i as int] is Live {
            (pool_after_release(pool, phases[i as int]->Live_0), phases.update(i as int, SessionPhase::Stopped))
        } else {
            (pool, phases)
        },
    }
}

/// The pool and phases after `steps`, taken in order.
pub open spec fn pool_run(pool: Seq<u16>, phases: Seq<SessionPhase>, steps: Seq<PoolStep>) -> (Seq<u16>, Seq<SessionPhase>)
    decreases steps.len(),
{
    if steps.len() == 0 {
        (pool, phases)
    } else {
        let before = pool_run(pool, phases, steps.drop_last());
        pool_step(before.0, before.1, steps.last())
    }
}

proof fn lemma_held_update(phases: Seq<SessionPhase>, i: int, x: SessionPhase)
    requires
        0 <= i < phases.len(),
    ensures
        held_ports(phases.update(i, x)).add(phase_ports(phases[i])) == held_ports(phases).add(phase_ports(x)),
    decreases phases.len(),
{
    broadcast use vstd::multiset::group_multiset_axioms;
    let up = phases.update(i, x);
    if i == phases.len() - 1 {
        assert(up.drop_last() =~= phases.drop_last());
        assert(held_ports(up).add(phase_ports(phases[i])) =~= held_ports(phases).add(phase_ports(x)));
    } else {
        assert(up.drop_last() =~= phases.drop_last().update(i, x));
        assert(up.last() == phases.last());
        assert(phases.drop_last()[i] == phases[i]);
        lemma_held_update(phases.drop_last(), i, x);
        let dl = phases.drop_last();
        assert(held_ports(up) == held_ports(dl.update(i, x)).add(phase_ports(phases.last())));
        assert(held_ports(phases) == held_ports(dl).add(phase_ports(phases.last())));
        let ih_l = held_ports(dl.update(i, x)).add(phase_ports(dl[i]));
        let ih_r = held_ports(dl).add(phase_ports(x));
        assert forall|v: u16| #[trigger] held_ports(up).add(phase_ports(phases[i])).count(v)
            == held_ports(phases).add(phase_ports(x)).count(v) by {
            assert(ih_l.count(v) == ih_r.count(v));
        }
        assert(held_ports(up).add(phase_ports(phases[i])) =~= held_ports(phases).add(phase_ports(x)));
    }
}

proof fn lemma_fresh_hold_nothing(n: nat)
    ensures
        held_ports(Seq::new(n, |i: int| SessionPhase::Fresh)) == Multiset::<u16>::empty(),
    decreases n,
{
    broadcast use vstd::multiset::group_multiset_axioms;
    if n > 0 {
        let s = Seq::new(n, |i: int| SessionPhase::Fresh);
        assert(s.drop_last() =~= Seq::new((n - 1) as nat, |i: int| SessionPhase::Fresh));
        lemma_fresh_hold_nothing((n - 1) as nat);
        assert(held_ports(s) =~= Multiset::<u16>::empty());
    }
}

proof fn lemma_step_conserves(pool: Seq<u16>, phases: Seq<SessionPhase>, step: PoolStep)
    ensures
        ({
            let after = pool_step(pool, phases, step);
            after.0.to_multiset().add(held_ports(after.1)) == pool.to_multiset().add(held_ports(phases))
        }),
{
    broadcast use vstd::multiset::group_multiset_axioms;
    broadcast use vstd::seq_lib::group_to_multiset_ensures;
    let after = pool_step(pool, phases, step);
    match step {
        PoolStep::Start(i) => {
            if i < phases.len() && phases[i as int] is Fresh {
                let x = SessionPhase::Live(taken_port(pool));
                lemma_held_update(phases, i as int, x);
                assert(phase_ports(phases[i as int]) =~= Multiset::<u16>::empty());
                assert(held_ports(after.1) =~= held_ports(after.1).add(phase_ports(phases[i as int])));
                if pool.len() > 0 {
                    assert(pool.drop_last().push(pool.last()) =~= pool);
                    assert(pool.to_multiset() =~= pool.drop_last().to_multiset().insert(pool.last()));
                    assert(phase_ports(x) =~= Multiset::singleton(pool.last()));
                } else {
                    assert(phase_ports(x) =~= Multiset::<u16>::empty());
                }
                assert(after.0.to_multiset().add(held_ports(after.1)) =~= pool.to_multiset().add(
                    held_ports(phases),
                ));
            }
        },
        PoolStep::Stop(i) => {
            if i < phases.len() && phases[i as int] is Live {
                lemma_held_update(phases, i as int, SessionPhase::Stopped);
                assert(phase_ports(SessionPhase::Stopped) =~= Multiset::<u16>::empty());
                assert(held_ports(phases) =~= held_ports(phases).add(phase_ports(SessionPhase::Stopped)));
                let port = phases[i as int]->Live_0;
                if port is Some {
                    assert(pool.push(port->0).to_multiset() =~= pool.to_multiset().insert(port->0));
                    assert(phase_ports(phases[i as int]) =~= Multiset::singleton(port->0));
                } else {
                    assert(phase_ports(phases[i as int]) =~= Multiset::<u16>::empty());
                }
                assert(after.0.to_multiset().add(held_ports(after.1)) =~= pool.to_multiset().add(
                    held_ports(phases),
                ));
            }
        },
    }
}

/// Ports are neither lost nor doubled: however `n` sessions sharing a pool
/// that first held `initial` start and stop, in any interleaving, the
/// ports in the pool and the ports held by live sessions are together
/// exactly `initial`; so when `initial` holds no port twice, no port is in
/// two places at once (in the pool and a session, or in two sessions).
pub proof fn lemma_ports_conserved(initial: Seq<u16>, n: nat, steps: Seq<PoolStep>)
    ensures
        ({
            let end = pool_run(initial, Seq::new(n, |i: int| SessionPhase::Fresh), steps);
            &&& end.0.to_multiset().add(held_ports(end.1)) == initial.to_multiset()
            &&& no_port_twice(initial) ==> forall|p: u16|
                #[trigger] end.0.to_multiset().add(held_ports(end.1)).count(p) <= 1
        }),
    decreases steps.len(),
{
    broadcast use vstd::multiset::group_multiset_axioms;
    let fresh = Seq::new(n, |i: int| SessionPhase::Fresh);
    let end = pool_run(initial, fresh, steps);
    if steps.len() == 0 {
        lemma_fresh_hold_nothing(n);
        assert(end.0.to_multiset().add(held_ports(end.1)) =~= initial.to_multiset());
    } else {
        lemma_ports_conserved(initial, n, steps.drop_last());
        let before = pool_run(initial, fresh, steps.drop_last());
        lemma_step_conserves(before.0, before.1, steps.last());
    }
    if no_port_twice(initial) {
        assert forall|p: u16| #[trigger] end.0.to_multiset().add(held_ports(end.1)).count(p) <= 1 by {
            assert(initial.no_duplicates());
            initial.lemma_multiset_has_no_duplicates();
            if initial.to_multiset().count(p) > 1 {
                assert(initial.to_multiset().contains(p));
            }
        }
    }
}

} // verus!
