//! The relay server's settings: its public host, its own port, and the
//! range of tunnel ports, as given in its environment.

use vstd::prelude::*;
use crate::text::{decimal, is_digit, lemma_decimal_digits, lemma_parse_decimal, parsed_u16, parse_u16};

verus! {

/// The pieces of a field that has ended: none when it is empty.
pub open spec fn close_field(cur: Seq<char>) -> Seq<Seq<char>> {
    if cur.len() == 0 {
        seq![]
    } else {
        seq![cur]
    }
}

/// The non-empty `-`-separated fields of `rest`, the first of which
/// continues the field `cur` read so far.
pub open spec fn fields_from(cur: Seq<char>, rest: Seq<char>) -> Seq<Seq<char>>
    decreases rest.len(),
{
    if rest.len() == 0 {
        close_field(cur)
    } else if rest[0] == '-' {
        close_field(cur) + fields_from(seq![], rest.drop_first())
    } else {
        fields_from(cur.push(rest[0]), rest.drop_first())
    }
}

/// The non-empty fields of `s` between `-` separators, in order.
pub open spec fn dash_fields(s: Seq<char>) -> Seq<Seq<char>> {
    fields_from(seq![], s)
}

/// A tunnel port range `first-last`: exactly two non-empty fields, each a
/// `u16`.
pub open spec fn parsed_range(s: Seq<char>) -> Option<(u16, u16)> {
    let f = dash_fields(s);
    if f.len() == 2 && parsed_u16(f[0]) is Some && parsed_u16(f[1]) is Some {
        Some((parsed_u16(f[0])->0, parsed_u16(f[1])->0))
    } else {
        None
    }
}

/// Parses a tunnel port range such as `"30000-30100"`. Empty fields are
/// skipped, so `"-30000--30100"` reads the same.
pub fn parse_port_range(s: &str) -> (r: Option<(u16, u16)>)
    ensures
        r == parsed_range(s@),
{
    let n = s.unicode_len();
    let mut bounds: Vec<u16> = Vec::new();
    let mut cur = String::new();
    let mut cur_len: usize = 0;
    let ghost mut done: Seq<Seq<char>> = seq![];
    let mut i: usize = 0;
    assert(s@.skip(0) =~= s@);
    while i < n
        invariant
            n == s@.len(),
            i <= n,
            cur_len == cur@.len(),
            cur_len <= i,
            dash_fields(s@) == done + fields_from(cur@, s@.skip(i as int)),
            bounds@.len() == done.len(),
            forall|j: int| 0 <= j < done.len() ==> parsed_u16(#[trigger] done[j]) == Some(bounds@[j]),
        decreases n - i,
    {
        let c = s.get_char(i);
        assert(s@.skip(i as int)[0] == c);
        assert(s@.skip(i as int).drop_first() =~= s@.skip(i + 1));
        if c == '-' {
            if cur_len > 0 {
                let v = parse_u16(cur.as_str());
                match v {
                    Some(v) => {
                        proof {
                            assert(done + fields_from(cur@, s@.skip(i as int)) =~= done.push(cur@)
                                + fields_from(seq![], s@.skip(i + 1)));
                            done = done.push(cur@);
                        }
                        bounds.push(v);
                    },
                    None => {
                        proof {
                            let rest = fields_from(seq![], s@.skip(i + 1));
                            let all = done.push(cur@) + rest;
                            assert(all =~= done + fields_from(cur@, s@.skip(i as int)));
                            assert(all[done.len() as int] == cur@);
                        }
                        return None;
                    },
                }
            } else {
                assert(done + fields_from(cur@, s@.skip(i as int)) =~= done + fields_from(
                    seq![],
                    s@.skip(i + 1),
                ));
            }
            cur = String::new();
            cur_len = 0;
        } else {
            cur.push(c);
            cur_len = cur_len + 1;
        }
        i = i + 1;
    }
    if cur_len > 0 {
        let v = parse_u16(cur.as_str());
        match v {
            Some(v) => {
                proof {
                    done = done.push(cur@);
                }
                bounds.push(v);
            },
            None => {
                proof {
                    assert(dash_fields(s@)[done.len() as int] == cur@);
                }
                return None;
            },
        }
    }
    assert(dash_fields(s@) =~= done);
    if bounds.len() == 2 {
        Some((bounds[0], bounds[1]))
    } else {
        None
    }
}

/// Why the relay server cannot start with the settings it was given.
#[derive(Debug, PartialEq, Eq, Structural)]
pub enum ConfigError {
    MissingPublicHost,
    MissingPort,
    InvalidPort,
    MissingTunnelPortRange,
    InvalidTunnelPortRange,
    NoTunnelPorts,
}

impl ConfigError {
    /// The line printed before the server exits.
    pub fn message(&self) -> (r: String)
        ensures
            r@ == match *self {
                ConfigError::MissingPublicHost => "environment variable PUBLIC_HOST is missing"@,
                ConfigError::MissingPort => "environment variable PORT is missing"@,
                ConfigError::InvalidPort => "PORT is not an u16 number"@,
                ConfigError::MissingTunnelPortRange => "environment variable TUNNEL_PORT_RANGE is missing"@,
                ConfigError::InvalidTunnelPortRange => "Unable to parse TUNNEL_PORT_RANGE"@,
                ConfigError::NoTunnelPorts => "Zero available tunnel ports"@,
            },
    {
        match self {
            ConfigError::MissingPublicHost => String::from_str("environment variable PUBLIC_HOST is missing"),
            ConfigError::MissingPort => String::from_str("environment variable PORT is missing"),
            ConfigError::InvalidPort => String::from_str("PORT is not an u16 number"),
            ConfigError::MissingTunnelPortRange => String::from_str("environment variable TUNNEL_PORT_RANGE is missing"),
            ConfigError::InvalidTunnelPortRange => String::from_str("Unable to parse TUNNEL_PORT_RANGE"),
            ConfigError::NoTunnelPorts => String::from_str("Zero available tunnel ports"),
        }
    }
}

/// The settings of the relay server.
pub struct ServerConfig {
    pub public_host: String,
    pub port: u16,
    pub first_tunnel_port: u16,
    pub last_tunnel_port: u16,
}

/// Whether a range `(first, last)` holds no port.
pub open spec fn range_is_empty(range: (u16, u16)) -> bool {
    range.0 > range.1
}

/// The view of a setting that may be absent.
pub open spec fn setting(v: Option<String>) -> Option<Seq<char>> {
    match v {
        Some(s) => Some(s@),
        None => None,
    }
}

/// The first thing wrong with the settings, checked in the order the
/// server reads them; `None` when they are usable.
pub open spec fn config_error(
    public_host: Option<Seq<char>>,
    port: Option<Seq<char>>,
    tunnel_port_range: Option<Seq<char>>,
) -> Option<ConfigError> {
    if public_host is None {
        Some(ConfigError::MissingPublicHost)
    } else if port is None {
        Some(ConfigError::MissingPort)
    } else if parsed_u16(port->0) is None {
        Some(ConfigError::InvalidPort)
    } else if tunnel_port_range is None {
        Some(ConfigError::MissingTunnelPortRange)
    } else if parsed_range(tunnel_port_range->0) is None {
        Some(ConfigError::InvalidTunnelPortRange)
    } else if range_is_empty(parsed_range(tunnel_port_range->0)->0) {
        Some(ConfigError::NoTunnelPorts)
    } else {
        None
    }
}

/// Reads the settings from the values of `PUBLIC_HOST`, `PORT` and
/// `TUNNEL_PORT_RANGE` (each `None` when unset).
pub fn load_config(
    public_host: Option<String>,
    port: Option<String>,
    tunnel_port_range: Option<String>,
) -> (r: Result<ServerConfig, ConfigError>)
    ensures
        match r {
            Ok(c) => {
                &&& config_error(setting(public_host), setting(port), setting(tunnel_port_range)) is None
                &&& Some(c.public_host@) == setting(public_host)
                &&& Some(c.port) == parsed_u16(setting(port)->0)
                &&& Some((c.first_tunnel_port, c.last_tunnel_port)) == parsed_range(setting(tunnel_port_range)->0)
            },
            Err(e) => config_error(setting(public_host), setting(port), setting(tunnel_port_range)) == Some(e),
        },
{
    let public_host = match public_host {
        Some(h) => h,
        None => return Err(ConfigError::MissingPublicHost),
    };
    let port = match port {
        Some(p) => match parse_u16(p.as_str()) {
            Some(p) => p,
            None => return Err(ConfigError::InvalidPort),
        },
        None => return Err(ConfigError::MissingPort),
    };
    let range = match tunnel_port_range {
        Some(t) => match parse_port_range(t.as_str()) {
            Some(range) => range,
            None => return Err(ConfigError::InvalidTunnelPortRange),
        },
        None => return Err(ConfigError::MissingTunnelPortRange),
    };
    let (first_tunnel_port, last_tunnel_port) = range;
    if first_tunnel_port > last_tunnel_port {
        return Err(ConfigError::NoTunnelPorts);
    }
    Ok(ServerConfig { public_host, port, first_tunnel_port, last_tunnel_port })
}

/// The ports from `first` up to `last`, both included, in increasing order.
pub open spec fn port_span(first: u16, last: u16) -> Seq<u16> {
    Seq::new(
        if first <= last { (last - first + 1) as nat } else { 0 },
        |i: int| (first + i) as u16,
    )
}

/// The pool of tunnel ports for the range `first..=last`; `last` must be
/// below `u16::MAX`, as the range's end is computed as `last + 1`.
pub fn tunnel_ports(first: u16, last: u16) -> (r: Vec<u16>)
    requires
        last < u16::MAX,
    ensures
        r@ == port_span(first, last),
{
    let end: u16 = last + 1;
    let mut ports: Vec<u16> = Vec::new();
    let mut p: u16 = first;
    while p < end
        invariant
            end == last + 1,
            first < end ==> first <= p <= end,
            first >= end ==> p == first,
            ports@.len() == p - first || (first >= end && ports@.len() == 0),
            forall|j: int| 0 <= j < ports@.len() ==> #[trigger] ports@[j] == first + j,
        decreases end - p,
    {
        ports.push(p);
        p = p + 1;
    }
    assert(ports@ =~= port_span(first, last));
    ports
}

/// The pool built from a range holds each port of the range once, and
/// nothing else.
pub proof fn lemma_port_span_exact(first: u16, last: u16)
    ensures
        crate::session::no_port_twice(port_span(first, last)),
        forall|p: u16| port_span(first, last).contains(p) <==> first <= p <= last,
{
    let span = port_span(first, last);
    assert forall|p: u16| first <= p <= last implies span.contains(p) by {
        assert(span[p - first] == p);
    }
}

proof fn lemma_fields_skip_run(cur: Seq<char>, run: Seq<char>, rest: Seq<char>)
    requires
        forall|i: int| 0 <= i < run.len() ==> run[i] != '-',
    ensures
        fields_from(cur, run + rest) == fields_from(cur + run, rest),
    decreases run.len(),
{
    if run.len() == 0 {
        assert(run + rest =~= rest);
        assert(cur + run =~= cur);
    } else {
        assert((run + rest)[0] == run[0]);
        assert((run + rest).drop_first() =~= run.drop_first() + rest);
        lemma_fields_skip_run(cur.push(run[0]), run.drop_first(), rest);
        assert(cur.push(run[0]) + run.drop_first() =~= cur + run);
    }
}

/// The text `a-b`, with both ports in decimal, parses as the range from `a`
/// to `b`, for every pair of ports.
pub proof fn lemma_range_text_parses(a: u16, b: u16)
    ensures
        parsed_range(decimal(a as nat) + seq!['-'] + decimal(b as nat)) == Some((a, b)),
{
    let da = decimal(a as nat);
    let db = decimal(b as nat);
    lemma_decimal_digits(a as nat);
    lemma_decimal_digits(b as nat);
    lemma_parse_decimal(a);
    lemma_parse_decimal(b);
    assert forall|i: int| 0 <= i < da.len() implies da[i] != '-' by {
        assert(is_digit(da[i]));
    }
    assert forall|i: int| 0 <= i < db.len() implies db[i] != '-' by {
        assert(is_digit(db[i]));
    }
    let tail = seq!['-'] + db;
    assert(da + seq!['-'] + db =~= da + tail);
    lemma_fields_skip_run(Seq::<char>::empty(), da, tail);
    assert(Seq::<char>::empty() + da =~= da);
    assert(tail[0] == '-');
    assert(tail.drop_first() =~= db);
    lemma_fields_skip_run(Seq::<char>::empty(), db, Seq::<char>::empty());
    assert(db + Seq::<char>::empty() =~= db);
    assert(Seq::<char>::empty() + db =~= db);
    assert(dash_fields(da + seq!['-'] + db) =~= seq![da, db]);
}

/// Which settings are refused, and why: the port is refused exactly when
/// its text is not a `u16`; the range exactly when it is not two `u16`
/// fields; and there are no tunnel ports exactly when the range's first
/// port is above its last. Every other setting is accepted.
pub proof fn lemma_config_errors_exact(host: Seq<char>, port: Seq<char>, range: Seq<char>)
    ensures
        (config_error(Some(host), Some(port), Some(range)) == Some(ConfigError::InvalidPort))
            <==> parsed_u16(port) is None,
        (config_error(Some(host), Some(port), Some(range)) == Some(ConfigError::InvalidTunnelPortRange))
            <==> (parsed_u16(port) is Some && parsed_range(range) is None),
        (config_error(Some(host), Some(port), Some(range)) == Some(ConfigError::NoTunnelPorts))
            <==> (parsed_u16(port) is Some && parsed_range(range) is Some && ({
                let bounds = parsed_range(range)->0;
                bounds.0 > bounds.1
            })),
        config_error(Some(host), Some(port), Some(range)) is None
            <==> (parsed_u16(port) is Some && parsed_range(range) is Some && ({
                let bounds = parsed_range(range)->0;
                bounds.0 <= bounds.1
            })),
{
}

/// A server given a host, a port and a range `a-b`, all in decimal, starts
/// with that port and with the ports `a` to `b` whenever `a <= b`, and
/// reports that there are no tunnel ports exactly when `a > b`.
pub proof fn lemma_config_from_decimal(host: Seq<char>, port: u16, a: u16, b: u16)
    ensures
        parsed_u16(decimal(port as nat)) == Some(port),
        parsed_range(decimal(a as nat) + seq!['-'] + decimal(b as nat)) == Some((a, b)),
        a <= b ==> config_error(
            Some(host),
            Some(decimal(port as nat)),
            Some(decimal(a as nat) + seq!['-'] + decimal(b as nat)),
        ) is None,
        a > b ==> config_error(
            Some(host),
            Some(decimal(port as nat)),
            Some(decimal(a as nat) + seq!['-'] + decimal(b as nat)),
        ) == Some(ConfigError::NoTunnelPorts),
{
    lemma_parse_decimal(port);
    lemma_range_text_parses(a, b);
    lemma_config_errors_exact(host, decimal(port as nat), decimal(a as nat) + seq!['-'] + decimal(b as nat));
}

} // verus!
