//! Start-up policy of the engine: the well-known bootstrap nodes, the
//! addresses it listens on, and the fixed protocol settings.
use vstd::prelude::*;
use vstd::string::*;
use crate::identity::{NodeId, ReachableAddress, multiaddr_canonical, peer_id_canonical};

verus! {

/// Protocol name under which signaling requests travel.
pub const SIGNALING_PROTOCOL: &'static str = "/void/signaling/1.0.0";

/// Protocol version announced by the identity exchange.
pub const IDENTIFY_PROTOCOL: &'static str = "void/1.0.0";

/// Slots in the bounded command queue between host and engine.
pub const COMMAND_QUEUE_CAPACITY: usize = 32;

/// Seconds between two gossip heartbeats.
pub const GOSSIP_HEARTBEAT_SECS: u64 = 10;

/// Seconds after which an idle connection is closed.
pub const IDLE_CONNECTION_TIMEOUT_SECS: u64 = 60;

/// The components of a multiaddress text, in order: the printed node
/// identifier for a `/p2p/` component, `None` for any other component; `None`
/// as a whole where the text does not parse.
pub uninterp spec fn multiaddr_peer_parts(s: Seq<char>) -> Option<Seq<Option<Seq<char>>>>;

/// The text view of an optional string.
pub open spec fn opt_text(o: Option<String>) -> Option<Seq<char>> {
    match o {
        Some(t) => Some(t@),
        None => None,
    }
}

/// Relies on `Multiaddr::from_str`, `Multiaddr::iter` and `PeerId`'s
/// `Display`: each component, with the node identifier of a `P2p` component
/// printed (a printed identifier parses back to itself).
#[verifier::external_body]
fn peer_parts(s: &str) -> (r: Option<Vec<Option<String>>>)
    ensures
        match r {
            Some(v) => multiaddr_peer_parts(s@) == Some(v@.map_values(|o: Option<String>| opt_text(o)))
                && forall|i: int| 0 <= i < v@.len() && (#[trigger] v@[i]) is Some
                    ==> peer_id_canonical(v@[i]->Some_0@) == Some(v@[i]->Some_0@),
            None => multiaddr_peer_parts(s@) is None,
        },
{
    match s.parse::<libp2p::Multiaddr>() {
        Ok(m) => Some(m.iter().map(|p| match p {
            libp2p::multiaddr::Protocol::P2p(id) => Some(id.to_string()),
            _ => None,
        }).collect()),
        Err(_) => None,
    }
}

/// The first node identifier among the components, if any.
pub open spec fn first_peer(parts: Seq<Option<Seq<char>>>) -> Option<Seq<char>>
    decreases parts.len(),
{
    if parts.len() == 0 {
        None
    } else {
        match parts[0] {
            Some(p) => Some(p),
            None => first_peer(parts.drop_first()),
        }
    }
}

/// The node named by the first `/p2p/` component of an address text.
pub open spec fn address_peer(s: Seq<char>) -> Option<Seq<char>> {
    match multiaddr_peer_parts(s) {
        Some(parts) => first_peer(parts),
        None => None,
    }
}

/// The node that an address names in its first `/p2p/` component, if any.
pub fn peer_of_address(addr: &ReachableAddress) -> (r: Option<NodeId>)
    ensures
        match address_peer(addr@) {
            Some(p) => r matches Some(id) && id@ == p,
            None => r is None,
        },
{
    let parts = match peer_parts(addr.as_str()) {
        None => return None,
        Some(v) => v,
    };
    let ghost ps = parts@.map_values(|o: Option<String>| opt_text(o));
    let n = parts.len();
    let mut i: usize = 0;
    proof {
        assert(ps.subrange(0, n as int) =~= ps);
    }
    while i < n
        invariant
            n == parts@.len(),
            ps == parts@.map_values(|o: Option<String>| opt_text(o)),
            multiaddr_peer_parts(addr@) == Some(ps),
            forall|k: int| 0 <= k < parts@.len() && (#[trigger] parts@[k]) is Some
                ==> peer_id_canonical(parts@[k]->Some_0@) == Some(parts@[k]->Some_0@),
            i <= n,
            first_peer(ps) == first_peer(ps.subrange(i as int, n as int)),
        decreases n - i,
    {
        let ghost rest = ps.subrange(i as int, n as int);
        proof {
            assert(rest.drop_first() =~= ps.subrange(i + 1, n as int));
            assert(rest[0] == opt_text(parts@[i as int]));
        }
        match &parts[i] {
            Some(p) => {
                return NodeId::parse(p.as_str());
            },
            None => {},
        }
        i = i + 1;
    }
    None
}

/// The well-known bootstrap nodes, as address text.
pub open spec fn bootnode_texts() -> Seq<Seq<char>> {
    seq![
        "/dnsaddr/bootstrap.libp2p.io/p2p/QmNnooDu7bfjPFoTZYxMNLWUQJyrVwtbZg5gBMjTezGAJN"@,
        "/dnsaddr/bootstrap.libp2p.io/p2p/QmQCU2EcMqAqQPR2i9bChDtGNJchTeq5s0GNHw5zXIov6U"@,
        "/dnsaddr/bootstrap.libp2p.io/p2p/QmbLHAnMoJPWSCR5Zhtx6BHJX9CkJv68846kJcCPaQFjNA"@,
        "/dnsaddr/bootstrap.libp2p.io/p2p/QmcZf59bWwK5XFi76CZX8cbJ4BhTzzA3gU1Ubuu79rfVP3"@,
    ]
}

/// The addresses the engine listens on at start: any interface over TCP and
/// over QUIC, and the relay circuit.
pub open spec fn listen_texts() -> Seq<Seq<char>> {
    seq!["/ip4/0.0.0.0/tcp/0"@, "/ip4/0.0.0.0/udp/0/quic-v1"@, "/p2p-circuit"@]
}

/// The canonical forms of those texts that parse, in order.
pub open spec fn parsed_texts(ts: Seq<Seq<char>>) -> Seq<Seq<char>>
    decreases ts.len(),
{
    if ts.len() == 0 {
        seq![]
    } else {
        let front = parsed_texts(ts.drop_last());
        match multiaddr_canonical(ts.last()) {
            Some(c) => front.push(c),
            None => front,
        }
    }
}

/// A bootstrap entry: the routing-table key and the address to register,
/// where the text parses and names a node.
pub open spec fn boot_entry(t: Seq<char>) -> Option<(Seq<char>, Seq<char>)> {
    match multiaddr_canonical(t) {
        Some(c) => match address_peer(c) {
            Some(p) => Some((p, c)),
            None => None,
        },
        None => None,
    }
}

/// The bootstrap entries of those texts that yield one, in order.
pub open spec fn boot_entries(ts: Seq<Seq<char>>) -> Seq<(Seq<char>, Seq<char>)>
    decreases ts.len(),
{
    if ts.len() == 0 {
        seq![]
    } else {
        let front = boot_entries(ts.drop_last());
        match boot_entry(ts.last()) {
            Some(e) => front.push(e),
            None => front,
        }
    }
}

fn parse_addresses(texts: &Vec<&str>) -> (r: Vec<ReachableAddress>)
    ensures
        r@.len() == parsed_texts(texts@.map_values(|t: &str| t@)).len(),
        forall|k: int| 0 <= k < r@.len() ==> #[trigger] r@[k]@ == parsed_texts(texts@.map_values(|t: &str| t@))[k],
{
    let mut out: Vec<ReachableAddress> = Vec::new();
    let n = texts.len();
    let mut i: usize = 0;
    while i < n
        invariant
            n == texts@.len(),
            i <= n,
            out@.len() == parsed_texts(texts@.subrange(0, i as int).map_values(|t: &str| t@)).len(),
            forall|k: int| 0 <= k < out@.len() ==> #[trigger] out@[k]@ == parsed_texts(
                texts@.subrange(0, i as int).map_values(|t: &str| t@),
            )[k],
        decreases n - i,
    {
        let ghost before = texts@.subrange(0, i as int).map_values(|t: &str| t@);
        let ghost after = texts@.subrange(0, i + 1).map_values(|t: &str| t@);
        proof {
            assert(after.drop_last() =~= before);
            assert(after.last() == texts@[i as int]@);
        }
        match ReachableAddress::parse(texts[i]) {
            Some(a) => {
                out.push(a);
            },
            None => {},
        }
        i = i + 1;
    }
    proof {
        assert(texts@.subrange(0, n as int) =~= texts@);
    }
    out
}

/// The addresses to listen on at start, parsed.
pub fn listen_addresses() -> (r: Vec<ReachableAddress>)
    ensures
        r@.len() == parsed_texts(listen_texts()).len(),
        forall|k: int| 0 <= k < r@.len() ==> #[trigger] r@[k]@ == parsed_texts(listen_texts())[k],
{
    let texts: Vec<&str> = vec!["/ip4/0.0.0.0/tcp/0", "/ip4/0.0.0.0/udp/0/quic-v1", "/p2p-circuit"];
    proof {
        assert(texts@.map_values(|t: &str| t@) =~= listen_texts());
    }
    parse_addresses(&texts)
}

/// The bootstrap nodes to register in the routing table and dial, each with
/// the node it names; a text that does not parse or names no node is skipped.
pub fn bootstrap_peers() -> (r: Vec<(NodeId, ReachableAddress)>)
    ensures
        r@.len() == boot_entries(bootnode_texts()).len(),
        forall|k: int| 0 <= k < r@.len() ==> (#[trigger] r@[k]).0@ == boot_entries(bootnode_texts())[k].0
            && r@[k].1@ == boot_entries(bootnode_texts())[k].1,
{
    let texts: Vec<&str> = vec![
        "/dnsaddr/bootstrap.libp2p.io/p2p/QmNnooDu7bfjPFoTZYxMNLWUQJyrVwtbZg5gBMjTezGAJN",
        "/dnsaddr/bootstrap.libp2p.io/p2p/QmQCU2EcMqAqQPR2i9bChDtGNJchTeq5s0GNHw5zXIov6U",
        "/dnsaddr/bootstrap.libp2p.io/p2p/QmbLHAnMoJPWSCR5Zhtx6BHJX9CkJv68846kJcCPaQFjNA",
        "/dnsaddr/bootstrap.libp2p.io/p2p/QmcZf59bWwK5XFi76CZX8cbJ4BhTzzA3gU1Ubuu79rfVP3",
    ];
    let ghost ts = texts@.map_values(|t: &str| t@);
    proof {
        assert(ts =~= bootnode_texts());
    }
    let mut out: Vec<(NodeId, ReachableAddress)> = Vec::new();
    let n = texts.len();
    let mut i: usize = 0;
    while i < n
        invariant
            n == texts@.len(),
            ts == texts@.map_values(|t: &str| t@),
            i <= n,
            out@.len() == boot_entries(ts.subrange(0, i as int)).len(),
            forall|k: int| 0 <= k < out@.len() ==> (#[trigger] out@[k]).0@ == boot_entries(
                ts.subrange(0, i as int),
            )[k].0 && out@[k].1@ == boot_entries(ts.subrange(0, i as int))[k].1,
        decreases n - i,
    {
        proof {
            assert(ts.subrange(0, i + 1).drop_last() =~= ts.subrange(0, i as int));
            assert(ts.subrange(0, i + 1).last() == texts@[i as int]@);
        }
        match ReachableAddress::parse(texts[i]) {
            Some(a) => {
                match peer_of_address(&a) {
                    Some(id) => {
                        out.push((id, a));
                    },
                    None => {},
                }
            },
            None => {},
        }
        i = i + 1;
    }
    proof {
        assert(ts.subrange(0, n as int) =~= ts);
    }
    out
}

} // verus!
