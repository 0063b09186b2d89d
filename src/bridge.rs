//! The command/event bridge: the session registry, the commands a host may
//! issue, and how the engine loop answers commands and protocol events.
use vstd::prelude::*;
use vstd::string::*;
use crate::identity::{NodeId, ReachableAddress, peer_id_canonical, is_relay_text};
use crate::codec::{CodecError, decode_spec, encode_spec, encode_void_code, parse_void_code};

verus! {

/// A signaling request: an opaque text payload.
#[derive(Clone, Debug)]
pub struct SignalingRequest(pub String);

/// A signaling response: the acknowledgement token.
#[derive(Clone, Debug)]
pub struct SignalingResponse(pub String);

/// The token that answers every inbound signaling request.
pub open spec fn ack_token() -> Seq<char> {
    seq!['A', 'C', 'K']
}

/// The acknowledgement sent back for an inbound request.
pub fn acknowledgement() -> (r: SignalingResponse)
    ensures
        r.0@ == ack_token(),
{
    proof {
        reveal_strlit("ACK");
    }
    SignalingResponse(String::from_str("ACK"))
}

/// An instruction from the host to the engine.
#[derive(Debug)]
pub enum NetworkCommand {
    Dial(NodeId),
    DialAddress(ReachableAddress),
    GetIdentity,
    SendSignal(NodeId, String),
}

/// Why a host call was refused at the command boundary.
#[derive(Clone, Copy, Debug, PartialEq, Eq, Structural)]
pub enum BridgeError {
    /// The identifier text is not a node identifier.
    InvalidPeerId,
    /// The rendezvous code was refused.
    InvalidCode(CodecError),
    /// No engine session is running.
    NotRunning,
    /// The node has no address to put in a code yet.
    NoAddressYet,
}

pub open spec fn bridge_error_message(e: BridgeError) -> Seq<char> {
    match e {
        BridgeError::InvalidPeerId => "Invalid peer id"@,
        BridgeError::InvalidCode(c) => crate::codec::codec_error_message(c),
        BridgeError::NotRunning => "Node not running"@,
        BridgeError::NoAddressYet => "No address available yet"@,
    }
}

impl BridgeError {
    /// A sentence describing the error.
    pub fn message(&self) -> (r: &'static str)
        ensures
            r@ == bridge_error_message(*self),
    {
        match self {
            BridgeError::InvalidPeerId => "Invalid peer id",
            BridgeError::InvalidCode(c) => c.message(),
            BridgeError::NotRunning => "Node not running",
            BridgeError::NoAddressYet => "No address available yet",
        }
    }
}

/// What starting the engine did.
#[derive(Clone, Copy, Debug, PartialEq, Eq, Structural)]
pub enum StartOutcome {
    Started,
    AlreadyRunning,
}

impl StartOutcome {
    pub fn message(&self) -> (r: &'static str)
        ensures
            r@ == (match *self {
                StartOutcome::Started => "Node started"@,
                StartOutcome::AlreadyRunning => "Node already running"@,
            }),
    {
        match self {
            StartOutcome::Started => "Node started",
            StartOutcome::AlreadyRunning => "Node already running",
        }
    }
}

/// The process-wide session slot: not started, or running.
#[derive(Debug)]
pub struct NetworkState {
    pub running: bool,
}

impl NetworkState {
    /// An empty slot: no session runs.
    pub fn new() -> (r: NetworkState)
        ensures
            !r.running,
    {
        NetworkState { running: false }
    }

    /// Marks a session as running; a second start leaves the running one alone.
    pub fn start_node(&mut self) -> (r: StartOutcome)
        ensures
            final(self).running,
            r == (if old(self).running { StartOutcome::AlreadyRunning } else { StartOutcome::Started }),
    {
        if self.running {
            StartOutcome::AlreadyRunning
        } else {
            self.running = true;
            StartOutcome::Started
        }
    }

    /// Empties the slot, as when the command channel closes.
    pub fn stop_node(&mut self)
        ensures
            !final(self).running,
    {
        self.running = false;
    }
}

/// The command that sends `payload` to the node named by `peer_id`; the
/// identifier is checked before the session.
pub fn send_signal(state: &NetworkState, peer_id: &str, payload: String) -> (r: Result<
    NetworkCommand,
    BridgeError,
>)
    ensures
        match peer_id_canonical(peer_id@) {
            None => r matches Err(e) && e == BridgeError::InvalidPeerId,
            Some(c) => if !state.running {
                r matches Err(e) && e == BridgeError::NotRunning
            } else {
                r matches Ok(NetworkCommand::SendSignal(id, p)) && id@ == c && p@ == payload@
            },
        },
{
    let id = match NodeId::parse(peer_id) {
        None => return Err(BridgeError::InvalidPeerId),
        Some(id) => id,
    };
    if !state.running {
        return Err(BridgeError::NotRunning);
    }
    Ok(NetworkCommand::SendSignal(id, payload))
}

/// The command that dials the node named by `peer_id`.
pub fn dial_peer(state: &NetworkState, peer_id: &str) -> (r: Result<NetworkCommand, BridgeError>)
    ensures
        match peer_id_canonical(peer_id@) {
            None => r matches Err(e) && e == BridgeError::InvalidPeerId,
            Some(c) => if !state.running {
                r matches Err(e) && e == BridgeError::NotRunning
            } else {
                r matches Ok(NetworkCommand::Dial(id)) && id@ == c
            },
        },
{
    let id = match NodeId::parse(peer_id) {
        None => return Err(BridgeError::InvalidPeerId),
        Some(id) => id,
    };
    if !state.running {
        return Err(BridgeError::NotRunning);
    }
    Ok(NetworkCommand::Dial(id))
}

/// The command that dials the address carried by a rendezvous code.
pub fn connect_via_code(state: &NetworkState, code: &str) -> (r: Result<NetworkCommand, BridgeError>)
    ensures
        match decode_spec(code@) {
            Err(c) => r matches Err(e) && e == BridgeError::InvalidCode(c),
            Ok(a) => if !state.running {
                r matches Err(e) && e == BridgeError::NotRunning
            } else {
                r matches Ok(NetworkCommand::DialAddress(x)) && x@ == a
            },
        },
{
    let addr = match parse_void_code(code) {
        Err(c) => return Err(BridgeError::InvalidCode(c)),
        Ok(a) => a,
    };
    if !state.running {
        return Err(BridgeError::NotRunning);
    }
    Ok(NetworkCommand::DialAddress(addr))
}

/// The query that asks the engine for its identity, the first step of
/// producing the local code.
pub fn get_my_void_code(state: &NetworkState) -> (r: Result<NetworkCommand, BridgeError>)
    ensures
        state.running ==> r matches Ok(NetworkCommand::GetIdentity),
        !state.running ==> (r matches Err(e) && e == BridgeError::NotRunning),
{
    if state.running {
        Ok(NetworkCommand::GetIdentity)
    } else {
        Err(BridgeError::NotRunning)
    }
}

/// The engine's answer to an identity query.
#[derive(Clone, Debug)]
pub struct Identity {
    pub node: NodeId,
    pub addresses: Vec<ReachableAddress>,
}

/// The identity answer: external addresses when there are any, else the raw
/// listen addresses.
pub fn identity_reply(node: NodeId, external: Vec<ReachableAddress>, listeners: Vec<ReachableAddress>) -> (r:
    Identity)
    ensures
        r.node@ == node@,
        r.addresses@ == (if external@.len() > 0 { external@ } else { listeners@ }),
{
    if external.len() > 0 {
        Identity { node, addresses: external }
    } else {
        Identity { node, addresses: listeners }
    }
}

/// Whether position `i` holds the address that the local code is made from:
/// the first relay-circuit address, or the first address when none is a relay.
pub open spec fn is_code_choice(addrs: Seq<ReachableAddress>, i: int) -> bool {
    &&& 0 <= i < addrs.len()
    &&& if is_relay_text(addrs[i]@) {
        forall|j: int| 0 <= j < i ==> !is_relay_text(#[trigger] addrs[j]@)
    } else {
        i == 0 && forall|j: int| 0 <= j < addrs.len() ==> !is_relay_text(#[trigger] addrs[j]@)
    }
}

/// The local code from an identity answer: a relay-circuit address is
/// preferred, then the first address; with none, no code exists yet.
pub fn void_code_from_identity(identity: &Identity) -> (r: Result<String, BridgeError>)
    ensures
        match r {
            Ok(code) => exists|i: int|
                is_code_choice(identity.addresses@, i) && code@ == encode_spec(#[trigger] identity.addresses@[i]@),
            Err(e) => identity.addresses@.len() == 0 && e == BridgeError::NoAddressYet,
        },
{
    let addrs = &identity.addresses;
    let n = addrs.len();
    if n == 0 {
        return Err(BridgeError::NoAddressYet);
    }
    let mut i: usize = 0;
    while i < n
        invariant
            n == addrs@.len(),
            addrs@ == identity.addresses@,
            n > 0,
            i <= n,
            forall|j: int| 0 <= j < i ==> !is_relay_text(#[trigger] addrs@[j]@),
        decreases n - i,
    {
        if addrs[i].is_relay() {
            let code = encode_void_code(&addrs[i]);
            proof {
                assert(is_code_choice(addrs@, i as int));
                assert(code@ == encode_spec(identity.addresses@[i as int]@));
            }
            return Ok(code);
        }
        i = i + 1;
    }
    let code = encode_void_code(&addrs[0]);
    proof {
        assert(is_code_choice(addrs@, 0));
        assert(code@ == encode_spec(identity.addresses@[0]@));
    }
    Ok(code)
}

/// What the engine loop does for a command.
#[derive(Debug)]
pub enum EngineAction {
    /// Start a dial to a node; its outcome arrives later as an event.
    DialPeer(NodeId),
    /// Start a dial to an address.
    DialAddress(ReachableAddress),
    /// Answer the identity query.
    ReplyIdentity,
    /// Queue a signaling request to a node.
    SendRequest(NodeId, SignalingRequest),
}

/// Maps a host command to the engine action that carries it out.
pub fn command_action(cmd: NetworkCommand) -> (r: EngineAction)
    ensures
        match cmd {
            NetworkCommand::Dial(id) => r matches EngineAction::DialPeer(x) && x@ == id@,
            NetworkCommand::DialAddress(a) => r matches EngineAction::DialAddress(x) && x@ == a@,
            NetworkCommand::GetIdentity => r matches EngineAction::ReplyIdentity,
            NetworkCommand::SendSignal(id, p) => r matches EngineAction::SendRequest(x, q) && x@ == id@
                && q.0@ == p@,
        },
{
    match cmd {
        NetworkCommand::Dial(id) => EngineAction::DialPeer(id),
        NetworkCommand::DialAddress(a) => EngineAction::DialAddress(a),
        NetworkCommand::GetIdentity => EngineAction::ReplyIdentity,
        NetworkCommand::SendSignal(id, p) => EngineAction::SendRequest(id, SignalingRequest(p)),
    }
}

/// A protocol event, narrowed to what the bridge acts on.
#[derive(Debug)]
pub enum EngineEvent {
    /// The transport listens on a new address.
    NewListenAddr(ReachableAddress),
    /// A connection to a node is up.
    ConnectionEstablished(NodeId),
    /// NAT detection confirmed a public address.
    NatPublic(ReachableAddress),
    /// A signaling request arrived.
    InboundSignal(NodeId, SignalingRequest),
    /// A signaling request we sent was acknowledged.
    SignalAcknowledged(NodeId),
    /// Discovery, gossip, relay, upgrade, identify or ping traffic.
    Other,
}

/// An event pushed to the host. These three are the whole host-facing set:
/// established connections and acknowledgements stay inside the engine.
#[derive(Debug)]
pub enum HostEvent {
    ListeningOn(ReachableAddress),
    PublicAddressConfirmed(ReachableAddress),
    InboundSignal { peer: NodeId, payload: String },
}

/// The bridge's answer to one protocol event.
#[derive(Debug)]
pub struct Reaction {
    /// The event pushed to the host, if any.
    pub notify: Option<HostEvent>,
    /// The response sent back on the request's channel, if any.
    pub respond: Option<SignalingResponse>,
}

/// Translates a protocol event into host events and, for an inbound signaling
/// request, the acknowledgement.
pub fn react_to_event(ev: EngineEvent) -> (r: Reaction)
    ensures
        match ev {
            EngineEvent::NewListenAddr(a) => r.notify matches Some(HostEvent::ListeningOn(x)) && x@ == a@
                && r.respond is None,
            EngineEvent::NatPublic(a) => r.notify matches Some(HostEvent::PublicAddressConfirmed(x)) && x@
                == a@ && r.respond is None,
            EngineEvent::InboundSignal(p, q) => r.notify matches Some(
                HostEvent::InboundSignal { peer, payload },
            ) && peer@ == p@ && payload@ == q.0@ && (r.respond matches Some(s) && s.0@ == ack_token()),
            _ => r.notify is None && r.respond is None,
        },
{
    match ev {
        EngineEvent::NewListenAddr(a) => Reaction { notify: Some(HostEvent::ListeningOn(a)), respond: None },
        EngineEvent::NatPublic(a) => Reaction {
            notify: Some(HostEvent::PublicAddressConfirmed(a)),
            respond: None,
        },
        EngineEvent::InboundSignal(p, q) => Reaction {
            notify: Some(HostEvent::InboundSignal { peer: p, payload: q.0 }),
            respond: Some(acknowledgement()),
        },
        _ => Reaction { notify: None, respond: None },
    }
}

} // verus!
