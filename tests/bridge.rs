use void_node::bridge::{
    acknowledgement, command_action, connect_via_code, dial_peer, get_my_void_code, identity_reply,
    react_to_event, send_signal, void_code_from_identity, BridgeError, EngineAction, EngineEvent,
    HostEvent, NetworkCommand, NetworkState, SignalingRequest, StartOutcome,
};
use void_node::codec::{encode_void_code, CodecError};
use void_node::identity::{NodeId, ReachableAddress};

const PEER: &str = "QmNnooDu7bfjPFoTZYxMNLWUQJyrVwtbZg5gBMjTezGAJN";

fn addr(s: &str) -> ReachableAddress {
    ReachableAddress::parse(s).unwrap()
}

#[test]
fn identity_query_before_start_fails() {
    let state = NetworkState::new();
    let err = get_my_void_code(&state).unwrap_err();
    assert_eq!(err, BridgeError::NotRunning);
    assert_eq!(err.message(), "Node not running");
}

#[test]
fn identity_query_after_start_is_issued() {
    let mut state = NetworkState::new();
    assert_eq!(state.start_node(), StartOutcome::Started);
    assert!(matches!(get_my_void_code(&state), Ok(NetworkCommand::GetIdentity)));
}

#[test]
fn second_start_reports_running() {
    let mut state = NetworkState::new();
    assert_eq!(state.start_node().message(), "Node started");
    assert_eq!(state.start_node(), StartOutcome::AlreadyRunning);
    assert_eq!(StartOutcome::AlreadyRunning.message(), "Node already running");
    state.stop_node();
    assert!(!state.running);
    assert_eq!(state.start_node(), StartOutcome::Started);
}

#[test]
fn send_signal_checks_peer_then_session() {
    let mut state = NetworkState::new();
    assert_eq!(send_signal(&state, "bogus", "hi".to_string()).unwrap_err(), BridgeError::InvalidPeerId);
    assert_eq!(send_signal(&state, PEER, "hi".to_string()).unwrap_err(), BridgeError::NotRunning);
    state.start_node();
    match send_signal(&state, PEER, "hi there".to_string()).unwrap() {
        NetworkCommand::SendSignal(id, p) => {
            assert_eq!(id.as_str(), PEER);
            assert_eq!(p, "hi there");
        }
        other => panic!("unexpected command {:?}", other),
    }
}

#[test]
fn dial_peer_checks_peer_then_session() {
    let mut state = NetworkState::new();
    assert_eq!(dial_peer(&state, "").unwrap_err(), BridgeError::InvalidPeerId);
    assert_eq!(dial_peer(&state, PEER).unwrap_err(), BridgeError::NotRunning);
    state.start_node();
    assert!(matches!(dial_peer(&state, PEER), Ok(NetworkCommand::Dial(id)) if id.as_str() == PEER));
}

#[test]
fn connect_via_code_checks_code_then_session() {
    let mut state = NetworkState::new();
    assert_eq!(
        connect_via_code(&state, "void://!!!not-base64!!!").unwrap_err(),
        BridgeError::InvalidCode(CodecError::InvalidBase64)
    );
    let code = "void://L2lwNC8xMjcuMC4wLjEvdGNwLzQwMDE=";
    assert_eq!(connect_via_code(&state, code).unwrap_err(), BridgeError::NotRunning);
    state.start_node();
    match connect_via_code(&state, code).unwrap() {
        NetworkCommand::DialAddress(a) => assert_eq!(a.as_str(), "/ip4/127.0.0.1/tcp/4001"),
        other => panic!("unexpected command {:?}", other),
    }
}

#[test]
fn identity_prefers_external_addresses() {
    let id = NodeId::parse(PEER).unwrap();
    let ext = vec![addr("/ip4/8.8.8.8/tcp/1")];
    let lis = vec![addr("/ip4/0.0.0.0/tcp/1"), addr("/ip4/127.0.0.1/tcp/2")];
    let r = identity_reply(id.clone(), ext, lis.clone());
    assert_eq!(r.addresses.len(), 1);
    assert_eq!(r.addresses[0].as_str(), "/ip4/8.8.8.8/tcp/1");
    let r = identity_reply(id, vec![], lis);
    assert_eq!(r.addresses.len(), 2);
    assert_eq!(r.node.as_str(), PEER);
}

#[test]
fn identity_of_fresh_key_is_valid_and_may_have_no_address() {
    let key = libp2p::identity::Keypair::generate_ed25519();
    let peer = libp2p::PeerId::from(key.public()).to_string();
    let id = NodeId::parse(&peer).expect("a generated identifier parses");
    assert!(!id.as_str().is_empty());
    let r = identity_reply(id, vec![], vec![]);
    assert!(r.addresses.is_empty());
    assert_eq!(void_code_from_identity(&r).unwrap_err(), BridgeError::NoAddressYet);
}

#[test]
fn local_code_prefers_relay_address() {
    let id = NodeId::parse(PEER).unwrap();
    let relay = addr(&format!("/ip4/1.2.3.4/tcp/1/p2p/{}/p2p-circuit", PEER));
    let direct = addr("/ip4/5.6.7.8/tcp/9");
    let r = identity_reply(id, vec![direct.clone(), relay.clone()], vec![]);
    assert_eq!(void_code_from_identity(&r).unwrap(), encode_void_code(&relay));
}

#[test]
fn local_code_falls_back_to_first_address() {
    let id = NodeId::parse(PEER).unwrap();
    let a = addr("/ip4/5.6.7.8/tcp/9");
    let b = addr("/ip4/9.9.9.9/tcp/1");
    let r = identity_reply(id, vec![a.clone(), b], vec![]);
    assert_eq!(void_code_from_identity(&r).unwrap(), encode_void_code(&a));
}

#[test]
fn no_address_error_message() {
    assert_eq!(BridgeError::NoAddressYet.message(), "No address available yet");
    assert_eq!(BridgeError::InvalidCode(CodecError::MissingScheme).message(), CodecError::MissingScheme.message());
}

#[test]
fn commands_map_to_engine_actions() {
    let id = NodeId::parse(PEER).unwrap();
    match command_action(NetworkCommand::SendSignal(id.clone(), "x".to_string())) {
        EngineAction::SendRequest(p, SignalingRequest(t)) => {
            assert_eq!(p.as_str(), PEER);
            assert_eq!(t, "x");
        }
        other => panic!("unexpected action {:?}", other),
    }
    assert!(matches!(command_action(NetworkCommand::GetIdentity), EngineAction::ReplyIdentity));
    assert!(matches!(command_action(NetworkCommand::Dial(id)), EngineAction::DialPeer(_)));
    let a = addr("/ip4/1.1.1.1/tcp/1");
    assert!(matches!(command_action(NetworkCommand::DialAddress(a)), EngineAction::DialAddress(x) if x.as_str() == "/ip4/1.1.1.1/tcp/1"));
}

#[test]
fn inbound_signal_is_reported_once_and_acknowledged() {
    let id = NodeId::parse(PEER).unwrap();
    let r = react_to_event(EngineEvent::InboundSignal(id, SignalingRequest("hello".to_string())));
    match r.notify {
        Some(HostEvent::InboundSignal { peer, payload }) => {
            assert_eq!(peer.as_str(), PEER);
            assert_eq!(payload, "hello");
        }
        other => panic!("unexpected notification {:?}", other),
    }
    assert_eq!(r.respond.unwrap().0, "ACK");
    assert_eq!(acknowledgement().0, "ACK");
}

#[test]
fn other_events_are_quiet() {
    let id = NodeId::parse(PEER).unwrap();
    let r = react_to_event(EngineEvent::ConnectionEstablished(id.clone()));
    assert!(r.notify.is_none() && r.respond.is_none());
    let r = react_to_event(EngineEvent::SignalAcknowledged(id));
    assert!(r.notify.is_none() && r.respond.is_none());
    let r = react_to_event(EngineEvent::Other);
    assert!(r.notify.is_none() && r.respond.is_none());
}

#[test]
fn listen_and_nat_events_reach_the_host() {
    let r = react_to_event(EngineEvent::NewListenAddr(addr("/ip4/0.0.0.0/tcp/5")));
    assert!(matches!(r.notify, Some(HostEvent::ListeningOn(a)) if a.as_str() == "/ip4/0.0.0.0/tcp/5"));
    assert!(r.respond.is_none());
    let r = react_to_event(EngineEvent::NatPublic(addr("/ip4/8.8.4.4/tcp/5")));
    assert!(matches!(r.notify, Some(HostEvent::PublicAddressConfirmed(a)) if a.as_str() == "/ip4/8.8.4.4/tcp/5"));
}
