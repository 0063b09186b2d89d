use void_node::codec::{encode_void_code, CodecError};
use void_node::console::{console_action, parse_console_line, relay_code, split_words, ConsoleAction, ConsoleCommand};
use void_node::identity::ReachableAddress;

const PEER: &str = "QmNnooDu7bfjPFoTZYxMNLWUQJyrVwtbZg5gBMjTezGAJN";

#[test]
fn words_split_on_any_white_space() {
    assert_eq!(split_words("  a\tbb \n ccc  "), vec!["a", "bb", "ccc"]);
    assert!(split_words("").is_empty());
    assert!(split_words(" \u{3000} ").is_empty());
    assert_eq!(split_words("x\u{a0}y"), vec!["x", "y"]);
}

#[test]
fn send_joins_message_words() {
    match parse_console_line(&format!("  send {}  hello   there world ", PEER)) {
        ConsoleCommand::Send { peer, message } => {
            assert_eq!(peer, PEER);
            assert_eq!(message, "hello there world");
        }
        other => panic!("unexpected {:?}", other),
    }
}

#[test]
fn short_commands_ask_for_usage() {
    assert!(matches!(parse_console_line("dial"), ConsoleCommand::DialUsage));
    assert!(matches!(parse_console_line("send peer"), ConsoleCommand::SendUsage));
    assert!(matches!(parse_console_line("   "), ConsoleCommand::Blank));
    assert!(matches!(parse_console_line("info"), ConsoleCommand::Info));
    assert!(matches!(parse_console_line(" exit "), ConsoleCommand::Exit));
    assert!(matches!(parse_console_line("dance now"), ConsoleCommand::Unknown));
    assert!(matches!(parse_console_line("Exit"), ConsoleCommand::Unknown));
}

#[test]
fn dial_takes_its_code() {
    assert!(matches!(parse_console_line("dial void://abc extra"), ConsoleCommand::Dial(c) if c == "void://abc"));
}

#[test]
fn console_actions_check_codes_and_peers() {
    let a = console_action(parse_console_line("dial void://L2lwNC8xMjcuMC4wLjEvdGNwLzQwMDE="));
    assert!(matches!(a, ConsoleAction::Dial(x) if x.as_str() == "/ip4/127.0.0.1/tcp/4001"));
    let a = console_action(parse_console_line("dial nonsense"));
    assert!(matches!(a, ConsoleAction::RejectCode(CodecError::MissingScheme)));
    let a = console_action(parse_console_line("send nobody hi"));
    assert!(matches!(a, ConsoleAction::RejectPeer));
    let a = console_action(parse_console_line(&format!("send {} hi you", PEER)));
    assert!(matches!(a, ConsoleAction::Send(id, req) if id.as_str() == PEER && req.0 == "hi you"));
    assert!(matches!(console_action(ConsoleCommand::Exit), ConsoleAction::Quit));
    assert!(matches!(console_action(ConsoleCommand::Info), ConsoleAction::ShowInfo));
    assert!(matches!(console_action(ConsoleCommand::Blank), ConsoleAction::Nothing));
    assert!(matches!(console_action(ConsoleCommand::Unknown), ConsoleAction::UnknownCommand));
    assert!(matches!(console_action(ConsoleCommand::DialUsage), ConsoleAction::ShowDialUsage));
    assert!(matches!(console_action(ConsoleCommand::SendUsage), ConsoleAction::ShowSendUsage));
}

#[test]
fn relay_code_only_for_relay_addresses() {
    let relay = ReachableAddress::parse(&format!("/ip4/1.2.3.4/tcp/1/p2p/{}/p2p-circuit", PEER)).unwrap();
    assert_eq!(relay_code(&relay), Some(encode_void_code(&relay)));
    let direct = ReachableAddress::parse("/ip4/1.2.3.4/tcp/1").unwrap();
    assert_eq!(relay_code(&direct), None);
}
