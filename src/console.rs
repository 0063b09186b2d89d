//! The operator console: reading a typed line into a command, and what each
//! command asks the engine to do.
use vstd::prelude::*;
use vstd::string::*;
use crate::identity::{NodeId, ReachableAddress, peer_id_canonical, is_relay_text};
use crate::codec::{CodecError, decode_spec, encode_spec, encode_void_code, parse_void_code};
use crate::text::{is_ws, is_ws_char, skip_ws, lemma_skip_ws};

verus! {

/// The first position at or after `i` that is white space (or the end).
pub open spec fn word_end(s: Seq<char>, i: int) -> int
    decreases s.len() - i,
{
    if i < 0 || i >= s.len() {
        s.len() as int
    } else if is_ws(s[i]) {
        i
    } else {
        word_end(s, i + 1)
    }
}

/// The white-space separated words of `s` from position `i` on.
pub open spec fn words_from(s: Seq<char>, i: int) -> Seq<Seq<char>>
    decreases s.len() - i,
{
    if i < 0 || i >= s.len() {
        seq![]
    } else {
        let a = skip_ws(s, i);
        if a >= s.len() {
            seq![]
        } else {
            let b = word_end(s, a);
            if b <= i || b > s.len() || a > b {
                seq![]
            } else {
                seq![s.subrange(a, b)] + words_from(s, b)
            }
        }
    }
}

/// The white-space separated words of a line.
pub open spec fn words(s: Seq<char>) -> Seq<Seq<char>> {
    words_from(s, 0)
}

/// Words joined by single spaces.
pub open spec fn join_words(ws: Seq<Seq<char>>) -> Seq<char>
    decreases ws.len(),
{
    if ws.len() == 0 {
        seq![]
    } else if ws.len() == 1 {
        ws[0]
    } else {
        join_words(ws.drop_last()) + seq![' '] + ws.last()
    }
}

proof fn lemma_word_end(s: Seq<char>, i: int)
    requires
        0 <= i <= s.len(),
    ensures
        i <= word_end(s, i) <= s.len(),
        word_end(s, i) < s.len() ==> is_ws(s[word_end(s, i)]),
        forall|j: int| i <= j < word_end(s, i) ==> !is_ws(#[trigger] s[j]),
    decreases s.len() - i,
{
    if i < s.len() && !is_ws(s[i]) {
        lemma_word_end(s, i + 1);
    }
}

/// Splits a line into its white-space separated words.
pub fn split_words(line: &str) -> (r: Vec<String>)
    ensures
        r@.len() == words(line@).len(),
        forall|k: int| 0 <= k < r@.len() ==> #[trigger] r@[k]@ == words(line@)[k],
{
    let n = line.unicode_len();
    let ghost s = line@;
    let mut out: Vec<String> = Vec::new();
    let mut i: usize = 0;
    while i < n
        invariant
            n == s.len(),
            s == line@,
            i <= n,
            out@.len() + words_from(s, i as int).len() == words(s).len(),
            forall|k: int| 0 <= k < out@.len() ==> #[trigger] out@[k]@ == words(s)[k],
            forall|k: int|
                0 <= k < words_from(s, i as int).len() ==> #[trigger] words_from(s, i as int)[k] == words(
                    s,
                )[out@.len() + k],
        decreases n - i,
    {
        let ghost old_i = i as int;
        let ghost old_len = out@.len();
        proof {
            lemma_skip_ws(s, i as int);
        }
        let mut a = i;
        while a < n && is_ws_char(line.get_char(a))
            invariant
                n == s.len(),
                s == line@,
                old_i <= a <= n,
                a <= skip_ws(s, old_i),
                forall|j: int| old_i <= j < skip_ws(s, old_i) ==> is_ws(#[trigger] s[j]),
                skip_ws(s, old_i) < s.len() ==> !is_ws(s[skip_ws(s, old_i)]),
            decreases n - a,
        {
            a = a + 1;
        }
        assert(a == skip_ws(s, old_i));
        if a >= n {
            proof {
                assert(words_from(s, old_i).len() == 0);
            }
            i = n;
        } else {
            proof {
                lemma_word_end(s, a as int);
            }
            let mut b = a;
            while b < n && !is_ws_char(line.get_char(b))
                invariant
                    n == s.len(),
                    s == line@,
                    a <= b <= n,
                    b <= word_end(s, a as int),
                    forall|j: int| a <= j < word_end(s, a as int) ==> !is_ws(#[trigger] s[j]),
                    word_end(s, a as int) < s.len() ==> is_ws(s[word_end(s, a as int)]),
                decreases n - b,
            {
                b = b + 1;
            }
            assert(b == word_end(s, a as int));
            let w = String::from_str(line.substring_char(a, b));
            proof {
                assert(b > a) by {
                    assert(!is_ws(s[a as int]));
                }
                let rest = words_from(s, old_i);
                assert(rest == seq![s.subrange(a as int, b as int)] + words_from(s, b as int));
                assert(rest[0] == words(s)[old_len as int]);
                assert forall|k: int| 0 <= k < words_from(s, b as int).len() implies #[trigger] words_from(
                    s,
                    b as int,
                )[k] == words(s)[old_len + 1 + k] by {
                    assert(rest[k + 1] == words_from(s, b as int)[k]);
                }
            }
            out.push(w);
            i = b;
        }
    }
    proof {
        assert(words_from(s, n as int).len() == 0);
    }
    out
}

/// Joins `ws[from..]` with single spaces.
fn join_from(ws: &Vec<String>, from: usize) -> (r: String)
    requires
        from < ws@.len(),
    ensures
        r@ == join_words(ws@.subrange(from as int, ws@.len() as int).map_values(|t: String| t@)),
{
    let n = ws.len();
    let mut acc = ws[from].clone();
    let mut k: usize = from + 1;
    proof {
        let v = ws@.subrange(from as int, k as int).map_values(|t: String| t@);
        assert(v.len() == 1);
        assert(join_words(v) == v[0]);
    }
    while k < n
        invariant
            n == ws@.len(),
            from < k <= n,
            acc@ == join_words(ws@.subrange(from as int, k as int).map_values(|t: String| t@)),
        decreases n - k,
    {
        let ghost before = ws@.subrange(from as int, k as int).map_values(|t: String| t@);
        acc = acc.concat(" ").concat(ws[k].as_str());
        proof {
            reveal_strlit(" ");
            let after = ws@.subrange(from as int, k + 1).map_values(|t: String| t@);
            assert(after.drop_last() =~= before);
            assert(after.last() == ws@[k as int]@);
        }
        k = k + 1;
    }
    acc
}

/// Command-line options of the console mode.
#[derive(Clone, Debug)]
pub struct CliArgs {
    /// TCP port to listen on.
    pub port: Option<u16>,
    /// Path of the message database.
    pub db: Option<String>,
    /// A rendezvous code to dial at start.
    pub dial: Option<String>,
}

/// A line typed at the console.
#[derive(Debug)]
pub enum ConsoleCommand {
    /// Nothing but white space.
    Blank,
    /// `dial <code>`.
    Dial(String),
    /// `dial` without its code.
    DialUsage,
    /// `send <peer> <words...>`; the words are joined by single spaces.
    Send { peer: String, message: String },
    /// `send` without a peer or a message.
    SendUsage,
    /// `info`.
    Info,
    /// `exit`.
    Exit,
    /// Any other first word.
    Unknown,
}

/// What a line means, over its words.
pub open spec fn console_command_spec(w: Seq<Seq<char>>, r: ConsoleCommand) -> bool {
    if w.len() == 0 {
        r is Blank
    } else if w[0] == "dial"@ {
        if w.len() < 2 {
            r is DialUsage
        } else {
            r matches ConsoleCommand::Dial(c) && c@ == w[1]
        }
    } else if w[0] == "send"@ {
        if w.len() < 3 {
            r is SendUsage
        } else {
            r matches ConsoleCommand::Send { peer, message } && peer@ == w[1] && message@ == join_words(
                w.subrange(2, w.len() as int),
            )
        }
    } else if w[0] == "info"@ {
        r is Info
    } else if w[0] == "exit"@ {
        r is Exit
    } else {
        r is Unknown
    }
}

/// Reads a console line.
pub fn parse_console_line(line: &str) -> (r: ConsoleCommand)
    ensures
        console_command_spec(words(line@), r),
{
    let ws = split_words(line);
    let ghost w = words(line@);
    if ws.len() == 0 {
        return ConsoleCommand::Blank;
    }
    let first = &ws[0];
    assert(first@ == w[0]);
    if *first == String::from_str("dial") {
        if ws.len() < 2 {
            return ConsoleCommand::DialUsage;
        }
        return ConsoleCommand::Dial(ws[1].clone());
    }
    if *first == String::from_str("send") {
        if ws.len() < 3 {
            return ConsoleCommand::SendUsage;
        }
        let message = join_from(&ws, 2);
        proof {
            assert(ws@.subrange(2, ws@.len() as int).map_values(|t: String| t@) =~= w.subrange(2, w.len() as int));
        }
        return ConsoleCommand::Send { peer: ws[1].clone(), message };
    }
    if *first == String::from_str("info") {
        return ConsoleCommand::Info;
    }
    if *first == String::from_str("exit") {
        return ConsoleCommand::Exit;
    }
    ConsoleCommand::Unknown
}

/// What the console does for a command.
#[derive(Debug)]
pub enum ConsoleAction {
    /// A blank line: nothing.
    Nothing,
    /// Print how `dial` is used.
    ShowDialUsage,
    /// Dial the address that the code carries.
    Dial(ReachableAddress),
    /// Report a refused code.
    RejectCode(CodecError),
    /// Print how `send` is used.
    ShowSendUsage,
    /// Send a signaling request and log it as sent.
    Send(NodeId, crate::bridge::SignalingRequest),
    /// Report an identifier that does not parse.
    RejectPeer,
    /// Print the local identifier, the listen addresses and any relay code.
    ShowInfo,
    /// Leave the console loop.
    Quit,
    /// Report an unknown command.
    UnknownCommand,
}

/// The console's action for a command: codes and identifiers are checked here.
pub fn console_action(cmd: ConsoleCommand) -> (r: ConsoleAction)
    ensures
        match cmd {
            ConsoleCommand::Blank => r is Nothing,
            ConsoleCommand::DialUsage => r is ShowDialUsage,
            ConsoleCommand::Dial(code) => match decode_spec(code@) {
                Ok(a) => r matches ConsoleAction::Dial(x) && x@ == a,
                Err(e) => r matches ConsoleAction::RejectCode(e2) && e2 == e,
            },
            ConsoleCommand::SendUsage => r is ShowSendUsage,
            ConsoleCommand::Send { peer, message } => match peer_id_canonical(peer@) {
                Some(c) => r matches ConsoleAction::Send(id, q) && id@ == c && q.0@ == message@,
                None => r is RejectPeer,
            },
            ConsoleCommand::Info => r is ShowInfo,
            ConsoleCommand::Exit => r is Quit,
            ConsoleCommand::Unknown => r is UnknownCommand,
        },
{
    match cmd {
        ConsoleCommand::Blank => ConsoleAction::Nothing,
        ConsoleCommand::DialUsage => ConsoleAction::ShowDialUsage,
        ConsoleCommand::Dial(code) => match parse_void_code(code.as_str()) {
            Ok(a) => ConsoleAction::Dial(a),
            Err(e) => ConsoleAction::RejectCode(e),
        },
        ConsoleCommand::SendUsage => ConsoleAction::ShowSendUsage,
        ConsoleCommand::Send { peer, message } => match NodeId::parse(peer.as_str()) {
            Some(id) => ConsoleAction::Send(id, crate::bridge::SignalingRequest(message)),
            None => ConsoleAction::RejectPeer,
        },
        ConsoleCommand::Info => ConsoleAction::ShowInfo,
        ConsoleCommand::Exit => ConsoleAction::Quit,
        ConsoleCommand::Unknown => ConsoleAction::UnknownCommand,
    }
}

/// The code to announce for an address: one exists only for a relay-circuit
/// address, since only that one is reachable from outside.
pub fn relay_code(addr: &ReachableAddress) -> (r: Option<String>)
    ensures
        is_relay_text(addr@) ==> (r matches Some(c) && c@ == encode_spec(addr@)),
        !is_relay_text(addr@) ==> r is None,
{
    if addr.is_relay() {
        Some(encode_void_code(addr))
    } else {
        None
    }
}

} // verus!
