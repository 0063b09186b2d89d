//! The rendezvous code: a copy-and-paste string that carries one reachable
//! address, either as its full text or as a (node, IPv4, port) triple.
use vstd::prelude::*;
use vstd::string::*;
use vstd::utf8::*;
use crate::identity::{ReachableAddress, NodeId, multiaddr_canonical, peer_id_canonical, is_alnum};
use crate::text::{trimmed, trim_ws, lemma_trimmed_unchanged, decimal, decimal_text, first_index, last_index, find_first, find_last,
    lemma_decimal_digits, is_digit, first_index_unique, last_index_unique, lemma_first_index_props};

verus! {

broadcast use encode_utf8_decode_utf8, encode_utf8_valid_utf8;

/// Standard base64 text (padded, standard alphabet) of the given bytes.
pub uninterp spec fn base64_text(b: Seq<u8>) -> Seq<char>;

/// The bytes that standard base64 text decodes to, or `None` where the text is
/// not canonical standard base64.
pub uninterp spec fn base64_bytes(s: Seq<char>) -> Option<Seq<u8>>;

/// A character of the standard base64 alphabet, padding included.
pub open spec fn is_base64_char(c: char) -> bool {
    is_alnum(c) || c == '+' || c == '/' || c == '='
}

/// Relies on base64's `STANDARD` engine `encode`: output is padded text over
/// the standard alphabet.
#[verifier::external_body]
fn base64_encode(b: &[u8]) -> (r: String)
    ensures
        r@ == base64_text(b@),
        forall|i: int| 0 <= i < r@.len() ==> is_base64_char(#[trigger] r@[i]),
{
    base64::Engine::encode(&base64::engine::general_purpose::STANDARD, b)
}

/// Relies on base64's `STANDARD` engine `decode`: it inverts `encode` and
/// refuses any byte outside the alphabet.
#[verifier::external_body]
fn base64_decode(s: &str) -> (r: Option<Vec<u8>>)
    ensures
        match r {
            Some(v) => base64_bytes(s@) == Some(v@),
            None => base64_bytes(s@) is None,
        },
        forall|b: Seq<u8>| #[trigger] base64_text(b) == s@ ==> r is Some && r->Some_0@ == b,
        (exists|i: int| 0 <= i < s@.len() && !is_base64_char(#[trigger] s@[i])) ==> r is None,
{
    match base64::Engine::decode(&base64::engine::general_purpose::STANDARD, s) {
        Ok(v) => Some(v),
        Err(_) => None,
    }
}

/// Relies on `String::from_utf8`: it succeeds exactly on valid UTF-8 and then
/// holds the decoded characters.
#[verifier::external_body]
pub(crate) fn utf8_text(b: Vec<u8>) -> (r: Option<String>)
    ensures
        match r {
            Some(t) => valid_utf8(b@) && t@ == decode_utf8(b@),
            None => !valid_utf8(b@),
        },
{
    match String::from_utf8(b) {
        Ok(t) => Some(t),
        Err(_) => None,
    }
}

/// Why a rendezvous code was refused.
#[derive(Clone, Copy, Debug, PartialEq, Eq, Structural)]
pub enum CodecError {
    /// The code does not start with the scheme tag.
    MissingScheme,
    /// The text after the tag is not standard base64.
    InvalidBase64,
    /// The decoded bytes are not UTF-8 text.
    InvalidUtf8,
    /// The payload is neither an address nor `<node>@<ip>:<port>`.
    BadDelimiters,
    /// The `<ip>:<port>` part has no port separator.
    MissingPort,
    /// The fields do not make a valid address.
    InvalidAddress,
}

impl CodecError {
    /// A sentence describing the error.
    pub fn message(&self) -> (r: &'static str)
        ensures
            r@ == codec_error_message(*self),
    {
        match self {
            CodecError::MissingScheme => "Invalid code: missing void:// prefix",
            CodecError::InvalidBase64 => "Base64 decode error",
            CodecError::InvalidUtf8 => "UTF-8 decode error",
            CodecError::BadDelimiters => "Invalid format. Expected an address or <peer_id>@<ip>:<port>",
            CodecError::MissingPort => "Invalid address format. Missing port.",
            CodecError::InvalidAddress => "Invalid Multiaddr construction",
        }
    }
}

pub open spec fn codec_error_message(e: CodecError) -> Seq<char> {
    match e {
        CodecError::MissingScheme => "Invalid code: missing void:// prefix"@,
        CodecError::InvalidBase64 => "Base64 decode error"@,
        CodecError::InvalidUtf8 => "UTF-8 decode error"@,
        CodecError::BadDelimiters => "Invalid format. Expected an address or <peer_id>@<ip>:<port>"@,
        CodecError::MissingPort => "Invalid address format. Missing port."@,
        CodecError::InvalidAddress => "Invalid Multiaddr construction"@,
    }
}

/// The scheme tag that every code starts with.
pub open spec fn scheme_tag() -> Seq<char> {
    seq!['v', 'o', 'i', 'd', ':', '/', '/']
}

/// The code for an address: the tag, then the base64 of the address text.
pub open spec fn encode_spec(addr: Seq<char>) -> Seq<char> {
    scheme_tag() + base64_text(encode_utf8(addr))
}

/// The payload of a field code: `<node>@<ip>:<port>`.
pub open spec fn fields_payload(node: Seq<char>, ip: Seq<char>, port: nat) -> Seq<char> {
    node + seq!['@'] + ip + seq![':'] + decimal(port)
}

/// The code for a (node, IPv4, port) triple.
pub open spec fn fields_code_spec(node: Seq<char>, ip: Seq<char>, port: nat) -> Seq<char> {
    scheme_tag() + base64_text(encode_utf8(fields_payload(node, ip, port)))
}

/// The QUIC address that a field code stands for.
pub open spec fn quic_text(node: Seq<char>, ip: Seq<char>, port: Seq<char>) -> Seq<char> {
    "/ip4/"@ + ip + "/udp/"@ + port + "/quic-v1/p2p/"@ + node
}

/// Reading a payload as `<node>@<ip>:<port>`: exactly one `@`, the port after
/// the last `:`.
pub open spec fn decode_fields_spec(t: Seq<char>) -> Result<Seq<char>, CodecError> {
    match first_index(t, '@') {
        None => Err(CodecError::BadDelimiters),
        Some(at) => {
            let node = t.subrange(0, at);
            let rest = t.subrange(at + 1, t.len() as int);
            if first_index(rest, '@') is Some {
                Err(CodecError::BadDelimiters)
            } else {
                match last_index(rest, ':') {
                    None => Err(CodecError::MissingPort),
                    Some(k) => match multiaddr_canonical(
                        quic_text(node, rest.subrange(0, k), rest.subrange(k + 1, rest.len() as int)),
                    ) {
                        Some(c) => Ok(c),
                        None => Err(CodecError::InvalidAddress),
                    },
                }
            }
        },
    }
}

/// Reading a payload: as address text first, then as fields.
pub open spec fn decode_payload_spec(t: Seq<char>) -> Result<Seq<char>, CodecError> {
    match multiaddr_canonical(t) {
        Some(c) => Ok(c),
        None => decode_fields_spec(t),
    }
}

/// Reading a whole code, white space around it set aside.
pub open spec fn decode_spec(code: Seq<char>) -> Result<Seq<char>, CodecError> {
    decode_tagged_spec(trimmed(code))
}

/// Reading a code that starts with its tag.
pub open spec fn decode_tagged_spec(code: Seq<char>) -> Result<Seq<char>, CodecError> {
    if code.len() < 7 || code.subrange(0, 7) != scheme_tag() {
        Err(CodecError::MissingScheme)
    } else {
        match base64_bytes(code.subrange(7, code.len() as int)) {
            None => Err(CodecError::InvalidBase64),
            Some(b) => if !valid_utf8(b) {
                Err(CodecError::InvalidUtf8)
            } else {
                decode_payload_spec(decode_utf8(b))
            },
        }
    }
}

/// The code for an address.
pub fn encode_void_code(addr: &ReachableAddress) -> (r: String)
    ensures
        r@ == encode_spec(addr@),
        forall|i: int| 7 <= i < r@.len() ==> is_base64_char(#[trigger] r@[i]),
        trimmed(r@) == r@,
{
    let text = addr.as_str();
    let payload = base64_encode(text.as_bytes());
    let tag = "void://";
    proof {
        reveal_strlit("void://");
        assert(tag@ =~= scheme_tag());
    }
    let r = String::from_str(tag).concat(payload.as_str());
    proof {
        assert forall|i: int| 7 <= i < r@.len() implies is_base64_char(#[trigger] r@[i]) by {
            assert(r@[i] == payload@[i - 7]);
        }
        assert(r@.subrange(0, 7) =~= scheme_tag());
        lemma_code_untrimmed(r@);
    }
    r
}

/// The code for a (node, IPv4, port) triple: the tag, then the base64 of
/// `<node>@<ip>:<port>`.
pub fn generate_void_code(peer_id: &NodeId, public_ip: &str, port: u16) -> (r: String)
    ensures
        r@ == fields_code_spec(peer_id@, public_ip@, port as nat),
        trimmed(r@) == r@,
{
    let at = "@";
    let colon = ":";
    let tag = "void://";
    proof {
        reveal_strlit("@");
        reveal_strlit(":");
        reveal_strlit("void://");
        assert(tag@ =~= scheme_tag());
    }
    let port_text = decimal_text(port as u64);
    let payload = String::from_str(peer_id.as_str()).concat(at).concat(public_ip).concat(colon).concat(
        port_text.as_str(),
    );
    let encoded = base64_encode(payload.as_str().as_bytes());
    let r = String::from_str(tag).concat(encoded.as_str());
    proof {
        assert(payload@ =~= fields_payload(peer_id@, public_ip@, port as nat));
        assert forall|i: int| 7 <= i < r@.len() implies is_base64_char(#[trigger] r@[i]) by {
            assert(r@[i] == encoded@[i - 7]);
        }
        assert(r@.subrange(0, 7) =~= scheme_tag());
        lemma_code_untrimmed(r@);
    }
    r
}

/// Whether `code` starts with the scheme tag.
fn has_scheme_tag(code: &str) -> (r: bool)
    ensures
        r == (code@.len() >= 7 && code@.subrange(0, 7) == scheme_tag()),
{
    let n = code.unicode_len();
    if n < 7 {
        return false;
    }
    let tag = "void://";
    proof {
        reveal_strlit("void://");
        assert(tag@ =~= scheme_tag());
    }
    let mut i: usize = 0;
    while i < 7
        invariant
            n == code@.len(),
            n >= 7,
            tag@ == scheme_tag(),
            i <= 7,
            forall|j: int| 0 <= j < i ==> code@[j] == scheme_tag()[j],
        decreases 7 - i,
    {
        if code.get_char(i) != tag.get_char(i) {
            proof {
                assert(code@.subrange(0, 7)[i as int] == code@[i as int]);
            }
            return false;
        }
        i = i + 1;
    }
    proof {
        assert(code@.subrange(0, 7) =~= scheme_tag());
    }
    true
}

/// Reads a payload as `<node>@<ip>:<port>` into the QUIC address it names.
fn decode_fields(t: &str) -> (r: Result<ReachableAddress, CodecError>)
    ensures
        match decode_fields_spec(t@) {
            Ok(c) => r matches Ok(a) && a@ == c,
            Err(e) => r matches Err(e2) && e2 == e,
        },
{
    let n = t.unicode_len();
    let at = match find_first(t, '@') {
        None => return Err(CodecError::BadDelimiters),
        Some(k) => k,
    };
    proof {
        lemma_first_index_props(t@, '@');
    }
    let node = t.substring_char(0, at);
    let rest = t.substring_char(at + 1, n);
    if find_first(rest, '@').is_some() {
        return Err(CodecError::BadDelimiters);
    }
    let m = rest.unicode_len();
    let k = match find_last(rest, ':') {
        None => return Err(CodecError::MissingPort),
        Some(k) => k,
    };
    proof {
        lemma_last_index_in(rest@, ':');
    }
    let ip = rest.substring_char(0, k);
    let port = rest.substring_char(k + 1, m);
    let text = String::from_str("/ip4/").concat(ip).concat("/udp/").concat(port).concat(
        "/quic-v1/p2p/",
    ).concat(node);
    proof {
        assert(text@ =~= quic_text(node@, ip@, port@));
    }
    match ReachableAddress::parse(text.as_str()) {
        Some(a) => Ok(a),
        None => Err(CodecError::InvalidAddress),
    }
}

proof fn lemma_last_index_in(s: Seq<char>, c: char)
    ensures
        last_index(s, c) matches Some(k) ==> 0 <= k < s.len(),
{
    crate::text::lemma_last_index_props(s, c);
}

/// Reads a code whose surrounding white space is gone.
fn parse_trimmed(code: &str) -> (r: Result<ReachableAddress, CodecError>)
    ensures
        match decode_tagged_spec(code@) {
            Ok(c) => r matches Ok(a) && a@ == c,
            Err(e) => r matches Err(e2) && e2 == e,
        },
        // a code made from address text reads back as that address
        forall|a: Seq<char>|
            multiaddr_canonical(a) is Some && code@ == #[trigger] encode_spec(a) ==> (r matches Ok(x)
                && Some(x@) == multiaddr_canonical(a)),
        // a code made from fields reads back as the QUIC address they name
        forall|node: Seq<char>, ip: Seq<char>, port: u16|
            peer_id_canonical(node) == Some(node) && node.len() > 0
                && (forall|i: int| 0 <= i < node.len() ==> is_alnum(#[trigger] node[i]))
                && !crate::text::has_char(ip, '@')
                && code@ == #[trigger] fields_code_spec(node, ip, port as nat)
                ==> match multiaddr_canonical(quic_text(node, ip, decimal(port as nat))) {
                Some(c) => r matches Ok(x) && x@ == c,
                None => r matches Err(e) && e == CodecError::InvalidAddress,
            },
        // a character outside the base64 alphabet after the tag is refused
        (code@.len() >= 7 && code@.subrange(0, 7) == scheme_tag() && exists|i: int|
            7 <= i < code@.len() && !is_base64_char(#[trigger] code@[i])) ==> (r matches Err(e) && e
            == CodecError::InvalidBase64),
{
    if !has_scheme_tag(code) {
        proof {
            assert forall|a: Seq<char>| code@ == #[trigger] encode_spec(a) implies false by {
                assert(encode_spec(a).subrange(0, 7) =~= scheme_tag());
            }
            assert forall|node: Seq<char>, ip: Seq<char>, port: u16|
                code@ == #[trigger] fields_code_spec(node, ip, port as nat) implies false by {
                assert(fields_code_spec(node, ip, port as nat).subrange(0, 7) =~= scheme_tag());
            }
        }
        return Err(CodecError::MissingScheme);
    }
    let n = code.unicode_len();
    let payload = code.substring_char(7, n);
    proof {
        assert forall|a: Seq<char>| code@ == #[trigger] encode_spec(a) implies payload@ == base64_text(
            encode_utf8(a),
        ) by {
            assert(payload@ =~= encode_spec(a).subrange(7, encode_spec(a).len() as int));
        }
        assert forall|node: Seq<char>, ip: Seq<char>, port: u16|
            code@ == #[trigger] fields_code_spec(node, ip, port as nat) implies payload@ == base64_text(
            encode_utf8(fields_payload(node, ip, port as nat)),
        ) by {
            let f = fields_code_spec(node, ip, port as nat);
            assert(payload@ =~= f.subrange(7, f.len() as int));
        }
        if exists|i: int| 7 <= i < code@.len() && !is_base64_char(#[trigger] code@[i]) {
            let i = choose|i: int| 7 <= i < code@.len() && !is_base64_char(#[trigger] code@[i]);
            assert(payload@[i - 7] == code@[i]);
        }
    }
    let bytes = match base64_decode(payload) {
        None => return Err(CodecError::InvalidBase64),
        Some(b) => b,
    };
    let text = match utf8_text(bytes) {
        None => return Err(CodecError::InvalidUtf8),
        Some(t) => t,
    };
    let t = text.as_str();
    match ReachableAddress::parse(t) {
        Some(a) => Ok(a),
        None => {
            proof {
                assert forall|node: Seq<char>, ip: Seq<char>, port: u16|
                    peer_id_canonical(node) == Some(node) && node.len() > 0
                        && (forall|i: int| 0 <= i < node.len() ==> is_alnum(#[trigger] node[i]))
                        && !crate::text::has_char(ip, '@')
                        && code@ == #[trigger] fields_code_spec(node, ip, port as nat)
                    implies decode_fields_spec(t@) == match multiaddr_canonical(quic_text(node, ip, decimal(port as nat))) {
                        Some(c) => Ok(c),
                        None => Err(CodecError::InvalidAddress),
                    } by {
                    assert(t@ == fields_payload(node, ip, port as nat));
                    lemma_fields_payload(node, ip, port as nat);
                }
            }
            decode_fields(t)
        },
    }
}

/// Reads a code back into the address it carries. White space around the
/// code is ignored; the tag must come first; the payload is read as address
/// text, and failing that as `<node>@<ip>:<port>`, which names a QUIC address.
pub fn parse_void_code(code: &str) -> (r: Result<ReachableAddress, CodecError>)
    ensures
        match decode_spec(code@) {
            Ok(c) => r matches Ok(a) && a@ == c,
            Err(e) => r matches Err(e2) && e2 == e,
        },
        // a code made from address text reads back as that address, in
        // canonical form (the same text where it was canonical already)
        forall|a: Seq<char>|
            multiaddr_canonical(a) is Some && trimmed(code@) == #[trigger] encode_spec(a) ==> (r matches Ok(x)
                && Some(x@) == multiaddr_canonical(a)),
        // a code made from fields reads back as the QUIC address they name
        forall|node: Seq<char>, ip: Seq<char>, port: u16|
            peer_id_canonical(node) == Some(node) && node.len() > 0
                && (forall|i: int| 0 <= i < node.len() ==> is_alnum(#[trigger] node[i]))
                && !crate::text::has_char(ip, '@')
                && trimmed(code@) == #[trigger] fields_code_spec(node, ip, port as nat)
                ==> match multiaddr_canonical(quic_text(node, ip, decimal(port as nat))) {
                Some(c) => r matches Ok(x) && x@ == c,
                None => r matches Err(e) && e == CodecError::InvalidAddress,
            },
        // a character outside the base64 alphabet after the tag is refused
        (trimmed(code@).len() >= 7 && trimmed(code@).subrange(0, 7) == scheme_tag() && exists|i: int|
            7 <= i < trimmed(code@).len() && !is_base64_char(#[trigger] trimmed(code@)[i])) ==> (r matches Err(e)
            && e == CodecError::InvalidBase64),
{
    let t = trim_ws(code);
    parse_trimmed(t)
}

/// Codes have no white space at either end.
proof fn lemma_code_untrimmed(code: Seq<char>)
    requires
        code.len() >= 7,
        code.subrange(0, 7) == scheme_tag(),
        forall|i: int| 7 <= i < code.len() ==> is_base64_char(#[trigger] code[i]),
    ensures
        trimmed(code) == code,
{
    assert(code[0] == code.subrange(0, 7)[0]);
    if code.len() == 7 {
        assert(code.last() == code.subrange(0, 7)[6]);
    } else {
        assert(is_base64_char(code[code.len() - 1]));
    }
    lemma_trimmed_unchanged(code);
}

/// Reading `<node>@<ip>:<port>` back gives the QUIC address of those fields.
pub proof fn lemma_fields_payload(node: Seq<char>, ip: Seq<char>, port: nat)
    requires
        node.len() > 0,
        forall|i: int| 0 <= i < node.len() ==> is_alnum(#[trigger] node[i]),
        !crate::text::has_char(ip, '@'),
    ensures
        decode_fields_spec(fields_payload(node, ip, port)) == match multiaddr_canonical(
            quic_text(node, ip, decimal(port)),
        ) {
            Some(c) => Ok(c),
            None => Err(CodecError::InvalidAddress),
        },
{
    let t = fields_payload(node, ip, port);
    let d = decimal(port);
    lemma_decimal_digits(port);
    let at = node.len() as int;
    assert(t[at] == '@');
    assert forall|j: int| 0 <= j < at implies t[j] != '@' by {
        assert(t[j] == node[j]);
        assert(is_alnum(node[j]));
    }
    first_index_unique(t, '@', at);
    let rest = t.subrange(at + 1, t.len() as int);
    assert(rest =~= ip + seq![':'] + d);
    lemma_first_index_props(rest, '@');
    assert forall|j: int| 0 <= j < rest.len() implies rest[j] != '@' by {
        if j < ip.len() {
            assert(rest[j] == ip[j]);
        } else if j > ip.len() {
            assert(rest[j] == d[j - ip.len() - 1]);
            assert(is_digit(d[j - ip.len() - 1]));
        }
    }
    match first_index(rest, '@') {
        Some(k) => {
            assert(rest[k] == '@');
        },
        None => {},
    }
    let k = ip.len() as int;
    assert(rest[k] == ':');
    assert forall|j: int| k < j < rest.len() implies rest[j] != ':' by {
        assert(rest[j] == d[j - k - 1]);
        assert(is_digit(d[j - k - 1]));
    }
    last_index_unique(rest, ':', k);
    assert(rest.subrange(0, k) =~= ip);
    assert(rest.subrange(k + 1, rest.len() as int) =~= d);
    assert(t.subrange(0, at) =~= node);
}

} // verus!
