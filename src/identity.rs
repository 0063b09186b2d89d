//! Node identifiers and reachable addresses, kept in their canonical text form.
use vstd::prelude::*;
use vstd::string::*;
use crate::text::contains_run;

verus! {

/// Canonical text of a node identifier: what results from parsing `s` as a
/// libp2p peer identifier and printing it again, or `None` where `s` does not parse.
pub uninterp spec fn peer_id_canonical(s: Seq<char>) -> Option<Seq<char>>;

/// Canonical text of a multiaddress: what results from parsing `s` as a
/// multiaddress and printing it again, or `None` where `s` does not parse.
pub uninterp spec fn multiaddr_canonical(s: Seq<char>) -> Option<Seq<char>>;

pub open spec fn is_alnum(c: char) -> bool {
    ('0' <= c && c <= '9') || ('a' <= c && c <= 'z') || ('A' <= c && c <= 'Z')
}

/// Relies on `PeerId::from_str` (base58 decoding of a multihash) and on
/// `PeerId`'s `Display` (base58 encoding of its bytes): printing is
/// deterministic, parses back to the same identifier, and yields a non-empty
/// run of base58 characters.
#[verifier::external_body]
fn canonical_peer_text(s: &str) -> (r: Option<String>)
    ensures
        match r {
            Some(c) => peer_id_canonical(s@) == Some(c@) && peer_id_canonical(c@) == Some(c@)
                && c@.len() > 0 && forall|i: int| 0 <= i < c@.len() ==> is_alnum(#[trigger] c@[i]),
            None => peer_id_canonical(s@) is None,
        },
{
    match s.parse::<libp2p::PeerId>() {
        Ok(p) => Some(p.to_string()),
        Err(_) => None,
    }
}

/// Relies on `Multiaddr::from_str` and `Multiaddr`'s `Display`: a printed
/// multiaddress parses back to the same multiaddress, and text that does not
/// start with `/` is refused.
#[verifier::external_body]
fn canonical_multiaddr_text(s: &str) -> (r: Option<String>)
    ensures
        match r {
            Some(c) => multiaddr_canonical(s@) == Some(c@) && multiaddr_canonical(c@) == Some(c@),
            None => multiaddr_canonical(s@) is None,
        },
        s@.len() > 0 && s@[0] != '/' ==> r is None,
{
    match s.parse::<libp2p::Multiaddr>() {
        Ok(m) => Some(m.to_string()),
        Err(_) => None,
    }
}

/// A self-certifying node identifier, held in its canonical printed form.
#[derive(Debug)]
pub struct NodeId {
    text: String,
}

impl NodeId {
    #[verifier::type_invariant]
    spec fn inv(&self) -> bool {
        &&& peer_id_canonical(self.text@) == Some(self.text@)
        &&& self.text@.len() > 0
        &&& forall|i: int| 0 <= i < self.text@.len() ==> is_alnum(#[trigger] self.text@[i])
    }
}

impl Clone for NodeId {
    fn clone(&self) -> (r: Self)
        ensures
            r@ == self@,
    {
        proof {
            use_type_invariant(self);
        }
        NodeId { text: self.text.clone() }
    }
}

impl View for NodeId {
    type V = Seq<char>;

    closed spec fn view(&self) -> Seq<char> {
        self.text@
    }
}

impl NodeId {
    /// Parses identifier text; the result is held in canonical form.
    pub fn parse(s: &str) -> (r: Option<NodeId>)
        ensures
            match peer_id_canonical(s@) {
                Some(c) => r matches Some(id) && id@ == c,
                None => r is None,
            },
    {
        match canonical_peer_text(s) {
            Some(c) => Some(NodeId { text: c }),
            None => None,
        }
    }

    /// The canonical text of this identifier.
    pub fn as_str(&self) -> (r: &str)
        ensures
            r@ == self@,
            peer_id_canonical(r@) == Some(r@),
            r@.len() > 0,
            forall|i: int| 0 <= i < r@.len() ==> is_alnum(#[trigger] r@[i]),
    {
        proof {
            use_type_invariant(self);
        }
        self.text.as_str()
    }
}

/// The component that marks an address as running through a relay circuit.
pub open spec fn circuit_marker() -> Seq<char> {
    seq!['p', '2', 'p', '-', 'c', 'i', 'r', 'c', 'u', 'i', 't']
}

/// Whether the address text routes through a relay circuit.
pub open spec fn is_relay_text(s: Seq<char>) -> bool {
    contains_run(s, circuit_marker())
}

/// A transport address (carrier protocol, host, port, optional terminating
/// node), held in its canonical printed form.
#[derive(Debug)]
pub struct ReachableAddress {
    text: String,
}

impl ReachableAddress {
    #[verifier::type_invariant]
    spec fn inv(&self) -> bool {
        multiaddr_canonical(self.text@) == Some(self.text@)
    }
}

impl Clone for ReachableAddress {
    fn clone(&self) -> (r: Self)
        ensures
            r@ == self@,
    {
        proof {
            use_type_invariant(self);
        }
        ReachableAddress { text: self.text.clone() }
    }
}

impl View for ReachableAddress {
    type V = Seq<char>;

    closed spec fn view(&self) -> Seq<char> {
        self.text@
    }
}

impl ReachableAddress {
    /// Parses address text; the result is held in canonical form.
    pub fn parse(s: &str) -> (r: Option<ReachableAddress>)
        ensures
            match multiaddr_canonical(s@) {
                Some(c) => r matches Some(a) && a@ == c,
                None => r is None,
            },
            s@.len() > 0 && s@[0] != '/' ==> r is None,
    {
        match canonical_multiaddr_text(s) {
            Some(c) => Some(ReachableAddress { text: c }),
            None => None,
        }
    }

    /// The canonical text of this address.
    pub fn as_str(&self) -> (r: &str)
        ensures
            r@ == self@,
            multiaddr_canonical(r@) == Some(r@),
    {
        proof {
            use_type_invariant(self);
        }
        self.text.as_str()
    }

    /// Whether this address runs through a relay circuit.
    pub fn is_relay(&self) -> (r: bool)
        ensures
            r == is_relay_text(self@),
    {
        let s = self.text.as_str();
        let n = s.unicode_len();
        let marker = "p2p-circuit";
        proof {
            reveal_strlit("p2p-circuit");
            assert(marker@ =~= circuit_marker());
        }
        if n < 11 {
            return false;
        }
        let mut i: usize = 0;
        while i < n - 10
            invariant
                n == s@.len(),
                n >= 11,
                s@ == self@,
                marker@ == circuit_marker(),
                forall|k: int| 0 <= k < i ==> #[trigger] s@.subrange(k, k + 11) != circuit_marker(),
            decreases n - i,
        {
            let mut j: usize = 0;
            let mut same = true;
            while j < 11
                invariant
                    i + 11 <= n,
                    n == s@.len(),
                    marker@ == circuit_marker(),
                    j <= 11,
                    same == (forall|t: int| 0 <= t < j ==> s@[i + t] == circuit_marker()[t]),
                decreases 11 - j,
            {
                let a = s.get_char(i + j);
                let b = marker.get_char(j);
                if a != b {
                    same = false;
                }
                j = j + 1;
            }
            if same {
                proof {
                    assert(s@.subrange(i as int, i + 11) =~= circuit_marker());
                }
                return true;
            }
            proof {
                assert(s@[i + 0] == s@.subrange(i as int, i + 11)[0]);
                if s@.subrange(i as int, i + 11) == circuit_marker() {
                    assert forall|t: int| 0 <= t < 11 implies s@[i + t] == circuit_marker()[t] by {
                        assert(s@[i + t] == s@.subrange(i as int, i + 11)[t]);
                    }
                }
            }
            i = i + 1;
        }
        false
    }
}

} // verus!
