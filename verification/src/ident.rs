//! Identifiers that travel through the node as opaque byte strings.
//!
//! The node never looks inside a peer identity, a content identifier or a
//! network address: it stores them, compares them and hands them on. Each is
//! therefore a byte string, and its view is the sequence of its bytes.

use vstd::prelude::*;

verus! {

/// True exactly when the two byte strings hold the same bytes.
pub fn bytes_equal(a: &[u8], b: &[u8]) -> (same: bool)
    ensures
        same == (a@ == b@),
{
    if a.len() != b.len() {
        return false;
    }
    let mut i: usize = 0;
    while i < a.len()
        invariant
            a.len() == b.len(),
            i <= a.len(),
            forall|k: int| 0 <= k < i ==> a@[k] == b@[k],
        decreases a.len() - i,
    {
        if a[i] != b[i] {
            return false;
        }
        i += 1;
    }
    assert(a@ =~= b@);
    true
}

/// A fresh vector with the bytes of `a`.
pub fn copy_bytes(a: &[u8]) -> (copy: Vec<u8>)
    ensures
        copy@ == a@,
{
    let mut copy: Vec<u8> = Vec::new();
    let mut i: usize = 0;
    while i < a.len()
        invariant
            i <= a.len(),
            copy@ == a@.subrange(0, i as int),
        decreases a.len() - i,
    {
        copy.push(a[i]);
        assert(copy@ =~= a@.subrange(0, i + 1));
        i += 1;
    }
    assert(a@.subrange(0, a.len() as int) =~= a@);
    copy
}

/// Stable identity of a remote node.
#[derive(Debug, PartialEq, Eq, Hash)]
pub struct PeerId {
    bytes: Vec<u8>,
}

impl View for PeerId {
    type V = Seq<u8>;

    closed spec fn view(&self) -> Seq<u8> {
        self.bytes@
    }
}

impl PeerId {
    pub fn from_bytes(bytes: Vec<u8>) -> (id: PeerId)
        ensures
            id@ == bytes@,
    {
        PeerId { bytes }
    }

    pub fn to_bytes(&self) -> (bytes: Vec<u8>)
        ensures
            bytes@ == self@,
    {
        copy_bytes(self.bytes.as_slice())
    }

    pub fn as_bytes(&self) -> (bytes: &[u8])
        ensures
            bytes@ == self@,
    {
        self.bytes.as_slice()
    }

    /// Whether both name the same node.
    pub fn same(&self, other: &PeerId) -> (same: bool)
        ensures
            same == (self@ == other@),
    {
        bytes_equal(self.bytes.as_slice(), other.bytes.as_slice())
    }
}

impl Clone for PeerId {
    fn clone(&self) -> (copy: PeerId)
        ensures
            copy@ == self@,
    {
        PeerId { bytes: copy_bytes(self.bytes.as_slice()) }
    }
}

/// Content identifier: the hash-derived name of a block.
#[derive(Debug, PartialEq, Eq, Hash)]
pub struct Cid {
    bytes: Vec<u8>,
}

impl View for Cid {
    type V = Seq<u8>;

    closed spec fn view(&self) -> Seq<u8> {
        self.bytes@
    }
}

impl Cid {
    pub fn from_bytes(bytes: Vec<u8>) -> (id: Cid)
        ensures
            id@ == bytes@,
    {
        Cid { bytes }
    }

    pub fn to_bytes(&self) -> (bytes: Vec<u8>)
        ensures
            bytes@ == self@,
    {
        copy_bytes(self.bytes.as_slice())
    }

    pub fn as_bytes(&self) -> (bytes: &[u8])
        ensures
            bytes@ == self@,
    {
        self.bytes.as_slice()
    }

    /// Whether both name the same block.
    pub fn same(&self, other: &Cid) -> (same: bool)
        ensures
            same == (self@ == other@),
    {
        bytes_equal(self.bytes.as_slice(), other.bytes.as_slice())
    }
}

impl Clone for Cid {
    fn clone(&self) -> (copy: Cid)
        ensures
            copy@ == self@,
    {
        Cid { bytes: copy_bytes(self.bytes.as_slice()) }
    }
}

/// Network address of a peer, in its binary form.
#[derive(Debug, PartialEq, Eq, Hash)]
pub struct Multiaddr {
    bytes: Vec<u8>,
}

impl View for Multiaddr {
    type V = Seq<u8>;

    closed spec fn view(&self) -> Seq<u8> {
        self.bytes@
    }
}

impl Multiaddr {
    pub fn from_bytes(bytes: Vec<u8>) -> (addr: Multiaddr)
        ensures
            addr@ == bytes@,
    {
        Multiaddr { bytes }
    }

    pub fn to_bytes(&self) -> (bytes: Vec<u8>)
        ensures
            bytes@ == self@,
    {
        copy_bytes(self.bytes.as_slice())
    }

    pub fn as_bytes(&self) -> (bytes: &[u8])
        ensures
            bytes@ == self@,
    {
        self.bytes.as_slice()
    }
}

/// The circuit address that the network stack derives from the address of
/// a relay, or `None` where the bytes are no address.
pub uninterp spec fn circuit_address(addr: Seq<u8>) -> Option<Seq<u8>>;

/// `libp2p::Multiaddr::with`, given `Protocol::P2pCircuit`, on the address
/// that `libp2p::Multiaddr::try_from` reads from the bytes: the address
/// through the relay. The bytes are read protocol by protocol, and bytes that
/// are no address give `None`. Where they are one, the result is the same
/// bytes followed by the code of the circuit protocol, 290, as a varint.
#[verifier::external_body]
pub(crate) fn relay_circuit(addr: &Multiaddr) -> (circuit: Option<Multiaddr>)
    ensures
        circuit is Some <==> circuit_address(addr@) is Some,
        circuit matches Some(c) ==> circuit_address(addr@) == Some(c@) && c@ == addr@ + seq![
            0xa2u8,
            0x02u8,
        ],
{
    match libp2p::Multiaddr::try_from(addr.bytes.clone()) {
        Ok(parsed) => Some(
            Multiaddr { bytes: parsed.with(libp2p::multiaddr::Protocol::P2pCircuit).to_vec() },
        ),
        Err(_) => None,
    }
}

impl Clone for Multiaddr {
    fn clone(&self) -> (copy: Multiaddr)
        ensures
            copy@ == self@,
    {
        Multiaddr { bytes: copy_bytes(self.bytes.as_slice()) }
    }
}

} // verus!
