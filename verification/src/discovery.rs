//! Peers, their device keys and the records that they publish.

use crate::error::QlinkError;
use crate::ice::IceCredentials;
use crate::mdns_discovery::{is_fingerprint, key_fingerprint};
use crate::net::{IpAddr, SocketAddr};
use vstd::prelude::*;

verus! {

/// Where a candidate address was learned.
#[derive(Debug, Clone, Copy, PartialEq, Eq, Structural)]
pub enum CandidateType {
    Host,
    ServerReflexive,
    Relay,
}

/// An address under which a peer may be reached. `ip` is what the address text
/// reads as, where it is an internet address.
#[derive(Debug, Clone)]
pub struct CandidateEndpoint {
    pub candidate_type: CandidateType,
    pub address: String,
    pub ip: Option<IpAddr>,
    pub port: u16,
    pub priority: u32,
}

/// A device's public key, with what is derived from the key alone: the peer id
/// that it stands for, the JSON form that its hashes are taken over, and the
/// fingerprint that its announcements carry.
#[derive(Debug, Clone)]
pub struct DevicePublicKey {
    pub algorithm: String,
    pub bytes: Vec<u8>,
    pub peer_id: String,
    pub json: Vec<u8>,
    pub fingerprint: String,
}

impl DevicePublicKey {
    /// A key with its fingerprint.
    pub fn new<F: Fn(&[u8], &[&[u8]]) -> [u8; 8]>(
        algorithm: String,
        bytes: Vec<u8>,
        peer_id: String,
        json: Vec<u8>,
        shake256_xof: F,
    ) -> (key: DevicePublicKey)
        requires
            forall|label: &[u8], parts: &[&[u8]]| #[trigger]
                call_requires(shake256_xof, (label, parts)),
        ensures
            key.algorithm == algorithm,
            key.bytes == bytes,
            key.peer_id == peer_id,
            key.json == json,
            is_fingerprint(shake256_xof, algorithm@, bytes@, key.fingerprint@),
    {
        let fingerprint = key_fingerprint(algorithm.as_str(), bytes.as_slice(), shake256_xof);
        DevicePublicKey { algorithm, bytes, peer_id, json, fingerprint }
    }
}

/// What a peer says of itself before it signs.
#[derive(Debug, Clone)]
pub struct UnsignedPeerRecord {
    pub mesh_id: String,
    pub peer_id: String,
    pub alias: String,
    pub device_public_key: DevicePublicKey,
    pub endpoints: Vec<CandidateEndpoint>,
    pub routes: Vec<String>,
    pub issued_at_unix: u64,
    pub expires_at_unix: u64,
    pub sequence: u64,
    pub ice_credentials: IceCredentials,
    pub device_certificate_der: Vec<u8>,
}

/// A signed record, with the hash of the record and with what checking the
/// signature under the record's own device key came to: no error where it holds.
#[derive(Debug, Clone)]
pub struct PeerRecord {
    pub body: UnsignedPeerRecord,
    pub record_hash: Vec<u8>,
    pub signature_error: Option<QlinkError>,
}

/// What a dialling peer claims of itself, with what checking the claim came to.
#[derive(Debug, Clone)]
pub struct InboundIdentityAssertion {
    pub peer_id: String,
    pub mesh_id: String,
    pub device_public_key: DevicePublicKey,
    pub verification_error: Option<QlinkError>,
}

/// The model of a [`CandidateEndpoint`].
pub struct CandidateView {
    pub candidate_type: CandidateType,
    pub address: Seq<char>,
    pub ip: Option<IpAddr>,
    pub port: u16,
    pub priority: u32,
}

impl View for CandidateEndpoint {
    type V = CandidateView;

    open spec fn view(&self) -> CandidateView {
        CandidateView {
            candidate_type: self.candidate_type,
            address: self.address@,
            ip: self.ip,
            port: self.port,
            priority: self.priority,
        }
    }
}

/// The models of a list of candidates.
pub open spec fn candidate_views(candidates: Seq<CandidateEndpoint>) -> Seq<CandidateView> {
    Seq::new(candidates.len(), |i: int| candidates[i]@)
}

impl CandidateEndpoint {
    /// The same candidate again.
    pub fn duplicate(&self) -> (c: CandidateEndpoint)
        ensures
            c@ == self@,
    {
        CandidateEndpoint {
            candidate_type: self.candidate_type,
            address: self.address.clone(),
            ip: self.ip,
            port: self.port,
            priority: self.priority,
        }
    }
}

/// The socket address of a candidate, where its text is an internet address.
pub open spec fn socket_addr_of(c: CandidateView) -> Option<SocketAddr> {
    match c.ip {
        Some(ip) => Some(SocketAddr { ip, port: c.port }),
        None => None,
    }
}

/// The socket address of a candidate, where its text is an internet address.
pub fn candidate_socket_addr(candidate: &CandidateEndpoint) -> (r: Option<SocketAddr>)
    ensures
        r == socket_addr_of(candidate@),
{
    match candidate.ip {
        Some(ip) => Some(SocketAddr { ip, port: candidate.port }),
        None => None,
    }
}

} // verus!
