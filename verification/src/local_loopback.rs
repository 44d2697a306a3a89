//! Local loopback runs, which are switched off: neither would go through a session
//! that is secured end to end.

use crate::discovery::CandidateType;
use crate::error::{QlinkErrorView, Result, protocol};
use crate::net::SocketAddr;
use vstd::prelude::*;
use vstd::string::*;

verus! {

/// What a loopback run over the mesh would report.
#[derive(Debug, Clone)]
pub struct MeshLoopbackResult {
    pub rendezvous_addr: SocketAddr,
    pub local_peer_id: String,
    pub remote_peer_id: String,
    pub quic_server_addr: SocketAddr,
    pub selected_path_type: CandidateType,
    pub selected_path_score: u32,
    pub protocol_family: u32,
    pub packet_bytes: usize,
    pub packet_round_trip: bool,
}

/// What a loopback run over a relay would report.
#[derive(Debug, Clone)]
pub struct RelayLoopbackResult {
    pub relay_addr: SocketAddr,
    pub source_peer_id: String,
    pub destination_peer_id: String,
    pub protocol_family: u32,
    pub packet_bytes: usize,
    pub packet_round_trip: bool,
}

pub fn run_local_mesh_loopback() -> (r: Result<MeshLoopbackResult>)
    ensures
        r matches Err(e) && e@ == QlinkErrorView::Protocol(
            "mesh loopback is disabled because the legacy local loopback bypasses the app-layer PQC frame session"@,
        ),
{
    Err(
        protocol(
            "mesh loopback is disabled because the legacy local loopback bypasses the app-layer PQC frame session",
        ),
    )
}

pub fn run_relay_loopback() -> (r: Result<RelayLoopbackResult>)
    ensures
        r matches Err(e) && e@ == QlinkErrorView::Protocol(
            "relay loopback is disabled until relay has an end-to-end PQC session"@,
        ),
{
    Err(protocol("relay loopback is disabled until relay has an end-to-end PQC session"))
}

} // verus!
