//! Core logic of a post-quantum mesh link.

pub mod admission;
pub mod admission_laws;
pub mod attack_laws;
pub mod bytes;
pub mod carrier_laws;
pub mod carrier_transport;
pub mod channel_attack;
pub mod connect;
pub mod connect_laws;
pub mod connector;
pub mod connector_laws;
pub mod control_transport;
pub mod ctl;
pub mod delivery_laws;
pub mod discovery;
pub mod document_laws;
pub mod dytallix_identity;
pub mod dytallix_identity_v2;
pub mod dytallix_provisioning_v2;
pub mod error;
pub mod ffi;
pub mod flow_laws;
pub mod flow_stability;
pub mod ice;
pub mod ice_laws;
pub mod identity_laws;
pub mod key_map;
pub mod local_loopback;
pub mod mdns_discovery;
pub mod mesh_connection;
pub mod net;
pub mod network_laws;
pub mod outside;
pub mod path_check_laws;
pub mod probe;
pub mod probe_laws;
pub mod provisioning_laws;
pub mod provisioning_run;
pub mod reassembly;
pub mod registry_laws;
pub mod settings_laws;
pub mod text;
pub mod text_laws;
pub mod text_map;
pub mod time;
pub mod tool_laws;
