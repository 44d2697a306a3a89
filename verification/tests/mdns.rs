use qlink_core::discovery::DevicePublicKey;
use qlink_core::mdns_discovery::{
    compute_public_key_fingerprint, observe_service, sanitize_instance_name, service_names,
    txt_required, MdnsPeerAnnouncement,
};
use qlink_core::net::{IpAddr, SocketAddr};

fn sample_announcement() -> MdnsPeerAnnouncement {
    MdnsPeerAnnouncement {
        peer_id: "qlink_test-peer-id".to_string(),
        mesh_id: "devmesh".to_string(),
        alias: "peer-deadbeef".to_string(),
        sequence: 42,
        public_key_fingerprint: "abcdef0123456789".to_string(),
    }
}

#[test]
fn announcement_round_trips_through_txt_properties() {
    let original = sample_announcement();
    let map = original.to_txt_properties();
    let parsed = MdnsPeerAnnouncement::from_txt_properties(&map).unwrap();
    assert_eq!(parsed, original);
}

#[test]
fn announcement_decode_rejects_missing_fields() {
    let mut map = sample_announcement().to_txt_properties();
    map.remove("pid");
    let error = MdnsPeerAnnouncement::from_txt_properties(&map).unwrap_err();
    assert!(error.to_string().contains("missing field pid"));
}

#[test]
fn announcement_decode_rejects_non_numeric_sequence() {
    let mut map = sample_announcement().to_txt_properties();
    map.insert("seq".to_string(), "not-a-number".to_string());
    let error = MdnsPeerAnnouncement::from_txt_properties(&map).unwrap_err();
    assert!(error.to_string().contains("invalid mDNS seq"));
}

#[test]
fn bad_sequences_are_refused_as_std_refuses_them() {
    for text in ["", "+", "-1", "1x", "18446744073709551616", " 1"] {
        let mut map = sample_announcement().to_txt_properties();
        map.insert("seq".to_string(), text.to_string());
        let error = MdnsPeerAnnouncement::from_txt_properties(&map).unwrap_err();
        let reason = text.parse::<u64>().unwrap_err();
        assert_eq!(error.to_string(), format!("protocol error: invalid mDNS seq: {reason}"));
    }
    let mut map = sample_announcement().to_txt_properties();
    map.insert("seq".to_string(), "+18446744073709551615".to_string());
    assert_eq!(MdnsPeerAnnouncement::from_txt_properties(&map).unwrap().sequence, u64::MAX);
}

#[test]
fn instance_names_are_sanitized_to_dns_safe_chars() {
    assert_eq!(sanitize_instance_name("peer-deadbeef"), "peer-deadbeef");
    assert_eq!(
        sanitize_instance_name("peer with spaces"),
        "peer-with-spaces"
    );
    // Long names are truncated to the DNS-safe 63-char limit.
    let long = "a".repeat(120);
    assert_eq!(sanitize_instance_name(&long).len(), 63);
    // Empty / all-bad names get a fallback.
    assert_eq!(sanitize_instance_name(""), "qlink-peer");
}

#[test]
fn names_without_a_usable_character_get_the_fallback() {
    assert_eq!(sanitize_instance_name("!!!"), "qlink-peer");
    assert_eq!(sanitize_instance_name("!a!"), "-a-");
    assert_eq!(
        service_names("mac book"),
        ("mac-book".to_string(), "mac-book.local.".to_string())
    );
}

#[test]
fn txt_properties_payload_stays_compact() {
    // mDNS responses can technically carry many KB of TXT, but staying
    // under ~200 bytes after encoding keeps us safely inside a single
    // unfragmented response. Verify the payload doesn't accidentally
    // grow without us noticing.
    let map = sample_announcement().to_txt_properties();
    let keys = ["pid", "mid", "alias", "seq", "fp"];
    assert_eq!(map.len(), keys.len());
    let total_bytes: usize = keys.iter().map(|k| k.len() + map.get(k).unwrap().len() + 2).sum();
    assert!(
        total_bytes < 200,
        "TXT payload is {total_bytes} bytes; keep it tight"
    );
}

#[test]
fn public_key_fingerprint_uses_shake256_vector() {
    // The digest of SHAKE256 for this label and these parts; of anything else, none.
    let shake256_xof = |label: &[u8], parts: &[&[u8]]| -> [u8; 8] {
        assert_eq!(label, b"QuantumLink mDNS public key fingerprint v1");
        assert_eq!(parts, [b"ML-DSA-65".as_slice(), b"public-key-bytes".as_slice()]);
        [0x58, 0x58, 0x60, 0x63, 0xc3, 0x55, 0xfc, 0x8c]
    };
    let public_key = DevicePublicKey::new(
        "ML-DSA-65".to_string(),
        b"public-key-bytes".to_vec(),
        "qlink_test-peer-id".to_string(),
        Vec::new(),
        shake256_xof,
    );

    assert_eq!(
        compute_public_key_fingerprint(&public_key, shake256_xof),
        "58586063c355fc8c"
    );
    assert_eq!(public_key.fingerprint, "58586063c355fc8c");
}

#[test]
fn browser_filters_out_peers_in_other_meshes() {
    let mut announcement = sample_announcement();
    announcement.mesh_id = "mesh-a".to_string();
    let map = announcement.to_txt_properties();

    let decoded = MdnsPeerAnnouncement::from_txt_properties(&map).unwrap();
    assert_eq!(decoded.mesh_id, "mesh-a");
    assert_ne!(decoded.mesh_id, "mesh-b");

    let ips = vec![IpAddr::V4(0x7f00_0001), IpAddr::V6(1)];
    assert!(observe_service(&map, &ips, 4433, "mesh-b").is_none());
    let observation = observe_service(&map, &ips, 4433, "mesh-a").unwrap();
    assert_eq!(observation.announcement, announcement);
    assert_eq!(
        observation.addresses,
        vec![
            SocketAddr { ip: IpAddr::V4(0x7f00_0001), port: 4433 },
            SocketAddr { ip: IpAddr::V6(1), port: 4433 },
        ]
    );
}

#[test]
fn required_txt_fields_are_named_when_missing() {
    let mut map = sample_announcement().to_txt_properties();
    assert_eq!(txt_required(&map, "mid").unwrap(), "devmesh");
    map.remove("fp");
    let error = txt_required(&map, "fp").unwrap_err();
    assert_eq!(error.to_string(), "protocol error: mDNS announcement missing field fp");
    assert!(observe_service(&map, &Vec::new(), 1, "devmesh").is_none());
}
