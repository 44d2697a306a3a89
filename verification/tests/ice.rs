use qlink_core::error::QlinkError;
use qlink_core::ice::{
    accept_ice_response, answer_ice_check, compute_message_integrity, constant_time_eq,
    encode_attribute, encode_ice_check, encode_xor_mapped_address, padding_len,
    parse_xor_mapped_address, push_attribute, random_transaction_id, transaction_id_of,
    IceCheckRequest, IceCredentials, StunAttribute, StunClass, StunMessage,
};
use qlink_core::net::{IpAddr, SocketAddr};
use qlink_core::time::Duration;

fn fixed_transaction_id() -> [u8; 12] {
    [
        0x01, 0x02, 0x03, 0x04, 0x05, 0x06, 0x07, 0x08, 0x09, 0x0a, 0x0b, 0x0c,
    ]
}

fn peer() -> SocketAddr {
    SocketAddr { ip: IpAddr::V4(0xcb00_7107), port: 54321 }
}

#[test]
fn binding_request_round_trips_without_authentication() {
    let mut message = StunMessage::new_binding_request(fixed_transaction_id());
    message.add(StunAttribute::Username("audience:author".into()));
    message.add(StunAttribute::Priority(0x7eff_ffff));
    message.add(StunAttribute::IceControlling(0xaa55_aa55_aa55_aa55));
    message.add(StunAttribute::UseCandidate);
    let bytes = message.encode(None);
    let decoded = StunMessage::decode(&bytes, None).unwrap();
    assert_eq!(decoded.class, StunClass::Request);
    assert_eq!(decoded.transaction_id, fixed_transaction_id());
    assert!(decoded
        .attributes
        .iter()
        .any(|a| matches!(a, StunAttribute::Username(_))));
    assert!(decoded
        .attributes
        .iter()
        .any(|a| matches!(a, StunAttribute::Priority(_))));
    assert!(decoded
        .attributes
        .iter()
        .any(|a| matches!(a, StunAttribute::IceControlling(_))));
    assert!(decoded
        .attributes
        .iter()
        .any(|a| matches!(a, StunAttribute::UseCandidate)));
    // FINGERPRINT is always appended.
    assert!(decoded
        .attributes
        .iter()
        .any(|a| matches!(a, StunAttribute::Fingerprint(_))));
}

#[test]
fn message_integrity_authenticates_with_correct_password() {
    let mut message = StunMessage::new_binding_request(fixed_transaction_id());
    message.add(StunAttribute::Username("audience:author".into()));
    let bytes = message.encode(Some("super-secret-password"));
    StunMessage::decode(&bytes, Some("super-secret-password")).unwrap();
}

#[test]
fn message_integrity_rejects_wrong_password() {
    let mut message = StunMessage::new_binding_request(fixed_transaction_id());
    message.add(StunAttribute::Username("audience:author".into()));
    let bytes = message.encode(Some("right-password"));
    let result = StunMessage::decode(&bytes, Some("wrong-password"));
    match result {
        Err(QlinkError::Protocol(reason)) => {
            assert!(reason.contains("MESSAGE-INTEGRITY"));
        }
        other => panic!("expected MI failure, got {other:?}"),
    }
}

#[test]
fn unauthenticated_messages_are_refused_where_a_password_is_asked_for() {
    let bytes = StunMessage::new_binding_request(fixed_transaction_id()).encode(None);
    assert!(StunMessage::decode(&bytes, Some("password")).is_err());
}

#[test]
fn fingerprint_detects_corruption() {
    let mut message = StunMessage::new_binding_request(fixed_transaction_id());
    message.add(StunAttribute::Username("audience:author".into()));
    let mut bytes = message.encode(Some("password"));
    // Flip a bit in the username area (after the 20-byte header).
    bytes[24] ^= 0x01;
    let result = StunMessage::decode(&bytes, None);
    match result {
        Err(QlinkError::Protocol(reason)) => {
            assert!(
                reason.contains("FINGERPRINT"),
                "expected FINGERPRINT failure, got {reason}"
            );
        }
        other => panic!("expected FINGERPRINT failure, got {other:?}"),
    }
}

#[test]
fn fingerprint_is_the_crc_of_what_precedes_it() {
    let mut message = StunMessage::new_binding_request(fixed_transaction_id());
    message.add(StunAttribute::Username("abc".into()));
    let bytes = message.encode(None);
    let at = bytes.len() - 8;
    let expected = crc32fast::hash(&bytes[..at]) ^ 0x5354_554e;
    assert_eq!(bytes[at..at + 4], [0x80, 0x28, 0x00, 0x04]);
    assert_eq!(bytes[at + 4..], expected.to_be_bytes());
    assert_eq!(&bytes[20..28], &[0x00, 0x06, 0x00, 0x03, b'a', b'b', b'c', 0]);
}

#[test]
fn integrity_is_the_known_hmac() {
    let tag = compute_message_integrity(b"what do ya want for nothing?", "Jefe");
    assert_eq!(hex::encode(tag), "effcdf6ae5eb2fa2d27416d5f184df9c259a7c79");
    let mut other = tag;
    assert!(constant_time_eq(&tag, &other));
    other[19] ^= 1;
    assert!(!constant_time_eq(&tag, &other));
}

#[test]
fn xor_mapped_address_round_trips_ipv4() {
    let addr = peer();
    let mut message = StunMessage::new_binding_success_response(fixed_transaction_id());
    message.add(StunAttribute::XorMappedAddress(addr));
    let bytes = message.encode(Some("password"));
    let decoded = StunMessage::decode(&bytes, Some("password")).unwrap();
    assert_eq!(decoded.find_xor_mapped_address(), Some(addr));
}

#[test]
fn xor_mapped_address_has_its_known_bytes() {
    let value = encode_xor_mapped_address(peer(), fixed_transaction_id());
    assert_eq!(value, vec![0, 1, 0xf5, 0x23, 0xea, 0x12, 0xd5, 0x45]);
    let v6 = SocketAddr { ip: IpAddr::V6(0x2001_0db8_0000_0000_0000_0000_0000_0001), port: 9 };
    let value = encode_xor_mapped_address(v6, fixed_transaction_id());
    assert_eq!(value.len(), 20);
    assert_eq!(parse_xor_mapped_address(&value, fixed_transaction_id()).unwrap(), v6);
    assert!(parse_xor_mapped_address(&[0, 3, 0, 0, 0, 0, 0, 0], fixed_transaction_id()).is_err());
    assert!(parse_xor_mapped_address(&[0, 1, 0], fixed_transaction_id()).is_err());
}

#[test]
fn error_response_round_trips_with_code_and_reason() {
    let mut response = StunMessage::new_binding_error_response(fixed_transaction_id());
    response.add(StunAttribute::ErrorCode {
        code: 401,
        reason: "Unauthorized".into(),
    });
    let bytes = response.encode(Some("password"));
    let decoded = StunMessage::decode(&bytes, Some("password")).unwrap();
    let (code, reason) = decoded.find_error_code().unwrap();
    assert_eq!(code, 401);
    assert_eq!(reason, "Unauthorized");
}

#[test]
fn malformed_messages_are_refused() {
    assert!(StunMessage::decode(&[0; 19], None).is_err());
    let good = StunMessage::new_binding_request(fixed_transaction_id()).encode(None);
    let mut bad_cookie = good.clone();
    bad_cookie[4] ^= 1;
    assert!(StunMessage::decode(&bad_cookie, None).is_err());
    let mut bad_type = good.clone();
    bad_type[1] = 0x02;
    assert!(StunMessage::decode(&bad_type, None).is_err());
    assert!(StunMessage::decode(&good[..good.len() - 1], None).is_err());
    assert_eq!(StunClass::Request.message_type(), 0x0001);
    assert_eq!(StunClass::from_message_type(0x0101).unwrap(), StunClass::SuccessResponse);
    assert!(StunClass::from_message_type(0x0002).is_err());
}

#[test]
fn attributes_are_padded_to_words() {
    assert_eq!((padding_len(0), padding_len(1), padding_len(2), padding_len(3)), (0, 3, 2, 1));
    let mut buffer = vec![0xaa];
    push_attribute(&mut buffer, 0x1234, &[1, 2, 3, 4, 5]);
    assert_eq!(buffer, vec![0xaa, 0x12, 0x34, 0, 5, 1, 2, 3, 4, 5, 0, 0, 0]);
    let mut buffer = Vec::new();
    encode_attribute(&mut buffer, &StunAttribute::Priority(7), &fixed_transaction_id());
    assert_eq!(buffer, vec![0x00, 0x24, 0, 4, 0, 0, 0, 7]);
}

fn request_with(credentials: &IceCredentials) -> IceCheckRequest {
    IceCheckRequest {
        remote_credentials: credentials.clone(),
        local_ufrag: IceCredentials::generate().unwrap().ufrag,
        local_priority: 0x7eff_ffff,
        controlling_tiebreaker: 0xdead_beef_cafe_d00d,
        use_candidate: true,
    }
}

#[test]
fn dev_ice_responder_authenticates_valid_check() {
    let credentials = IceCredentials::generate().unwrap();
    let local_addr = SocketAddr { ip: IpAddr::V4(0x7f00_0001), port: 40_000 };
    let request = request_with(&credentials);
    let transaction_id = random_transaction_id().unwrap();

    let sent = encode_ice_check(&request, transaction_id);
    let reply = answer_ice_check(&sent, local_addr, &credentials).unwrap();
    let result =
        accept_ice_response(&reply, &request, transaction_id, Duration::from_millis(3)).unwrap();
    // The responder echoes back our source address.
    let mapped = result.mapped_address.unwrap();
    assert_eq!(mapped.ip, local_addr.ip);
    assert_eq!(mapped.port, local_addr.port);
    assert_eq!(result.round_trip, Duration::from_millis(3));
}

#[test]
fn dev_ice_responder_rejects_wrong_credentials() {
    let server_credentials = IceCredentials::generate().unwrap();
    let attacker_belief = IceCredentials {
        ufrag: server_credentials.ufrag.clone(),
        password: "this-is-not-the-real-password".to_string(),
    };
    let request = IceCheckRequest {
        remote_credentials: attacker_belief,
        local_ufrag: IceCredentials::generate().unwrap().ufrag,
        local_priority: 0x7eff_ffff,
        controlling_tiebreaker: 1,
        use_candidate: false,
    };
    let transaction_id = random_transaction_id().unwrap();
    let sent = encode_ice_check(&request, transaction_id);
    // The responder either ignores the request or sends an error response signed
    // with its real password, which we can't verify. Both yield Err.
    match answer_ice_check(&sent, peer(), &server_credentials) {
        None => {}
        Some(reply) => {
            let result =
                accept_ice_response(&reply, &request, transaction_id, Duration::from_millis(1));
            assert!(result.is_err());
        }
    }
}

#[test]
fn responder_passes_over_what_is_no_check() {
    let credentials = IceCredentials::generate().unwrap();
    assert!(answer_ice_check(b"hello", peer(), &credentials).is_none());
    let response = StunMessage::new_binding_success_response(fixed_transaction_id()).encode(None);
    assert!(answer_ice_check(&response, peer(), &credentials).is_none());
}

#[test]
fn replies_to_other_checks_are_refused() {
    let credentials = IceCredentials::generate().unwrap();
    let request = request_with(&credentials);
    let sent = encode_ice_check(&request, fixed_transaction_id());
    let reply = answer_ice_check(&sent, peer(), &credentials).unwrap();
    let error = accept_ice_response(&reply, &request, [9; 12], Duration::from_millis(1));
    assert!(error.is_err());
}

#[test]
fn credentials_are_url_safe_base64() {
    let credentials = IceCredentials::from_entropy(&[0xfb, 0xff, 0xfe], &[0]);
    assert_eq!(credentials.ufrag, "-__-");
    assert_eq!(credentials.password, "AA");
    let fresh = IceCredentials::generate().unwrap();
    assert_eq!((fresh.ufrag.len(), fresh.password.len()), (11, 32));
    assert_ne!(fresh.password, IceCredentials::generate().unwrap().password);
    assert_ne!(random_transaction_id().unwrap(), random_transaction_id().unwrap());
}

#[test]
fn user_names_and_attributes_are_found() {
    let mut message = StunMessage::new_binding_request(fixed_transaction_id());
    assert_eq!(message.find_username(), None);
    assert_eq!(message.find_xor_mapped_address(), None);
    message.add(StunAttribute::Username("a:b".into()));
    message.add(StunAttribute::Username("c:d".into()));
    assert_eq!(message.find_username(), Some("a:b"));
    assert!(message.find_error_code().is_none());
}

#[test]
fn the_longest_body_round_trips() {
    for (len, password) in [(65_520, None), (65_496, Some("password"))] {
        let mut message = StunMessage::new_binding_request(fixed_transaction_id());
        message.attributes =
            vec![StunAttribute::Unknown { type_code: 0x7abc, value: vec![0x5a; len] }];
        let bytes = message.encode(password);
        assert_eq!(bytes.len(), 20 + 65_532);
        let decoded = StunMessage::decode(&bytes, password).unwrap();
        assert_eq!(decoded.class, message.class);
        assert_eq!(decoded.transaction_id, message.transaction_id);
        assert!(matches!(
            &decoded.attributes[0],
            StunAttribute::Unknown { type_code: 0x7abc, value } if *value == vec![0x5a; len]
        ));
        assert!(matches!(decoded.attributes.last(), Some(StunAttribute::Fingerprint(_))));
        assert_eq!(decoded.attributes.len(), if password.is_some() { 3 } else { 2 });
    }
}

#[test]
fn a_transaction_id_is_the_bytes_that_were_drawn() {
    assert_eq!(transaction_id_of(&fixed_transaction_id()), fixed_transaction_id());
}
