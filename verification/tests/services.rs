use qlink_core::admission::{token_matches, AdmissionLimiter, ServiceAdmissionConfig};
use qlink_core::control_transport::{
    split_host_port, validate_host_port, ControlEndpoint, ControlTlsServerConfig,
};
use qlink_core::local_loopback::{run_local_mesh_loopback, run_relay_loopback};
use qlink_core::net::{IpAddr, SocketAddr};
use qlink_core::time::{Duration, Instant};

fn loopback(port: u16) -> SocketAddr {
    SocketAddr { ip: IpAddr::V4(0x7f00_0001), port }
}

fn at_millis(millis: u128) -> Instant {
    Instant { nanos: millis * 1_000_000 }
}

#[test]
fn admission_config_redacts_token_in_debug() {
    let config = ServiceAdmissionConfig::open().with_auth_token("secret-token");
    let debug = config.debug_text();
    assert!(debug.contains("auth_token_configured"));
    assert!(!debug.contains("secret-token"));
}

#[test]
fn admission_debug_text_reads_like_a_struct() {
    let config = ServiceAdmissionConfig::open()
        .with_auth_token("t")
        .with_rate_limit(3, Duration::from_millis(1500));
    assert_eq!(
        config.debug_text(),
        "ServiceAdmissionConfig { auth_token_configured: true, rate_limit: Some(RateLimitConfig { max_events: 3, window: 1.5s }) }"
    );
    assert_eq!(
        ServiceAdmissionConfig::default().debug_text(),
        "ServiceAdmissionConfig { auth_token_configured: false, rate_limit: None }"
    );
}

#[test]
fn token_auth_accepts_exact_match() {
    let config = ServiceAdmissionConfig::open().with_auth_token("shared");
    assert!(config.require_token(Some("shared"), "rendezvous").is_ok());
    assert!(config.require_token(Some("wrong"), "rendezvous").is_err());
    assert!(config.require_token(None, "rendezvous").is_err());
}

#[test]
fn refused_token_names_the_service() {
    let config = ServiceAdmissionConfig::open().with_auth_token("shared");
    let error = config.require_token(Some("share"), "relay").unwrap_err();
    assert_eq!(error.to_string(), "protocol error: relay authentication failed");
    assert!(ServiceAdmissionConfig::open().require_token(None, "relay").is_ok());
    assert!(config.auth_token_configured());
    assert!(token_matches("a", "a"));
    assert!(!token_matches("a", "ab"));
}

#[test]
fn limiter_applies_per_ip_windows() {
    let config = ServiceAdmissionConfig::open().with_rate_limit(1, Duration::from_millis(25));
    let mut limiter = AdmissionLimiter::new(&config);

    limiter.check(loopback(10), "relay", at_millis(0)).unwrap();
    let error = limiter.check(loopback(11), "relay", at_millis(0)).unwrap_err();
    assert!(error.to_string().contains("rate limit exceeded"));

    limiter.check(loopback(12), "relay", at_millis(30)).unwrap();
}

#[test]
fn limiter_counts_addresses_apart_and_up_to_the_limit() {
    let config = ServiceAdmissionConfig::open().with_rate_limit(2, Duration::from_millis(25));
    let mut limiter = AdmissionLimiter::new(&config);
    let other = SocketAddr { ip: IpAddr::V4(0x0a00_0001), port: 1 };
    for _ in 0..2 {
        limiter.check(loopback(10), "relay", at_millis(1)).unwrap();
        limiter.check(other, "relay", at_millis(1)).unwrap();
    }
    let error = limiter.check(other, "relay", at_millis(25)).unwrap_err();
    assert_eq!(error.to_string(), "protocol error: relay rate limit exceeded for 10.0.0.1");
    assert!(limiter.check(other, "relay", at_millis(26)).is_ok());
}

#[test]
fn limits_without_effect_are_passed_over() {
    let config = ServiceAdmissionConfig::open()
        .with_rate_limit(0, Duration::from_secs(1))
        .with_rate_limit(5, Duration::from_secs(0));
    assert!(config.rate_limit().is_none());
    let mut limiter = AdmissionLimiter::new(&config);
    for _ in 0..100 {
        assert!(limiter.check(loopback(1), "relay", at_millis(0)).is_ok());
    }
}

#[test]
fn parses_plain_and_tls_control_endpoints() {
    assert_eq!(
        ControlEndpoint::parse("127.0.0.1:9471").unwrap(),
        ControlEndpoint::Tcp("127.0.0.1:9471".into())
    );
    assert_eq!(
        ControlEndpoint::parse("tcp://127.0.0.1:9471").unwrap(),
        ControlEndpoint::Tcp("127.0.0.1:9471".into())
    );
    assert_eq!(
        ControlEndpoint::parse("tls://edge.example:9471").unwrap(),
        ControlEndpoint::Tls {
            address: "edge.example:9471".into(),
            server_name: "edge.example".into(),
        }
    );
}

#[test]
fn rejects_control_endpoints_without_ports() {
    assert!(ControlEndpoint::parse("tls://edge.example").is_err());
    assert!(ControlEndpoint::parse("edge.example").is_err());
}

#[test]
fn control_endpoints_tell_their_address_and_refusals() {
    let tls = ControlEndpoint::parse("tls://[::1]:7").unwrap();
    assert!(tls.is_tls());
    assert_eq!(tls.address(), "[::1]:7");
    assert_eq!(
        tls,
        ControlEndpoint::Tls { address: "[::1]:7".into(), server_name: "::1".into() }
    );
    assert!(!ControlEndpoint::parse("h:1").unwrap().is_tls());
    assert_eq!(
        ControlEndpoint::parse("tls://edge.example").unwrap_err().to_string(),
        "protocol error: tls control endpoint must be tls://host:port"
    );
    assert_eq!(
        ControlEndpoint::parse("tcp://edge.example").unwrap_err().to_string(),
        "protocol error: tcp control endpoint must be tcp://host:port or host:port"
    );
    assert_eq!(split_host_port("a:b:3"), Some(("a:b".to_string(), "3".to_string())));
    assert_eq!(split_host_port(":3"), None);
    assert_eq!(split_host_port("a:"), None);
    assert!(validate_host_port("a:1", "tcp").is_ok());
    let config = ControlTlsServerConfig::new("cert.pem", "key.pem");
    assert_eq!(config.cert_path, "cert.pem");
    assert_eq!(config.key_path, "key.pem");
}

#[test]
fn local_mesh_loopback_fails_closed_without_pqc_session() {
    let error = run_local_mesh_loopback().unwrap_err();
    assert!(error.to_string().contains("mesh loopback is disabled"));
}

#[test]
fn relay_loopback_fails_closed_without_pqc_session() {
    let error = run_relay_loopback().unwrap_err();
    assert!(error.to_string().contains("relay loopback is disabled"));
}

#[test]
fn durations_read_like_std() {
    let spans: [(u64, u32); 8] = [
        (0, 0),
        (0, 1),
        (0, 1_500),
        (0, 25_000_000),
        (1, 0),
        (1, 500_000_000),
        (90, 1),
        (0, 999_999_999),
    ];
    for (secs, nanos) in spans {
        let ours = Duration { nanos: secs as u128 * 1_000_000_000 + nanos as u128 };
        assert_eq!(ours.debug_text(), format!("{:?}", std::time::Duration::new(secs, nanos)));
    }
}

#[test]
fn addresses_read_as_usual() {
    assert_eq!(IpAddr::V4(0xc0a8_0001).to_string(), "192.168.0.1");
    assert_eq!(IpAddr::V6(1).to_string(), "::1");
    assert_eq!(IpAddr::V6(0).to_string(), "::");
    assert_eq!(
        IpAddr::V6(0x2001_0db8_0000_0000_0001_0000_0000_0001).to_string(),
        "2001:db8::1:0:0:1"
    );
    assert_eq!(IpAddr::V6(0xffff_0a00_0001).to_string(), "::ffff:10.0.0.1");
    assert_eq!(loopback(80).to_string(), "127.0.0.1:80");
    assert_eq!(SocketAddr { ip: IpAddr::V6(1), port: 443 }.to_string(), "[::1]:443");
}
