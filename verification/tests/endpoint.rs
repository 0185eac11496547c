use rustfs_core::endpoint::{build_endpoint, tls_domain, tls_setup, EndpointError, DEFAULT_GRPC_SERVER_MESSAGE_LEN};
use rustfs_core::globals::MtlsIdentityPem;
use rustfs_core::transport::{EndpointSettings, TlsSettings};
use std::time::Duration;

const CA: &[u8] = b"-----BEGIN CERTIFICATE-----\nAAAA\n-----END CERTIFICATE-----\n";

fn settings(addr: &str, root: Option<&[u8]>) -> EndpointSettings {
    let endpoint = build_endpoint(addr, &root.map(|r| r.to_vec()), &None).unwrap();
    let s = endpoint.get_settings();
    assert_eq!(s.addr, addr);
    assert_eq!(s.connect_timeout_secs, Some(3));
    assert_eq!(s.tcp_keepalive_secs, Some(10));
    assert_eq!(s.http2_keep_alive_interval_secs, Some(5));
    assert_eq!(s.http2_keep_alive_timeout_secs, Some(3));
    assert_eq!(s.http2_keep_alive_while_idle, Some(true));
    assert_eq!(s.timeout_secs, Some(30));
    EndpointSettings {
        addr: s.addr.clone(),
        connect_timeout_secs: s.connect_timeout_secs,
        tcp_keepalive_secs: s.tcp_keepalive_secs,
        http2_keep_alive_interval_secs: s.http2_keep_alive_interval_secs,
        http2_keep_alive_timeout_secs: s.http2_keep_alive_timeout_secs,
        http2_keep_alive_while_idle: s.http2_keep_alive_while_idle,
        timeout_secs: s.timeout_secs,
        tls: s.tls.as_ref().map(|t| TlsSettings {
            system_roots: t.system_roots,
            ca_pem: t.ca_pem.clone(),
            domain: t.domain.clone(),
            identity: t.identity.clone(),
        }),
    }
}

#[test]
fn message_limit_is_a_hundred_mebibytes() {
    assert_eq!(DEFAULT_GRPC_SERVER_MESSAGE_LEN, 104857600);
}

#[test]
fn plain_peer_has_timeouts_and_no_tls() {
    assert!(settings("http://node1:9000", None).tls.is_none());
    // A root certificate does not make a plain peer a secure one.
    assert!(settings("http://node1:9000", Some(CA)).tls.is_none());
    // The prefix has to match letter for letter.
    assert!(settings("HTTPS://node1:9000", Some(CA)).tls.is_none());
}

#[test]
fn endpoint_dials_its_address() {
    let endpoint = build_endpoint("http://node1:9000/x", &None, &None).unwrap().into_endpoint();
    assert_eq!(endpoint.uri().to_string(), "http://node1:9000/x");
}

#[test]
fn builder_holds_what_can_be_read_back() {
    let endpoint = build_endpoint("https://node1:9000", &Some(CA.to_vec()), &None).unwrap().into_endpoint();
    assert_eq!(endpoint.uri().to_string(), "https://node1:9000/");
    assert_eq!(endpoint.get_connect_timeout(), Some(Duration::from_secs(3)));
    assert_eq!(endpoint.get_tcp_keepalive(), Some(Duration::from_secs(10)));
    assert!(endpoint.get_tcp_nodelay());
}

#[test]
fn secure_peer_is_checked_against_the_root_certificate() {
    let tls = settings("https://node1:9000/path", Some(CA)).tls.unwrap();
    assert!(!tls.system_roots);
    assert_eq!(tls.ca_pem.as_deref(), Some(CA));
    assert_eq!(tls.domain.as_deref(), Some("node1"));
    assert!(tls.identity.is_none());
}

#[test]
fn secure_peer_without_a_root_certificate_uses_the_system() {
    // Whether the machine has certificates decides; either way no other error comes.
    match build_endpoint("https://node1:9000", &None, &None) {
        Ok(endpoint) => {
            let tls = endpoint.get_settings().tls.as_ref().unwrap();
            assert!(tls.system_roots);
            assert!(tls.ca_pem.is_none());
            assert!(tls.domain.is_none());
            assert!(tls.identity.is_none());
        }
        Err(e) => assert!(matches!(e, EndpointError::Tls(_))),
    }
}

#[test]
fn invalid_address_is_refused() {
    for addr in ["", "http://a b", "https://"] {
        let r = build_endpoint(addr, &Some(CA.to_vec()), &None);
        assert!(matches!(r, Err(EndpointError::InvalidAddress(_))), "{addr:?}");
    }
}

#[test]
fn identity_that_is_no_certificate_is_refused() {
    let id = MtlsIdentityPem { cert_pem: b"no".to_vec(), key_pem: b"no".to_vec() };
    // A plain peer is never presented the identity.
    assert!(build_endpoint("http://node1:9000", &Some(CA.to_vec()), &Some(id.clone())).is_ok());
    let r = build_endpoint("https://node1:9000", &Some(CA.to_vec()), &Some(id));
    assert!(matches!(r, Err(EndpointError::Tls(_))));
}

#[test]
fn identity_is_presented_with_and_without_a_root_certificate() {
    let id = MtlsIdentityPem { cert_pem: b"cert".to_vec(), key_pem: b"key".to_vec() };
    for root in [None, Some(CA.to_vec())] {
        for addr in ["https://node1:9000", "https://:9000"] {
            let setup = tls_setup(addr, &root, &Some(id.clone()));
            let tls = setup.get_settings();
            let kept = tls.identity.as_ref().unwrap();
            assert_eq!((kept.cert_pem.as_slice(), kept.key_pem.as_slice()), (&b"cert"[..], &b"key"[..]));
            assert_eq!(tls.system_roots, root.is_none());
            assert_eq!(tls.ca_pem, root);
        }
        // The transport is given the identity too, and refuses this one.
        let r = build_endpoint("https://node1:9000", &root, &Some(id.clone()));
        assert!(matches!(r, Err(EndpointError::Tls(_))));
    }
}

#[test]
fn root_certificate_that_is_none_is_refused() {
    let broken = b"-----BEGIN CERTIFICATE-----\n*\n-----END CERTIFICATE-----\n".to_vec();
    let r = build_endpoint("https://node1:9000", &Some(broken), &None);
    assert!(matches!(r, Err(EndpointError::Tls(_))));
}

#[test]
fn host_is_cut_out_of_the_address() {
    assert_eq!(tls_domain("https://node1:9000"), "node1");
    assert_eq!(tls_domain("https://node1/a:b"), "node1");
    assert_eq!(tls_domain("https://node1"), "node1");
    assert_eq!(tls_domain("https://node1:9000/a/b"), "node1");
    assert_eq!(tls_domain("https://:9000"), "");
    assert_eq!(tls_domain("https:///x"), "");
    assert_eq!(tls_domain("https://https://node1"), "node1");
    assert_eq!(tls_domain("node1:1"), "node1");
}
