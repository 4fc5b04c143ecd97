use quicsock::endpoint::{
    configure_client, configure_native_client, configure_self_signed_server, configure_server,
    native_root_store, pinned_root_store, EndpointError, ALPN_QUIC_HTTP, SERVER_MAX_UNI_STREAMS,
};
use quicsock::tls::TlsError;

fn cert_der() -> Vec<u8> {
    rcgen::generate_simple_self_signed(vec!["localhost".to_string()]).unwrap().cert.der().to_vec()
}

#[test]
fn pinned_store_holds_every_certificate() {
    let a = cert_der();
    let b = cert_der();
    let store = pinned_root_store(&[&a, &b]).unwrap();
    assert_eq!(store.len(), 2);
}

#[test]
fn pinned_store_names_the_first_invalid_certificate() {
    let a = cert_der();
    let r = pinned_root_store(&[&a, b"junk", b"more junk"]);
    assert!(matches!(r, Err(EndpointError::InvalidCertificate(1))));
    let r = pinned_root_store(&[b"junk"]);
    assert!(matches!(r, Err(EndpointError::InvalidCertificate(0))));
}

#[test]
fn pinned_client_configuration() {
    let a = cert_der();
    assert!(configure_client(&[&a]).is_ok());
    assert!(matches!(configure_client(&[]), Err(EndpointError::NoRootAnchors)));
    assert!(matches!(configure_client(&[&a, b"x"]), Err(EndpointError::InvalidCertificate(1))));
}

#[test]
fn native_store_skips_invalid_certificates() {
    let a = cert_der();
    let store = native_root_store(&vec![b"junk".to_vec(), a.clone(), Vec::new(), a]);
    assert_eq!(store.len(), 2);
    assert_eq!(native_root_store(&Vec::new()).len(), 0);
}

#[test]
fn native_client_configuration() {
    let a = cert_der();
    assert!(configure_native_client(&vec![a]).is_ok());
    assert!(configure_native_client(&Vec::new()).is_ok());
}

#[test]
fn self_signed_server_configuration() {
    assert!(configure_self_signed_server().is_ok());
    assert!(configure_server(None, None).is_ok());
}

#[test]
fn server_configuration_from_files() {
    let ck = rcgen::generate_simple_self_signed(vec!["localhost".to_string()]).unwrap();
    let cert = ck.cert.pem().into_bytes();
    let key = ck.key_pair.serialize_pem().into_bytes();
    assert!(configure_server(Some(("s.pem", cert.clone())), Some(("s.key", key))).is_ok());
    let r = configure_server(Some(("s.pem", cert.clone())), Some(("s.key", Vec::new())));
    assert!(matches!(r, Err(EndpointError::Material(TlsError::NoPrivateKey))));
    let r = configure_server(Some(("s.pem", cert)), Some(("s.der", vec![1, 2, 3])));
    assert!(matches!(r, Err(EndpointError::ServerConfig)));
}

#[test]
fn server_constants() {
    assert_eq!(SERVER_MAX_UNI_STREAMS, 0);
    assert_eq!(ALPN_QUIC_HTTP, "hq-29");
}

#[test]
fn server_configuration_refuses_a_key_of_another_certificate() {
    let a = rcgen::generate_simple_self_signed(vec!["localhost".to_string()]).unwrap();
    let b = rcgen::generate_simple_self_signed(vec!["localhost".to_string()]).unwrap();
    let r = configure_server(
        Some(("a.pem", a.cert.pem().into_bytes())),
        Some(("b.key", b.key_pair.serialize_pem().into_bytes())),
    );
    assert!(matches!(r, Err(EndpointError::ServerConfig)));
}
