//! Trust stores and transport configurations for the client and server
//! roles.

use crate::tls::{
    generate_self_signed_pair, load_or_generate_cert, loaded_spec, KeyEncoding, PrivateKey, TlsError,
    TrustMaterial,
};
use quinn_proto::crypto::rustls::{QuicClientConfig, QuicServerConfig};
use rustls::pki_types::{CertificateDer, PrivateKeyDer};
use std::sync::Arc;
use vstd::prelude::*;
use vstd::slice::slice_to_vec;
use vstd::string::StringSliceAdditionalSpecFns;

verus! {

#[verifier::external_type_specification]
#[verifier::external_body]
pub struct ExRootCertStore(rustls::RootCertStore);

#[verifier::external_type_specification]
#[verifier::external_body]
pub struct ExRustlsError(rustls::Error);

#[verifier::external_type_specification]
#[verifier::external_body]
pub struct ExClientConfig(quinn::ClientConfig);

#[verifier::external_type_specification]
#[verifier::external_body]
pub struct ExServerConfig(quinn::ServerConfig);

/// The application protocol identifier of the transport.
pub const ALPN_QUIC_HTTP: &'static str = "hq-29";

/// The largest number of unidirectional streams a peer may open towards a
/// server: none, so that only bidirectional streams are offered.
pub const SERVER_MAX_UNI_STREAMS: u32 = 0;

/// The trust anchors of a root store, in the order they were added, each as
/// its subject, its subject public key info and its name constraints.
pub uninterp spec fn trust_anchors(store: rustls::RootCertStore) -> Seq<
    (Seq<u8>, Seq<u8>, Option<Seq<u8>>),
>;

/// The trust anchor that a DER certificate yields, `None` where it does not
/// parse as one.
pub uninterp spec fn trust_anchor_of(der: Seq<u8>) -> Option<(Seq<u8>, Seq<u8>, Option<Seq<u8>>)>;

/// Relies on `rustls::RootCertStore::empty`: a store without anchors.
pub assume_specification[ rustls::RootCertStore::empty ]() -> (r: rustls::RootCertStore)
    ensures
        trust_anchors(r) == Seq::<(Seq<u8>, Seq<u8>, Option<Seq<u8>>)>::empty(),
;

/// Relies on `rustls::RootCertStore::add`: the anchor of `der` is appended
/// where it parses, and the store is left as it was where it does not.
#[verifier::external_body]
fn add_root(store: &mut rustls::RootCertStore, der: &[u8]) -> (r: Result<(), rustls::Error>)
    ensures
        match trust_anchor_of(der@) {
            Some(a) => r.is_ok() && trust_anchors(*final(store)) == trust_anchors(*old(store)).push(a),
            None => r.is_err() && trust_anchors(*final(store)) == trust_anchors(*old(store)),
        },
{
    store.add(CertificateDer::from(der))
}

/// The trust anchors a client configuration verifies servers against.
pub uninterp spec fn client_trust_anchors(config: quinn::ClientConfig) -> Seq<
    (Seq<u8>, Seq<u8>, Option<Seq<u8>>),
>;

/// The application protocols a client configuration advertises, in order.
pub uninterp spec fn client_alpn(config: quinn::ClientConfig) -> Seq<Seq<u8>>;

/// The application protocols a server configuration accepts, in order.
pub uninterp spec fn server_alpn(config: quinn::ServerConfig) -> Seq<Seq<u8>>;

/// The largest number of unidirectional streams a server configuration
/// lets a peer open.
pub uninterp spec fn uni_stream_limit(config: quinn::ServerConfig) -> u32;

/// Whether the TLS layer, with the ring provider and TLS 1.3, takes this
/// certificate chain with this key: the key loads, and is not found to
/// disagree with the public key of the first certificate.
pub uninterp spec fn single_cert_accepted(chain: Seq<Seq<u8>>, key: (KeyEncoding, Seq<u8>)) -> bool;

/// The certificate chain a server configuration presents, and the private
/// key it was given for it.
pub uninterp spec fn server_certified(config: quinn::ServerConfig) -> (
    Seq<Seq<u8>>,
    (KeyEncoding, Seq<u8>),
);

/// Relies on `rustls::ClientConfig::builder_with_provider` with the ring
/// provider and TLS 1.3, the given roots, no client authentication and
/// `alpn` as the one application protocol, turned into a QUIC client
/// configuration by `QuicClientConfig::try_from`.
#[verifier::external_body]
fn client_config_with_roots(store: rustls::RootCertStore, alpn: Vec<u8>) -> (r: Option<
    quinn::ClientConfig,
>)
    ensures
        r matches Some(c) ==> client_trust_anchors(c) == trust_anchors(store) && client_alpn(c)
            == seq![alpn@],
{
    let provider = Arc::new(rustls::crypto::ring::default_provider());
    let mut tls = rustls::ClientConfig::builder_with_provider(provider)
        .with_protocol_versions(&[&rustls::version::TLS13]).ok()?
        .with_root_certificates(store)
        .with_no_client_auth();
    tls.alpn_protocols = vec![alpn];
    let quic = QuicClientConfig::try_from(tls).ok()?;
    Some(quinn::ClientConfig::new(Arc::new(quic)))
}

/// Relies on `rustls::ServerConfig::builder_with_provider` with the ring
/// provider and TLS 1.3, no client authentication and `with_single_cert`,
/// `alpn` as the one application protocol and early data as QUIC allows it,
/// wrapped by `QuicServerConfig::try_from` and
/// `quinn::ServerConfig::with_crypto`.
#[verifier::external_body]
fn server_config_with_single_cert(chain: Vec<Vec<u8>>, key: PrivateKey, alpn: Vec<u8>) -> (r: Option<
    quinn::ServerConfig,
>)
    ensures
        r.is_some() == single_cert_accepted(chain.deep_view(), key@),
        r matches Some(c) ==> server_alpn(c) == seq![alpn@] && server_certified(c) == (
            chain.deep_view(),
            key@,
        ),
{
    let key = match key.encoding {
        KeyEncoding::Pkcs1 => PrivateKeyDer::Pkcs1(key.der.into()),
        KeyEncoding::Sec1 => PrivateKeyDer::Sec1(key.der.into()),
        KeyEncoding::Pkcs8 => PrivateKeyDer::Pkcs8(key.der.into()),
    };
    let provider = Arc::new(rustls::crypto::ring::default_provider());
    let mut tls = rustls::ServerConfig::builder_with_provider(provider)
        .with_protocol_versions(&[&rustls::version::TLS13]).ok()?
        .with_no_client_auth()
        .with_single_cert(chain.into_iter().map(Into::into).collect(), key).ok()?;
    tls.alpn_protocols = vec![alpn];
    tls.max_early_data_size = u32::MAX;
    let quic = QuicServerConfig::try_from(tls).ok()?;
    Some(quinn::ServerConfig::with_crypto(Arc::new(quic)))
}

/// Relies on `quinn::TransportConfig::max_concurrent_uni_streams`, set on
/// a default transport configuration that replaces the server's own; the
/// TLS side is left as it was.
#[verifier::external_body]
fn set_max_uni_streams(config: &mut quinn::ServerConfig, limit: u32)
    ensures
        uni_stream_limit(*final(config)) == limit,
        server_alpn(*final(config)) == server_alpn(*old(config)),
        server_certified(*final(config)) == server_certified(*old(config)),
{
    let mut transport = quinn::TransportConfig::default();
    transport.max_concurrent_uni_streams(limit.into());
    config.transport_config(Arc::new(transport));
}

/// The application protocol identifier as bytes.
pub open spec fn alpn_spec() -> Seq<u8> {
    ALPN_QUIC_HTTP.spec_bytes()
}

/// The identifier, as the bytes handed to the TLS layer.
fn alpn_bytes() -> (r: Vec<u8>)
    ensures
        r@ == alpn_spec(),
{
    slice_to_vec(ALPN_QUIC_HTTP.as_bytes())
}

/// Why a transport configuration could not be built.
#[derive(Clone, Copy, PartialEq, Eq, Structural, Debug)]
pub enum EndpointError {
    /// The pinned certificate at this index is not a valid trust anchor.
    InvalidCertificate(usize),
    /// A pinned trust list without any certificate.
    NoRootAnchors,
    /// The TLS layer could not make a QUIC client configuration.
    ClientConfig,
    /// The TLS layer refused the server's certificate chain or key.
    ServerConfig,
    /// The server's trust material could not be loaded or generated.
    Material(TlsError),
}

/// A list of certificates as plain values.
pub open spec fn certs_view(certs: &[&[u8]]) -> Seq<Seq<u8>> {
    Seq::new(certs@.len(), |i: int| certs@[i]@)
}

/// The anchors of those certificates that parse as one, in order.
pub open spec fn anchors_spec(certs: Seq<Seq<u8>>) -> Seq<(Seq<u8>, Seq<u8>, Option<Seq<u8>>)>
    decreases certs.len(),
{
    if certs.len() == 0 {
        Seq::empty()
    } else {
        let rest = anchors_spec(certs.drop_last());
        match trust_anchor_of(certs.last()) {
            Some(a) => rest.push(a),
            None => rest,
        }
    }
}

/// Every certificate parses as a trust anchor.
pub open spec fn all_anchors(certs: Seq<Seq<u8>>) -> bool {
    forall|i: int| 0 <= i < certs.len() ==> (#[trigger] trust_anchor_of(certs[i])).is_some()
}

/// The certificate at `i` is the first that does not parse as a trust anchor.
pub open spec fn first_invalid(certs: Seq<Seq<u8>>, i: int) -> bool {
    &&& 0 <= i < certs.len()
    &&& trust_anchor_of(certs[i]).is_none()
    &&& all_anchors(certs.take(i))
}

/// A root store holding exactly the given certificates, in order; the first
/// certificate that is not a valid trust anchor fails the whole store.
pub fn pinned_root_store(certs: &[&[u8]]) -> (r: Result<rustls::RootCertStore, EndpointError>)
    ensures
        match r {
            Ok(store) => all_anchors(certs_view(certs)) && trust_anchors(store) == anchors_spec(
                certs_view(certs),
            ),
            Err(EndpointError::InvalidCertificate(i)) => first_invalid(certs_view(certs), i as int),
            Err(_) => false,
        },
{
    let ghost v = certs_view(certs);
    let mut store = rustls::RootCertStore::empty();
    let mut i: usize = 0;
    while i < certs.len()
        invariant
            v == certs_view(certs),
            i <= certs.len(),
            all_anchors(v.take(i as int)),
            trust_anchors(store) == anchors_spec(v.take(i as int)),
        decreases certs.len() - i,
    {
        let cert: &[u8] = certs[i];
        let added = add_root(&mut store, cert);
        assert(v.take(i + 1).drop_last() =~= v.take(i as int));
        assert(v.take(i + 1).last() == v[i as int]);
        match added {
            Ok(()) => {},
            Err(_) => {
                assert(first_invalid(v, i as int));
                return Err(EndpointError::InvalidCertificate(i));
            },
        }
        assert forall|j: int| 0 <= j < i + 1 implies (#[trigger] trust_anchor_of(
            v.take(i + 1)[j],
        )).is_some() by {
            if j < i {
                assert(v.take(i + 1)[j] == v.take(i as int)[j]);
            }
        }
        i = i + 1;
    }
    assert(v.take(i as int) =~= v);
    Ok(store)
}

/// A list of owned certificates as plain values.
pub open spec fn owned_certs_view(certs: &Vec<Vec<u8>>) -> Seq<Seq<u8>> {
    Seq::new(certs@.len(), |i: int| certs@[i]@)
}

/// A root store from certificates of the platform's trust store: those that
/// are not valid trust anchors are skipped.
pub fn native_root_store(certs: &Vec<Vec<u8>>) -> (r: rustls::RootCertStore)
    ensures
        trust_anchors(r) == anchors_spec(owned_certs_view(certs)),
{
    let ghost v = owned_certs_view(certs);
    let mut store = rustls::RootCertStore::empty();
    let mut i: usize = 0;
    while i < certs.len()
        invariant
            v == owned_certs_view(certs),
            i <= certs.len(),
            trust_anchors(store) == anchors_spec(v.take(i as int)),
        decreases certs.len() - i,
    {
        let _ = add_root(&mut store, certs[i].as_slice());
        assert(v.take(i + 1).drop_last() =~= v.take(i as int));
        assert(v.take(i + 1).last() == v[i as int]);
        i = i + 1;
    }
    assert(v.take(i as int) =~= v);
    store
}

/// A client configuration that trusts exactly the given certificates and
/// advertises the transport's application protocol. An empty list is
/// refused, as is a list with a certificate that is not a trust anchor.
pub fn configure_client(server_certs: &[&[u8]]) -> (r: Result<quinn::ClientConfig, EndpointError>)
    ensures
        match r {
            Ok(c) => {
                &&& all_anchors(certs_view(server_certs))
                &&& server_certs@.len() > 0
                &&& client_trust_anchors(c) == anchors_spec(certs_view(server_certs))
                &&& client_alpn(c) == seq![alpn_spec()]
            },
            Err(EndpointError::InvalidCertificate(i)) => first_invalid(
                certs_view(server_certs),
                i as int,
            ),
            Err(EndpointError::NoRootAnchors) => all_anchors(certs_view(server_certs))
                && server_certs@.len() == 0,
            Err(EndpointError::ClientConfig) => all_anchors(certs_view(server_certs))
                && server_certs@.len() > 0,
            Err(_) => false,
        },
{
    let store = match pinned_root_store(server_certs) {
        Ok(s) => s,
        Err(e) => return Err(e),
    };
    if server_certs.len() == 0 {
        return Err(EndpointError::NoRootAnchors);
    }
    match client_config_with_roots(store, alpn_bytes()) {
        Some(c) => Ok(c),
        None => Err(EndpointError::ClientConfig),
    }
}

/// A client configuration that trusts the anchors among the platform's
/// certificates and advertises the transport's application protocol.
pub fn configure_native_client(native_certs: &Vec<Vec<u8>>) -> (r: Result<
    quinn::ClientConfig,
    EndpointError,
>)
    ensures
        match r {
            Ok(c) => client_trust_anchors(c) == anchors_spec(owned_certs_view(native_certs))
                && client_alpn(c) == seq![alpn_spec()],
            Err(e) => e == EndpointError::ClientConfig,
        },
{
    let store = native_root_store(native_certs);
    match client_config_with_roots(store, alpn_bytes()) {
        Some(c) => Ok(c),
        None => Err(EndpointError::ClientConfig),
    }
}

/// What every server configuration of this crate holds: no unidirectional
/// streams, and the transport's application protocol.
pub open spec fn server_settings(config: quinn::ServerConfig) -> bool {
    &&& uni_stream_limit(config) == SERVER_MAX_UNI_STREAMS
    &&& server_alpn(config) == seq![alpn_spec()]
}

/// A server configuration serving a generated pair: one certificate and a
/// PKCS#8 key.
pub open spec fn self_signed_served(config: quinn::ServerConfig) -> bool {
    &&& server_certified(config).0.len() == 1
    &&& server_certified(config).1.0 == KeyEncoding::Pkcs8
}

/// A server configuration for the given trust material, offering no
/// unidirectional streams. It fails exactly where the TLS layer does not
/// take the chain with the key.
pub fn server_config_for(material: TrustMaterial) -> (r: Result<quinn::ServerConfig, EndpointError>)
    ensures
        r.is_ok() == single_cert_accepted(material.cert_chain.deep_view(), material.key@),
        match r {
            Ok(c) => server_settings(c) && server_certified(c) == (
                material.cert_chain.deep_view(),
                material.key@,
            ),
            Err(e) => e == EndpointError::ServerConfig,
        },
{
    match server_config_with_single_cert(material.cert_chain, material.key, alpn_bytes()) {
        Some(mut config) => {
            set_max_uni_streams(&mut config, SERVER_MAX_UNI_STREAMS);
            Ok(config)
        },
        None => Err(EndpointError::ServerConfig),
    }
}

/// A server configuration from the certificate and key files when both are
/// given, each as its path and contents, else from a fresh self-signed pair.
pub fn configure_server(
    cert_file: Option<(&str, Vec<u8>)>,
    key_file: Option<(&str, Vec<u8>)>,
) -> (r: Result<quinn::ServerConfig, EndpointError>)
    ensures
        match (cert_file, key_file) {
            (Some(c), Some(k)) => match loaded_spec(c.0@, c.1@, k.0@, k.1@) {
                Err(e) => r == Err::<quinn::ServerConfig, EndpointError>(EndpointError::Material(e)),
                Ok(m) => {
                    &&& r.is_ok() == single_cert_accepted(m.0, m.1)
                    &&& r matches Ok(cfg) ==> server_certified(cfg) == m
                    &&& r.is_err() ==> r == Err::<quinn::ServerConfig, EndpointError>(
                        EndpointError::ServerConfig,
                    )
                },
            },
            _ => {
                &&& r.is_err() ==> (r == Err::<quinn::ServerConfig, EndpointError>(
                    EndpointError::ServerConfig,
                ) || r == Err::<quinn::ServerConfig, EndpointError>(
                    EndpointError::Material(TlsError::Generation),
                ))
                &&& r matches Ok(cfg) ==> self_signed_served(cfg)
            },
        },
        r matches Ok(c) ==> server_settings(c),
{
    match load_or_generate_cert(cert_file, key_file) {
        Ok(material) => server_config_for(material),
        Err(e) => Err(EndpointError::Material(e)),
    }
}

/// A server configuration from a freshly generated self-signed pair,
/// offering no unidirectional streams.
pub fn configure_self_signed_server() -> (r: Result<quinn::ServerConfig, EndpointError>)
    ensures
        r.is_err() ==> (r == Err::<quinn::ServerConfig, EndpointError>(EndpointError::ServerConfig)
            || r == Err::<quinn::ServerConfig, EndpointError>(
            EndpointError::Material(TlsError::Generation),
        )),
        r matches Ok(c) ==> server_settings(c) && self_signed_served(c),
{
    match generate_self_signed_pair() {
        Ok(material) => server_config_for(material),
        Err(e) => Err(EndpointError::Material(e)),
    }
}

} // verus!
