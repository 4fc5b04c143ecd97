//! Certificate chains and private keys: decoding them from file contents,
//! or generating a self-signed pair.

use rustls::pki_types::PrivateKeyDer;
use vstd::prelude::*;

verus! {

/// The encoding a private key is held in.
#[derive(Clone, Copy, PartialEq, Eq, Structural, Debug)]
pub enum KeyEncoding {
    Pkcs1,
    Sec1,
    Pkcs8,
}

/// A DER-encoded private key.
pub struct PrivateKey {
    pub encoding: KeyEncoding,
    pub der: Vec<u8>,
}

impl View for PrivateKey {
    type V = (KeyEncoding, Seq<u8>);

    open spec fn view(&self) -> (KeyEncoding, Seq<u8>) {
        (self.encoding, self.der@)
    }
}

/// A certificate chain, each certificate DER-encoded, and the private key
/// of its first certificate.
pub struct TrustMaterial {
    pub cert_chain: Vec<Vec<u8>>,
    pub key: PrivateKey,
}

/// How the contents of a certificate or key file are read.
#[derive(Clone, Copy, PartialEq, Eq, Structural, Debug)]
pub enum FileFormat {
    /// One raw DER item.
    Der,
    /// PEM sections.
    Pem,
}

/// Why trust material could not be had.
#[derive(Clone, Copy, PartialEq, Eq, Structural, Debug)]
pub enum TlsError {
    /// The PEM text of a certificate file does not parse.
    MalformedCertificate,
    /// A certificate file in PEM holds no certificate.
    NoCertificate,
    /// The PEM text of a key file does not parse.
    MalformedKey,
    /// A key file in PEM holds no private key.
    NoPrivateKey,
    /// A self-signed certificate could not be generated.
    Generation,
}

/// The extension of the file name at the end of `path`, as the platform's
/// path rules find it.
pub uninterp spec fn path_extension_of(path: Seq<char>) -> Option<Seq<char>>;

/// The certificates of the PEM sections of `data`, in order, sections of
/// other kinds left out; `None` where the text does not parse.
pub uninterp spec fn pem_certificates_of(data: Seq<u8>) -> Option<Seq<Seq<u8>>>;

/// The first private key among the PEM sections of `data`, `Some(None)`
/// where there is none; `None` where the text does not parse.
pub uninterp spec fn pem_private_key_of(data: Seq<u8>) -> Option<Option<(KeyEncoding, Seq<u8>)>>;

/// Relies on std's `Path::extension`, for a path given as text.
#[verifier::external_body]
fn path_extension(path: &str) -> (r: Option<String>)
    ensures
        match r {
            Some(e) => path_extension_of(path@) == Some(e@),
            None => path_extension_of(path@).is_none(),
        },
{
    std::path::Path::new(path).extension().and_then(|e| e.to_str()).map(|e| e.to_owned())
}

/// Relies on `rustls_pemfile::certs`, collected until the first error.
#[verifier::external_body]
fn pem_certificates(data: &[u8]) -> (r: Option<Vec<Vec<u8>>>)
    ensures
        match r {
            Some(v) => pem_certificates_of(data@) == Some(v.deep_view()),
            None => pem_certificates_of(data@).is_none(),
        },
{
    rustls_pemfile::certs(&mut &data[..]).map(|c| c.map(|c| c.to_vec())).collect::<Result<
        Vec<_>,
        _,
    >>().ok()
}

/// Relies on `rustls_pemfile::private_key`, with the key's variant kept as
/// its encoding; a variant that this encoding list lacks counts as a key
/// that does not parse.
#[verifier::external_body]
fn pem_private_key(data: &[u8]) -> (r: Option<Option<PrivateKey>>)
    ensures
        match r {
            Some(Some(k)) => pem_private_key_of(data@) == Some(Some(k@)),
            Some(None) => pem_private_key_of(data@) == Some(None::<(KeyEncoding, Seq<u8>)>),
            None => pem_private_key_of(data@).is_none(),
        },
{
    match rustls_pemfile::private_key(&mut &data[..]) {
        Ok(Some(k)) => {
            let encoding = match &k {
                PrivateKeyDer::Pkcs1(_) => KeyEncoding::Pkcs1,
                PrivateKeyDer::Sec1(_) => KeyEncoding::Sec1,
                PrivateKeyDer::Pkcs8(_) => KeyEncoding::Pkcs8,
                _ => return None,
            };
            Some(Some(PrivateKey { encoding, der: k.secret_der().to_vec() }))
        },
        Ok(None) => Some(None),
        Err(_) => None,
    }
}

/// A file whose name ends in `.der` holds one raw DER item; any other holds
/// PEM text.
pub open spec fn format_spec(path: Seq<char>) -> FileFormat {
    if path_extension_of(path) == Some("der"@) {
        FileFormat::Der
    } else {
        FileFormat::Pem
    }
}

/// How to read the file at `path`, by its extension.
pub fn format_of_path(path: &str) -> (r: FileFormat)
    ensures
        r == format_spec(path@),
{
    let der = "der".to_owned();
    proof {
        reveal_strlit("der");
    }
    match path_extension(path) {
        Some(e) => {
            if e == der {
                FileFormat::Der
            } else {
                FileFormat::Pem
            }
        },
        None => FileFormat::Pem,
    }
}

/// A certificate chain decoded from a file, as plain values.
pub open spec fn chain_view(r: Result<Vec<Vec<u8>>, TlsError>) -> Result<Seq<Seq<u8>>, TlsError> {
    match r {
        Ok(v) => Ok(v.deep_view()),
        Err(e) => Err(e),
    }
}

/// What the PEM parse of a certificate file gives: its certificates, or an
/// error where the text does not parse or holds none.
pub open spec fn pem_chain_spec(parsed: Option<Seq<Seq<u8>>>) -> Result<Seq<Seq<u8>>, TlsError> {
    match parsed {
        None => Err(TlsError::MalformedCertificate),
        Some(c) => if c.len() == 0 {
            Err(TlsError::NoCertificate)
        } else {
            Ok(c)
        },
    }
}

/// The chain that a certificate file of the given format and contents holds.
pub open spec fn chain_spec(format: FileFormat, contents: Seq<u8>) -> Result<
    Seq<Seq<u8>>,
    TlsError,
> {
    match format {
        FileFormat::Der => Ok(seq![contents]),
        FileFormat::Pem => pem_chain_spec(pem_certificates_of(contents)),
    }
}

/// Turns the outcome of a PEM parse into a certificate chain: a parse
/// failure and a file without certificates are both errors.
pub fn chain_from_pem(parsed: Option<Vec<Vec<u8>>>) -> (r: Result<Vec<Vec<u8>>, TlsError>)
    ensures
        chain_view(r) == pem_chain_spec(
            match parsed {
                Some(v) => Some(v.deep_view()),
                None => None,
            },
        ),
{
    match parsed {
        None => Err(TlsError::MalformedCertificate),
        Some(certs) => {
            if certs.len() == 0 {
                Err(TlsError::NoCertificate)
            } else {
                Ok(certs)
            }
        },
    }
}

/// Decodes the contents of a certificate file: a DER file is one
/// certificate as it stands, and is never parsed as PEM.
pub fn decode_certificates(format: FileFormat, contents: Vec<u8>) -> (r: Result<
    Vec<Vec<u8>>,
    TlsError,
>)
    ensures
        chain_view(r) == chain_spec(format, contents@),
{
    match format {
        FileFormat::Der => {
            let mut chain: Vec<Vec<u8>> = Vec::new();
            chain.push(contents);
            assert(chain[0].deep_view() =~= chain[0]@);
            assert(chain.deep_view() =~= seq![chain[0]@]);
            Ok(chain)
        },
        FileFormat::Pem => chain_from_pem(pem_certificates(&contents)),
    }
}

/// Decodes the certificate chain read from the file at `cert_path`, in the
/// format that its extension selects.
pub fn load_certs(cert_path: &str, contents: Vec<u8>) -> (r: Result<Vec<Vec<u8>>, TlsError>)
    ensures
        chain_view(r) == chain_spec(format_spec(cert_path@), contents@),
{
    decode_certificates(format_of_path(cert_path), contents)
}

/// A private key decoded from a file, as plain values.
pub open spec fn key_view(r: Result<PrivateKey, TlsError>) -> Result<(KeyEncoding, Seq<u8>), TlsError> {
    match r {
        Ok(k) => Ok(k@),
        Err(e) => Err(e),
    }
}

/// What the PEM parse of a key file gives: its first private key, or an
/// error where the text does not parse or holds none.
pub open spec fn pem_key_spec(parsed: Option<Option<(KeyEncoding, Seq<u8>)>>) -> Result<
    (KeyEncoding, Seq<u8>),
    TlsError,
> {
    match parsed {
        None => Err(TlsError::MalformedKey),
        Some(None) => Err(TlsError::NoPrivateKey),
        Some(Some(k)) => Ok(k),
    }
}

/// The private key that a key file of the given format and contents holds.
pub open spec fn key_spec(format: FileFormat, contents: Seq<u8>) -> Result<
    (KeyEncoding, Seq<u8>),
    TlsError,
> {
    match format {
        FileFormat::Der => Ok((KeyEncoding::Pkcs8, contents)),
        FileFormat::Pem => pem_key_spec(pem_private_key_of(contents)),
    }
}

/// Turns the outcome of a PEM parse into a private key: a parse failure and
/// a file without a private key are both errors.
pub fn key_from_pem(parsed: Option<Option<PrivateKey>>) -> (r: Result<PrivateKey, TlsError>)
    ensures
        key_view(r) == pem_key_spec(
            match parsed {
                None => None,
                Some(None) => Some(None),
                Some(Some(k)) => Some(Some(k@)),
            },
        ),
{
    match parsed {
        None => Err(TlsError::MalformedKey),
        Some(None) => Err(TlsError::NoPrivateKey),
        Some(Some(k)) => Ok(k),
    }
}

/// Decodes the contents of a key file: a DER file is one PKCS#8 key as it
/// stands.
pub fn decode_key(format: FileFormat, contents: Vec<u8>) -> (r: Result<PrivateKey, TlsError>)
    ensures
        key_view(r) == key_spec(format, contents@),
{
    match format {
        FileFormat::Der => Ok(PrivateKey { encoding: KeyEncoding::Pkcs8, der: contents }),
        FileFormat::Pem => key_from_pem(pem_private_key(&contents)),
    }
}

/// Decodes the private key read from the file at `key_path`, in the format
/// that its extension selects.
pub fn load_key(key_path: &str, contents: Vec<u8>) -> (r: Result<PrivateKey, TlsError>)
    ensures
        key_view(r) == key_spec(format_spec(key_path@), contents@),
{
    decode_key(format_of_path(key_path), contents)
}

/// A certificate file read as PEM that holds no certificate that parses
/// fails to load, with a parse error; a file read as DER is never parsed as
/// PEM: it loads as the one certificate it holds, whatever its bytes.
pub proof fn lemma_certificate_formats(contents: Seq<u8>)
    ensures
        pem_certificates_of(contents) is None ==> chain_spec(FileFormat::Pem, contents) == Err::<
            Seq<Seq<u8>>,
            TlsError,
        >(TlsError::MalformedCertificate),
        pem_certificates_of(contents) == Some(Seq::<Seq<u8>>::empty()) ==> chain_spec(
            FileFormat::Pem,
            contents,
        ) == Err::<Seq<Seq<u8>>, TlsError>(TlsError::NoCertificate),
        chain_spec(FileFormat::Der, contents) == Ok::<Seq<Seq<u8>>, TlsError>(seq![contents]),
{
}

#[verifier::external_type_specification]
#[verifier::external_body]
pub struct ExRcgenError(rcgen::Error);

/// The host name that generated certificates are issued for.
pub const SELF_SIGNED_HOST: &'static str = "localhost";

/// Relies on `rcgen::generate_simple_self_signed`: a fresh key pair and a
/// certificate for `names` signed with it, both DER-encoded, the key as
/// PKCS#8.
#[verifier::external_body]
fn generate_simple_self_signed(names: Vec<String>) -> (r: Result<(Vec<u8>, Vec<u8>), rcgen::Error>) {
    rcgen::generate_simple_self_signed(names).map(
        |c| (c.cert.der().to_vec(), c.key_pair.serialize_der()),
    )
}

/// The shape of freshly generated trust material: one certificate and a
/// PKCS#8 key, or the generation error.
pub open spec fn self_signed_spec(r: Result<TrustMaterial, TlsError>) -> bool {
    match r {
        Ok(m) => m.cert_chain.len() == 1 && m.key.encoding == KeyEncoding::Pkcs8,
        Err(e) => e == TlsError::Generation,
    }
}

/// The subject names of a generated certificate: the one host name.
fn self_signed_names() -> (r: Vec<String>)
    ensures
        r@.len() == 1,
        r@[0]@ == SELF_SIGNED_HOST@,
{
    let mut names: Vec<String> = Vec::new();
    names.push(SELF_SIGNED_HOST.to_owned());
    names
}

/// Generates a self-signed certificate for `localhost` and its private key.
pub fn generate_self_signed_pair() -> (r: Result<TrustMaterial, TlsError>)
    ensures
        self_signed_spec(r),
{
    match generate_simple_self_signed(self_signed_names()) {
        Ok((cert, key)) => {
            let mut cert_chain: Vec<Vec<u8>> = Vec::new();
            cert_chain.push(cert);
            Ok(TrustMaterial { cert_chain, key: PrivateKey { encoding: KeyEncoding::Pkcs8, der: key } })
        },
        Err(_) => Err(TlsError::Generation),
    }
}

/// Trust material as plain values: the chain and the key.
pub open spec fn material_view(r: Result<TrustMaterial, TlsError>) -> Result<
    (Seq<Seq<u8>>, (KeyEncoding, Seq<u8>)),
    TlsError,
> {
    match r {
        Ok(m) => Ok((m.cert_chain.deep_view(), m.key@)),
        Err(e) => Err(e),
    }
}

/// The trust material held by a certificate file and a key file: the
/// certificate's error first, then the key's.
pub open spec fn loaded_spec(
    cert_path: Seq<char>,
    cert_contents: Seq<u8>,
    key_path: Seq<char>,
    key_contents: Seq<u8>,
) -> Result<(Seq<Seq<u8>>, (KeyEncoding, Seq<u8>)), TlsError> {
    match chain_spec(format_spec(cert_path), cert_contents) {
        Err(e) => Err(e),
        Ok(chain) => match key_spec(format_spec(key_path), key_contents) {
            Err(e) => Err(e),
            Ok(key) => Ok((chain, key)),
        },
    }
}

/// Decodes the certificate and key files when both are given, each as its
/// path and contents; generates a self-signed pair when either is missing.
pub fn load_or_generate_cert(
    cert_file: Option<(&str, Vec<u8>)>,
    key_file: Option<(&str, Vec<u8>)>,
) -> (r: Result<TrustMaterial, TlsError>)
    ensures
        match (cert_file, key_file) {
            (Some(c), Some(k)) => material_view(r) == loaded_spec(c.0@, c.1@, k.0@, k.1@),
            _ => self_signed_spec(r),
        },
{
    match (cert_file, key_file) {
        (Some((cert_path, cert_contents)), Some((key_path, key_contents))) => {
            let cert_chain = match load_certs(cert_path, cert_contents) {
                Ok(c) => c,
                Err(e) => return Err(e),
            };
            let key = match load_key(key_path, key_contents) {
                Ok(k) => k,
                Err(e) => return Err(e),
            };
            Ok(TrustMaterial { cert_chain, key })
        },
        _ => generate_self_signed_pair(),
    }
}

} // verus!
