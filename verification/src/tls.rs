//! Certificates and private keys as PEM files hold them.

use rustls::pki_types::PrivateKeyDer;
use vstd::prelude::*;

verus! {

/// How a private key is encoded.
#[derive(Clone, Copy, Debug, PartialEq, Eq, Structural)]
pub enum KeyEncoding {
    Pkcs1,
    Sec1,
    Pkcs8,
}

/// A private key.
#[derive(PartialEq, Eq)]
pub struct PrivateKey {
    pub encoding: KeyEncoding,
    pub der: Vec<u8>,
}

impl View for PrivateKey {
    type V = (KeyEncoding, Seq<u8>);

    open spec fn view(&self) -> (KeyEncoding, Seq<u8>) {
        (self.encoding, self.der@)
    }
}

/// What is wrong with a PEM file.
#[derive(Clone, Copy, Debug, PartialEq, Eq, Structural)]
pub enum TlsFault {
    MalformedChain,
    EmptyChain,
    MalformedKey,
    MissingKey,
    MalformedRoots,
    EmptyRoots,
}

/// The text of a fault.
pub open spec fn tls_text(fault: TlsFault) -> Seq<char> {
    match fault {
        TlsFault::MalformedChain => "failed to parse TLS certificate chain"@,
        TlsFault::EmptyChain => "TLS certificate chain is empty"@,
        TlsFault::MalformedKey => "failed to parse TLS private key"@,
        TlsFault::MissingKey => "TLS private key is missing"@,
        TlsFault::MalformedRoots => "failed to parse CA certificate PEM"@,
        TlsFault::EmptyRoots => "CA certificate file is empty"@,
    }
}

impl TlsFault {
    /// The fault as a text for people.
    pub fn message(&self) -> (r: &'static str)
        ensures
            r@ == tls_text(*self),
    {
        match self {
            TlsFault::MalformedChain => "failed to parse TLS certificate chain",
            TlsFault::EmptyChain => "TLS certificate chain is empty",
            TlsFault::MalformedKey => "failed to parse TLS private key",
            TlsFault::MissingKey => "TLS private key is missing",
            TlsFault::MalformedRoots => "failed to parse CA certificate PEM",
            TlsFault::EmptyRoots => "CA certificate file is empty",
        }
    }
}

/// The certificates that `rustls_pemfile::certs` finds in a PEM file, in DER and
/// in order, `None` where it cannot read the file.
pub uninterp spec fn pem_certificates(pem: Seq<u8>) -> Option<Seq<Seq<u8>>>;

/// The private key that `rustls_pemfile::private_key` finds in a PEM file, if
/// there is one, `None` where it cannot read the file.
pub uninterp spec fn pem_private_key(pem: Seq<u8>) -> Option<Option<(KeyEncoding, Seq<u8>)>>;

/// The bytes of certificates.
pub open spec fn ders(certificates: Seq<Vec<u8>>) -> Seq<Seq<u8>> {
    certificates.map_values(|der: Vec<u8>| der@)
}

/// The bytes of certificates that may not have been read.
pub open spec fn read_ders(certificates: Option<Vec<Vec<u8>>>) -> Option<Seq<Seq<u8>>> {
    match certificates {
        Some(certificates) => Some(ders(certificates@)),
        None => None,
    }
}

/// A private key that may not have been read or not be there.
pub open spec fn read_key(key: Option<Option<PrivateKey>>) -> Option<
    Option<(KeyEncoding, Seq<u8>)>,
> {
    match key {
        Some(Some(key)) => Some(Some(key@)),
        Some(None) => Some(None),
        None => None,
    }
}

/// `rustls_pemfile::certs` lists the certificates of a PEM file, and fails where
/// a section of it cannot be read. What is claimed: its answer is a function of
/// the bytes.
#[verifier::external_body]
fn parse_certificates(pem: &[u8]) -> (r: Option<Vec<Vec<u8>>>)
    ensures
        read_ders(r) == pem_certificates(pem@),
{
    let mut reader = pem;
    rustls_pemfile::certs(&mut reader).map(|item| item.map(|der| der.to_vec()).ok()).collect()
}

/// `rustls_pemfile::private_key` finds the first private key of a PEM file, of
/// one of three encodings, and fails where a section before it cannot be read.
/// What is claimed: its answer is a function of the bytes.
#[verifier::external_body]
fn parse_private_key(pem: &[u8]) -> (r: Option<Option<PrivateKey>>)
    ensures
        read_key(r) == pem_private_key(pem@),
{
    let mut reader = pem;
    let (encoding, der) = match rustls_pemfile::private_key(&mut reader) {
        Ok(Some(PrivateKeyDer::Pkcs1(key))) => (KeyEncoding::Pkcs1, key.secret_pkcs1_der().to_vec()),
        Ok(Some(PrivateKeyDer::Sec1(key))) => (KeyEncoding::Sec1, key.secret_sec1_der().to_vec()),
        Ok(Some(PrivateKeyDer::Pkcs8(key))) => (KeyEncoding::Pkcs8, key.secret_pkcs8_der().to_vec()),
        Ok(_) => return Some(None),
        Err(_) => return None,
    };
    Some(Some(PrivateKey { encoding, der }))
}

/// Certificates or a fault, with the bytes as sequences.
pub open spec fn result_view(r: Result<Vec<Vec<u8>>, TlsFault>) -> Result<Seq<Seq<u8>>, TlsFault> {
    match r {
        Ok(certificates) => Ok(ders(certificates@)),
        Err(fault) => Err(fault),
    }
}

/// What becomes of the certificates that were found in a file: there has to be
/// one at least.
pub open spec fn accepted(
    found: Option<Seq<Seq<u8>>>,
    malformed: TlsFault,
    empty: TlsFault,
) -> Result<Seq<Seq<u8>>, TlsFault> {
    match found {
        None => Err(malformed),
        Some(certificates) => if certificates.len() == 0 {
            Err(empty)
        } else {
            Ok(certificates)
        },
    }
}

/// Accepts the certificates that were found in a file, of which there has to be
/// one at least.
pub fn accept_certificates(
    found: Option<Vec<Vec<u8>>>,
    malformed: TlsFault,
    empty: TlsFault,
) -> (r: Result<Vec<Vec<u8>>, TlsFault>)
    ensures
        result_view(r) == accepted(read_ders(found), malformed, empty),
{
    match found {
        None => Err(malformed),
        Some(certificates) => if certificates.len() == 0 {
            Err(empty)
        } else {
            Ok(certificates)
        },
    }
}

/// The certificate chain of a server, out of its PEM file.
pub fn certificate_chain(pem: &[u8]) -> (r: Result<Vec<Vec<u8>>, TlsFault>)
    ensures
        result_view(r) == accepted(
            pem_certificates(pem@),
            TlsFault::MalformedChain,
            TlsFault::EmptyChain,
        ),
{
    accept_certificates(parse_certificates(pem), TlsFault::MalformedChain, TlsFault::EmptyChain)
}

/// The certificates that a client trusts, out of their PEM file.
pub fn root_certificates(pem: &[u8]) -> (r: Result<Vec<Vec<u8>>, TlsFault>)
    ensures
        result_view(r) == accepted(
            pem_certificates(pem@),
            TlsFault::MalformedRoots,
            TlsFault::EmptyRoots,
        ),
{
    accept_certificates(parse_certificates(pem), TlsFault::MalformedRoots, TlsFault::EmptyRoots)
}

/// Accepts the private key that was found in a file; there has to be one.
pub fn accept_key(found: Option<Option<PrivateKey>>) -> (r: Result<PrivateKey, TlsFault>)
    ensures
        match read_key(found) {
            None => r == Err::<PrivateKey, _>(TlsFault::MalformedKey),
            Some(None) => r == Err::<PrivateKey, _>(TlsFault::MissingKey),
            Some(Some(key)) => r is Ok && r->Ok_0@ == key,
        },
{
    match found {
        None => Err(TlsFault::MalformedKey),
        Some(None) => Err(TlsFault::MissingKey),
        Some(Some(key)) => Ok(key),
    }
}

/// The private key of a server, out of its PEM file.
pub fn server_key(pem: &[u8]) -> (r: Result<PrivateKey, TlsFault>)
    ensures
        match pem_private_key(pem@) {
            None => r == Err::<PrivateKey, _>(TlsFault::MalformedKey),
            Some(None) => r == Err::<PrivateKey, _>(TlsFault::MissingKey),
            Some(Some(key)) => r is Ok && r->Ok_0@ == key,
        },
{
    accept_key(parse_private_key(pem))
}

/// Certificates that were found are taken as they are and all of them; a file
/// without any, and one that cannot be read, are refused as such.
pub proof fn law_found_certificates_are_taken(
    found: Seq<Seq<u8>>,
    malformed: TlsFault,
    empty: TlsFault,
)
    ensures
        found.len() > 0 ==> accepted(Some(found), malformed, empty) == Ok::<_, TlsFault>(found),
        found.len() == 0 ==> accepted(Some(found), malformed, empty) == Err::<Seq<Seq<u8>>, _>(
            empty,
        ),
        accepted(None, malformed, empty) == Err::<Seq<Seq<u8>>, _>(malformed),
{
}

} // verus!
