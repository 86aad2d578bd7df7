//! Certificates and keys in PEM files.

use vstd::prelude::*;
use vstd::string::*;
use crate::server;
use rustls::pki_types::pem::PemObject;

verus! {

/// How a private key is encoded.
#[derive(Clone, Copy, Debug, PartialEq, Eq, Structural)]
pub enum KeyKind {
    Pkcs1,
    Sec1,
    Pkcs8,
}

/// A private key.
#[derive(PartialEq, Eq)]
pub struct KeyDer {
    pub kind: KeyKind,
    pub der: Vec<u8>,
}

/// A PEM file that does not read.
#[derive(Debug, PartialEq, Eq)]
pub enum TlsError {
    /// The certificates do not read, for this reason.
    Certificates(String),
    /// There is no key that reads, for this reason.
    Key(String),
}

/// What a PEM file that does not read is reported as.
pub open spec fn tls_message(e: TlsError) -> Seq<char> {
    match e {
        TlsError::Certificates(_) => "Failed to parse certificates"@,
        TlsError::Key(reason) => reason@,
    }
}

impl TlsError {
    /// The report of the error.
    pub fn message(&self) -> (r: String)
        ensures
            r@ == tls_message(*self),
    {
        match self {
            TlsError::Certificates(_) => "Failed to parse certificates".to_owned(),
            TlsError::Key(reason) => reason.as_str().to_owned(),
        }
    }
}

/// The certificates that `rustls_pemfile` finds in a PEM file, or what its first
/// error says.
pub uninterp spec fn pem_certificates(pem: Seq<u8>) -> Result<Seq<Seq<u8>>, Seq<char>>;

/// The first private key that `rustls_pki_types` finds in a PEM file, or what its
/// error says.
pub uninterp spec fn pem_key(pem: Seq<u8>) -> Result<(KeyKind, Seq<u8>), Seq<char>>;

/// `rustls_pemfile::certs`, up to its first error. The grammar of PEM files is left
/// to `pem_certificates`.
#[verifier::external_body]
fn read_certificates(pem: &[u8]) -> (r: Result<Vec<Vec<u8>>, String>)
    ensures
        match r {
            Ok(chain) => pem_certificates(pem@) == Ok::<Seq<Seq<u8>>, Seq<char>>(
                server::bytes_view(chain@),
            ),
            Err(reason) => pem_certificates(pem@) == Err::<Seq<Seq<u8>>, Seq<char>>(reason@),
        },
{
    let mut reader = pem;
    rustls_pemfile::certs(&mut reader)
        .map(|cert| cert.map(|der| der.as_ref().to_vec()).map_err(|e| e.to_string()))
        .collect()
}

/// `<PrivateKeyDer as PemObject>::from_pem_reader`, on the bytes of a file. The
/// grammar of PEM files is left to `pem_key`.
#[verifier::external_body]
fn read_key(pem: &[u8]) -> (r: Result<KeyDer, String>)
    ensures
        match r {
            Ok(key) => pem_key(pem@) == Ok::<(KeyKind, Seq<u8>), Seq<char>>((key.kind, key.der@)),
            Err(reason) => pem_key(pem@) == Err::<(KeyKind, Seq<u8>), Seq<char>>(reason@),
        },
{
    let key = rustls::pki_types::PrivateKeyDer::from_pem_reader(pem).map_err(|e| e.to_string())?;
    let der = key.secret_der().to_vec();
    match key {
        rustls::pki_types::PrivateKeyDer::Pkcs1(_) => Ok(KeyDer { kind: KeyKind::Pkcs1, der }),
        rustls::pki_types::PrivateKeyDer::Sec1(_) => Ok(KeyDer { kind: KeyKind::Sec1, der }),
        rustls::pki_types::PrivateKeyDer::Pkcs8(_) => Ok(KeyDer { kind: KeyKind::Pkcs8, der }),
        _ => Err("unsupported private key".to_owned()),
    }
}

/// The certificates in a PEM file, in order.
pub fn certificate_chain(pem: &[u8]) -> (r: Result<Vec<Vec<u8>>, TlsError>)
    ensures
        match r {
            Ok(chain) => pem_certificates(pem@) == Ok::<Seq<Seq<u8>>, Seq<char>>(
                server::bytes_view(chain@),
            ),
            Err(TlsError::Certificates(reason)) => pem_certificates(pem@) == Err::<
                Seq<Seq<u8>>,
                Seq<char>,
            >(reason@),
            Err(TlsError::Key(_)) => false,
        },
{
    match read_certificates(pem) {
        Ok(chain) => Ok(chain),
        Err(reason) => Err(TlsError::Certificates(reason)),
    }
}

/// The first private key in a PEM file.
pub fn private_key(pem: &[u8]) -> (r: Result<KeyDer, TlsError>)
    ensures
        match r {
            Ok(key) => pem_key(pem@) == Ok::<(KeyKind, Seq<u8>), Seq<char>>((key.kind, key.der@)),
            Err(TlsError::Key(reason)) => pem_key(pem@) == Err::<(KeyKind, Seq<u8>), Seq<char>>(reason@),
            Err(TlsError::Certificates(_)) => false,
        },
{
    match read_key(pem) {
        Ok(key) => Ok(key),
        Err(reason) => Err(TlsError::Key(reason)),
    }
}

/// The report of a key that does not read is the whole of the reason; that of
/// certificates names them.
pub proof fn law_reports(reason: String)
    ensures
        tls_message(TlsError::Key(reason)) == reason@,
        tls_message(TlsError::Certificates(reason)) == "Failed to parse certificates"@,
{
}

} // verus!
