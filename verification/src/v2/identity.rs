//! Certificates, keys and the device identities that they stand for.
use crate::encoding;
use crate::encoding::read_be;
use crate::ids::DeviceId;
use crate::v2::config::V2GatewayConfigError;
use vstd::prelude::*;

verus! {

/// Byte strings by their bytes.
pub open spec fn blobs(list: Seq<Vec<u8>>) -> Seq<Seq<u8>> {
    list.map_values(|blob: Vec<u8>| blob@)
}

/// How a private key is encoded.
#[derive(Debug, Clone, Copy, PartialEq, Eq, Structural)]
pub enum KeyEncoding {
    Pkcs1,
    Sec1,
    Pkcs8,
}

impl KeyEncoding {
    /// The number of an encoding.
    pub open spec fn number(self) -> nat {
        match self {
            KeyEncoding::Pkcs1 => 1,
            KeyEncoding::Sec1 => 2,
            KeyEncoding::Pkcs8 => 8,
        }
    }
}

/// A private key as DER.
pub struct PrivateKey {
    pub encoding: KeyEncoding,
    pub der: Vec<u8>,
}

impl View for PrivateKey {
    type V = (nat, Seq<u8>);

    open spec fn view(&self) -> (nat, Seq<u8>) {
        (self.encoding.number(), self.der@)
    }
}

/// The certificates in PEM text as DER, in order; `None` where the text is
/// malformed.
pub uninterp spec fn pem_certificates(pem: Seq<u8>) -> Option<Seq<Seq<u8>>>;

/// The revocation lists in PEM text as DER, in order; `None` where the text is
/// malformed.
pub uninterp spec fn pem_revocation_lists(pem: Seq<u8>) -> Option<Seq<Seq<u8>>>;

/// The first private key in PEM text: its encoding and its DER; an inner
/// `None` where there is none, an outer one where the text is malformed.
pub uninterp spec fn pem_private_key(pem: Seq<u8>) -> Option<Option<(nat, Seq<u8>)>>;

/// The SHA-256 digest of a byte string.
pub uninterp spec fn sha256_of(data: Seq<u8>) -> Seq<u8>;

/// Calls `rustls_pemfile::certs` and collects what it yields: every
/// certificate section of the text as DER, in order, or `None` on the first
/// error. The result depends on the text alone.
#[verifier::external_body]
fn read_certificates(pem: &[u8]) -> (certificates: Option<Vec<Vec<u8>>>)
    ensures
        match certificates {
            Some(list) => pem_certificates(pem@) == Some(blobs(list@)),
            None => pem_certificates(pem@) is None,
        },
{
    let mut reader = std::io::BufReader::new(pem);
    let found: Result<Vec<Vec<u8>>, std::io::Error> =
        rustls_pemfile::certs(&mut reader).map(|item| item.map(|der| der.to_vec())).collect();
    found.ok()
}

/// Calls `rustls_pemfile::crls` and collects what it yields: every revocation
/// list section of the text as DER, in order, or `None` on the first error.
/// The result depends on the text alone.
#[verifier::external_body]
fn read_revocation_lists(pem: &[u8]) -> (lists: Option<Vec<Vec<u8>>>)
    ensures
        match lists {
            Some(list) => pem_revocation_lists(pem@) == Some(blobs(list@)),
            None => pem_revocation_lists(pem@) is None,
        },
{
    let mut reader = std::io::BufReader::new(pem);
    let found: Result<Vec<Vec<u8>>, std::io::Error> =
        rustls_pemfile::crls(&mut reader).map(|item| item.map(|der| der.as_ref().to_vec())).collect();
    found.ok()
}

/// Calls `rustls_pemfile::private_key`: the first private key section of the
/// text, of whichever encoding, as DER. The result depends on the text alone.
#[verifier::external_body]
fn read_private_key(pem: &[u8]) -> (key: Option<Option<PrivateKey>>)
    ensures
        match key {
            Some(Some(key)) => pem_private_key(pem@) == Some(Some(key@)),
            Some(None) => pem_private_key(pem@) == Some(None::<(nat, Seq<u8>)>),
            None => pem_private_key(pem@) is None,
        },
{
    let mut reader = std::io::BufReader::new(pem);
    let found = rustls_pemfile::private_key(&mut reader).ok()?;
    let Some(key) = found else { return Some(None) };
    let encoding = match &key {
        rustls::pki_types::PrivateKeyDer::Pkcs1(_) => KeyEncoding::Pkcs1,
        rustls::pki_types::PrivateKeyDer::Sec1(_) => KeyEncoding::Sec1,
        rustls::pki_types::PrivateKeyDer::Pkcs8(_) => KeyEncoding::Pkcs8,
        _ => return None,
    };
    Some(Some(PrivateKey { encoding, der: key.secret_der().to_vec() }))
}

/// Calls `rustls::sign::CertifiedKey::from_der` with the ring provider and
/// says whether it took the chain and the key. Nothing is promised of the
/// answer: loading an elliptic-curve key draws on the system's random source,
/// and fails where that does.
#[verifier::external_body]
fn fits(chain: &Vec<Vec<u8>>, key: &PrivateKey) -> (fits: bool) {
    let certs: Vec<rustls::pki_types::CertificateDer<'static>> =
        chain.iter().map(|der| der.clone().into()).collect();
    let der = key.der.clone();
    let key: rustls::pki_types::PrivateKeyDer<'static> = match key.encoding {
        KeyEncoding::Pkcs1 => rustls::pki_types::PrivatePkcs1KeyDer::from(der).into(),
        KeyEncoding::Sec1 => rustls::pki_types::PrivateSec1KeyDer::from(der).into(),
        KeyEncoding::Pkcs8 => rustls::pki_types::PrivatePkcs8KeyDer::from(der).into(),
    };
    let provider = rustls::crypto::ring::default_provider();
    rustls::sign::CertifiedKey::from_der(certs, key, &provider).is_ok()
}

/// Calls `ring::digest::digest` with SHA-256. It panics on an input of 2^61
/// bytes or more, which is left out; below that the 32 bytes depend on the
/// input alone.
#[verifier::external_body]
fn sha256(data: &[u8]) -> (digest: [u8; 32])
    requires
        data@.len() < 0x2000_0000_0000_0000,
    ensures
        digest@ == sha256_of(data@),
{
    let digest = ring::digest::digest(&ring::digest::SHA256, data);
    let mut bytes = [0u8; 32];
    bytes.copy_from_slice(digest.as_ref());
    bytes
}

/// How long a certificate chain and each of its certificates may be.
#[derive(Debug, Clone, Copy, PartialEq, Eq, Structural)]
pub struct CertificateLimits {
    pub chain_len: usize,
    pub der_len: usize,
}

/// A chain within its limits: not empty, not too long, and no certificate
/// empty or too long.
pub open spec fn chain_within(chain: Seq<Seq<u8>>, limits: CertificateLimits) -> bool {
    &&& 0 < chain.len() <= limits.chain_len
    &&& forall|i: int|
        0 <= i < chain.len() ==> 0 < (#[trigger] chain[i]).len() <= limits.der_len
}

/// The chain that a gateway may present, from what reading its PEM text came
/// to.
pub fn check_chain(certificates: Option<Vec<Vec<u8>>>, limits: CertificateLimits) -> (result:
    Result<Vec<Vec<u8>>, V2GatewayConfigError>)
    ensures
        match result {
            Ok(chain) => certificates == Some(chain) && chain_within(blobs(chain@), limits),
            Err(e) => e == V2GatewayConfigError::FilesystemRef && (certificates matches Some(
                list,
            ) ==> !chain_within(blobs(list@), limits)),
        },
{
    let chain = match certificates {
        Some(chain) => chain,
        None => {
            return Err(V2GatewayConfigError::FilesystemRef);
        },
    };
    let ghost all = blobs(chain@);
    if chain.len() == 0 || chain.len() > limits.chain_len {
        return Err(V2GatewayConfigError::FilesystemRef);
    }
    let mut i: usize = 0;
    while i < chain.len()
        invariant
            i <= chain@.len(),
            all == blobs(chain@),
            certificates == Some(chain),
            0 < chain@.len() <= limits.chain_len,
            forall|j: int| 0 <= j < i ==> 0 < (#[trigger] all[j]).len() <= limits.der_len,
        decreases chain@.len() - i,
    {
        assert(all[i as int] == chain@[i as int]@);
        if chain[i].len() == 0 || chain[i].len() > limits.der_len {
            return Err(V2GatewayConfigError::FilesystemRef);
        }
        i = i + 1;
    }
    Ok(chain)
}

/// The key that a gateway may sign with, from what reading its PEM text came
/// to.
pub fn check_key(key: Option<Option<PrivateKey>>) -> (result: Result<
    PrivateKey,
    V2GatewayConfigError,
>)
    ensures
        match result {
            Ok(found) => key == Some(Some(found)),
            Err(e) => e == V2GatewayConfigError::FilesystemRef && !(key matches Some(Some(_))),
        },
{
    match key {
        Some(Some(key)) => Ok(key),
        _ => Err(V2GatewayConfigError::FilesystemRef),
    }
}

/// A gateway's server identity.
pub struct GatewayIdentity {
    chain: Vec<Vec<u8>>,
    key: PrivateKey,
}

impl GatewayIdentity {
    /// The certificates, and the key with its encoding.
    pub closed spec fn parts(&self) -> (Seq<Seq<u8>>, (nat, Seq<u8>)) {
        (blobs(self.chain@), self.key@)
    }

    pub fn chain(&self) -> (chain: &Vec<Vec<u8>>)
        ensures
            blobs(chain@) == self.parts().0,
    {
        &self.chain
    }

    pub fn key(&self) -> (key: &PrivateKey)
        ensures
            key@ == self.parts().1,
    {
        &self.key
    }
}

/// The chain and the key that PEM text gives a gateway, where it gives both.
pub open spec fn credentials_of(
    cert_pem: Seq<u8>,
    key_pem: Seq<u8>,
    limits: CertificateLimits,
) -> Option<(Seq<Seq<u8>>, (nat, Seq<u8>))> {
    match (pem_certificates(cert_pem), pem_private_key(key_pem)) {
        (Some(chain), Some(Some(key))) => if chain_within(chain, limits) {
            Some((chain, key))
        } else {
            None
        },
        _ => None,
    }
}

/// Reads the chain and the key from PEM text.
fn read_credentials(cert_pem: &[u8], key_pem: &[u8], limits: CertificateLimits) -> (result: Result<
    GatewayIdentity,
    V2GatewayConfigError,
>)
    ensures
        match credentials_of(cert_pem@, key_pem@, limits) {
            Some(parts) => result matches Ok(identity) && identity.parts() == parts,
            None => result matches Err(e) && e == V2GatewayConfigError::FilesystemRef,
        },
{
    let chain = match check_chain(read_certificates(cert_pem), limits) {
        Ok(chain) => chain,
        Err(e) => {
            return Err(e);
        },
    };
    let key = match check_key(read_private_key(key_pem)) {
        Ok(key) => key,
        Err(e) => {
            return Err(e);
        },
    };
    Ok(GatewayIdentity { chain, key })
}

/// Asks whether the key loads and belongs to the first certificate as far as
/// that can be told. Only what reads as a chain and a key can fit.
pub fn credentials_fit(cert_pem: &[u8], key_pem: &[u8], limits: CertificateLimits) -> (fit: bool)
    ensures
        fit ==> credentials_of(cert_pem@, key_pem@, limits) is Some,
{
    match read_credentials(cert_pem, key_pem, limits) {
        Ok(identity) => fits(&identity.chain, &identity.key),
        Err(_) => false,
    }
}

/// The gateway's identity from PEM text, given whether chain and key fit.
pub fn assemble_gateway_identity(
    cert_pem: &[u8],
    key_pem: &[u8],
    limits: CertificateLimits,
    fit: bool,
) -> (result: Result<GatewayIdentity, V2GatewayConfigError>)
    ensures
        match credentials_of(cert_pem@, key_pem@, limits) {
            Some(parts) if fit => result matches Ok(identity) && identity.parts() == parts,
            _ => result matches Err(e) && e == V2GatewayConfigError::FilesystemRef,
        },
{
    if !fit {
        return Err(V2GatewayConfigError::FilesystemRef);
    }
    read_credentials(cert_pem, key_pem, limits)
}

/// Builds the gateway's identity from PEM text. Whether chain and key fit is
/// for the outside to say.
pub fn build_gateway_identity(cert_pem: &[u8], key_pem: &[u8], limits: CertificateLimits) -> (
    result: Result<GatewayIdentity, V2GatewayConfigError>)
    ensures
        match result {
            Ok(identity) => credentials_of(cert_pem@, key_pem@, limits) == Some(identity.parts()),
            Err(e) => e == V2GatewayConfigError::FilesystemRef,
        },
{
    assemble_gateway_identity(cert_pem, key_pem, limits, credentials_fit(cert_pem, key_pem, limits))
}

/// What devices are trusted by: roots and revocation lists, as DER.
pub struct DeviceTrust {
    roots: Vec<Vec<u8>>,
    revocation_lists: Vec<Vec<u8>>,
}

impl DeviceTrust {
    pub closed spec fn parts(&self) -> (Seq<Seq<u8>>, Seq<Seq<u8>>) {
        (blobs(self.roots@), blobs(self.revocation_lists@))
    }

    pub fn roots(&self) -> (roots: &Vec<Vec<u8>>)
        ensures
            blobs(roots@) == self.parts().0,
    {
        &self.roots
    }

    pub fn revocation_lists(&self) -> (lists: &Vec<Vec<u8>>)
        ensures
            blobs(lists@) == self.parts().1,
    {
        &self.revocation_lists
    }
}

/// The device trust, from what reading the two PEM texts came to.
pub fn assemble_device_trust(
    roots: Option<Vec<Vec<u8>>>,
    revocation_lists: Option<Vec<Vec<u8>>>,
) -> (result: Result<DeviceTrust, V2GatewayConfigError>)
    ensures
        match (roots, revocation_lists) {
            (Some(roots), Some(lists)) => result matches Ok(trust) && trust.parts() == (
                blobs(roots@),
                blobs(lists@),
            ),
            _ => result matches Err(e) && e == V2GatewayConfigError::FilesystemRef,
        },
{
    match (roots, revocation_lists) {
        (Some(roots), Some(revocation_lists)) => Ok(DeviceTrust { roots, revocation_lists }),
        _ => Err(V2GatewayConfigError::FilesystemRef),
    }
}

/// Reads the device trust from PEM text.
pub fn build_device_trust(ca_pem: &[u8], crl_pem: &[u8]) -> (result: Result<
    DeviceTrust,
    V2GatewayConfigError,
>)
    ensures
        match (pem_certificates(ca_pem@), pem_revocation_lists(crl_pem@)) {
            (Some(roots), Some(lists)) => result matches Ok(trust) && trust.parts() == (
                roots,
                lists,
            ),
            _ => result matches Err(e) && e == V2GatewayConfigError::FilesystemRef,
        },
{
    assemble_device_trust(read_certificates(ca_pem), read_revocation_lists(crl_pem))
}

/// Why a peer has no device identity.
#[derive(Debug, Clone, Copy, PartialEq, Eq, Structural)]
pub enum DeviceCredentialError {
    /// Its chain does not pass.
    ChainRejected,
    PeerIdentityUnavailable,
}

/// The device that a certificate digest stands for: its first sixteen bytes,
/// unless they are all zero.
pub open spec fn device_of(digest: Seq<u8>) -> Result<nat, DeviceCredentialError> {
    let number = encoding::be(digest.subrange(0, 16));
    if number == 0 {
        Err(DeviceCredentialError::PeerIdentityUnavailable)
    } else {
        Ok(number)
    }
}

pub fn device_from_digest(digest: &[u8; 32]) -> (result: Result<DeviceId, DeviceCredentialError>)
    ensures
        match device_of(digest@) {
            Ok(number) => result matches Ok(id) && id.key == number,
            Err(e) => result == Err::<DeviceId, DeviceCredentialError>(e),
        },
{
    let key: u128 = read_be(digest.as_slice(), 0, 16);
    if key == 0 {
        return Err(DeviceCredentialError::PeerIdentityUnavailable);
    }
    Ok(DeviceId { key })
}

/// Binds a device to the exact leaf certificate of its verified chain, so that
/// a ticket for one device never authorizes another.
#[derive(Debug, Clone, Copy)]
pub struct CertHashDeviceExtractor;

impl CertHashDeviceExtractor {
    /// The device of a verified chain. `accepted` says whether the chain passed
    /// the peer chain check.
    pub fn extract(&self, verified_chain: &Vec<Vec<u8>>, accepted: bool) -> (result: Result<
        DeviceId,
        DeviceCredentialError,
    >)
        requires
            verified_chain@.len() > 0 ==> verified_chain@[0]@.len() < 0x2000_0000_0000_0000,
        ensures
            if !accepted {
                result == Err::<DeviceId, DeviceCredentialError>(
                    DeviceCredentialError::ChainRejected,
                )
            } else if verified_chain@.len() == 0 {
                result == Err::<DeviceId, DeviceCredentialError>(
                    DeviceCredentialError::PeerIdentityUnavailable,
                )
            } else {
                match device_of(sha256_of(verified_chain@[0]@)) {
                    Ok(number) => result matches Ok(id) && id.key == number,
                    Err(e) => result == Err::<DeviceId, DeviceCredentialError>(e),
                }
            },
    {
        if !accepted {
            return Err(DeviceCredentialError::ChainRejected);
        }
        if verified_chain.len() == 0 {
            return Err(DeviceCredentialError::PeerIdentityUnavailable);
        }
        device_from_digest(&sha256(verified_chain[0].as_slice()))
    }
}

/// A gateway's chain is accepted where it has one certificate or more, up to as
/// many as it may, none of them empty or over the limit.
pub proof fn law_chains_within_their_limits(chain: Seq<Seq<u8>>, limits: CertificateLimits)
    ensures
        chain_within(chain, limits) <==> {
            &&& 1 <= chain.len() <= limits.chain_len
            &&& forall|i: int| 0 <= i < chain.len() ==> (#[trigger] chain[i]).len() >= 1
            &&& forall|i: int|
                0 <= i < chain.len() ==> (#[trigger] chain[i]).len() <= limits.der_len
        },
{
}

/// A gateway has credentials exactly where its certificates and its key can be read
/// and the chain is within its limits; they are what was read, unchanged.
pub proof fn law_credentials_are_what_was_read(
    cert_pem: Seq<u8>,
    key_pem: Seq<u8>,
    limits: CertificateLimits,
    chain: Seq<Seq<u8>>,
    key: (nat, Seq<u8>),
)
    ensures
        credentials_of(cert_pem, key_pem, limits) == Some((chain, key)) <==> {
            &&& pem_certificates(cert_pem) == Some(chain)
            &&& pem_private_key(key_pem) == Some(Some(key))
            &&& chain_within(chain, limits)
        },
{
}

/// The device of a digest is the number that its first sixteen bytes spell. Only
/// where all of them are zero is there none.
pub proof fn law_devices_are_the_first_half_of_the_digest(digest: Seq<u8>)
    requires
        digest.len() == 32,
    ensures
        device_of(digest) is Err <==> (forall|i: int| 0 <= i < 16 ==> digest[i] == 0),
        device_of(digest) matches Ok(number) ==> encoding::to_be(number, 16) == digest.subrange(
            0,
            16,
        ),
        device_of(digest) matches Err(e) ==> e == DeviceCredentialError::PeerIdentityUnavailable,
{
    let half = digest.subrange(0, 16);
    encoding::lemma_be_zero(half);
    encoding::lemma_to_be_of_be(half);
    if forall|i: int| 0 <= i < 16 ==> digest[i] == 0 {
        assert(forall|i: int| 0 <= i < 16 ==> half[i] == 0);
    }
    if forall|i: int| 0 <= i < half.len() ==> half[i] == 0 {
        assert forall|i: int| 0 <= i < 16 implies digest[i] == 0 by {
            assert(half[i] == 0);
        }
    }
}

/// The device of a peer is bound to the first certificate of its chain: it is the first
/// half of that certificate's digest, wherever the chain passed and is not empty.
pub proof fn law_devices_are_bound_to_their_certificates(
    extractor: &CertHashDeviceExtractor,
    chain: &Vec<Vec<u8>>,
    accepted: bool,
    result: Result<DeviceId, DeviceCredentialError>,
)
    requires
        chain@.len() > 0 ==> chain@[0]@.len() < 0x2000_0000_0000_0000,
        call_ensures(CertHashDeviceExtractor::extract, (extractor, chain, accepted), result),
    ensures
        !accepted ==> result == Err::<DeviceId, _>(DeviceCredentialError::ChainRejected),
        accepted && chain@.len() == 0 ==> result == Err::<DeviceId, _>(
            DeviceCredentialError::PeerIdentityUnavailable,
        ),
        accepted && chain@.len() > 0 ==> {
            let number = encoding::be(sha256_of(chain@[0]@).subrange(0, 16));
            &&& number > 0 ==> result is Ok && result->Ok_0.key == number
            &&& number == 0 ==> result == Err::<DeviceId, _>(
                DeviceCredentialError::PeerIdentityUnavailable,
            )
        },
{
}

} // verus!
