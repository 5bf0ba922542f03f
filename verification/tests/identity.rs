use streamguard_gateway::v2::config::V2GatewayConfigError;
use streamguard_gateway::v2::identity::{
    assemble_device_trust, assemble_gateway_identity, build_device_trust, build_gateway_identity,
    check_chain, check_key, credentials_fit,
    device_from_digest, CertHashDeviceExtractor, CertificateLimits, DeviceCredentialError,
    KeyEncoding, PrivateKey,
};

const LIMITS: CertificateLimits = CertificateLimits { chain_len: 2, der_len: 4 };

#[test]
fn a_device_is_its_leaf_certificate() {
    let extractor = CertHashDeviceExtractor;
    let chain = vec![b"abc".to_vec(), b"issuer".to_vec()];
    let device = extractor.extract(&chain, true).unwrap();
    assert_eq!(device.key, 0xba7816bf_8f01cfea_414140de_5dae2223);
    assert_eq!(extractor.extract(&chain, false), Err(DeviceCredentialError::ChainRejected));
    assert_eq!(
        extractor.extract(&vec![], true),
        Err(DeviceCredentialError::PeerIdentityUnavailable)
    );
}

#[test]
fn an_all_zero_digest_names_nobody() {
    let mut digest = [0u8; 32];
    digest[31] = 9;
    assert_eq!(
        device_from_digest(&digest),
        Err(DeviceCredentialError::PeerIdentityUnavailable)
    );
    digest[15] = 1;
    assert_eq!(device_from_digest(&digest).unwrap().key, 1);
}

#[test]
fn chains_and_keys_are_bounded() {
    let refused = |chain: Option<Vec<Vec<u8>>>| check_chain(chain, LIMITS).is_err();
    assert!(!refused(Some(vec![vec![1, 2, 3, 4]])));
    assert!(refused(None));
    assert!(refused(Some(vec![])));
    assert!(refused(Some(vec![vec![]])));
    assert!(refused(Some(vec![vec![1; 5]])));
    assert!(refused(Some(vec![vec![1]; 3])));
    assert!(check_key(None).is_err());
    assert!(check_key(Some(None)).is_err());
    assert!(check_key(Some(Some(PrivateKey { encoding: KeyEncoding::Pkcs8, der: vec![1] }))).is_ok());
}

#[test]
fn an_identity_is_read_from_pem() {
    let certified = rcgen::generate_simple_self_signed(vec!["localhost".to_string()]).unwrap();
    let limits = CertificateLimits { chain_len: 4, der_len: 65_536 };
    let certificate = certified.cert.pem();
    let key = certified.key_pair.serialize_pem();
    let identity =
        build_gateway_identity(certificate.as_bytes(), key.as_bytes(), limits).ok().unwrap();
    assert_eq!(identity.chain(), &vec![certified.cert.der().to_vec()]);
    assert_eq!(identity.key().der, certified.key_pair.serialize_der());
    assert_eq!(
        build_gateway_identity(b"", key.as_bytes(), limits).err(),
        Some(V2GatewayConfigError::FilesystemRef)
    );
    assert!(build_gateway_identity(certificate.as_bytes(), b"", limits).is_err());
}

#[test]
fn an_identity_needs_a_key_that_fits() {
    let certified = rcgen::generate_simple_self_signed(vec!["localhost".to_string()]).unwrap();
    let other = rcgen::generate_simple_self_signed(vec!["localhost".to_string()]).unwrap();
    let limits = CertificateLimits { chain_len: 4, der_len: 65_536 };
    let certificate = certified.cert.pem();
    let key = certified.key_pair.serialize_pem();
    let wrong = other.key_pair.serialize_pem();
    assert!(credentials_fit(certificate.as_bytes(), key.as_bytes(), limits));
    assert!(!credentials_fit(certificate.as_bytes(), wrong.as_bytes(), limits));
    assert!(!credentials_fit(certificate.as_bytes(), b"", limits));
    let assembled = assemble_gateway_identity(certificate.as_bytes(), key.as_bytes(), limits, true);
    assert_eq!(assembled.ok().unwrap().chain(), &vec![certified.cert.der().to_vec()]);
    assert_eq!(
        assemble_gateway_identity(certificate.as_bytes(), key.as_bytes(), limits, false).err(),
        Some(V2GatewayConfigError::FilesystemRef)
    );
    assert_eq!(
        assemble_gateway_identity(certificate.as_bytes(), b"", limits, true).err(),
        Some(V2GatewayConfigError::FilesystemRef)
    );
}

#[test]
fn device_trust_is_read_from_pem() {
    let crl = "-----BEGIN X509 CRL-----\nAQIDBA==\n-----END X509 CRL-----\n";
    let certified = rcgen::generate_simple_self_signed(vec!["localhost".to_string()]).unwrap();
    let trust =
        build_device_trust(certified.cert.pem().as_bytes(), crl.as_bytes()).ok().unwrap();
    assert_eq!(trust.roots(), &vec![certified.cert.der().to_vec()]);
    assert_eq!(trust.revocation_lists(), &vec![vec![1u8, 2, 3, 4]]);
    let broken = "-----BEGIN X509 CRL-----\n*\n-----END X509 CRL-----\n";
    assert!(build_device_trust(certified.cert.pem().as_bytes(), broken.as_bytes()).is_err());
    assert!(assemble_device_trust(None, Some(vec![])).is_err());
}
