use openssl::asn1::Asn1Time;
use openssl::ec::EcGroup;
use openssl::ec::EcKey;
use openssl::hash::MessageDigest;
use openssl::nid::Nid;
use openssl::pkey::PKey;
use openssl::pkey::Private;
use openssl::rsa::Rsa;
use openssl::x509::X509NameBuilder;
use openssl::x509::X509;
use proxy_server::credential::certificates_of;
use proxy_server::credential::config_or_error;
use proxy_server::credential::key_or_error;
use proxy_server::credential::load_certs;
use proxy_server::credential::load_credential;
use proxy_server::credential::load_private_key;
use proxy_server::credential::load_tls_config;
use proxy_server::credential::read_pem_sections;
use proxy_server::credential::server_config;
use proxy_server::credential::CredentialError;
use proxy_server::credential::CredentialMaterial;
use proxy_server::credential::MAX_KEY_PEM_LEN;
use proxy_server::credential::PemSection;

const ONE_CERTIFICATE: &[u8] = b"-----BEGIN CERTIFICATE-----\nAQID\n-----END CERTIFICATE-----\n";

const MIXED_SECTIONS: &[u8] = b"leading text\n\
-----BEGIN CERTIFICATE-----\nAQID\n-----END CERTIFICATE-----\n\
-----BEGIN PUBLIC KEY-----\nBAUG\n-----END PUBLIC KEY-----\n\
-----BEGIN SOMETHING ELSE-----\nBwgJ\n-----END SOMETHING ELSE-----\n\
-----BEGIN CERTIFICATE-----\r\nCgsMDQ==\r\n-----END CERTIFICATE-----\r\n\
-----BEGIN X509 CRL-----\nDg8=\n-----END X509 CRL-----\n\
-----BEGIN CERTIFICATE-----\nEBES\nExQV\n-----END CERTIFICATE-----\n\
trailing text\n";

fn rsa_key() -> PKey<Private> {
    PKey::from_rsa(Rsa::generate(2048).unwrap()).unwrap()
}

fn ec_key() -> PKey<Private> {
    let group = EcGroup::from_curve_name(Nid::X9_62_PRIME256V1).unwrap();
    PKey::from_ec_key(EcKey::generate(&group).unwrap()).unwrap()
}

fn self_signed(key: &PKey<Private>, common_name: &str) -> X509 {
    let mut name = X509NameBuilder::new().unwrap();
    name.append_entry_by_text("CN", common_name).unwrap();
    let name = name.build();
    let mut builder = X509::builder().unwrap();
    builder.set_version(2).unwrap();
    builder.set_subject_name(&name).unwrap();
    builder.set_issuer_name(&name).unwrap();
    builder.set_pubkey(key).unwrap();
    builder.set_not_before(&Asn1Time::days_from_now(0).unwrap()).unwrap();
    builder.set_not_after(&Asn1Time::days_from_now(30).unwrap()).unwrap();
    builder.sign(key, MessageDigest::sha256()).unwrap();
    builder.build()
}

fn kinds(sections: &Vec<PemSection>) -> Vec<Option<Vec<u8>>> {
    let mut out = Vec::new();
    for section in sections {
        match section {
            PemSection::Certificate(der) => out.push(Some(der.clone())),
            PemSection::Other => out.push(None),
        }
    }
    out
}

#[test]
fn certificate_section_is_decoded() {
    assert_eq!(load_certs(ONE_CERTIFICATE), Ok(vec![vec![1u8, 2, 3]]));
}

#[test]
fn certificates_are_kept_in_order_and_other_sections_passed_over() {
    assert_eq!(
        load_certs(MIXED_SECTIONS),
        Ok(vec![vec![1u8, 2, 3], vec![10u8, 11, 12, 13], vec![16u8, 17, 18, 19, 20, 21]])
    );
}

#[test]
fn sections_are_read_in_order() {
    match read_pem_sections(MIXED_SECTIONS) {
        Ok(sections) => assert_eq!(
            kinds(&sections),
            vec![
                Some(vec![1u8, 2, 3]),
                None,
                Some(vec![10u8, 11, 12, 13]),
                None,
                Some(vec![16u8, 17, 18, 19, 20, 21]),
            ]
        ),
        Err(error) => panic!("the text is well formed: {:?}", error),
    }
}

#[test]
fn text_without_sections_has_no_certificates() {
    assert_eq!(load_certs(b""), Ok(Vec::<Vec<u8>>::new()));
    assert_eq!(load_certs(b"no sections here\n"), Ok(Vec::<Vec<u8>>::new()));
}

#[test]
fn section_without_end_is_malformed() {
    assert_eq!(
        load_certs(b"-----BEGIN CERTIFICATE-----\nAQID\n"),
        Err(CredentialError::Certificates)
    );
}

#[test]
fn malformed_section_discards_earlier_certificates() {
    let mut text = ONE_CERTIFICATE.to_vec();
    text.extend_from_slice(b"-----BEGIN CERTIFICATE-----\nBAUG\n");
    assert_eq!(load_certs(&text), Err(CredentialError::Certificates));
    assert!(read_pem_sections(&text).is_err());
}

#[test]
fn section_that_is_not_base64_is_malformed() {
    assert_eq!(
        load_certs(b"-----BEGIN CERTIFICATE-----\n!!!!\n-----END CERTIFICATE-----\n"),
        Err(CredentialError::Certificates)
    );
}

#[test]
fn certificates_of_given_sections() {
    let sections = vec![
        PemSection::Other,
        PemSection::Certificate(vec![7u8, 8]),
        PemSection::Other,
        PemSection::Other,
        PemSection::Certificate(Vec::new()),
        PemSection::Certificate(vec![9u8]),
    ];
    assert_eq!(certificates_of(sections), vec![vec![7u8, 8], Vec::new(), vec![9u8]]);
    assert_eq!(certificates_of(Vec::new()), Vec::<Vec<u8>>::new());
    assert_eq!(certificates_of(vec![PemSection::Other]), Vec::<Vec<u8>>::new());
}

#[test]
fn real_certificate_comes_out_in_der() {
    let key = ec_key();
    let first = self_signed(&key, "first.example");
    let second = self_signed(&key, "second.example");
    let mut text = first.to_pem().unwrap();
    text.extend_from_slice(&second.to_pem().unwrap());
    assert_eq!(load_certs(&text), Ok(vec![first.to_der().unwrap(), second.to_der().unwrap()]));
}

#[test]
fn rsa_key_comes_out_in_der() {
    let key = rsa_key();
    let pem = key.private_key_to_pem_pkcs8().unwrap();
    assert_eq!(load_private_key(&pem), Ok(key.private_key_to_der().unwrap()));
}

#[test]
fn ec_key_comes_out_in_der() {
    let key = ec_key();
    let pem = key.private_key_to_pem_pkcs8().unwrap();
    let der = load_private_key(&pem).unwrap();
    assert_eq!(der, key.private_key_to_der().unwrap());
    assert_ne!(der, pem);
}

#[test]
fn text_without_key_is_a_key_error() {
    assert_eq!(load_private_key(b""), Err(CredentialError::PrivateKey));
    assert_eq!(load_private_key(b"not a key"), Err(CredentialError::PrivateKey));
    assert_eq!(load_private_key(ONE_CERTIFICATE), Err(CredentialError::PrivateKey));
}

#[test]
fn key_or_error_for_each_value() {
    assert_eq!(key_or_error(Some(vec![1u8, 2])), Ok(vec![1u8, 2]));
    assert_eq!(key_or_error(Some(Vec::new())), Ok(Vec::new()));
    assert_eq!(key_or_error(None), Err(CredentialError::PrivateKey));
}

#[test]
fn credential_keeps_chain_and_key() {
    let credential = CredentialMaterial::new(vec![vec![1u8, 2], vec![3u8]], vec![4u8, 5, 6]);
    assert_eq!(credential.certificate_chain(), &vec![vec![1u8, 2], vec![3u8]]);
    assert_eq!(credential.private_key(), &vec![4u8, 5, 6]);
}

#[test]
fn assemble_puts_key_errors_first() {
    match CredentialMaterial::assemble(Ok(vec![9u8]), Ok(vec![vec![1u8]])) {
        Ok(credential) => {
            assert_eq!(credential.private_key(), &vec![9u8]);
            assert_eq!(credential.certificate_chain(), &vec![vec![1u8]]);
        }
        Err(error) => panic!("both parts are there: {:?}", error),
    }
    assert_eq!(
        CredentialMaterial::assemble(Ok(vec![9u8]), Err(CredentialError::Certificates)).err(),
        Some(CredentialError::Certificates)
    );
    assert_eq!(
        CredentialMaterial::assemble(Err(CredentialError::PrivateKey), Ok(vec![vec![1u8]])).err(),
        Some(CredentialError::PrivateKey)
    );
    assert_eq!(
        CredentialMaterial::assemble(
            Err(CredentialError::PrivateKey),
            Err(CredentialError::Certificates)
        )
        .err(),
        Some(CredentialError::PrivateKey)
    );
}

#[test]
fn credential_from_pem_texts() {
    let key = rsa_key();
    let certificate = self_signed(&key, "localhost");
    let key_pem = key.private_key_to_pem_pkcs8().unwrap();
    let cert_pem = certificate.to_pem().unwrap();
    match load_credential(&key_pem, &cert_pem) {
        Ok(credential) => {
            assert_eq!(credential.private_key(), &key.private_key_to_der().unwrap());
            assert_eq!(credential.certificate_chain(), &vec![certificate.to_der().unwrap()]);
        }
        Err(error) => panic!("key and certificate are good: {:?}", error),
    }
}

#[test]
fn credential_errors_name_the_part() {
    let key = ec_key();
    let certificate = self_signed(&key, "localhost");
    let key_pem = key.private_key_to_pem_pkcs8().unwrap();
    let cert_pem = certificate.to_pem().unwrap();
    assert_eq!(
        load_credential(b"no key", &cert_pem).err(),
        Some(CredentialError::PrivateKey)
    );
    assert_eq!(
        load_credential(&key_pem, b"-----BEGIN CERTIFICATE-----\nAQID\n").err(),
        Some(CredentialError::Certificates)
    );
    assert_eq!(
        load_credential(b"no key", b"-----BEGIN CERTIFICATE-----\nAQID\n").err(),
        Some(CredentialError::PrivateKey)
    );
}

#[test]
fn server_config_for_rsa_credential() {
    let key = rsa_key();
    let certificate = self_signed(&key, "localhost");
    let credential = CredentialMaterial::new(
        vec![certificate.to_der().unwrap()],
        key.private_key_to_der().unwrap(),
    );
    assert!(server_config(&credential).is_ok());
}

#[test]
fn server_config_for_ec_credential() {
    let key = ec_key();
    let certificate = self_signed(&key, "localhost");
    let credential = CredentialMaterial::new(
        vec![certificate.to_der().unwrap()],
        key.private_key_to_der().unwrap(),
    );
    assert!(server_config(&credential).is_ok());
}

#[test]
fn server_config_rejects_what_is_no_key() {
    let credential = CredentialMaterial::new(vec![vec![1u8, 2, 3]], vec![4u8, 5, 6]);
    assert_eq!(server_config(&credential).err(), Some(CredentialError::Rejected));
    let credential = CredentialMaterial::new(Vec::new(), Vec::new());
    assert_eq!(server_config(&credential).err(), Some(CredentialError::Rejected));
}

#[test]
fn config_or_error_for_each_value() {
    assert_eq!(config_or_error(None).err(), Some(CredentialError::Rejected));
    let key = ec_key();
    let certificate = self_signed(&key, "localhost");
    let credential = CredentialMaterial::new(
        vec![certificate.to_der().unwrap()],
        key.private_key_to_der().unwrap(),
    );
    let config = server_config(&credential).ok();
    assert!(config.is_some());
    assert!(config_or_error(config).is_ok());
}

#[test]
fn tls_config_from_pem_texts() {
    let key = rsa_key();
    let certificate = self_signed(&key, "localhost");
    let key_pem = key.private_key_to_pem_pkcs8().unwrap();
    let cert_pem = certificate.to_pem().unwrap();
    assert!(load_tls_config(&key_pem, &cert_pem).is_ok());
    assert_eq!(
        load_tls_config(b"no key", &cert_pem).err(),
        Some(CredentialError::PrivateKey)
    );
    assert_eq!(
        load_tls_config(&key_pem, b"-----BEGIN CERTIFICATE-----\n").err(),
        Some(CredentialError::Certificates)
    );
}

#[test]
fn key_text_that_is_too_long_is_not_looked_at() {
    let long = vec![0u8; MAX_KEY_PEM_LEN + 1];
    assert_eq!(load_private_key(&long), Err(CredentialError::KeyTooLong));
    assert_eq!(load_credential(&long, ONE_CERTIFICATE).err(), Some(CredentialError::KeyTooLong));
    assert_eq!(
        load_credential(&long, b"-----BEGIN CERTIFICATE-----\nAQID\n").err(),
        Some(CredentialError::KeyTooLong)
    );
    assert_eq!(load_tls_config(&long, ONE_CERTIFICATE).err(), Some(CredentialError::KeyTooLong));
}

#[test]
fn key_text_within_the_limit_is_never_too_long() {
    assert_eq!(load_private_key(b""), Err(CredentialError::PrivateKey));
    assert_eq!(load_private_key(&vec![b'x'; 100_000]), Err(CredentialError::PrivateKey));
    assert_eq!(
        CredentialMaterial::assemble(Err(CredentialError::KeyTooLong), Ok(Vec::new())).err(),
        Some(CredentialError::KeyTooLong)
    );
    assert_eq!(
        CredentialMaterial::assemble(
            Err(CredentialError::KeyTooLong),
            Err(CredentialError::Certificates)
        )
        .err(),
        Some(CredentialError::KeyTooLong)
    );
}
