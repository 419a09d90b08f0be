//! The certificate chain and private key that the server presents, and how
//! they are obtained from PEM text.
//!
//! Nothing here touches a file: the caller reads the PEM text and passes its
//! bytes.

use vstd::prelude::*;
use openssl::pkey::PKey;
use rustls::Certificate;
use rustls::PrivateKey;
use rustls::ServerConfig;
use rustls_pemfile::Item;

verus! {

/// Why no credential could be had.
#[derive(Clone, Copy, Debug, PartialEq, Eq, Structural)]
pub enum CredentialError {
    /// The PEM text of the private key is longer than `MAX_KEY_PEM_LEN`.
    KeyTooLong,
    /// The private key could not be read from its PEM text.
    PrivateKey,
    /// The certificates could not be read from their PEM text.
    Certificates,
    /// The TLS library does not accept the key.
    Rejected,
}

/// The longest PEM text of a private key that is looked at.
pub const MAX_KEY_PEM_LEN: usize = 0x7fff_ffff;

/// One section of a PEM text, as far as it matters here.
#[derive(Debug, PartialEq, Eq)]
pub enum PemSection {
    /// An X.509 certificate, in DER.
    Certificate(Vec<u8>),
    /// A section of any other kind.
    Other,
}

/// [`PemSection`] as a mathematical value.
pub enum PemSectionModel {
    Certificate(Seq<u8>),
    Other,
}

impl View for PemSection {
    type V = PemSectionModel;

    open spec fn view(&self) -> PemSectionModel {
        match *self {
            PemSection::Certificate(der) => PemSectionModel::Certificate(der@),
            PemSection::Other => PemSectionModel::Other,
        }
    }
}

/// What reading one section from the front of a PEM text comes to.
pub enum PemRead {
    /// A section was read; `rest` is the text behind it.
    Section { section: PemSectionModel, rest: Seq<u8> },
    /// The text holds no further section.
    End,
    /// The text is malformed.
    Malformed,
}

/// What `rustls_pemfile::read_one` reads from the front of `input`.
pub uninterp spec fn pem_read(input: Seq<u8>) -> PemRead;

/// What one call of the PEM reader returned.
enum PemStep<'a> {
    Section(PemSection, &'a [u8]),
    End,
    Malformed,
}

impl<'a> View for PemStep<'a> {
    type V = PemRead;

    closed spec fn view(&self) -> PemRead {
        match *self {
            PemStep::Section(section, rest) => PemRead::Section { section: section@, rest: rest@ },
            PemStep::End => PemRead::End,
            PemStep::Malformed => PemRead::Malformed,
        }
    }
}

/// `rustls_pemfile::read_one`, reading from a byte slice: the next section
/// of a kind that the crate knows, with the text behind it; or that there is
/// no further section; or that the text is malformed. Text between sections
/// and sections of unknown kinds are passed over. What is claimed: the
/// result depends on the bytes alone, so it has a name, `pem_read`; and a
/// section is only returned after its begin and end lines were read, so the
/// text behind it is shorter than the input.
#[verifier::external_body]
fn read_pem_section<'a>(input: &'a [u8]) -> (step: PemStep<'a>)
    ensures
        step@ == pem_read(input@),
        step matches PemStep::Section(_, rest) ==> rest@.len() < input@.len(),
{
    let mut rest = input;
    match rustls_pemfile::read_one(&mut rest) {
        Ok(Some(Item::X509Certificate(der))) => PemStep::Section(
            PemSection::Certificate(der.to_vec()),
            rest,
        ),
        Ok(Some(_)) => PemStep::Section(PemSection::Other, rest),
        Ok(None) => PemStep::End,
        Err(_) => PemStep::Malformed,
    }
}

/// All sections of a PEM text, in order; `None` if the text is malformed
/// anywhere. (The text behind a section is always shorter than the text it
/// was read from; the test for it only makes the definition well founded.)
pub open spec fn pem_sections(input: Seq<u8>) -> Option<Seq<PemSectionModel>>
    decreases input.len(),
{
    match pem_read(input) {
        PemRead::Section { section, rest } => if rest.len() < input.len() {
            match pem_sections(rest) {
                Some(later) => Some(seq![section] + later),
                None => None,
            }
        } else {
            None
        },
        PemRead::End => Some(Seq::empty()),
        PemRead::Malformed => None,
    }
}

/// The certificates among `sections`, in order.
pub open spec fn certificates_in(sections: Seq<PemSectionModel>) -> Seq<Seq<u8>>
    decreases sections.len(),
{
    if sections.len() == 0 {
        Seq::empty()
    } else {
        match sections.last() {
            PemSectionModel::Certificate(der) => certificates_in(sections.drop_last()).push(der),
            PemSectionModel::Other => certificates_in(sections.drop_last()),
        }
    }
}

/// The certificates of a PEM text, in order; `None` if the text is malformed
/// anywhere.
pub open spec fn pem_certificates(input: Seq<u8>) -> Option<Seq<Seq<u8>>> {
    match pem_sections(input) {
        Some(sections) => Some(certificates_in(sections)),
        None => None,
    }
}

/// The sections of a list, as mathematical values.
pub open spec fn sections_view(sections: Seq<PemSection>) -> Seq<PemSectionModel> {
    sections.map_values(|section: PemSection| section@)
}

/// The byte strings of a list, as mathematical values.
pub open spec fn chain_view(chain: Seq<Vec<u8>>) -> Seq<Seq<u8>> {
    chain.map_values(|der: Vec<u8>| der@)
}

/// All sections of a PEM text, in order.
pub fn read_pem_sections(pem: &[u8]) -> (read: Result<Vec<PemSection>, CredentialError>)
    ensures
        match read {
            Ok(sections) => pem_sections(pem@) == Some(sections_view(sections@)),
            Err(error) => error == CredentialError::Certificates && pem_sections(pem@) is None,
        },
{
    let mut sections: Vec<PemSection> = Vec::new();
    let mut rest = pem;
    assert(sections_view(sections@) =~= Seq::<PemSectionModel>::empty());
    loop
        invariant
            match pem_sections(rest@) {
                Some(later) => pem_sections(pem@) == Some(sections_view(sections@) + later),
                None => pem_sections(pem@) is None,
            },
        decreases rest@.len(),
    {
        match read_pem_section(rest) {
            PemStep::Section(section, next) => {
                proof {
                    let before = sections_view(sections@);
                    assert(sections_view(sections@.push(section)) =~= before.push(section@));
                    match pem_sections(next@) {
                        Some(later) => {
                            assert(before + (seq![section@] + later) =~= before.push(section@)
                                + later);
                        },
                        None => {},
                    }
                }
                sections.push(section);
                rest = next;
            },
            PemStep::End => {
                assert(sections_view(sections@) + Seq::<PemSectionModel>::empty()
                    =~= sections_view(sections@));
                return Ok(sections);
            },
            PemStep::Malformed => {
                return Err(CredentialError::Certificates);
            },
        }
    }
}

/// The certificates among `sections`, in order.
pub fn certificates_of(sections: Vec<PemSection>) -> (chain: Vec<Vec<u8>>)
    ensures
        chain_view(chain@) == certificates_in(sections_view(sections@)),
{
    let ghost all = sections_view(sections@);
    let mut chain: Vec<Vec<u8>> = Vec::new();
    assert(all.take(0) =~= Seq::<PemSectionModel>::empty());
    assert(chain_view(chain@) =~= Seq::<Seq<u8>>::empty());
    for section in it: sections
        invariant
            all == sections_view(it.seq()),
            chain_view(chain@) == certificates_in(all.take(it.index() as int)),
    {
        proof {
            let k = it.index() as int;
            assert(all.take(k + 1).drop_last() =~= all.take(k));
            assert(all.take(k + 1).last() == section@);
        }
        match section {
            PemSection::Certificate(der) => {
                assert(chain_view(chain@.push(der)) =~= chain_view(chain@).push(der@));
                chain.push(der);
            },
            PemSection::Other => {},
        }
    }
    assert(all.take(all.len() as int) =~= all);
    chain
}

/// The certificates of a PEM text, in DER and in order. Sections of other
/// kinds are passed over.
pub fn load_certs(pem: &[u8]) -> (loaded: Result<Vec<Vec<u8>>, CredentialError>)
    ensures
        match loaded {
            Ok(chain) => pem_certificates(pem@) == Some(chain_view(chain@)),
            Err(error) => error == CredentialError::Certificates && pem_certificates(pem@) is None,
        },
{
    match read_pem_sections(pem) {
        Ok(sections) => Ok(certificates_of(sections)),
        Err(error) => Err(error),
    }
}

/// `PKey::private_key_from_pem` and then `PKey::private_key_to_der` of the
/// openssl crate: the key of a PEM text in its DER form, or `None` where
/// OpenSSL reads no private key from the text. The outcome rests with the
/// OpenSSL library of the machine, so nothing is claimed of it. The crate
/// panics on a text longer than `MAX_KEY_PEM_LEN`, which is kept from it.
#[verifier::external_body]
fn private_key_der(pem: &[u8]) -> (der: Option<Vec<u8>>)
    requires
        pem@.len() <= MAX_KEY_PEM_LEN,
{
    match PKey::private_key_from_pem(pem) {
        Ok(key) => key.private_key_to_der().ok(),
        Err(_) => None,
    }
}

/// The private key of a PEM text, in DER. A text longer than
/// `MAX_KEY_PEM_LEN` is not looked at, and is the only one that is answered
/// with `KeyTooLong`.
pub fn load_private_key(pem: &[u8]) -> (loaded: Result<Vec<u8>, CredentialError>)
    ensures
        loaded == Err::<Vec<u8>, _>(CredentialError::KeyTooLong) <==> pem@.len()
            > MAX_KEY_PEM_LEN,
        loaded matches Err(error) ==> error == CredentialError::KeyTooLong || error
            == CredentialError::PrivateKey,
{
    if pem.len() > MAX_KEY_PEM_LEN {
        return Err(CredentialError::KeyTooLong);
    }
    key_or_error(private_key_der(pem))
}

/// The key that was read, or the error that stands for none.
pub fn key_or_error(read: Option<Vec<u8>>) -> (key: Result<Vec<u8>, CredentialError>)
    ensures
        match read {
            Some(der) => key == Ok::<_, CredentialError>(der),
            None => key == Err::<Vec<u8>, _>(CredentialError::PrivateKey),
        },
{
    match read {
        Some(der) => Ok(der),
        None => Err(CredentialError::PrivateKey),
    }
}

/// The certificate chain and the private key with which the server
/// authenticates itself. It is made once and never changed.
pub struct CredentialMaterial {
    certificate_chain: Vec<Vec<u8>>,
    private_key: Vec<u8>,
}

/// [`CredentialMaterial`] as a mathematical value.
pub struct CredentialModel {
    /// The certificates in DER, the server's own first.
    pub certificate_chain: Seq<Seq<u8>>,
    /// The private key in DER.
    pub private_key: Seq<u8>,
}

impl View for CredentialMaterial {
    type V = CredentialModel;

    closed spec fn view(&self) -> CredentialModel {
        CredentialModel {
            certificate_chain: chain_view(self.certificate_chain@),
            private_key: self.private_key@,
        }
    }
}

impl CredentialMaterial {
    /// The credential with the given chain and key, both in DER.
    pub fn new(certificate_chain: Vec<Vec<u8>>, private_key: Vec<u8>) -> (credential:
        CredentialMaterial)
        ensures
            credential@ == (CredentialModel {
                certificate_chain: chain_view(certificate_chain@),
                private_key: private_key@,
            }),
    {
        CredentialMaterial { certificate_chain, private_key }
    }

    /// The credential from what loading the key and loading the chain came
    /// to. The key's error goes before the chain's.
    pub fn assemble(
        key: Result<Vec<u8>, CredentialError>,
        chain: Result<Vec<Vec<u8>>, CredentialError>,
    ) -> (assembled: Result<CredentialMaterial, CredentialError>)
        ensures
            match (key, chain) {
                (Ok(k), Ok(c)) => assembled matches Ok(credential) && credential@ == (
                CredentialModel { certificate_chain: chain_view(c@), private_key: k@ }),
                (Ok(_), Err(error)) => assembled == Err::<CredentialMaterial, _>(error),
                (Err(error), _) => assembled == Err::<CredentialMaterial, _>(error),
            },
    {
        match key {
            Ok(private_key) => match chain {
                Ok(certificate_chain) => Ok(
                    CredentialMaterial::new(certificate_chain, private_key),
                ),
                Err(error) => Err(error),
            },
            Err(error) => Err(error),
        }
    }

    /// The certificates in DER, the server's own first.
    pub fn certificate_chain(&self) -> (chain: &Vec<Vec<u8>>)
        ensures
            chain_view(chain@) == self@.certificate_chain,
    {
        &self.certificate_chain
    }

    /// The private key in DER.
    pub fn private_key(&self) -> (key: &Vec<u8>)
        ensures
            key@ == self@.private_key,
    {
        &self.private_key
    }
}

/// The credential from the PEM text of the key and the PEM text of the
/// certificates.
pub fn load_credential(key_pem: &[u8], cert_pem: &[u8]) -> (loaded: Result<
    CredentialMaterial,
    CredentialError,
>)
    ensures
        loaded == Err::<CredentialMaterial, _>(CredentialError::KeyTooLong) <==> key_pem@.len()
            > MAX_KEY_PEM_LEN,
        match loaded {
            Ok(credential) => pem_certificates(cert_pem@) == Some(credential@.certificate_chain),
            Err(error) => error == CredentialError::KeyTooLong || error
                == CredentialError::PrivateKey || (error == CredentialError::Certificates
                && pem_certificates(cert_pem@) is None),
        },
{
    let key = load_private_key(key_pem);
    let chain = load_certs(cert_pem);
    CredentialMaterial::assemble(key, chain)
}

/// `ServerConfig` of rustls: the configuration that every TLS session of the
/// server is made from. It is carried through as it is; nothing is known of
/// what it holds.
#[verifier::external_type_specification]
#[verifier::external_body]
pub struct ExServerConfig(ServerConfig);

/// `ServerConfig::builder`, `with_safe_defaults`, `with_no_client_auth` and
/// `with_single_cert` of rustls: a server configuration with the library's
/// default protocol versions and cipher suites, that asks no certificate of
/// the client and presents the given chain and key; `None` where rustls does
/// not accept the key. Nothing is claimed of the result.
#[verifier::external_body]
fn build_server_config(chain: &Vec<Vec<u8>>, key: &Vec<u8>) -> (config: Option<ServerConfig>) {
    ServerConfig::builder()
        .with_safe_defaults()
        .with_no_client_auth()
        .with_single_cert(chain.iter().cloned().map(Certificate).collect(), PrivateKey(key.clone()))
        .ok()
}

/// The configuration, or the error that stands for none.
pub fn config_or_error(built: Option<ServerConfig>) -> (config: Result<
    ServerConfig,
    CredentialError,
>)
    ensures
        match built {
            Some(c) => config == Ok::<_, CredentialError>(c),
            None => config == Err::<ServerConfig, _>(CredentialError::Rejected),
        },
{
    match built {
        Some(c) => Ok(c),
        None => Err(CredentialError::Rejected),
    }
}

/// The TLS server configuration that presents `credential` and asks no
/// certificate of the client.
pub fn server_config(credential: &CredentialMaterial) -> (config: Result<
    ServerConfig,
    CredentialError,
>)
    ensures
        config matches Err(error) ==> error == CredentialError::Rejected,
{
    config_or_error(build_server_config(&credential.certificate_chain, &credential.private_key))
}

/// The TLS server configuration from the PEM text of the key and the PEM
/// text of the certificates.
pub fn load_tls_config(key_pem: &[u8], cert_pem: &[u8]) -> (config: Result<
    ServerConfig,
    CredentialError,
>)
    ensures
        config == Err::<ServerConfig, _>(CredentialError::KeyTooLong) <==> key_pem@.len()
            > MAX_KEY_PEM_LEN,
        pem_certificates(cert_pem@) is None ==> config is Err && !(config == Err::<
            ServerConfig,
            _,
        >(CredentialError::Rejected)),
        config matches Err(error) ==> error == CredentialError::KeyTooLong || error
            == CredentialError::PrivateKey || error == CredentialError::Rejected || (error
            == CredentialError::Certificates && pem_certificates(cert_pem@) is None),
{
    match load_credential(key_pem, cert_pem) {
        Ok(credential) => server_config(&credential),
        Err(error) => Err(error),
    }
}

} // verus!
