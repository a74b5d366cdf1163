//! Certificates and digests: the outside calls into `sha2`, `x509-cert` and
//! Bergshamra that signature verification makes, and the verified logic that
//! turns their results into report fields.
use vstd::prelude::*;
use x509_cert::der::{Decode, Encode};

verus! {

broadcast use vstd::string::group_string_axioms;

// ---------------------------------------------------------------------------
// SHA-256
// ---------------------------------------------------------------------------

/// The SHA-256 digest of some bytes.
pub uninterp spec fn spec_sha256(bytes: Seq<u8>) -> Seq<u8>;

/// Hashes bytes with SHA-256 (`<sha2::Sha256 as sha2::Digest>::digest`).
/// Claims: the named digest of the bytes, which is 32 bytes long as SHA-256
/// digests are.
#[verifier::external_body]
pub fn sha256_digest(bytes: &[u8]) -> (res: Vec<u8>)
    ensures
        res@ == spec_sha256(bytes@),
        res@.len() == 32,
{
    <sha2::Sha256 as sha2::Digest>::digest(bytes).to_vec()
}

/// The lower-case hexadecimal digit for a value below sixteen.
pub open spec fn hex_digit(v: nat) -> char {
    if v < 10 {
        ((v + 48) as u8) as char
    } else {
        ((v + 87) as u8) as char
    }
}

/// The lower-case hexadecimal text of some bytes, two digits per byte.
pub open spec fn spec_hex_lower(bytes: Seq<u8>) -> Seq<char>
    decreases bytes.len(),
{
    if bytes.len() == 0 {
        Seq::empty()
    } else {
        spec_hex_lower(bytes.drop_last()) + seq![
            hex_digit(bytes.last() as nat / 16),
            hex_digit(bytes.last() as nat % 16),
        ]
    }
}

fn hex_char(v: u8) -> (res: char)
    requires
        v < 16,
    ensures
        res == hex_digit(v as nat),
{
    if v < 10 {
        (v + 48) as char
    } else {
        (v + 87) as char
    }
}

/// Encodes bytes as lower-case hexadecimal text.
pub fn hex_lower(bytes: &[u8]) -> (res: String)
    ensures
        res@ == spec_hex_lower(bytes@),
{
    let mut encoded = String::new();
    let mut k: usize = 0;
    while k < bytes.len()
        invariant
            k <= bytes@.len(),
            encoded@ == spec_hex_lower(bytes@.take(k as int)),
        decreases bytes@.len() - k,
    {
        let byte = bytes[k];
        proof {
            assert(bytes@.take(k + 1).drop_last() =~= bytes@.take(k as int));
            assert(bytes@.take(k + 1).last() == byte);
        }
        crate::text::string_push(&mut encoded, hex_char(byte / 16));
        crate::text::string_push(&mut encoded, hex_char(byte % 16));
        assert(encoded@ =~= spec_hex_lower(bytes@.take(k + 1)));
        k = k + 1;
    }
    assert(bytes@.take(k as int) =~= bytes@);
    encoded
}

/// The SHA-256 fingerprint of a certificate: its digest in lower-case hex.
pub open spec fn spec_fingerprint(der: Seq<u8>) -> Seq<char> {
    spec_hex_lower(spec_sha256(der))
}

/// The SHA-256 fingerprint of some bytes, in lower-case hex.
pub fn sha256_fingerprint(bytes: &[u8]) -> (res: String)
    ensures
        res@ == spec_fingerprint(bytes@),
{
    let digest = sha256_digest(bytes);
    hex_lower(digest.as_slice())
}

// ---------------------------------------------------------------------------
// X.509 certificates
// ---------------------------------------------------------------------------

/// What `x509_cert::Certificate::from_der` reports for bytes it refuses: the
/// `Display` text of its error; nothing for bytes it accepts.
pub uninterp spec fn spec_x509_der_error(der: Seq<u8>) -> Option<Seq<char>>;

/// Parses a DER certificate (`x509_cert::Certificate::from_der`) and keeps
/// only the verdict. Claims: the named verdict of the bytes.
#[verifier::external_body]
pub fn x509_der_error(der: &[u8]) -> (res: Option<String>)
    ensures
        crate::text::opt_view(res) == spec_x509_der_error(der@),
{
    match x509_cert::Certificate::from_der(der) {
        Ok(_) => None,
        Err(error) => Some(error.to_string()),
    }
}

/// The text fields of a certificate, as plain values.
pub struct CertificateNamesView {
    pub subject: Seq<char>,
    pub issuer: Seq<char>,
    pub serial_number: Seq<char>,
    pub not_before: Seq<char>,
    pub not_after: Seq<char>,
    pub public_key_oid: Seq<char>,
}

/// The text fields of a certificate: subject and issuer names, serial
/// number, validity bounds and the public key's algorithm OID, each as its
/// `Display` text.
pub struct CertificateNames {
    pub subject: String,
    pub issuer: String,
    pub serial_number: String,
    pub not_before: String,
    pub not_after: String,
    pub public_key_oid: String,
}

impl View for CertificateNames {
    type V = CertificateNamesView;

    open spec fn view(&self) -> CertificateNamesView {
        CertificateNamesView {
            subject: self.subject@,
            issuer: self.issuer@,
            serial_number: self.serial_number@,
            not_before: self.not_before@,
            not_after: self.not_after@,
            public_key_oid: self.public_key_oid@,
        }
    }
}

/// The text fields of the certificate that some DER bytes encode, or
/// nothing when `x509_cert::Certificate::from_der` refuses them.
pub uninterp spec fn spec_x509_names(der: Seq<u8>) -> Option<CertificateNamesView>;

/// Reads a DER certificate's text fields (`x509_cert::Certificate::from_der`,
/// then the `Display` text of the subject, issuer, serial number, validity
/// bounds and public key algorithm OID). Claims: the named fields of the
/// bytes.
#[verifier::external_body]
pub fn x509_names(der: &[u8]) -> (res: Option<CertificateNames>)
    ensures
        match res {
            Some(names) => spec_x509_names(der@) == Some(names@),
            None => spec_x509_names(der@) is None,
        },
{
    let certificate = x509_cert::Certificate::from_der(der).ok()?;
    let tbs = certificate.tbs_certificate();
    Some(CertificateNames {
        subject: tbs.subject().to_string(),
        issuer: tbs.issuer().to_string(),
        serial_number: tbs.serial_number().to_string(),
        not_before: tbs.validity().not_before.to_string(),
        not_after: tbs.validity().not_after.to_string(),
        public_key_oid: tbs.subject_public_key_info().algorithm.oid.to_string(),
    })
}

/// The flags of a certificate's key usage extension, in the order digital
/// signature, non-repudiation, key encipherment, data encipherment, key
/// agreement, certificate signing, CRL signing; nothing when the bytes are
/// not a certificate or the extension is absent or unreadable.
pub uninterp spec fn spec_x509_key_usage(der: Seq<u8>) -> Option<Seq<bool>>;

/// Reads a DER certificate's key usage flags (`x509_cert::Certificate::from_der`,
/// then `get_extension::<KeyUsage>` and its seven flag methods). Claims: the
/// named flags of the bytes, seven of them.
#[verifier::external_body]
pub fn x509_key_usage(der: &[u8]) -> (res: Option<Vec<bool>>)
    ensures
        match res {
            Some(flags) => spec_x509_key_usage(der@) == Some(flags@) && flags@.len() == 7,
            None => spec_x509_key_usage(der@) is None,
        },
{
    let certificate = x509_cert::Certificate::from_der(der).ok()?;
    let (_, u) = certificate.tbs_certificate().get_extension::<x509_cert::ext::pkix::KeyUsage>().ok()??;
    Some(vec![
        u.digital_signature(),
        u.non_repudiation(),
        u.key_encipherment(),
        u.data_encipherment(),
        u.key_agreement(),
        u.key_cert_sign(),
        u.crl_sign(),
    ])
}

/// The purposes that a certificate's extended key usage extension lists, as
/// OID text; nothing when the bytes are not a certificate or the extension is
/// absent or unreadable.
pub uninterp spec fn spec_x509_extended_key_usage(der: Seq<u8>) -> Option<Seq<Seq<char>>>;

/// Reads a DER certificate's extended key usage (`x509_cert::Certificate::from_der`,
/// then `get_extension::<ExtendedKeyUsage>`, each OID as its `Display` text).
/// Claims: the named purposes of the bytes.
#[verifier::external_body]
pub fn x509_extended_key_usage(der: &[u8]) -> (res: Option<Vec<String>>)
    ensures
        match res {
            Some(oids) => spec_x509_extended_key_usage(der@) == Some(crate::verify::strings_view(oids@)),
            None => spec_x509_extended_key_usage(der@) is None,
        },
{
    let certificate = x509_cert::Certificate::from_der(der).ok()?;
    let (_, usage) = certificate.tbs_certificate().get_extension::<x509_cert::ext::pkix::ExtendedKeyUsage>().ok()??;
    Some(usage.0.iter().map(|oid| oid.to_string()).collect())
}

/// What reading a PEM certificate chain gives, as plain values.
pub enum PemChainView {
    Certificates(Seq<Seq<u8>>),
    Invalid(Seq<char>),
    Unencodable(Seq<char>),
}

/// What reading a PEM certificate chain gives: each certificate's DER
/// bytes, or the error of the PEM reader, or that of re-encoding.
pub enum PemChain {
    Certificates(Vec<Vec<u8>>),
    Invalid(String),
    Unencodable(String),
}

/// The views of a list of byte strings.
pub open spec fn bytes_view(values: Seq<Vec<u8>>) -> Seq<Seq<u8>> {
    values.map_values(|v: Vec<u8>| v@)
}

impl View for PemChain {
    type V = PemChainView;

    open spec fn view(&self) -> PemChainView {
        match self {
            PemChain::Certificates(c) => PemChainView::Certificates(bytes_view(c@)),
            PemChain::Invalid(m) => PemChainView::Invalid(m@),
            PemChain::Unencodable(m) => PemChainView::Unencodable(m@),
        }
    }
}

/// What reading a PEM certificate chain gives for some bytes.
pub uninterp spec fn spec_pem_chain(input: Seq<u8>) -> PemChainView;

/// Reads a PEM certificate chain (`x509_cert::Certificate::load_pem_chain`,
/// then `Encode::to_der` on each certificate). Claims: the named outcome of
/// the bytes.
#[verifier::external_body]
pub fn x509_pem_chain(input: &[u8]) -> (res: PemChain)
    ensures
        res@ == spec_pem_chain(input@),
{
    let certificates = match x509_cert::Certificate::load_pem_chain(input) {
        Ok(certificates) => certificates,
        Err(error) => return PemChain::Invalid(error.to_string()),
    };
    match certificates.iter().map(|c| c.to_der()).collect::<Result<Vec<_>, _>>() {
        Ok(ders) => PemChain::Certificates(ders),
        Err(error) => PemChain::Unencodable(error.to_string()),
    }
}

/// The names of the key usage flags, in the order of the flags.
pub open spec fn key_usage_names() -> Seq<Seq<char>> {
    seq![
        "digital_signature"@,
        "content_commitment"@,
        "key_encipherment"@,
        "data_encipherment"@,
        "key_agreement"@,
        "key_cert_sign"@,
        "crl_sign"@,
    ]
}

/// The names of the flags that are set, in order.
pub open spec fn set_flag_names(flags: Seq<bool>, names: Seq<Seq<char>>) -> Seq<Seq<char>>
    decreases flags.len(),
{
    if flags.len() == 0 {
        Seq::empty()
    } else {
        let prev = set_flag_names(flags.drop_last(), names);
        if flags.last() {
            prev.push(names[flags.len() - 1])
        } else {
            prev
        }
    }
}

/// The key usages that a certificate declares, by name; none when it has no
/// readable key usage extension.
pub open spec fn spec_key_usage(der: Seq<u8>) -> Seq<Seq<char>> {
    match spec_x509_key_usage(der) {
        Some(flags) => set_flag_names(flags, key_usage_names()),
        None => Seq::empty(),
    }
}

fn key_usage_name(k: usize) -> (res: &'static str)
    requires
        k < 7,
    ensures
        res@ == key_usage_names()[k as int],
{
    if k == 0 {
        "digital_signature"
    } else if k == 1 {
        "content_commitment"
    } else if k == 2 {
        "key_encipherment"
    } else if k == 3 {
        "data_encipherment"
    } else if k == 4 {
        "key_agreement"
    } else if k == 5 {
        "key_cert_sign"
    } else {
        "crl_sign"
    }
}

/// The key usages that a certificate declares, by name.
pub fn key_usage(der: &[u8]) -> (res: Vec<String>)
    ensures
        crate::verify::strings_view(res@) == spec_key_usage(der@),
{
    let mut usages: Vec<String> = Vec::new();
    let flags = match x509_key_usage(der) {
        Some(flags) => flags,
        None => {
            assert(crate::verify::strings_view(usages@) =~= Seq::<Seq<char>>::empty());
            return usages;
        },
    };
    let ghost f = flags@;
    let mut k: usize = 0;
    assert(crate::verify::strings_view(usages@) =~= set_flag_names(f.take(0), key_usage_names()));
    while k < flags.len()
        invariant
            k <= flags@.len(),
            f == flags@,
            f.len() == 7,
            crate::verify::strings_view(usages@) == set_flag_names(f.take(k as int), key_usage_names()),
        decreases flags@.len() - k,
    {
        proof {
            assert(f.take(k + 1).drop_last() =~= f.take(k as int));
            assert(f.take(k + 1).last() == f[k as int]);
        }
        if flags[k] {
            let name = key_usage_name(k).to_owned();
            proof {
                assert(crate::verify::strings_view(usages@.push(name)) =~= crate::verify::strings_view(usages@).push(name@));
            }
            usages.push(name);
        }
        k = k + 1;
    }
    assert(f.take(k as int) =~= f);
    usages
}

/// The purposes that a certificate's extended key usage lists; none when it
/// has no readable extension.
pub open spec fn spec_extended_key_usage(der: Seq<u8>) -> Seq<Seq<char>> {
    match spec_x509_extended_key_usage(der) {
        Some(oids) => oids,
        None => Seq::empty(),
    }
}

/// The purposes that a certificate's extended key usage lists.
pub fn extended_key_usage(der: &[u8]) -> (res: Vec<String>)
    ensures
        crate::verify::strings_view(res@) == spec_extended_key_usage(der@),
{
    match x509_extended_key_usage(der) {
        Some(oids) => oids,
        None => {
            let none: Vec<String> = Vec::new();
            assert(crate::verify::strings_view(none@) =~= Seq::<Seq<char>>::empty());
            none
        },
    }
}

// ---------------------------------------------------------------------------
// Bergshamra
// ---------------------------------------------------------------------------

#[verifier::external_type_specification]
#[verifier::external_body]
pub struct ExKey(bergshamra_keys::Key);

#[verifier::external_type_specification]
#[verifier::external_body]
pub struct ExKeysManager(bergshamra_keys::KeysManager);

#[verifier::external_type_specification]
#[verifier::external_body]
pub struct ExDsigContext(bergshamra_dsig::DsigContext);

/// What `bergshamra_keys::loader::load_x509_cert_der` reports for bytes it
/// refuses: the `Display` text of its error; nothing for bytes it loads.
pub uninterp spec fn spec_key_load_error(der: Seq<u8>) -> Option<Seq<char>>;

/// The certificate chain a key carries (`Key::x509_chain`), each certificate
/// as DER bytes.
pub uninterp spec fn key_x509_chain(key: bergshamra_keys::Key) -> Seq<Seq<u8>>;

/// The algorithm name of a key (`KeyData::algorithm_name`), which its key
/// material decides.
pub uninterp spec fn key_algorithm(key: bergshamra_keys::Key) -> Seq<char>;

/// The algorithm name of the key that
/// `bergshamra_keys::loader::load_x509_cert_der` loads from some DER bytes;
/// the loader decides the key material from the bytes alone.
pub uninterp spec fn spec_key_algorithm(der: Seq<u8>) -> Seq<char>;

/// Loads the public key of a DER certificate
/// (`bergshamra_keys::loader::load_x509_cert_der`). Claims: it fails exactly
/// when the named verdict of the bytes is an error, with that error's text;
/// a loaded key carries the certificate itself as its chain, as every branch
/// of the loader sets it, and its algorithm is the named one of the bytes.
#[verifier::external_body]
pub fn load_x509_key(der: &[u8]) -> (res: Result<bergshamra_keys::Key, String>)
    ensures
        match res {
            Ok(key) => spec_key_load_error(der@) is None && key_x509_chain(key) == seq![der@] && key_algorithm(key)
                == spec_key_algorithm(der@),
            Err(message) => spec_key_load_error(der@) == Some(message@),
        },
{
    bergshamra_keys::loader::load_x509_cert_der(der).map_err(|error| error.to_string())
}

/// The algorithm name of a loaded key (`KeyData::algorithm_name`). Claims:
/// the named algorithm of the key.
#[verifier::external_body]
pub fn key_algorithm_name(key: &bergshamra_keys::Key) -> (res: String)
    ensures
        res@ == key_algorithm(*key),
{
    key.data.algorithm_name().to_owned()
}

/// The keys a keys manager holds, in order, each by the certificate chain it
/// carries.
pub uninterp spec fn keys_manager_keys(manager: bergshamra_keys::KeysManager) -> Seq<Seq<Seq<u8>>>;

/// The trusted CA certificates a keys manager holds, in order.
pub uninterp spec fn keys_manager_trusted(manager: bergshamra_keys::KeysManager) -> Seq<Seq<u8>>;

/// The untrusted certificates a keys manager holds, in order.
pub uninterp spec fn keys_manager_untrusted(manager: bergshamra_keys::KeysManager) -> Seq<Seq<u8>>;

/// An empty keys manager (`bergshamra_keys::KeysManager::new`). Claims: it
/// holds no key and no certificate.
#[verifier::external_body]
pub fn keys_manager_new() -> (res: bergshamra_keys::KeysManager)
    ensures
        keys_manager_keys(res) == Seq::<Seq<Seq<u8>>>::empty(),
        keys_manager_trusted(res) == Seq::<Seq<u8>>::empty(),
        keys_manager_untrusted(res) == Seq::<Seq<u8>>::empty(),
{
    bergshamra_keys::KeysManager::new()
}

/// Adds a key to a keys manager (`KeysManager::add_key`). Claims: the key is
/// pushed after the others; the certificates stay.
#[verifier::external_body]
pub fn keys_manager_add_key(manager: &mut bergshamra_keys::KeysManager, key: bergshamra_keys::Key)
    ensures
        keys_manager_keys(*final(manager)) == keys_manager_keys(*old(manager)).push(key_x509_chain(key)),
        keys_manager_trusted(*final(manager)) == keys_manager_trusted(*old(manager)),
        keys_manager_untrusted(*final(manager)) == keys_manager_untrusted(*old(manager)),
{
    manager.add_key(key)
}

/// Adds a trusted certificate to a keys manager
/// (`KeysManager::add_trusted_cert`). Claims: it is pushed after the trusted
/// ones; the keys and the untrusted certificates stay.
#[verifier::external_body]
pub fn keys_manager_add_trusted_cert(manager: &mut bergshamra_keys::KeysManager, der: Vec<u8>)
    ensures
        keys_manager_keys(*final(manager)) == keys_manager_keys(*old(manager)),
        keys_manager_trusted(*final(manager)) == keys_manager_trusted(*old(manager)).push(der@),
        keys_manager_untrusted(*final(manager)) == keys_manager_untrusted(*old(manager)),
{
    manager.add_trusted_cert(der)
}

/// Adds an untrusted certificate to a keys manager
/// (`KeysManager::add_untrusted_cert`). Claims: it is pushed after the
/// untrusted ones; the keys and the trusted certificates stay.
#[verifier::external_body]
pub fn keys_manager_add_untrusted_cert(manager: &mut bergshamra_keys::KeysManager, der: Vec<u8>)
    ensures
        keys_manager_keys(*final(manager)) == keys_manager_keys(*old(manager)),
        keys_manager_trusted(*final(manager)) == keys_manager_trusted(*old(manager)),
        keys_manager_untrusted(*final(manager)) == keys_manager_untrusted(*old(manager)).push(der@),
{
    manager.add_untrusted_cert(der)
}

/// The keys of a verification context's keys manager, each by its chain.
pub uninterp spec fn dsig_context_keys(context: bergshamra_dsig::DsigContext) -> Seq<Seq<Seq<u8>>>;

/// The trusted certificates of a verification context's keys manager.
pub uninterp spec fn dsig_context_trusted(context: bergshamra_dsig::DsigContext) -> Seq<Seq<u8>>;

/// The untrusted certificates of a verification context's keys manager.
pub uninterp spec fn dsig_context_untrusted(context: bergshamra_dsig::DsigContext) -> Seq<Seq<u8>>;

/// Whether a verification context validates X.509 key data
/// (`DsigContext::enabled_key_data_x509`).
pub uninterp spec fn dsig_context_x509(context: bergshamra_dsig::DsigContext) -> bool;

/// A verification context over a keys manager
/// (`bergshamra_dsig::DsigContext::new`). Claims: it holds the manager's
/// keys and certificates, and X.509 key data is off, as `new_permissive`
/// sets it and `new` leaves it.
#[verifier::external_body]
pub fn dsig_context_new(manager: bergshamra_keys::KeysManager) -> (res: bergshamra_dsig::DsigContext)
    ensures
        dsig_context_keys(res) == keys_manager_keys(manager),
        dsig_context_trusted(res) == keys_manager_trusted(manager),
        dsig_context_untrusted(res) == keys_manager_untrusted(manager),
        !dsig_context_x509(res),
{
    bergshamra_dsig::DsigContext::new(manager)
}

/// Switches X.509 key data on or off
/// (`DsigContext::with_enabled_key_data_x509`). Claims: the flag is set as
/// asked; the keys and certificates stay.
#[verifier::external_body]
pub fn dsig_context_with_x509(context: bergshamra_dsig::DsigContext, enabled: bool) -> (res: bergshamra_dsig::DsigContext)
    ensures
        dsig_context_keys(res) == dsig_context_keys(context),
        dsig_context_trusted(res) == dsig_context_trusted(context),
        dsig_context_untrusted(res) == dsig_context_untrusted(context),
        dsig_context_x509(res) == enabled,
{
    context.with_enabled_key_data_x509(enabled)
}

/// What XMLDSIG verification of a text reported: a valid signature with its
/// references' URIs and its key, an invalid one with the reason, or an error.
pub enum DsigOutcome {
    Valid { references: Vec<String>, algorithm: String, key_name: Option<String>, x509_chain: Vec<Vec<u8>> },
    Invalid { reason: String },
    Failed { message: String },
}

/// A verification outcome as plain values.
pub enum DsigOutcomeView {
    Valid { references: Seq<Seq<char>>, algorithm: Seq<char>, key_name: Option<Seq<char>>, chain_len: nat },
    Invalid { reason: Seq<char> },
    Failed { message: Seq<char> },
}

impl View for DsigOutcome {
    type V = DsigOutcomeView;

    open spec fn view(&self) -> DsigOutcomeView {
        match self {
            DsigOutcome::Valid { references, algorithm, key_name, x509_chain } => DsigOutcomeView::Valid {
                references: crate::verify::strings_view(references@),
                algorithm: algorithm@,
                key_name: crate::text::opt_view(*key_name),
                chain_len: x509_chain@.len(),
            },
            DsigOutcome::Invalid { reason } => DsigOutcomeView::Invalid { reason: reason@ },
            DsigOutcome::Failed { message } => DsigOutcomeView::Failed { message: message@ },
        }
    }
}

/// Whether an outcome is one that XMLDSIG verification can report for a
/// text under a context with these keys (each by its chain), trusted and
/// untrusted certificates and X.509 setting. It is a relation, not a
/// function: the verifier reads the clock and may read files.
pub uninterp spec fn dsig_outcome_possible(
    keys: Seq<Seq<Seq<u8>>>,
    trusted: Seq<Seq<u8>>,
    untrusted: Seq<Seq<u8>>,
    x509: bool,
    xml: Seq<char>,
    outcome: DsigOutcomeView,
) -> bool;

/// Verifies the first signature of a text (`bergshamra_dsig::verify::verify`).
/// Claims only that the outcome is one the verifier can report for this
/// text under the context's keys, certificates and X.509 setting; which
/// one is left open: it depends on the clock (certificate validity) and may
/// read files that references name.
#[verifier::external_body]
pub fn dsig_verify(context: &bergshamra_dsig::DsigContext, xml: &str) -> (res: DsigOutcome)
    ensures
        dsig_outcome_possible(
            dsig_context_keys(*context),
            dsig_context_trusted(*context),
            dsig_context_untrusted(*context),
            dsig_context_x509(*context),
            xml@,
            res@,
        ),
{
    match bergshamra_dsig::verify::verify(context, xml) {
        Ok(bergshamra_dsig::VerifyResult::Valid { references, key_info, .. }) => DsigOutcome::Valid {
            references: references.into_iter().map(|r| r.uri).collect(),
            algorithm: key_info.algorithm,
            key_name: key_info.key_name,
            x509_chain: key_info.x509_chain,
        },
        Ok(bergshamra_dsig::VerifyResult::Invalid { reason }) => DsigOutcome::Invalid { reason },
        Err(error) => DsigOutcome::Failed { message: error.to_string() },
    }
}

} // verus!
