//! Verification reports: the structural report of a dossier, the layers of a
//! verification, the signature report, and the options that steer them.
use vstd::prelude::*;
use vstd::string::StringExecFns;
use crate::error::{Error, ErrorView};
use crate::parsed::{
    msgs_view, parsed_bounded, spec_dossier_messages, ParsedDocumentView, ParsedDossier,
    ParsedDossierView, ValidationMessage, ValidationMessageView, ValidationSeverity,
};
use crate::seqs::lemma_filter_take_succ;
use crate::xml::XML_PARSE_NODE_LIMIT;

verus! {

broadcast use vstd::string::group_string_axioms;

// ---------------------------------------------------------------------------
// Structural report
// ---------------------------------------------------------------------------

/// A finding as plain values.
pub struct FindingView {
    pub document_index: Option<usize>,
    pub message: Seq<char>,
}

/// One structural error or warning, for a document or for the whole dossier.
#[derive(Debug, Clone, PartialEq, Eq)]
pub struct Finding {
    pub document_index: Option<usize>,
    pub message: String,
}

impl View for Finding {
    type V = FindingView;

    open spec fn view(&self) -> FindingView {
        FindingView { document_index: self.document_index, message: self.message@ }
    }
}

/// The views of a list of findings.
pub open spec fn findings_view(findings: Seq<Finding>) -> Seq<FindingView> {
    findings.map_values(|f: Finding| f@)
}

/// A structural report as plain values.
pub struct StructureReportView {
    pub errors: Seq<FindingView>,
    pub warnings: Seq<FindingView>,
    pub document_count: usize,
    pub document_signature_count: usize,
    pub document_timestamp_count: usize,
    pub dossier_signature_count: usize,
    pub dossier_timestamp_count: usize,
}

/// What structural validation found, and how many documents, signatures and
/// time stamps the dossier holds.
#[derive(Debug, Clone, PartialEq, Eq)]
pub struct StructureReport {
    pub errors: Vec<Finding>,
    pub warnings: Vec<Finding>,
    pub document_count: usize,
    pub document_signature_count: usize,
    pub document_timestamp_count: usize,
    pub dossier_signature_count: usize,
    pub dossier_timestamp_count: usize,
}

impl View for StructureReport {
    type V = StructureReportView;

    open spec fn view(&self) -> StructureReportView {
        StructureReportView {
            errors: findings_view(self.errors@),
            warnings: findings_view(self.warnings@),
            document_count: self.document_count,
            document_signature_count: self.document_signature_count,
            document_timestamp_count: self.document_timestamp_count,
            dossier_signature_count: self.dossier_signature_count,
            dossier_timestamp_count: self.dossier_timestamp_count,
        }
    }
}

/// The empty report: no findings, every count zero.
pub open spec fn empty_report() -> StructureReportView {
    StructureReportView {
        errors: Seq::empty(),
        warnings: Seq::empty(),
        document_count: 0,
        document_signature_count: 0,
        document_timestamp_count: 0,
        dossier_signature_count: 0,
        dossier_timestamp_count: 0,
    }
}

fn no_findings() -> (res: Vec<Finding>)
    ensures
        res@ == Seq::<Finding>::empty(),
{
    let v: Vec<Finding> = Vec::new();
    assert(v@ =~= Seq::<Finding>::empty());
    v
}

impl Default for StructureReport {
    fn default() -> (res: StructureReport)
        ensures
            res@ == empty_report(),
    {
        let report = StructureReport {
            errors: no_findings(),
            warnings: no_findings(),
            document_count: 0,
            document_signature_count: 0,
            document_timestamp_count: 0,
            dossier_signature_count: 0,
            dossier_timestamp_count: 0,
        };
        assert(report@.errors =~= Seq::<FindingView>::empty());
        assert(report@.warnings =~= Seq::<FindingView>::empty());
        report
    }
}

impl StructureReport {
    /// Whether structural validation found no error.
    pub fn is_ok(&self) -> (res: bool)
        ensures
            res == (self@.errors.len() == 0),
    {
        self.errors.len() == 0
    }

    /// Records an error.
    pub fn error(&mut self, document_index: Option<usize>, message: String)
        ensures
            final(self)@ == (StructureReportView {
                errors: old(self)@.errors.push(FindingView { document_index, message: message@ }),
                ..old(self)@
            }),
    {
        let finding = Finding { document_index, message };
        proof {
            assert(findings_view(self.errors@.push(finding)) =~= findings_view(self.errors@).push(finding@));
        }
        self.errors.push(finding);
    }

    /// Records a warning.
    pub fn warning(&mut self, document_index: Option<usize>, message: String)
        ensures
            final(self)@ == (StructureReportView {
                warnings: old(self)@.warnings.push(FindingView { document_index, message: message@ }),
                ..old(self)@
            }),
    {
        let finding = Finding { document_index, message };
        proof {
            assert(findings_view(self.warnings@.push(finding)) =~= findings_view(self.warnings@).push(finding@));
        }
        self.warnings.push(finding);
    }
}

/// Whether a message is an error.
pub open spec fn is_error_message() -> spec_fn(ValidationMessageView) -> bool {
    |m: ValidationMessageView| m.severity == ValidationSeverity::Error
}

/// Whether a message is a warning.
pub open spec fn is_warning_message() -> spec_fn(ValidationMessageView) -> bool {
    |m: ValidationMessageView| m.severity == ValidationSeverity::Warning
}

/// The finding that a message becomes.
pub open spec fn finding_of(m: ValidationMessageView) -> FindingView {
    FindingView { document_index: m.document_index, message: m.message }
}

/// The findings that a list of messages of one severity becomes.
pub open spec fn findings_of(messages: Seq<ValidationMessageView>) -> Seq<FindingView> {
    messages.map_values(|m: ValidationMessageView| finding_of(m))
}

/// The error findings among a list of messages, in order.
pub open spec fn error_findings(messages: Seq<ValidationMessageView>) -> Seq<FindingView> {
    findings_of(messages.filter(is_error_message()))
}

/// The warning findings among a list of messages, in order.
pub open spec fn warning_findings(messages: Seq<ValidationMessageView>) -> Seq<FindingView> {
    findings_of(messages.filter(is_warning_message()))
}

/// The total of the documents' signature counts.
pub open spec fn document_signature_total(documents: Seq<ParsedDocumentView>) -> nat
    decreases documents.len(),
{
    if documents.len() == 0 {
        0
    } else {
        document_signature_total(documents.drop_last()) + documents.last().signature_count as nat
    }
}

/// The total of the documents' time stamp counts.
pub open spec fn document_timestamp_total(documents: Seq<ParsedDocumentView>) -> nat
    decreases documents.len(),
{
    if documents.len() == 0 {
        0
    } else {
        document_timestamp_total(documents.drop_last()) + documents.last().timestamp_count as nat
    }
}

/// Each total over documents whose counts are bounded is bounded by the
/// number of documents times the bound.
proof fn lemma_totals_bounded(documents: Seq<ParsedDocumentView>)
    requires
        forall|i: int| 0 <= i < documents.len() ==> {
            &&& (#[trigger] documents[i]).signature_count <= XML_PARSE_NODE_LIMIT
            &&& documents[i].timestamp_count <= XML_PARSE_NODE_LIMIT
        },
    ensures
        document_signature_total(documents) <= documents.len() * XML_PARSE_NODE_LIMIT,
        document_timestamp_total(documents) <= documents.len() * XML_PARSE_NODE_LIMIT,
    decreases documents.len(),
{
    if documents.len() > 0 {
        let prefix = documents.drop_last();
        assert forall|i: int| 0 <= i < prefix.len() implies {
            &&& (#[trigger] prefix[i]).signature_count <= XML_PARSE_NODE_LIMIT
            &&& prefix[i].timestamp_count <= XML_PARSE_NODE_LIMIT
        } by {
            assert(prefix[i] == documents[i]);
        }
        lemma_totals_bounded(prefix);
        assert(documents.last() == documents[documents.len() - 1]);
        assert((prefix.len() + 1) * XML_PARSE_NODE_LIMIT == prefix.len() * XML_PARSE_NODE_LIMIT + XML_PARSE_NODE_LIMIT) by (nonlinear_arith);
    }
}

/// The structural report of a parsed dossier: its validation messages split
/// into errors and warnings, and its counts.
pub open spec fn spec_structure_report(p: ParsedDossierView) -> StructureReportView {
    let messages = spec_dossier_messages(p);
    StructureReportView {
        errors: error_findings(messages),
        warnings: warning_findings(messages),
        document_count: p.documents.len() as usize,
        document_signature_count: document_signature_total(p.documents) as usize,
        document_timestamp_count: document_timestamp_total(p.documents) as usize,
        dossier_signature_count: p.dossier_signature_count,
        dossier_timestamp_count: p.dossier_timestamp_count,
    }
}

/// The report of a dossier that could not be read: the error alone.
pub open spec fn spec_report_error(error: ErrorView) -> StructureReportView {
    StructureReportView {
        errors: seq![FindingView { document_index: None, message: error.message() }],
        ..empty_report()
    }
}

/// Records each message as an error or a warning, in order.
pub fn report_validation_messages(report: &mut StructureReport, messages: &[ValidationMessage])
    ensures
        final(report)@ == (StructureReportView {
            errors: old(report)@.errors + error_findings(msgs_view(messages@)),
            warnings: old(report)@.warnings + warning_findings(msgs_view(messages@)),
            ..old(report)@
        }),
{
    let ghost start = report@;
    let ghost all = msgs_view(messages@);
    let mut k: usize = 0;
    while k < messages.len()
        invariant
            k <= messages@.len(),
            all == msgs_view(messages@),
            report@ == (StructureReportView {
                errors: start.errors + findings_of(all.take(k as int).filter(is_error_message())),
                warnings: start.warnings + findings_of(all.take(k as int).filter(is_warning_message())),
                ..start
            }),
        decreases messages@.len() - k,
    {
        let message = &messages[k];
        proof {
            assert(all[k as int] == message@);
            lemma_filter_take_succ(all, k as int, is_error_message());
            lemma_filter_take_succ(all, k as int, is_warning_message());
            let e = all.take(k as int).filter(is_error_message());
            let w = all.take(k as int).filter(is_warning_message());
            assert(findings_of(e.push(message@)) =~= findings_of(e).push(finding_of(message@)));
            assert(findings_of(w.push(message@)) =~= findings_of(w).push(finding_of(message@)));
        }
        match message.severity {
            ValidationSeverity::Error => {
                report.error(message.document_index, message.message.clone());
                proof {
                    assert(report@.errors =~= start.errors + findings_of(all.take(k + 1).filter(is_error_message())));
                }
            },
            ValidationSeverity::Warning => {
                report.warning(message.document_index, message.message.clone());
                proof {
                    assert(report@.warnings =~= start.warnings + findings_of(all.take(k + 1).filter(is_warning_message())));
                }
            },
        }
        k = k + 1;
    }
    assert(all.take(k as int) =~= all);
}

/// The report of a dossier that could not be read.
pub fn report_error(error: Error) -> (res: StructureReport)
    ensures
        res@ == spec_report_error(error@),
{
    let mut report = StructureReport::default();
    report.error(None, error.to_string());
    assert(report@.errors =~= spec_report_error(error@).errors);
    report
}

/// The structural report of a parsed dossier.
pub fn report_from_parsed_dossier(parsed: &ParsedDossier) -> (res: StructureReport)
    requires
        parsed_bounded(parsed@),
    ensures
        res@ == spec_structure_report(parsed@),
{
    let ghost documents = parsed@.documents;
    proof {
        lemma_totals_bounded(documents);
        assert(documents.len() * XML_PARSE_NODE_LIMIT <= XML_PARSE_NODE_LIMIT * XML_PARSE_NODE_LIMIT) by (nonlinear_arith)
            requires documents.len() <= XML_PARSE_NODE_LIMIT;
    }
    let mut signatures: usize = 0;
    let mut timestamps: usize = 0;
    let mut k: usize = 0;
    while k < parsed.documents.len()
        invariant
            k <= parsed.documents@.len(),
            documents == parsed@.documents,
            documents.len() == parsed.documents@.len(),
            document_signature_total(documents) <= XML_PARSE_NODE_LIMIT * XML_PARSE_NODE_LIMIT,
            document_timestamp_total(documents) <= XML_PARSE_NODE_LIMIT * XML_PARSE_NODE_LIMIT,
            parsed_bounded(parsed@),
            signatures == document_signature_total(documents.take(k as int)),
            timestamps == document_timestamp_total(documents.take(k as int)),
        decreases parsed.documents@.len() - k,
    {
        proof {
            let next = documents.take(k + 1);
            assert(next.drop_last() =~= documents.take(k as int));
            assert(next.last() == documents[k as int]);
            assert(documents[k as int] == parsed.documents@[k as int]@);
            lemma_totals_prefix(documents, k + 1);
        }
        signatures = signatures + parsed.documents[k].signature_count;
        timestamps = timestamps + parsed.documents[k].timestamp_count;
        k = k + 1;
    }
    proof {
        assert(documents.take(k as int) =~= documents);
    }
    let mut report = StructureReport {
        errors: no_findings(),
        warnings: no_findings(),
        document_count: parsed.documents.len(),
        document_signature_count: signatures,
        document_timestamp_count: timestamps,
        dossier_signature_count: parsed.dossier_signature_count,
        dossier_timestamp_count: parsed.dossier_timestamp_count,
    };
    proof {
        assert(report@.errors =~= Seq::<FindingView>::empty());
        assert(report@.warnings =~= Seq::<FindingView>::empty());
    }
    let messages = parsed.validation_messages();
    report_validation_messages(&mut report, messages.as_slice());
    proof {
        assert(report@.errors =~= spec_structure_report(parsed@).errors);
        assert(report@.warnings =~= spec_structure_report(parsed@).warnings);
    }
    report
}

/// A total over a prefix is at most the total over the whole.
proof fn lemma_totals_prefix(documents: Seq<ParsedDocumentView>, k: int)
    requires
        0 <= k <= documents.len(),
    ensures
        document_signature_total(documents.take(k)) <= document_signature_total(documents),
        document_timestamp_total(documents.take(k)) <= document_timestamp_total(documents),
    decreases documents.len() - k,
{
    if k < documents.len() {
        lemma_totals_prefix(documents, k + 1);
        let next = documents.take(k + 1);
        assert(next.drop_last() =~= documents.take(k));
    } else {
        assert(documents.take(k) =~= documents);
    }
}

/// The message of a failed validation: its first error's message, or a
/// generic one when there is none.
pub open spec fn validation_failure_message(report: StructureReportView) -> Seq<char> {
    if report.errors.len() > 0 {
        report.errors[0].message
    } else {
        "dossier validation failed"@
    }
}

/// A dossier that failed structural validation, with the report that says why.
#[derive(Debug, Clone, PartialEq, Eq)]
pub struct DossierValidationError {
    report: StructureReport,
}

impl View for DossierValidationError {
    type V = StructureReportView;

    closed spec fn view(&self) -> StructureReportView {
        self.report@
    }
}

impl DossierValidationError {
    /// The report of the failed validation.
    pub fn report(&self) -> (res: &StructureReport)
        ensures
            res@ == self@,
    {
        &self.report
    }

    /// Takes the report of the failed validation.
    pub fn into_report(self) -> (res: StructureReport)
        ensures
            res@ == self@,
    {
        self.report
    }

    fn from_report(report: StructureReport) -> (res: DossierValidationError)
        ensures
            res@ == report@,
    {
        DossierValidationError { report }
    }

    /// The message of the failure: the first error's message.
    pub fn to_string(&self) -> (res: String)
        ensures
            res@ == validation_failure_message(self@),
    {
        if self.report.errors.len() > 0 {
            proof {
                assert(self.report@.errors[0] == self.report.errors@[0]@);
            }
            self.report.errors[0].message.clone()
        } else {
            "dossier validation failed".to_owned()
        }
    }

    /// The library error that the failure becomes.
    pub fn to_error(&self) -> (res: Error)
        ensures
            res@ == (ErrorView::InvalidStructure { message: validation_failure_message(self@) }),
    {
        Error::InvalidStructure { message: self.to_string() }
    }
}

impl ParsedDossier {
    /// The structural report of the parsed dossier.
    pub fn structure_report(&self) -> (res: StructureReport)
        requires
            parsed_bounded(self@),
        ensures
            res@ == spec_structure_report(self@),
    {
        report_from_parsed_dossier(self)
    }

    /// Succeeds when structural validation finds no error; otherwise carries
    /// the report.
    pub fn validate(&self) -> (res: Result<(), DossierValidationError>)
        requires
            parsed_bounded(self@),
        ensures
            match res {
                Ok(()) => spec_structure_report(self@).errors.len() == 0,
                Err(e) => spec_structure_report(self@).errors.len() > 0 && e@ == spec_structure_report(self@),
            },
    {
        let report = self.structure_report();
        if report.is_ok() {
            Ok(())
        } else {
            Err(DossierValidationError::from_report(report))
        }
    }
}

/// The structural report of a dossier's XML: the parse error alone, or the
/// report of the parsed dossier.
pub open spec fn spec_verify_structure_str(xml: Seq<char>) -> StructureReportView {
    match crate::xml::spec_parse_xml_document(xml) {
        Err(e) => spec_report_error(e),
        Ok(nodes) => spec_structure_report(crate::parsed::spec_parse_dossier(xml, nodes)),
    }
}

/// Parses a dossier's XML and reports on its structure, without building a
/// dossier.
pub fn verify_structure_str(xml: &str) -> (res: StructureReport)
    ensures
        res@ == spec_verify_structure_str(xml@),
{
    match ParsedDossier::parse(xml) {
        Ok(parsed) => parsed.structure_report(),
        Err(error) => report_error(error),
    }
}

// ---------------------------------------------------------------------------
// Validation layers
// ---------------------------------------------------------------------------

/// The outcome of one layer of verification.
#[derive(Debug, Clone, Copy, PartialEq, Eq, Structural)]
pub enum ValidationLayerStatus {
    NotChecked,
    Passed,
    Failed,
}

impl Default for ValidationLayerStatus {
    fn default() -> (res: ValidationLayerStatus)
        ensures
            res == ValidationLayerStatus::NotChecked,
    {
        ValidationLayerStatus::NotChecked
    }
}

/// The outcome of each layer: structure, cryptography, trust.
#[derive(Debug, Clone, Copy, PartialEq, Eq, Structural)]
pub struct ValidationLayers {
    pub structural: ValidationLayerStatus,
    pub cryptographic: ValidationLayerStatus,
    pub trust: ValidationLayerStatus,
}

impl Default for ValidationLayers {
    fn default() -> (res: ValidationLayers)
        ensures
            res == (ValidationLayers {
                structural: ValidationLayerStatus::NotChecked,
                cryptographic: ValidationLayerStatus::NotChecked,
                trust: ValidationLayerStatus::NotChecked,
            }),
    {
        ValidationLayers {
            structural: ValidationLayerStatus::NotChecked,
            cryptographic: ValidationLayerStatus::NotChecked,
            trust: ValidationLayerStatus::NotChecked,
        }
    }
}

/// The layers of a dossier whose structure failed: nothing else was checked.
pub open spec fn structure_failed_layers() -> ValidationLayers {
    ValidationLayers {
        structural: ValidationLayerStatus::Failed,
        cryptographic: ValidationLayerStatus::NotChecked,
        trust: ValidationLayerStatus::NotChecked,
    }
}

// ---------------------------------------------------------------------------
// Signature report
// ---------------------------------------------------------------------------

/// What kind of problem a signature finding reports.
#[derive(Debug, Clone, Copy, PartialEq, Eq, Structural)]
pub enum SignatureFindingKind {
    Unsupported,
    VerificationPolicyDenied,
    MissingInput,
    InvalidSignature,
    KeyError,
    ParseError,
    TrustError,
}

/// Which signatures a verification covers: the dossier's own, those of the
/// documents, or all of them.
#[derive(Debug, Clone, Copy, PartialEq, Eq, Structural)]
pub enum SignatureScope {
    Dossier,
    Document,
    All,
}

impl Default for SignatureScope {
    fn default() -> (res: SignatureScope)
        ensures
            res == SignatureScope::Dossier,
    {
        SignatureScope::Dossier
    }
}

/// A signature finding as plain values.
pub struct SignatureFindingView {
    pub kind: SignatureFindingKind,
    pub signature_id: Option<Seq<char>>,
    pub message: Seq<char>,
}

/// A problem found while verifying signatures.
#[derive(Debug, Clone, PartialEq, Eq)]
pub struct SignatureFinding {
    pub kind: SignatureFindingKind,
    pub signature_id: Option<String>,
    pub message: String,
}

impl View for SignatureFinding {
    type V = SignatureFindingView;

    open spec fn view(&self) -> SignatureFindingView {
        SignatureFindingView {
            kind: self.kind,
            signature_id: crate::text::opt_view(self.signature_id),
            message: self.message@,
        }
    }
}

impl SignatureFinding {
    /// A finding about no particular signature.
    pub fn new(kind: SignatureFindingKind, message: String) -> (res: SignatureFinding)
        ensures
            res@ == (SignatureFindingView { kind, signature_id: None, message: message@ }),
    {
        SignatureFinding { kind, signature_id: None, message }
    }

    /// A finding about the signature with the given `Id`, if it has one.
    pub fn with_signature_id(kind: SignatureFindingKind, signature_id: Option<String>, message: String) -> (res: SignatureFinding)
        ensures
            res@ == (SignatureFindingView {
                kind,
                signature_id: crate::text::opt_view(signature_id),
                message: message@,
            }),
    {
        SignatureFinding { kind, signature_id, message }
    }
}

/// The views of a list of strings.
pub open spec fn strings_view(strings: Seq<String>) -> Seq<Seq<char>> {
    strings.map_values(|s: String| s@)
}

/// A reference that a verified signature covers.
#[derive(Debug, Clone, PartialEq, Eq)]
pub struct SignatureReference {
    pub uri: String,
}

/// The views of a list of references: their URIs.
pub open spec fn references_view(references: Seq<SignatureReference>) -> Seq<Seq<char>> {
    references.map_values(|r: SignatureReference| r.uri@)
}

/// How a signature's XAdES `SigningCertificate` digest relates to its signer
/// certificate.
#[derive(Debug, Clone, Copy, PartialEq, Eq, Structural)]
pub enum XadesSigningCertificateStatus {
    NotPresent,
    Matched,
    Mismatched,
    Invalid,
}

impl Default for XadesSigningCertificateStatus {
    fn default() -> (res: XadesSigningCertificateStatus)
        ensures
            res == XadesSigningCertificateStatus::NotPresent,
    {
        XadesSigningCertificateStatus::NotPresent
    }
}

/// A signer certificate report as plain values.
pub struct SignerCertificateReportView {
    pub sha256_fingerprint: Seq<char>,
    pub subject: Seq<char>,
    pub issuer: Seq<char>,
    pub serial_number: Seq<char>,
    pub not_before: Seq<char>,
    pub not_after: Seq<char>,
    pub key_algorithm: Seq<char>,
    pub key_usage: Seq<Seq<char>>,
    pub extended_key_usage: Seq<Seq<char>>,
}

/// What a signature's signer certificate says of itself.
#[derive(Debug, Clone, PartialEq, Eq)]
pub struct SignerCertificateReport {
    pub sha256_fingerprint: String,
    pub subject: String,
    pub issuer: String,
    pub serial_number: String,
    pub not_before: String,
    pub not_after: String,
    pub key_algorithm: String,
    pub key_usage: Vec<String>,
    pub extended_key_usage: Vec<String>,
}

impl View for SignerCertificateReport {
    type V = SignerCertificateReportView;

    open spec fn view(&self) -> SignerCertificateReportView {
        SignerCertificateReportView {
            sha256_fingerprint: self.sha256_fingerprint@,
            subject: self.subject@,
            issuer: self.issuer@,
            serial_number: self.serial_number@,
            not_before: self.not_before@,
            not_after: self.not_after@,
            key_algorithm: self.key_algorithm@,
            key_usage: strings_view(self.key_usage@),
            extended_key_usage: strings_view(self.extended_key_usage@),
        }
    }
}

/// How much validation evidence a signature carries.
#[derive(Debug, Clone, Copy, PartialEq, Eq, Structural)]
pub struct SignatureEvidence {
    pub timestamp_count: usize,
    pub certificate_value_count: usize,
    pub ocsp_value_count: usize,
    pub crl_value_count: usize,
}

impl Default for SignatureEvidence {
    fn default() -> (res: SignatureEvidence)
        ensures
            res == (SignatureEvidence {
                timestamp_count: 0,
                certificate_value_count: 0,
                ocsp_value_count: 0,
                crl_value_count: 0,
            }),
    {
        SignatureEvidence { timestamp_count: 0, certificate_value_count: 0, ocsp_value_count: 0, crl_value_count: 0 }
    }
}

/// The key information of a verified signature as plain values.
pub struct SignatureKeyInfoView {
    pub algorithm: Seq<char>,
    pub key_name: Option<Seq<char>>,
    pub x509_certificate_count: usize,
}

/// The key that verified a signature.
#[derive(Debug, Clone, PartialEq, Eq)]
pub struct SignatureKeyInfo {
    pub algorithm: String,
    pub key_name: Option<String>,
    pub x509_certificate_count: usize,
}

impl View for SignatureKeyInfo {
    type V = SignatureKeyInfoView;

    open spec fn view(&self) -> SignatureKeyInfoView {
        SignatureKeyInfoView {
            algorithm: self.algorithm@,
            key_name: crate::text::opt_view(self.key_name),
            x509_certificate_count: self.x509_certificate_count,
        }
    }
}

/// A signature result as plain values.
pub struct SignatureResultView {
    pub id: Option<Seq<char>>,
    pub scope: SignatureScope,
    pub references: Seq<Seq<char>>,
    pub key_info: Option<SignatureKeyInfoView>,
    pub signer_certificate: Option<SignerCertificateReportView>,
    pub xades_signing_certificate: XadesSigningCertificateStatus,
    pub evidence: SignatureEvidence,
    pub trust: ValidationLayerStatus,
    pub signature_value_valid: bool,
}

/// What verifying one signature found.
#[derive(Debug, Clone, PartialEq, Eq)]
pub struct SignatureResult {
    pub id: Option<String>,
    pub scope: SignatureScope,
    pub references: Vec<SignatureReference>,
    pub key_info: Option<SignatureKeyInfo>,
    pub signer_certificate: Option<SignerCertificateReport>,
    pub xades_signing_certificate: XadesSigningCertificateStatus,
    pub evidence: SignatureEvidence,
    pub trust: ValidationLayerStatus,
    pub signature_value_valid: bool,
}

impl View for SignatureResult {
    type V = SignatureResultView;

    open spec fn view(&self) -> SignatureResultView {
        SignatureResultView {
            id: crate::text::opt_view(self.id),
            scope: self.scope,
            references: references_view(self.references@),
            key_info: match self.key_info {
                Some(k) => Some(k@),
                None => None,
            },
            signer_certificate: match self.signer_certificate {
                Some(c) => Some(c@),
                None => None,
            },
            xades_signing_certificate: self.xades_signing_certificate,
            evidence: self.evidence,
            trust: self.trust,
            signature_value_valid: self.signature_value_valid,
        }
    }
}

/// A signature report as plain values.
pub struct SignatureReportView {
    pub signature_count: usize,
    pub signatures: Seq<SignatureResultView>,
    pub errors: Seq<SignatureFindingView>,
    pub warnings: Seq<SignatureFindingView>,
}

/// What verifying a dossier's signatures found.
#[derive(Debug, Clone, PartialEq, Eq)]
pub struct SignatureReport {
    pub signature_count: usize,
    pub signatures: Vec<SignatureResult>,
    pub errors: Vec<SignatureFinding>,
    pub warnings: Vec<SignatureFinding>,
}

impl Default for SignatureReport {
    fn default() -> (res: SignatureReport)
        ensures
            res@ == empty_signature_report(0),
    {
        SignatureReport::new(0)
    }
}

/// The views of a list of signature results.
pub open spec fn results_view(results: Seq<SignatureResult>) -> Seq<SignatureResultView> {
    results.map_values(|r: SignatureResult| r@)
}

/// The views of a list of signature findings.
pub open spec fn signature_findings_view(findings: Seq<SignatureFinding>) -> Seq<SignatureFindingView> {
    findings.map_values(|f: SignatureFinding| f@)
}

impl View for SignatureReport {
    type V = SignatureReportView;

    open spec fn view(&self) -> SignatureReportView {
        SignatureReportView {
            signature_count: self.signature_count,
            signatures: results_view(self.signatures@),
            errors: signature_findings_view(self.errors@),
            warnings: signature_findings_view(self.warnings@),
        }
    }
}

/// A signature report with nothing in it.
pub open spec fn empty_signature_report(signature_count: usize) -> SignatureReportView {
    SignatureReportView {
        signature_count,
        signatures: Seq::empty(),
        errors: Seq::empty(),
        warnings: Seq::empty(),
    }
}

/// Whether every signature's value verified.
pub open spec fn all_values_valid(report: SignatureReportView) -> bool {
    forall|i: int| 0 <= i < report.signatures.len() ==> (#[trigger] report.signatures[i]).signature_value_valid
}

/// No error, and every signature's value verified.
pub open spec fn spec_signatures_ok(report: SignatureReportView) -> bool {
    report.errors.len() == 0 && all_values_valid(report)
}

/// Every error is a trust error, and every signature's value verified.
pub open spec fn spec_cryptographic_ok(report: SignatureReportView) -> bool {
    &&& forall|i: int| 0 <= i < report.errors.len() ==> (#[trigger] report.errors[i]).kind == SignatureFindingKind::TrustError
    &&& all_values_valid(report)
}

/// There is a signature, each one's trust passed, and no error is a trust
/// error.
pub open spec fn spec_trust_ok(report: SignatureReportView) -> bool {
    &&& report.signatures.len() > 0
    &&& forall|i: int| 0 <= i < report.signatures.len() ==> (#[trigger] report.signatures[i]).trust == ValidationLayerStatus::Passed
    &&& forall|i: int| 0 <= i < report.errors.len() ==> (#[trigger] report.errors[i]).kind != SignatureFindingKind::TrustError
}

impl SignatureReport {
    /// An empty report for the given number of signatures.
    pub fn new(signature_count: usize) -> (res: SignatureReport)
        ensures
            res@ == empty_signature_report(signature_count),
    {
        let report = SignatureReport {
            signature_count,
            signatures: Vec::new(),
            errors: Vec::new(),
            warnings: Vec::new(),
        };
        assert(report@.signatures =~= Seq::<SignatureResultView>::empty());
        assert(report@.errors =~= Seq::<SignatureFindingView>::empty());
        assert(report@.warnings =~= Seq::<SignatureFindingView>::empty());
        report
    }

    /// Whether no error was found and every signature's value verified.
    pub fn is_ok(&self) -> (res: bool)
        ensures
            res == spec_signatures_ok(self@),
    {
        if self.errors.len() > 0 {
            return false;
        }
        self.all_values_valid()
    }

    fn all_values_valid(&self) -> (res: bool)
        ensures
            res == all_values_valid(self@),
    {
        let mut k: usize = 0;
        while k < self.signatures.len()
            invariant
                k <= self.signatures@.len(),
                forall|i: int| 0 <= i < k ==> (#[trigger] self@.signatures[i]).signature_value_valid,
            decreases self.signatures@.len() - k,
        {
            assert(self@.signatures[k as int] == self.signatures@[k as int]@);
            if !self.signatures[k].signature_value_valid {
                return false;
            }
            k = k + 1;
        }
        true
    }

    /// Whether every error is a trust error and every signature's value
    /// verified.
    pub fn cryptographic_ok(&self) -> (res: bool)
        ensures
            res == spec_cryptographic_ok(self@),
    {
        let mut k: usize = 0;
        while k < self.errors.len()
            invariant
                k <= self.errors@.len(),
                forall|i: int| 0 <= i < k ==> (#[trigger] self@.errors[i]).kind == SignatureFindingKind::TrustError,
            decreases self.errors@.len() - k,
        {
            assert(self@.errors[k as int] == self.errors@[k as int]@);
            if self.errors[k].kind != SignatureFindingKind::TrustError {
                return false;
            }
            k = k + 1;
        }
        self.all_values_valid()
    }

    /// Whether there is a signature, each one's trust passed, and no error is
    /// a trust error.
    pub fn trust_ok(&self) -> (res: bool)
        ensures
            res == spec_trust_ok(self@),
    {
        if self.signatures.len() == 0 {
            return false;
        }
        let mut k: usize = 0;
        while k < self.signatures.len()
            invariant
                k <= self.signatures@.len(),
                forall|i: int| 0 <= i < k ==> (#[trigger] self@.signatures[i]).trust == ValidationLayerStatus::Passed,
            decreases self.signatures@.len() - k,
        {
            assert(self@.signatures[k as int] == self.signatures@[k as int]@);
            if self.signatures[k].trust != ValidationLayerStatus::Passed {
                return false;
            }
            k = k + 1;
        }
        let mut k: usize = 0;
        while k < self.errors.len()
            invariant
                k <= self.errors@.len(),
                self@.signatures.len() > 0,
                forall|i: int| 0 <= i < self@.signatures.len() ==> (#[trigger] self@.signatures[i]).trust == ValidationLayerStatus::Passed,
                forall|i: int| 0 <= i < k ==> (#[trigger] self@.errors[i]).kind != SignatureFindingKind::TrustError,
            decreases self.errors@.len() - k,
        {
            assert(self@.errors[k as int] == self.errors@[k as int]@);
            if self.errors[k].kind == SignatureFindingKind::TrustError {
                return false;
            }
            k = k + 1;
        }
        true
    }

    /// Records an error.
    pub fn error(&mut self, finding: SignatureFinding)
        ensures
            final(self)@ == (SignatureReportView { errors: old(self)@.errors.push(finding@), ..old(self)@ }),
    {
        proof {
            assert(signature_findings_view(self.errors@.push(finding)) =~= signature_findings_view(self.errors@).push(finding@));
        }
        self.errors.push(finding);
    }

    /// Records a signature's result.
    pub fn push_signature(&mut self, signature: SignatureResult)
        ensures
            final(self)@ == (SignatureReportView { signatures: old(self)@.signatures.push(signature@), ..old(self)@ }),
    {
        proof {
            assert(results_view(self.signatures@.push(signature)) =~= results_view(self.signatures@).push(signature@));
        }
        self.signatures.push(signature);
    }
}

// ---------------------------------------------------------------------------
// Verification report and options
// ---------------------------------------------------------------------------

/// A verification report as plain values.
pub struct VerificationReportView {
    pub validation: ValidationLayers,
    pub structure: StructureReportView,
    pub signatures: Option<SignatureReportView>,
}

/// What verifying a dossier found, layer by layer.
#[derive(Debug, Clone, PartialEq, Eq)]
pub struct VerificationReport {
    pub validation: ValidationLayers,
    pub structure: StructureReport,
    pub signatures: Option<SignatureReport>,
}

impl View for VerificationReport {
    type V = VerificationReportView;

    open spec fn view(&self) -> VerificationReportView {
        VerificationReportView {
            validation: self.validation,
            structure: self.structure@,
            signatures: match self.signatures {
                Some(s) => Some(s@),
                None => None,
            },
        }
    }
}

/// The structure has no error, the signatures (if checked) are fine, and no
/// layer failed.
pub open spec fn spec_checked_layers_ok(report: VerificationReportView) -> bool {
    &&& report.structure.errors.len() == 0
    &&& match report.signatures {
        Some(s) => spec_signatures_ok(s),
        None => true,
    }
    &&& report.validation.structural != ValidationLayerStatus::Failed
    &&& report.validation.cryptographic != ValidationLayerStatus::Failed
    &&& report.validation.trust != ValidationLayerStatus::Failed
}

impl VerificationReport {
    /// Whether every layer that was checked passed.
    pub fn checked_layers_ok(&self) -> (res: bool)
        ensures
            res == spec_checked_layers_ok(self@),
    {
        self.structure.is_ok() && match &self.signatures {
            Some(s) => s.is_ok(),
            None => true,
        } && self.validation.structural != ValidationLayerStatus::Failed
            && self.validation.cryptographic != ValidationLayerStatus::Failed
            && self.validation.trust != ValidationLayerStatus::Failed
    }
}

/// A certificate handed to verification, PEM or DER.
#[derive(Clone, PartialEq, Eq)]
pub struct CertificateInput {
    pub bytes: Vec<u8>,
}

impl From<Vec<u8>> for CertificateInput {
    fn from(bytes: Vec<u8>) -> (res: CertificateInput) {
        CertificateInput { bytes }
    }
}

impl vstd::std_specs::convert::FromSpecImpl<Vec<u8>> for CertificateInput {
    open spec fn obeys_from_spec() -> bool {
        true
    }

    open spec fn from_spec(bytes: Vec<u8>) -> CertificateInput {
        CertificateInput { bytes }
    }
}

/// The views of a list of certificate inputs: their bytes.
pub open spec fn inputs_view(inputs: Seq<CertificateInput>) -> Seq<Seq<u8>> {
    inputs.map_values(|c: CertificateInput| c.bytes@)
}

/// Verification options as plain values.
pub struct VerificationOptionsView {
    pub verify_signatures: bool,
    pub signature_scope: SignatureScope,
    pub pinned_certificates: Seq<Seq<u8>>,
    pub trusted_anchor_certificates: Seq<Seq<u8>>,
}

/// Whether to verify signatures, which ones, and which certificates to
/// trust.
#[derive(Clone, PartialEq, Eq)]
pub struct VerificationOptions {
    pub(crate) verify_signatures: bool,
    pub(crate) signature_scope: SignatureScope,
    pub(crate) pinned_certificates: Vec<CertificateInput>,
    pub(crate) trusted_anchor_certificates: Vec<CertificateInput>,
}

impl View for VerificationOptions {
    type V = VerificationOptionsView;

    closed spec fn view(&self) -> VerificationOptionsView {
        VerificationOptionsView {
            verify_signatures: self.verify_signatures,
            signature_scope: self.signature_scope,
            pinned_certificates: inputs_view(self.pinned_certificates@),
            trusted_anchor_certificates: inputs_view(self.trusted_anchor_certificates@),
        }
    }
}

/// The default options: verify the dossier's signatures, trust nothing in
/// particular.
pub open spec fn default_options() -> VerificationOptionsView {
    VerificationOptionsView {
        verify_signatures: true,
        signature_scope: SignatureScope::Dossier,
        pinned_certificates: Seq::empty(),
        trusted_anchor_certificates: Seq::empty(),
    }
}

/// Whether the options ask for trust: some certificate is pinned or trusted.
pub open spec fn trust_requested(options: VerificationOptionsView) -> bool {
    options.pinned_certificates.len() > 0 || options.trusted_anchor_certificates.len() > 0
}

impl Default for VerificationOptions {
    fn default() -> (res: VerificationOptions)
        ensures
            res@ == default_options(),
    {
        let options = VerificationOptions {
            verify_signatures: true,
            signature_scope: SignatureScope::Dossier,
            pinned_certificates: Vec::new(),
            trusted_anchor_certificates: Vec::new(),
        };
        assert(options@.pinned_certificates =~= Seq::<Seq<u8>>::empty());
        assert(options@.trusted_anchor_certificates =~= Seq::<Seq<u8>>::empty());
        options
    }
}

impl VerificationOptions {
    /// The default options with signature verification switched off.
    pub fn without_signatures() -> (res: VerificationOptions)
        ensures
            res@ == (VerificationOptionsView { verify_signatures: false, ..default_options() }),
    {
        let mut options = VerificationOptions::default();
        options.verify_signatures = false;
        options
    }

    /// The options with another signature scope.
    pub fn with_signature_scope(self, scope: SignatureScope) -> (res: VerificationOptions)
        ensures
            res@ == (VerificationOptionsView { signature_scope: scope, ..self@ }),
    {
        let mut options = self;
        options.signature_scope = scope;
        options
    }

    /// The options with one more pinned certificate (PEM or DER).
    pub fn with_pinned_certificate(self, certificate: Vec<u8>) -> (res: VerificationOptions)
        ensures
            res@ == (VerificationOptionsView {
                pinned_certificates: self@.pinned_certificates.push(certificate@),
                ..self@
            }),
    {
        let mut options = self;
        let input = CertificateInput { bytes: certificate };
        proof {
            assert(inputs_view(options.pinned_certificates@.push(input)) =~= inputs_view(options.pinned_certificates@).push(input.bytes@));
        }
        options.pinned_certificates.push(input);
        options
    }

    /// The options with one more trusted anchor certificate (PEM or DER).
    pub fn with_trusted_anchor_certificate(self, certificate: Vec<u8>) -> (res: VerificationOptions)
        ensures
            res@ == (VerificationOptionsView {
                trusted_anchor_certificates: self@.trusted_anchor_certificates.push(certificate@),
                ..self@
            }),
    {
        let mut options = self;
        let input = CertificateInput { bytes: certificate };
        proof {
            assert(inputs_view(options.trusted_anchor_certificates@.push(input)) =~= inputs_view(
                options.trusted_anchor_certificates@,
            ).push(input.bytes@));
        }
        options.trusted_anchor_certificates.push(input);
        options
    }

    /// Whether signatures are to be verified.
    pub fn verify_signatures(&self) -> (res: bool)
        ensures
            res == self@.verify_signatures,
    {
        self.verify_signatures
    }

    /// Which signatures are to be verified.
    pub fn signature_scope(&self) -> (res: SignatureScope)
        ensures
            res == self@.signature_scope,
    {
        self.signature_scope
    }

    /// The pinned certificates.
    pub fn pinned_certificates(&self) -> (res: &[CertificateInput])
        ensures
            inputs_view(res@) == self@.pinned_certificates,
    {
        self.pinned_certificates.as_slice()
    }

    /// The trusted anchor certificates.
    pub fn trusted_anchor_certificates(&self) -> (res: &[CertificateInput])
        ensures
            inputs_view(res@) == self@.trusted_anchor_certificates,
    {
        self.trusted_anchor_certificates.as_slice()
    }

    /// Whether some certificate is pinned or trusted.
    pub fn trust_requested(&self) -> (res: bool)
        ensures
            res == trust_requested(self@),
    {
        self.pinned_certificates.len() > 0 || self.trusted_anchor_certificates.len() > 0
    }

    /// A description of the options that counts the certificates and shows
    /// none of their bytes.
    pub fn debug_string(&self) -> (res: String)
        ensures
            res@ == debug_options(self@),
    {
        let mut text = crate::text::concat2(
            "VerificationOptions { verify_signatures: ",
            if self.verify_signatures { "true" } else { "false" },
        );
        text.append(", signature_scope: ");
        text.append(scope_name(self.signature_scope));
        text.append(", pinned_certificates: ");
        text.append(crate::text::decimal(self.pinned_certificates.len() as u64).as_str());
        text.append(", trusted_anchor_certificates: ");
        text.append(crate::text::decimal(self.trusted_anchor_certificates.len() as u64).as_str());
        text.append(" }");
        text
    }
}

/// The name of a scope.
pub open spec fn spec_scope_name(scope: SignatureScope) -> Seq<char> {
    match scope {
        SignatureScope::Dossier => "Dossier"@,
        SignatureScope::Document => "Document"@,
        SignatureScope::All => "All"@,
    }
}

/// The name of a scope.
pub fn scope_name(scope: SignatureScope) -> (res: &'static str)
    ensures
        res@ == spec_scope_name(scope),
{
    match scope {
        SignatureScope::Dossier => "Dossier",
        SignatureScope::Document => "Document",
        SignatureScope::All => "All",
    }
}

/// The description of options: the flag, the scope and the certificate
/// counts.
pub open spec fn debug_options(options: VerificationOptionsView) -> Seq<char> {
    "VerificationOptions { verify_signatures: "@ + (if options.verify_signatures { "true"@ } else { "false"@ })
        + ", signature_scope: "@ + spec_scope_name(options.signature_scope) + ", pinned_certificates: "@
        + crate::text::spec_decimal(options.pinned_certificates.len()) + ", trusted_anchor_certificates: "@
        + crate::text::spec_decimal(options.trusted_anchor_certificates.len()) + " }"@
}

/// A verification whose checked layers did not all pass, with its report.
#[derive(Debug, Clone, PartialEq, Eq)]
pub struct VerificationFailed {
    pub report: VerificationReport,
}

/// The outcome of each layer: the structure passes when it has no error;
/// cryptography is not checked without a signature report and passes when
/// the report is cryptographically fine; trust is not checked unless asked
/// for and there is a report, and passes when the report's trust is fine.
pub open spec fn spec_layers(
    structure: StructureReportView,
    signatures: Option<SignatureReportView>,
    trust_requested: bool,
) -> ValidationLayers {
    ValidationLayers {
        structural: if structure.errors.len() == 0 {
            ValidationLayerStatus::Passed
        } else {
            ValidationLayerStatus::Failed
        },
        cryptographic: match signatures {
            None => ValidationLayerStatus::NotChecked,
            Some(r) => if spec_cryptographic_ok(r) {
                ValidationLayerStatus::Passed
            } else {
                ValidationLayerStatus::Failed
            },
        },
        trust: match signatures {
            Some(r) => if !trust_requested {
                ValidationLayerStatus::NotChecked
            } else if spec_trust_ok(r) {
                ValidationLayerStatus::Passed
            } else {
                ValidationLayerStatus::Failed
            },
            None => ValidationLayerStatus::NotChecked,
        },
    }
}

/// The optional view of a signature report.
pub open spec fn opt_report_view(r: Option<SignatureReport>) -> Option<SignatureReportView> {
    match r {
        Some(r) => Some(r@),
        None => None,
    }
}

/// The outcome of each layer, from the structural report, the signature
/// report (if signatures were verified) and whether trust was asked for.
pub fn verification_layers(
    structure: &StructureReport,
    signatures: &Option<SignatureReport>,
    trust_requested: bool,
) -> (res: ValidationLayers)
    ensures
        res == spec_layers(structure@, opt_report_view(*signatures), trust_requested),
{
    let structural = if structure.is_ok() {
        ValidationLayerStatus::Passed
    } else {
        ValidationLayerStatus::Failed
    };
    let cryptographic = match signatures {
        None => ValidationLayerStatus::NotChecked,
        Some(report) => if report.cryptographic_ok() {
            ValidationLayerStatus::Passed
        } else {
            ValidationLayerStatus::Failed
        },
    };
    let trust = match signatures {
        Some(report) => if !trust_requested {
            ValidationLayerStatus::NotChecked
        } else if report.trust_ok() {
            ValidationLayerStatus::Passed
        } else {
            ValidationLayerStatus::Failed
        },
        None => ValidationLayerStatus::NotChecked,
    };
    ValidationLayers { structural, cryptographic, trust }
}

/// Law: when signatures are not verified, cryptography and trust are not
/// checked, and the checked layers pass exactly when the structure has no
/// error.
pub proof fn law_layers_without_signatures(structure: StructureReportView, trust_requested: bool)
    ensures
        spec_layers(structure, None, trust_requested).cryptographic == ValidationLayerStatus::NotChecked,
        spec_layers(structure, None, trust_requested).trust == ValidationLayerStatus::NotChecked,
        spec_checked_layers_ok(
            VerificationReportView {
                validation: spec_layers(structure, None, trust_requested),
                structure,
                signatures: None,
            },
        ) == (structure.errors.len() == 0),
{
}

/// Law: a report whose signature values did not all verify fails the
/// cryptographic layer, and its checked layers do not pass.
pub proof fn law_invalid_signature_fails(
    structure: StructureReportView,
    signatures: SignatureReportView,
    trust_requested: bool,
    i: int,
)
    requires
        0 <= i < signatures.signatures.len(),
        !signatures.signatures[i].signature_value_valid,
    ensures
        spec_layers(structure, Some(signatures), trust_requested).cryptographic == ValidationLayerStatus::Failed,
        !spec_checked_layers_ok(
            VerificationReportView {
                validation: spec_layers(structure, Some(signatures), trust_requested),
                structure,
                signatures: Some(signatures),
            },
        ),
{
}

/// Parses and validates a dossier's XML, then verifies it: a dossier that
/// cannot be read, or whose structure has errors, has only its structural
/// report, with the structural layer failed.
pub fn verify_str(xml: &str, options: VerificationOptions) -> (res: VerificationReport)
    ensures
        res@.structure == spec_verify_structure_str(xml@),
        match crate::dossier::spec_dossier_parse(xml@) {
            Err(_) => res@.validation == structure_failed_layers() && res@.signatures is None,
            Ok(d) => crate::dossier::spec_verified(d, options@, res@),
        },
{
    proof {
        crate::dossier::law_parse_agrees_with_structure_report(xml@);
    }
    let parsed = match ParsedDossier::parse(xml) {
        Ok(parsed) => parsed,
        Err(error) => {
            return VerificationReport {
                validation: ValidationLayers {
                    structural: ValidationLayerStatus::Failed,
                    cryptographic: ValidationLayerStatus::NotChecked,
                    trust: ValidationLayerStatus::NotChecked,
                },
                structure: report_error(error),
                signatures: None,
            };
        },
    };
    let structure = parsed.structure_report();
    if !structure.is_ok() {
        return VerificationReport {
            validation: ValidationLayers {
                structural: ValidationLayerStatus::Failed,
                cryptographic: ValidationLayerStatus::NotChecked,
                trust: ValidationLayerStatus::NotChecked,
            },
            structure,
            signatures: None,
        };
    }
    match crate::dossier::Dossier::from_parsed(parsed) {
        Ok(dossier) => dossier.verify(options),
        Err(error) => VerificationReport {
            validation: ValidationLayers {
                structural: ValidationLayerStatus::Failed,
                cryptographic: ValidationLayerStatus::NotChecked,
                trust: ValidationLayerStatus::NotChecked,
            },
            structure: error.into_report(),
            signatures: None,
        },
    }
}

} // verus!
