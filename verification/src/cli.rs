//! What the command line prints and where it writes: report lines, listing
//! rows, labels, and the names of extracted files.
use vstd::prelude::*;
use vstd::string::StringExecFns;
use crate::document::{DocumentEntry, DocumentEntryView, ExtractionCapability, ExtractionCapabilityView};
use crate::text::{concat2, concat3, decimal, opt_view, spec_decimal};
use crate::transform::Transform;
use crate::verify::{
    strings_view, FindingView, SignatureScope, StructureReport, StructureReportView,
    ValidationLayerStatus, VerificationReport, VerificationReportView,
};

verus! {

broadcast use vstd::string::group_string_axioms;

// ---------------------------------------------------------------------------
// Labels
// ---------------------------------------------------------------------------

/// Which signatures the command line is asked to check.
#[derive(Debug, Clone, Copy, PartialEq, Eq, Structural)]
pub enum CliSignatureSelection {
    Dossier,
    Documents,
    All,
}

/// The scope that a selection asks for.
pub open spec fn spec_selection_scope(selection: CliSignatureSelection) -> SignatureScope {
    match selection {
        CliSignatureSelection::Dossier => SignatureScope::Dossier,
        CliSignatureSelection::Documents => SignatureScope::Document,
        CliSignatureSelection::All => SignatureScope::All,
    }
}

impl CliSignatureSelection {
    /// The scope that a selection asks for.
    pub fn scope(self) -> (res: SignatureScope)
        ensures
            res == spec_selection_scope(self),
    {
        match self {
            CliSignatureSelection::Dossier => SignatureScope::Dossier,
            CliSignatureSelection::Documents => SignatureScope::Document,
            CliSignatureSelection::All => SignatureScope::All,
        }
    }
}

/// How a signature's scope is described.
pub open spec fn spec_scope_label(scope: SignatureScope) -> Seq<char> {
    match scope {
        SignatureScope::Dossier => "dossier-level signature"@,
        SignatureScope::Document => "embedded-document signature"@,
        SignatureScope::All => "signature"@,
    }
}

/// How a signature's scope is described.
pub fn signature_scope_label(scope: SignatureScope) -> (res: &'static str)
    ensures
        res@ == spec_scope_label(scope),
{
    match scope {
        SignatureScope::Dossier => "dossier-level signature",
        SignatureScope::Document => "embedded-document signature",
        SignatureScope::All => "signature",
    }
}

/// How a layer's outcome is described.
pub open spec fn spec_status_label(status: ValidationLayerStatus) -> Seq<char> {
    match status {
        ValidationLayerStatus::NotChecked => "not checked"@,
        ValidationLayerStatus::Passed => "passed"@,
        ValidationLayerStatus::Failed => "failed"@,
    }
}

/// How a layer's outcome is described.
pub fn validation_status(status: ValidationLayerStatus) -> (res: &'static str)
    ensures
        res@ == spec_status_label(status),
{
    match status {
        ValidationLayerStatus::NotChecked => "not checked",
        ValidationLayerStatus::Passed => "passed",
        ValidationLayerStatus::Failed => "failed",
    }
}

/// A finding's message, prefixed with its document when it has one.
pub open spec fn spec_finding_message(document_index: Option<usize>, message: Seq<char>) -> Seq<char> {
    match document_index {
        Some(index) => "document "@ + spec_decimal(index as nat) + ": "@ + message,
        None => message,
    }
}

/// A finding's message, prefixed with its document when it has one.
pub fn finding_message(document_index: Option<usize>, message: &str) -> (res: String)
    ensures
        res@ == spec_finding_message(document_index, message@),
{
    match document_index {
        Some(index) => {
            let mut text = concat3("document ", decimal(index as u64).as_str(), ": ");
            text.append(message);
            text
        },
        None => message.to_owned(),
    }
}

/// The names of transforms joined by `,`, in order.
pub open spec fn spec_join_names(transforms: Seq<Transform>) -> Seq<char>
    decreases transforms.len(),
{
    if transforms.len() == 0 {
        Seq::empty()
    } else if transforms.len() == 1 {
        transforms[0].spec_as_str()
    } else {
        spec_join_names(transforms.drop_last()) + ","@ + transforms.last().spec_as_str()
    }
}

/// The transforms as listed: their names joined by `,`, or `-` when there is
/// none.
pub open spec fn spec_cli_transform_list(transforms: Seq<Transform>) -> Seq<char> {
    if transforms.len() == 0 {
        "-"@
    } else {
        spec_join_names(transforms)
    }
}

/// The transforms as listed.
pub fn transform_list(transforms: &[Transform]) -> (res: String)
    ensures
        res@ == spec_cli_transform_list(transforms@),
{
    if transforms.len() == 0 {
        return "-".to_owned();
    }
    let mut text = transforms[0].as_str().to_owned();
    let mut k: usize = 1;
    assert(transforms@.take(1).drop_last() =~= Seq::<Transform>::empty());
    while k < transforms.len()
        invariant
            1 <= k <= transforms@.len(),
            text@ == spec_join_names(transforms@.take(k as int)),
        decreases transforms@.len() - k,
    {
        proof {
            assert(transforms@.take(k + 1).drop_last() =~= transforms@.take(k as int));
            assert(transforms@.take(k + 1).last() == transforms@[k as int]);
        }
        text.append(",");
        text.append(transforms[k].as_str());
        k = k + 1;
    }
    assert(transforms@.take(k as int) =~= transforms@);
    text
}

/// How a document's extraction is described: why it cannot be extracted,
/// or `available`.
pub open spec fn spec_extraction_label(extraction: ExtractionCapabilityView) -> Seq<char> {
    match extraction.unavailable_reason {
        Some(reason) => reason,
        None => "available"@,
    }
}

/// How a document's extraction is described.
pub fn extraction_label(extraction: &ExtractionCapability) -> (res: &str)
    ensures
        res@ == spec_extraction_label(extraction@),
{
    match extraction.unavailable_reason() {
        Some(reason) => reason,
        None => "available",
    }
}

// ---------------------------------------------------------------------------
// Listing
// ---------------------------------------------------------------------------

/// How `serde_json` writes a character inside a string: a quote and a
/// backslash behind a backslash; backspace, tab, line feed, form feed and
/// carriage return as `\b`, `\t`, `\n`, `\f`, `\r`; any other control
/// character below 0x20 as `\u00` and two lower-case hex digits; anything
/// else as itself.
pub open spec fn spec_json_escape(c: char) -> Seq<char> {
    if c == '"' {
        seq!['\\', '"']
    } else if c == '\\' {
        seq!['\\', '\\']
    } else if c == '\x08' {
        seq!['\\', 'b']
    } else if c == '\t' {
        seq!['\\', 't']
    } else if c == '\n' {
        seq!['\\', 'n']
    } else if c == '\x0c' {
        seq!['\\', 'f']
    } else if c == '\r' {
        seq!['\\', 'r']
    } else if (c as nat) < 0x20 {
        seq!['\\', 'u', '0', '0', crate::certs::hex_digit((c as nat) / 16), crate::certs::hex_digit((c as nat) % 16)]
    } else {
        seq![c]
    }
}

/// The characters of a string, each escaped as `serde_json` writes it.
pub open spec fn spec_json_escaped(s: Seq<char>) -> Seq<char>
    decreases s.len(),
{
    if s.len() == 0 {
        Seq::empty()
    } else {
        spec_json_escaped(s.drop_last()) + spec_json_escape(s.last())
    }
}

/// How `serde_json` writes a string: quoted, with JSON escapes
/// (`format_escaped_str` and its `ESCAPE` table).
pub open spec fn spec_json_string(s: Seq<char>) -> Seq<char> {
    seq!['"'] + spec_json_escaped(s) + seq!['"']
}

/// Writes a string as JSON (`serde_json::to_string` on a `&str`). Claims:
/// the quoted, escaped text above. Writing a string cannot fail, so an
/// error is not expected; it would be reported as an empty text.
#[verifier::external_body]
fn json_string(s: &str) -> (res: String)
    ensures
        res@ == spec_json_string(s@),
{
    serde_json::to_string(s).unwrap_or_default()
}

/// The header of the listing.
pub open spec fn list_header() -> Seq<char> {
    "INDEX\tTITLE\tMIME\tSIZE\tTRANSFORMS\tEXTRACTION\tSIGNATURES\tTIMESTAMPS"@
}

/// The listing's header.
pub fn list_header_line() -> (res: String)
    ensures
        res@ == list_header(),
{
    "INDEX\tTITLE\tMIME\tSIZE\tTRANSFORMS\tEXTRACTION\tSIGNATURES\tTIMESTAMPS".to_owned()
}

/// The listing's row for a document: its index, title, MIME type, size,
/// transforms, extraction, signature and time stamp counts, tab-separated,
/// the texts written as JSON strings.
pub open spec fn spec_list_line(entry: DocumentEntryView) -> Seq<char> {
    spec_decimal(entry.index as nat) + "\t"@ + spec_json_string(entry.title) + "\t"@ + spec_json_string(
        entry.mime_type.top_level_type.push('/') + entry.mime_type.subtype,
    ) + "\t"@ + spec_decimal(entry.source_size as nat) + "\t"@ + spec_cli_transform_list(entry.transforms)
        + "\t"@ + spec_json_string(spec_extraction_label(entry.extraction)) + "\t"@ + spec_decimal(
        entry.signature_count as nat,
    ) + "\t"@ + spec_decimal(entry.timestamp_count as nat)
}

/// The listing's row for a document.
pub fn list_line(entry: &DocumentEntry) -> (res: String)
    ensures
        res@ == spec_list_line(entry@),
{
    let mut line = decimal(entry.index() as u64);
    line.append("\t");
    line.append(json_string(entry.title()).as_str());
    line.append("\t");
    line.append(json_string(entry.mime_type().to_string().as_str()).as_str());
    line.append("\t");
    line.append(decimal(entry.source_size()).as_str());
    line.append("\t");
    line.append(transform_list(entry.transforms()).as_str());
    line.append("\t");
    line.append(json_string(extraction_label(entry.extraction())).as_str());
    line.append("\t");
    line.append(decimal(entry.signature_count() as u64).as_str());
    line.append("\t");
    line.append(decimal(entry.timestamp_count() as u64).as_str());
    line
}

// ---------------------------------------------------------------------------
// Human-readable reports
// ---------------------------------------------------------------------------

/// `{label}: {count}`.
pub open spec fn count_line(label: Seq<char>, count: usize) -> Seq<char> {
    label + ": "@ + spec_decimal(count as nat)
}

fn count_text(label: &str, count: usize) -> (res: String)
    ensures
        res@ == count_line(label@, count),
{
    concat3(label, ": ", decimal(count as u64).as_str())
}

/// The lines of a list of findings: `- ` and each finding's message.
pub open spec fn finding_lines(findings: Seq<FindingView>) -> Seq<Seq<char>>
    decreases findings.len(),
{
    if findings.len() == 0 {
        Seq::empty()
    } else {
        finding_lines(findings.drop_last()).push(
            "- "@ + spec_finding_message(findings.last().document_index, findings.last().message),
        )
    }
}

/// A labelled list of findings: `{label}: none`, or `{label}:` and the
/// findings.
pub open spec fn findings_section(label: Seq<char>, findings: Seq<FindingView>) -> Seq<Seq<char>> {
    if findings.len() == 0 {
        seq![label + ": none"@]
    } else {
        seq![label + ":"@] + finding_lines(findings)
    }
}

/// Appends a labelled list of findings.
fn push_findings(lines: &mut Vec<String>, label: &str, findings: &[crate::verify::Finding])
    ensures
        strings_view(final(lines)@) == strings_view(old(lines)@) + findings_section(
            label@,
            crate::verify::findings_view(findings@),
        ),
{
    let ghost start = strings_view(lines@);
    let ghost all = crate::verify::findings_view(findings@);
    if findings.len() == 0 {
        let line = concat2(label, ": none");
        proof {
            assert(strings_view(lines@.push(line)) =~= start.push(line@));
        }
        lines.push(line);
        assert(strings_view(lines@) =~= start + findings_section(label@, all));
        return;
    }
    let head = concat2(label, ":");
    proof {
        assert(strings_view(lines@.push(head)) =~= start.push(head@));
    }
    lines.push(head);
    let ghost after_head = strings_view(lines@);
    let mut k: usize = 0;
    assert(after_head =~= after_head + finding_lines(all.take(0)));
    while k < findings.len()
        invariant
            k <= findings@.len(),
            all == crate::verify::findings_view(findings@),
            strings_view(lines@) == after_head + finding_lines(all.take(k as int)),
        decreases findings@.len() - k,
    {
        proof {
            assert(all.take(k + 1).drop_last() =~= all.take(k as int));
            assert(all.take(k + 1).last() == findings@[k as int]@);
        }
        let line = concat2("- ", finding_message(findings[k].document_index, findings[k].message.as_str()).as_str());
        proof {
            assert(strings_view(lines@.push(line)) =~= strings_view(lines@).push(line@));
        }
        lines.push(line);
        k = k + 1;
    }
    assert(all.take(k as int) =~= all);
    assert(strings_view(lines@) =~= start + findings_section(label@, all));
}

/// The lines of a structural report: its counts, then its errors and
/// warnings.
pub open spec fn spec_structure_lines(report: StructureReportView) -> Seq<Seq<char>> {
    seq![
        "ES3 structural verification report (not cryptographic)"@,
        count_line("documents"@, report.document_count),
        count_line("document signatures"@, report.document_signature_count),
        count_line("document timestamps"@, report.document_timestamp_count),
        count_line("dossier signatures"@, report.dossier_signature_count),
        count_line("dossier timestamps"@, report.dossier_timestamp_count),
    ] + findings_section("errors"@, report.errors) + findings_section("warnings"@, report.warnings)
}

/// Appends a line.
fn push_line(lines: &mut Vec<String>, line: String)
    ensures
        strings_view(final(lines)@) == strings_view(old(lines)@).push(line@),
{
    proof {
        assert(strings_view(lines@.push(line)) =~= strings_view(lines@).push(line@));
    }
    lines.push(line);
}

/// The lines of a structural report.
pub fn structure_report_lines(report: &StructureReport) -> (res: Vec<String>)
    ensures
        strings_view(res@) == spec_structure_lines(report@),
{
    let mut lines: Vec<String> = Vec::new();
    assert(strings_view(lines@) =~= Seq::<Seq<char>>::empty());
    push_line(&mut lines, "ES3 structural verification report (not cryptographic)".to_owned());
    push_line(&mut lines, count_text("documents", report.document_count));
    push_line(&mut lines, count_text("document signatures", report.document_signature_count));
    push_line(&mut lines, count_text("document timestamps", report.document_timestamp_count));
    push_line(&mut lines, count_text("dossier signatures", report.dossier_signature_count));
    push_line(&mut lines, count_text("dossier timestamps", report.dossier_timestamp_count));
    push_findings(&mut lines, "errors", report.errors.as_slice());
    push_findings(&mut lines, "warnings", report.warnings.as_slice());
    assert(strings_view(lines@) =~= spec_structure_lines(report@));
    lines
}

/// A signature's `Id`, or `<none>`.
pub open spec fn id_or_none(id: Option<Seq<char>>) -> Seq<char> {
    match id {
        Some(i) => i,
        None => "<none>"@,
    }
}

fn id_text(id: &Option<String>) -> (res: &str)
    ensures
        res@ == id_or_none(opt_view(*id)),
{
    match id {
        Some(i) => i.as_str(),
        None => "<none>",
    }
}

/// How `{:?}` writes a XAdES digest status: its variant's name.
pub open spec fn spec_xades_name(status: crate::verify::XadesSigningCertificateStatus) -> Seq<char> {
    match status {
        crate::verify::XadesSigningCertificateStatus::NotPresent => "NotPresent"@,
        crate::verify::XadesSigningCertificateStatus::Matched => "Matched"@,
        crate::verify::XadesSigningCertificateStatus::Mismatched => "Mismatched"@,
        crate::verify::XadesSigningCertificateStatus::Invalid => "Invalid"@,
    }
}

fn xades_name(status: crate::verify::XadesSigningCertificateStatus) -> (res: &'static str)
    ensures
        res@ == spec_xades_name(status),
{
    match status {
        crate::verify::XadesSigningCertificateStatus::NotPresent => "NotPresent",
        crate::verify::XadesSigningCertificateStatus::Matched => "Matched",
        crate::verify::XadesSigningCertificateStatus::Mismatched => "Mismatched",
        crate::verify::XadesSigningCertificateStatus::Invalid => "Invalid",
    }
}

/// The lines about one checked signature: its scope, `Id`, value and trust;
/// its signer certificate, if any; its evidence, if it has some.
pub open spec fn signature_lines(s: crate::verify::SignatureResultView) -> Seq<Seq<char>> {
    let head = "- "@ + spec_scope_label(s.scope) + " "@ + id_or_none(s.id) + ": signature_value="@ + (if s.signature_value_valid {
        "valid"@
    } else {
        "invalid"@
    }) + ", trust="@ + spec_status_label(s.trust);
    let signer = match s.signer_certificate {
        Some(c) => seq![
            "  signer: "@ + c.subject,
            "  issuer: "@ + c.issuer,
            "  signer cert sha256: "@ + c.sha256_fingerprint,
            "  XAdES signing certificate: "@ + spec_xades_name(s.xades_signing_certificate),
        ],
        None => Seq::empty(),
    };
    let e = s.evidence;
    let evidence = if e.timestamp_count > 0 || e.ocsp_value_count > 0 || e.certificate_value_count > 0
        || e.crl_value_count > 0 {
        seq![
            "  evidence: timestamps="@ + spec_decimal(e.timestamp_count as nat) + ", certificates="@ + spec_decimal(
                e.certificate_value_count as nat,
            ) + ", ocsp="@ + spec_decimal(e.ocsp_value_count as nat) + ", crl="@ + spec_decimal(
                e.crl_value_count as nat,
            ),
        ]
    } else {
        Seq::empty()
    };
    seq![head] + signer + evidence
}

/// The lines about each checked signature, in order.
pub open spec fn all_signature_lines(signatures: Seq<crate::verify::SignatureResultView>) -> Seq<Seq<char>>
    decreases signatures.len(),
{
    if signatures.len() == 0 {
        Seq::empty()
    } else {
        all_signature_lines(signatures.drop_last()) + signature_lines(signatures.last())
    }
}

/// The lines of a list of signature findings: `- {id}: {message}`.
pub open spec fn signature_finding_lines(findings: Seq<crate::verify::SignatureFindingView>) -> Seq<Seq<char>>
    decreases findings.len(),
{
    if findings.len() == 0 {
        Seq::empty()
    } else {
        signature_finding_lines(findings.drop_last()).push(
            "- "@ + id_or_none(findings.last().signature_id) + ": "@ + findings.last().message,
        )
    }
}

/// A labelled list of signature findings.
pub open spec fn signature_findings_section(label: Seq<char>, findings: Seq<crate::verify::SignatureFindingView>) -> Seq<Seq<char>> {
    if findings.len() == 0 {
        seq![label + ": none"@]
    } else {
        seq![label + ":"@] + signature_finding_lines(findings)
    }
}

/// The lines of a verification report: the layers, the counts, each checked
/// signature, the structural findings, and the signature findings.
pub open spec fn spec_verification_lines(report: VerificationReportView) -> Seq<Seq<char>> {
    let v = report.validation;
    let head = seq![
        "ES3 verification report"@,
        "structural: "@ + spec_status_label(v.structural),
        "cryptographic: "@ + spec_status_label(v.cryptographic),
        "trust: "@ + spec_status_label(v.trust),
        count_line("documents"@, report.structure.document_count),
        count_line("document signatures"@, report.structure.document_signature_count),
        count_line("dossier signatures"@, report.structure.dossier_signature_count),
    ];
    let checked = match report.signatures {
        None => seq!["signatures: not checked"@],
        Some(s) => seq![count_line("checked signatures"@, s.signature_count)] + all_signature_lines(s.signatures),
    };
    let structural = findings_section("structural errors"@, report.structure.errors) + findings_section(
        "structural warnings"@,
        report.structure.warnings,
    );
    let signature_findings = match report.signatures {
        None => Seq::empty(),
        Some(s) => signature_findings_section("signature errors"@, s.errors) + signature_findings_section(
            "signature warnings"@,
            s.warnings,
        ),
    };
    head + checked + structural + signature_findings
}

fn push_signature_lines(lines: &mut Vec<String>, s: &crate::verify::SignatureResult)
    ensures
        strings_view(final(lines)@) == strings_view(old(lines)@) + signature_lines(s@),
{
    let ghost start = strings_view(lines@);
    let mut head = concat3("- ", signature_scope_label(s.scope), " ");
    head.append(id_text(&s.id));
    head.append(": signature_value=");
    head.append(if s.signature_value_valid { "valid" } else { "invalid" });
    head.append(", trust=");
    head.append(validation_status(s.trust));
    push_line(lines, head);
    match &s.signer_certificate {
        Some(c) => {
            push_line(lines, concat2("  signer: ", c.subject.as_str()));
            push_line(lines, concat2("  issuer: ", c.issuer.as_str()));
            push_line(lines, concat2("  signer cert sha256: ", c.sha256_fingerprint.as_str()));
            push_line(lines, concat2("  XAdES signing certificate: ", xades_name(s.xades_signing_certificate)));
        },
        None => {},
    }
    let e = s.evidence;
    if e.timestamp_count > 0 || e.ocsp_value_count > 0 || e.certificate_value_count > 0 || e.crl_value_count > 0 {
        let mut line = concat2("  evidence: timestamps=", decimal(e.timestamp_count as u64).as_str());
        line.append(", certificates=");
        line.append(decimal(e.certificate_value_count as u64).as_str());
        line.append(", ocsp=");
        line.append(decimal(e.ocsp_value_count as u64).as_str());
        line.append(", crl=");
        line.append(decimal(e.crl_value_count as u64).as_str());
        push_line(lines, line);
    }
    assert(strings_view(lines@) =~= start + signature_lines(s@));
}

fn push_signature_findings(lines: &mut Vec<String>, label: &str, findings: &[crate::verify::SignatureFinding])
    ensures
        strings_view(final(lines)@) == strings_view(old(lines)@) + signature_findings_section(
            label@,
            crate::verify::signature_findings_view(findings@),
        ),
{
    let ghost start = strings_view(lines@);
    let ghost all = crate::verify::signature_findings_view(findings@);
    if findings.len() == 0 {
        push_line(lines, concat2(label, ": none"));
        assert(strings_view(lines@) =~= start + signature_findings_section(label@, all));
        return;
    }
    push_line(lines, concat2(label, ":"));
    let ghost after_head = strings_view(lines@);
    let mut k: usize = 0;
    assert(after_head =~= after_head + signature_finding_lines(all.take(0)));
    while k < findings.len()
        invariant
            k <= findings@.len(),
            all == crate::verify::signature_findings_view(findings@),
            strings_view(lines@) == after_head + signature_finding_lines(all.take(k as int)),
        decreases findings@.len() - k,
    {
        proof {
            assert(all.take(k + 1).drop_last() =~= all.take(k as int));
            assert(all.take(k + 1).last() == findings@[k as int]@);
        }
        let line = concat3("- ", id_text(&findings[k].signature_id), ": ");
        let mut line = line;
        line.append(findings[k].message.as_str());
        push_line(lines, line);
        k = k + 1;
    }
    assert(all.take(k as int) =~= all);
    assert(strings_view(lines@) =~= start + signature_findings_section(label@, all));
}

/// The lines of a verification report.
pub fn verification_report_lines(report: &VerificationReport) -> (res: Vec<String>)
    ensures
        strings_view(res@) == spec_verification_lines(report@),
{
    let mut lines: Vec<String> = Vec::new();
    assert(strings_view(lines@) =~= Seq::<Seq<char>>::empty());
    push_line(&mut lines, "ES3 verification report".to_owned());
    push_line(&mut lines, concat2("structural: ", validation_status(report.validation.structural)));
    push_line(&mut lines, concat2("cryptographic: ", validation_status(report.validation.cryptographic)));
    push_line(&mut lines, concat2("trust: ", validation_status(report.validation.trust)));
    push_line(&mut lines, count_text("documents", report.structure.document_count));
    push_line(&mut lines, count_text("document signatures", report.structure.document_signature_count));
    push_line(&mut lines, count_text("dossier signatures", report.structure.dossier_signature_count));
    match &report.signatures {
        None => push_line(&mut lines, "signatures: not checked".to_owned()),
        Some(signatures) => {
            push_line(&mut lines, count_text("checked signatures", signatures.signature_count));
            let ghost base = strings_view(lines@);
            let ghost all = crate::verify::results_view(signatures.signatures@);
            let mut k: usize = 0;
            assert(base =~= base + all_signature_lines(all.take(0)));
            while k < signatures.signatures.len()
                invariant
                    k <= signatures.signatures@.len(),
                    all == crate::verify::results_view(signatures.signatures@),
                    strings_view(lines@) == base + all_signature_lines(all.take(k as int)),
                decreases signatures.signatures@.len() - k,
            {
                proof {
                    assert(all.take(k + 1).drop_last() =~= all.take(k as int));
                    assert(all.take(k + 1).last() == signatures.signatures@[k as int]@);
                }
                push_signature_lines(&mut lines, &signatures.signatures[k]);
                assert(strings_view(lines@) =~= base + all_signature_lines(all.take(k + 1)));
                k = k + 1;
            }
            assert(all.take(k as int) =~= all);
        },
    }
    push_findings(&mut lines, "structural errors", report.structure.errors.as_slice());
    push_findings(&mut lines, "structural warnings", report.structure.warnings.as_slice());
    match &report.signatures {
        None => {},
        Some(signatures) => {
            push_signature_findings(&mut lines, "signature errors", signatures.errors.as_slice());
            push_signature_findings(&mut lines, "signature warnings", signatures.warnings.as_slice());
        },
    }
    assert(strings_view(lines@) =~= spec_verification_lines(report@));
    lines
}

// ---------------------------------------------------------------------------
// Names of extracted files
// ---------------------------------------------------------------------------

/// The last component of a path (`std::path::Path::file_name`), when it is
/// a name. Which characters separate components depends on the platform.
pub uninterp spec fn spec_path_file_name(path: Seq<char>) -> Option<Seq<char>>;

/// The last component of a path (`Path::new(path).file_name()`, as text).
/// Claims: the named component of the path.
#[verifier::external_body]
fn path_file_name(path: &str) -> (res: Option<String>)
    ensures
        opt_view(res) == spec_path_file_name(path@),
{
    std::path::Path::new(path).file_name().and_then(|name| name.to_str()).map(|name| name.to_owned())
}

/// A directory joined with a file name (`Path::new(directory).join(name)`).
/// The separator, and when a name replaces the directory, depend on the
/// platform.
pub uninterp spec fn spec_path_join(directory: Seq<char>, name: Seq<char>) -> Seq<char>;

/// Joins a directory and a file name (`Path::join`, as text). Claims: the
/// named path.
#[verifier::external_body]
fn path_join(directory: &str, name: &str) -> (res: String)
    ensures
        res@ == spec_path_join(directory@, name@),
{
    std::path::Path::new(directory).join(name).to_string_lossy().into_owned()
}

/// The last component of a file name, or the fallback when it has none.
pub open spec fn spec_safe_leaf(filename: Seq<char>, fallback: Seq<char>) -> Seq<char> {
    match spec_path_file_name(filename) {
        Some(name) => if name.len() > 0 {
            name
        } else {
            fallback
        },
        None => fallback,
    }
}

/// The last component of a file name, or the fallback when it has none.
pub fn safe_leaf_filename(filename: &str, fallback: &str) -> (res: String)
    ensures
        res@ == spec_safe_leaf(filename@, fallback@),
{
    match path_file_name(filename) {
        Some(name) => if name.as_str().is_empty() {
            fallback.to_owned()
        } else {
            name
        },
        None => fallback.to_owned(),
    }
}

/// The position of the last `.` of a text.
pub open spec fn spec_last_dot(s: Seq<char>) -> Option<nat>
    decreases s.len(),
{
    if s.len() == 0 {
        None
    } else if s.last() == '.' {
        Some((s.len() - 1) as nat)
    } else {
        spec_last_dot(s.drop_last())
    }
}

/// A file name split at its last `.` as `Path` does: `..` and a name whose
/// only `.` leads it are all stem; a name without `.` is all extension part
/// (the stem falls back to it); otherwise the parts before and after.
pub open spec fn spec_split_at_dot(name: Seq<char>) -> (Option<Seq<char>>, Option<Seq<char>>) {
    if name == ".."@ {
        (Some(name), None)
    } else {
        match spec_last_dot(name) {
            None => (None, Some(name)),
            Some(i) => if i == 0 {
                (Some(name), None)
            } else {
                (Some(name.take(i as int)), Some(name.skip(i + 1int)))
            },
        }
    }
}

/// The stem of a file name (`Path::file_stem`), or the fallback when it is
/// missing or empty.
pub open spec fn spec_file_stem(filename: Seq<char>, fallback: Seq<char>) -> Seq<char> {
    let stem = match spec_path_file_name(filename) {
        Some(name) => {
            let (before, after) = spec_split_at_dot(name);
            match before {
                Some(b) => Some(b),
                None => after,
            }
        },
        None => None,
    };
    match stem {
        Some(s) => if s.len() > 0 {
            s
        } else {
            fallback
        },
        None => fallback,
    }
}

/// The extension of a file name (`Path::extension`).
pub open spec fn spec_file_extension(filename: Seq<char>) -> Option<Seq<char>> {
    match spec_path_file_name(filename) {
        Some(name) => {
            let (before, after) = spec_split_at_dot(name);
            if before is Some {
                after
            } else {
                None
            }
        },
        None => None,
    }
}

fn last_dot(chars: &Vec<char>) -> (res: Option<usize>)
    ensures
        match res {
            Some(i) => spec_last_dot(chars@) == Some(i as nat) && i < chars@.len(),
            None => spec_last_dot(chars@) is None,
        },
{
    let mut k = chars.len();
    assert(chars@.take(k as int) =~= chars@);
    while k > 0
        invariant
            k <= chars@.len(),
            spec_last_dot(chars@) == spec_last_dot(chars@.take(k as int)),
        decreases k,
    {
        assert(chars@.take(k as int).last() == chars@[k - 1]);
        assert(chars@.take(k as int).drop_last() =~= chars@.take(k - 1));
        if chars[k - 1] == '.' {
            return Some(k - 1);
        }
        k = k - 1;
    }
    None
}

/// A file name's stem (or the fallback) and extension.
pub fn split_extension(filename: &str, fallback: &str) -> (res: (String, Option<String>))
    ensures
        res.0@ == spec_file_stem(filename@, fallback@),
        opt_view(res.1) == spec_file_extension(filename@),
{
    let name = match path_file_name(filename) {
        Some(name) => name,
        None => return (fallback.to_owned(), None),
    };
    let chars = crate::text::chars_of(name.as_str());
    let is_parent = chars.len() == 2 && chars[0] == '.' && chars[1] == '.';
    proof {
        reveal_strlit("..");
        if is_parent {
            assert(name@ =~= ".."@);
        } else {
            assert(name@ != ".."@) by {
                if name@ == ".."@ {
                    assert(chars@[0] == '.' && chars@[1] == '.');
                }
            }
        }
    }
    let (before, after): (Option<String>, Option<String>) = if is_parent {
        (Some(name), None)
    } else {
        match last_dot(&chars) {
            None => (None, Some(name)),
            Some(i) => if i == 0 {
                (Some(name), None)
            } else {
                (
                    Some(crate::text::string_from_chars(&chars, 0, i)),
                    Some(crate::text::string_from_chars(&chars, i + 1, chars.len())),
                )
            },
        }
    };
    let stem = match &before {
        Some(b) => if b.as_str().is_empty() { fallback.to_owned() } else { b.clone() },
        None => match &after {
            Some(a) => if a.as_str().is_empty() { fallback.to_owned() } else { a.clone() },
            None => fallback.to_owned(),
        },
    };
    let extension = if before.is_some() { after } else { None };
    (stem, extension)
}

/// The name of the `index`th candidate for a file: the safe name itself
/// first, then the stem with `-2`, `-3`, ... and the extension.
pub open spec fn spec_candidate_name(safe_name: Seq<char>, stem: Seq<char>, extension: Option<Seq<char>>, index: nat) -> Seq<char> {
    if index == 0 {
        safe_name
    } else {
        match extension {
            Some(e) => stem + "-"@ + spec_decimal(index + 1) + "."@ + e,
            None => stem + "-"@ + spec_decimal(index + 1),
        }
    }
}

/// The name of the `index`th candidate for a file.
pub fn cli_candidate_name(safe_name: &str, stem: &str, extension: Option<&str>, duplicate_index: usize) -> (res: String)
    requires
        duplicate_index < usize::MAX,
    ensures
        res@ == spec_candidate_name(
            safe_name@,
            stem@,
            match extension {
                Some(e) => Some(e@),
                None => None,
            },
            duplicate_index as nat,
        ),
{
    if duplicate_index == 0 {
        return safe_name.to_owned();
    }
    let mut name = concat3(stem, "-", decimal((duplicate_index + 1) as u64).as_str());
    match extension {
        Some(e) => {
            name.append(".");
            name.append(e);
        },
        None => {},
    }
    name
}

/// A decimal digit determines its value.
proof fn lemma_digit_injective(a: nat, b: nat)
    requires
        a < 10,
        b < 10,
        crate::text::digit_char(a) == crate::text::digit_char(b),
    ensures
        a == b,
{
    assert(((a + 48) as u8) as int == a + 48);
    assert(((b + 48) as u8) as int == b + 48);
    assert((((a + 48) as u8) as char) as int == a + 48);
    assert((((b + 48) as u8) as char) as int == b + 48);
}

/// Every decimal text has a digit.
proof fn lemma_decimal_nonempty(n: nat)
    ensures
        spec_decimal(n).len() >= 1,
    decreases n,
{
    if n >= 10 {
        lemma_decimal_nonempty(n / 10);
    }
}

/// A decimal text determines its value.
proof fn lemma_decimal_injective(a: nat, b: nat)
    requires
        spec_decimal(a) == spec_decimal(b),
    ensures
        a == b,
    decreases a,
{
    if a < 10 && b < 10 {
        assert(spec_decimal(a) == seq![crate::text::digit_char(a)]);
        assert(spec_decimal(b) == seq![crate::text::digit_char(b)]);
        assert(seq![crate::text::digit_char(a)][0] == crate::text::digit_char(a));
        assert(seq![crate::text::digit_char(b)][0] == crate::text::digit_char(b));
        lemma_digit_injective(a, b);
    } else if a < 10 {
        lemma_decimal_nonempty(b / 10);
        assert(spec_decimal(a).len() == 1);
        assert(spec_decimal(b).len() >= 2);
    } else if b < 10 {
        lemma_decimal_nonempty(a / 10);
        assert(spec_decimal(b).len() == 1);
        assert(spec_decimal(a).len() >= 2);
    } else {
        let da = spec_decimal(a);
        let db = spec_decimal(b);
        assert(da.last() == db.last());
        lemma_digit_injective(a % 10, b % 10);
        assert(da.drop_last() =~= spec_decimal(a / 10));
        assert(db.drop_last() =~= spec_decimal(b / 10));
        lemma_decimal_injective(a / 10, b / 10);
    }
}

/// Candidates after the first are all different.
proof fn lemma_candidates_distinct(safe_name: Seq<char>, stem: Seq<char>, extension: Option<Seq<char>>, j: nat, k: nat)
    requires
        1 <= j < k,
    ensures
        spec_candidate_name(safe_name, stem, extension, j) != spec_candidate_name(safe_name, stem, extension, k),
{
    let a = stem + "-"@;
    let dj = spec_decimal(j + 1);
    let dk = spec_decimal(k + 1);
    let t = match extension {
        Some(e) => "."@ + e,
        None => Seq::<char>::empty(),
    };
    let cj = spec_candidate_name(safe_name, stem, extension, j);
    let ck = spec_candidate_name(safe_name, stem, extension, k);
    assert(cj =~= a + dj + t);
    assert(ck =~= a + dk + t);
    if cj == ck {
        assert(dj.len() == dk.len());
        assert(dj =~= cj.subrange(a.len() as int, (a.len() + dj.len()) as int));
        assert(dk =~= ck.subrange(a.len() as int, (a.len() + dk.len()) as int));
        lemma_decimal_injective(j + 1, k + 1);
    }
}

/// Where extracted files go: a directory, whether existing files are
/// replaced, and the names given out so far.
pub struct DirectoryOutput {
    pub overwrite: bool,
    pub directory: String,
    pub used: Vec<String>,
}

/// Whether a name has been given out.
pub open spec fn name_used(used: Seq<Seq<char>>, name: Seq<char>) -> bool {
    used.contains(name)
}

/// Candidate `k` is the first one not given out yet.
pub open spec fn first_free_candidate(used: Seq<Seq<char>>, safe: Seq<char>, stem: Seq<char>, extension: Option<Seq<char>>, k: nat) -> bool {
    &&& !name_used(used, spec_candidate_name(safe, stem, extension, k))
    &&& forall|j: nat| j < k ==> name_used(used, #[trigger] spec_candidate_name(safe, stem, extension, j))
}

/// The name given out is the first candidate not given out yet; it joins
/// the names given out, and the path is the directory joined with it.
pub open spec fn candidate_chosen(
    used: Seq<Seq<char>>,
    safe: Seq<char>,
    stem: Seq<char>,
    extension: Option<Seq<char>>,
    directory: Seq<char>,
    new_used: Seq<Seq<char>>,
    path: Seq<char>,
) -> bool {
    exists|k: nat|
        #[trigger] first_free_candidate(used, safe, stem, extension, k) && new_used == used.push(
            spec_candidate_name(safe, stem, extension, k),
        ) && path == spec_path_join(directory, spec_candidate_name(safe, stem, extension, k))
}

/// What giving out the next path for a file name does: the candidates are
/// those of the name's last component (`document` when it has none), with
/// its stem and extension.
pub open spec fn next_path_chosen(
    used: Seq<Seq<char>>,
    directory: Seq<char>,
    filename: Seq<char>,
    new_used: Seq<Seq<char>>,
    path: Seq<char>,
) -> bool {
    candidate_chosen(
        used,
        spec_safe_leaf(filename, "document"@),
        spec_file_stem(spec_safe_leaf(filename, "document"@), "document"@),
        spec_file_extension(spec_safe_leaf(filename, "document"@)),
        directory,
        new_used,
        path,
    )
}

impl DirectoryOutput {
    /// Output to a directory, with no name given out yet.
    pub fn new(directory: String, overwrite: bool) -> (res: DirectoryOutput)
        ensures
            res.directory@ == directory@,
            res.overwrite == overwrite,
            res.used@.len() == 0,
    {
        DirectoryOutput { overwrite, directory, used: Vec::new() }
    }

    fn is_used(&self, name: &String) -> (res: bool)
        ensures
            res == name_used(strings_view(self.used@), name@),
    {
        let ghost used = strings_view(self.used@);
        let mut k: usize = 0;
        while k < self.used.len()
            invariant
                k <= self.used@.len(),
                used == strings_view(self.used@),
                forall|j: int| 0 <= j < k ==> used[j] != name@,
            decreases self.used@.len() - k,
        {
            if crate::text::str_eq(self.used[k].as_str(), name.as_str()) {
                assert(used[k as int] == name@);
                assert(used.contains(name@));
                return true;
            }
            k = k + 1;
        }
        false
    }

    /// The path of the next file with a name: the first candidate name not
    /// given out yet, which is then given out.
    pub fn next_path(&mut self, filename: &str) -> (res: String)
        requires
            old(self).used@.len() + 2 < usize::MAX,
        ensures
            final(self).directory == old(self).directory,
            final(self).overwrite == old(self).overwrite,
            next_path_chosen(
                strings_view(old(self).used@),
                old(self).directory@,
                filename@,
                strings_view(final(self).used@),
                res@,
            ),
    {
        let ghost used = strings_view(self.used@);
        let safe_name = safe_leaf_filename(filename, "document");
        let (stem, extension) = split_extension(safe_name.as_str(), "document");
        let ghost safe = safe_name@;
        let ghost ext = opt_view(extension);
        let extension_str: Option<&str> = match &extension {
            Some(e) => Some(e.as_str()),
            None => None,
        };
        assert(match extension_str {
            Some(e) => Some(e@),
            None => None::<Seq<char>>,
        } == ext);
        let bound = self.used.len() + 1;
        let mut k: usize = 0;
        proof {
            lemma_free_candidate(used, safe, stem@, ext, bound as nat);
        }
        loop
            invariant
                bound == self.used@.len() + 1,
                bound + 1 < usize::MAX,
                self.directory == old(self).directory,
                self.overwrite == old(self).overwrite,
                self.used@ == old(self).used@,
                k <= bound + 1,
                used == strings_view(self.used@),
                safe == safe_name@,
                safe == spec_safe_leaf(filename@, "document"@),
                stem@ == spec_file_stem(safe, "document"@),
                ext == spec_file_extension(safe),
                ext == opt_view(extension),
                match extension_str {
                    Some(e) => Some(e@),
                    None => None::<Seq<char>>,
                } == ext,
                forall|j: nat| j < k ==> name_used(used, spec_candidate_name(safe, stem@, ext, j)),
                exists|j: nat| j <= bound && !name_used(used, #[trigger] spec_candidate_name(safe, stem@, ext, j)),
            decreases bound + 1 - k,
        {
            assert(k <= bound);
            let candidate = cli_candidate_name(safe_name.as_str(), stem.as_str(), extension_str, k);
            if !self.is_used(&candidate) {
                let path = path_join(self.directory.as_str(), candidate.as_str());
                proof {
                    assert(strings_view(self.used@.push(candidate)) =~= used.push(candidate@));
                }
                self.used.push(candidate);
                assert(first_free_candidate(used, safe, stem@, ext, k as nat));
                return path;
            }
            k = k + 1;
        }
    }
}

/// The candidates `1..=n` are `n` different names, so they cannot all have
/// been given out among fewer than `n`: one of the first `n + 1` is free.
proof fn lemma_free_candidate(used: Seq<Seq<char>>, safe: Seq<char>, stem: Seq<char>, ext: Option<Seq<char>>, n: nat)
    requires
        n == used.len() + 1,
    ensures
        exists|j: nat| j <= n && !name_used(used, #[trigger] spec_candidate_name(safe, stem, ext, j)),
{
    if forall|j: nat| j <= n ==> name_used(used, #[trigger] spec_candidate_name(safe, stem, ext, j)) {
        lemma_all_used_impossible(used, safe, stem, ext, n);
    }
}

proof fn lemma_all_used_impossible(used: Seq<Seq<char>>, safe: Seq<char>, stem: Seq<char>, ext: Option<Seq<char>>, n: nat)
    requires
        n == used.len() + 1,
        forall|j: nat| j <= n ==> name_used(used, #[trigger] spec_candidate_name(safe, stem, ext, j)),
    ensures
        used.len() + 1 <= used.len(),
{
    let names = Seq::new(n, |i: int| spec_candidate_name(safe, stem, ext, (i + 1) as nat));
    assert forall|i: int, j: int| 0 <= i < names.len() && 0 <= j < names.len() && i != j implies names[i] != names[j] by {
        if i < j {
            lemma_candidates_distinct(safe, stem, ext, (i + 1) as nat, (j + 1) as nat);
        } else {
            lemma_candidates_distinct(safe, stem, ext, (j + 1) as nat, (i + 1) as nat);
        }
    }
    assert(names.no_duplicates());
    names.unique_seq_to_set();
    assert forall|x: Seq<char>| names.to_set().contains(x) implies used.to_set().contains(x) by {
        let i = choose|i: int| 0 <= i < names.len() && names[i] == x;
        assert(name_used(used, spec_candidate_name(safe, stem, ext, (i + 1) as nat)));
    }
    vstd::seq_lib::seq_to_set_is_finite(used);
    vstd::set_lib::lemma_len_subset(names.to_set(), used.to_set());
    used.lemma_cardinality_of_set();
}

// ---------------------------------------------------------------------------
// Extraction
// ---------------------------------------------------------------------------

/// The extractable documents of a dossier up to a position, in order, each
/// as extracting it gives; a document that cannot be extracted is skipped.
pub open spec fn spec_extractable_upto(d: crate::dossier::DossierView, k: nat) -> Seq<
    crate::document::ExtractedDocumentView,
>
    decreases k,
{
    if k == 0 {
        Seq::empty()
    } else {
        let done = spec_extractable_upto(d, (k - 1) as nat);
        if d.documents[k - 1].entry.extraction.can_extract {
            done.push(crate::dossier::spec_extract(d, (k - 1) as usize)->Ok_0)
        } else {
            done
        }
    }
}

/// What the extract command takes from a dossier: the document at an index,
/// the document with a title, or, with neither, every extractable document
/// in order.
pub open spec fn spec_extract_selected(
    d: crate::dossier::DossierView,
    index: Option<usize>,
    title: Option<Seq<char>>,
) -> Result<Seq<crate::document::ExtractedDocumentView>, crate::error::ErrorView> {
    let one = |r: Result<crate::document::ExtractedDocumentView, crate::error::ErrorView>| match r {
        Ok(x) => Ok(seq![x]),
        Err(e) => Err(e),
    };
    match index {
        Some(i) => one(crate::dossier::spec_extract(d, i)),
        None => match title {
            Some(t) => one(crate::dossier::spec_extract_by_title(d, t)),
            None => Ok(spec_extractable_upto(d, d.documents.len())),
        },
    }
}

/// The views of extracted documents.
pub open spec fn extracted_view(
    r: Result<Vec<crate::document::ExtractedDocument>, crate::error::Error>,
) -> Result<Seq<crate::document::ExtractedDocumentView>, crate::error::ErrorView> {
    match r {
        Ok(v) => Ok(v@.map_values(|x: crate::document::ExtractedDocument| x@)),
        Err(e) => Err(e@),
    }
}

/// The documents the extract command writes: the one at an index, the one
/// with a title, or every extractable document in order, skipping those
/// that cannot be extracted. An index and a title are never both given.
pub fn extract_selected(
    dossier: &crate::dossier::Dossier,
    index: Option<usize>,
    title: Option<&str>,
) -> (res: Result<Vec<crate::document::ExtractedDocument>, crate::error::Error>)
    requires
        index is None || title is None,
    ensures
        extracted_view(res) == spec_extract_selected(
            dossier@,
            index,
            match title {
                Some(t) => Some(t@),
                None => None,
            },
        ),
{
    match index {
        Some(i) => {
            return match dossier.extract_document(i) {
                Ok(x) => {
                    let v = vec![x];
                    assert(v@.map_values(|x: crate::document::ExtractedDocument| x@) =~= seq![v@[0]@]);
                    Ok(v)
                },
                Err(e) => Err(e),
            };
        },
        None => {},
    }
    match title {
        Some(t) => {
            return match dossier.extract_document_by_title(t) {
                Ok(x) => {
                    let v = vec![x];
                    assert(v@.map_values(|x: crate::document::ExtractedDocument| x@) =~= seq![v@[0]@]);
                    Ok(v)
                },
                Err(e) => Err(e),
            };
        },
        None => {},
    }
    let _source = dossier.source_xml();
    let entries = dossier.documents();
    let mut extracted: Vec<crate::document::ExtractedDocument> = Vec::new();
    let mut k: usize = 0;
    assert(extracted@.map_values(|x: crate::document::ExtractedDocument| x@) =~= Seq::<crate::document::ExtractedDocumentView>::empty());
    while k < entries.len()
        invariant
            index is None,
            title is None,
            crate::dossier::spec_dossier_parse(dossier@.source_xml) == Ok::<
                crate::dossier::DossierView,
                crate::error::ErrorView,
            >(dossier@),
            k <= entries@.len(),
            entries@.len() == dossier@.documents.len(),
            forall|i: int| 0 <= i < entries@.len() ==> (#[trigger] entries@[i])@ == dossier@.documents[i].entry,
            spec_extractable_upto(dossier@, k as nat) == extracted@.map_values(
                |x: crate::document::ExtractedDocument| x@,
            ),
        decreases entries@.len() - k,
    {
        if entries[k].can_extract() {
            assert(entries@[k as int]@ == dossier@.documents[k as int].entry);
            match dossier.extract_document(k) {
                Ok(x) => {
                    let ghost before = extracted@.map_values(|x: crate::document::ExtractedDocument| x@);
                    let ghost xv = x@;
                    extracted.push(x);
                    assert(extracted@.map_values(|x: crate::document::ExtractedDocument| x@) =~= before.push(xv));
                },
                Err(e) => {
                    proof {
                        crate::dossier::law_extract_matches_entry(dossier@, k);
                    }
                    return Err(e);
                },
            }
        }
        k = k + 1;
    }
    Ok(extracted)
}

// ---------------------------------------------------------------------------
// Writing through a temporary file
// ---------------------------------------------------------------------------

/// How many temporary names are tried before giving up.
pub const TEMP_WRITE_ATTEMPTS: u32 = 1000;

/// The name of the temporary file for an attempt: hidden, after the target's
/// file name (`extract` when it has none), the process id and the attempt.
pub open spec fn spec_temp_file_name(leaf: Option<Seq<char>>, process_id: u32, attempt: u32) -> Seq<char> {
    "."@ + match leaf {
        Some(name) => name,
        None => "extract"@,
    } + "."@ + spec_decimal(process_id as nat) + "."@ + spec_decimal(attempt as nat) + ".tmp"@
}

/// The name of the temporary file for an attempt.
pub fn temp_file_name(leaf: Option<&str>, process_id: u32, attempt: u32) -> (res: String)
    ensures
        res@ == spec_temp_file_name(
            match leaf {
                Some(name) => Some(name@),
                None => None,
            },
            process_id,
            attempt,
        ),
{
    let mut name = ".".to_owned();
    match leaf {
        Some(leaf) => name.append(leaf),
        None => name.append("extract"),
    }
    name.append(".");
    name.append(decimal(process_id as u64).as_str());
    name.append(".");
    name.append(decimal(attempt as u64).as_str());
    name.append(".tmp");
    name
}

/// What creating a temporary file for an attempt came to.
#[derive(Debug, Clone, Copy, PartialEq, Eq, Structural)]
pub enum TempWriteEvent {
    Created,
    AlreadyExists,
    Failed,
}

/// What to do next: write the bytes into the created file and rename it
/// over the target, try the next name, fail with the temporary path's error,
/// or give up with the output directory's error after the last name.
#[derive(Debug, Clone, Copy, PartialEq, Eq, Structural)]
pub enum TempWriteAction {
    WriteAndRename,
    Retry { attempt: u32 },
    FailAtTemporary,
    Exhausted,
}

/// The next step of writing through a temporary file, after an attempt.
pub open spec fn spec_temp_write_step(attempt: u32, event: TempWriteEvent) -> TempWriteAction {
    match event {
        TempWriteEvent::Created => TempWriteAction::WriteAndRename,
        TempWriteEvent::Failed => TempWriteAction::FailAtTemporary,
        TempWriteEvent::AlreadyExists => if attempt + 1 < TEMP_WRITE_ATTEMPTS {
            TempWriteAction::Retry { attempt: (attempt + 1) as u32 }
        } else {
            TempWriteAction::Exhausted
        },
    }
}

/// The next step of writing through a temporary file, after an attempt.
pub fn temp_write_step(attempt: u32, event: TempWriteEvent) -> (res: TempWriteAction)
    requires
        attempt < TEMP_WRITE_ATTEMPTS,
    ensures
        res == spec_temp_write_step(attempt, event),
{
    match event {
        TempWriteEvent::Created => TempWriteAction::WriteAndRename,
        TempWriteEvent::Failed => TempWriteAction::FailAtTemporary,
        TempWriteEvent::AlreadyExists => if attempt + 1 < TEMP_WRITE_ATTEMPTS {
            TempWriteAction::Retry { attempt: attempt + 1 }
        } else {
            TempWriteAction::Exhausted
        },
    }
}

} // verus!
