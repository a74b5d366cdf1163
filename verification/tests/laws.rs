use es3::{
    Dossier, Error, SignatureScope, ValidationLayerStatus, VerificationOptions,
};

fn dossier_xml(documents: &[(&str, &str, &str)]) -> String {
    let mut body = String::new();
    for (index, (title, transforms, payload)) in documents.iter().enumerate() {
        body.push_str(&format!(
            r##"    <es:Document>
      <es:DocumentProfile Id="Profile{n}" OBJREF="#Payload{n}">
        <es:Title>{title}</es:Title>
        <es:Format><es:MIME-Type type="text" subtype="plain" extension="txt"/></es:Format>
        <es:SourceSize sizeValue="11" sizeUnit="B"/>
        <es:BaseTransform>{transforms}</es:BaseTransform>
      </es:DocumentProfile>
      <ds:Object Id="Payload{n}">{payload}</ds:Object>
    </es:Document>
"##,
            n = index + 1
        ));
    }
    format!(
        r##"<es:Dossier xmlns:es="https://www.microsec.hu/ds/e-szigno30#" xmlns:ds="http://www.w3.org/2000/09/xmldsig#">
  <es:DossierProfile Id="Profile0" OBJREF="#Object0"><es:Title>Dossier</es:Title></es:DossierProfile>
  <es:Documents Id="Object0">
{body}  </es:Documents>
</es:Dossier>"##
    )
}

const BASE64: &str = "<es:Transform Algorithm=\"base64\"/>";
const ENCRYPTED: &str = "<es:Transform Algorithm=\"encrypt\"/><es:Transform Algorithm=\"base64\"/>";

fn samples() -> Vec<String> {
    vec![
        dossier_xml(&[("Invoice", BASE64, "SGVsbG8gd29ybGQ=")]),
        dossier_xml(&[("Secret", ENCRYPTED, "SGVsbG8gd29ybGQ=")]),
        dossier_xml(&[("Broken", BASE64, "not base64")]),
        dossier_xml(&[("A", BASE64, "SGVsbG8="), ("B", "<es:Transform Algorithm=\"zip\"/>", "SGVsbG8=")]),
        dossier_xml(&[]),
        "<not-es3/>".to_owned(),
        "not xml at all".to_owned(),
        dossier_xml(&[("Invoice", "", "SGVsbG8gd29ybGQ=")]),
    ]
}

#[test]
fn parsing_succeeds_exactly_when_the_structure_report_has_no_error() {
    for xml in samples() {
        let report = es3::verify_structure_str(&xml);
        match xml.parse::<Dossier>() {
            Ok(dossier) => {
                assert!(report.is_ok(), "{report:#?}");
                assert_eq!(dossier.verify_structure(), report);
            }
            Err(error) => {
                assert!(!report.is_ok());
                assert_eq!(error.to_string(), report.errors[0].message);
            }
        }
    }
}

#[test]
fn verification_reports_the_same_structure_under_any_options() {
    for xml in samples() {
        let direct = es3::verify_structure_str(&xml);
        for options in [
            VerificationOptions::without_signatures(),
            VerificationOptions::default(),
            VerificationOptions::default().with_signature_scope(SignatureScope::All),
            VerificationOptions::default().with_pinned_certificate(b"not a cert".to_vec()),
        ] {
            assert_eq!(es3::verify_str(&xml, options).structure, direct);
        }
    }
}

#[test]
fn skipped_signatures_leave_only_the_structure_checked() {
    for xml in samples() {
        let report = es3::verify_str(&xml, VerificationOptions::without_signatures());
        assert!(report.signatures.is_none());
        assert_eq!(report.validation.cryptographic, ValidationLayerStatus::NotChecked);
        assert_eq!(report.validation.trust, ValidationLayerStatus::NotChecked);
        assert_eq!(report.checked_layers_ok(), report.structure.is_ok());
    }
}

#[test]
fn counts_of_a_dossier_match_its_entries() {
    let xml = dossier_xml(&[("A", BASE64, "SGVsbG8="), ("B", BASE64, "SGVsbG8=")])
        .replace("</ds:Object>\n    </es:Document>", "</ds:Object>\n      <ds:Signature/><es:TimeStamp/>\n    </es:Document>");
    let dossier = xml.parse::<Dossier>().unwrap();
    let report = dossier.verify_structure();
    let documents = dossier.documents();

    assert_eq!(report.document_count, 2);
    assert_eq!(report.document_signature_count, 2);
    assert_eq!(report.document_timestamp_count, 2);
    assert_eq!(
        report.document_signature_count,
        documents.iter().map(|d| d.signature_count()).sum::<usize>()
    );
}

#[test]
fn extraction_by_title_is_extraction_of_the_one_match() {
    let xml = dossier_xml(&[
        ("Same", BASE64, "SGVsbG8="),
        ("Other", BASE64, "SGVsbG8gd29ybGQ="),
        ("Same", BASE64, "SGVsbG8="),
    ]);
    let dossier = xml.parse::<Dossier>().unwrap();

    let by_title = dossier.extract_document_by_title("Other").unwrap();
    let by_index = dossier.extract_document(1).unwrap();
    assert_eq!(by_title, by_index);
    assert_eq!(by_title.bytes, b"Hello world");
    assert_eq!(by_title.filename, by_title.entry.suggested_filename());

    let ambiguous = dossier.extract_document_by_title("Same").unwrap_err();
    assert_eq!(ambiguous.to_string(), "multiple documents match title \"Same\"; use --index");

    let missing = dossier.extract_document_by_title("Nothing").unwrap_err();
    assert!(matches!(missing, Error::DocumentTitleNotFound { .. }));
    assert_eq!(missing.to_string(), "no document title matches \"Nothing\"");
}

#[test]
fn extraction_outside_the_documents_is_refused() {
    let dossier = dossier_xml(&[("A", BASE64, "SGVsbG8=")]).parse::<Dossier>().unwrap();
    let error = dossier.extract_document(3).unwrap_err();

    assert_eq!(error.to_string(), "document index 3 is out of range");
}

#[test]
fn an_invalid_signature_fails_cryptography_and_the_checked_layers() {
    let xml = dossier_xml(&[("A", BASE64, "SGVsbG8=")])
        .replace("</es:Dossier>", "  <ds:Signature Id=\"Frame\"/>\n</es:Dossier>");
    let report = es3::verify_str(&xml, VerificationOptions::default());
    let signatures = report.signatures.as_ref().unwrap();

    assert_eq!(signatures.signature_count, 1);
    assert!(!signatures.signatures[0].signature_value_valid);
    assert_eq!(signatures.signatures[0].trust, ValidationLayerStatus::Failed);
    assert_eq!(signatures.signatures[0].id.as_deref(), Some("Frame"));
    assert_eq!(report.validation.cryptographic, ValidationLayerStatus::Failed);
    assert!(!report.checked_layers_ok());
}

#[test]
fn an_unreadable_pinned_certificate_is_a_trust_error() {
    let xml = dossier_xml(&[("A", BASE64, "SGVsbG8=")])
        .replace("</es:Dossier>", "  <ds:Signature Id=\"Frame\"/>\n</es:Dossier>");
    let options = VerificationOptions::default().with_pinned_certificate(b"not a cert".to_vec());
    let report = es3::verify_str(&xml, options);
    let signatures = report.signatures.as_ref().unwrap();

    assert!(signatures.errors.iter().any(|finding| {
        finding.kind == es3::SignatureFindingKind::TrustError
            && finding.message.starts_with("failed to load pinned certificate: invalid DER certificate: ")
    }));
    assert_eq!(report.validation.trust, ValidationLayerStatus::Failed);
}

#[test]
fn document_scope_checks_only_document_signatures() {
    let xml = dossier_xml(&[("A", BASE64, "SGVsbG8=")])
        .replace("</ds:Object>\n    </es:Document>", "</ds:Object>\n      <ds:Signature Id=\"Inner\"/>\n    </es:Document>")
        .replace("</es:Dossier>", "  <ds:Signature Id=\"Frame\"/>\n</es:Dossier>");
    let dossier = xml.parse::<Dossier>().unwrap();
    let report = dossier.verify(VerificationOptions::default().with_signature_scope(SignatureScope::Document));
    let signatures = report.signatures.as_ref().unwrap();

    assert_eq!(signatures.signature_count, 1);
    assert_eq!(signatures.signatures[0].scope, SignatureScope::Document);
    assert_eq!(signatures.signatures[0].id.as_deref(), Some("Inner"));
}
