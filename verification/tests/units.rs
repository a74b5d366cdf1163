use es3::cli::{
    cli_candidate_name, finding_message, list_line, safe_leaf_filename, signature_scope_label,
    split_extension, structure_report_lines, transform_list, validation_status,
    verification_report_lines, CliSignatureSelection, DirectoryOutput,
};
use es3::cli::{temp_write_step, TempWriteAction, TempWriteEvent};
use es3::web::{
    browser_download_all_notice, download_counts, join_failures, request_browser_downloads,
    success_or_failures_message, BrowserDownloadNotice, DownloadFile,
};
use es3::{Dossier, SignatureScope, Transform, ValidationLayerStatus, VerificationOptions};

fn sample_xml(title: &str) -> String {
    format!(
        r##"<es:Dossier xmlns:es="https://www.microsec.hu/ds/e-szigno30#" xmlns:ds="http://www.w3.org/2000/09/xmldsig#">
  <es:Documents Id="Object0">
    <es:Document>
      <es:DocumentProfile Id="Profile1" OBJREF="#Payload1">
        <es:Title>{title}</es:Title>
        <es:Format><es:MIME-Type type="text" subtype="plain" extension="txt"/></es:Format>
        <es:SourceSize sizeValue="11" sizeUnit="B"/>
        <es:BaseTransform><es:Transform Algorithm="base64"/></es:BaseTransform>
      </es:DocumentProfile>
      <ds:Object Id="Payload1">SGVsbG8gd29ybGQ=</ds:Object>
    </es:Document>
  </es:Documents>
</es:Dossier>"##
    )
}

#[test]
fn hex_and_fingerprint_have_known_values() {
    assert_eq!(es3::certs::hex_lower(&[0x00, 0x0f, 0xa0, 0xff]), "000fa0ff");
    assert_eq!(
        es3::certs::sha256_fingerprint(b"abc"),
        "ba7816bf8f01cfea414140de5dae2223b00361a396177a9cb410ff61f20015ad"
    );
}

#[test]
fn garbage_is_no_certificate() {
    assert_eq!(es3::certs::key_usage(b"not a certificate"), Vec::<String>::new());
    assert_eq!(es3::certs::extended_key_usage(b"not a certificate"), Vec::<String>::new());
    assert!(es3::signature::signer_certificate_report(b"not a certificate").is_none());
    assert!(es3::signature::certificate_key_algorithm(b"not a certificate").is_none());

    let der = es3::signature::certificate_der_values(b"not a certificate").unwrap_err();
    assert!(der.starts_with("invalid DER certificate: "), "{der}");
    let pem = es3::signature::certificate_der_values(b"-----BEGIN CERTIFICATE-----\nnot base64\n-----END CERTIFICATE-----\n")
        .unwrap_err();
    assert!(pem.starts_with("invalid PEM certificate: "), "{pem}");
}

#[test]
fn a_later_signature_is_moved_behind_the_root_start_tag() {
    let xml = "<r><a/><ds:Signature xmlns:ds=\"http://www.w3.org/2000/09/xmldsig#\" Id=\"One\"/><ds:Signature xmlns:ds=\"http://www.w3.org/2000/09/xmldsig#\" Id=\"Two\"/></r>";
    let tree = es3::xml::parse_xml_document(xml).unwrap();
    let signatures = es3::signature::signature_targets(&tree, SignatureScope::All);
    assert_eq!(signatures.len(), 2);

    let first = es3::signature::signature_verification_xml(xml, &tree, signatures[0].node).unwrap();
    assert_eq!(first, xml);

    let second = es3::signature::signature_verification_xml(xml, &tree, signatures[1].node).unwrap();
    assert_eq!(
        second,
        "<r><ds:Signature xmlns:ds=\"http://www.w3.org/2000/09/xmldsig#\" Id=\"Two\"/><a/><ds:Signature xmlns:ds=\"http://www.w3.org/2000/09/xmldsig#\" Id=\"One\"/></r>"
    );
}

#[test]
fn signature_scopes_follow_the_tree() {
    let xml = "<es:Dossier xmlns:es=\"urn:x\" xmlns:ds=\"http://www.w3.org/2000/09/xmldsig#\"><es:Documents><es:Document><ds:Signature Id=\"D\"/></es:Document></es:Documents><ds:Signature Id=\"F\"/><es:Other><ds:Signature Id=\"N\"/></es:Other></es:Dossier>";
    let tree = es3::xml::parse_xml_document(xml).unwrap();

    let all = es3::signature::signature_targets(&tree, SignatureScope::All);
    assert_eq!(all.len(), 2);
    assert_eq!(all[0].scope, SignatureScope::Document);
    assert_eq!(all[1].scope, SignatureScope::Dossier);

    let dossier = es3::signature::signature_targets(&tree, SignatureScope::Dossier);
    assert_eq!(dossier.len(), 1);
    assert_eq!(tree.attribute(dossier[0].node, "Id").as_deref(), Some("F"));
}

#[test]
fn file_names_for_extraction() {
    assert_eq!(safe_leaf_filename("dir/report.pdf", "document"), "report.pdf");
    assert_eq!(safe_leaf_filename("", "document"), "document");
    assert_eq!(safe_leaf_filename("..", "document"), "document");

    assert_eq!(split_extension("archive.tar.gz", "document"), ("archive.tar".to_owned(), Some("gz".to_owned())));
    assert_eq!(split_extension(".bashrc", "document"), (".bashrc".to_owned(), None));
    assert_eq!(split_extension("README", "document"), ("README".to_owned(), None));
    assert_eq!(split_extension("", "document"), ("document".to_owned(), None));

    assert_eq!(cli_candidate_name("a.txt", "a", Some("txt"), 0), "a.txt");
    assert_eq!(cli_candidate_name("a.txt", "a", Some("txt"), 1), "a-2.txt");
    assert_eq!(cli_candidate_name("a", "a", None, 9), "a-10");
}

#[test]
fn repeated_names_get_numbered_paths() {
    let mut output = DirectoryOutput::new("out".to_owned(), false);

    assert_eq!(output.next_path("doc.txt"), "out/doc.txt");
    assert_eq!(output.next_path("doc.txt"), "out/doc-2.txt");
    assert_eq!(output.next_path("sub/doc.txt"), "out/doc-3.txt");
    assert_eq!(output.next_path(""), "out/document");
}

#[test]
fn labels_of_the_command_line() {
    assert_eq!(signature_scope_label(SignatureScope::Dossier), "dossier-level signature");
    assert_eq!(signature_scope_label(SignatureScope::Document), "embedded-document signature");
    assert_eq!(validation_status(ValidationLayerStatus::NotChecked), "not checked");
    assert_eq!(finding_message(Some(2), "bad"), "document 2: bad");
    assert_eq!(finding_message(None, "bad"), "bad");
    assert_eq!(transform_list(&[]), "-");
    assert_eq!(transform_list(&[Transform::Zip, Transform::Base64]), "zip,base64");
    assert_eq!(es3::web::transform_list(&[Transform::Zip, Transform::Base64]), "zip, base64");
    assert_eq!(CliSignatureSelection::Documents.scope(), SignatureScope::Document);
    assert_eq!(Transform::Encrypt.to_string(), "encrypt");
}

#[test]
fn listing_rows_quote_texts_as_json() {
    let dossier = sample_xml("Say \"hi\"").parse::<Dossier>().unwrap();
    let entry = &dossier.documents()[0];

    assert_eq!(
        list_line(entry),
        "0\t\"Say \\\"hi\\\"\"\t\"text/plain\"\t11\tbase64\t\"available\"\t0\t0"
    );
}

#[test]
fn report_lines_of_the_command_line() {
    let report = es3::verify_structure_str("<not-es3/>");
    let lines = structure_report_lines(&report);
    assert_eq!(lines[0], "ES3 structural verification report (not cryptographic)");
    assert_eq!(lines[1], "documents: 0");
    assert_eq!(lines[6], "errors:");
    assert_eq!(lines[7], "- root element must be es:Dossier in the ES3 namespace");
    assert_eq!(lines[8], "warnings: none");

    let xml = sample_xml("A").replace("</es:Dossier>", "<ds:Signature Id=\"F\"/></es:Dossier>");
    let report = es3::verify_str(&xml, VerificationOptions::default());
    let lines = verification_report_lines(&report);
    assert_eq!(lines[0], "ES3 verification report");
    assert_eq!(lines[1], "structural: passed");
    assert_eq!(lines[2], "cryptographic: failed");
    assert_eq!(lines[3], "trust: not checked");
    assert_eq!(lines[7], "checked signatures: 1");
    assert_eq!(lines[8], "- dossier-level signature F: signature_value=invalid, trust=failed");
    assert!(lines.iter().any(|line| line.starts_with("- F: Bergshamra XMLDSIG verification failed: ")));
}

#[test]
fn web_messages_and_decisions() {
    assert_eq!(es3::web::load_decision(3, 3), es3::web::LoadDecision::Current);
    assert_eq!(es3::web::load_decision(3, 2), es3::web::LoadDecision::Stale);
    assert_eq!(es3::web::extraction_failure("A", "bad"), "A: bad");
    assert_eq!(es3::web::download_failure("a.txt", "bad"), "a.txt: bad");
    assert_eq!(
        es3::web::no_supported_files_notice(&["A: bad".to_owned(), "B: worse".to_owned()]),
        "A: bad; B: worse"
    );
}

#[test]
fn errors_have_their_messages() {
    let error = Dossier::from_bytes(&[0xff]).unwrap_err();
    assert!(matches!(error, es3::Error::Utf8 { .. }));
    assert!(error.to_string().starts_with("ES3 XML is not valid UTF-8: "));

    let error = "<a>".parse::<Dossier>().unwrap_err();
    assert!(error.to_string().starts_with("failed to parse XML: "));

    let error = "zip2".parse::<Transform>().unwrap_err();
    assert_eq!(error.to_string(), "unknown transform algorithm zip2");

    let report = es3::verify_structure_str(&sample_xml("A").replace("sizeValue=\"11\"", "sizeValue=\"eleven\""));
    assert_eq!(
        report.errors[0].message,
        "invalid integer in Document[0]/DocumentProfile/SourceSize/@sizeValue: eleven"
    );
}

#[test]
fn validation_error_keeps_its_report() {
    let parsed = "<not-es3/>".parse::<es3::parsed::ParsedDossier>().unwrap();
    let error = parsed.validate().unwrap_err();

    assert_eq!(error.to_string(), "root element must be es:Dossier in the ES3 namespace");
    assert_eq!(error.report(), &parsed.structure_report());
    assert_eq!(error.to_error().to_string(), "root element must be es:Dossier in the ES3 namespace");
    assert_eq!(error.into_report().errors.len(), 1);
}

#[test]
fn options_describe_counts_only() {
    let options = VerificationOptions::without_signatures()
        .with_signature_scope(SignatureScope::All)
        .with_trusted_anchor_certificate(vec![1, 2, 3]);

    assert_eq!(
        options.debug_string(),
        "VerificationOptions { verify_signatures: false, signature_scope: All, pinned_certificates: 0, trusted_anchor_certificates: 1 }"
    );
}

#[test]
fn control_characters_are_escaped_as_serde_json_does() {
    let dossier = sample_xml("a&#9;b\\c").parse::<Dossier>().unwrap();
    let entry = &dossier.documents()[0];
    let line = list_line(entry);
    let title_column = line.split('\t').nth(1).unwrap();
    assert_eq!(title_column, serde_json::to_string("a\tb\\c").unwrap());
    assert_eq!(title_column, "\"a\\tb\\\\c\"");
}

#[test]
fn temporary_names_and_steps() {
    assert_eq!(es3::cli::temp_file_name(Some("a.txt"), 42, 3), ".a.txt.42.3.tmp");
    assert_eq!(es3::cli::temp_file_name(None, 7, 0), ".extract.7.0.tmp");
    assert_eq!(temp_write_step(0, TempWriteEvent::Created), TempWriteAction::WriteAndRename);
    assert_eq!(temp_write_step(5, TempWriteEvent::AlreadyExists), TempWriteAction::Retry { attempt: 6 });
    assert_eq!(temp_write_step(999, TempWriteEvent::AlreadyExists), TempWriteAction::Exhausted);
    assert_eq!(temp_write_step(3, TempWriteEvent::Failed), TempWriteAction::FailAtTemporary);
}

#[test]
fn browser_download_helpers() {
    assert_eq!(join_failures(&["a".to_owned(), "b".to_owned()]), "a; b");
    assert_eq!(join_failures(&[]), "");
    assert_eq!(success_or_failures_message(2, "ok".to_owned(), vec![]), "ok");
    assert_eq!(success_or_failures_message(0, "ok".to_owned(), vec!["x: e".to_owned()]), "x: e");
    assert_eq!(
        success_or_failures_message(1, "ok".to_owned(), vec!["x: e".to_owned(), "y: f".to_owned()]),
        "ok x: e; y: f"
    );
    assert_eq!(browser_download_all_notice(2, 2, vec![]), BrowserDownloadNotice::AllRequested);
    assert_eq!(
        browser_download_all_notice(2, 1, vec![]),
        BrowserDownloadNotice::Partial { requested_count: 1, failures: vec![] }
    );
    let files = vec![DownloadFile { filename: "a.txt".to_owned(), bytes: b"hi".to_vec() }];
    assert_eq!(
        request_browser_downloads(files, vec!["b.txt: bad".to_owned()]),
        BrowserDownloadNotice::Partial {
            requested_count: 0,
            failures: vec!["b.txt: bad".to_owned(), "a.txt: downloads require the wasm web build".to_owned()],
        }
    );
    assert_eq!(request_browser_downloads(vec![], vec![]), BrowserDownloadNotice::AllRequested);

    let dossier = sample_xml("Plain").parse::<Dossier>().unwrap();
    let rows = es3::web::document_rows(&dossier);
    assert_eq!(download_counts(&rows), (1, 0));
}
