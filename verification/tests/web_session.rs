use es3::web::{DownloadAllCandidate, DownloadAllDecision, DownloadFile};

#[test]
fn supported_download_plan_uses_loaded_dossier_session_interface() {
    let loaded =
        es3::web::parse_file("sample.es3".to_owned(), &xml_with_two_documents()).unwrap();

    let candidates = es3::web::plan_download_all(&loaded);

    assert_eq!(
        candidates,
        vec![DownloadAllCandidate {
            index: 0,
            title: "Plain".to_owned()
        }]
    );
}

#[test]
fn download_all_decision_preserves_partial_extraction_failures() {
    let decision = es3::web::download_all_decision(
        vec![DownloadFile {
            filename: "Plain.txt".to_owned(),
            bytes: b"Hello world".to_vec(),
        }],
        vec!["Broken: invalid base64 payload: Invalid padding".to_owned()],
    );

    assert_eq!(
        decision,
        DownloadAllDecision::RequestDownloads {
            files: vec![DownloadFile {
                filename: "Plain.txt".to_owned(),
                bytes: b"Hello world".to_vec(),
            }],
            failures: vec!["Broken: invalid base64 payload: Invalid padding".to_owned()],
        }
    );
}

#[test]
fn parse_file_rejects_invalid_base64_before_download_planning() {
    let error = es3::web::parse_file(
        "bad.es3".to_owned(),
        &xml_with_document("Broken", "not valid base64", &["base64"]),
    )
    .unwrap_err();

    assert!(
        error.contains("invalid base64 payload"),
        "expected base64 validation error, got {error}"
    );
}

#[test]
fn unsupported_documents_report_no_supported_files_through_loaded_session() {
    let loaded = es3::web::parse_file(
        "encrypted.es3".to_owned(),
        &xml_with_document("Secret", "SGVsbG8gd29ybGQ=", &["encrypt", "base64"]),
    )
    .unwrap();

    let decision = es3::web::extract_all_supported(&loaded);

    assert_eq!(
        decision,
        DownloadAllDecision::NoSupportedFiles {
            notice: "No supported files are available to download.".to_owned()
        }
    );
}


fn xml_with_document(title: &str, payload: &str, transforms: &[&str]) -> String {
    let transform_xml = transforms
        .iter()
        .map(|algorithm| format!("<es:Transform Algorithm=\"{algorithm}\"/>"))
        .collect::<String>();

    format!(
        r##"<es:Dossier xmlns:es="https://www.microsec.hu/ds/e-szigno30#" xmlns:ds="http://www.w3.org/2000/09/xmldsig#">
  <es:DossierProfile Id="Profile0" OBJREF="#Object0"><es:Title>Dossier</es:Title><es:CreationDate>2026-05-16T00:00:00Z</es:CreationDate></es:DossierProfile>
  <es:Documents Id="Object0">
    <es:Document>
      <es:DocumentProfile Id="Profile1" OBJREF="#Payload1">
        <es:Title>{title}</es:Title>
        <es:CreationDate>2026-05-16T00:00:00Z</es:CreationDate>
        <es:Format><es:MIME-Type type="text" subtype="plain" extension="txt"/></es:Format>
        <es:SourceSize sizeValue="11" sizeUnit="B"/>
        <es:BaseTransform>{transform_xml}</es:BaseTransform>
      </es:DocumentProfile>
      <ds:Object Id="Payload1">{payload}</ds:Object>
    </es:Document>
  </es:Documents>
</es:Dossier>"##
    )
}

#[allow(dead_code)]
fn xml_with_transform(title: &str, transforms: &[&str]) -> String {
    xml_with_document(title, "SGVsbG8gd29ybGQ=", transforms)
}

fn xml_with_two_documents() -> String {
    r##"<es:Dossier xmlns:es="https://www.microsec.hu/ds/e-szigno30#" xmlns:ds="http://www.w3.org/2000/09/xmldsig#">
  <es:DossierProfile Id="Profile0" OBJREF="#Object0"><es:Title>Dossier</es:Title><es:CreationDate>2026-05-16T00:00:00Z</es:CreationDate></es:DossierProfile>
  <es:Documents Id="Object0">
    <es:Document>
      <es:DocumentProfile Id="Profile1" OBJREF="#Payload1">
        <es:Title>Plain</es:Title>
        <es:CreationDate>2026-05-16T00:00:00Z</es:CreationDate>
        <es:Format><es:MIME-Type type="text" subtype="plain" extension="txt"/></es:Format>
        <es:SourceSize sizeValue="11" sizeUnit="B"/>
        <es:BaseTransform><es:Transform Algorithm="base64"/></es:BaseTransform>
      </es:DocumentProfile>
      <ds:Object Id="Payload1">SGVsbG8gd29ybGQ=</ds:Object>
    </es:Document>
    <es:Document>
      <es:DocumentProfile Id="Profile2" OBJREF="#Payload2">
        <es:Title>Secret</es:Title>
        <es:CreationDate>2026-05-16T00:00:00Z</es:CreationDate>
        <es:Format><es:MIME-Type type="text" subtype="plain" extension="txt"/></es:Format>
        <es:SourceSize sizeValue="11" sizeUnit="B"/>
        <es:BaseTransform><es:Transform Algorithm="encrypt"/><es:Transform Algorithm="base64"/></es:BaseTransform>
      </es:DocumentProfile>
      <ds:Object Id="Payload2">SGVsbG8gd29ybGQ=</ds:Object>
    </es:Document>
  </es:Documents>
</es:Dossier>"##
        .to_owned()
}
