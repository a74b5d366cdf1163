use es3::Dossier;
use es3::web::{document_rows, extract_for_download, parse_file};

#[test]
fn document_rows_include_download_metadata() {
    let xml = xml_with_transform("Invoice / 1", &["base64"]);
    let dossier = xml.parse::<Dossier>().unwrap();

    let rows = document_rows(&dossier);

    assert_eq!(rows.len(), 1);
    assert_eq!(rows[0].title, "Invoice / 1");
    assert_eq!(rows[0].filename, "Invoice _ 1.txt");
    assert_eq!(rows[0].mime_type, "text/plain");
    assert_eq!(rows[0].transforms, "base64");
    assert!(rows[0].can_download);
    assert_eq!(rows[0].unavailable_reason, None);
    assert_eq!(rows[0].unavailable_reason_code, None);

    let entry = dossier.documents().remove(0);
    assert_eq!(rows[0].can_download, entry.can_extract());
}

#[test]
fn encrypted_documents_are_visible_but_disabled() {
    let xml = xml_with_transform("Secret", &["encrypt", "base64"]);
    let dossier = xml.parse::<Dossier>().unwrap();

    let rows = document_rows(&dossier);

    assert_eq!(rows[0].title, "Secret");
    assert!(!rows[0].can_download);
    assert_eq!(
        rows[0].unavailable_reason.as_deref(),
        Some(es3::ExtractionUnavailableReason::EncryptedDocument.message())
    );
    assert_eq!(
        rows[0].unavailable_reason_code,
        Some(es3::ExtractionUnavailableReason::EncryptedDocument)
    );
}

#[test]
fn parse_file_builds_loaded_state_without_persistence() {
    let xml = xml_with_transform("Invoice", &["base64"]);

    let loaded = parse_file("sample.es3".to_owned(), &xml).unwrap();

    assert_eq!(loaded.file_name, "sample.es3");
    assert_eq!(loaded.rows.len(), 1);
    assert_eq!(loaded.report.document_count, 1);
}

#[test]
fn extract_for_download_returns_filename_and_bytes() {
    let xml = xml_with_transform("Invoice", &["base64"]);
    let loaded = parse_file("sample.es3".to_owned(), &xml).unwrap();

    let file = extract_for_download(&loaded, 0).unwrap();

    assert_eq!(file.filename, "Invoice.txt");
    assert_eq!(file.bytes, b"Hello world");
}


fn xml_with_document(title: &str, payload: &str, transforms: &[&str]) -> String {
    let transform_xml = transforms
        .iter()
        .map(|algorithm| format!("<es:Transform Algorithm=\"{algorithm}\"/>"))
        .collect::<String>();

    format!(
        r##"<es:Dossier xmlns:es="https://www.microsec.hu/ds/e-szigno30#" xmlns:ds="http://www.w3.org/2000/09/xmldsig#">
  <es:DossierProfile Id="Profile0" OBJREF="#Object0"><es:Title>Dossier</es:Title><es:CreationDate>2026-05-16T00:00:00Z</es:CreationDate></es:DossierProfile>
  <es:Documents Id="Object0">
    <es:Document>
      <es:DocumentProfile Id="Profile1" OBJREF="#Payload1">
        <es:Title>{title}</es:Title>
        <es:CreationDate>2026-05-16T00:00:00Z</es:CreationDate>
        <es:Format><es:MIME-Type type="text" subtype="plain" extension="txt"/></es:Format>
        <es:SourceSize sizeValue="11" sizeUnit="B"/>
        <es:BaseTransform>{transform_xml}</es:BaseTransform>
      </es:DocumentProfile>
      <ds:Object Id="Payload1">{payload}</ds:Object>
    </es:Document>
  </es:Documents>
</es:Dossier>"##
    )
}

fn xml_with_transform(title: &str, transforms: &[&str]) -> String {
    xml_with_document(title, "SGVsbG8gd29ybGQ=", transforms)
}

#[allow(dead_code)]
fn xml_with_two_documents() -> String {
    r##"<es:Dossier xmlns:es="https://www.microsec.hu/ds/e-szigno30#" xmlns:ds="http://www.w3.org/2000/09/xmldsig#">
  <es:DossierProfile Id="Profile0" OBJREF="#Object0"><es:Title>Dossier</es:Title><es:CreationDate>2026-05-16T00:00:00Z</es:CreationDate></es:DossierProfile>
  <es:Documents Id="Object0">
    <es:Document>
      <es:DocumentProfile Id="Profile1" OBJREF="#Payload1">
        <es:Title>Plain</es:Title>
        <es:CreationDate>2026-05-16T00:00:00Z</es:CreationDate>
        <es:Format><es:MIME-Type type="text" subtype="plain" extension="txt"/></es:Format>
        <es:SourceSize sizeValue="11" sizeUnit="B"/>
        <es:BaseTransform><es:Transform Algorithm="base64"/></es:BaseTransform>
      </es:DocumentProfile>
      <ds:Object Id="Payload1">SGVsbG8gd29ybGQ=</ds:Object>
    </es:Document>
    <es:Document>
      <es:DocumentProfile Id="Profile2" OBJREF="#Payload2">
        <es:Title>Secret</es:Title>
        <es:CreationDate>2026-05-16T00:00:00Z</es:CreationDate>
        <es:Format><es:MIME-Type type="text" subtype="plain" extension="txt"/></es:Format>
        <es:SourceSize sizeValue="11" sizeUnit="B"/>
        <es:BaseTransform><es:Transform Algorithm="encrypt"/><es:Transform Algorithm="base64"/></es:BaseTransform>
      </es:DocumentProfile>
      <ds:Object Id="Payload2">SGVsbG8gd29ybGQ=</ds:Object>
    </es:Document>
  </es:Documents>
</es:Dossier>"##
        .to_owned()
}
