use es3::parsed::ParsedDossier;

fn parse(xml: &str) -> ParsedDossier {
    xml.parse().unwrap()
}

#[test]
fn parsed_dossier_collects_document_facts_without_validating() {
    let dossier = parse(
        r##"<es:Dossier xmlns:es="urn:test" xmlns:ds="http://www.w3.org/2000/09/xmldsig#">
  <es:Documents>
    <es:Document>
      <es:DocumentProfile>
        <es:Title>Invoice</es:Title>
        <es:Format><es:MIME-Type type="text" subtype="plain"/></es:Format>
        <es:SourceSize sizeValue="11"/>
        <es:BaseTransform><es:Transform Algorithm="base64"/></es:BaseTransform>
      </es:DocumentProfile>
      <ds:Object>SGVsbG8=</ds:Object>
      <ds:Signature/>
      <es:TimeStamp/>
    </es:Document>
  </es:Documents>
  <ds:Signature/>
  <es:TimeStamp/>
</es:Dossier>"##,
    );

    assert!(dossier.root_valid);
    assert!(dossier.documents_present);
    assert_eq!(dossier.documents.len(), 1);
    assert_eq!(dossier.documents[0].signature_count, 1);
    assert_eq!(dossier.documents[0].timestamp_count, 1);
    assert_eq!(dossier.dossier_signature_count, 1);
    assert_eq!(dossier.dossier_timestamp_count, 1);
}
