//! A validated dossier: its documents, ready to list, extract and verify.
use vstd::prelude::*;
use crate::codec::utf8_str;
use crate::document::{
    spec_capability_from_chain, DocumentEntry, DocumentEntryView, ExtractedDocument, ExtractedDocumentView,
    ExtractionCapability,
};
use crate::error::{Error, ErrorView};
use crate::output::spec_filename_from_parts;
use crate::parsed::{
    msgs_view, parsed_bounded, spec_document_messages, spec_document_transforms,
    spec_dossier_messages, spec_parse_dossier, spec_parse_u64, ParsedDocument, ParsedDocumentView,
    ParsedDossier, ParsedDossierView, PayloadTextView, SourceSizeView, ValidationMessage,
    ValidationMessageView, ValidationSeverity,
};
use crate::transform::{spec_decode_payload, Transform, TransformChain};
use crate::verify::{
    error_findings, findings_of, is_error_message, is_warning_message, report_validation_messages,
    spec_report_error, spec_structure_report, spec_verify_structure_str, validation_failure_message,
    warning_findings, DossierValidationError, FindingView, StructureReport, StructureReportView,
    document_signature_total, document_timestamp_total,
};
use crate::xml::{spec_parse_xml_document, XML_PARSE_NODE_LIMIT};

verus! {

broadcast use vstd::string::group_string_axioms;

/// Whether none of the messages is an error.
pub open spec fn no_errors(messages: Seq<ValidationMessageView>) -> bool {
    forall|j: int| 0 <= j < messages.len() ==> (#[trigger] messages[j]).severity == ValidationSeverity::Warning
}

/// A stored document as plain values.
pub struct StoredDocumentView {
    pub entry: DocumentEntryView,
    pub payload_text: Seq<char>,
    pub transforms: Seq<Transform>,
    pub warnings: Seq<ValidationMessageView>,
}

/// A validated document: its entry, its payload text, its transform chain
/// and the warnings that validation left.
#[derive(Debug)]
pub struct StoredDocument {
    entry: DocumentEntry,
    payload_text: String,
    transform_chain: TransformChain,
    structural_warnings: Vec<ValidationMessage>,
}

impl View for StoredDocument {
    type V = StoredDocumentView;

    closed spec fn view(&self) -> StoredDocumentView {
        StoredDocumentView {
            entry: self.entry@,
            payload_text: self.payload_text@,
            transforms: self.transform_chain@,
            warnings: msgs_view(self.structural_warnings@),
        }
    }
}

/// The stored document that a parsed document without errors becomes.
pub open spec fn spec_stored_document(d: ParsedDocumentView) -> StoredDocumentView {
    let p = d.profiles[0];
    let transforms = spec_document_transforms(d);
    StoredDocumentView {
        entry: DocumentEntryView {
            index: d.index,
            title: p.title->Some_0,
            mime_type: p.mime_type->Some_0,
            source_size: spec_parse_u64(p.source_size->Present_0)->Some_0,
            transforms,
            extraction: spec_capability_from_chain(transforms),
            signature_count: d.signature_count,
            timestamp_count: d.timestamp_count,
        },
        payload_text: d.payloads[0]->Text_0,
        transforms,
        warnings: spec_document_messages(d).filter(is_warning_message()),
    }
}

/// A concatenation has no error when neither part has one.
proof fn lemma_no_errors_split(a: Seq<ValidationMessageView>, b: Seq<ValidationMessageView>)
    requires
        no_errors(a + b),
    ensures
        no_errors(a),
        no_errors(b),
{
    assert forall|j: int| 0 <= j < a.len() implies (#[trigger] a[j]).severity == ValidationSeverity::Warning by {
        assert((a + b)[j] == a[j]);
    }
    assert forall|j: int| 0 <= j < b.len() implies (#[trigger] b[j]).severity == ValidationSeverity::Warning by {
        assert((a + b)[a.len() + j] == b[j]);
    }
}

/// A single error is not free of errors.
proof fn lemma_single_error(m: ValidationMessageView)
    requires
        m.severity == ValidationSeverity::Error,
    ensures
        !no_errors(seq![m]),
{
    assert(seq![m][0] == m);
}

/// What a document without errors is known to hold: one profile with every
/// required field, one payload within the limit, a valid chain.
proof fn lemma_valid_document(d: ParsedDocumentView)
    requires
        no_errors(spec_document_messages(d)),
    ensures
        d.profiles.len() == 1,
        d.payloads.len() == 1,
        d.profiles[0].title is Some,
        d.profiles[0].mime_type is Some,
        d.profiles[0].source_size is Present,
        spec_parse_u64(d.profiles[0].source_size->Present_0) is Some,
        d.payloads[0] is Text,
        crate::transform::spec_valid_chain(spec_document_transforms(d)),
{
    let m1 = crate::parsed::profile_count_messages(d);
    let m2 = crate::parsed::payload_count_messages(d);
    let m3 = crate::parsed::profile_field_messages(d);
    let m4 = crate::parsed::profile_transform_messages(d);
    let m5 = crate::parsed::empty_base_messages(d);
    let m6 = crate::parsed::chain_messages(d);
    let m7 = crate::parsed::payload_size_messages(d);
    let m8 = crate::parsed::payload_issue_messages(d);
    lemma_no_errors_split(m1 + m2 + m3 + m4 + m5 + m6 + m7, m8);
    lemma_no_errors_split(m1 + m2 + m3 + m4 + m5 + m6, m7);
    lemma_no_errors_split(m1 + m2 + m3 + m4 + m5, m6);
    lemma_no_errors_split(m1 + m2 + m3 + m4, m5);
    lemma_no_errors_split(m1 + m2 + m3, m4);
    lemma_no_errors_split(m1 + m2, m3);
    lemma_no_errors_split(m1, m2);
    if d.profiles.len() != 1 {
        lemma_single_error(m1[0]);
        assert(m1 =~= seq![m1[0]]);
    }
    if d.payloads.len() != 1 {
        lemma_single_error(m2[0]);
        assert(m2 =~= seq![m2[0]]);
    }
    if !crate::transform::spec_valid_chain(spec_document_transforms(d)) {
        lemma_single_error(m6[0]);
        assert(m6 =~= seq![m6[0]]);
    }
    if d.payloads[0] is TooLarge {
        lemma_single_error(m7[0]);
        assert(m7 =~= seq![m7[0]]);
    }
    let p = d.profiles[0];
    let i = p.index;
    let title = if p.title is None {
        seq![crate::parsed::spec_missing(i, "DocumentProfile/Title"@)]
    } else {
        Seq::empty()
    };
    let size = match p.source_size {
        SourceSizeView::MissingElement => seq![crate::parsed::spec_missing(i, "DocumentProfile/SourceSize"@)],
        SourceSizeView::MissingAttribute => seq![crate::parsed::spec_missing(i, "DocumentProfile/SourceSize/@sizeValue"@)],
        SourceSizeView::Present(v) => if spec_parse_u64(v) is None {
            seq![
                crate::parsed::error_msg(
                    Some(i),
                    ErrorView::InvalidInteger {
                        field: crate::parsed::spec_profile_path(i, "DocumentProfile/SourceSize/@sizeValue"@),
                        value: v,
                    }.message(),
                ),
            ]
        } else {
            Seq::empty()
        },
    };
    let format = if !p.format_present {
        seq![crate::parsed::spec_missing(i, "DocumentProfile/Format"@)]
    } else if p.mime_type is None {
        seq![crate::parsed::spec_missing(i, "DocumentProfile/Format/MIME-Type"@)]
    } else {
        Seq::empty()
    };
    let base = if !p.base_transform_present {
        seq![crate::parsed::spec_missing(i, "DocumentProfile/BaseTransform"@)]
    } else {
        Seq::empty()
    };
    assert(m3 == title + size + format + base);
    lemma_no_errors_split(title + size + format, base);
    lemma_no_errors_split(title + size, format);
    lemma_no_errors_split(title, size);
    if p.title is None {
        lemma_single_error(title[0]);
        assert(title =~= seq![title[0]]);
    }
    if !(p.source_size is Present) || spec_parse_u64(p.source_size->Present_0) is None {
        lemma_single_error(size[0]);
        assert(size =~= seq![size[0]]);
    }
    if p.mime_type is None {
        lemma_single_error(format[0]);
        assert(format =~= seq![format[0]]);
    }
}

impl StoredDocument {
    /// The stored document that a parsed document without errors becomes.
    pub fn from_parsed(document: &ParsedDocument) -> (res: StoredDocument)
        requires
            no_errors(spec_document_messages(document@)),
        ensures
            res@ == spec_stored_document(document@),
    {
        let ghost d = document@;
        proof {
            lemma_valid_document(d);
            assert(d.profiles[0] == document.profiles@[0]@);
            assert(d.payloads[0] == document.payloads@[0]@);
        }
        let profile = &document.profiles[0];
        let title = profile.title().unwrap().to_owned();
        let mime_type = profile.mime_type().unwrap().clone();
        let source_size = profile.source_size().unwrap();
        let payload_text = document.payload_text().unwrap().to_owned();
        let transforms = document.valid_transforms();
        let transform_chain = TransformChain::from_transforms(transforms.as_slice()).unwrap();
        let extraction = ExtractionCapability::from_chain(&transform_chain);
        let messages = document.validation_messages();
        let structural_warnings = warnings_of(messages.as_slice());
        let entry = DocumentEntry::new(
            document.index,
            title,
            mime_type,
            source_size,
            transforms,
            extraction,
            document.signature_count,
            document.timestamp_count,
        );
        StoredDocument { entry, payload_text, transform_chain, structural_warnings }
    }

    /// The document's entry.
    pub fn entry(&self) -> (res: &DocumentEntry)
        ensures
            res@ == self@.entry,
    {
        &self.entry
    }
}

/// The warnings among a list of messages, in order.
fn warnings_of(messages: &[ValidationMessage]) -> (res: Vec<ValidationMessage>)
    ensures
        msgs_view(res@) == msgs_view(messages@).filter(is_warning_message()),
{
    let ghost all = msgs_view(messages@);
    let mut warnings: Vec<ValidationMessage> = Vec::new();
    proof {
        crate::seqs::lemma_filter_empty(all.take(0), is_warning_message());
        assert(msgs_view(warnings@) =~= all.take(0).filter(is_warning_message()));
    }
    let mut k: usize = 0;
    while k < messages.len()
        invariant
            k <= messages@.len(),
            all == msgs_view(messages@),
            msgs_view(warnings@) == all.take(k as int).filter(is_warning_message()),
        decreases messages@.len() - k,
    {
        let message = &messages[k];
        proof {
            assert(message@ == all[k as int]);
            crate::seqs::lemma_filter_take_succ(all, k as int, is_warning_message());
        }
        if message.severity == ValidationSeverity::Warning {
            let copy = ValidationMessage {
                document_index: message.document_index,
                severity: message.severity,
                message: message.message.clone(),
            };
            proof {
                crate::parsed::lemma_msgs_push(warnings@, copy);
            }
            warnings.push(copy);
        }
        k = k + 1;
    }
    proof {
        assert(all.take(k as int) =~= all);
    }
    warnings
}

/// The views of stored documents.
pub open spec fn stored_view(documents: Seq<StoredDocument>) -> Seq<StoredDocumentView> {
    documents.map_values(|d: StoredDocument| d@)
}

/// A dossier as plain values.
pub struct DossierView {
    pub source_xml: Seq<char>,
    pub documents: Seq<StoredDocumentView>,
    pub dossier_signature_count: usize,
    pub dossier_timestamp_count: usize,
}

/// A dossier that passed structural validation.
#[derive(Debug)]
pub struct Dossier {
    source_xml: String,
    documents: Vec<StoredDocument>,
    dossier_signature_count: usize,
    dossier_timestamp_count: usize,
}

impl View for Dossier {
    type V = DossierView;

    closed spec fn view(&self) -> DossierView {
        DossierView {
            source_xml: self.source_xml@,
            documents: stored_view(self.documents@),
            dossier_signature_count: self.dossier_signature_count,
            dossier_timestamp_count: self.dossier_timestamp_count,
        }
    }
}

/// What every dossier keeps: each document's index is its position, and
/// every count is within the parser's node limit.
pub open spec fn dossier_wf(d: DossierView) -> bool {
    &&& d.documents.len() <= XML_PARSE_NODE_LIMIT
    &&& d.dossier_signature_count <= XML_PARSE_NODE_LIMIT
    &&& d.dossier_timestamp_count <= XML_PARSE_NODE_LIMIT
    &&& forall|i: int|
        0 <= i < d.documents.len() ==> {
            &&& (#[trigger] d.documents[i]).entry.index == i
            &&& d.documents[i].entry.signature_count <= XML_PARSE_NODE_LIMIT
            &&& d.documents[i].entry.timestamp_count <= XML_PARSE_NODE_LIMIT
        }
}

/// Whether a parsed dossier is what parsing its own source text gives.
pub open spec fn parsed_from_source(p: ParsedDossierView) -> bool {
    spec_parse_xml_document(p.source_xml) matches Ok(nodes) && p == spec_parse_dossier(p.source_xml, nodes)
}

/// The dossier that a parsed dossier without errors becomes.
pub open spec fn spec_dossier_of(p: ParsedDossierView) -> DossierView {
    DossierView {
        source_xml: p.source_xml,
        documents: p.documents.map_values(|d: ParsedDocumentView| spec_stored_document(d)),
        dossier_signature_count: p.dossier_signature_count,
        dossier_timestamp_count: p.dossier_timestamp_count,
    }
}

/// What parsing a dossier's XML gives: the dossier, the parse error, or,
/// when validation finds errors, an invalid-structure error with the first
/// one's message.
pub open spec fn spec_dossier_parse(xml: Seq<char>) -> Result<DossierView, ErrorView> {
    match spec_parse_xml_document(xml) {
        Err(e) => Err(e),
        Ok(nodes) => {
            let p = spec_parse_dossier(xml, nodes);
            let report = spec_structure_report(p);
            if report.errors.len() == 0 {
                Ok(spec_dossier_of(p))
            } else {
                Err(ErrorView::InvalidStructure { message: report.errors[0].message })
            }
        },
    }
}

/// A sequence without errors flattened from parts: each part is without
/// errors.
proof fn lemma_flatten_no_errors(parts: Seq<Seq<ValidationMessageView>>)
    requires
        no_errors(parts.flatten_alt()),
    ensures
        forall|i: int| 0 <= i < parts.len() ==> no_errors(#[trigger] parts[i]),
    decreases parts.len(),
{
    if parts.len() > 0 {
        lemma_no_errors_split(parts.drop_last().flatten_alt(), parts.last());
        lemma_flatten_no_errors(parts.drop_last());
        assert forall|i: int| 0 <= i < parts.len() implies no_errors(#[trigger] parts[i]) by {
            if i < parts.len() - 1 {
                assert(parts.drop_last()[i] == parts[i]);
            }
        }
    }
}

/// A parsed dossier whose report has no error has a valid root, its
/// documents element, and documents without errors.
proof fn lemma_valid_dossier(p: ParsedDossierView)
    requires
        spec_structure_report(p).errors.len() == 0,
    ensures
        p.root_valid,
        p.documents_present,
        no_errors(spec_dossier_messages(p)),
        forall|i: int| 0 <= i < p.documents.len() ==> no_errors(spec_document_messages(#[trigger] p.documents[i])),
{
    let messages = spec_dossier_messages(p);
    assert(messages.filter(is_error_message()).len() == 0);
    assert forall|j: int| 0 <= j < messages.len() implies (#[trigger] messages[j]).severity == ValidationSeverity::Warning by {
        if messages[j].severity == ValidationSeverity::Error {
            messages.lemma_filter_contains(is_error_message(), j);
        }
    }
    if !p.root_valid || !p.documents_present {
        assert(messages[0].severity == ValidationSeverity::Error);
    } else {
        let parts = p.documents.map_values(|d: ParsedDocumentView| spec_document_messages(d));
        lemma_flatten_no_errors(parts);
        assert forall|i: int| 0 <= i < p.documents.len() implies no_errors(spec_document_messages(#[trigger] p.documents[i])) by {
            assert(parts[i] == spec_document_messages(p.documents[i]));
        }
    }
}

/// What decoding and parsing a dossier's bytes gives: a UTF-8 error, or
/// what parsing the text gives.
pub open spec fn spec_from_bytes(bytes: Seq<u8>) -> Result<DossierView, ErrorView> {
    if vstd::utf8::valid_utf8(bytes) {
        spec_dossier_parse(vstd::utf8::decode_utf8(bytes))
    } else {
        Err(ErrorView::Utf8 { message: crate::codec::spec_utf8_error_message(bytes) })
    }
}

/// A dossier outcome as plain values.
pub open spec fn dossier_result_view(r: Result<Dossier, Error>) -> Result<DossierView, ErrorView> {
    match r {
        Ok(d) => Ok(d@),
        Err(e) => Err(e@),
    }
}

impl Dossier {
    #[verifier::type_invariant]
    closed spec fn inv(&self) -> bool {
        &&& dossier_wf(self@)
        &&& spec_dossier_parse(self@.source_xml) == Ok::<DossierView, ErrorView>(self@)
    }

    /// The dossier that a parsed dossier becomes when validation finds no
    /// error; otherwise the failed validation. The parsed dossier is what
    /// parsing its own source text gave.
    pub fn from_parsed(parsed: ParsedDossier) -> (res: Result<Dossier, DossierValidationError>)
        requires
            parsed_bounded(parsed@),
            parsed_from_source(parsed@),
        ensures
            match res {
                Ok(d) => spec_structure_report(parsed@).errors.len() == 0 && d@ == spec_dossier_of(parsed@),
                Err(e) => spec_structure_report(parsed@).errors.len() > 0 && e@ == spec_structure_report(parsed@),
            },
    {
        parsed.validate()?;
        let ghost p = parsed@;
        proof {
            lemma_valid_dossier(p);
        }
        assert(spec_structure_report(p).errors.len() == 0);
        let mut documents: Vec<StoredDocument> = Vec::new();
        let mut k: usize = 0;
        while k < parsed.documents.len()
            invariant
                k <= parsed.documents@.len(),
                p == parsed@,
                parsed_bounded(p),
                forall|i: int| 0 <= i < p.documents.len() ==> no_errors(spec_document_messages(#[trigger] p.documents[i])),
                documents@.len() == k,
                forall|i: int| 0 <= i < k ==> (#[trigger] documents@[i])@ == spec_stored_document(p.documents[i]),
            decreases parsed.documents@.len() - k,
        {
            assert(p.documents[k as int] == parsed.documents@[k as int]@);
            let document = StoredDocument::from_parsed(&parsed.documents[k]);
            documents.push(document);
            k = k + 1;
        }
        proof {
            let dv = DossierView {
                source_xml: p.source_xml,
                documents: stored_view(documents@),
                dossier_signature_count: p.dossier_signature_count,
                dossier_timestamp_count: p.dossier_timestamp_count,
            };
            assert(dv.documents =~= spec_dossier_of(p).documents);
            assert(dv == spec_dossier_of(p));
            assert(spec_dossier_parse(p.source_xml) == Ok::<DossierView, ErrorView>(dv));
        }
        let dossier = Dossier {
            source_xml: parsed.source_xml,
            documents,
            dossier_signature_count: parsed.dossier_signature_count,
            dossier_timestamp_count: parsed.dossier_timestamp_count,
        };
        assert(dossier@.documents =~= spec_dossier_of(p).documents);
        assert(dossier@ == spec_dossier_of(p));
        Ok(dossier)
    }

    /// Parses and validates a dossier's XML.
    pub fn parse(xml: &str) -> (res: Result<Dossier, Error>)
        ensures
            match res {
                Ok(d) => spec_dossier_parse(xml@) == Ok::<DossierView, ErrorView>(d@),
                Err(e) => spec_dossier_parse(xml@) == Err::<DossierView, ErrorView>(e@),
            },
    {
        let parsed = ParsedDossier::parse(xml)?;
        match Dossier::from_parsed(parsed) {
            Ok(dossier) => Ok(dossier),
            Err(error) => Err(error.to_error()),
        }
    }

    /// Decodes a dossier's bytes as UTF-8, then parses and validates it.
    pub fn from_bytes(bytes: &[u8]) -> (res: Result<Dossier, Error>)
        ensures
            dossier_result_view(res) == spec_from_bytes(bytes@),
    {
        match utf8_str(bytes) {
            Ok(xml) => Dossier::parse(xml),
            Err(message) => Err(Error::Utf8 { message }),
        }
    }

    /// The XML the dossier was read from.
    pub fn source_xml(&self) -> (res: &str)
        ensures
            res@ == self@.source_xml,
            spec_dossier_parse(res@) == Ok::<DossierView, ErrorView>(self@),
    {
        proof {
            use_type_invariant(self);
        }
        self.source_xml.as_str()
    }

    /// Copies of the documents' entries, in order.
    pub fn documents(&self) -> (res: Vec<DocumentEntry>)
        ensures
            res@.len() == self@.documents.len(),
            forall|i: int| 0 <= i < res@.len() ==> (#[trigger] res@[i])@ == self@.documents[i].entry,
            forall|i: int| 0 <= i < res@.len() ==> (#[trigger] res@[i])@.index == i,
    {
        proof {
            use_type_invariant(self);
        }
        let mut entries: Vec<DocumentEntry> = Vec::new();
        let mut k: usize = 0;
        while k < self.documents.len()
            invariant
                k <= self.documents@.len(),
                entries@.len() == k,
                forall|i: int| 0 <= i < k ==> (#[trigger] entries@[i])@ == self@.documents[i].entry,
            decreases self.documents@.len() - k,
        {
            assert(self@.documents[k as int] == self.documents@[k as int]@);
            entries.push(self.documents[k].entry().clone());
            k = k + 1;
        }
        entries
    }

    /// The documents' entries, borrowed, in order.
    pub fn documents_iter(&self) -> (res: Vec<&DocumentEntry>)
        ensures
            res@.len() == self@.documents.len(),
            forall|i: int| 0 <= i < res@.len() ==> (#[trigger] res@[i])@ == self@.documents[i].entry,
    {
        let mut entries: Vec<&DocumentEntry> = Vec::new();
        let mut k: usize = 0;
        while k < self.documents.len()
            invariant
                k <= self.documents@.len(),
                entries@.len() == k,
                forall|i: int| 0 <= i < k ==> (#[trigger] entries@[i])@ == self@.documents[i].entry,
            decreases self.documents@.len() - k,
        {
            assert(self@.documents[k as int] == self.documents@[k as int]@);
            entries.push(self.documents[k].entry());
            k = k + 1;
        }
        entries
    }

    /// How many signatures the dossier itself carries.
    pub fn dossier_signature_count(&self) -> (res: usize)
        ensures
            res == self@.dossier_signature_count,
    {
        self.dossier_signature_count
    }

    /// How many time stamps the dossier itself carries.
    pub fn dossier_timestamp_count(&self) -> (res: usize)
        ensures
            res == self@.dossier_timestamp_count,
    {
        self.dossier_timestamp_count
    }
}

/// The total of the stored documents' signature counts.
pub open spec fn entry_signature_total(documents: Seq<StoredDocumentView>) -> nat
    decreases documents.len(),
{
    if documents.len() == 0 {
        0
    } else {
        entry_signature_total(documents.drop_last()) + documents.last().entry.signature_count as nat
    }
}

/// The total of the stored documents' time stamp counts.
pub open spec fn entry_timestamp_total(documents: Seq<StoredDocumentView>) -> nat
    decreases documents.len(),
{
    if documents.len() == 0 {
        0
    } else {
        entry_timestamp_total(documents.drop_last()) + documents.last().entry.timestamp_count as nat
    }
}

/// The warnings that the documents kept, in order.
pub open spec fn kept_warnings(documents: Seq<StoredDocumentView>) -> Seq<ValidationMessageView> {
    documents.map_values(|d: StoredDocumentView| d.warnings).flatten_alt()
}

/// The structural report of a dossier: what its documents' kept warnings
/// become, and its counts.
pub open spec fn spec_dossier_structure(d: DossierView) -> StructureReportView {
    StructureReportView {
        errors: error_findings(kept_warnings(d.documents)),
        warnings: warning_findings(kept_warnings(d.documents)),
        document_count: d.documents.len() as usize,
        document_signature_count: entry_signature_total(d.documents) as usize,
        document_timestamp_count: entry_timestamp_total(d.documents) as usize,
        dossier_signature_count: d.dossier_signature_count,
        dossier_timestamp_count: d.dossier_timestamp_count,
    }
}

/// The findings of a concatenation are those of its parts, in order.
proof fn lemma_findings_add(a: Seq<ValidationMessageView>, b: Seq<ValidationMessageView>)
    ensures
        error_findings(a + b) == error_findings(a) + error_findings(b),
        warning_findings(a + b) == warning_findings(a) + warning_findings(b),
{
    Seq::filter_distributes_over_add(a, b, is_error_message());
    Seq::filter_distributes_over_add(a, b, is_warning_message());
    assert(findings_of(a.filter(is_error_message()) + b.filter(is_error_message())) =~= findings_of(
        a.filter(is_error_message()),
    ) + findings_of(b.filter(is_error_message())));
    assert(findings_of(a.filter(is_warning_message()) + b.filter(is_warning_message())) =~= findings_of(
        a.filter(is_warning_message()),
    ) + findings_of(b.filter(is_warning_message())));
}

/// A total over a bounded prefix of documents is bounded.
proof fn lemma_entry_totals_bounded(documents: Seq<StoredDocumentView>, k: int)
    requires
        0 <= k <= documents.len(),
        forall|i: int| 0 <= i < documents.len() ==> {
            &&& (#[trigger] documents[i]).entry.signature_count <= XML_PARSE_NODE_LIMIT
            &&& documents[i].entry.timestamp_count <= XML_PARSE_NODE_LIMIT
        },
    ensures
        entry_signature_total(documents.take(k)) <= k * XML_PARSE_NODE_LIMIT,
        entry_timestamp_total(documents.take(k)) <= k * XML_PARSE_NODE_LIMIT,
    decreases k,
{
    if k > 0 {
        lemma_entry_totals_bounded(documents, k - 1);
        assert(documents.take(k).drop_last() =~= documents.take(k - 1));
        assert(documents.take(k).last() == documents[k - 1]);
        assert(k * XML_PARSE_NODE_LIMIT == (k - 1) * XML_PARSE_NODE_LIMIT + XML_PARSE_NODE_LIMIT) by (nonlinear_arith);
    }
}

impl Dossier {
    /// The structural report of the dossier: the warnings its documents kept,
    /// and its counts.
    pub fn verify_structure(&self) -> (res: StructureReport)
        ensures
            res@ == spec_dossier_structure(self@),
            res@ == spec_verify_structure_str(self@.source_xml),
            res@.errors.len() == 0,
    {
        proof {
            use_type_invariant(self);
            law_parse_agrees_with_structure_report(self@.source_xml);
        }
        let ghost docs = self@.documents;
        let ghost parts = docs.map_values(|d: StoredDocumentView| d.warnings);
        let mut report = StructureReport::default();
        report.document_count = self.documents.len();
        report.dossier_signature_count = self.dossier_signature_count;
        report.dossier_timestamp_count = self.dossier_timestamp_count;
        let mut signatures: usize = 0;
        let mut timestamps: usize = 0;
        let mut k: usize = 0;
        while k < self.documents.len()
            invariant
                k <= self.documents@.len(),
                docs == self@.documents,
                parts == docs.map_values(|d: StoredDocumentView| d.warnings),
                dossier_wf(self@),
                signatures == entry_signature_total(docs.take(k as int)),
                timestamps == entry_timestamp_total(docs.take(k as int)),
                report@.errors == error_findings(parts.take(k as int).flatten_alt()),
                report@.warnings == warning_findings(parts.take(k as int).flatten_alt()),
                report@.document_count == docs.len(),
                report@.dossier_signature_count == self@.dossier_signature_count,
                report@.dossier_timestamp_count == self@.dossier_timestamp_count,
            decreases self.documents@.len() - k,
        {
            let document = &self.documents[k];
            proof {
                assert(docs[k as int] == document@);
                lemma_entry_totals_bounded(docs, k + 1);
                assert((k + 1) * XML_PARSE_NODE_LIMIT <= XML_PARSE_NODE_LIMIT * XML_PARSE_NODE_LIMIT) by (nonlinear_arith)
                    requires k + 1 <= XML_PARSE_NODE_LIMIT;
                assert(docs.take(k + 1).drop_last() =~= docs.take(k as int));
                assert(parts.take(k + 1).drop_last() =~= parts.take(k as int));
                assert(parts.take(k + 1).last() == document@.warnings);
                lemma_findings_add(parts.take(k as int).flatten_alt(), document@.warnings);
            }
            report_validation_messages(&mut report, document.structural_warnings.as_slice());
            signatures = signatures + document.entry.signature_count();
            timestamps = timestamps + document.entry.timestamp_count();
            k = k + 1;
        }
        proof {
            assert(docs.take(k as int) =~= docs);
            assert(parts.take(k as int) =~= parts);
        }
        report.document_signature_count = signatures;
        report.document_timestamp_count = timestamps;
        report
    }
}

/// What extracting a stored document gives: its entry, its file name, and
/// its decoded payload, or why the payload cannot be decoded.
pub open spec fn spec_extract_stored(s: StoredDocumentView) -> Result<ExtractedDocumentView, ErrorView> {
    match spec_decode_payload(s.transforms, s.payload_text) {
        Err(e) => Err(e),
        Ok(bytes) => Ok(
            ExtractedDocumentView {
                entry: s.entry,
                filename: spec_filename_from_parts(s.entry.index, s.entry.title, s.entry.mime_type.extension),
                bytes,
            },
        ),
    }
}

/// What extracting the document at an index gives.
pub open spec fn spec_extract(d: DossierView, index: usize) -> Result<ExtractedDocumentView, ErrorView> {
    if index < d.documents.len() {
        spec_extract_stored(d.documents[index as int])
    } else {
        Err(ErrorView::DocumentIndexOutOfRange { index })
    }
}

/// Whether a stored document has the given title.
pub open spec fn has_title(title: Seq<char>) -> spec_fn(StoredDocumentView) -> bool {
    |s: StoredDocumentView| s.entry.title == title
}

/// What extracting the document with a title gives: no match, one match
/// (extracted), or several.
pub open spec fn spec_extract_by_title(d: DossierView, title: Seq<char>) -> Result<ExtractedDocumentView, ErrorView> {
    let matches = d.documents.filter(has_title(title));
    if matches.len() == 0 {
        Err(ErrorView::DocumentTitleNotFound { title })
    } else if matches.len() == 1 {
        spec_extract(d, matches[0].entry.index)
    } else {
        Err(ErrorView::AmbiguousDocumentTitle { title })
    }
}

/// An extraction outcome as plain values.
pub open spec fn extraction_view(r: Result<ExtractedDocument, Error>) -> Result<ExtractedDocumentView, ErrorView> {
    match r {
        Ok(x) => Ok(x@),
        Err(e) => Err(e@),
    }
}

impl Dossier {
    fn extract_stored_document(&self, document: &StoredDocument) -> (res: Result<ExtractedDocument, Error>)
        ensures
            extraction_view(res) == spec_extract_stored(document@),
    {
        let bytes = document.transform_chain.decode_payload(document.payload_text.as_str())?;
        Ok(ExtractedDocument {
            filename: crate::output::filename_for(&document.entry),
            bytes,
            entry: document.entry.clone(),
        })
    }

    /// Extracts the document at an index.
    pub fn extract_document(&self, index: usize) -> (res: Result<ExtractedDocument, Error>)
        ensures
            extraction_view(res) == spec_extract(self@, index),
    {
        if index < self.documents.len() {
            assert(self@.documents[index as int] == self.documents@[index as int]@);
            self.extract_stored_document(&self.documents[index])
        } else {
            Err(Error::DocumentIndexOutOfRange { index })
        }
    }

    /// Extracts the one document with a title.
    pub fn extract_document_by_title(&self, title: &str) -> (res: Result<ExtractedDocument, Error>)
        ensures
            extraction_view(res) == spec_extract_by_title(self@, title@),
    {
        proof {
            use_type_invariant(self);
        }
        let ghost docs = self@.documents;
        let ghost pred = has_title(title@);
        let mut count: usize = 0;
        let mut first: usize = 0;
        let mut k: usize = 0;
        proof {
            crate::seqs::lemma_filter_empty(docs.take(0), pred);
        }
        while k < self.documents.len()
            invariant
                k <= self.documents@.len(),
                docs == self@.documents,
                pred == has_title(title@),
                count == docs.take(k as int).filter(pred).len(),
                count <= k,
                count > 0 ==> first < k && docs.take(k as int).filter(pred)[0] == docs[first as int],
            decreases self.documents@.len() - k,
        {
            let document = &self.documents[k];
            proof {
                assert(docs[k as int] == document@);
                crate::seqs::lemma_filter_take_succ(docs, k as int, pred);
            }
            if crate::text::str_eq(document.entry.title(), title) {
                if count == 0 {
                    first = k;
                }
                count = count + 1;
            }
            k = k + 1;
        }
        proof {
            assert(docs.take(k as int) =~= docs);
        }
        if count == 0 {
            Err(Error::DocumentTitleNotFound { title: title.to_owned() })
        } else if count == 1 {
            self.extract_document(first)
        } else {
            Err(Error::AmbiguousDocumentTitle { title: title.to_owned() })
        }
    }
}

/// Filtering by an always-true predicate keeps everything.
proof fn lemma_filter_all<A>(s: Seq<A>, pred: spec_fn(A) -> bool)
    requires
        forall|i: int| 0 <= i < s.len() ==> pred(#[trigger] s[i]),
    ensures
        s.filter(pred) == s,
    decreases s.len(),
{
    reveal(Seq::filter);
    if s.len() > 0 {
        lemma_filter_all(s.drop_last(), pred);
        assert(s.drop_last().push(s.last()) =~= s);
    } else {
        assert(s.filter(pred) =~= s);
    }
}

/// The totals over stored documents are those over the parsed documents
/// they came from.
proof fn lemma_totals_match(documents: Seq<ParsedDocumentView>)
    ensures
        entry_signature_total(documents.map_values(|d: ParsedDocumentView| spec_stored_document(d)))
            == document_signature_total(documents),
        entry_timestamp_total(documents.map_values(|d: ParsedDocumentView| spec_stored_document(d)))
            == document_timestamp_total(documents),
    decreases documents.len(),
{
    let stored = documents.map_values(|d: ParsedDocumentView| spec_stored_document(d));
    if documents.len() > 0 {
        lemma_totals_match(documents.drop_last());
        assert(stored.drop_last() =~= documents.drop_last().map_values(|d: ParsedDocumentView| spec_stored_document(d)));
    }
}

/// A document without errors keeps all of its validation messages.
proof fn lemma_stored_warnings(x: ParsedDocumentView)
    requires
        no_errors(spec_document_messages(x)),
    ensures
        spec_stored_document(x).warnings == spec_document_messages(x),
{
    let messages = spec_document_messages(x);
    assert forall|j: int| 0 <= j < messages.len() implies #[trigger] (is_warning_message())(messages[j]) by {
        assert(messages[j].severity == ValidationSeverity::Warning);
    }
    lemma_filter_all(messages, is_warning_message());
}

/// The warnings that the documents of a valid parsed dossier keep are all of
/// its validation messages.
#[verifier::rlimit(60)]
#[verifier::spinoff_prover]
proof fn lemma_kept_warnings(p: ParsedDossierView)
    requires
        p.root_valid,
        p.documents_present,
        forall|i: int| 0 <= i < p.documents.len() ==> no_errors(spec_document_messages(#[trigger] p.documents[i])),
    ensures
        kept_warnings(spec_dossier_of(p).documents) == spec_dossier_messages(p),
{
    let stored = p.documents.map_values(|x: ParsedDocumentView| spec_stored_document(x));
    let parts = p.documents.map_values(|x: ParsedDocumentView| spec_document_messages(x));
    let kept = stored.map_values(|s: StoredDocumentView| s.warnings);
    assert forall|i: int| 0 <= i < kept.len() implies #[trigger] kept[i] == parts[i] by {
        lemma_stored_warnings(p.documents[i]);
    }
    assert(kept =~= parts);
}

/// Law: the structural report of a dossier is the report of the parsed
/// dossier it was built from; building it loses and invents no finding and
/// no count.
pub proof fn law_dossier_structure_matches_parsed(p: ParsedDossierView)
    requires
        spec_structure_report(p).errors.len() == 0,
    ensures
        spec_dossier_structure(spec_dossier_of(p)) == spec_structure_report(p),
{
    lemma_valid_dossier(p);
    lemma_kept_warnings(p);
    let all = spec_dossier_messages(p);
    assert forall|j: int| 0 <= j < all.len() implies #[trigger] (is_warning_message())(all[j]) by {
        assert(all[j].severity == ValidationSeverity::Warning);
    }
    lemma_filter_all(all, is_warning_message());
    lemma_totals_match(p.documents);
}

/// Law: parsing a dossier's XML succeeds exactly when its structural report
/// has no error; a failure carries the report's first error message, and a
/// parsed dossier reports the same structure.
pub proof fn law_parse_agrees_with_structure_report(xml: Seq<char>)
    ensures
        (spec_dossier_parse(xml) is Ok) == (spec_verify_structure_str(xml).errors.len() == 0),
        match spec_dossier_parse(xml) {
            Ok(d) => spec_dossier_structure(d) == spec_verify_structure_str(xml),
            Err(e) => e.message() == spec_verify_structure_str(xml).errors[0].message,
        },
{
    match spec_parse_xml_document(xml) {
        Err(e) => {
            assert(spec_verify_structure_str(xml).errors[0] == FindingView { document_index: None, message: e.message() });
        },
        Ok(nodes) => {
            let p = spec_parse_dossier(xml, nodes);
            if spec_structure_report(p).errors.len() == 0 {
                law_dossier_structure_matches_parsed(p);
            }
        },
    }
}

impl Dossier {
    /// Reads a dossier from a reader, then decodes, parses and validates it.
    /// A read failure becomes a read-input error.
    pub fn from_reader<R: std::io::Read>(reader: R) -> (res: Result<Dossier, Error>)
        ensures
            dossier_result_view(res) is Err && dossier_result_view(res)->Err_0 is ReadInput
                || exists|bytes: Seq<u8>| #[trigger] spec_from_bytes(bytes) == dossier_result_view(res),
    {
        match crate::codec::read_all(reader) {
            Ok(bytes) => {
                let res = Dossier::from_bytes(bytes.as_slice());
                assert(spec_from_bytes(bytes@) == dossier_result_view(res));
                res
            },
            Err(message) => Err(Error::ReadInput { message }),
        }
    }
}

impl std::str::FromStr for Dossier {
    type Err = Error;

    fn from_str(xml: &str) -> (res: Result<Dossier, Error>)
        ensures
            match res {
                Ok(d) => spec_dossier_parse(xml@) == Ok::<DossierView, ErrorView>(d@),
                Err(e) => spec_dossier_parse(xml@) == Err::<DossierView, ErrorView>(e@),
            },
    {
        Dossier::parse(xml)
    }
}

impl TryFrom<&str> for Dossier {
    type Error = Error;

    fn try_from(xml: &str) -> (res: Result<Dossier, Error>)
        ensures
            match res {
                Ok(d) => spec_dossier_parse(xml@) == Ok::<DossierView, ErrorView>(d@),
                Err(e) => spec_dossier_parse(xml@) == Err::<DossierView, ErrorView>(e@),
            },
    {
        Dossier::parse(xml)
    }
}

/// `Dossier::try_from` on text states its result in its own contract, that
/// of `Dossier::parse`; nothing is claimed through the trait's spec.
impl vstd::std_specs::convert::TryFromSpecImpl<&str> for Dossier {
    open spec fn obeys_try_from_spec() -> bool {
        false
    }

    open spec fn try_from_spec(xml: &str) -> Result<Dossier, Error> {
        arbitrary()
    }
}

impl TryFrom<&[u8]> for Dossier {
    type Error = Error;

    fn try_from(bytes: &[u8]) -> (res: Result<Dossier, Error>)
        ensures
            dossier_result_view(res) == spec_from_bytes(bytes@),
    {
        Dossier::from_bytes(bytes)
    }
}

/// `Dossier::try_from` on bytes states its result in its own contract, that
/// of `Dossier::from_bytes`; nothing is claimed through the trait's spec.
impl vstd::std_specs::convert::TryFromSpecImpl<&[u8]> for Dossier {
    open spec fn obeys_try_from_spec() -> bool {
        false
    }

    open spec fn try_from_spec(bytes: &[u8]) -> Result<Dossier, Error> {
        arbitrary()
    }
}

/// What verifying a dossier gives under some options: its structural
/// report, the signature report that signature verification can give, and
/// the layers decided from them.
pub open spec fn spec_verified(
    d: DossierView,
    options: crate::verify::VerificationOptionsView,
    report: crate::verify::VerificationReportView,
) -> bool {
    &&& report.structure == spec_dossier_structure(d)
    &&& crate::signature::signatures_possible(d.source_xml, options, report.signatures)
    &&& report.validation == crate::verify::spec_layers(
        report.structure,
        report.signatures,
        crate::verify::trust_requested(options),
    )
}

impl Dossier {
    /// Verifies the dossier: its structure, then the signatures the options
    /// select, and decides each layer.
    pub fn verify(&self, options: crate::verify::VerificationOptions) -> (res: crate::verify::VerificationReport)
        ensures
            spec_verified(self@, options@, res@),
            res@.structure == spec_verify_structure_str(self@.source_xml),
            res@.validation.structural == crate::verify::ValidationLayerStatus::Passed,
    {
        let structure = self.verify_structure();
        let signatures = crate::signature::verify_signatures_for_dossier(self.source_xml(), &options);
        let validation = crate::verify::verification_layers(&structure, &signatures, options.trust_requested());
        crate::verify::VerificationReport { validation, structure, signatures }
    }

    /// The dossier itself when every layer that was checked passed;
    /// otherwise the report.
    pub fn require_checked_layers_ok(self, options: crate::verify::VerificationOptions) -> (res: Result<Dossier, crate::verify::VerificationFailed>)
        ensures
            match res {
                Ok(d) => d@ == self@ && exists|r: crate::verify::VerificationReportView|
                    #[trigger] spec_verified(self@, options@, r) && crate::verify::spec_checked_layers_ok(r),
                Err(failed) => spec_verified(self@, options@, failed.report@) && !crate::verify::spec_checked_layers_ok(
                    failed.report@,
                ),
            },
    {
        let report = self.verify(options);
        if report.checked_layers_ok() {
            Ok(self)
        } else {
            Err(crate::verify::VerificationFailed { report })
        }
    }
}

/// A document without errors has a payload text that decodes from base64,
/// and that unzips when its chain zips and does not encrypt.
proof fn lemma_valid_payload(d: ParsedDocumentView)
    requires
        no_errors(spec_document_messages(d)),
    ensures
        d.payloads.len() == 1,
        d.payloads[0] is Text,
        crate::transform::spec_decode_base64_text(d.payloads[0]->Text_0) is Ok,
        !spec_document_transforms(d).contains(Transform::Encrypt) && spec_document_transforms(d).contains(Transform::Zip)
            ==> crate::transform::spec_unzip(crate::transform::spec_decode_base64_text(d.payloads[0]->Text_0)->Ok_0) is Ok,
{
    lemma_valid_document(d);
    let m1 = crate::parsed::profile_count_messages(d);
    let m2 = crate::parsed::payload_count_messages(d);
    let m3 = crate::parsed::profile_field_messages(d);
    let m4 = crate::parsed::profile_transform_messages(d);
    let m5 = crate::parsed::empty_base_messages(d);
    let m6 = crate::parsed::chain_messages(d);
    let m7 = crate::parsed::payload_size_messages(d);
    let m8 = crate::parsed::payload_issue_messages(d);
    lemma_no_errors_split(m1 + m2 + m3 + m4 + m5 + m6 + m7, m8);
    let chain = spec_document_transforms(d);
    let text = d.payloads[0]->Text_0;
    let issues = crate::transform::spec_inspect_payload(chain, text);
    assert(m8 == issues.map_values(|x: crate::transform::PayloadIssueView| crate::parsed::spec_issue_message(d.index, x)));
    let base64 = crate::transform::spec_decode_base64_text(text);
    if base64 is Err || (!chain.contains(Transform::Encrypt) && chain.contains(Transform::Zip)
        && crate::transform::spec_unzip(base64->Ok_0) is Err) {
        assert(crate::transform::spec_is_encrypted_chain(chain) == chain.contains(Transform::Encrypt));
        assert(issues.last() is Error);
        let j = issues.len() - 1;
        assert(m8[j] == crate::parsed::spec_issue_message(d.index, issues[j]));
        assert(m8[j].severity == ValidationSeverity::Error);
    }
}

/// Law: a document of a dossier extracts exactly when its entry says it
/// can; an encrypted one is refused as such.
pub proof fn law_extract_matches_entry(d: DossierView, index: usize)
    requires
        spec_dossier_parse(d.source_xml) == Ok::<DossierView, ErrorView>(d),
        index < d.documents.len(),
    ensures
        (spec_extract(d, index) is Ok) == d.documents[index as int].entry.extraction.can_extract,
        d.documents[index as int].entry.transforms.contains(Transform::Encrypt) ==> spec_extract(d, index)
            == Err::<ExtractedDocumentView, ErrorView>(ErrorView::EncryptedDocumentUnsupported),
{
    let nodes = spec_parse_xml_document(d.source_xml)->Ok_0;
    let p = spec_parse_dossier(d.source_xml, nodes);
    lemma_valid_dossier(p);
    assert(d == spec_dossier_of(p));
    let doc = p.documents[index as int];
    assert(no_errors(spec_document_messages(doc)));
    assert(d.documents[index as int] == spec_stored_document(doc));
    lemma_valid_payload(doc);
}

/// Law: every dossier passes the structural layer, and verifying it
/// without signatures passes with cryptography and trust not checked.
pub proof fn law_dossier_verifies_without_signatures(
    d: DossierView,
    options: crate::verify::VerificationOptionsView,
    report: crate::verify::VerificationReportView,
)
    requires
        spec_dossier_parse(d.source_xml) == Ok::<DossierView, ErrorView>(d),
        !options.verify_signatures,
        spec_verified(d, options, report),
    ensures
        report.structure == spec_verify_structure_str(d.source_xml),
        report.structure.errors.len() == 0,
        report.signatures is None,
        report.validation == (crate::verify::ValidationLayers {
            structural: crate::verify::ValidationLayerStatus::Passed,
            cryptographic: crate::verify::ValidationLayerStatus::NotChecked,
            trust: crate::verify::ValidationLayerStatus::NotChecked,
        }),
        crate::verify::spec_checked_layers_ok(report),
{
    law_parse_agrees_with_structure_report(d.source_xml);
    crate::verify::law_layers_without_signatures(report.structure, crate::verify::trust_requested(options));
}

/// Law: when exactly one document of a dossier has a title (compared
/// exactly), extracting by that title is extracting at its index.
pub proof fn law_title_match_extracts_index(d: DossierView, title: Seq<char>, i: usize)
    requires
        dossier_wf(d),
        i < d.documents.len(),
        d.documents[i as int].entry.title == title,
        forall|j: int| 0 <= j < d.documents.len() && j != i ==> (#[trigger] d.documents[j]).entry.title != title,
    ensures
        spec_extract_by_title(d, title) == spec_extract(d, i),
{
    crate::seqs::lemma_filter_single(d.documents, has_title(title), i as int);
    assert(d.documents[i as int].entry.index == i);
}

/// Law: a dossier read from some text or bytes keeps that text, as it was,
/// as its source.
pub proof fn law_dossier_keeps_its_source(xml: Seq<char>, bytes: Seq<u8>)
    ensures
        spec_dossier_parse(xml) matches Ok(d) ==> d.source_xml == xml,
        spec_from_bytes(bytes) matches Ok(d) ==> d.source_xml == vstd::utf8::decode_utf8(bytes),
{
}

/// Law: an extracted document carries its entry and is named as the
/// entry suggests.
pub proof fn law_extracted_file_named_as_suggested(d: DossierView, index: usize)
    ensures
        spec_extract(d, index) matches Ok(x) ==> {
            &&& x.entry == d.documents[index as int].entry
            &&& x.filename == spec_filename_from_parts(x.entry.index, x.entry.title, x.entry.mime_type.extension)
        },
{
}

} // verus!
