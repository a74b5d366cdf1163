//! The dossier as read from its XML, before it is validated: documents,
//! profiles, payloads and counts, and the validation messages about them.
use vstd::prelude::*;
use vstd::string::StringExecFns;
use crate::document::{spec_mime_from_node, MimeType, MimeTypeView};
use crate::error::{
    invalid_transform_order_message, invalid_transform_order_string, missing_element_message,
    missing_element_string, payload_count_message, payload_count_string, size_limit_message,
    size_limit_string, Error, ErrorView,
};
use crate::seqs::first_of;
use crate::text::{
    concat2, concat3, decimal, opt_view, spec_decimal, str_eq,
};
use crate::transform::{
    spec_inspect_payload, spec_valid_chain, utf8_len, PayloadIssueView, Transform,
    TransformChain, TransformPayloadIssue, MAX_PAYLOAD_TEXT_SIZE,
};
use crate::xml::{
    spec_attribute, spec_child_es, spec_child_text, spec_children, spec_children_ds,
    spec_children_es, spec_is_es, spec_parse_xml_document, parse_xml_document, XmlNodeKind,
    XmlNodeView, XmlTree, XML_PARSE_NODE_LIMIT,
};

verus! {

broadcast use vstd::string::group_string_axioms;

/// How serious a validation message is.
#[derive(Clone, Copy, Debug, PartialEq, Eq, Structural)]
pub enum ValidationSeverity {
    Error,
    Warning,
}

/// A validation message as plain values.
pub struct ValidationMessageView {
    pub document_index: Option<usize>,
    pub severity: ValidationSeverity,
    pub message: Seq<char>,
}

/// A structural finding about a dossier, for one document or the whole.
#[derive(Debug, PartialEq, Eq)]
pub struct ValidationMessage {
    pub document_index: Option<usize>,
    pub severity: ValidationSeverity,
    pub message: String,
}

impl View for ValidationMessage {
    type V = ValidationMessageView;

    open spec fn view(&self) -> ValidationMessageView {
        ValidationMessageView {
            document_index: self.document_index,
            severity: self.severity,
            message: self.message@,
        }
    }
}

/// The views of a list of messages.
pub open spec fn msgs_view(messages: Seq<ValidationMessage>) -> Seq<ValidationMessageView> {
    messages.map_values(|m: ValidationMessage| m@)
}

/// An error message about a document (or the dossier).
pub open spec fn error_msg(index: Option<usize>, message: Seq<char>) -> ValidationMessageView {
    ValidationMessageView { document_index: index, severity: ValidationSeverity::Error, message }
}

/// The warning about an encrypted payload.
pub open spec fn encrypted_payload_warning() -> Seq<char> {
    "document payload is encrypted; encrypted content is not verified"@
}

/// The message that a payload finding becomes.
pub open spec fn spec_issue_message(index: usize, issue: PayloadIssueView) -> ValidationMessageView {
    match issue {
        PayloadIssueView::Error(e) => error_msg(Some(index), e.message()),
        PayloadIssueView::EncryptedPayloadWarning => ValidationMessageView {
            document_index: Some(index),
            severity: ValidationSeverity::Warning,
            message: encrypted_payload_warning(),
        },
    }
}

impl ValidationMessage {
    pub fn error(document_index: Option<usize>, message: String) -> (res: ValidationMessage)
        ensures
            res@ == error_msg(document_index, message@),
    {
        ValidationMessage { document_index, severity: ValidationSeverity::Error, message }
    }

    pub fn warning(document_index: Option<usize>, message: String) -> (res: ValidationMessage)
        ensures
            res@ == (ValidationMessageView {
                document_index,
                severity: ValidationSeverity::Warning,
                message: message@,
            }),
    {
        ValidationMessage { document_index, severity: ValidationSeverity::Warning, message }
    }

    pub fn from_transform_payload_issue(index: usize, issue: &TransformPayloadIssue) -> (res: ValidationMessage)
        ensures
            res@ == spec_issue_message(index, issue@),
    {
        match issue {
            TransformPayloadIssue::Error(error) => ValidationMessage::error(Some(index), error.to_string()),
            TransformPayloadIssue::EncryptedPayloadWarning => ValidationMessage::warning(
                Some(index),
                "document payload is encrypted; encrypted content is not verified".to_owned(),
            ),
        }
    }
}

/// `Document[{index}]/{suffix}`.
pub open spec fn spec_profile_path(index: usize, suffix: Seq<char>) -> Seq<char> {
    "Document["@ + spec_decimal(index as nat) + "]/"@ + suffix
}

/// `Document[{index}]/{suffix}`.
pub fn document_profile_path(index: usize, suffix: &str) -> (res: String)
    ensures
        res@ == spec_profile_path(index, suffix@),
{
    let mut s = concat3("Document[", decimal(index as u64).as_str(), "]/");
    s.append(suffix);
    s
}

/// The error that a required element of document `index` is missing.
pub open spec fn spec_missing(index: usize, suffix: Seq<char>) -> ValidationMessageView {
    error_msg(Some(index), missing_element_message(spec_profile_path(index, suffix)))
}

// ---------------------------------------------------------------------------
// Decimal integers
// ---------------------------------------------------------------------------

/// Whether a character is an ASCII digit.
pub open spec fn is_digit(c: char) -> bool {
    '0' <= c <= '9'
}

/// The value of a string of decimal digits.
pub open spec fn digits_value(s: Seq<char>) -> nat
    decreases s.len(),
{
    if s.len() == 0 {
        0
    } else {
        digits_value(s.drop_last()) * 10 + ((s.last() as u32) - 48) as nat
    }
}

/// The digits of an unsigned integer text: without a leading `+`.
pub open spec fn spec_u64_digits(s: Seq<char>) -> Seq<char> {
    if s.len() > 0 && s[0] == '+' {
        s.drop_first()
    } else {
        s
    }
}

/// What `str::parse::<u64>` accepts: an optional `+`, then one or more
/// decimal digits whose value fits in 64 bits.
pub open spec fn spec_parse_u64(s: Seq<char>) -> Option<u64> {
    let digits = spec_u64_digits(s);
    if digits.len() == 0 || exists|k: int| 0 <= k < digits.len() && !is_digit(#[trigger] digits[k]) {
        None
    } else if digits_value(digits) > u64::MAX {
        None
    } else {
        Some(digits_value(digits) as u64)
    }
}

proof fn lemma_digits_value_monotone(s: Seq<char>, i: int)
    requires
        0 <= i <= s.len(),
        forall|k: int| 0 <= k < s.len() ==> is_digit(#[trigger] s[k]),
    ensures
        digits_value(s.take(i)) <= digits_value(s),
    decreases s.len() - i,
{
    if i < s.len() {
        lemma_digits_value_monotone(s, i + 1);
        assert(s.take(i + 1).drop_last() =~= s.take(i));
    } else {
        assert(s.take(i) =~= s);
    }
}

/// Parses a decimal unsigned 64-bit integer as `str::parse::<u64>` does.
pub fn parse_u64(s: &str) -> (res: Option<u64>)
    ensures
        res == spec_parse_u64(s@),
{
    let chars = crate::text::chars_of(s);
    let start: usize = if chars.len() > 0 && chars[0] == '+' {
        1
    } else {
        0
    };
    let ghost digits = spec_u64_digits(s@);
    assert(digits =~= chars@.skip(start as int));
    if start == chars.len() {
        return None;
    }
    let mut value: u64 = 0;
    let mut overflow = false;
    let mut i = start;
    while i < chars.len()
        invariant
            start <= i <= chars@.len(),
            chars@ == s@,
            digits == chars@.skip(start as int),
            digits == spec_u64_digits(s@),
            forall|k: int| start <= k < i ==> is_digit(#[trigger] chars@[k]),
            !overflow ==> value == digits_value(digits.take(i - start)),
            overflow ==> digits_value(digits.take(i - start)) > u64::MAX,
        decreases chars@.len() - i,
    {
        let c = chars[i];
        if !('0' <= c && c <= '9') {
            assert(!is_digit(digits[i - start]));
            assert(exists|k: int| 0 <= k < digits.len() && !is_digit(#[trigger] digits[k]));
            return None;
        }
        let d = (c as u32 - 48) as u64;
        proof {
            assert(digits.take(i - start + 1).drop_last() =~= digits.take(i - start));
            assert(digits.take(i - start + 1).last() == c);
        }
        if !overflow {
            match value.checked_mul(10) {
                Some(v) => match v.checked_add(d) {
                    Some(w) => {
                        value = w;
                    },
                    None => {
                        overflow = true;
                    },
                },
                None => {
                    overflow = true;
                    assert(digits_value(digits.take(i - start + 1)) >= value * 10) by (nonlinear_arith)
                        requires
                            digits_value(digits.take(i - start + 1)) == value * 10 + d,
                            d >= 0,
                    ;
                },
            }
        } else {
            assert(digits_value(digits.take(i - start + 1)) >= digits_value(digits.take(i - start)) * 10) by (nonlinear_arith)
                requires
                    digits_value(digits.take(i - start + 1)) == digits_value(digits.take(i - start)) * 10 + d,
                    d >= 0,
            ;
            assert(digits_value(digits.take(i - start)) * 10 >= digits_value(digits.take(i - start))) by (nonlinear_arith);
        }
        i = i + 1;
    }
    assert(digits.take(digits.len() as int) =~= digits);
    assert forall|k: int| 0 <= k < digits.len() implies is_digit(#[trigger] digits[k]) by {
        assert(digits[k] == chars@[k + start]);
    }
    if overflow {
        None
    } else {
        Some(value)
    }
}

// ---------------------------------------------------------------------------
// Parsed structure
// ---------------------------------------------------------------------------

/// Whether and how a profile declares the source size.
#[derive(Debug)]
pub enum ParsedSourceSize {
    MissingElement,
    MissingAttribute,
    Present(String),
}

/// A declared source size as plain values.
pub enum SourceSizeView {
    MissingElement,
    MissingAttribute,
    Present(Seq<char>),
}

impl View for ParsedSourceSize {
    type V = SourceSizeView;

    open spec fn view(&self) -> SourceSizeView {
        match self {
            ParsedSourceSize::MissingElement => SourceSizeView::MissingElement,
            ParsedSourceSize::MissingAttribute => SourceSizeView::MissingAttribute,
            ParsedSourceSize::Present(v) => SourceSizeView::Present(v@),
        }
    }
}

/// A declared transform: its `Algorithm` attribute, if present.
#[derive(Debug)]
pub struct ParsedTransform {
    pub algorithm: Option<String>,
}

/// A document profile as plain values.
pub struct ParsedProfileView {
    pub title: Option<Seq<char>>,
    pub format_present: bool,
    pub mime_type: Option<MimeTypeView>,
    pub source_size: SourceSizeView,
    pub base_transform_present: bool,
    pub transforms: Seq<Option<Seq<char>>>,
    pub index: usize,
}

/// What an `es:DocumentProfile` element declares.
#[derive(Debug)]
pub struct ParsedDocumentProfile {
    pub title: Option<String>,
    pub format_present: bool,
    pub mime_type: Option<MimeType>,
    pub source_size: ParsedSourceSize,
    pub base_transform_present: bool,
    pub transforms: Vec<ParsedTransform>,
    pub index: usize,
}

impl View for ParsedDocumentProfile {
    type V = ParsedProfileView;

    open spec fn view(&self) -> ParsedProfileView {
        ParsedProfileView {
            title: opt_view(self.title),
            format_present: self.format_present,
            mime_type: match self.mime_type {
                Some(m) => Some(m@),
                None => None,
            },
            source_size: self.source_size@,
            base_transform_present: self.base_transform_present,
            transforms: self.transforms@.map_values(|t: ParsedTransform| opt_view(t.algorithm)),
            index: self.index,
        }
    }
}

/// The text of a payload, or how long it was when it exceeded the limit.
#[derive(Debug)]
pub enum ParsedPayloadText {
    Text(String),
    TooLarge { size: usize, limit: usize },
}

/// A payload text as plain values.
pub enum PayloadTextView {
    Text(Seq<char>),
    TooLarge { size: usize, limit: usize },
}

/// A `ds:Object` payload of a document.
#[derive(Debug)]
pub struct ParsedPayload {
    pub text: ParsedPayloadText,
}

impl View for ParsedPayload {
    type V = PayloadTextView;

    open spec fn view(&self) -> PayloadTextView {
        match self.text {
            ParsedPayloadText::Text(t) => PayloadTextView::Text(t@),
            ParsedPayloadText::TooLarge { size, limit } => PayloadTextView::TooLarge { size, limit },
        }
    }
}

/// A document as plain values.
pub struct ParsedDocumentView {
    pub index: usize,
    pub profiles: Seq<ParsedProfileView>,
    pub payloads: Seq<PayloadTextView>,
    pub signature_count: usize,
    pub timestamp_count: usize,
}

/// What an `es:Document` element holds: its profiles, its payloads, and how
/// many signatures and time stamps it carries.
#[derive(Debug)]
pub struct ParsedDocument {
    pub index: usize,
    pub profiles: Vec<ParsedDocumentProfile>,
    pub payloads: Vec<ParsedPayload>,
    pub signature_count: usize,
    pub timestamp_count: usize,
}

impl View for ParsedDocument {
    type V = ParsedDocumentView;

    open spec fn view(&self) -> ParsedDocumentView {
        ParsedDocumentView {
            index: self.index,
            profiles: self.profiles@.map_values(|p: ParsedDocumentProfile| p@),
            payloads: self.payloads@.map_values(|p: ParsedPayload| p@),
            signature_count: self.signature_count,
            timestamp_count: self.timestamp_count,
        }
    }
}

/// A dossier as plain values.
pub struct ParsedDossierView {
    pub source_xml: Seq<char>,
    pub root_valid: bool,
    pub documents_present: bool,
    pub documents: Seq<ParsedDocumentView>,
    pub dossier_signature_count: usize,
    pub dossier_timestamp_count: usize,
}

/// A dossier as read from its XML: whether its root and documents element
/// are there, its documents, and the signatures and time stamps on it.
#[derive(Debug)]
pub struct ParsedDossier {
    pub source_xml: String,
    pub root_valid: bool,
    pub documents_present: bool,
    pub documents: Vec<ParsedDocument>,
    pub dossier_signature_count: usize,
    pub dossier_timestamp_count: usize,
}

impl View for ParsedDossier {
    type V = ParsedDossierView;

    open spec fn view(&self) -> ParsedDossierView {
        ParsedDossierView {
            source_xml: self.source_xml@,
            root_valid: self.root_valid,
            documents_present: self.documents_present,
            documents: self.documents@.map_values(|d: ParsedDocument| d@),
            dossier_signature_count: self.dossier_signature_count,
            dossier_timestamp_count: self.dossier_timestamp_count,
        }
    }
}

// ---------------------------------------------------------------------------
// Reading the structure from the tree
// ---------------------------------------------------------------------------

/// The profile that an `es:DocumentProfile` element (node `node`) of
/// document `index` declares.
pub open spec fn spec_parse_profile(nodes: Seq<XmlNodeView>, index: usize, node: usize) -> ParsedProfileView {
    let format = spec_child_es(nodes, node, "Format"@);
    let base = spec_child_es(nodes, node, "BaseTransform"@);
    ParsedProfileView {
        title: spec_child_text(nodes, node, "Title"@),
        format_present: format is Some,
        mime_type: match format {
            Some(f) => match spec_child_es(nodes, f, "MIME-Type"@) {
                Some(m) => Some(spec_mime_from_node(nodes[m as int])),
                None => None,
            },
            None => None,
        },
        source_size: match spec_child_es(nodes, node, "SourceSize"@) {
            None => SourceSizeView::MissingElement,
            Some(s) => match spec_attribute(nodes[s as int], "sizeValue"@) {
                Some(v) => SourceSizeView::Present(v),
                None => SourceSizeView::MissingAttribute,
            },
        },
        base_transform_present: base is Some,
        transforms: match base {
            Some(b) => spec_children_es(nodes, b, "Transform"@).map_values(
                |t: usize| spec_attribute(nodes[t as int], "Algorithm"@),
            ),
            None => Seq::empty(),
        },
        index,
    }
}

/// The texts of the text children of a node, in order.
pub open spec fn spec_text_children(nodes: Seq<XmlNodeView>, node: usize) -> Seq<Seq<char>> {
    spec_children(nodes, node).filter(|c: usize| nodes[c as int].kind == XmlNodeKind::Text).map_values(
        |c: usize|
            match nodes[c as int].text {
                Some(t) => t,
                None => Seq::<char>::empty(),
            },
    )
}

/// The running byte length of the texts `0..i`, capped at `usize::MAX`.
pub open spec fn spec_running_len(texts: Seq<Seq<char>>, i: int) -> nat
    decreases i,
{
    if i <= 0 {
        0
    } else {
        let total: nat = spec_running_len(texts, i - 1) + utf8_len(texts[i - 1]) as nat;
        if total > usize::MAX {
            usize::MAX as nat
        } else {
            total
        }
    }
}

/// The first `i` such that the texts `0..i` exceed the payload limit.
pub open spec fn spec_exceeds_at(texts: Seq<Seq<char>>, i: int) -> bool {
    &&& 1 <= i <= texts.len()
    &&& spec_running_len(texts, i) > MAX_PAYLOAD_TEXT_SIZE
    &&& forall|j: int| 1 <= j < i ==> #[trigger] spec_running_len(texts, j) <= MAX_PAYLOAD_TEXT_SIZE
}

/// The text of a payload: its text children joined, unless their running
/// byte length exceeds the limit, in which case the length at that point.
pub open spec fn spec_payload_text(texts: Seq<Seq<char>>) -> PayloadTextView {
    if exists|i: int| spec_exceeds_at(texts, i) {
        let i = choose|i: int| spec_exceeds_at(texts, i);
        PayloadTextView::TooLarge { size: spec_running_len(texts, i) as usize, limit: MAX_PAYLOAD_TEXT_SIZE }
    } else {
        PayloadTextView::Text(texts.flatten_alt())
    }
}

/// What an `es:Document` element (node `node`, position `index`) holds.
pub open spec fn spec_parse_document(nodes: Seq<XmlNodeView>, index: usize, node: usize) -> ParsedDocumentView {
    ParsedDocumentView {
        index,
        profiles: spec_children_es(nodes, node, "DocumentProfile"@).map_values(
            |p: usize| spec_parse_profile(nodes, index, p),
        ),
        payloads: spec_children_ds(nodes, node, "Object"@).map_values(
            |p: usize| spec_payload_text(spec_text_children(nodes, p)),
        ),
        signature_count: spec_children_ds(nodes, node, "Signature"@).len() as usize,
        timestamp_count: spec_children_es(nodes, node, "TimeStamp"@).len() as usize,
    }
}

/// The root element: the first element child of the root node.
pub open spec fn spec_root_element(nodes: Seq<XmlNodeView>) -> Option<usize> {
    first_of(spec_children(nodes, 0).filter(|c: usize| nodes[c as int].kind == XmlNodeKind::Element))
}

/// What a dossier's XML holds: the root must be an `es:Dossier`; its
/// `ds:Signature` and `es:TimeStamp` children are counted; its documents are
/// the `es:Document` children of its first `es:Documents` child.
pub open spec fn spec_parse_dossier(xml: Seq<char>, nodes: Seq<XmlNodeView>) -> ParsedDossierView {
    let invalid = ParsedDossierView {
        source_xml: xml,
        root_valid: false,
        documents_present: false,
        documents: Seq::empty(),
        dossier_signature_count: 0,
        dossier_timestamp_count: 0,
    };
    match spec_root_element(nodes) {
        None => invalid,
        Some(root) => if !spec_is_es(nodes[root as int], "Dossier"@) {
            invalid
        } else {
            let signatures = spec_children_ds(nodes, root, "Signature"@).len() as usize;
            let timestamps = spec_children_es(nodes, root, "TimeStamp"@).len() as usize;
            match spec_child_es(nodes, root, "Documents"@) {
                None => ParsedDossierView {
                    source_xml: xml,
                    root_valid: true,
                    documents_present: false,
                    documents: Seq::empty(),
                    dossier_signature_count: signatures,
                    dossier_timestamp_count: timestamps,
                },
                Some(documents) => {
                    let nodes_of_documents = spec_children_es(nodes, documents, "Document"@);
                    ParsedDossierView {
                        source_xml: xml,
                        root_valid: true,
                        documents_present: true,
                        documents: Seq::new(
                            nodes_of_documents.len(),
                            |i: int| spec_parse_document(nodes, i as usize, nodes_of_documents[i]),
                        ),
                        dossier_signature_count: signatures,
                        dossier_timestamp_count: timestamps,
                    }
                },
            }
        },
    }
}

/// Every count in a parsed dossier is bounded by the node limit.
pub open spec fn parsed_bounded(p: ParsedDossierView) -> bool {
    &&& p.documents.len() <= XML_PARSE_NODE_LIMIT
    &&& p.dossier_signature_count <= XML_PARSE_NODE_LIMIT
    &&& p.dossier_timestamp_count <= XML_PARSE_NODE_LIMIT
    &&& forall|i: int|
        0 <= i < p.documents.len() ==> {
            &&& (#[trigger] p.documents[i]).signature_count <= XML_PARSE_NODE_LIMIT
            &&& p.documents[i].timestamp_count <= XML_PARSE_NODE_LIMIT
            &&& p.documents[i].index == i
        }
}

impl ParsedDocumentProfile {
    /// Reads the profile that an `es:DocumentProfile` element declares.
    pub fn from_node(tree: &XmlTree, index: usize, node: usize) -> (res: ParsedDocumentProfile)
        requires
            tree.wf(),
            node < tree@.len(),
        ensures
            res@ == spec_parse_profile(tree@, index, node),
    {
        let format = tree.child_es(node, "Format");
        let mime_type = match format {
            Some(f) => match tree.child_es(f, "MIME-Type") {
                Some(m) => Some(MimeType::from_node(tree, m)),
                None => None,
            },
            None => None,
        };
        let source_size = match tree.child_es(node, "SourceSize") {
            None => ParsedSourceSize::MissingElement,
            Some(size_node) => match tree.attribute(size_node, "sizeValue") {
                Some(value) => ParsedSourceSize::Present(value),
                None => ParsedSourceSize::MissingAttribute,
            },
        };
        let base_transform = tree.child_es(node, "BaseTransform");
        let mut transforms: Vec<ParsedTransform> = Vec::new();
        if let Some(base) = base_transform {
            let transform_nodes = tree.children_es(base, "Transform");
            let ghost target = spec_children_es(tree@, base, "Transform"@).map_values(
                |t: usize| spec_attribute(tree@[t as int], "Algorithm"@),
            );
            let mut j: usize = 0;
            while j < transform_nodes.len()
                invariant
                    j <= transform_nodes@.len(),
                    transform_nodes@ == spec_children_es(tree@, base, "Transform"@),
                    forall|i: int| 0 <= i < transform_nodes@.len() ==> transform_nodes@[i] < tree@.len(),
                    target == spec_children_es(tree@, base, "Transform"@).map_values(
                        |t: usize| spec_attribute(tree@[t as int], "Algorithm"@),
                    ),
                    transforms@.len() == j,
                    forall|i: int| 0 <= i < j ==> opt_view((#[trigger] transforms@[i]).algorithm) == target[i],
                decreases transform_nodes@.len() - j,
            {
                let algorithm = tree.attribute(transform_nodes[j], "Algorithm");
                transforms.push(ParsedTransform { algorithm });
                j = j + 1;
            }
            assert(transforms@.map_values(|t: ParsedTransform| opt_view(t.algorithm)) =~= target);
        }
        let res = ParsedDocumentProfile {
            title: tree.child_text(node, "Title"),
            format_present: format.is_some(),
            mime_type,
            source_size,
            base_transform_present: base_transform.is_some(),
            transforms,
            index,
        };
        assert(res@.transforms =~= spec_parse_profile(tree@, index, node).transforms);
        res
    }
}

/// The texts of the text children of a node, in order.
fn text_children(tree: &XmlTree, node: usize) -> (res: Vec<String>)
    requires
        tree.wf(),
        node < tree@.len(),
    ensures
        res@.map_values(|t: String| t@) == spec_text_children(tree@, node),
{
    let ghost nodes = tree@;
    let ghost pred = |c: usize| nodes[c as int].kind == XmlNodeKind::Text;
    let children = tree.children(node);
    let ghost texts_of = |c: usize|
        match nodes[c as int].text {
            Some(t) => t,
            None => Seq::<char>::empty(),
        };
    let mut res: Vec<String> = Vec::new();
    let mut j: usize = 0;
    proof {
        crate::seqs::lemma_filter_empty(children@.take(0), pred);
    }
    while j < children.len()
        invariant
            j <= children@.len(),
            nodes == tree@,
            children@ == spec_children(nodes, node),
            forall|i: int| 0 <= i < children@.len() ==> children@[i] < nodes.len(),
            pred == (|c: usize| nodes[c as int].kind == XmlNodeKind::Text),
            texts_of == (|c: usize|
                match nodes[c as int].text {
                    Some(t) => t,
                    None => Seq::<char>::empty(),
                }),
            res@.len() == children@.take(j as int).filter(pred).len(),
            forall|i: int| 0 <= i < res@.len() ==> (#[trigger] res@[i])@ == texts_of(children@.take(j as int).filter(pred)[i]),
        decreases children@.len() - j,
    {
        proof {
            crate::seqs::lemma_filter_take_succ(children@, j as int, pred);
        }
        let c = children[j];
        let child = tree.node(c);
        if child.kind == XmlNodeKind::Text {
            let text = match &child.text {
                Some(t) => t.clone(),
                None => String::new(),
            };
            res.push(text);
        }
        j = j + 1;
    }
    proof {
        crate::seqs::lemma_take_full(children@);
    }
    assert(res@.map_values(|t: String| t@) =~= spec_text_children(tree@, node));
    res
}

/// Joins a payload's texts, unless their running byte length exceeds the
/// payload limit.
fn payload_text_from_texts(texts: &Vec<String>) -> (res: ParsedPayloadText)
    ensures
        (ParsedPayload { text: res })@ == spec_payload_text(texts@.map_values(|t: String| t@)),
{
    let ghost tv = texts@.map_values(|t: String| t@);
    let mut text_len: usize = 0;
    let mut i: usize = 0;
    while i < texts.len()
        invariant
            i <= texts@.len(),
            tv == texts@.map_values(|t: String| t@),
            text_len == spec_running_len(tv, i as int),
            forall|j: int| 1 <= j <= i ==> #[trigger] spec_running_len(tv, j) <= MAX_PAYLOAD_TEXT_SIZE,
        decreases texts@.len() - i,
    {
        text_len = text_len.saturating_add(texts[i].as_str().len());
        i = i + 1;
        if text_len > MAX_PAYLOAD_TEXT_SIZE {
            proof {
                assert(spec_exceeds_at(tv, i as int));
                let k = choose|k: int| spec_exceeds_at(tv, k);
                if k < i {
                    assert(spec_running_len(tv, k) <= MAX_PAYLOAD_TEXT_SIZE);
                } else if k > i {
                    assert(spec_running_len(tv, i as int) <= MAX_PAYLOAD_TEXT_SIZE);
                }
            }
            return ParsedPayloadText::TooLarge { size: text_len, limit: MAX_PAYLOAD_TEXT_SIZE };
        }
    }
    proof {
        assert forall|k: int| !spec_exceeds_at(tv, k) by {
            if 1 <= k <= tv.len() {
                assert(spec_running_len(tv, k) <= MAX_PAYLOAD_TEXT_SIZE);
            }
        }
    }
    let mut payload_text = String::new();
    let mut j: usize = 0;
    while j < texts.len()
        invariant
            j <= texts@.len(),
            tv == texts@.map_values(|t: String| t@),
            payload_text@ == tv.take(j as int).flatten_alt(),
        decreases texts@.len() - j,
    {
        payload_text.append(texts[j].as_str());
        j = j + 1;
        assert(tv.take(j as int).drop_last() =~= tv.take(j - 1));
    }
    assert(tv.take(j as int) =~= tv);
    ParsedPayloadText::Text(payload_text)
}

impl ParsedDocument {
    /// Reads what an `es:Document` element holds.
    pub fn from_node(tree: &XmlTree, index: usize, node: usize) -> (res: ParsedDocument)
        requires
            tree.wf(),
            node < tree@.len(),
        ensures
            res@ == spec_parse_document(tree@, index, node),
            res.signature_count <= XML_PARSE_NODE_LIMIT,
            res.timestamp_count <= XML_PARSE_NODE_LIMIT,
    {
        let profile_nodes = tree.children_es(node, "DocumentProfile");
        let ghost profile_target = spec_children_es(tree@, node, "DocumentProfile"@).map_values(
            |p: usize| spec_parse_profile(tree@, index, p),
        );
        let mut profiles: Vec<ParsedDocumentProfile> = Vec::new();
        let mut j: usize = 0;
        while j < profile_nodes.len()
            invariant
                tree.wf(),
                j <= profile_nodes@.len(),
                profile_nodes@ == spec_children_es(tree@, node, "DocumentProfile"@),
                forall|i: int| 0 <= i < profile_nodes@.len() ==> profile_nodes@[i] < tree@.len(),
                profile_target == spec_children_es(tree@, node, "DocumentProfile"@).map_values(
                    |p: usize| spec_parse_profile(tree@, index, p),
                ),
                profiles@.len() == j,
                forall|i: int| 0 <= i < j ==> (#[trigger] profiles@[i])@ == profile_target[i],
            decreases profile_nodes@.len() - j,
        {
            let profile = ParsedDocumentProfile::from_node(tree, index, profile_nodes[j]);
            profiles.push(profile);
            j = j + 1;
        }
        let payload_nodes = tree.children_ds(node, "Object");
        let ghost payload_target = spec_children_ds(tree@, node, "Object"@).map_values(
            |p: usize| spec_payload_text(spec_text_children(tree@, p)),
        );
        let mut payloads: Vec<ParsedPayload> = Vec::new();
        let mut k: usize = 0;
        while k < payload_nodes.len()
            invariant
                tree.wf(),
                k <= payload_nodes@.len(),
                payload_nodes@ == spec_children_ds(tree@, node, "Object"@),
                forall|i: int| 0 <= i < payload_nodes@.len() ==> payload_nodes@[i] < tree@.len(),
                payload_target == spec_children_ds(tree@, node, "Object"@).map_values(
                    |p: usize| spec_payload_text(spec_text_children(tree@, p)),
                ),
                payloads@.len() == k,
                forall|i: int| 0 <= i < k ==> (#[trigger] payloads@[i])@ == payload_target[i],
            decreases payload_nodes@.len() - k,
        {
            let texts = text_children(tree, payload_nodes[k]);
            let text = payload_text_from_texts(&texts);
            payloads.push(ParsedPayload { text });
            k = k + 1;
        }
        let signature_count = tree.children_ds(node, "Signature").len();
        let timestamp_count = tree.children_es(node, "TimeStamp").len();
        let res = ParsedDocument { index, profiles, payloads, signature_count, timestamp_count };
        assert(res@.profiles =~= spec_parse_document(tree@, index, node).profiles);
        assert(res@.payloads =~= spec_parse_document(tree@, index, node).payloads);
        res
    }
}

/// No documents.
fn no_documents() -> (res: Vec<ParsedDocument>)
    ensures
        res@.map_values(|d: ParsedDocument| d@) == Seq::<ParsedDocumentView>::empty(),
{
    let res: Vec<ParsedDocument> = Vec::new();
    assert(res@.map_values(|d: ParsedDocument| d@) =~= Seq::<ParsedDocumentView>::empty());
    res
}

/// The root element of a tree: the first element child of the root node.
pub fn root_element(tree: &XmlTree) -> (res: Option<usize>)
    requires
        tree.wf(),
    ensures
        res == spec_root_element(tree@),
        res matches Some(r) ==> r < tree@.len(),
{
    let ghost nodes = tree@;
    let ghost pred = |c: usize| nodes[c as int].kind == XmlNodeKind::Element;
    let children = tree.children(0);
    let mut j: usize = 0;
    proof {
        crate::seqs::lemma_filter_empty(children@.take(0), pred);
    }
    while j < children.len()
        invariant
            j <= children@.len(),
            nodes == tree@,
            children@ == spec_children(nodes, 0),
            forall|i: int| 0 <= i < children@.len() ==> children@[i] < nodes.len(),
            pred == (|c: usize| nodes[c as int].kind == XmlNodeKind::Element),
            children@.take(j as int).filter(pred).len() == 0,
        decreases children@.len() - j,
    {
        proof {
            crate::seqs::lemma_filter_take_succ(children@, j as int, pred);
        }
        let c = children[j];
        if tree.node(c).kind == XmlNodeKind::Element {
            proof {
                crate::seqs::lemma_first_match(children@, j as int, pred);
            }
            return Some(c);
        }
        j = j + 1;
    }
    proof {
        crate::seqs::lemma_take_full(children@);
    }
    None
}

impl ParsedDossier {
    /// Reads what a dossier's XML holds, without validating it.
    pub fn from_xml_document(xml: &str, tree: &XmlTree) -> (res: ParsedDossier)
        requires
            tree.wf(),
        ensures
            res@ == spec_parse_dossier(xml@, tree@),
            parsed_bounded(res@),
    {
        let source_xml = xml.to_owned();
        let root = match root_element(tree) {
            Some(root) => root,
            None => {
                return ParsedDossier {
                    source_xml,
                    root_valid: false,
                    documents_present: false,
                    documents: no_documents(),
                    dossier_signature_count: 0,
                    dossier_timestamp_count: 0,
                };
            },
        };
        if !crate::xml::is_es(tree.node(root), "Dossier") {
            return ParsedDossier {
                source_xml,
                root_valid: false,
                documents_present: false,
                documents: no_documents(),
                dossier_signature_count: 0,
                dossier_timestamp_count: 0,
            };
        }
        let dossier_signature_count = tree.children_ds(root, "Signature").len();
        let dossier_timestamp_count = tree.children_es(root, "TimeStamp").len();
        let documents_node = match tree.child_es(root, "Documents") {
            Some(documents_node) => documents_node,
            None => {
                return ParsedDossier {
                    source_xml,
                    root_valid: true,
                    documents_present: false,
                    documents: no_documents(),
                    dossier_signature_count,
                    dossier_timestamp_count,
                };
            },
        };
        let document_nodes = tree.children_es(documents_node, "Document");
        let ghost target = Seq::new(
            document_nodes@.len(),
            |i: int| spec_parse_document(tree@, i as usize, document_nodes@[i]),
        );
        let mut documents: Vec<ParsedDocument> = Vec::new();
        let mut i: usize = 0;
        while i < document_nodes.len()
            invariant
                tree.wf(),
                i <= document_nodes@.len(),
                document_nodes@.len() <= tree@.len(),
                forall|j: int| 0 <= j < document_nodes@.len() ==> document_nodes@[j] < tree@.len(),
                target == Seq::new(
                    document_nodes@.len(),
                    |i: int| spec_parse_document(tree@, i as usize, document_nodes@[i]),
                ),
                documents@.len() == i,
                forall|j: int|
                    0 <= j < i ==> {
                        &&& (#[trigger] documents@[j])@ == target[j]
                        &&& documents@[j].signature_count <= XML_PARSE_NODE_LIMIT
                        &&& documents@[j].timestamp_count <= XML_PARSE_NODE_LIMIT
                        &&& documents@[j].index == j
                    },
            decreases document_nodes@.len() - i,
        {
            let document = ParsedDocument::from_node(tree, i, document_nodes[i]);
            documents.push(document);
            i = i + 1;
        }
        assert(documents@.map_values(|d: ParsedDocument| d@) =~= target);
        ParsedDossier {
            source_xml,
            root_valid: true,
            documents_present: true,
            documents,
            dossier_signature_count,
            dossier_timestamp_count,
        }
    }

    /// Parses a dossier's XML without validating it.
    pub fn parse(xml: &str) -> (res: Result<ParsedDossier, Error>)
        ensures
            match res {
                Ok(p) => spec_parse_xml_document(xml@) matches Ok(nodes) && p@ == spec_parse_dossier(xml@, nodes)
                    && parsed_bounded(p@),
                Err(e) => spec_parse_xml_document(xml@) == Err::<Seq<XmlNodeView>, ErrorView>(e@),
            },
    {
        let tree = parse_xml_document(xml)?;
        Ok(ParsedDossier::from_xml_document(xml, &tree))
    }
}

// ---------------------------------------------------------------------------
// Validation messages
// ---------------------------------------------------------------------------

/// Pushing a message extends the views by its view.
pub proof fn lemma_msgs_push(v: Seq<ValidationMessage>, m: ValidationMessage)
    ensures
        msgs_view(v.push(m)) == msgs_view(v).push(m@),
{
    assert(msgs_view(v.push(m)) =~= msgs_view(v).push(m@));
}

/// Appending messages extends the views by their views.
pub proof fn lemma_msgs_add(v: Seq<ValidationMessage>, w: Seq<ValidationMessage>)
    ensures
        msgs_view(v + w) == msgs_view(v) + msgs_view(w),
{
    assert(msgs_view(v + w) =~= msgs_view(v) + msgs_view(w));
}

/// "document {index} must have exactly one es:DocumentProfile, found {count}".
pub open spec fn profile_count_message(index: nat, count: nat) -> Seq<char> {
    "document "@ + spec_decimal(index) + " must have exactly one es:DocumentProfile, found "@
        + spec_decimal(count)
}

/// The transforms that a profile's algorithm names denote, unknown and
/// missing names skipped.
pub open spec fn spec_transforms_of(algorithms: Seq<Option<Seq<char>>>) -> Seq<Transform>
    decreases algorithms.len(),
{
    if algorithms.len() == 0 {
        Seq::empty()
    } else {
        let prev = spec_transforms_of(algorithms.drop_last());
        match algorithms.last() {
            Some(a) => match Transform::spec_parse(a) {
                Some(t) => prev.push(t),
                None => prev,
            },
            None => prev,
        }
    }
}

/// The errors about a profile's transforms: a missing `Algorithm`, or an
/// unknown one, for each transform in turn.
pub open spec fn spec_transform_messages(index: usize, algorithms: Seq<Option<Seq<char>>>) -> Seq<ValidationMessageView>
    decreases algorithms.len(),
{
    if algorithms.len() == 0 {
        Seq::empty()
    } else {
        let prev = spec_transform_messages(index, algorithms.drop_last());
        match algorithms.last() {
            Some(a) => match Transform::spec_parse(a) {
                Some(_) => prev,
                None => prev.push(
                    error_msg(Some(index), ErrorView::UnknownTransform { algorithm: a }.message()),
                ),
            },
            None => prev.push(spec_missing(index, "DocumentProfile/BaseTransform/Transform/@Algorithm"@)),
        }
    }
}

/// The errors about a profile's required fields: title, source size (and
/// that it is an integer), format and MIME type, base transform.
pub open spec fn spec_field_messages(p: ParsedProfileView) -> Seq<ValidationMessageView> {
    let i = p.index;
    let title = if p.title is None {
        seq![spec_missing(i, "DocumentProfile/Title"@)]
    } else {
        Seq::empty()
    };
    let size = match p.source_size {
        SourceSizeView::MissingElement => seq![spec_missing(i, "DocumentProfile/SourceSize"@)],
        SourceSizeView::MissingAttribute => seq![spec_missing(i, "DocumentProfile/SourceSize/@sizeValue"@)],
        SourceSizeView::Present(v) => if spec_parse_u64(v) is None {
            seq![
                error_msg(
                    Some(i),
                    ErrorView::InvalidInteger {
                        field: spec_profile_path(i, "DocumentProfile/SourceSize/@sizeValue"@),
                        value: v,
                    }.message(),
                ),
            ]
        } else {
            Seq::empty()
        },
    };
    let format = if !p.format_present {
        seq![spec_missing(i, "DocumentProfile/Format"@)]
    } else if p.mime_type is None {
        seq![spec_missing(i, "DocumentProfile/Format/MIME-Type"@)]
    } else {
        Seq::empty()
    };
    let base = if !p.base_transform_present {
        seq![spec_missing(i, "DocumentProfile/BaseTransform"@)]
    } else {
        Seq::empty()
    };
    title + size + format + base
}

/// The transforms of a document: those of its first profile.
pub open spec fn spec_document_transforms(d: ParsedDocumentView) -> Seq<Transform> {
    if d.profiles.len() > 0 {
        spec_transforms_of(d.profiles[0].transforms)
    } else {
        Seq::empty()
    }
}

/// The error that a document does not have exactly one profile.
pub open spec fn profile_count_messages(d: ParsedDocumentView) -> Seq<ValidationMessageView> {
    if d.profiles.len() != 1 {
        seq![error_msg(Some(d.index), profile_count_message(d.index as nat, d.profiles.len()))]
    } else {
        Seq::empty()
    }
}

/// The error that a document does not have exactly one payload.
pub open spec fn payload_count_messages(d: ParsedDocumentView) -> Seq<ValidationMessageView> {
    if d.payloads.len() != 1 {
        seq![error_msg(Some(d.index), payload_count_message(d.index as nat, d.payloads.len()))]
    } else {
        Seq::empty()
    }
}

/// The errors about the first profile's required fields.
pub open spec fn profile_field_messages(d: ParsedDocumentView) -> Seq<ValidationMessageView> {
    if d.profiles.len() > 0 {
        spec_field_messages(d.profiles[0])
    } else {
        Seq::empty()
    }
}

/// The errors about the first profile's transforms.
pub open spec fn profile_transform_messages(d: ParsedDocumentView) -> Seq<ValidationMessageView> {
    if d.profiles.len() > 0 {
        spec_transform_messages(d.profiles[0].index, d.profiles[0].transforms)
    } else {
        Seq::empty()
    }
}

/// The error that a base transform holds no usable transform.
pub open spec fn empty_base_messages(d: ParsedDocumentView) -> Seq<ValidationMessageView> {
    if d.profiles.len() > 0 && d.profiles[0].base_transform_present && spec_document_transforms(d).len() == 0 {
        seq![spec_missing(d.index, "DocumentProfile/BaseTransform/Transform"@)]
    } else {
        Seq::empty()
    }
}

/// The error that the transforms do not form a valid chain.
pub open spec fn chain_messages(d: ParsedDocumentView) -> Seq<ValidationMessageView> {
    if !spec_valid_chain(spec_document_transforms(d)) {
        seq![error_msg(Some(d.index), invalid_transform_order_message())]
    } else {
        Seq::empty()
    }
}

/// The error that the first payload's text is over the limit.
pub open spec fn payload_size_messages(d: ParsedDocumentView) -> Seq<ValidationMessageView> {
    if d.payloads.len() > 0 {
        match d.payloads[0] {
            PayloadTextView::TooLarge { size, limit } => seq![
                error_msg(
                    Some(d.index),
                    size_limit_message("document payload text is too large: "@, size as nat, limit as nat),
                ),
            ],
            PayloadTextView::Text(_) => Seq::empty(),
        }
    } else {
        Seq::empty()
    }
}

/// What checking the first payload under a valid chain finds.
pub open spec fn payload_issue_messages(d: ParsedDocumentView) -> Seq<ValidationMessageView> {
    if spec_valid_chain(spec_document_transforms(d)) && d.payloads.len() > 0 {
        match d.payloads[0] {
            PayloadTextView::Text(text) => spec_inspect_payload(spec_document_transforms(d), text).map_values(
                |x: PayloadIssueView| spec_issue_message(d.index, x),
            ),
            PayloadTextView::TooLarge { .. } => Seq::empty(),
        }
    } else {
        Seq::empty()
    }
}

/// The validation messages about a document, in order: profile and payload
/// counts, the first profile's fields and transforms, a base transform
/// without transforms, an invalid chain, too long a payload, and what
/// checking the payload under a valid chain finds.
pub open spec fn spec_document_messages(d: ParsedDocumentView) -> Seq<ValidationMessageView> {
    profile_count_messages(d) + payload_count_messages(d) + profile_field_messages(d)
        + profile_transform_messages(d) + empty_base_messages(d) + chain_messages(d)
        + payload_size_messages(d) + payload_issue_messages(d)
}

/// The validation messages about a dossier: an invalid root, or a missing
/// documents element, or the messages about each document in turn.
pub open spec fn spec_dossier_messages(p: ParsedDossierView) -> Seq<ValidationMessageView> {
    if !p.root_valid {
        seq![error_msg(None, ErrorView::InvalidRoot.message())]
    } else if !p.documents_present {
        seq![error_msg(None, missing_element_message("Documents"@))]
    } else {
        p.documents.map_values(|d: ParsedDocumentView| spec_document_messages(d)).flatten_alt()
    }
}

impl ParsedDocumentProfile {
    /// The error that a required element of this profile is missing.
    fn missing(&self, suffix: &str) -> (res: ValidationMessage)
        ensures
            res@ == spec_missing(self.index, suffix@),
    {
        ValidationMessage::error(
            Some(self.index),
            missing_element_string(document_profile_path(self.index, suffix).as_str()),
        )
    }

    /// The declared title.
    pub fn title(&self) -> (res: Option<&str>)
        ensures
            match res {
                Some(t) => opt_view(self.title) == Some(t@),
                None => self.title is None,
            },
    {
        match &self.title {
            Some(t) => Some(t.as_str()),
            None => None,
        }
    }

    /// The declared MIME type.
    pub fn mime_type(&self) -> (res: Option<&MimeType>)
        ensures
            res == match self.mime_type {
                Some(m) => Some(&m),
                None => None::<&MimeType>,
            },
    {
        match &self.mime_type {
            Some(m) => Some(m),
            None => None,
        }
    }

    /// The declared source size, when it is an integer.
    pub fn source_size(&self) -> (res: Option<u64>)
        ensures
            res == match self@.source_size {
                SourceSizeView::Present(v) => spec_parse_u64(v),
                _ => None::<u64>,
            },
    {
        match &self.source_size {
            ParsedSourceSize::Present(value) => parse_u64(value.as_str()),
            _ => None,
        }
    }

    /// Appends the errors about the profile's required fields.
    fn validate_fields(&self, messages: &mut Vec<ValidationMessage>)
        ensures
            msgs_view(final(messages)@) == msgs_view(old(messages)@) + spec_field_messages(self@),
    {
        let ghost start = msgs_view(messages@);
        if self.title.is_none() {
            let m = self.missing("DocumentProfile/Title");
            proof { lemma_msgs_push(messages@, m); }
            messages.push(m);
        }
        match &self.source_size {
            ParsedSourceSize::MissingElement => {
                let m = self.missing("DocumentProfile/SourceSize");
                proof { lemma_msgs_push(messages@, m); }
                messages.push(m);
            },
            ParsedSourceSize::MissingAttribute => {
                let m = self.missing("DocumentProfile/SourceSize/@sizeValue");
                proof { lemma_msgs_push(messages@, m); }
                messages.push(m);
            },
            ParsedSourceSize::Present(value) => {
                if parse_u64(value.as_str()).is_none() {
                    let error = Error::InvalidInteger {
                        field: document_profile_path(self.index, "DocumentProfile/SourceSize/@sizeValue"),
                        value: value.clone(),
                    };
                    let m = ValidationMessage::error(Some(self.index), error.to_string());
                    proof { lemma_msgs_push(messages@, m); }
                    messages.push(m);
                }
            },
        }
        if !self.format_present {
            let m = self.missing("DocumentProfile/Format");
            proof { lemma_msgs_push(messages@, m); }
            messages.push(m);
        } else if self.mime_type.is_none() {
            let m = self.missing("DocumentProfile/Format/MIME-Type");
            proof { lemma_msgs_push(messages@, m); }
            messages.push(m);
        }
        if !self.base_transform_present {
            let m = self.missing("DocumentProfile/BaseTransform");
            proof { lemma_msgs_push(messages@, m); }
            messages.push(m);
        }
        assert(msgs_view(messages@) =~= start + spec_field_messages(self@));
    }

    /// The transforms that the profile's algorithm names denote; appends an
    /// error for each missing or unknown name.
    fn valid_transforms(&self, messages: &mut Vec<ValidationMessage>) -> (res: Vec<Transform>)
        ensures
            res@ == spec_transforms_of(self@.transforms),
            msgs_view(final(messages)@) == msgs_view(old(messages)@) + spec_transform_messages(
                self.index,
                self@.transforms,
            ),
    {
        let ghost algorithms = self@.transforms;
        let ghost start = msgs_view(messages@);
        let mut transforms: Vec<Transform> = Vec::new();
        let mut j: usize = 0;
        while j < self.transforms.len()
            invariant
                j <= self.transforms@.len(),
                algorithms == self@.transforms,
                algorithms.len() == self.transforms@.len(),
                transforms@ == spec_transforms_of(algorithms.take(j as int)),
                msgs_view(messages@) == start + spec_transform_messages(self.index, algorithms.take(j as int)),
            decreases self.transforms@.len() - j,
        {
            proof {
                assert(algorithms.take(j + 1).drop_last() =~= algorithms.take(j as int));
                assert(algorithms.take(j + 1).last() == opt_view(self.transforms@[j as int].algorithm));
            }
            match &self.transforms[j].algorithm {
                None => {
                    let m = self.missing("DocumentProfile/BaseTransform/Transform/@Algorithm");
                    proof { lemma_msgs_push(messages@, m); }
                    messages.push(m);
                },
                Some(algorithm) => match Transform::parse(algorithm.as_str()) {
                    Ok(transform) => transforms.push(transform),
                    Err(error) => {
                        let m = ValidationMessage::error(Some(self.index), error.to_string());
                        proof { lemma_msgs_push(messages@, m); }
                        messages.push(m);
                    },
                },
            }
            j = j + 1;
        }
        assert(algorithms.take(j as int) =~= algorithms);
        transforms
    }
}

impl ParsedDocument {
    /// The first profile, if any.
    pub fn profile(&self) -> (res: Option<&ParsedDocumentProfile>)
        ensures
            match res {
                Some(p) => self.profiles@.len() > 0 && *p == self.profiles@[0],
                None => self.profiles@.len() == 0,
            },
    {
        if self.profiles.len() > 0 {
            Some(&self.profiles[0])
        } else {
            None
        }
    }

    /// The text of the first payload, when it is within the limit.
    pub fn payload_text(&self) -> (res: Option<&str>)
        ensures
            match res {
                Some(t) => self@.payloads.len() > 0 && self@.payloads[0] == PayloadTextView::Text(t@),
                None => self@.payloads.len() == 0 || self@.payloads[0] is TooLarge,
            },
    {
        if self.payloads.len() > 0 {
            match &self.payloads[0].text {
                ParsedPayloadText::Text(text) => Some(text.as_str()),
                ParsedPayloadText::TooLarge { .. } => None,
            }
        } else {
            None
        }
    }

    /// The transforms of the first profile.
    pub fn valid_transforms(&self) -> (res: Vec<Transform>)
        ensures
            res@ == spec_document_transforms(self@),
    {
        match self.profile() {
            Some(profile) => {
                let mut scratch: Vec<ValidationMessage> = Vec::new();
                profile.valid_transforms(&mut scratch)
            },
            None => Vec::new(),
        }
    }

    /// The validation messages about this document.
    pub fn validation_messages(&self) -> (res: Vec<ValidationMessage>)
        ensures
            msgs_view(res@) == spec_document_messages(self@),
    {
        let ghost d = self@;
        let i = self.index;
        let mut messages: Vec<ValidationMessage> = Vec::new();
        proof {
            assert(msgs_view(messages@) =~= Seq::<ValidationMessageView>::empty());
        }
        if self.profiles.len() != 1 {
            let mut text = concat3("document ", decimal(i as u64).as_str(), " must have exactly one es:DocumentProfile, found ");
            text.append(decimal(self.profiles.len() as u64).as_str());
            let m = ValidationMessage::error(Some(i), text);
            proof { lemma_msgs_push(messages@, m); }
            messages.push(m);
        }
        if self.payloads.len() != 1 {
            let m = ValidationMessage::error(Some(i), payload_count_string(i, self.payloads.len()));
            proof { lemma_msgs_push(messages@, m); }
            messages.push(m);
        }
        let ghost after_counts = msgs_view(messages@);
        proof {
            if self.profiles@.len() > 0 {
                assert(d.profiles[0] == self.profiles@[0]@);
            }
            if self.payloads@.len() > 0 {
                assert(d.payloads[0] == self.payloads@[0]@);
            }
        }
        let profile = self.profile();
        if let Some(profile) = profile {
            profile.validate_fields(&mut messages);
        }
        let ghost after_fields = msgs_view(messages@);
        let transforms = match profile {
            Some(profile) => profile.valid_transforms(&mut messages),
            None => Vec::new(),
        };
        let ghost after_transforms = msgs_view(messages@);
        let base_present = match profile {
            Some(profile) => profile.base_transform_present,
            None => false,
        };
        if base_present && transforms.len() == 0 {
            let m = ValidationMessage::error(
                Some(i),
                missing_element_string(document_profile_path(i, "DocumentProfile/BaseTransform/Transform").as_str()),
            );
            proof { lemma_msgs_push(messages@, m); }
            messages.push(m);
        }
        let transform_chain = match TransformChain::from_transforms(transforms.as_slice()) {
            Ok(chain) => Some(chain),
            Err(error) => {
                let m = ValidationMessage::error(Some(i), invalid_transform_order_string());
                proof { lemma_msgs_push(messages@, m); }
                messages.push(m);
                None
            },
        };
        let mut payload_text: Option<&str> = None;
        if self.payloads.len() > 0 {
            match &self.payloads[0].text {
                ParsedPayloadText::Text(text) => {
                    payload_text = Some(text.as_str());
                },
                ParsedPayloadText::TooLarge { size, limit } => {
                    let m = ValidationMessage::error(
                        Some(i),
                        size_limit_string("document payload text is too large: ", *size as u64, *limit as u64),
                    );
                    proof { lemma_msgs_push(messages@, m); }
                    messages.push(m);
                },
            }
        }
        assert(after_fields =~= after_counts + (if d.profiles.len() > 0 { spec_field_messages(d.profiles[0]) } else { Seq::empty() }));
        assert(after_transforms =~= after_fields + (if d.profiles.len() > 0 {
            spec_transform_messages(d.profiles[0].index, d.profiles[0].transforms)
        } else {
            Seq::empty()
        }));
        assert(transforms@ == spec_document_transforms(d));
        if let (Some(chain), Some(text)) = (&transform_chain, payload_text) {
            let issues = chain.inspect_payload(text);
            let ghost all_issues = spec_inspect_payload(spec_document_transforms(d), d.payloads[0]->Text_0);
            proof {
                assert forall|q: int| 0 <= q < issues@.len() implies (#[trigger] issues@[q])@ == all_issues[q] by {
                    assert(issues@.map_values(|x: TransformPayloadIssue| x@)[q] == issues@[q]@);
                }
            }
            let mut extra: Vec<ValidationMessage> = Vec::new();
            let mut k: usize = 0;
            while k < issues.len()
                invariant
                    k <= issues@.len(),
                    issues@.len() == all_issues.len(),
                    forall|q: int| 0 <= q < issues@.len() ==> (#[trigger] issues@[q])@ == all_issues[q],
                    extra@.len() == k,
                    forall|q: int| 0 <= q < k ==> (#[trigger] extra@[q])@ == spec_issue_message(i, all_issues[q]),
                decreases issues@.len() - k,
            {
                let m = ValidationMessage::from_transform_payload_issue(i, &issues[k]);
                extra.push(m);
                k = k + 1;
            }
            proof {
                assert(msgs_view(extra@) =~= all_issues.map_values(|x: PayloadIssueView| spec_issue_message(i, x)));
                lemma_msgs_add(messages@, extra@);
            }
            messages.append(&mut extra);
        }
        assert(msgs_view(messages@) =~= spec_document_messages(d));
        messages
    }
}

impl ParsedDossier {
    /// The validation messages about this dossier.
    pub fn validation_messages(&self) -> (res: Vec<ValidationMessage>)
        ensures
            msgs_view(res@) == spec_dossier_messages(self@),
    {
        let mut messages: Vec<ValidationMessage> = Vec::new();
        if !self.root_valid {
            let m = ValidationMessage::error(None, Error::InvalidRoot.to_string());
            messages.push(m);
            assert(msgs_view(messages@) =~= spec_dossier_messages(self@));
            return messages;
        }
        if !self.documents_present {
            let m = ValidationMessage::error(None, missing_element_string("Documents"));
            messages.push(m);
            assert(msgs_view(messages@) =~= spec_dossier_messages(self@));
            return messages;
        }
        let ghost per_document = self@.documents.map_values(|d: ParsedDocumentView| spec_document_messages(d));
        let mut j: usize = 0;
        while j < self.documents.len()
            invariant
                j <= self.documents@.len(),
                per_document == self@.documents.map_values(|d: ParsedDocumentView| spec_document_messages(d)),
                msgs_view(messages@) == per_document.take(j as int).flatten_alt(),
            decreases self.documents@.len() - j,
        {
            let mut document_messages = self.documents[j].validation_messages();
            proof {
                lemma_msgs_add(messages@, document_messages@);
                assert(per_document.take(j + 1).drop_last() =~= per_document.take(j as int));
            }
            messages.append(&mut document_messages);
            j = j + 1;
        }
        assert(per_document.take(j as int) =~= per_document);
        messages
    }
}

impl std::str::FromStr for ParsedDossier {
    type Err = Error;

    fn from_str(xml: &str) -> (res: std::result::Result<ParsedDossier, Error>)
        ensures
            match res {
                Ok(p) => spec_parse_xml_document(xml@) matches Ok(nodes) && p@ == spec_parse_dossier(xml@, nodes)
                    && parsed_bounded(p@),
                Err(e) => spec_parse_xml_document(xml@) == Err::<Seq<XmlNodeView>, ErrorView>(e@),
            },
    {
        ParsedDossier::parse(xml)
    }
}

} // verus!
