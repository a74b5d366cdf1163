//! The documents of a dossier: their metadata, whether they can be
//! extracted, and what extraction yields.
use vstd::prelude::*;
use vstd::string::StringExecFns;
use crate::text::{clone_opt_string, opt_view, trim_both, trim_string, TrimClass};
use crate::transform::{
    copy_transforms, spec_extraction_support, ExtractionSupport, ExtractionUnavailableReason,
    Transform, TransformChain,
};
use crate::xml::{spec_attribute, XmlNodeView, XmlTree};

verus! {

/// A MIME type as plain values.
pub struct MimeTypeView {
    pub top_level_type: Seq<char>,
    pub subtype: Seq<char>,
    pub extension: Option<Seq<char>>,
    pub charset: Option<Seq<char>>,
}

/// The MIME type that a document profile declares.
#[derive(Debug, PartialEq, Eq)]
pub struct MimeType {
    top_level_type: String,
    subtype: String,
    extension: Option<String>,
    charset: Option<String>,
}

impl View for MimeType {
    type V = MimeTypeView;

    closed spec fn view(&self) -> MimeTypeView {
        MimeTypeView {
            top_level_type: self.top_level_type@,
            subtype: self.subtype@,
            extension: opt_view(self.extension),
            charset: opt_view(self.charset),
        }
    }
}

impl Clone for MimeType {
    fn clone(&self) -> (res: Self)
        ensures
            res@ == self@,
    {
        MimeType {
            top_level_type: self.top_level_type.clone(),
            subtype: self.subtype.clone(),
            extension: clone_opt_string(&self.extension),
            charset: clone_opt_string(&self.charset),
        }
    }
}

/// An attribute's value without surrounding whitespace, when that is not empty.
pub open spec fn spec_non_empty_attribute(node: XmlNodeView, name: Seq<char>) -> Option<Seq<char>> {
    match spec_attribute(node, name) {
        Some(value) => {
            let trimmed = trim_both(value, TrimClass::Whitespace);
            if trimmed.len() > 0 {
                Some(trimmed)
            } else {
                None
            }
        },
        None => None,
    }
}

/// The MIME type that an `es:MIME-Type` element declares: its `type` and
/// `subtype` attributes (empty when missing), its non-empty `extension`, and
/// its non-empty `charset` (or, failing that, `charSet`).
pub open spec fn spec_mime_from_node(node: XmlNodeView) -> MimeTypeView {
    MimeTypeView {
        top_level_type: match spec_attribute(node, "type"@) {
            Some(v) => v,
            None => Seq::empty(),
        },
        subtype: match spec_attribute(node, "subtype"@) {
            Some(v) => v,
            None => Seq::empty(),
        },
        extension: spec_non_empty_attribute(node, "extension"@),
        charset: match spec_non_empty_attribute(node, "charset"@) {
            Some(v) => Some(v),
            None => spec_non_empty_attribute(node, "charSet"@),
        },
    }
}

/// An attribute's value without surrounding whitespace, when that is not empty.
pub fn non_empty_attribute(tree: &XmlTree, id: usize, name: &str) -> (res: Option<String>)
    requires
        id < tree@.len(),
    ensures
        opt_view(res) == spec_non_empty_attribute(tree@[id as int], name@),
{
    match tree.attribute(id, name) {
        Some(value) => {
            let trimmed = trim_string(value.as_str(), TrimClass::Whitespace);
            if trimmed.as_str().is_empty() {
                None
            } else {
                Some(trimmed)
            }
        },
        None => None,
    }
}

impl MimeType {
    /// The top-level type (`text` in `text/plain`).
    pub fn top_level_type(&self) -> (res: &str)
        ensures
            res@ == self@.top_level_type,
    {
        self.top_level_type.as_str()
    }

    /// The subtype (`plain` in `text/plain`).
    pub fn subtype(&self) -> (res: &str)
        ensures
            res@ == self@.subtype,
    {
        self.subtype.as_str()
    }

    /// The declared file extension, if any.
    pub fn extension(&self) -> (res: Option<&str>)
        ensures
            match res {
                Some(e) => self@.extension == Some(e@),
                None => self@.extension is None,
            },
    {
        match &self.extension {
            Some(e) => Some(e.as_str()),
            None => None,
        }
    }

    /// The declared character set, if any.
    pub fn charset(&self) -> (res: Option<&str>)
        ensures
            match res {
                Some(e) => self@.charset == Some(e@),
                None => self@.charset is None,
            },
    {
        match &self.charset {
            Some(e) => Some(e.as_str()),
            None => None,
        }
    }

    /// A MIME type from its parts.
    pub fn new(top_level_type: String, subtype: String, extension: Option<String>, charset: Option<String>) -> (res: MimeType)
        ensures
            res@ == (MimeTypeView {
                top_level_type: top_level_type@,
                subtype: subtype@,
                extension: crate::text::opt_view(extension),
                charset: crate::text::opt_view(charset),
            }),
    {
        MimeType { top_level_type, subtype, extension, charset }
    }

    /// `type/subtype`.
    pub fn to_string(&self) -> (res: String)
        ensures
            res@ == self@.top_level_type.push('/') + self@.subtype,
    {
        let mut s = self.top_level_type.clone();
        crate::text::string_push(&mut s, '/');
        s.append(self.subtype.as_str());
        s
    }

    /// The MIME type that an `es:MIME-Type` element declares.
    pub fn from_node(tree: &XmlTree, id: usize) -> (res: MimeType)
        requires
            id < tree@.len(),
        ensures
            res@ == spec_mime_from_node(tree@[id as int]),
    {
        let top_level_type = match tree.attribute(id, "type") {
            Some(v) => v,
            None => String::new(),
        };
        let subtype = match tree.attribute(id, "subtype") {
            Some(v) => v,
            None => String::new(),
        };
        let extension = non_empty_attribute(tree, id, "extension");
        let charset = match non_empty_attribute(tree, id, "charset") {
            Some(v) => Some(v),
            None => non_empty_attribute(tree, id, "charSet"),
        };
        MimeType { top_level_type, subtype, extension, charset }
    }
}

/// Whether a document can be extracted, as plain values.
pub struct ExtractionCapabilityView {
    pub can_extract: bool,
    pub unavailable_reason: Option<Seq<char>>,
    pub unavailable_reason_code: Option<ExtractionUnavailableReason>,
}

/// Whether a document can be extracted, and why not when it cannot.
#[derive(Debug, PartialEq, Eq)]
pub struct ExtractionCapability {
    can_extract: bool,
    unavailable_reason: Option<String>,
    unavailable_reason_code: Option<ExtractionUnavailableReason>,
}

impl View for ExtractionCapability {
    type V = ExtractionCapabilityView;

    closed spec fn view(&self) -> ExtractionCapabilityView {
        ExtractionCapabilityView {
            can_extract: self.can_extract,
            unavailable_reason: opt_view(self.unavailable_reason),
            unavailable_reason_code: self.unavailable_reason_code,
        }
    }
}

impl Clone for ExtractionCapability {
    fn clone(&self) -> (res: Self)
        ensures
            res@ == self@,
    {
        ExtractionCapability {
            can_extract: self.can_extract,
            unavailable_reason: clone_opt_string(&self.unavailable_reason),
            unavailable_reason_code: self.unavailable_reason_code,
        }
    }
}

/// The capability of a document with the given transform chain: extractable
/// unless encrypted, with the encryption reason and its code otherwise.
pub open spec fn spec_capability_from_chain(chain: Seq<Transform>) -> ExtractionCapabilityView {
    let support = spec_extraction_support(chain);
    let code = support.spec_unavailable_reason_code();
    ExtractionCapabilityView {
        can_extract: support == ExtractionSupport::Supported,
        unavailable_reason: match code {
            Some(reason) => Some(reason.spec_message()),
            None => None,
        },
        unavailable_reason_code: code,
    }
}

impl ExtractionCapability {
    /// Whether the document can be extracted.
    pub fn can_extract(&self) -> (res: bool)
        ensures
            res == self@.can_extract,
    {
        self.can_extract
    }

    /// Why the document cannot be extracted, if it cannot.
    pub fn unavailable_reason(&self) -> (res: Option<&str>)
        ensures
            match res {
                Some(r) => self@.unavailable_reason == Some(r@),
                None => self@.unavailable_reason is None,
            },
    {
        match &self.unavailable_reason {
            Some(r) => Some(r.as_str()),
            None => None,
        }
    }

    /// The code of why the document cannot be extracted, if it cannot.
    pub fn unavailable_reason_code(&self) -> (res: Option<ExtractionUnavailableReason>)
        ensures
            res == self@.unavailable_reason_code,
    {
        self.unavailable_reason_code
    }

    /// A capability from its parts.
    pub fn new(
        can_extract: bool,
        unavailable_reason: Option<String>,
        unavailable_reason_code: Option<ExtractionUnavailableReason>,
    ) -> (res: ExtractionCapability)
        ensures
            res@ == (ExtractionCapabilityView {
                can_extract,
                unavailable_reason: crate::text::opt_view(unavailable_reason),
                unavailable_reason_code,
            }),
    {
        ExtractionCapability { can_extract, unavailable_reason, unavailable_reason_code }
    }

    /// The capability of a document with the given transform chain.
    pub fn from_chain(transform_chain: &TransformChain) -> (res: ExtractionCapability)
        ensures
            res@ == spec_capability_from_chain(transform_chain@),
    {
        let support = transform_chain.extraction_support();
        let unavailable_reason_code = support.unavailable_reason_code();
        let unavailable_reason = match unavailable_reason_code {
            Some(reason) => Some(reason.message().to_owned()),
            None => None,
        };
        ExtractionCapability { can_extract: support.can_extract(), unavailable_reason, unavailable_reason_code }
    }
}

/// A document's metadata as plain values.
pub struct DocumentEntryView {
    pub index: usize,
    pub title: Seq<char>,
    pub mime_type: MimeTypeView,
    pub source_size: u64,
    pub transforms: Seq<Transform>,
    pub extraction: ExtractionCapabilityView,
    pub signature_count: usize,
    pub timestamp_count: usize,
}

/// The metadata of an embedded document: its position, title, MIME type,
/// declared size, transforms, extraction capability, and how many signatures
/// and time stamps it carries.
#[derive(Debug, PartialEq, Eq)]
pub struct DocumentEntry {
    index: usize,
    title: String,
    mime_type: MimeType,
    source_size: u64,
    transforms: Vec<Transform>,
    extraction: ExtractionCapability,
    signature_count: usize,
    timestamp_count: usize,
}

impl View for DocumentEntry {
    type V = DocumentEntryView;

    closed spec fn view(&self) -> DocumentEntryView {
        DocumentEntryView {
            index: self.index,
            title: self.title@,
            mime_type: self.mime_type@,
            source_size: self.source_size,
            transforms: self.transforms@,
            extraction: self.extraction@,
            signature_count: self.signature_count,
            timestamp_count: self.timestamp_count,
        }
    }
}

impl Clone for DocumentEntry {
    fn clone(&self) -> (res: Self)
        ensures
            res@ == self@,
    {
        DocumentEntry {
            index: self.index,
            title: self.title.clone(),
            mime_type: self.mime_type.clone(),
            source_size: self.source_size,
            transforms: copy_transforms(self.transforms.as_slice()),
            extraction: self.extraction.clone(),
            signature_count: self.signature_count,
            timestamp_count: self.timestamp_count,
        }
    }
}

impl DocumentEntry {
    /// An entry from its parts.
    pub fn new(
        index: usize,
        title: String,
        mime_type: MimeType,
        source_size: u64,
        transforms: Vec<Transform>,
        extraction: ExtractionCapability,
        signature_count: usize,
        timestamp_count: usize,
    ) -> (res: DocumentEntry)
        ensures
            res@ == (DocumentEntryView {
                index,
                title: title@,
                mime_type: mime_type@,
                source_size,
                transforms: transforms@,
                extraction: extraction@,
                signature_count,
                timestamp_count,
            }),
    {
        DocumentEntry {
            index,
            title,
            mime_type,
            source_size,
            transforms,
            extraction,
            signature_count,
            timestamp_count,
        }
    }

    /// The document's zero-based position in the dossier.
    pub fn index(&self) -> (res: usize)
        ensures
            res == self@.index,
    {
        self.index
    }

    /// The document's title.
    pub fn title(&self) -> (res: &str)
        ensures
            res@ == self@.title,
    {
        self.title.as_str()
    }

    /// The document's MIME type.
    pub fn mime_type(&self) -> (res: &MimeType)
        ensures
            res@ == self@.mime_type,
    {
        &self.mime_type
    }

    /// The document's declared size.
    pub fn source_size(&self) -> (res: u64)
        ensures
            res == self@.source_size,
    {
        self.source_size
    }

    /// The document's transforms, outermost first.
    pub fn transforms(&self) -> (res: &[Transform])
        ensures
            res@ == self@.transforms,
    {
        self.transforms.as_slice()
    }

    /// Whether and why the document can be extracted.
    pub fn extraction(&self) -> (res: &ExtractionCapability)
        ensures
            res@ == self@.extraction,
    {
        &self.extraction
    }

    /// How many signatures the document carries.
    pub fn signature_count(&self) -> (res: usize)
        ensures
            res == self@.signature_count,
    {
        self.signature_count
    }

    /// How many time stamps the document carries.
    pub fn timestamp_count(&self) -> (res: usize)
        ensures
            res == self@.timestamp_count,
    {
        self.timestamp_count
    }

    /// The file name under which the document is extracted.
    pub fn suggested_filename(&self) -> (res: String)
        ensures
            res@ == crate::output::spec_filename_from_parts(
                self@.index,
                self@.title,
                self@.mime_type.extension,
            ),
    {
        crate::output::filename_for(self)
    }

    /// Whether the document can be extracted.
    pub fn can_extract(&self) -> (res: bool)
        ensures
            res == self@.extraction.can_extract,
    {
        self.extraction.can_extract()
    }

    /// Why the document cannot be extracted, if it cannot.
    pub fn unavailable_reason(&self) -> (res: Option<&str>)
        ensures
            match res {
                Some(r) => self@.extraction.unavailable_reason == Some(r@),
                None => self@.extraction.unavailable_reason is None,
            },
    {
        self.extraction.unavailable_reason()
    }

    /// The code of why the document cannot be extracted, if it cannot.
    pub fn unavailable_reason_code(&self) -> (res: Option<ExtractionUnavailableReason>)
        ensures
            res == self@.extraction.unavailable_reason_code,
    {
        self.extraction.unavailable_reason_code()
    }
}

/// A document as extracted: its entry, file name and bytes.
#[derive(Debug, PartialEq, Eq)]
pub struct ExtractedDocument {
    pub entry: DocumentEntry,
    pub filename: String,
    pub bytes: Vec<u8>,
}

/// An extracted document as plain values.
pub struct ExtractedDocumentView {
    pub entry: DocumentEntryView,
    pub filename: Seq<char>,
    pub bytes: Seq<u8>,
}

impl View for ExtractedDocument {
    type V = ExtractedDocumentView;

    open spec fn view(&self) -> ExtractedDocumentView {
        ExtractedDocumentView { entry: self.entry@, filename: self.filename@, bytes: self.bytes@ }
    }
}

} // verus!
