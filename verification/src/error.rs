//! The library's error type and its messages.
use vstd::prelude::*;
use vstd::string::StringExecFns;
use crate::text::{concat2, concat3, decimal, spec_decimal};

verus! {

/// Everything that can go wrong while reading, parsing, validating or
/// extracting a dossier. Errors reported by the XML parser, UTF-8 decoding,
/// base64 decoding and the zip reader carry those components' messages.
#[derive(Debug)]
pub enum Error {
    ReadInput { message: String },
    Utf8 { message: String },
    Xml { message: String },
    XmlAttributeMarkerLimitReached { markers: usize, limit: usize },
    InvalidRoot,
    MissingElement { element: String },
    InvalidPayloadCount { index: usize, count: usize },
    UnknownTransform { algorithm: String },
    InvalidTransformOrder,
    InvalidInteger { field: String, value: String },
    InvalidStructure { message: String },
    Base64 { message: String },
    Base64PayloadTooLarge { size: usize, limit: usize },
    PayloadTextTooLarge { size: usize, limit: usize },
    Zip { message: String },
    InvalidZipEntryCount { count: usize },
    ZipEntryTooLarge { size: u64, limit: u64 },
    ReadZipEntry { name: String, message: String },
    EncryptedDocumentUnsupported,
    DocumentIndexOutOfRange { index: usize },
    DocumentTitleNotFound { title: String },
    AmbiguousDocumentTitle { title: String },
}

/// The outcome of an operation of this library.
pub type Result<T> = std::result::Result<T, Error>;

/// An error as plain values: what each variant of [`Error`] carries.
pub enum ErrorView {
    ReadInput { message: Seq<char> },
    Utf8 { message: Seq<char> },
    Xml { message: Seq<char> },
    XmlAttributeMarkerLimitReached { markers: usize, limit: usize },
    InvalidRoot,
    MissingElement { element: Seq<char> },
    InvalidPayloadCount { index: usize, count: usize },
    UnknownTransform { algorithm: Seq<char> },
    InvalidTransformOrder,
    InvalidInteger { field: Seq<char>, value: Seq<char> },
    InvalidStructure { message: Seq<char> },
    Base64 { message: Seq<char> },
    Base64PayloadTooLarge { size: usize, limit: usize },
    PayloadTextTooLarge { size: usize, limit: usize },
    Zip { message: Seq<char> },
    InvalidZipEntryCount { count: usize },
    ZipEntryTooLarge { size: u64, limit: u64 },
    ReadZipEntry { name: Seq<char>, message: Seq<char> },
    EncryptedDocumentUnsupported,
    DocumentIndexOutOfRange { index: usize },
    DocumentTitleNotFound { title: Seq<char> },
    AmbiguousDocumentTitle { title: Seq<char> },
}

impl View for Error {
    type V = ErrorView;

    open spec fn view(&self) -> ErrorView {
        match self {
            Error::ReadInput { message } => ErrorView::ReadInput { message: message@ },
            Error::Utf8 { message } => ErrorView::Utf8 { message: message@ },
            Error::Xml { message } => ErrorView::Xml { message: message@ },
            Error::XmlAttributeMarkerLimitReached { markers, limit } => ErrorView::XmlAttributeMarkerLimitReached { markers: *markers, limit: *limit },
            Error::InvalidRoot => ErrorView::InvalidRoot,
            Error::MissingElement { element } => ErrorView::MissingElement { element: element@ },
            Error::InvalidPayloadCount { index, count } => ErrorView::InvalidPayloadCount { index: *index, count: *count },
            Error::UnknownTransform { algorithm } => ErrorView::UnknownTransform { algorithm: algorithm@ },
            Error::InvalidTransformOrder => ErrorView::InvalidTransformOrder,
            Error::InvalidInteger { field, value } => ErrorView::InvalidInteger { field: field@, value: value@ },
            Error::InvalidStructure { message } => ErrorView::InvalidStructure { message: message@ },
            Error::Base64 { message } => ErrorView::Base64 { message: message@ },
            Error::Base64PayloadTooLarge { size, limit } => ErrorView::Base64PayloadTooLarge { size: *size, limit: *limit },
            Error::PayloadTextTooLarge { size, limit } => ErrorView::PayloadTextTooLarge { size: *size, limit: *limit },
            Error::Zip { message } => ErrorView::Zip { message: message@ },
            Error::InvalidZipEntryCount { count } => ErrorView::InvalidZipEntryCount { count: *count },
            Error::ZipEntryTooLarge { size, limit } => ErrorView::ZipEntryTooLarge { size: *size, limit: *limit },
            Error::ReadZipEntry { name, message } => ErrorView::ReadZipEntry { name: name@, message: message@ },
            Error::EncryptedDocumentUnsupported => ErrorView::EncryptedDocumentUnsupported,
            Error::DocumentIndexOutOfRange { index } => ErrorView::DocumentIndexOutOfRange { index: *index },
            Error::DocumentTitleNotFound { title } => ErrorView::DocumentTitleNotFound { title: title@ },
            Error::AmbiguousDocumentTitle { title } => ErrorView::AmbiguousDocumentTitle { title: title@ },
        }
    }
}

/// How `{:?}` renders a string (with quotes and escapes).
pub uninterp spec fn spec_debug_str(s: Seq<char>) -> Seq<char>;

/// Renders a string as `{:?}` does (`<str as Debug>::fmt`). Claims: the named
/// rendering of the string.
#[verifier::external_body]
pub fn debug_str(s: &str) -> (res: String)
    ensures
        res@ == spec_debug_str(s@),
{
    format!("{:?}", s)
}

/// The message of the invalid-order error.
pub open spec fn invalid_transform_order_message() -> Seq<char> {
    "invalid transform order: expected base64, zip+base64, encrypt+base64, or zip+encrypt+base64"@
}

/// "`prefix`{size} bytes exceeds {limit} byte limit".
pub open spec fn size_limit_message(prefix: Seq<char>, size: nat, limit: nat) -> Seq<char> {
    prefix + spec_decimal(size) + " bytes exceeds "@ + spec_decimal(limit) + " byte limit"@
}

/// "missing required element {element}".
pub open spec fn missing_element_message(element: Seq<char>) -> Seq<char> {
    "missing required element "@ + element
}

/// "document {index} must have exactly one direct ds:Object payload, found {count}".
pub open spec fn payload_count_message(index: nat, count: nat) -> Seq<char> {
    "document "@ + spec_decimal(index) + " must have exactly one direct ds:Object payload, found "@
        + spec_decimal(count)
}

impl ErrorView {
    /// The message that the error displays.
    pub open spec fn message(self) -> Seq<char> {
        match self {
            ErrorView::ReadInput { message } => "failed to read ES3 XML input: "@ + message,
            ErrorView::Utf8 { message } => "ES3 XML is not valid UTF-8: "@ + message,
            ErrorView::Xml { message } => "failed to parse XML: "@ + message,
            ErrorView::XmlAttributeMarkerLimitReached { markers, limit } => "XML parser attribute marker limit reached: "@
                + spec_decimal(markers as nat) + " attribute markers exceeds "@ + spec_decimal(
                limit as nat,
            ) + " marker limit"@,
            ErrorView::InvalidRoot => "root element must be es:Dossier in the ES3 namespace"@,
            ErrorView::MissingElement { element } => missing_element_message(element),
            ErrorView::InvalidPayloadCount { index, count } => payload_count_message(
                index as nat,
                count as nat,
            ),
            ErrorView::UnknownTransform { algorithm } => "unknown transform algorithm "@ + algorithm,
            ErrorView::InvalidTransformOrder => invalid_transform_order_message(),
            ErrorView::InvalidInteger { field, value } => "invalid integer in "@ + field + ": "@
                + value,
            ErrorView::InvalidStructure { message } => message,
            ErrorView::Base64 { message } => "invalid base64 payload: "@ + message,
            ErrorView::Base64PayloadTooLarge { size, limit } => size_limit_message(
                "base64 payload text is too large: "@,
                size as nat,
                limit as nat,
            ),
            ErrorView::PayloadTextTooLarge { size, limit } => size_limit_message(
                "document payload text is too large: "@,
                size as nat,
                limit as nat,
            ),
            ErrorView::Zip { message } => "zip payload error: "@ + message,
            ErrorView::InvalidZipEntryCount { count } => "zip payload must contain exactly one file entry, found "@
                + spec_decimal(count as nat),
            ErrorView::ZipEntryTooLarge { size, limit } => size_limit_message(
                "zip entry is too large: "@,
                size as nat,
                limit as nat,
            ),
            ErrorView::ReadZipEntry { name, message } => "failed to read zip entry "@ + name + ": "@
                + message,
            ErrorView::EncryptedDocumentUnsupported => "encrypted document extraction is not supported"@,
            ErrorView::DocumentIndexOutOfRange { index } => "document index "@ + spec_decimal(
                index as nat,
            ) + " is out of range"@,
            ErrorView::DocumentTitleNotFound { title } => "no document title matches "@
                + spec_debug_str(title),
            ErrorView::AmbiguousDocumentTitle { title } => "multiple documents match title "@
                + spec_debug_str(title) + "; use --index"@,
        }
    }
}

impl Error {
    /// The message that the error displays.
    pub fn to_string(&self) -> (res: String)
        ensures
            res@ == self@.message(),
    {
        match self {
            Error::ReadInput { message } => concat2("failed to read ES3 XML input: ", message.as_str()),
            Error::Utf8 { message } => concat2("ES3 XML is not valid UTF-8: ", message.as_str()),
            Error::Xml { message } => concat2("failed to parse XML: ", message.as_str()),
            Error::XmlAttributeMarkerLimitReached { markers, limit } => {
                let mut s = concat2(
                    "XML parser attribute marker limit reached: ",
                    decimal(*markers as u64).as_str(),
                );
                s.append(" attribute markers exceeds ");
                s.append(decimal(*limit as u64).as_str());
                s.append(" marker limit");
                s
            },
            Error::InvalidRoot => "root element must be es:Dossier in the ES3 namespace".to_owned(),
            Error::MissingElement { element } => missing_element_string(element.as_str()),
            Error::InvalidPayloadCount { index, count } => payload_count_string(*index, *count),
            Error::UnknownTransform { algorithm } => concat2("unknown transform algorithm ", algorithm.as_str()),
            Error::InvalidTransformOrder => invalid_transform_order_string(),
            Error::InvalidInteger { field, value } => {
                let mut s = concat3("invalid integer in ", field.as_str(), ": ");
                s.append(value.as_str());
                s
            },
            Error::InvalidStructure { message } => message.clone(),
            Error::Base64 { message } => concat2("invalid base64 payload: ", message.as_str()),
            Error::Base64PayloadTooLarge { size, limit } => size_limit_string(
                "base64 payload text is too large: ",
                *size as u64,
                *limit as u64,
            ),
            Error::PayloadTextTooLarge { size, limit } => size_limit_string(
                "document payload text is too large: ",
                *size as u64,
                *limit as u64,
            ),
            Error::Zip { message } => concat2("zip payload error: ", message.as_str()),
            Error::InvalidZipEntryCount { count } => concat2(
                "zip payload must contain exactly one file entry, found ",
                decimal(*count as u64).as_str(),
            ),
            Error::ZipEntryTooLarge { size, limit } => size_limit_string("zip entry is too large: ", *size, *limit),
            Error::ReadZipEntry { name, message } => {
                let mut s = concat3("failed to read zip entry ", name.as_str(), ": ");
                s.append(message.as_str());
                s
            },
            Error::EncryptedDocumentUnsupported => "encrypted document extraction is not supported".to_owned(),
            Error::DocumentIndexOutOfRange { index } => concat3(
                "document index ",
                decimal(*index as u64).as_str(),
                " is out of range",
            ),
            Error::DocumentTitleNotFound { title } => concat2(
                "no document title matches ",
                debug_str(title.as_str()).as_str(),
            ),
            Error::AmbiguousDocumentTitle { title } => concat3(
                "multiple documents match title ",
                debug_str(title.as_str()).as_str(),
                "; use --index",
            ),
        }
    }
}

/// The message of the invalid-order error.
pub fn invalid_transform_order_string() -> (res: String)
    ensures
        res@ == invalid_transform_order_message(),
{
    "invalid transform order: expected base64, zip+base64, encrypt+base64, or zip+encrypt+base64".to_owned()
}

/// "`prefix`{size} bytes exceeds {limit} byte limit".
pub fn size_limit_string(prefix: &str, size: u64, limit: u64) -> (res: String)
    ensures
        res@ == size_limit_message(prefix@, size as nat, limit as nat),
{
    let mut s = concat2(prefix, decimal(size).as_str());
    s.append(" bytes exceeds ");
    s.append(decimal(limit).as_str());
    s.append(" byte limit");
    s
}

/// "missing required element {element}".
pub fn missing_element_string(element: &str) -> (res: String)
    ensures
        res@ == missing_element_message(element@),
{
    concat2("missing required element ", element)
}

/// "document {index} must have exactly one direct ds:Object payload, found {count}".
pub fn payload_count_string(index: usize, count: usize) -> (res: String)
    ensures
        res@ == payload_count_message(index as nat, count as nat),
{
    let mut s = concat3(
        "document ",
        decimal(index as u64).as_str(),
        " must have exactly one direct ds:Object payload, found ",
    );
    s.append(decimal(count as u64).as_str());
    s
}

} // verus!
