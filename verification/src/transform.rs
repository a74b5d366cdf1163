//! Payload transforms: which chains a document may declare, whether its
//! payload can be extracted, and how the payload is decoded and checked.
use vstd::prelude::*;
use crate::codec::{
    base64_decode, spec_base64_decode, spec_zip_entry_is_dir, spec_zip_entry_name_size,
    spec_zip_len, spec_zip_open_error, spec_zip_read_entry, zip_archive_source, zip_entry_is_dir,
    zip_entry_name_size, zip_len, zip_open, zip_read_entry,
};
use crate::error::{Error, ErrorView};
use crate::seqs::{lemma_filter_empty, lemma_filter_take_succ, lemma_take_full};
use crate::text::string_push;

verus! {

broadcast use vstd::string::group_string_axioms;

/// The largest uncompressed zip entry that extraction accepts, in bytes.
pub const MAX_ZIP_ENTRY_SIZE: u64 = 536870912;

/// The largest document payload text that is decoded, in bytes.
pub const MAX_PAYLOAD_TEXT_SIZE: usize = 16777216;

/// A transform that a document profile declares for its payload.
#[derive(Clone, Copy, Debug, PartialEq, Eq, Structural)]
pub enum Transform {
    Zip,
    Encrypt,
    Base64,
}

/// Why a document cannot be extracted.
#[derive(Clone, Copy, Debug, PartialEq, Eq, Structural)]
pub enum ExtractionUnavailableReason {
    EncryptedDocument,
}

impl ExtractionUnavailableReason {
    /// The human-readable reason.
    pub open spec fn spec_message(self) -> Seq<char> {
        match self {
            ExtractionUnavailableReason::EncryptedDocument => "Encrypted document extraction is not supported"@,
        }
    }

    /// The human-readable reason.
    pub fn message(self) -> (res: &'static str)
        ensures
            res@ == self.spec_message(),
    {
        match self {
            ExtractionUnavailableReason::EncryptedDocument => "Encrypted document extraction is not supported",
        }
    }
}

impl Transform {
    /// The algorithm name of a transform.
    pub open spec fn spec_as_str(self) -> Seq<char> {
        match self {
            Transform::Zip => "zip"@,
            Transform::Encrypt => "encrypt"@,
            Transform::Base64 => "base64"@,
        }
    }

    /// The algorithm name of a transform.
    pub fn as_str(self) -> (res: &'static str)
        ensures
            res@ == self.spec_as_str(),
    {
        match self {
            Transform::Zip => "zip",
            Transform::Encrypt => "encrypt",
            Transform::Base64 => "base64",
        }
    }

    /// The transform that an algorithm name denotes.
    pub open spec fn spec_parse(value: Seq<char>) -> Option<Transform> {
        if value == "zip"@ {
            Some(Transform::Zip)
        } else if value == "encrypt"@ {
            Some(Transform::Encrypt)
        } else if value == "base64"@ {
            Some(Transform::Base64)
        } else {
            None
        }
    }

    /// Parses an algorithm name; an unknown one is an `UnknownTransform` error
    /// that carries it.
    pub fn parse(value: &str) -> (res: Result<Transform, Error>)
        ensures
            match res {
                Ok(t) => Transform::spec_parse(value@) == Some(t),
                Err(e) => Transform::spec_parse(value@) is None && e@ == (ErrorView::UnknownTransform {
                    algorithm: value@,
                }),
            },
    {
        if crate::text::str_eq(value, "zip") {
            Ok(Transform::Zip)
        } else if crate::text::str_eq(value, "encrypt") {
            Ok(Transform::Encrypt)
        } else if crate::text::str_eq(value, "base64") {
            Ok(Transform::Base64)
        } else {
            Err(Error::UnknownTransform { algorithm: value.to_owned() })
        }
    }
}

impl std::str::FromStr for Transform {
    type Err = Error;

    fn from_str(value: &str) -> (res: Result<Transform, Error>)
        ensures
            match res {
                Ok(t) => Transform::spec_parse(value@) == Some(t),
                Err(e) => Transform::spec_parse(value@) is None && e@ == (ErrorView::UnknownTransform {
                    algorithm: value@,
                }),
            },
    {
        Transform::parse(value)
    }
}

impl TryFrom<&str> for Transform {
    type Error = Error;

    fn try_from(value: &str) -> (res: Result<Transform, Error>)
        ensures
            match res {
                Ok(t) => Transform::spec_parse(value@) == Some(t),
                Err(e) => Transform::spec_parse(value@) is None && e@ == (ErrorView::UnknownTransform {
                    algorithm: value@,
                }),
            },
    {
        Transform::parse(value)
    }
}

/// `Transform::try_from` states its result in its own contract, that of
/// `Transform::parse`; nothing is claimed through the trait's spec.
impl vstd::std_specs::convert::TryFromSpecImpl<&str> for Transform {
    open spec fn obeys_try_from_spec() -> bool {
        false
    }

    open spec fn try_from_spec(value: &str) -> Result<Transform, Error> {
        arbitrary()
    }
}

impl Transform {
    /// The algorithm name of a transform, as an owned text.
    pub fn to_string(self) -> (res: String)
        ensures
            res@ == self.spec_as_str(),
    {
        self.as_str().to_owned()
    }
}

/// The transform chains that a payload may declare, outermost first:
/// base64, zip+base64, encrypt+base64, or zip+encrypt+base64.
pub open spec fn spec_valid_chain(transforms: Seq<Transform>) -> bool {
    ||| transforms == seq![Transform::Base64]
    ||| transforms == seq![Transform::Zip, Transform::Base64]
    ||| transforms == seq![Transform::Encrypt, Transform::Base64]
    ||| transforms == seq![Transform::Zip, Transform::Encrypt, Transform::Base64]
}

/// Why a declared transform list is not a chain.
#[derive(Clone, Copy, Debug, PartialEq, Eq, Structural)]
pub enum TransformValidationError {
    InvalidOrder,
}

impl TransformValidationError {
    pub fn message(self) -> (res: &'static str)
        ensures
            res@ == crate::error::invalid_transform_order_message(),
    {
        "invalid transform order: expected base64, zip+base64, encrypt+base64, or zip+encrypt+base64"
    }
}

/// Whether a payload can be extracted.
#[derive(Clone, Copy, Debug, PartialEq, Eq, Structural)]
pub enum ExtractionSupport {
    Supported,
    EncryptedUnsupported,
}

impl ExtractionSupport {
    pub fn can_extract(self) -> (res: bool)
        ensures
            res == (self == ExtractionSupport::Supported),
    {
        match self {
            ExtractionSupport::Supported => true,
            ExtractionSupport::EncryptedUnsupported => false,
        }
    }

    pub open spec fn spec_unavailable_reason_code(self) -> Option<ExtractionUnavailableReason> {
        match self {
            ExtractionSupport::Supported => None,
            ExtractionSupport::EncryptedUnsupported => Some(ExtractionUnavailableReason::EncryptedDocument),
        }
    }

    pub fn unavailable_reason_code(self) -> (res: Option<ExtractionUnavailableReason>)
        ensures
            res == self.spec_unavailable_reason_code(),
    {
        match self {
            ExtractionSupport::Supported => None,
            ExtractionSupport::EncryptedUnsupported => Some(ExtractionUnavailableReason::EncryptedDocument),
        }
    }
}

/// A finding about a payload while it is checked.
#[derive(Debug)]
pub enum TransformPayloadIssue {
    Error(Error),
    EncryptedPayloadWarning,
}

/// A payload finding as plain values.
pub enum PayloadIssueView {
    Error(ErrorView),
    EncryptedPayloadWarning,
}

impl View for TransformPayloadIssue {
    type V = PayloadIssueView;

    open spec fn view(&self) -> PayloadIssueView {
        match self {
            TransformPayloadIssue::Error(e) => PayloadIssueView::Error(e@),
            TransformPayloadIssue::EncryptedPayloadWarning => PayloadIssueView::EncryptedPayloadWarning,
        }
    }
}

/// The characters that `char::is_ascii_whitespace` accepts.
pub open spec fn is_ascii_whitespace(c: char) -> bool {
    c == ' ' || c == '\t' || c == '\n' || c == '\x0C' || c == '\r'
}

/// A text without its ASCII whitespace.
pub open spec fn spec_strip_ascii_whitespace(text: Seq<char>) -> Seq<char> {
    text.filter(|c: char| !is_ascii_whitespace(c))
}

/// The number of bytes of a text in UTF-8, as `str::len` reports it.
pub open spec fn utf8_len(text: Seq<char>) -> usize {
    vstd::utf8::encode_utf8(text).len() as usize
}

/// Base64 decoding of a payload text: too long a text is refused, ASCII
/// whitespace is ignored, and the rest is decoded.
pub open spec fn spec_decode_base64_text(text: Seq<char>) -> Result<Seq<u8>, ErrorView> {
    if utf8_len(text) > MAX_PAYLOAD_TEXT_SIZE {
        Err(ErrorView::Base64PayloadTooLarge { size: utf8_len(text), limit: MAX_PAYLOAD_TEXT_SIZE })
    } else {
        match spec_base64_decode(spec_strip_ascii_whitespace(text)) {
            Ok(bytes) => Ok(bytes),
            Err(message) => Err(ErrorView::Base64 { message }),
        }
    }
}

/// The entries `0..n` of an archive scanned in order: how many are files and
/// the last file's index, or the first error.
pub open spec fn spec_zip_scan(bytes: Seq<u8>, n: nat) -> Result<(nat, Option<nat>), Seq<char>>
    decreases n,
{
    if n == 0 {
        Ok((0, None))
    } else {
        match spec_zip_scan(bytes, (n - 1) as nat) {
            Err(message) => Err(message),
            Ok((count, last)) => match spec_zip_entry_is_dir(bytes, (n - 1) as nat) {
                Err(message) => Err(message),
                Ok(is_dir) => if is_dir {
                    Ok((count, last))
                } else {
                    Ok((count + 1, Some((n - 1) as nat)))
                },
            },
        }
    }
}

/// An error met while scanning stays the outcome of any longer scan.
pub proof fn lemma_zip_scan_error_persists(bytes: Seq<u8>, i: nat, n: nat)
    requires
        i <= n,
        spec_zip_scan(bytes, i) is Err,
    ensures
        spec_zip_scan(bytes, n) == spec_zip_scan(bytes, i),
    decreases n - i,
{
    if i < n {
        lemma_zip_scan_error_persists(bytes, i, (n - 1) as nat);
    }
}

/// The content of a zip archive that holds exactly one file: the archive
/// must open, hold exactly one non-directory entry, and that entry must
/// declare and have at most `MAX_ZIP_ENTRY_SIZE` bytes.
pub open spec fn spec_unzip(bytes: Seq<u8>) -> Result<Seq<u8>, ErrorView> {
    match spec_zip_open_error(bytes) {
        Some(message) => Err(ErrorView::Zip { message }),
        None => match spec_zip_scan(bytes, spec_zip_len(bytes)) {
            Err(message) => Err(ErrorView::Zip { message }),
            Ok((count, last)) => if count != 1 {
                Err(ErrorView::InvalidZipEntryCount { count: count as usize })
            } else {
                let index = last.unwrap();
                match spec_zip_entry_name_size(bytes, index) {
                    Err(message) => Err(ErrorView::Zip { message }),
                    Ok((name, size)) => if size > MAX_ZIP_ENTRY_SIZE {
                        Err(ErrorView::ZipEntryTooLarge { size, limit: MAX_ZIP_ENTRY_SIZE })
                    } else {
                        match spec_zip_read_entry(bytes, index, (MAX_ZIP_ENTRY_SIZE + 1) as u64) {
                            Err((read_failed, message)) => if read_failed {
                                Err(ErrorView::ReadZipEntry { name, message })
                            } else {
                                Err(ErrorView::Zip { message })
                            },
                            Ok(output) => if output.len() > MAX_ZIP_ENTRY_SIZE {
                                Err(ErrorView::ZipEntryTooLarge { size: output.len() as u64, limit: MAX_ZIP_ENTRY_SIZE })
                            } else {
                                Ok(output)
                            },
                        }
                    },
                }
            },
        },
    }
}

/// Removes ASCII whitespace from a text.
pub fn strip_ascii_whitespace(text: &str) -> (res: String)
    ensures
        res@ == spec_strip_ascii_whitespace(text@),
{
    let ghost pred = |c: char| !is_ascii_whitespace(c);
    let mut out = String::new();
    proof {
        lemma_filter_empty(text@.take(0), pred);
    }
    for c in it: text.chars()
        invariant
            pred == (|c: char| !is_ascii_whitespace(c)),
            it.seq() == text@,
            out@ == text@.take(it.index() as int).filter(pred),
    {
        proof {
            lemma_filter_take_succ(text@, it.index() as int, pred);
        }
        if !(c == ' ' || c == '\t' || c == '\n' || c == '\x0C' || c == '\r') {
            string_push(&mut out, c);
        }
    }
    proof {
        lemma_take_full(text@);
    }
    out
}

/// Decodes a base64 payload text, ignoring ASCII whitespace; a text longer
/// than `MAX_PAYLOAD_TEXT_SIZE` bytes is refused.
pub fn decode_base64(payload_text: &str) -> (res: Result<Vec<u8>, Error>)
    ensures
        match res {
            Ok(bytes) => spec_decode_base64_text(payload_text@) == Ok::<Seq<u8>, ErrorView>(bytes@),
            Err(e) => spec_decode_base64_text(payload_text@) == Err::<Seq<u8>, ErrorView>(e@),
        },
{
    let size = payload_text.len();
    if size > MAX_PAYLOAD_TEXT_SIZE {
        return Err(Error::Base64PayloadTooLarge { size, limit: MAX_PAYLOAD_TEXT_SIZE });
    }
    let stripped = strip_ascii_whitespace(payload_text);
    match base64_decode(stripped.as_str()) {
        Ok(bytes) => Ok(bytes),
        Err(message) => Err(Error::Base64 { message }),
    }
}

/// Extracts the single file of a zip archive.
pub fn unzip_single_file(bytes: &[u8]) -> (res: Result<Vec<u8>, Error>)
    ensures
        match res {
            Ok(output) => spec_unzip(bytes@) == Ok::<Seq<u8>, ErrorView>(output@),
            Err(e) => spec_unzip(bytes@) == Err::<Seq<u8>, ErrorView>(e@),
        },
{
    let mut archive = match zip_open(bytes) {
        Ok(archive) => archive,
        Err(message) => return Err(Error::Zip { message }),
    };
    let ghost source = bytes@;
    let len = zip_len(&archive);
    let mut file_index: Option<usize> = None;
    let mut file_count: usize = 0;
    let mut index: usize = 0;
    while index < len
        invariant
            index <= len,
            len == spec_zip_len(source),
            zip_archive_source(archive) == source,
            source == bytes@,
            spec_zip_open_error(source) is None,
            file_count <= index,
            spec_zip_scan(source, index as nat) == Ok::<(nat, Option<nat>), Seq<char>>(
                (file_count as nat, match file_index { Some(i) => Some(i as nat), None => None }),
            ),
            file_index matches Some(i) ==> i < index,
            file_index is None ==> file_count == 0,
        decreases len - index,
    {
        match zip_entry_is_dir(&mut archive, index) {
            Err(message) => {
                proof {
                    assert(spec_zip_scan(source, (index + 1) as nat) == Err::<(nat, Option<nat>), Seq<char>>(message@));
                    lemma_zip_scan_error_persists(source, (index + 1) as nat, len as nat);
                }
                return Err(Error::Zip { message });
            },
            Ok(is_dir) => {
                if !is_dir {
                    file_index = Some(index);
                    file_count = file_count + 1;
                }
            },
        }
        index = index + 1;
    }
    let file_index = match file_index {
        Some(i) => {
            if file_count == 1 {
                i
            } else {
                return Err(Error::InvalidZipEntryCount { count: file_count });
            }
        },
        None => return Err(Error::InvalidZipEntryCount { count: file_count }),
    };
    let (name, declared_size) = match zip_entry_name_size(&mut archive, file_index) {
        Ok(pair) => pair,
        Err(message) => return Err(Error::Zip { message }),
    };
    if declared_size > MAX_ZIP_ENTRY_SIZE {
        return Err(Error::ZipEntryTooLarge { size: declared_size, limit: MAX_ZIP_ENTRY_SIZE });
    }
    let output = match zip_read_entry(&mut archive, file_index, MAX_ZIP_ENTRY_SIZE + 1) {
        Ok(output) => output,
        Err((read_failed, message)) => {
            if read_failed {
                return Err(Error::ReadZipEntry { name, message });
            } else {
                return Err(Error::Zip { message });
            }
        },
    };
    if output.len() as u64 > MAX_ZIP_ENTRY_SIZE {
        return Err(Error::ZipEntryTooLarge { size: output.len() as u64, limit: MAX_ZIP_ENTRY_SIZE });
    }
    Ok(output)
}

/// A copy of a list of transforms.
pub fn copy_transforms(transforms: &[Transform]) -> (res: Vec<Transform>)
    ensures
        res@ == transforms@,
{
    let n = transforms.len();
    let mut copy: Vec<Transform> = Vec::new();
    let mut i: usize = 0;
    while i < n
        invariant
            i <= n,
            n == transforms@.len(),
            copy@ == transforms@.take(i as int),
        decreases n - i,
    {
        copy.push(transforms[i]);
        i = i + 1;
        assert(copy@ =~= transforms@.take(i as int));
    }
    assert(copy@ =~= transforms@);
    copy
}

/// A validated transform chain.
#[derive(Debug)]
pub struct TransformChain {
    transforms: Vec<Transform>,
}

impl View for TransformChain {
    type V = Seq<Transform>;

    closed spec fn view(&self) -> Seq<Transform> {
        self.transforms@
    }
}

/// Whether a chain encrypts its payload.
pub open spec fn spec_is_encrypted_chain(chain: Seq<Transform>) -> bool {
    chain == seq![Transform::Encrypt, Transform::Base64] || chain == seq![
        Transform::Zip,
        Transform::Encrypt,
        Transform::Base64,
    ]
}

/// Whether a chain zips its payload.
pub open spec fn spec_has_zip(chain: Seq<Transform>) -> bool {
    chain.contains(Transform::Zip)
}

/// Whether a chain's payload can be extracted: not when it is encrypted.
pub open spec fn spec_extraction_support(chain: Seq<Transform>) -> ExtractionSupport {
    if chain.contains(Transform::Encrypt) {
        ExtractionSupport::EncryptedUnsupported
    } else {
        ExtractionSupport::Supported
    }
}

/// The bytes that a payload text decodes to under a chain: base64 first; an
/// encrypted payload is refused; a zipped one is unzipped.
pub open spec fn spec_decode_payload(chain: Seq<Transform>, text: Seq<char>) -> Result<Seq<u8>, ErrorView> {
    match spec_decode_base64_text(text) {
        Err(e) => Err(e),
        Ok(bytes) => if chain.contains(Transform::Encrypt) {
            Err(ErrorView::EncryptedDocumentUnsupported)
        } else if chain.contains(Transform::Zip) {
            spec_unzip(bytes)
        } else {
            Ok(bytes)
        },
    }
}

/// The findings about a payload text under a chain: too long a text is the
/// only finding; otherwise an encrypted payload is flagged, and base64 and
/// (for a plain zipped payload) zip errors are reported.
pub open spec fn spec_inspect_payload(chain: Seq<Transform>, text: Seq<char>) -> Seq<PayloadIssueView> {
    if utf8_len(text) > MAX_PAYLOAD_TEXT_SIZE {
        seq![PayloadIssueView::Error(ErrorView::PayloadTextTooLarge { size: utf8_len(text), limit: MAX_PAYLOAD_TEXT_SIZE })]
    } else {
        let warnings = if spec_is_encrypted_chain(chain) {
            seq![PayloadIssueView::EncryptedPayloadWarning]
        } else {
            Seq::<PayloadIssueView>::empty()
        };
        match spec_decode_base64_text(text) {
            Err(e) => warnings.push(PayloadIssueView::Error(e)),
            Ok(bytes) => if !spec_is_encrypted_chain(chain) && spec_has_zip(chain) {
                match spec_unzip(bytes) {
                    Err(e) => warnings.push(PayloadIssueView::Error(e)),
                    Ok(_) => warnings,
                }
            } else {
                warnings
            },
        }
    }
}

fn contains_transform(transforms: &Vec<Transform>, t: Transform) -> (res: bool)
    ensures
        res == transforms@.contains(t),
{
    let mut i: usize = 0;
    while i < transforms.len()
        invariant
            i <= transforms@.len(),
            forall|j: int| 0 <= j < i ==> transforms@[j] != t,
        decreases transforms@.len() - i,
    {
        if transforms[i] == t {
            return true;
        }
        i = i + 1;
    }
    false
}

impl Clone for TransformChain {
    fn clone(&self) -> (res: Self)
        ensures
            res@ == self@,
    {
        proof {
            use_type_invariant(self);
        }
        TransformChain { transforms: copy_transforms(self.transforms.as_slice()) }
    }
}

impl TransformChain {
    #[verifier::type_invariant]
    spec fn inv(self) -> bool {
        spec_valid_chain(self.transforms@)
    }

    /// Builds a chain from declared transforms; anything but the four valid
    /// chains is an invalid order.
    pub fn from_transforms(transforms: &[Transform]) -> (res: Result<TransformChain, TransformValidationError>)
        ensures
            match res {
                Ok(chain) => spec_valid_chain(transforms@) && chain@ == transforms@,
                Err(_) => !spec_valid_chain(transforms@),
            },
    {
        let n = transforms.len();
        let valid = if n == 1 {
            transforms[0] == Transform::Base64
        } else if n == 2 {
            (transforms[0] == Transform::Zip || transforms[0] == Transform::Encrypt) && transforms[1]
                == Transform::Base64
        } else if n == 3 {
            transforms[0] == Transform::Zip && transforms[1] == Transform::Encrypt && transforms[2]
                == Transform::Base64
        } else {
            false
        };
        proof {
            if valid {
                if n == 1 {
                    assert(transforms@ =~= seq![Transform::Base64]);
                } else if n == 2 {
                    if transforms@[0] == Transform::Zip {
                        assert(transforms@ =~= seq![Transform::Zip, Transform::Base64]);
                    } else {
                        assert(transforms@ =~= seq![Transform::Encrypt, Transform::Base64]);
                    }
                } else {
                    assert(transforms@ =~= seq![Transform::Zip, Transform::Encrypt, Transform::Base64]);
                }
            }
        }
        if valid {
            let copy = copy_transforms(transforms);
            assert(spec_valid_chain(copy@));
            Ok(TransformChain { transforms: copy })
        } else {
            assert(!spec_valid_chain(transforms@)) by {
                if transforms@ == seq![Transform::Base64] {
                    assert(transforms@[0] == Transform::Base64);
                }
            }
            Err(TransformValidationError::InvalidOrder)
        }
    }

    /// Whether the payload can be extracted.
    pub fn extraction_support(&self) -> (res: ExtractionSupport)
        ensures
            res == spec_extraction_support(self@),
    {
        if contains_transform(&self.transforms, Transform::Encrypt) {
            ExtractionSupport::EncryptedUnsupported
        } else {
            ExtractionSupport::Supported
        }
    }

    /// Whether the chain encrypts its payload.
    pub fn is_encrypted_payload(&self) -> (res: bool)
        ensures
            res == spec_is_encrypted_chain(self@),
    {
        proof {
            use_type_invariant(self);
        }
        let n = self.transforms.len();
        let res = (n == 2 && self.transforms[0] == Transform::Encrypt) || (n == 3
            && self.transforms[1] == Transform::Encrypt);
        proof {
            if res {
                if n == 2 {
                    assert(self.transforms@ =~= seq![Transform::Encrypt, Transform::Base64]);
                } else {
                    assert(self.transforms@ =~= seq![Transform::Zip, Transform::Encrypt, Transform::Base64]);
                }
            }
        }
        res
    }

    /// Whether the chain zips its payload.
    pub fn has_zip(&self) -> (res: bool)
        ensures
            res == spec_has_zip(self@),
    {
        contains_transform(&self.transforms, Transform::Zip)
    }

    /// Decodes a payload text to the document's bytes.
    pub fn decode_payload(&self, payload_text: &str) -> (res: Result<Vec<u8>, Error>)
        ensures
            match res {
                Ok(bytes) => spec_decode_payload(self@, payload_text@) == Ok::<Seq<u8>, ErrorView>(bytes@),
                Err(e) => spec_decode_payload(self@, payload_text@) == Err::<Seq<u8>, ErrorView>(e@),
            },
    {
        let bytes = decode_base64(payload_text)?;
        if contains_transform(&self.transforms, Transform::Encrypt) {
            return Err(Error::EncryptedDocumentUnsupported);
        }
        if contains_transform(&self.transforms, Transform::Zip) {
            unzip_single_file(bytes.as_slice())
        } else {
            Ok(bytes)
        }
    }

    /// Checks a payload text under the chain without extracting it.
    pub fn inspect_payload(&self, payload_text: &str) -> (res: Vec<TransformPayloadIssue>)
        ensures
            res@.map_values(|i: TransformPayloadIssue| i@) == spec_inspect_payload(self@, payload_text@),
    {
        let mut issues: Vec<TransformPayloadIssue> = Vec::new();
        let size = payload_text.len();
        if size > MAX_PAYLOAD_TEXT_SIZE {
            issues.push(TransformPayloadIssue::Error(Error::PayloadTextTooLarge { size, limit: MAX_PAYLOAD_TEXT_SIZE }));
            assert(issues@.map_values(|i: TransformPayloadIssue| i@) =~= spec_inspect_payload(self@, payload_text@));
            return issues;
        }
        let encrypted = self.is_encrypted_payload();
        if encrypted {
            issues.push(TransformPayloadIssue::EncryptedPayloadWarning);
        }
        let ghost warnings = issues@.map_values(|i: TransformPayloadIssue| i@);
        assert(warnings =~= (if spec_is_encrypted_chain(self@) {
            seq![PayloadIssueView::EncryptedPayloadWarning]
        } else {
            Seq::<PayloadIssueView>::empty()
        }));
        match decode_base64(payload_text) {
            Err(error) => {
                let ghost ev = error@;
                issues.push(TransformPayloadIssue::Error(error));
                assert(issues@.map_values(|i: TransformPayloadIssue| i@) =~= warnings.push(PayloadIssueView::Error(ev)));
            },
            Ok(bytes) => {
                if !encrypted && self.has_zip() {
                    match unzip_single_file(bytes.as_slice()) {
                        Err(error) => {
                            let ghost ev = error@;
                            issues.push(TransformPayloadIssue::Error(error));
                            assert(issues@.map_values(|i: TransformPayloadIssue| i@) =~= warnings.push(PayloadIssueView::Error(ev)));
                        },
                        Ok(_) => {},
                    }
                }
            },
        }
        assert(issues@.map_values(|i: TransformPayloadIssue| i@) =~= spec_inspect_payload(self@, payload_text@));
        issues
    }
}

/// Law: a transform's name parses back to the transform.
pub proof fn law_transform_name_round_trip(t: Transform)
    ensures
        Transform::spec_parse(t.spec_as_str()) == Some(t),
{
    reveal_strlit("zip");
    reveal_strlit("encrypt");
    reveal_strlit("base64");
    assert("zip"@.len() == 3 && "encrypt"@.len() == 7 && "base64"@.len() == 6);
    assert("zip"@ != "encrypt"@ && "zip"@ != "base64"@ && "encrypt"@ != "base64"@);
}

/// Filtering out a character that the filter drops changes nothing.
proof fn lemma_filter_insert_dropped(t: Seq<char>, i: int, c: char, pred: spec_fn(char) -> bool)
    requires
        0 <= i <= t.len(),
        !pred(c),
    ensures
        t.insert(i, c).filter(pred) == t.filter(pred),
{
    let a = t.take(i);
    let b = t.skip(i);
    assert(t =~= a + b);
    assert(t.insert(i, c) =~= a + seq![c] + b);
    Seq::filter_distributes_over_add(a + seq![c], b, pred);
    Seq::filter_distributes_over_add(a, seq![c], pred);
    Seq::filter_distributes_over_add(a, b, pred);
    reveal(Seq::filter);
    assert(seq![c].drop_last() =~= Seq::<char>::empty());
    crate::seqs::lemma_filter_empty(seq![c].drop_last(), pred);
    assert(seq![c].last() == c);
    assert(seq![c].filter(pred) =~= Seq::<char>::empty());
    assert(a + Seq::<char>::empty() =~= a);
}

/// Law: base64 payload decoding ignores ASCII whitespace. Inserting a
/// space, tab, line feed, form feed or carriage return anywhere into a
/// payload text (within the size limit) does not change what it decodes
/// to, and the text handed to the decoder holds none of those characters.
pub proof fn law_base64_ignores_ascii_whitespace(t: Seq<char>, i: int, c: char)
    requires
        0 <= i <= t.len(),
        c == ' ' || c == '\t' || c == '\n' || c == '\x0C' || c == '\r',
        utf8_len(t) <= MAX_PAYLOAD_TEXT_SIZE,
        utf8_len(t.insert(i, c)) <= MAX_PAYLOAD_TEXT_SIZE,
    ensures
        spec_decode_base64_text(t.insert(i, c)) == spec_decode_base64_text(t),
        forall|j: int|
            0 <= j < spec_strip_ascii_whitespace(t).len() ==> {
                let d = #[trigger] spec_strip_ascii_whitespace(t)[j];
                d != ' ' && d != '\t' && d != '\n' && d != '\x0C' && d != '\r'
            },
{
    let pred = |x: char| !is_ascii_whitespace(x);
    lemma_filter_insert_dropped(t, i, c, pred);
    assert forall|j: int| 0 <= j < spec_strip_ascii_whitespace(t).len() implies ({
        let d = #[trigger] spec_strip_ascii_whitespace(t)[j];
        d != ' ' && d != '\t' && d != '\n' && d != '\x0C' && d != '\r'
    }) by {
        t.filter_lemma(pred);
        assert(pred(t.filter(pred)[j]));
    }
}

} // verus!
