//! The state and decisions of the browser front end: the rows it lists,
//! what it extracts for download, and what it tells the user.
use vstd::prelude::*;
use vstd::string::StringExecFns;
use crate::document::{DocumentEntry, DocumentEntryView};
use crate::dossier::{spec_dossier_parse, spec_extract, Dossier, DossierView};
use crate::error::ErrorView;
use crate::transform::{ExtractionUnavailableReason, Transform};
use crate::verify::{spec_verify_structure_str, StructureReport, VerificationOptions};

verus! {

broadcast use vstd::string::group_string_axioms;

/// A document row as plain values.
pub struct DocumentRowView {
    pub index: usize,
    pub title: Seq<char>,
    pub filename: Seq<char>,
    pub mime_type: Seq<char>,
    pub source_size: u64,
    pub transforms: Seq<char>,
    pub signature_count: usize,
    pub timestamp_count: usize,
    pub can_download: bool,
    pub unavailable_reason: Option<Seq<char>>,
    pub unavailable_reason_code: Option<ExtractionUnavailableReason>,
}

/// What the front end lists for a document.
#[derive(Debug, Clone, PartialEq, Eq)]
pub struct DocumentRow {
    pub index: usize,
    pub title: String,
    pub filename: String,
    pub mime_type: String,
    pub source_size: u64,
    pub transforms: String,
    pub signature_count: usize,
    pub timestamp_count: usize,
    pub can_download: bool,
    pub unavailable_reason: Option<String>,
    pub unavailable_reason_code: Option<ExtractionUnavailableReason>,
}

impl View for DocumentRow {
    type V = DocumentRowView;

    open spec fn view(&self) -> DocumentRowView {
        DocumentRowView {
            index: self.index,
            title: self.title@,
            filename: self.filename@,
            mime_type: self.mime_type@,
            source_size: self.source_size,
            transforms: self.transforms@,
            signature_count: self.signature_count,
            timestamp_count: self.timestamp_count,
            can_download: self.can_download,
            unavailable_reason: crate::text::opt_view(self.unavailable_reason),
            unavailable_reason_code: self.unavailable_reason_code,
        }
    }
}

/// A file handed to the browser for download.
#[derive(Debug, Clone, PartialEq, Eq)]
pub struct DownloadFile {
    pub filename: String,
    pub bytes: Vec<u8>,
}

/// That a download was handed to the browser.
#[derive(Debug, Clone, Copy, PartialEq, Eq, Structural)]
pub enum DownloadOutcome {
    Requested,
}

/// Hands a file to the browser for download. Outside a browser build there
/// is no browser to hand it to.
pub fn download_bytes(filename: &str, bytes: &[u8]) -> (res: Result<DownloadOutcome, String>)
    ensures
        match res {
            Ok(_) => false,
            Err(message) => message@ == "downloads require the wasm web build"@,
        },
{
    Err("downloads require the wasm web build".to_owned())
}

/// A dossier loaded into the front end: the file's name, the dossier, its
/// rows and its structural report.
#[derive(Debug)]
pub struct LoadedDossier {
    pub file_name: String,
    pub dossier: Dossier,
    pub rows: Vec<DocumentRow>,
    pub report: StructureReport,
}

/// Whether a finished load is the latest one.
#[derive(Debug, Clone, Copy, PartialEq, Eq, Structural)]
pub enum LoadDecision {
    Current,
    Stale,
}

/// A document that downloading all would extract.
#[derive(Debug, Clone, PartialEq, Eq)]
pub struct DownloadAllCandidate {
    pub index: usize,
    pub title: String,
}

/// What downloading all comes to: a notice that there is nothing to
/// download, or the files to download and the failures on the way.
#[derive(Debug, Clone, PartialEq, Eq)]
pub enum DownloadAllDecision {
    NoSupportedFiles { notice: String },
    RequestDownloads { files: Vec<DownloadFile>, failures: Vec<String> },
}

/// A finished load is current when it is the latest one started.
pub fn load_decision(current_generation: usize, generation: usize) -> (res: LoadDecision)
    ensures
        res == (if current_generation == generation {
            LoadDecision::Current
        } else {
            LoadDecision::Stale
        }),
{
    if current_generation == generation {
        LoadDecision::Current
    } else {
        LoadDecision::Stale
    }
}

/// The names of transforms joined by `, `, in order.
pub open spec fn spec_join_transforms(transforms: Seq<Transform>) -> Seq<char>
    decreases transforms.len(),
{
    if transforms.len() == 0 {
        Seq::empty()
    } else if transforms.len() == 1 {
        transforms[0].spec_as_str()
    } else {
        spec_join_transforms(transforms.drop_last()) + ", "@ + transforms.last().spec_as_str()
    }
}

/// The transforms as listed: their names joined by `, `, or `-` when there
/// is none.
pub open spec fn spec_transform_list(transforms: Seq<Transform>) -> Seq<char> {
    if transforms.len() == 0 {
        "-"@
    } else {
        spec_join_transforms(transforms)
    }
}

/// The transforms as listed.
pub fn transform_list(transforms: &[Transform]) -> (res: String)
    ensures
        res@ == spec_transform_list(transforms@),
{
    if transforms.len() == 0 {
        return "-".to_owned();
    }
    let mut text = transforms[0].as_str().to_owned();
    let mut k: usize = 1;
    assert(transforms@.take(1).drop_last() =~= Seq::<Transform>::empty());
    while k < transforms.len()
        invariant
            1 <= k <= transforms@.len(),
            text@ == spec_join_transforms(transforms@.take(k as int)),
        decreases transforms@.len() - k,
    {
        proof {
            assert(transforms@.take(k + 1).drop_last() =~= transforms@.take(k as int));
            assert(transforms@.take(k + 1).last() == transforms@[k as int]);
        }
        text.append(", ");
        text.append(transforms[k].as_str());
        k = k + 1;
    }
    assert(transforms@.take(k as int) =~= transforms@);
    text
}

/// The row that a document entry becomes.
pub open spec fn spec_row(entry: DocumentEntryView) -> DocumentRowView {
    DocumentRowView {
        index: entry.index,
        title: entry.title,
        filename: crate::output::spec_filename_from_parts(entry.index, entry.title, entry.mime_type.extension),
        mime_type: entry.mime_type.top_level_type.push('/') + entry.mime_type.subtype,
        source_size: entry.source_size,
        transforms: spec_transform_list(entry.transforms),
        signature_count: entry.signature_count,
        timestamp_count: entry.timestamp_count,
        can_download: entry.extraction.can_extract,
        unavailable_reason: entry.extraction.unavailable_reason,
        unavailable_reason_code: entry.extraction.unavailable_reason_code,
    }
}

fn row_from_entry(entry: &DocumentEntry) -> (res: DocumentRow)
    ensures
        res@ == spec_row(entry@),
{
    DocumentRow {
        index: entry.index(),
        title: entry.title().to_owned(),
        filename: entry.suggested_filename(),
        mime_type: entry.mime_type().to_string(),
        source_size: entry.source_size(),
        transforms: transform_list(entry.transforms()),
        signature_count: entry.signature_count(),
        timestamp_count: entry.timestamp_count(),
        can_download: entry.can_extract(),
        unavailable_reason: match entry.unavailable_reason() {
            Some(reason) => Some(reason.to_owned()),
            None => None,
        },
        unavailable_reason_code: entry.unavailable_reason_code(),
    }
}

/// Whether the rows are those of a dossier's documents, in order.
pub open spec fn rows_of(d: DossierView, rows: Seq<DocumentRow>) -> bool {
    &&& rows.len() == d.documents.len()
    &&& forall|i: int| 0 <= i < rows.len() ==> (#[trigger] rows[i])@ == spec_row(d.documents[i].entry)
}

/// The rows of a dossier's documents, in order.
pub fn document_rows(dossier: &Dossier) -> (res: Vec<DocumentRow>)
    ensures
        rows_of(dossier@, res@),
{
    let entries = dossier.documents();
    let mut rows: Vec<DocumentRow> = Vec::new();
    let mut k: usize = 0;
    while k < entries.len()
        invariant
            k <= entries@.len(),
            entries@.len() == dossier@.documents.len(),
            forall|i: int| 0 <= i < entries@.len() ==> (#[trigger] entries@[i])@ == dossier@.documents[i].entry,
            rows@.len() == k,
            forall|i: int| 0 <= i < k ==> (#[trigger] rows@[i])@ == spec_row(dossier@.documents[i].entry),
        decreases entries@.len() - k,
    {
        rows.push(row_from_entry(&entries[k]));
        k = k + 1;
    }
    rows
}

/// Loads a dossier's file: its structural report, the dossier, and its
/// rows; a dossier that cannot be parsed is refused with the error's
/// message.
pub fn parse_file(file_name: String, xml: &str) -> (res: Result<LoadedDossier, String>)
    ensures
        match spec_dossier_parse(xml@) {
            Ok(d) => (res matches Ok(loaded) && {
                &&& loaded.file_name@ == file_name@
                &&& loaded.dossier@ == d
                &&& rows_of(d, loaded.rows@)
                &&& loaded.report@ == spec_verify_structure_str(xml@)
            }),
            Err(e) => (res matches Err(message) && message@ == e.message()),
        },
{
    let report = crate::verify::verify_str(xml, VerificationOptions::without_signatures()).structure;
    let dossier = match Dossier::parse(xml) {
        Ok(dossier) => dossier,
        Err(error) => return Err(error.to_string()),
    };
    let rows = document_rows(&dossier);
    Ok(LoadedDossier { file_name, dossier, rows, report })
}

/// The documents that can be extracted, in order, by index and title: what
/// downloading all extracts.
pub open spec fn spec_download_plan_of(documents: Seq<crate::dossier::StoredDocumentView>) -> Seq<(usize, Seq<char>)>
    decreases documents.len(),
{
    if documents.len() == 0 {
        Seq::empty()
    } else {
        let prev = spec_download_plan_of(documents.drop_last());
        let last = documents.last();
        if last.entry.extraction.can_extract {
            prev.push((last.entry.index, last.entry.title))
        } else {
            prev
        }
    }
}

/// What downloading all of a dossier extracts.
pub open spec fn spec_download_plan(d: DossierView) -> Seq<(usize, Seq<char>)> {
    spec_download_plan_of(d.documents)
}

/// The views of download candidates.
pub open spec fn candidates_view(candidates: Seq<DownloadAllCandidate>) -> Seq<(usize, Seq<char>)> {
    candidates.map_values(|c: DownloadAllCandidate| (c.index, c.title@))
}

/// The documents that downloading all extracts.
pub fn plan_download_all(loaded: &LoadedDossier) -> (res: Vec<DownloadAllCandidate>)
    ensures
        candidates_view(res@) == spec_download_plan(loaded.dossier@),
{
    let ghost docs = loaded.dossier@.documents;
    let entries = loaded.dossier.documents();
    let mut candidates: Vec<DownloadAllCandidate> = Vec::new();
    let mut k: usize = 0;
    assert(candidates_view(candidates@) =~= spec_download_plan_of(docs.take(0)));
    while k < entries.len()
        invariant
            k <= entries@.len(),
            docs == loaded.dossier@.documents,
            entries@.len() == docs.len(),
            forall|i: int| 0 <= i < entries@.len() ==> (#[trigger] entries@[i])@ == docs[i].entry,
            candidates_view(candidates@) == spec_download_plan_of(docs.take(k as int)),
        decreases entries@.len() - k,
    {
        proof {
            assert(docs.take(k + 1).drop_last() =~= docs.take(k as int));
            assert(docs.take(k + 1).last() == docs[k as int]);
        }
        let entry = &entries[k];
        if entry.can_extract() {
            let candidate = DownloadAllCandidate { index: entry.index(), title: entry.title().to_owned() };
            proof {
                assert(candidates_view(candidates@.push(candidate)) =~= candidates_view(candidates@).push(
                    (candidate.index, candidate.title@),
                ));
            }
            candidates.push(candidate);
        }
        k = k + 1;
    }
    assert(docs.take(k as int) =~= docs);
    candidates
}

/// `{title}: {error}`: a failed extraction.
pub open spec fn failure_message(name: Seq<char>, error: Seq<char>) -> Seq<char> {
    name + ": "@ + error
}

/// The message of a failed extraction.
pub fn extraction_failure(title: &str, error: &str) -> (res: String)
    ensures
        res@ == failure_message(title@, error@),
{
    crate::text::concat3(title, ": ", error)
}

/// The message of a failed download.
pub fn download_failure(filename: &str, error: &str) -> (res: String)
    ensures
        res@ == failure_message(filename@, error@),
{
    crate::text::concat3(filename, ": ", error)
}

/// The failures joined by `; `, in order.
pub open spec fn spec_join_failures(failures: Seq<Seq<char>>) -> Seq<char>
    decreases failures.len(),
{
    if failures.len() == 0 {
        Seq::empty()
    } else if failures.len() == 1 {
        failures[0]
    } else {
        spec_join_failures(failures.drop_last()) + "; "@ + failures.last()
    }
}

/// The notice that nothing can be downloaded: the failures, or that no
/// supported file is available when nothing failed.
pub open spec fn spec_no_supported_files_notice(failures: Seq<Seq<char>>) -> Seq<char> {
    if failures.len() == 0 {
        "No supported files are available to download."@
    } else {
        spec_join_failures(failures)
    }
}

/// The notice that nothing can be downloaded.
pub fn no_supported_files_notice(failures: &[String]) -> (res: String)
    ensures
        res@ == spec_no_supported_files_notice(crate::verify::strings_view(failures@)),
{
    if failures.len() == 0 {
        return "No supported files are available to download.".to_owned();
    }
    join_failures(failures)
}

/// The failures joined by `; `, in order.
pub fn join_failures(failures: &[String]) -> (res: String)
    ensures
        res@ == spec_join_failures(crate::verify::strings_view(failures@)),
{
    if failures.len() == 0 {
        return String::new();
    }
    let ghost all = crate::verify::strings_view(failures@);
    let mut text = failures[0].clone();
    let mut k: usize = 1;
    assert(all.take(1).drop_last() =~= Seq::<Seq<char>>::empty());
    while k < failures.len()
        invariant
            1 <= k <= failures@.len(),
            all == crate::verify::strings_view(failures@),
            text@ == spec_join_failures(all.take(k as int)),
        decreases failures@.len() - k,
    {
        proof {
            assert(all.take(k + 1).drop_last() =~= all.take(k as int));
            assert(all.take(k + 1).last() == failures@[k as int]@);
        }
        text.append("; ");
        text.append(failures[k].as_str());
        k = k + 1;
    }
    assert(all.take(k as int) =~= all);
    text
}

/// What downloading all comes to: nothing to download when no file was
/// extracted, otherwise the files and the failures.
pub fn download_all_decision(files: Vec<DownloadFile>, failures: Vec<String>) -> (res: DownloadAllDecision)
    ensures
        files@.len() == 0 ==> (res matches DownloadAllDecision::NoSupportedFiles { notice } && notice@
            == spec_no_supported_files_notice(crate::verify::strings_view(failures@))),
        files@.len() > 0 ==> res == (DownloadAllDecision::RequestDownloads { files, failures }),
{
    if files.len() == 0 {
        DownloadAllDecision::NoSupportedFiles { notice: no_supported_files_notice(failures.as_slice()) }
    } else {
        DownloadAllDecision::RequestDownloads { files, failures }
    }
}

/// What extracting a document for download gives: its file name and bytes,
/// or the error's message.
pub open spec fn spec_download_extract(d: DossierView, index: usize) -> Result<(Seq<char>, Seq<u8>), Seq<char>> {
    match spec_extract(d, index) {
        Ok(x) => Ok((x.filename, x.bytes)),
        Err(e) => Err(e.message()),
    }
}

/// The view of a download extraction.
pub open spec fn download_view(r: Result<DownloadFile, String>) -> Result<(Seq<char>, Seq<u8>), Seq<char>> {
    match r {
        Ok(f) => Ok((f.filename@, f.bytes@)),
        Err(m) => Err(m@),
    }
}

fn extract_document_for_download(dossier: &Dossier, index: usize) -> (res: Result<DownloadFile, String>)
    ensures
        download_view(res) == spec_download_extract(dossier@, index),
{
    match dossier.extract_document(index) {
        Ok(extracted) => Ok(DownloadFile { filename: extracted.filename, bytes: extracted.bytes }),
        Err(error) => Err(error.to_string()),
    }
}

/// The title of the first row with an index.
pub open spec fn row_title(rows: Seq<DocumentRow>, index: usize) -> Option<Seq<char>> {
    match crate::seqs::first_of(rows.filter(|r: DocumentRow| r.index == index)) {
        Some(r) => Some(r.title@),
        None => None,
    }
}

/// Extracts a document for download; a failure names the document's title
/// when a row lists it.
pub fn extract_for_download(loaded: &LoadedDossier, index: usize) -> (res: Result<DownloadFile, String>)
    ensures
        download_view(res) == match spec_download_extract(loaded.dossier@, index) {
            Ok(file) => Ok(file),
            Err(e) => Err(
                match row_title(loaded.rows@, index) {
                    Some(title) => failure_message(title, e),
                    None => e,
                },
            ),
        },
{
    let error = match extract_document_for_download(&loaded.dossier, index) {
        Ok(file) => return Ok(file),
        Err(error) => error,
    };
    let ghost rows = loaded.rows@;
    let ghost pred = |r: DocumentRow| r.index == index;
    let mut k: usize = 0;
    proof {
        crate::seqs::lemma_filter_empty(rows.take(0), pred);
    }
    while k < loaded.rows.len()
        invariant
            k <= rows.len(),
            rows == loaded.rows@,
            spec_download_extract(loaded.dossier@, index) == Err::<(Seq<char>, Seq<u8>), Seq<char>>(error@),
            pred == (|r: DocumentRow| r.index == index),
            rows.take(k as int).filter(pred).len() == 0,
        decreases rows.len() - k,
    {
        proof {
            crate::seqs::lemma_filter_take_succ(rows, k as int, pred);
        }
        if loaded.rows[k].index == index {
            proof {
                crate::seqs::lemma_first_match(rows, k as int, pred);
            }
            return Err(extraction_failure(loaded.rows[k].title.as_str(), error.as_str()));
        }
        k = k + 1;
    }
    proof {
        crate::seqs::lemma_take_full(rows);
    }
    Err(error)
}

/// The views of download files.
pub open spec fn files_view(files: Seq<DownloadFile>) -> Seq<(Seq<char>, Seq<u8>)> {
    files.map_values(|f: DownloadFile| (f.filename@, f.bytes@))
}

/// What extracting the planned documents gives, in order: the files that
/// could be extracted, and a failure under the title of each that could not.
pub open spec fn spec_extract_planned(d: DossierView, plan: Seq<(usize, Seq<char>)>) -> (Seq<(Seq<char>, Seq<u8>)>, Seq<Seq<char>>)
    decreases plan.len(),
{
    if plan.len() == 0 {
        (Seq::empty(), Seq::empty())
    } else {
        let (files, failures) = spec_extract_planned(d, plan.drop_last());
        match spec_download_extract(d, plan.last().0) {
            Ok(file) => (files.push(file), failures),
            Err(e) => (files, failures.push(failure_message(plan.last().1, e))),
        }
    }
}

/// Extracts every document that can be extracted, in order, keeping each
/// failure under the document's title, and decides what to download.
pub fn extract_all_supported(loaded: &LoadedDossier) -> (res: DownloadAllDecision)
    ensures
        ({
            let (files, failures) = spec_extract_planned(loaded.dossier@, spec_download_plan(loaded.dossier@));
            match res {
                DownloadAllDecision::NoSupportedFiles { notice } => files.len() == 0 && notice@
                    == spec_no_supported_files_notice(failures),
                DownloadAllDecision::RequestDownloads { files: f, failures: e } => files.len() > 0 && files_view(f@)
                    == files && crate::verify::strings_view(e@) == failures,
            }
        }),
{
    let candidates = plan_download_all(loaded);
    let ghost plan = spec_download_plan(loaded.dossier@);
    let ghost d = loaded.dossier@;
    let mut files: Vec<DownloadFile> = Vec::new();
    let mut failures: Vec<String> = Vec::new();
    let mut k: usize = 0;
    assert(files_view(files@) =~= spec_extract_planned(d, plan.take(0)).0);
    assert(crate::verify::strings_view(failures@) =~= spec_extract_planned(d, plan.take(0)).1);
    while k < candidates.len()
        invariant
            k <= candidates@.len(),
            d == loaded.dossier@,
            candidates_view(candidates@) == plan,
            candidates@.len() == plan.len(),
            files_view(files@) == spec_extract_planned(d, plan.take(k as int)).0,
            crate::verify::strings_view(failures@) == spec_extract_planned(d, plan.take(k as int)).1,
        decreases candidates@.len() - k,
    {
        proof {
            assert(plan.take(k + 1).drop_last() =~= plan.take(k as int));
            assert(plan.take(k + 1).last() == plan[k as int]);
            assert(plan[k as int] == (candidates@[k as int].index, candidates@[k as int].title@));
        }
        match extract_document_for_download(&loaded.dossier, candidates[k].index) {
            Ok(file) => {
                proof {
                    assert(files_view(files@.push(file)) =~= files_view(files@).push((file.filename@, file.bytes@)));
                }
                files.push(file);
            },
            Err(error) => {
                let failure = extraction_failure(candidates[k].title.as_str(), error.as_str());
                proof {
                    assert(crate::verify::strings_view(failures@.push(failure)) =~= crate::verify::strings_view(failures@).push(failure@));
                }
                failures.push(failure);
            },
        }
        k = k + 1;
    }
    assert(plan.take(k as int) =~= plan);
    download_all_decision(files, failures)
}

/// How many rows can be downloaded.
pub open spec fn spec_downloadable_count(rows: Seq<DocumentRowView>) -> nat
    decreases rows.len(),
{
    if rows.len() == 0 {
        0
    } else {
        spec_downloadable_count(rows.drop_last()) + if rows.last().can_download {
            1nat
        } else {
            0nat
        }
    }
}

/// The views of some rows.
pub open spec fn rows_view(rows: Seq<DocumentRow>) -> Seq<DocumentRowView> {
    rows.map_values(|r: DocumentRow| r@)
}

/// How many rows can be downloaded and how many cannot.
pub fn download_counts(rows: &[DocumentRow]) -> (res: (usize, usize))
    ensures
        res.0 == spec_downloadable_count(rows_view(rows@)),
        res.0 + res.1 == rows@.len(),
{
    let ghost all = rows_view(rows@);
    let mut downloadable: usize = 0;
    let mut k: usize = 0;
    while k < rows.len()
        invariant
            k <= rows@.len(),
            all == rows_view(rows@),
            downloadable == spec_downloadable_count(all.take(k as int)),
            downloadable <= k,
        decreases rows@.len() - k,
    {
        assert(all.take(k + 1).drop_last() =~= all.take(k as int));
        assert(all.take(k + 1).last() == rows@[k as int]@);
        if rows[k].can_download {
            downloadable = downloadable + 1;
        }
        k = k + 1;
    }
    assert(all.take(k as int) =~= all);
    (downloadable, rows.len() - downloadable)
}

/// A message of successes, followed by the failures when there are some;
/// the failures alone when nothing succeeded.
pub open spec fn spec_success_or_failures(count: usize, success: Seq<char>, failures: Seq<Seq<char>>) -> Seq<char> {
    if failures.len() == 0 {
        success
    } else if count == 0 {
        spec_join_failures(failures)
    } else {
        success + " "@ + spec_join_failures(failures)
    }
}

/// A message of successes, followed by the failures when there are some;
/// the failures alone when nothing succeeded.
pub fn success_or_failures_message(count: usize, success_message: String, failures: Vec<String>) -> (res: String)
    ensures
        res@ == spec_success_or_failures(count, success_message@, crate::verify::strings_view(failures@)),
{
    if failures.len() == 0 {
        success_message
    } else if count == 0 {
        join_failures(failures.as_slice())
    } else {
        let joined = join_failures(failures.as_slice());
        crate::text::concat3(success_message.as_str(), " ", joined.as_str())
    }
}

/// What asking the browser to download a set of files came to: every file
/// requested, or how many were, with the failures.
#[derive(Debug, Clone, PartialEq, Eq)]
pub enum BrowserDownloadNotice {
    AllRequested,
    Partial { requested_count: usize, failures: Vec<String> },
}

/// The notice after asking the browser for downloads: all requested when
/// nothing failed and every file was requested; otherwise the count and the
/// failures.
pub fn browser_download_all_notice(file_count: usize, requested_count: usize, failures: Vec<String>) -> (res: BrowserDownloadNotice)
    ensures
        failures@.len() == 0 && requested_count == file_count ==> res == BrowserDownloadNotice::AllRequested,
        !(failures@.len() == 0 && requested_count == file_count) ==> res == (BrowserDownloadNotice::Partial {
            requested_count,
            failures,
        }),
{
    if failures.len() == 0 && requested_count == file_count {
        BrowserDownloadNotice::AllRequested
    } else {
        BrowserDownloadNotice::Partial { requested_count, failures }
    }
}

/// The failures after asking the browser for each file in turn: those
/// given, then one for each file whose download could not be requested.
pub open spec fn spec_download_failures(files: Seq<Seq<char>>, failures: Seq<Seq<char>>) -> Seq<Seq<char>> {
    failures + files.map_values(|name: Seq<char>| failure_message(name, "downloads require the wasm web build"@))
}

/// The file names of some download files.
pub open spec fn file_names(files: Seq<DownloadFile>) -> Seq<Seq<char>> {
    files.map_values(|f: DownloadFile| f.filename@)
}

/// Asks the browser to download each file in turn and reports what came of
/// it. Outside a browser build no file can be requested, so each file adds
/// its failure.
pub fn request_browser_downloads(files: Vec<DownloadFile>, failures: Vec<String>) -> (res: BrowserDownloadNotice)
    ensures
        files@.len() == 0 && failures@.len() == 0 ==> res == BrowserDownloadNotice::AllRequested,
        !(files@.len() == 0 && failures@.len() == 0) ==> (res matches BrowserDownloadNotice::Partial {
            requested_count,
            failures: all,
        } && requested_count == 0 && crate::verify::strings_view(all@) == spec_download_failures(
            file_names(files@),
            crate::verify::strings_view(failures@),
        )),
{
    let file_count = files.len();
    let ghost given = crate::verify::strings_view(failures@);
    let ghost names = file_names(files@);
    let mut failures = failures;
    let mut requested_count: usize = 0;
    let mut k: usize = 0;
    assert(names.take(0).map_values(|name: Seq<char>| failure_message(name, "downloads require the wasm web build"@)) =~= Seq::<Seq<char>>::empty());
    assert(crate::verify::strings_view(failures@) =~= given + Seq::<Seq<char>>::empty());
    while k < files.len()
        invariant
            k <= files@.len(),
            file_count == files@.len(),
            names == file_names(files@),
            requested_count == 0,
            crate::verify::strings_view(failures@) == spec_download_failures(names.take(k as int), given),
        decreases files@.len() - k,
    {
        match download_bytes(files[k].filename.as_str(), files[k].bytes.as_slice()) {
            Ok(DownloadOutcome::Requested) => {
                requested_count = requested_count + 1;
            },
            Err(error) => {
                let ghost before = crate::verify::strings_view(failures@);
                let message = download_failure(files[k].filename.as_str(), error.as_str());
                failures.push(message);
                proof {
                    assert(names.take(k + 1) =~= names.take(k as int).push(files@[k as int].filename@));
                    assert(spec_download_failures(names.take(k + 1), given) =~= spec_download_failures(
                        names.take(k as int),
                        given,
                    ).push(failure_message(files@[k as int].filename@, "downloads require the wasm web build"@)));
                    assert(crate::verify::strings_view(failures@) =~= before.push(message@));
                }
            },
        }
        k = k + 1;
    }
    assert(names.take(k as int) =~= names);
    browser_download_all_notice(file_count, requested_count, failures)
}

/// Law: downloading all accounts for every planned document once: the
/// files and the failures together are as many as the planned documents,
/// and when every planned document extracts, the files are their
/// extractions (file name and bytes), one per document, in plan order, and
/// nothing fails.
pub proof fn law_download_all_accounts_for_each_planned_document(d: DossierView, plan: Seq<(usize, Seq<char>)>)
    ensures
        spec_extract_planned(d, plan).0.len() + spec_extract_planned(d, plan).1.len() == plan.len(),
        (forall|i: int| 0 <= i < plan.len() ==> (#[trigger] spec_extract(d, plan[i].0)) is Ok) ==> {
            &&& spec_extract_planned(d, plan).1.len() == 0
            &&& spec_extract_planned(d, plan).0.len() == plan.len()
            &&& forall|i: int|
                0 <= i < plan.len() ==> #[trigger] spec_extract_planned(d, plan).0[i] == (
                    spec_extract(d, plan[i].0)->Ok_0.filename,
                    spec_extract(d, plan[i].0)->Ok_0.bytes,
                )
        },
    decreases plan.len(),
{
    if plan.len() > 0 {
        let prev = plan.drop_last();
        law_download_all_accounts_for_each_planned_document(d, prev);
        if forall|i: int| 0 <= i < plan.len() ==> (#[trigger] spec_extract(d, plan[i].0)) is Ok {
            assert forall|i: int| 0 <= i < prev.len() implies (#[trigger] spec_extract(d, prev[i].0)) is Ok by {
                assert(prev[i] == plan[i]);
                assert(spec_extract(d, plan[i].0) is Ok);
            }
            assert(spec_extract(d, plan[plan.len() - 1].0) is Ok);
            let files = spec_extract_planned(d, plan).0;
            let pfiles = spec_extract_planned(d, prev).0;
            assert forall|i: int| 0 <= i < plan.len() implies #[trigger] files[i] == (
                spec_extract(d, plan[i].0)->Ok_0.filename,
                spec_extract(d, plan[i].0)->Ok_0.bytes,
            ) by {
                if i < prev.len() {
                    assert(files[i] == pfiles[i]);
                    assert(prev[i] == plan[i]);
                }
            }
        }
    }
}

} // verus!
