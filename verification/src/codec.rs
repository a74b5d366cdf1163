//! The outside decoders that payload extraction relies on: UTF-8, base64 and
//! zip. Each is a thin trusted wrapper; what it returns is named, and the
//! logic around it is verified in `transform`.
use vstd::prelude::*;

verus! {

/// What `std::str::from_utf8` reports for bytes that are not UTF-8.
pub uninterp spec fn spec_utf8_error_message(bytes: Seq<u8>) -> Seq<char>;

/// Decodes UTF-8 (`std::str::from_utf8`). Claims, as std documents: the
/// bytes decode exactly when they are valid UTF-8, to the characters they
/// encode; an error carries the named message of its `Display` text.
#[verifier::external_body]
pub fn utf8_str<'a>(bytes: &'a [u8]) -> (res: Result<&'a str, String>)
    ensures
        match res {
            Ok(s) => vstd::utf8::valid_utf8(bytes@) && s@ == vstd::utf8::decode_utf8(bytes@),
            Err(message) => !vstd::utf8::valid_utf8(bytes@) && message@ == spec_utf8_error_message(
                bytes@,
            ),
        },
{
    std::str::from_utf8(bytes).map_err(|error| error.to_string())
}

/// What the standard base64 engine (RFC 4648 alphabet, padding required)
/// makes of a text: the decoded bytes, or the message of its error.
pub uninterp spec fn spec_base64_decode(text: Seq<char>) -> Result<Seq<u8>, Seq<char>>;

/// Decodes standard base64 (`base64::Engine::decode` on
/// `base64::engine::general_purpose::STANDARD`). Claims: the outcome is the
/// named decoding of the text, an error carrying its `Display` text.
#[verifier::external_body]
pub fn base64_decode(text: &str) -> (res: Result<Vec<u8>, String>)
    ensures
        match res {
            Ok(bytes) => spec_base64_decode(text@) == Ok::<Seq<u8>, Seq<char>>(bytes@),
            Err(message) => spec_base64_decode(text@) == Err::<Seq<u8>, Seq<char>>(message@),
        },
{
    base64::Engine::decode(&base64::engine::general_purpose::STANDARD, text).map_err(
        |error| error.to_string(),
    )
}

#[verifier::external_type_specification]
#[verifier::external_body]
#[verifier::reject_recursive_types(T)]
pub struct ExCursor<T>(std::io::Cursor<T>);

#[verifier::external_type_specification]
#[verifier::external_body]
#[verifier::reject_recursive_types(R)]
pub struct ExZipArchive<R>(zip::ZipArchive<R>);

/// The bytes that a zip archive was opened on.
pub uninterp spec fn zip_archive_source(archive: zip::ZipArchive<std::io::Cursor<Vec<u8>>>) -> Seq<u8>;

/// The message of `zip::ZipArchive::new` for bytes it refuses, or `None`.
pub uninterp spec fn spec_zip_open_error(bytes: Seq<u8>) -> Option<Seq<char>>;

/// The number of entries that `zip::ZipArchive::len` reports for an archive.
pub uninterp spec fn spec_zip_len(bytes: Seq<u8>) -> nat;

/// Whether entry `index` is a directory (`ZipArchive::by_index`, then
/// `ZipFile::is_dir`), or the message of the error of `by_index`.
pub uninterp spec fn spec_zip_entry_is_dir(bytes: Seq<u8>, index: nat) -> Result<bool, Seq<char>>;

/// The name and declared uncompressed size of entry `index`
/// (`ZipArchive::by_index`, `ZipFile::name`, `ZipFile::size`), or the
/// message of the first error.
pub uninterp spec fn spec_zip_entry_name_size(bytes: Seq<u8>, index: nat) -> Result<(Seq<char>, u64), Seq<char>>;

/// The content of entry `index`, read up to `limit` bytes
/// (`ZipArchive::by_index`, then `Read::take(limit).read_to_end`), or the
/// failure: `(false, message)` from `by_index`, `(true, message)` from reading.
pub uninterp spec fn spec_zip_read_entry(bytes: Seq<u8>, index: nat, limit: u64) -> Result<Seq<u8>, (bool, Seq<char>)>;

/// Opens a zip archive over a copy of the bytes (`zip::ZipArchive::new` on a
/// `std::io::Cursor`). Claims: it opens exactly when the named open reports no
/// error, over those bytes; an error carries its `Display` text.
#[verifier::external_body]
pub fn zip_open(bytes: &[u8]) -> (res: Result<zip::ZipArchive<std::io::Cursor<Vec<u8>>>, String>)
    ensures
        match res {
            Ok(archive) => zip_archive_source(archive) == bytes@ && spec_zip_open_error(bytes@) is None,
            Err(message) => spec_zip_open_error(bytes@) == Some(message@),
        },
{
    zip::ZipArchive::new(std::io::Cursor::new(bytes.to_vec())).map_err(|error| error.to_string())
}

/// The number of entries of an archive (`zip::ZipArchive::len`). Claims: the
/// named count for the archive's bytes.
#[verifier::external_body]
pub fn zip_len(archive: &zip::ZipArchive<std::io::Cursor<Vec<u8>>>) -> (res: usize)
    ensures
        res == spec_zip_len(zip_archive_source(*archive)),
{
    archive.len()
}

/// Whether entry `index` is a directory (`by_index`, then `is_dir`).
/// Claims: the named outcome for the archive's bytes; the archive stays over
/// the same bytes.
#[verifier::external_body]
pub fn zip_entry_is_dir(archive: &mut zip::ZipArchive<std::io::Cursor<Vec<u8>>>, index: usize) -> (res: Result<bool, String>)
    ensures
        zip_archive_source(*final(archive)) == zip_archive_source(*old(archive)),
        match res {
            Ok(is_dir) => spec_zip_entry_is_dir(zip_archive_source(*old(archive)), index as nat) == Ok::<bool, Seq<char>>(is_dir),
            Err(message) => spec_zip_entry_is_dir(zip_archive_source(*old(archive)), index as nat) == Err::<bool, Seq<char>>(message@),
        },
{
    archive.by_index(index).map(|file| file.is_dir()).map_err(|error| error.to_string())
}

/// The name and declared size of entry `index` (`by_index`, `name`, `size`).
/// Claims: the named outcome for the archive's bytes; the archive stays over
/// the same bytes.
#[verifier::external_body]
pub fn zip_entry_name_size(archive: &mut zip::ZipArchive<std::io::Cursor<Vec<u8>>>, index: usize) -> (res: Result<(String, u64), String>)
    ensures
        zip_archive_source(*final(archive)) == zip_archive_source(*old(archive)),
        match res {
            Ok((name, size)) => spec_zip_entry_name_size(zip_archive_source(*old(archive)), index as nat)
                == Ok::<(Seq<char>, u64), Seq<char>>((name@, size)),
            Err(message) => spec_zip_entry_name_size(zip_archive_source(*old(archive)), index as nat)
                == Err::<(Seq<char>, u64), Seq<char>>(message@),
        },
{
    let file = archive.by_index(index).map_err(|error| error.to_string())?;
    let name = file.name().map_err(|error| error.to_string())?.into_owned();
    Ok((name, file.size()))
}

/// Reads entry `index` up to `limit` bytes (`by_index`, then
/// `std::io::Read::take(limit).read_to_end`). Claims: the named outcome for
/// the archive's bytes, at most `limit` bytes read (as `take` documents); the
/// archive stays over the same bytes.
#[verifier::external_body]
pub fn zip_read_entry(archive: &mut zip::ZipArchive<std::io::Cursor<Vec<u8>>>, index: usize, limit: u64) -> (res: Result<Vec<u8>, (bool, String)>)
    ensures
        zip_archive_source(*final(archive)) == zip_archive_source(*old(archive)),
        match res {
            Ok(bytes) => spec_zip_read_entry(zip_archive_source(*old(archive)), index as nat, limit)
                == Ok::<Seq<u8>, (bool, Seq<char>)>(bytes@) && bytes@.len() <= limit,
            Err((read_failed, message)) => spec_zip_read_entry(zip_archive_source(*old(archive)), index as nat, limit)
                == Err::<Seq<u8>, (bool, Seq<char>)>((read_failed, message@)),
        },
{
    let file = archive.by_index(index).map_err(|error| (false, error.to_string()))?;
    let mut output = Vec::new();
    std::io::Read::read_to_end(&mut std::io::Read::take(file, limit), &mut output).map_err(|error| (true, error.to_string()))?;
    Ok(output)
}

/// Reads everything that a reader yields (`std::io::Read::read_to_end`).
/// Nothing is claimed of the bytes or of the error's `Display` text: both
/// depend on the reader.
#[verifier::external_body]
pub fn read_all<R: std::io::Read>(reader: R) -> (res: Result<Vec<u8>, String>) {
    let mut reader = reader;
    let mut bytes = Vec::new();
    match reader.read_to_end(&mut bytes) {
        Ok(_) => Ok(bytes),
        Err(error) => Err(error.to_string()),
    }
}

} // verus!
