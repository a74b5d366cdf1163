//! Safe file names for extracted documents.
use vstd::prelude::*;
use vstd::string::StringExecFns;
use crate::text::{
    chars_of, decimal, digit_char, spec_decimal, string_push, trim_both, trim_end, trim_start,
    trim_string, trim_start_string, TrimClass,
};

verus! {

broadcast use vstd::string::group_string_axioms;

/// The control characters (`char::is_control`, Unicode category Cc).
pub open spec fn is_control_char(c: char) -> bool {
    (c as u32) <= 0x1f || (0x7f <= (c as u32) <= 0x9f)
}

/// Characters that may not stand in a file name.
pub open spec fn spec_is_unsafe_filename_character(c: char) -> bool {
    ||| is_control_char(c)
    ||| c == '/' || c == '\\' || c == ':' || c == '*' || c == '?'
    ||| c == '"' || c == '<' || c == '>' || c == '|'
}

/// A text with each unsafe character (and, if asked, each space) replaced by `_`.
pub open spec fn spec_sanitize_component(value: Seq<char>, replace_spaces: bool) -> Seq<char> {
    value.map_values(
        |c: char|
            if spec_is_unsafe_filename_character(c) || (replace_spaces && c == ' ') {
                '_'
            } else {
                c
            },
    )
}

/// A file name stem: the title sanitized, without leading or trailing spaces
/// and full stops.
pub open spec fn spec_sanitize_stem(value: Seq<char>) -> Seq<char> {
    trim_both(spec_sanitize_component(value, false), TrimClass::SpaceOrDot)
}

/// A file extension: without leading full stops, sanitized with spaces
/// replaced, without leading or trailing spaces and full stops.
pub open spec fn spec_sanitize_extension(value: Seq<char>) -> Seq<char> {
    trim_both(spec_sanitize_component(trim_start(value, TrimClass::Dot), true), TrimClass::SpaceOrDot)
}

/// The suggested file name of a document: its sanitized title, or
/// `document-{index}` when that is empty, followed by `.` and its sanitized
/// extension when it has a non-empty one.
pub open spec fn spec_filename_from_parts(index: usize, title: Seq<char>, extension: Option<Seq<char>>) -> Seq<char> {
    let stem = spec_sanitize_stem(title);
    let base = if stem.len() == 0 {
        "document-"@ + spec_decimal(index as nat)
    } else {
        stem
    };
    match extension {
        Some(e) => {
            let ext = spec_sanitize_extension(e);
            if ext.len() > 0 {
                base.push('.') + ext
            } else {
                base
            }
        },
        None => base,
    }
}

/// Whether a character may not stand in a file name.
pub fn is_unsafe_filename_character(c: char) -> (res: bool)
    ensures
        res == spec_is_unsafe_filename_character(c),
{
    let u = c as u32;
    u <= 0x1f || (0x7f <= u && u <= 0x9f) || c == '/' || c == '\\' || c == ':' || c == '*' || c
        == '?' || c == '"' || c == '<' || c == '>' || c == '|'
}

/// Replaces each unsafe character (and, if asked, each space) by `_`.
pub fn sanitize_component(value: &str, replace_spaces: bool) -> (res: String)
    ensures
        res@ == spec_sanitize_component(value@, replace_spaces),
{
    let chars = chars_of(value);
    let mut out = String::new();
    let mut i: usize = 0;
    while i < chars.len()
        invariant
            i <= chars@.len(),
            chars@ == value@,
            out@ == spec_sanitize_component(value@.take(i as int), replace_spaces),
        decreases chars@.len() - i,
    {
        let c = chars[i];
        let mapped = if is_unsafe_filename_character(c) || (replace_spaces && c == ' ') {
            '_'
        } else {
            c
        };
        string_push(&mut out, mapped);
        i = i + 1;
        assert(spec_sanitize_component(value@.take(i as int), replace_spaces) =~= spec_sanitize_component(
            value@.take(i - 1),
            replace_spaces,
        ).push(mapped));
    }
    assert(value@.take(i as int) =~= value@);
    out
}

/// A file name stem made from a title.
pub fn sanitize_stem(value: &str) -> (res: String)
    ensures
        res@ == spec_sanitize_stem(value@),
{
    let sanitized = sanitize_component(value, false);
    trim_string(sanitized.as_str(), TrimClass::SpaceOrDot)
}

/// A file extension made from a declared extension.
pub fn sanitize_extension(value: &str) -> (res: String)
    ensures
        res@ == spec_sanitize_extension(value@),
{
    let undotted = trim_start_string(value, TrimClass::Dot);
    let sanitized = sanitize_component(undotted.as_str(), true);
    trim_string(sanitized.as_str(), TrimClass::SpaceOrDot)
}

/// The suggested file name of a document from its index, title and extension.
pub fn filename_from_parts(index: usize, title: &str, extension: Option<&str>) -> (res: String)
    ensures
        res@ == spec_filename_from_parts(
            index,
            title@,
            match extension {
                Some(e) => Some(e@),
                None => None,
            },
        ),
{
    let mut filename = sanitize_stem(title);
    if filename.as_str().is_empty() {
        filename = crate::text::concat2("document-", decimal(index as u64).as_str());
    }
    if let Some(extension) = extension {
        let extension = sanitize_extension(extension);
        if !extension.as_str().is_empty() {
            string_push(&mut filename, '.');
            filename.append(extension.as_str());
        }
    }
    filename
}

/// The suggested file name of a document entry.
pub fn filename_for(entry: &crate::document::DocumentEntry) -> (res: String)
    ensures
        res@ == spec_filename_from_parts(entry@.index, entry@.title, entry@.mime_type.extension),
{
    filename_from_parts(entry.index(), entry.title(), entry.mime_type().extension())
}

/// Whether a character may stand in a file name on every common platform:
/// not `/ \\ : * ? " < > |` and not a control character.
pub open spec fn portable_name_char(c: char) -> bool {
    &&& c != '/' && c != '\\' && c != ':' && c != '*' && c != '?'
    &&& c != '"' && c != '<' && c != '>' && c != '|'
    &&& !((c as u32) <= 0x1f || (0x7f <= (c as u32) && (c as u32) <= 0x9f))
}

/// Whether every character of a text may stand in a file name.
pub open spec fn portable_name(s: Seq<char>) -> bool {
    forall|j: int| 0 <= j < s.len() ==> portable_name_char(#[trigger] s[j])
}

proof fn lemma_trim_start_portable(s: Seq<char>, class: TrimClass)
    requires
        portable_name(s),
    ensures
        portable_name(trim_start(s, class)),
    decreases s.len(),
{
    if s.len() > 0 && crate::text::in_class(class, s[0]) {
        assert forall|j: int| 0 <= j < s.drop_first().len() implies portable_name_char(#[trigger] s.drop_first()[j]) by {
            assert(s.drop_first()[j] == s[j + 1]);
        }
        lemma_trim_start_portable(s.drop_first(), class);
    }
}

proof fn lemma_trim_end_portable(s: Seq<char>, class: TrimClass)
    requires
        portable_name(s),
    ensures
        portable_name(trim_end(s, class)),
    decreases s.len(),
{
    if s.len() > 0 && crate::text::in_class(class, s.last()) {
        assert forall|j: int| 0 <= j < s.drop_last().len() implies portable_name_char(#[trigger] s.drop_last()[j]) by {
            assert(s.drop_last()[j] == s[j]);
        }
        lemma_trim_end_portable(s.drop_last(), class);
    }
}

proof fn lemma_sanitized_portable(value: Seq<char>, replace_spaces: bool)
    ensures
        portable_name(spec_sanitize_component(value, replace_spaces)),
{
    let out = spec_sanitize_component(value, replace_spaces);
    assert forall|j: int| 0 <= j < out.len() implies portable_name_char(#[trigger] out[j]) by {
        let c = value[j];
        if !(spec_is_unsafe_filename_character(c) || (replace_spaces && c == ' ')) {
            assert(out[j] == c);
            assert(!is_control_char(c));
        } else {
            assert(out[j] == '_');
            assert(('_' as u32) == 95);
        }
    }
}

proof fn lemma_decimal_portable(n: nat)
    ensures
        portable_name(spec_decimal(n)),
    decreases n,
{
    if n >= 10 {
        lemma_decimal_portable(n / 10);
    }
    let d = n % 10;
    let c = digit_char(d);
    assert(48 <= (c as u32) <= 57) by {
        assert(0 <= d < 10);
        assert(((d + 48) as u8) as char as u32 == d + 48);
    }
    let out = spec_decimal(n);
    assert forall|j: int| 0 <= j < out.len() implies portable_name_char(#[trigger] out[j]) by {
        if n < 10 {
            assert(out[j] == digit_char(n));
        } else {
            if j < out.len() - 1 {
                assert(out[j] == spec_decimal(n / 10)[j]);
            } else {
                assert(out[j] == c);
            }
        }
    }
}

proof fn lemma_concat_portable(a: Seq<char>, b: Seq<char>)
    requires
        portable_name(a),
        portable_name(b),
    ensures
        portable_name(a + b),
{
    assert forall|j: int| 0 <= j < (a + b).len() implies portable_name_char(#[trigger] (a + b)[j]) by {
        if j < a.len() {
            assert((a + b)[j] == a[j]);
        } else {
            assert((a + b)[j] == b[j - a.len()]);
        }
    }
}

/// Law: no suggested file name holds a character that file systems refuse
/// or misread: none of `/ \\ : * ? " < > |` and no control character, for
/// every index, title and extension.
pub proof fn law_suggested_filenames_are_safe(index: usize, title: Seq<char>, extension: Option<Seq<char>>)
    ensures
        forall|j: int|
            0 <= j < spec_filename_from_parts(index, title, extension).len() ==> {
                let c = #[trigger] spec_filename_from_parts(index, title, extension)[j];
                &&& c != '/' && c != '\\' && c != ':' && c != '*' && c != '?'
                &&& c != '"' && c != '<' && c != '>' && c != '|'
                &&& !((c as u32) <= 0x1f || (0x7f <= (c as u32) && (c as u32) <= 0x9f))
            },
{
    reveal_strlit("document-");
    lemma_sanitized_portable(title, false);
    let san = spec_sanitize_component(title, false);
    lemma_trim_start_portable(san, TrimClass::SpaceOrDot);
    lemma_trim_end_portable(trim_start(san, TrimClass::SpaceOrDot), TrimClass::SpaceOrDot);
    let stem = spec_sanitize_stem(title);
    lemma_decimal_portable(index as nat);
    let prefix = "document-"@;
    assert(portable_name(prefix)) by {
        assert forall|j: int| 0 <= j < prefix.len() implies portable_name_char(#[trigger] prefix[j]) by {}
    }
    lemma_concat_portable(prefix, spec_decimal(index as nat));
    let base = if stem.len() == 0 {
        prefix + spec_decimal(index as nat)
    } else {
        stem
    };
    assert(portable_name(base));
    if let Some(e) = extension {
        let dots = trim_start(e, TrimClass::Dot);
        lemma_sanitized_portable(dots, true);
        let san_e = spec_sanitize_component(dots, true);
        lemma_trim_start_portable(san_e, TrimClass::SpaceOrDot);
        lemma_trim_end_portable(trim_start(san_e, TrimClass::SpaceOrDot), TrimClass::SpaceOrDot);
        let ext = spec_sanitize_extension(e);
        assert(portable_name(seq!['.'])) by {
            assert forall|j: int| 0 <= j < seq!['.'].len() implies portable_name_char(#[trigger] seq!['.'][j]) by {}
        }
        lemma_concat_portable(base, seq!['.']);
        assert(base.push('.') =~= base + seq!['.']);
        lemma_concat_portable(base.push('.'), ext);
    }
    let name = spec_filename_from_parts(index, title, extension);
    assert(portable_name(name));
}

} // verus!
