//! Small string facilities that the rest of the library builds on.
use vstd::prelude::*;
use vstd::string::StringExecFns;


verus! {

broadcast use vstd::string::group_string_axioms;

/// The decimal digit character for a value below ten.
pub open spec fn digit_char(d: nat) -> char {
    ((d + 48) as u8) as char
}

/// The decimal representation of a natural number, most significant digit first.
pub open spec fn spec_decimal(n: nat) -> Seq<char>
    decreases n,
{
    if n < 10 {
        seq![digit_char(n)]
    } else {
        spec_decimal(n / 10).push(digit_char(n % 10))
    }
}

/// Appends a character to a string (`String::push`).
#[verifier::external_body]
pub fn string_push(s: &mut String, c: char)
    ensures
        final(s)@ == old(s)@.push(c),
{
    s.push(c)
}

/// Compares two string slices (`<str as PartialEq>::eq`).
#[verifier::external_body]
pub fn str_eq(a: &str, b: &str) -> (res: bool)
    ensures
        res == (a@ == b@),
{
    a == b
}

/// Formats a number in decimal.
pub fn decimal(n: u64) -> (res: String)
    ensures
        res@ == spec_decimal(n as nat),
    decreases n,
{
    let digit = ((n % 10) as u8 + 48) as char;
    if n < 10 {
        let mut s = String::new();
        string_push(&mut s, digit);
        s
    } else {
        let mut s = decimal(n / 10);
        string_push(&mut s, digit);
        s
    }
}

/// The string made of one slice followed by another.
pub fn concat2(a: &str, b: &str) -> (res: String)
    ensures
        res@ == a@ + b@,
{
    let mut s = a.to_owned();
    s.append(b);
    s
}

/// The string made of three slices in a row.
pub fn concat3(a: &str, b: &str, c: &str) -> (res: String)
    ensures
        res@ == a@ + b@ + c@,
{
    let mut s = a.to_owned();
    s.append(b);
    s.append(c);
    s
}

/// A copy of an optional string.
pub fn clone_opt_string(s: &Option<String>) -> (res: Option<String>)
    ensures
        opt_view(res) == opt_view(*s),
{
    match s {
        Some(t) => Some(t.clone()),
        None => None,
    }
}

/// The view of an optional string.
pub open spec fn opt_view(s: Option<String>) -> Option<Seq<char>> {
    match s {
        Some(t) => Some(t@),
        None => None,
    }
}

/// The characters that `char::is_whitespace` accepts (Unicode `White_Space`).
pub open spec fn is_unicode_whitespace(c: char) -> bool {
    let u = c as u32;
    ||| 0x09 <= u <= 0x0d
    ||| u == 0x20
    ||| u == 0x85
    ||| u == 0xa0
    ||| u == 0x1680
    ||| 0x2000 <= u <= 0x200a
    ||| u == 0x2028
    ||| u == 0x2029
    ||| u == 0x202f
    ||| u == 0x205f
    ||| u == 0x3000
}

/// Whether a character is whitespace (`char::is_whitespace`).
pub fn is_whitespace(c: char) -> (res: bool)
    ensures
        res == is_unicode_whitespace(c),
{
    let u = c as u32;
    (0x09 <= u && u <= 0x0d) || u == 0x20 || u == 0x85 || u == 0xa0 || u == 0x1680 || (0x2000 <= u
        && u <= 0x200a) || u == 0x2028 || u == 0x2029 || u == 0x202f || u == 0x205f || u == 0x3000
}

/// The classes of characters that are trimmed off names and values.
#[derive(Clone, Copy, Debug, PartialEq, Eq, Structural)]
pub enum TrimClass {
    /// A space or a full stop.
    SpaceOrDot,
    /// A full stop.
    Dot,
    /// Unicode whitespace.
    Whitespace,
}

/// Whether a character belongs to a trim class.
pub open spec fn in_class(class: TrimClass, c: char) -> bool {
    match class {
        TrimClass::SpaceOrDot => c == ' ' || c == '.',
        TrimClass::Dot => c == '.',
        TrimClass::Whitespace => is_unicode_whitespace(c),
    }
}

/// Whether a character belongs to a trim class.
pub fn is_in_class(class: TrimClass, c: char) -> (res: bool)
    ensures
        res == in_class(class, c),
{
    match class {
        TrimClass::SpaceOrDot => c == ' ' || c == '.',
        TrimClass::Dot => c == '.',
        TrimClass::Whitespace => is_whitespace(c),
    }
}

/// A text without its leading characters of a class.
pub open spec fn trim_start(s: Seq<char>, class: TrimClass) -> Seq<char>
    decreases s.len(),
{
    if s.len() > 0 && in_class(class, s[0]) {
        trim_start(s.drop_first(), class)
    } else {
        s
    }
}

/// A text without its trailing characters of a class.
pub open spec fn trim_end(s: Seq<char>, class: TrimClass) -> Seq<char>
    decreases s.len(),
{
    if s.len() > 0 && in_class(class, s.last()) {
        trim_end(s.drop_last(), class)
    } else {
        s
    }
}

/// A text without its leading and trailing characters of a class
/// (`str::trim_matches`).
pub open spec fn trim_both(s: Seq<char>, class: TrimClass) -> Seq<char> {
    trim_end(trim_start(s, class), class)
}

proof fn lemma_trim_start_skip(s: Seq<char>, class: TrimClass, i: int)
    requires
        0 <= i <= s.len(),
        forall|k: int| 0 <= k < i ==> in_class(class, #[trigger] s[k]),
        i == s.len() || !in_class(class, s[i]),
    ensures
        trim_start(s, class) == s.skip(i),
    decreases i,
{
    if i == 0 {
        assert(s.skip(0) =~= s);
    } else {
        assert(in_class(class, s[0]));
        let t = s.drop_first();
        assert forall|k: int| 0 <= k < i - 1 implies in_class(class, #[trigger] t[k]) by {
            assert(t[k] == s[k + 1]);
        }
        if i < s.len() {
            assert(t[i - 1] == s[i]);
        }
        lemma_trim_start_skip(t, class, i - 1);
        assert(t.skip(i - 1) =~= s.skip(i));
    }
}

proof fn lemma_trim_end_take(s: Seq<char>, class: TrimClass, j: int)
    requires
        0 <= j <= s.len(),
        forall|k: int| j <= k < s.len() ==> in_class(class, #[trigger] s[k]),
        j == 0 || !in_class(class, s[j - 1]),
    ensures
        trim_end(s, class) == s.take(j),
    decreases s.len() - j,
{
    if j == s.len() {
        assert(s.take(j) =~= s);
    } else {
        assert(in_class(class, s.last()));
        let t = s.drop_last();
        assert forall|k: int| j <= k < t.len() implies in_class(class, #[trigger] t[k]) by {
            assert(t[k] == s[k]);
        }
        if j > 0 {
            assert(t[j - 1] == s[j - 1]);
        }
        lemma_trim_end_take(t, class, j);
        assert(t.take(j) =~= s.take(j));
    }
}

/// The characters of a string.
pub fn chars_of(s: &str) -> (res: Vec<char>)
    ensures
        res@ == s@,
{
    let mut out: Vec<char> = Vec::new();
    for c in it: s.chars()
        invariant
            it.seq() == s@,
            out@ == s@.take(it.index() as int),
    {
        out.push(c);
        assert(out@ =~= s@.take(it.index() + 1));
    }
    assert(out@ =~= s@);
    out
}

/// The string made of the characters `from..to` of a character vector.
pub fn string_from_chars(chars: &Vec<char>, from: usize, to: usize) -> (res: String)
    requires
        from <= to <= chars@.len(),
    ensures
        res@ == chars@.subrange(from as int, to as int),
{
    let mut out = String::new();
    let mut i = from;
    while i < to
        invariant
            from <= i <= to <= chars@.len(),
            out@ == chars@.subrange(from as int, i as int),
        decreases to - i,
    {
        string_push(&mut out, chars[i]);
        i = i + 1;
        assert(out@ =~= chars@.subrange(from as int, i as int));
    }
    out
}

/// The bounds `from..to` of a character vector without its leading and
/// trailing characters of a class.
pub fn trim_bounds(chars: &Vec<char>, class: TrimClass) -> (res: (usize, usize))
    ensures
        res.0 <= res.1 <= chars@.len(),
        trim_both(chars@, class) == chars@.subrange(res.0 as int, res.1 as int),
        trim_start(chars@, class) == chars@.skip(res.0 as int),
{
    let n = chars.len();
    let mut i: usize = 0;
    while i < n && is_in_class(class, chars[i])
        invariant
            i <= n,
            n == chars@.len(),
            forall|k: int| 0 <= k < i ==> in_class(class, #[trigger] chars@[k]),
        decreases n - i,
    {
        i = i + 1;
    }
    proof {
        lemma_trim_start_skip(chars@, class, i as int);
    }
    let ghost rest = chars@.skip(i as int);
    let mut j: usize = n;
    while j > i && is_in_class(class, chars[j - 1])
        invariant
            i <= j <= n,
            n == chars@.len(),
            rest == chars@.skip(i as int),
            forall|k: int| j <= k < n ==> in_class(class, #[trigger] chars@[k]),
        decreases j,
    {
        j = j - 1;
    }
    proof {
        assert forall|k: int| j - i <= k < rest.len() implies in_class(class, #[trigger] rest[k]) by {
            assert(rest[k] == chars@[k + i]);
        }
        if j > i {
            assert(rest[j - i - 1] == chars@[j - 1]);
        }
        lemma_trim_end_take(rest, class, j - i);
        assert(rest.take(j - i) =~= chars@.subrange(i as int, j as int));
    }
    (i, j)
}

/// A string without its leading and trailing characters of a class.
pub fn trim_string(s: &str, class: TrimClass) -> (res: String)
    ensures
        res@ == trim_both(s@, class),
{
    let chars = chars_of(s);
    let (from, to) = trim_bounds(&chars, class);
    string_from_chars(&chars, from, to)
}

/// A string without its leading characters of a class.
pub fn trim_start_string(s: &str, class: TrimClass) -> (res: String)
    ensures
        res@ == trim_start(s@, class),
{
    let chars = chars_of(s);
    let (from, _) = trim_bounds(&chars, class);
    let n = chars.len();
    assert(chars@.skip(from as int) =~= chars@.subrange(from as int, n as int));
    string_from_chars(&chars, from, n)
}

} // verus!
