//! File-name sanitising, CSV field quoting and whitespace trimming.
use vstd::prelude::*;
use crate::text::{char_vec, push_char};

verus! {

/// Characters kept as they are in a file name.
pub open spec fn is_name_char(c: char) -> bool {
    ('a' <= c && c <= 'z') || ('A' <= c && c <= 'Z') || ('0' <= c && c <= '9') || c == '-' || c
        == '_'
}

/// `c` itself when a file name may hold it, otherwise `_`.
pub open spec fn name_char(c: char) -> char {
    if is_name_char(c) {
        c
    } else {
        '_'
    }
}

/// A connection id made safe as a file name: each character that is not an
/// ASCII letter, digit, `-` or `_` becomes `_`; an empty id becomes `connection`.
pub open spec fn sanitized(s: Seq<char>) -> Seq<char> {
    if s.len() == 0 {
        "connection"@
    } else {
        s.map_values(|c: char| name_char(c))
    }
}

/// The id as a file-name stem; see [`sanitized`].
pub fn safe_connection_id(raw: &str) -> (r: String)
    ensures
        r@ == sanitized(raw@),
{
    let chars = char_vec(raw);
    if chars.len() == 0 {
        return String::from_str("connection");
    }
    let mut out = String::new();
    let mut i: usize = 0;
    while i < chars.len()
        invariant
            i <= chars@.len(),
            chars@ == raw@,
            out@ == chars@.subrange(0, i as int).map_values(|c: char| name_char(c)),
        decreases chars@.len() - i,
    {
        let c = chars[i];
        let keep = ('a' <= c && c <= 'z') || ('A' <= c && c <= 'Z') || ('0' <= c && c <= '9') || c
            == '-' || c == '_';
        if keep {
            push_char(&mut out, c);
        } else {
            push_char(&mut out, '_');
        }
        assert(out@ =~= chars@.subrange(0, i + 1).map_values(|c: char| name_char(c)));
        i += 1;
    }
    assert(chars@.subrange(0, i as int) =~= chars@);
    out
}

/// The name used for files that a user saves for a connection; the same rule
/// as [`safe_connection_id`].
pub fn safe_name(input: &str) -> (r: String)
    ensures
        r@ == sanitized(input@),
{
    safe_connection_id(input)
}

/// The characters of `s` with each `"` doubled.
pub open spec fn doubled(s: Seq<char>) -> Seq<char>
    decreases s.len(),
{
    if s.len() == 0 {
        Seq::empty()
    } else {
        doubled_char(s[0]) + doubled(s.drop_first())
    }
}

/// A CSV field: `s` with quotes doubled, between double quotes.
pub open spec fn csv_quoted(s: Seq<char>) -> Seq<char> {
    seq!['"'] + doubled(s) + seq!['"']
}

/// Reads the body of a quoted CSV field, the opening quote already consumed:
/// `""` stands for one quote and a lone `"` closes the field. Gives the value
/// and the number of characters read, closing quote included; `None` when
/// the field is not closed.
pub open spec fn read_quoted(t: Seq<char>) -> Option<(Seq<char>, int)>
    decreases t.len(),
{
    if t.len() == 0 {
        None
    } else if t[0] == '"' {
        if t.len() >= 2 && t[1] == '"' {
            match read_quoted(t.subrange(2, t.len() as int)) {
                Some(r) => Some((seq!['"'] + r.0, r.1 + 2)),
                None => None,
            }
        } else {
            Some((Seq::empty(), 1))
        }
    } else {
        match read_quoted(t.drop_first()) {
            Some(r) => Some((seq![t[0]] + r.0, r.1 + 1)),
            None => None,
        }
    }
}

/// `c` as it stands inside a quoted CSV field.
pub open spec fn doubled_char(c: char) -> Seq<char> {
    if c == '"' {
        seq!['"', '"']
    } else {
        seq![c]
    }
}

proof fn lemma_doubled_push(s: Seq<char>, c: char)
    ensures
        doubled(s.push(c)) == doubled(s) + doubled_char(c),
    decreases s.len(),
{
    let t = s.push(c);
    if s.len() == 0 {
        assert(t.drop_first() =~= Seq::<char>::empty());
        assert(doubled(t) == doubled_char(c) + doubled(t.drop_first()));
        assert(doubled(t) =~= doubled(s) + doubled_char(c));
    } else {
        lemma_doubled_push(s.drop_first(), c);
        assert(t.drop_first() =~= s.drop_first().push(c));
        assert(t[0] == s[0]);
        assert(doubled(t) == doubled_char(s[0]) + doubled(t.drop_first()));
        assert(doubled(s) == doubled_char(s[0]) + doubled(s.drop_first()));
        assert(doubled(t) =~= doubled(s) + doubled_char(c));
    }
}

/// A quoted CSV field reads back as the same text when a separator, a
/// line break or nothing follows it: quotes and commas inside the value are
/// kept.
pub proof fn lemma_csv_round_trip(s: Seq<char>, rest: Seq<char>)
    requires
        rest.len() == 0 || rest[0] != '"',
    ensures
        read_quoted(doubled(s) + seq!['"'] + rest) == Some((s, doubled(s).len() + 1int)),
        csv_quoted(s).drop_first() + rest == doubled(s) + seq!['"'] + rest,
    decreases s.len(),
{
    let t = doubled(s) + seq!['"'] + rest;
    if s.len() == 0 {
        assert(doubled(s) =~= Seq::<char>::empty());
        assert(t =~= seq!['"'] + rest);
        assert(t[0] == '"');
        if t.len() >= 2 {
            assert(t[1] == rest[0]);
        }
    } else {
        lemma_csv_round_trip(s.drop_first(), rest);
        let u = doubled(s.drop_first()) + seq!['"'] + rest;
        assert(seq![s[0]] + s.drop_first() =~= s);
        if s[0] == '"' {
            assert(doubled(s) == seq!['"', '"'] + doubled(s.drop_first()));
            assert(t =~= seq!['"', '"'] + u);
            assert(t.subrange(2, t.len() as int) =~= u);
        } else {
            assert(doubled(s) == seq![s[0]] + doubled(s.drop_first()));
            assert(t =~= seq![s[0]] + u);
            assert(t.drop_first() =~= u);
        }
    }
    assert(csv_quoted(s).drop_first() + rest =~= doubled(s) + seq!['"'] + rest);
}

/// Appends `s` as a CSV field.
pub(crate) fn push_csv_field(out: &mut String, s: &str)
    ensures
        final(out)@ == old(out)@ + csv_quoted(s@),
{
    let chars = char_vec(s);
    push_char(out, '"');
    let ghost start = out@;
    let mut i: usize = 0;
    while i < chars.len()
        invariant
            i <= chars@.len(),
            chars@ == s@,
            out@ == start + doubled(chars@.subrange(0, i as int)),
        decreases chars@.len() - i,
    {
        let c = chars[i];
        proof {
            lemma_doubled_push(chars@.subrange(0, i as int), c);
            assert(chars@.subrange(0, i + 1) =~= chars@.subrange(0, i as int).push(c));
        }
        if c == '"' {
            push_char(out, '"');
            push_char(out, '"');
        } else {
            push_char(out, c);
        }
        assert(out@ =~= start + doubled(chars@.subrange(0, i + 1)));
        i += 1;
    }
    assert(chars@.subrange(0, i as int) =~= chars@);
    push_char(out, '"');
    assert(out@ =~= old(out)@ + csv_quoted(s@));
}

/// `input` as a CSV field: between double quotes, each quote doubled.
pub fn escape_csv(input: &str) -> (r: String)
    ensures
        r@ == csv_quoted(input@),
{
    let mut out = String::new();
    push_csv_field(&mut out, input);
    assert(out@ =~= csv_quoted(input@));
    out
}

/// Whether `c` has the Unicode `White_Space` property, as `char::is_whitespace`
/// answers: the 25 code points that Unicode's PropList gives it.
pub open spec fn white_space(c: char) -> bool {
    ('\u{9}' <= c && c <= '\u{d}') || c == ' ' || c == '\u{85}' || c == '\u{a0}' || c
        == '\u{1680}' || ('\u{2000}' <= c && c <= '\u{200a}') || c == '\u{2028}' || c
        == '\u{2029}' || c == '\u{202f}' || c == '\u{205f}' || c == '\u{3000}'
}

/// `s` without its leading white space.
pub open spec fn trim_start_of(s: Seq<char>) -> Seq<char>
    decreases s.len(),
{
    if s.len() > 0 && white_space(s[0]) {
        trim_start_of(s.drop_first())
    } else {
        s
    }
}

/// `s` without its trailing white space.
pub open spec fn trim_end_of(s: Seq<char>) -> Seq<char>
    decreases s.len(),
{
    if s.len() > 0 && white_space(s.last()) {
        trim_end_of(s.drop_last())
    } else {
        s
    }
}

/// `s` without leading and trailing white space.
pub open spec fn trimmed(s: Seq<char>) -> Seq<char> {
    trim_end_of(trim_start_of(s))
}

/// Relies on `str::trim`: the slice without leading and trailing characters
/// for which `char::is_whitespace` holds.
#[verifier::external_body]
pub(crate) fn trim(s: &str) -> (r: &str)
    ensures
        r@ == trimmed(s@),
{
    s.trim()
}

/// What `Path::extension` finds in a path: whether its file name has an
/// extension.
pub uninterp spec fn has_extension(path: Seq<char>) -> bool;

/// What `Path::with_extension` gives: the path with its extension set.
pub uninterp spec fn with_extension(path: Seq<char>, ext: Seq<char>) -> Seq<char>;

/// Relies on `Path::extension`: whether the file name of `path` has an
/// extension that is valid text.
#[verifier::external_body]
fn path_has_extension(path: &str) -> (r: bool)
    ensures
        r == has_extension(path@),
{
    std::path::Path::new(path).extension().and_then(|v| v.to_str()).is_some()
}

/// Whether a text holds no path separator, `/` or `\\`.
pub open spec fn no_separator(s: Seq<char>) -> bool {
    forall|i: int| 0 <= i < s.len() ==> s[i] != '/' && s[i] != '\\'
}

/// Relies on `Path::with_extension`: the path with `ext` as its extension,
/// displayed as text. It panics on an extension holding a path separator,
/// which `requires` rules out.
#[verifier::external_body]
fn path_with_extension(path: &str, ext: &str) -> (r: String)
    requires
        no_separator(ext@),
    ensures
        r@ == with_extension(path@, ext@),
{
    std::path::Path::new(path).with_extension(ext).display().to_string()
}

/// A chosen output path: kept when it has an extension, else given `ext`.
pub open spec fn output_path(path: Seq<char>, ext: Seq<char>) -> Seq<char> {
    if has_extension(path) {
        path
    } else {
        with_extension(path, ext)
    }
}

/// See [`output_path`].
pub fn normalize_output_path(path: &str, ext: &str) -> (r: String)
    requires
        no_separator(ext@),
    ensures
        r@ == output_path(path@, ext@),
{
    if path_has_extension(path) {
        String::from_str(path)
    } else {
        path_with_extension(path, ext)
    }
}

/// A path picked in a save dialog, completed as [`normalize_output_path`] does.
pub fn normalize_selected_path(path: &str, ext: &str) -> (r: String)
    requires
        no_separator(ext@),
    ensures
        r@ == output_path(path@, ext@),
{
    normalize_output_path(path, ext)
}

/// Whether `s` consists of white space alone (an empty text included).
pub open spec fn is_blank(s: Seq<char>) -> bool {
    trimmed(s).len() == 0
}

/// Whether `s` begins with `p`.
pub open spec fn has_prefix(s: Seq<char>, p: Seq<char>) -> bool {
    p.len() <= s.len() && s.subrange(0, p.len() as int) == p
}

/// Whether `s` begins with `p`.
pub(crate) fn starts_with(s: &str, p: &str) -> (r: bool)
    ensures
        r == has_prefix(s@, p@),
{
    let a = char_vec(s);
    let b = char_vec(p);
    if b.len() > a.len() {
        return false;
    }
    let mut i: usize = 0;
    while i < b.len()
        invariant
            a@ == s@,
            b@ == p@,
            b@.len() <= a@.len(),
            i <= b@.len(),
            a@.subrange(0, i as int) == b@.subrange(0, i as int),
        decreases b@.len() - i,
    {
        if a[i] != b[i] {
            assert(a@.subrange(0, b@.len() as int)[i as int] != b@[i as int]);
            return false;
        }
        assert(a@.subrange(0, i + 1) =~= b@.subrange(0, i + 1));
        i += 1;
    }
    assert(b@.subrange(0, i as int) =~= b@);
    true
}

} // verus!
