use vstd::prelude::*;
use crate::lang::{Language, language_of_code};
use crate::text::{parse_u32, split_spec, split_str, u32_of_text};

verus! {

/// Why a content file name was refused. Names are `<index>.<slug>.<language>[.<ext>]`.
#[derive(Debug, Clone, Copy, PartialEq, Eq, Structural)]
pub enum FileNameError {
    /// The first field is not an unsigned number.
    InvalidIndex,
    /// There is no second field.
    MissingSlug,
    /// There is no third field.
    MissingLanguage,
    /// The third field is no known language code.
    InvalidLanguage,
}

/// What a content file name says: its index, language and slug, read from its first
/// three `.`-separated fields (later fields, such as the extension, are not read).
pub open spec fn file_name_parts(name: Seq<char>) -> Result<(u32, Language, Seq<char>), FileNameError> {
    let fields = split_spec(name, '.');
    match u32_of_text(fields[0]) {
        None => Err(FileNameError::InvalidIndex),
        Some(idx) => if fields.len() < 2 {
            Err(FileNameError::MissingSlug)
        } else if fields.len() < 3 {
            Err(FileNameError::MissingLanguage)
        } else {
            match language_of_code(fields[2]) {
                None => Err(FileNameError::InvalidLanguage),
                Some(lang) => Ok((idx, lang, fields[1])),
            }
        },
    }
}

/// Reads the index, language and slug out of a content file name such as
/// `3.my-slug.en.md`.
pub fn parse_file_name(file_name: &str) -> (r: Result<(u32, Language, &str), FileNameError>)
    ensures
        match r {
            Ok((idx, lang, slug)) => file_name_parts(file_name@) == Ok::<
                (u32, Language, Seq<char>),
                FileNameError,
            >((idx, lang, slug@)),
            Err(e) => file_name_parts(file_name@) == Err::<(u32, Language, Seq<char>), FileNameError>(e),
        },
{
    let fields = split_str(file_name, '.');
    let ghost views = fields@.map_values(|p: &str| p@);
    proof {
        crate::text::lemma_split_nonempty(file_name@, '.');
    }
    assert(views[0] == fields@[0]@);
    let idx = match parse_u32(fields[0]) {
        Some(i) => i,
        None => return Err(FileNameError::InvalidIndex),
    };
    if fields.len() < 2 {
        return Err(FileNameError::MissingSlug);
    }
    if fields.len() < 3 {
        return Err(FileNameError::MissingLanguage);
    }
    assert(views[1] == fields@[1]@);
    assert(views[2] == fields@[2]@);
    let lang = match Language::from_code(fields[2]) {
        Some(l) => l,
        None => return Err(FileNameError::InvalidLanguage),
    };
    Ok((idx, lang, fields[1]))
}

/// Whether `char::is_whitespace` holds of `c`: the characters of Unicode's White_Space.
pub open spec fn is_whitespace_char(c: char) -> bool {
    ('\u{9}' <= c <= '\u{d}') || c == ' ' || c == '\u{85}' || c == '\u{a0}' || c == '\u{1680}'
        || ('\u{2000}' <= c <= '\u{200a}') || c == '\u{2028}' || c == '\u{2029}' || c == '\u{202f}'
        || c == '\u{205f}' || c == '\u{3000}'
}

fn is_whitespace(c: char) -> (r: bool)
    ensures
        r == is_whitespace_char(c),
{
    ('\u{9}' <= c && c <= '\u{d}') || c == ' ' || c == '\u{85}' || c == '\u{a0}' || c == '\u{1680}'
        || ('\u{2000}' <= c && c <= '\u{200a}') || c == '\u{2028}' || c == '\u{2029}' || c == '\u{202f}'
        || c == '\u{205f}' || c == '\u{3000}'
}

/// How many whitespace characters `s` starts with.
pub open spec fn leading_whitespace(s: Seq<char>) -> nat
    decreases s.len(),
{
    if s.len() > 0 && is_whitespace_char(s[0]) {
        1 + leading_whitespace(s.drop_first())
    } else {
        0
    }
}

/// Whether `---` stands in `s` at `k`.
pub open spec fn dashes_at(s: Seq<char>, k: int) -> bool {
    0 <= k && k + 3 <= s.len() && s[k] == '-' && s[k + 1] == '-' && s[k + 2] == '-'
}

/// The first position from `k` on where `---` stands in `s`.
pub open spec fn first_dashes_from(s: Seq<char>, k: int) -> Option<int>
    decreases s.len() - k,
{
    if k < 0 || k + 3 > s.len() {
        None
    } else if dashes_at(s, k) {
        Some(k)
    } else {
        first_dashes_from(s, k + 1)
    }
}

/// The front matter and the body of a content file: after leading whitespace, the file
/// opens with `---`; the front matter runs to the next `---`, the body follows it.
pub open spec fn front_matter_parts(content: Seq<char>) -> Option<(Seq<char>, Seq<char>)> {
    let w = leading_whitespace(content) as int;
    if dashes_at(content, w) {
        match first_dashes_from(content, w + 3) {
            Some(k) => Some((content.subrange(w + 3, k), content.subrange(k + 3, content.len() as int))),
            None => None,
        }
    } else {
        None
    }
}

/// Splits a content file into its front matter and its body; `None` where the file does
/// not open with a `---` fence closed by a second one.
pub fn split_front_matter(content: &str) -> (r: Option<(&str, &str)>)
    ensures
        match r {
            Some((meta, body)) => front_matter_parts(content@) == Some((meta@, body@)),
            None => front_matter_parts(content@) is None,
        },
{
    let n = content.unicode_len();
    let mut w: usize = 0;
    assert(content@.skip(0) =~= content@);
    while w < n && is_whitespace(content.get_char(w))
        invariant
            n == content@.len(),
            w <= n,
            leading_whitespace(content@) == w + leading_whitespace(content@.skip(w as int)),
        decreases n - w,
    {
        assert(content@.skip(w as int)[0] == content@[w as int]);
        assert(content@.skip(w as int).drop_first() =~= content@.skip(w + 1));
        w = w + 1;
    }
    if w < n {
        assert(content@.skip(w as int)[0] == content@[w as int]);
    }
    assert(leading_whitespace(content@.skip(w as int)) == 0);
    if !(n >= 3 && w <= n - 3 && content.get_char(w) == '-' && content.get_char(w + 1) == '-' && content.get_char(w + 2) == '-') {
        return None;
    }
    let mut k: usize = w + 3;
    while k <= n - 3 && !(content.get_char(k) == '-' && content.get_char(k + 1) == '-' && content.get_char(k + 2) == '-')
        invariant
            n == content@.len(),
            w + 3 <= k,
            k <= n,
            n >= 3,
            first_dashes_from(content@, w + 3) == first_dashes_from(content@, k as int),
        decreases n - k,
    {
        k = k + 1;
    }
    if k > n - 3 {
        return None;
    }
    Some((content.substring_char(w + 3, k), content.substring_char(k + 3, n)))
}

} // verus!
