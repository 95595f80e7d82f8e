use std::sync::Arc;
use vstd::prelude::*;
use crate::cache::share;
use crate::lang::{Language, language_of_code};
use crate::text::str_eq;

verus! {

/// A pre-rendered HTML snippet, in one language.
pub struct TextBlock {
    pub slug: String,
    pub lang: Language,
    pub body: String,
}

/// Why a text-block file name was refused. Names are `<slug>.<language>` (before the
/// extension).
#[derive(Debug, Clone, Copy, PartialEq, Eq, Structural)]
pub enum TextBlockError {
    /// The name holds no `.`.
    InvalidFormat,
    /// What follows the last `.` is no known language code.
    InvalidLanguage,
}

/// The position of the last `.` in `s`, if any.
pub open spec fn last_dot(s: Seq<char>) -> Option<int>
    decreases s.len(),
{
    if s.len() == 0 {
        None
    } else if s.last() == '.' {
        Some(s.len() - 1)
    } else {
        last_dot(s.drop_last())
    }
}

/// What a text-block file stem says: its language after the last `.`, its slug before.
pub open spec fn block_name_parts(stem: Seq<char>) -> Result<(Language, Seq<char>), TextBlockError> {
    match last_dot(stem) {
        None => Err(TextBlockError::InvalidFormat),
        Some(i) => match language_of_code(stem.subrange(i + 1, stem.len() as int)) {
            None => Err(TextBlockError::InvalidLanguage),
            Some(lang) => Ok((lang, stem.subrange(0, i))),
        },
    }
}

proof fn lemma_last_dot_at(s: Seq<char>, i: int)
    requires
        0 <= i < s.len(),
        s[i] == '.',
        forall|k: int| i < k < s.len() ==> s[k] != '.',
    ensures
        last_dot(s) == Some(i),
    decreases s.len(),
{
    if i < s.len() - 1 {
        lemma_last_dot_at(s.drop_last(), i);
    }
}

proof fn lemma_no_dot(s: Seq<char>)
    requires
        forall|k: int| 0 <= k < s.len() ==> s[k] != '.',
    ensures
        last_dot(s) is None,
    decreases s.len(),
{
    if s.len() > 0 {
        lemma_no_dot(s.drop_last());
    }
}

/// Reads the language and slug out of a text-block file stem such as `welcome.en`.
pub fn parse_file_name(stem: &str) -> (r: Result<(Language, &str), TextBlockError>)
    ensures
        match r {
            Ok((lang, slug)) => block_name_parts(stem@) == Ok::<(Language, Seq<char>), TextBlockError>((lang, slug@)),
            Err(e) => block_name_parts(stem@) == Err::<(Language, Seq<char>), TextBlockError>(e),
        },
{
    let n = stem.unicode_len();
    let mut i: usize = n;
    while i > 0
        invariant
            i <= n,
            n == stem@.len(),
            forall|k: int| i <= k < n ==> stem@[k] != '.',
        decreases i,
    {
        if stem.get_char(i - 1) == '.' {
            proof {
                lemma_last_dot_at(stem@, i - 1);
            }
            let lang = match Language::from_code(stem.substring_char(i, n)) {
                Some(l) => l,
                None => return Err(TextBlockError::InvalidLanguage),
            };
            return Ok((lang, stem.substring_char(0, i - 1)));
        }
        i = i - 1;
    }
    proof {
        lemma_no_dot(stem@);
    }
    Err(TextBlockError::InvalidFormat)
}

/// The loaded text blocks. They never change once loaded.
pub struct TextBlocks {
    blocks: Arc<Vec<Arc<TextBlock>>>,
}

pub open spec fn blocks_of(s: Seq<Arc<TextBlock>>) -> Seq<TextBlock> {
    s.map_values(|b: Arc<TextBlock>| *b)
}

impl TextBlocks {
    pub closed spec fn blocks_spec(&self) -> Seq<TextBlock> {
        blocks_of(self.blocks@)
    }

    /// Builds the blocks from `(file stem, rendered HTML)` pairs, in order; the first
    /// stem that is refused fails the whole load.
    pub fn from_files(files: Vec<(String, String)>) -> (r: Result<TextBlocks, TextBlockError>)
        ensures
            r is Ok <==> forall|k: int| 0 <= k < files@.len() ==> (#[trigger] block_name_parts(files@[k].0@)) is Ok,
            r is Err ==> exists|k: int|
                0 <= k < files@.len() && block_name_parts(files@[k].0@) == Err::<(Language, Seq<char>), TextBlockError>(r->Err_0)
                    && forall|j: int| 0 <= j < k ==> (#[trigger] block_name_parts(files@[j].0@)) is Ok,
            r is Ok ==> r->Ok_0.blocks_spec().len() == files@.len() && forall|k: int|
                0 <= k < files@.len() ==> {
                    &&& block_name_parts(files@[k].0@) == Ok::<(Language, Seq<char>), TextBlockError>(
                        ((#[trigger] r->Ok_0.blocks_spec()[k]).lang, r->Ok_0.blocks_spec()[k].slug@),
                    )
                    &&& r->Ok_0.blocks_spec()[k].body == files@[k].1
                },
    {
        let ghost all = files@;
        let mut rest = files;
        let mut blocks: Vec<Arc<TextBlock>> = Vec::new();
        let ghost mut i: int = 0;
        assert(all.skip(0) =~= all);
        while rest.len() > 0
            invariant
                0 <= i <= all.len(),
                rest@ == all.skip(i),
                all == files@,
                blocks@.len() == i,
                forall|k: int| 0 <= k < i ==> (#[trigger] block_name_parts(all[k].0@)) is Ok,
                forall|k: int|
                    0 <= k < i ==> {
                        &&& block_name_parts(all[k].0@) == Ok::<(Language, Seq<char>), TextBlockError>(
                            ((#[trigger] blocks_of(blocks@)[k]).lang, blocks_of(blocks@)[k].slug@),
                        )
                        &&& blocks_of(blocks@)[k].body == all[k].1
                    },
            decreases rest.len(),
        {
            let (stem, body) = rest.remove(0);
            assert(all.skip(i)[0] == (stem, body));
            assert(rest@ =~= all.skip(i + 1));
            let (lang, slug) = match parse_file_name(stem.as_str()) {
                Ok(parts) => parts,
                Err(e) => return Err(e),
            };
            let ghost before = blocks_of(blocks@);
            blocks.push(Arc::new(TextBlock { slug: slug.to_owned(), lang, body }));
            assert(blocks_of(blocks@) =~= before.push(blocks_of(blocks@)[i]));
            proof {
                i = i + 1;
            }
        }
        Ok(TextBlocks { blocks: Arc::new(blocks) })
    }

    /// The block of language `lang` and slug `slug`, if any (the first one loaded).
    pub fn find_text_block(&self, lang: Language, slug: &str) -> (r: Option<Arc<TextBlock>>)
        ensures
            r is None <==> forall|i: int|
                0 <= i < self.blocks_spec().len() ==> !((#[trigger] self.blocks_spec()[i]).lang == lang
                    && self.blocks_spec()[i].slug@ == slug@),
            r is Some ==> exists|i: int|
                0 <= i < self.blocks_spec().len() && *r->0 == #[trigger] self.blocks_spec()[i]
                    && self.blocks_spec()[i].lang == lang && self.blocks_spec()[i].slug@ == slug@
                    && forall|j: int|
                    0 <= j < i ==> !((#[trigger] self.blocks_spec()[j]).lang == lang
                        && self.blocks_spec()[j].slug@ == slug@),
    {
        let blocks = &*self.blocks;
        let mut i: usize = 0;
        while i < blocks.len()
            invariant
                i <= blocks@.len(),
                blocks_of(blocks@) == self.blocks_spec(),
                forall|k: int|
                    0 <= k < i ==> !((#[trigger] blocks_of(blocks@)[k]).lang == lang && blocks_of(blocks@)[k].slug@
                        == slug@),
            decreases blocks.len() - i,
        {
            if blocks[i].lang == lang && str_eq(blocks[i].slug.as_str(), slug) {
                assert(blocks_of(blocks@)[i as int] == *blocks@[i as int]);
                return Some(share(&blocks[i]));
            }
            i = i + 1;
        }
        None
    }
}

} // verus!
