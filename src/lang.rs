use vstd::prelude::*;

verus! {

/// The languages in which content is published.
#[derive(Debug, Clone, Copy, PartialEq, Eq, Hash, Structural)]
pub enum Language {
    English,
    German,
}

/// The language whose two-letter code is `code`, if any.
pub open spec fn language_of_code(code: Seq<char>) -> Option<Language> {
    if code == seq!['e', 'n'] {
        Some(Language::English)
    } else if code == seq!['d', 'e'] {
        Some(Language::German)
    } else {
        None
    }
}

/// The two-letter code of a language.
pub open spec fn code_of_language(lang: Language) -> Seq<char> {
    match lang {
        Language::English => seq!['e', 'n'],
        Language::German => seq!['d', 'e'],
    }
}

impl Language {
    /// Reads a two-letter language code ("en" or "de").
    pub fn from_code(code: &str) -> (r: Option<Language>)
        ensures
            r == language_of_code(code@),
    {
        if code.unicode_len() != 2 {
            return None;
        }
        let a = code.get_char(0);
        let b = code.get_char(1);
        if a == 'e' && b == 'n' {
            assert(code@ =~= seq!['e', 'n']);
            Some(Language::English)
        } else if a == 'd' && b == 'e' {
            assert(code@ =~= seq!['d', 'e']);
            Some(Language::German)
        } else {
            None
        }
    }

    /// The two-letter code of this language.
    pub fn code(&self) -> (r: &'static str)
        ensures
            r@ == code_of_language(*self),
    {
        match self {
            Language::English => {
                let r = "en";
                proof {
                    reveal_strlit("en");
                }
                r
            },
            Language::German => {
                let r = "de";
                proof {
                    reveal_strlit("de");
                }
                r
            },
        }
    }
}

} // verus!
