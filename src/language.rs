//! The two locales a raid post can come in, and the outcome of a name lookup.
use vstd::prelude::*;
use vstd::string::*;
use crate::text::{owned, str_eq};

verus! {

/// The locale of a raid post.
#[derive(Clone, Copy, Debug, PartialEq, Eq, Structural)]
pub enum Language {
    English,
    Japanese,
}

/// The long name of a language, as records carry it.
pub open spec fn language_name(l: Language) -> Seq<char> {
    match l {
        Language::English => "English"@,
        Language::Japanese => "Japanese"@,
    }
}

/// The short tag of a language, as keys carry it.
pub open spec fn language_short(l: Language) -> Seq<char> {
    match l {
        Language::English => "en"@,
        Language::Japanese => "jp"@,
    }
}

/// The language that a text names, by long name or short tag.
pub open spec fn parse_language(s: Seq<char>) -> Option<Language> {
    if s == "Japanese"@ || s == "jp"@ {
        Some(Language::Japanese)
    } else if s == "English"@ || s == "en"@ {
        Some(Language::English)
    } else {
        None
    }
}

pub open spec fn opposite_of(l: Language) -> Language {
    match l {
        Language::English => Language::Japanese,
        Language::Japanese => Language::English,
    }
}

/// The long and short names of the two languages are four distinct texts.
pub proof fn lemma_language_texts_distinct()
    ensures
        "English"@ != "Japanese"@,
        "English"@ != "jp"@,
        "Japanese"@ != "en"@,
        "en"@ != "jp"@,
{
    reveal_strlit("English");
    reveal_strlit("Japanese");
    reveal_strlit("en");
    reveal_strlit("jp");
    assert("English"@[0] != "Japanese"@[0]);
    assert("English"@.len() != "jp"@.len());
    assert("Japanese"@.len() != "en"@.len());
    assert("en"@[0] != "jp"@[0]);
}

/// Parsing the long name of a language gives that language back.
pub proof fn lemma_parse_name(l: Language)
    ensures
        parse_language(language_name(l)) == Some(l),
{
    lemma_language_texts_distinct();
}

impl Language {
    /// The other language.
    pub fn opposite(&self) -> (r: Language)
        ensures
            r == opposite_of(*self),
    {
        match self {
            Language::English => Language::Japanese,
            Language::Japanese => Language::English,
        }
    }

    /// The long name ("English" or "Japanese").
    pub fn name(&self) -> (r: String)
        ensures
            r@ == language_name(*self),
    {
        match self {
            Language::English => owned("English"),
            Language::Japanese => owned("Japanese"),
        }
    }

    /// The short tag ("en" or "jp").
    pub fn short(&self) -> (r: &'static str)
        ensures
            r@ == language_short(*self),
    {
        match self {
            Language::English => "en",
            Language::Japanese => "jp",
        }
    }

    /// Reads a language from its long name or its short tag.
    pub fn parse(s: &str) -> (r: Option<Language>)
        ensures
            r == parse_language(s@),
    {
        if str_eq(s, "Japanese") || str_eq(s, "jp") {
            Some(Language::Japanese)
        } else if str_eq(s, "English") || str_eq(s, "en") {
            Some(Language::English)
        } else {
            None
        }
    }
}

/// The outcome of looking up a boss name in the translator map.
#[derive(Debug, PartialEq, Eq)]
pub enum TranslatorResult {
    /// A translation has been scheduled and has not finished.
    Pending,
    /// The name in the other language.
    Success { result: String },
}

impl TranslatorResult {
    /// The translated name, or the empty text while pending.
    pub fn to_text(&self) -> (r: String)
        ensures
            r@ == match self {
                TranslatorResult::Pending => Seq::<char>::empty(),
                TranslatorResult::Success { result } => result@,
            },
    {
        match self {
            TranslatorResult::Pending => String::new(),
            TranslatorResult::Success { result } => result.clone(),
        }
    }
}

} // verus!
