//! The translation command-line client: its languages and the request it
//! sends.

use vstd::prelude::*;

use crate::text::{owned, push_str, str_eq};

verus! {

/// A language the translation endpoint accepts.
#[derive(Debug, Clone, Copy, PartialEq, Eq, Structural)]
pub enum Language {
    English,
    Japanese,
    Chinese,
    Korean,
}

/// The wire code of a language.
pub open spec fn language_code(l: Language) -> Seq<char> {
    match l {
        Language::English => "en"@,
        Language::Japanese => "ja"@,
        Language::Chinese => "zh"@,
        Language::Korean => "ko"@,
    }
}

impl Language {
    /// The wire code of the language.
    pub fn to_string(&self) -> (s: String)
        ensures
            s@ == language_code(*self),
    {
        match self {
            Language::English => owned("en"),
            Language::Chinese => owned("zh"),
            Language::Japanese => owned("ja"),
            Language::Korean => owned("ko"),
        }
    }
}

/// Parses a wire code; any other text is refused with `Unknown language`.
pub fn parse_language(s: &str) -> (r: Result<Language, String>)
    ensures
        match r {
            Ok(l) => language_code(l) == s@,
            Err(e) => e@ == "Unknown language"@ && s@ != "en"@ && s@ != "zh"@ && s@ != "ja"@ && s@ != "ko"@,
        },
{
    if str_eq(s, "en") {
        Ok(Language::English)
    } else if str_eq(s, "zh") {
        Ok(Language::Chinese)
    } else if str_eq(s, "ja") {
        Ok(Language::Japanese)
    } else if str_eq(s, "ko") {
        Ok(Language::Korean)
    } else {
        Err(owned("Unknown language"))
    }
}

/// A request to translate `text`.
pub struct TranslationRequest {
    pub text: String,
    pub source_lang: Language,
    pub target_lang: Language,
}

impl TranslationRequest {
    /// A one-line description: the text, then the two language codes.
    pub fn describe(&self) -> (s: String)
        ensures
            s@ == "text: "@ + self.text@ + ", source: "@ + language_code(self.source_lang) + ", target: "@
                + language_code(self.target_lang),
    {
        let mut s = owned("text: ");
        push_str(&mut s, self.text.as_str());
        push_str(&mut s, ", source: ");
        push_str(&mut s, self.source_lang.to_string().as_str());
        push_str(&mut s, ", target: ");
        push_str(&mut s, self.target_lang.to_string().as_str());
        s
    }
}

} // verus!
