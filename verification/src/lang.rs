use vstd::prelude::*;

use crate::config::{elevenlabs_default_voices, elevenlabs_voices_for};
use crate::text::str_eq;

verus! {

/// A language the broadcast pipeline can transcribe, translate or voice.
#[derive(Debug, Clone, Copy, PartialEq, Eq, Structural, Hash)]
pub enum Lang {
    En,
    Ja,
    Zh,
    Ko,
    Ru,
}

/// The two-letter code of a language, as it travels on the wire.
pub open spec fn lang_code(lang: Lang) -> Seq<char> {
    match lang {
        Lang::En => "en"@,
        Lang::Ja => "ja"@,
        Lang::Zh => "zh"@,
        Lang::Ko => "ko"@,
        Lang::Ru => "ru"@,
    }
}

/// The language whose code is `code`, if any.
pub open spec fn lang_of_code(code: Seq<char>) -> Option<Lang> {
    if code == "en"@ {
        Some(Lang::En)
    } else if code == "ja"@ {
        Some(Lang::Ja)
    } else if code == "zh"@ {
        Some(Lang::Zh)
    } else if code == "ko"@ {
        Some(Lang::Ko)
    } else if code == "ru"@ {
        Some(Lang::Ru)
    } else {
        None
    }
}

impl Lang {
    /// Parses a two-letter language code.
    pub fn from_str(s: &str) -> (res: Option<Lang>)
        ensures
            res == lang_of_code(s@),
    {
        if str_eq(s, "en") {
            Some(Lang::En)
        } else if str_eq(s, "ja") {
            Some(Lang::Ja)
        } else if str_eq(s, "zh") {
            Some(Lang::Zh)
        } else if str_eq(s, "ko") {
            Some(Lang::Ko)
        } else if str_eq(s, "ru") {
            Some(Lang::Ru)
        } else {
            None
        }
    }

    /// The two-letter code of the language, borrowed.
    pub fn code(&self) -> (s: &'static str)
        ensures
            s@ == lang_code(*self),
    {
        match self {
            Lang::En => "en",
            Lang::Ja => "ja",
            Lang::Zh => "zh",
            Lang::Ko => "ko",
            Lang::Ru => "ru",
        }
    }

    /// The female ElevenLabs library voice for the language.
    pub fn voice_id_female(&self) -> (v: &'static str)
        ensures
            v@ == elevenlabs_voices_for(lang_code(*self)).0,
    {
        elevenlabs_default_voices(self.code()).0
    }

    /// The male ElevenLabs library voice for the language.
    pub fn voice_id_male(&self) -> (v: &'static str)
        ensures
            v@ == elevenlabs_voices_for(lang_code(*self)).1,
    {
        elevenlabs_default_voices(self.code()).1
    }

    /// The two-letter code of the language.
    pub fn to_string(&self) -> (s: String)
        ensures
            s@ == lang_code(*self),
    {
        match self {
            Lang::En => String::from_str("en"),
            Lang::Ja => String::from_str("ja"),
            Lang::Zh => String::from_str("zh"),
            Lang::Ko => String::from_str("ko"),
            Lang::Ru => String::from_str("ru"),
        }
    }
}

/// Every language's code parses back to that language.
pub proof fn lemma_code_roundtrip(lang: Lang)
    ensures
        lang_of_code(lang_code(lang)) == Some(lang),
{
    reveal_strlit("en");
    reveal_strlit("ja");
    reveal_strlit("zh");
    reveal_strlit("ko");
    reveal_strlit("ru");
    assert("en"@[0] != "ja"@[0]);
    assert("en"@[0] != "zh"@[0]);
    assert("en"@[0] != "ko"@[0]);
    assert("en"@[0] != "ru"@[0]);
    assert("ja"@[0] != "zh"@[0]);
    assert("ja"@[0] != "ko"@[0]);
    assert("ja"@[0] != "ru"@[0]);
    assert("zh"@[0] != "ko"@[0]);
    assert("zh"@[0] != "ru"@[0]);
    assert("ko"@[0] != "ru"@[0]);
}

} // verus!
