//! The language of user-visible messages.
use vstd::prelude::*;

verus! {

/// A language of the user interface.
#[derive(Debug, Clone, Copy, PartialEq, Eq, Structural)]
pub enum Lang {
    /// Simplified Chinese.
    Zh,
    /// English.
    En,
}

impl Lang {
    /// The one of two texts that is in this language.
    pub open spec fn pick(self, zh: Seq<char>, en: Seq<char>) -> Seq<char> {
        match self {
            Lang::Zh => zh,
            Lang::En => en,
        }
    }

    /// The one of two texts that is in this language.
    pub fn t(self, zh: &'static str, en: &'static str) -> (out: &'static str)
        ensures
            out@ == self.pick(zh@, en@),
    {
        match self {
            Lang::Zh => zh,
            Lang::En => en,
        }
    }
}

/// Of two texts the Chinese one is shown to those who read Chinese, the English one to others.
pub proof fn law_text_is_in_the_language(zh: Seq<char>, en: Seq<char>)
    ensures
        Lang::Zh.pick(zh, en) == zh,
        Lang::En.pick(zh, en) == en,
{
}

} // verus!
