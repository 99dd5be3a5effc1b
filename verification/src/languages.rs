//! The languages the API supports, as a closed enumeration: an invalid
//! language tag is not representable.

use vstd::prelude::*;

verus! {

/// Languages supported by the API.
#[non_exhaustive]
#[derive(Clone, Copy, Debug, PartialEq, Eq, Structural)]
pub enum Language {
    English,
    German,
    Spanish,
    Russian,
    French,
    Italian,
    Polish,
    Chinese,
}

impl Language {
    /// The canonical API language tag of this language.
    pub open spec fn tag_spec(self) -> Seq<char> {
        match self {
            Language::English => "en-US"@,
            Language::German => "de-DE"@,
            Language::Spanish => "es-ES"@,
            Language::Russian => "ru-RU"@,
            Language::French => "fr-FR"@,
            Language::Italian => "it-IT"@,
            Language::Polish => "pl-PL"@,
            Language::Chinese => "zh-Hans"@,
        }
    }

    /// The language tag to send in the `Accept-Language` header: total and
    /// pure, one tag per language.
    pub fn to_str(&self) -> (r: &'static str)
        ensures
            r@ == self.tag_spec(),
    {
        match self {
            Language::English => "en-US",
            Language::German => "de-DE",
            Language::Spanish => "es-ES",
            Language::Russian => "ru-RU",
            Language::French => "fr-FR",
            Language::Italian => "it-IT",
            Language::Polish => "pl-PL",
            Language::Chinese => "zh-Hans",
        }
    }
}

} // verus!
