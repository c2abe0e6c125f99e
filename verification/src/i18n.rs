//! Translations of message keys, by language.

use vstd::prelude::*;
use vstd::string::*;
use crate::text::same_text;

verus! {

/// The messages of one language: pairs of message key and text.
#[derive(Debug, Clone)]
pub struct Language {
    pub code: String,
    pub messages: Vec<(String, String)>,
}

/// Manages the translations of a project.
#[derive(Debug, Clone)]
pub struct I18nManager {
    translations: Vec<Language>,
}

/// Whether `i` is the first language of the list with the code `lang`.
pub open spec fn first_language_at(langs: Seq<Language>, lang: Seq<char>, i: int) -> bool {
    &&& 0 <= i < langs.len()
    &&& langs[i].code@ == lang
    &&& forall|k: int| 0 <= k < i ==> langs[k].code@ != lang
}

/// Whether `j` is the first message of the list with the key `key`.
pub open spec fn first_message_at(messages: Seq<(String, String)>, key: Seq<char>, j: int) -> bool {
    &&& 0 <= j < messages.len()
    &&& messages[j].0@ == key
    &&& forall|k: int| 0 <= k < j ==> messages[k].0@ != key
}

/// Whether `text` is the translation of `key` in `lang`: the text of the
/// first message with that key in the first language with that code.
pub open spec fn translates(langs: Seq<Language>, lang: Seq<char>, key: Seq<char>, text: Seq<char>)
    -> bool {
    exists|i: int, j: int|
        first_language_at(langs, lang, i) && first_message_at(langs[i].messages@, key, j)
            && langs[i].messages@[j].1@ == text
}

/// Whether `key` has a translation in `lang`.
pub open spec fn has_translation(langs: Seq<Language>, lang: Seq<char>, key: Seq<char>) -> bool {
    exists|i: int, j: int|
        first_language_at(langs, lang, i) && first_message_at(langs[i].messages@, key, j)
}

impl I18nManager {
    /// The languages, in the order in which they were added.
    pub closed spec fn languages(&self) -> Seq<Language> {
        self.translations@
    }

    /// A manager without any translation.
    pub fn new() -> (r: Self)
        ensures
            r.languages().len() == 0,
    {
        I18nManager { translations: Vec::new() }
    }

    /// The translations found in a directory. No translation file format is
    /// defined, so the result holds no translation, whether the directory
    /// exists or not.
    pub fn load_translations(directory_exists: bool) -> (r: Self)
        ensures
            r.languages().len() == 0,
    {
        I18nManager::new()
    }

    /// Adds a language with its messages.
    pub fn add_language(&mut self, language: Language)
        ensures
            final(self).languages() == old(self).languages().push(language),
    {
        self.translations.push(language);
    }

    /// The number of languages.
    pub fn language_count(&self) -> (r: usize)
        ensures
            r == self.languages().len(),
    {
        self.translations.len()
    }

    /// The translation of `key` in `lang`, if there is one.
    pub fn get_translation(&self, lang: &str, key: &str) -> (r: Option<&str>)
        ensures
            match r {
                Some(text) => translates(self.languages(), lang@, key@, text@),
                None => !has_translation(self.languages(), lang@, key@),
            },
    {
        let mut i: usize = 0;
        while i < self.translations.len()
            invariant
                i <= self.translations@.len(),
                forall|k: int| 0 <= k < i ==> self.translations@[k].code@ != lang@,
            decreases self.translations@.len() - i,
        {
            if same_text(self.translations[i].code.as_str(), lang) {
                let messages = &self.translations[i].messages;
                let mut j: usize = 0;
                while j < messages.len()
                    invariant
                        j <= messages@.len(),
                        i < self.translations@.len(),
                        messages@ == self.translations@[i as int].messages@,
                        first_language_at(self.languages(), lang@, i as int),
                        forall|k: int| 0 <= k < j ==> messages@[k].0@ != key@,
                    decreases messages@.len() - j,
                {
                    if same_text(messages[j].0.as_str(), key) {
                        assert(first_message_at(messages@, key@, j as int));
                        return Some(messages[j].1.as_str());
                    }
                    j += 1;
                }
                assert forall|a: int, b: int|
                    first_language_at(self.languages(), lang@, a) implies !first_message_at(
                    self.languages()[a].messages@,
                    key@,
                    b,
                ) by {
                    assert(a == i);
                }
                return None;
            }
            i += 1;
        }
        None
    }
}

impl Default for I18nManager {
    fn default() -> (r: Self)
        ensures
            r.languages().len() == 0,
    {
        I18nManager::new()
    }
}

} // verus!
