//! Languages known to the system and the manager that finds the
//! current one.
//!
//! Enumerating the installed locales is I/O and stays with the caller;
//! matching a locale code against the list — by the part before the
//! first dot, so `en_US.utf8` finds `en_US.UTF-8`-style entries — is
//! verified here.

use vstd::prelude::*;

use crate::text::chars_eq;
use crate::text::dot_prefix;
use crate::text::dot_prefix_of;

verus! {

/// The mathematical shape of a [`Language`].
pub struct LanguageView {
    pub code: Seq<char>,
    pub name: Seq<char>,
    pub territory: Seq<char>,
}

/// One installed language: its locale code, its display name and the
/// territory it belongs to.
pub struct Language {
    code: String,
    name: String,
    territory: String,
}

impl View for Language {
    type V = LanguageView;

    closed spec fn view(&self) -> LanguageView {
        LanguageView { code: self.code@, name: self.name@, territory: self.territory@ }
    }
}

impl DeepView for Language {
    type V = LanguageView;

    open spec fn deep_view(&self) -> LanguageView {
        self.view()
    }
}

impl Language {
    /// A language from its locale data.
    pub fn new(code: String, name: String, territory: String) -> (r: Language)
        ensures
            r@ == (LanguageView { code: code@, name: name@, territory: territory@ }),
    {
        Language { code, name, territory }
    }

    /// The locale code, such as `en_US.utf8`.
    pub fn code(&self) -> (r: &str)
        ensures
            r@ == self@.code,
    {
        self.code.as_str()
    }

    /// The language's display name.
    pub fn name(&self) -> (r: &str)
        ensures
            r@ == self@.name,
    {
        self.name.as_str()
    }

    /// The territory's display name, possibly empty.
    pub fn territory(&self) -> (r: &str)
        ensures
            r@ == self@.territory,
    {
        self.territory.as_str()
    }
}

/// Whether two locale codes name the same language: they agree before
/// the first dot, whatever encoding suffix each carries.
pub open spec fn same_language(a: Seq<char>, b: Seq<char>) -> bool {
    dot_prefix(a) == dot_prefix(b)
}

/// The languages the system offers.
pub struct LanguageManager {
    languages: Vec<Language>,
}

impl View for LanguageManager {
    type V = Seq<LanguageView>;

    closed spec fn view(&self) -> Seq<LanguageView> {
        self.languages.deep_view()
    }
}

impl LanguageManager {
    /// A manager over the enumerated languages.
    pub fn new(languages: Vec<Language>) -> (r: LanguageManager)
        ensures
            r@ == languages.deep_view(),
    {
        LanguageManager { languages }
    }

    /// All languages, in the order given at construction.
    pub fn languages(&self) -> (r: &Vec<Language>)
        ensures
            r.deep_view() == self@,
    {
        &self.languages
    }

    /// The first language whose code names the same language as the
    /// given locale code (the caller passes the environment's locale).
    pub fn current(&self, lang: &str) -> (r: Option<&Language>)
        ensures
            (match r {
                Some(l) => exists|i: int|
                    0 <= i < self@.len() && same_language(self@[i].code, lang@) && l@ == self@[i],
                None => forall|i: int| 0 <= i < self@.len() ==> !same_language(self@[i].code, lang@),
            }),
    {
        let want = dot_prefix_of(lang);
        let mut i: usize = 0;
        while i < self.languages.len()
            invariant
                i <= self.languages@.len(),
                self@.len() == self.languages@.len(),
                want@ == dot_prefix(lang@),
                forall|j: int| 0 <= j < i ==> !same_language(self@[j].code, lang@),
            decreases self.languages@.len() - i,
        {
            proof {
                assert(self@[i as int] == self.languages@[i as int]@);
            }
            let have = dot_prefix_of(self.languages[i].code());
            if chars_eq(&have, &want) {
                return Some(&self.languages[i]);
            }
            i = i + 1;
        }
        None
    }
}

} // verus!
