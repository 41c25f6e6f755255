//! Rules that block messages containing a word.

use vstd::prelude::*;
use crate::mongo::document::Document;
use crate::scanners::general::{cured, can_convert_to_ascii, convert_all_unicode_to_ascii, ScannerBackend};
use crate::utils::text::{contains_seq, lowercased, str_contains, to_lowercase};

verus! {

/// A word rule: blocks every message that contains `word`.
#[derive(Debug, Clone, PartialEq, Eq)]
pub struct Word {
    pub word: String,
    pub case_insensitive: bool,
    pub remove_unicode: bool,
}

impl Word {
    /// `s` after the Unicode clean-up, where the rule asks for it.
    pub open spec fn cleaned(&self, s: Seq<char>) -> Seq<char> {
        if self.remove_unicode {
            cured(s).unwrap()
        } else {
            s
        }
    }

    /// The clean-up, where the rule asks for it, succeeds on `text` and on the word.
    pub open spec fn can_match(&self, text: Seq<char>) -> bool {
        self.remove_unicode ==> cured(text) is Some && cured(self.word@) is Some
    }

    /// The cleaned text contains the cleaned word, both lowercased where the
    /// rule ignores case.
    pub open spec fn matches(&self, text: Seq<char>) -> bool {
        let t = self.cleaned(text);
        let w = self.cleaned(self.word@);
        if self.case_insensitive {
            contains_seq(lowercased(t), lowercased(w))
        } else {
            contains_seq(t, w)
        }
    }

    pub fn new(word: &str, case_insensitive: bool, remove_unicode: bool) -> (res: Word)
        ensures
            res.word@ == word@,
            res.case_insensitive == case_insensitive,
            res.remove_unicode == remove_unicode,
    {
        Word { word: word.to_string(), case_insensitive: case_insensitive, remove_unicode: remove_unicode }
    }

    /// Whether the rule blocks `text`.
    pub fn is_match(&self, text: &str) -> (res: bool)
        requires
            self.can_match(text@),
        ensures
            res == self.matches(text@),
            self.case_insensitive ==> res == contains_seq(
                lowercased(if self.remove_unicode { cured(text@)->0 } else { text@ }),
                lowercased(if self.remove_unicode { cured(self.word@)->0 } else { self.word@ }),
            ),
            !self.case_insensitive ==> res == contains_seq(
                if self.remove_unicode { cured(text@)->0 } else { text@ },
                if self.remove_unicode { cured(self.word@)->0 } else { self.word@ },
            ),
    {
        let text = if self.remove_unicode {
            convert_all_unicode_to_ascii(text)
        } else {
            text.to_string()
        };
        let word = if self.remove_unicode {
            convert_all_unicode_to_ascii(self.word.as_str())
        } else {
            self.word.clone()
        };
        if self.case_insensitive {
            let t = to_lowercase(text.as_str());
            let w = to_lowercase(word.as_str());
            str_contains(t.as_str(), w.as_str())
        } else {
            str_contains(text.as_str(), word.as_str())
        }
    }

    /// Whether the rule blocks `text`, or `None` where the Unicode clean-up
    /// fails on the text or on the word.
    pub fn try_is_match(&self, text: &str) -> (res: Option<bool>)
        ensures
            res == (if self.can_match(text@) {
                Some(self.matches(text@))
            } else {
                None
            }),
            res is None <==> (self.remove_unicode && !(cured(text@) is Some && cured(self.word@) is Some)),
            res is Some && self.case_insensitive ==> res->0 == contains_seq(
                lowercased(if self.remove_unicode { cured(text@)->0 } else { text@ }),
                lowercased(if self.remove_unicode { cured(self.word@)->0 } else { self.word@ }),
            ),
            res is Some && !self.case_insensitive ==> res->0 == contains_seq(
                if self.remove_unicode { cured(text@)->0 } else { text@ },
                if self.remove_unicode { cured(self.word@)->0 } else { self.word@ },
            ),
    {
        if self.remove_unicode && !(can_convert_to_ascii(text) && can_convert_to_ascii(self.word.as_str())) {
            None
        } else {
            Some(self.is_match(text))
        }
    }

    pub fn change_settings(&mut self, case_insensitive: bool, remove_unicode: bool)
        ensures
            final(self).word == old(self).word,
            final(self).case_insensitive == case_insensitive,
            final(self).remove_unicode == remove_unicode,
    {
        self.case_insensitive = case_insensitive;
        self.remove_unicode = remove_unicode;
    }
}

/// What a word rule blocks: the text contains the word, both first cleaned of
/// look-alike characters where the rule asks for it, then both lowercased
/// where the rule ignores case, whichever the other flag is.
pub proof fn lemma_word_rule_matches(w: Word, text: Seq<char>)
    ensures
        w.case_insensitive ==> (w.matches(text) <==> contains_seq(
            lowercased(if w.remove_unicode { cured(text)->0 } else { text }),
            lowercased(if w.remove_unicode { cured(w.word@)->0 } else { w.word@ }),
        )),
        !w.case_insensitive ==> (w.matches(text) <==> contains_seq(
            if w.remove_unicode { cured(text)->0 } else { text },
            if w.remove_unicode { cured(w.word@)->0 } else { w.word@ },
        )),
        w.remove_unicode ==> (w.can_match(text) <==> cured(text) is Some && cured(w.word@) is Some),
        !w.remove_unicode ==> w.can_match(text),
{
}

/// `d` holds the fields of a word rule.
pub open spec fn word_readable(d: Document) -> bool {
    &&& d.str_field("word"@) is Some
    &&& d.bool_field("remove_unicode"@) is Some
    &&& d.bool_field("case_insensitive"@) is Some
}

/// `w` is the word rule that `d` holds.
pub open spec fn reads_word(d: Document, w: Word) -> bool {
    &&& d.str_field("word"@) == Some(w.word@)
    &&& d.bool_field("remove_unicode"@) == Some(w.remove_unicode)
    &&& d.bool_field("case_insensitive"@) == Some(w.case_insensitive)
}

impl Word {
    /// Reads a stored word rule.
    pub fn from_document(doc: &Document) -> (res: Word)
        requires
            word_readable(*doc),
        ensures
            reads_word(*doc, res),
            doc.str_field("word"@) == Some(res.word@),
            doc.bool_field("remove_unicode"@) == Some(res.remove_unicode),
            doc.bool_field("case_insensitive"@) == Some(res.case_insensitive),
    {
        Word {
            word: doc.get_str("word").unwrap().to_string(),
            remove_unicode: doc.get_bool("remove_unicode").unwrap(),
            case_insensitive: doc.get_bool("case_insensitive").unwrap(),
        }
    }
}

/// Whether `Word::from_document` can read `doc`.
pub fn word_document_readable(doc: &Document) -> (res: bool)
    ensures
        res == word_readable(*doc),
{
    doc.get_str("word").is_some() && doc.get_bool("remove_unicode").is_some() && doc.get_bool(
        "case_insensitive",
    ).is_some()
}

impl ScannerBackend for Word {
    open spec fn can_scan(&self, text: Seq<char>) -> bool {
        self.can_match(text)
    }

    open spec fn scans(&self, text: Seq<char>) -> bool {
        self.matches(text)
    }

    fn scan(&self, text: &str) -> (res: bool) {
        self.is_match(text)
    }
}

} // verus!
