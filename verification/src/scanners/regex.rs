//! Rules that block messages matching a regular expression.

use vstd::prelude::*;
use crate::mongo::document::Document;
use crate::scanners::general::ScannerBackend;

verus! {

/// Declares `regex::Regex` to Verus as an opaque type: nothing is claimed of
/// what a value of it holds.
#[verifier::external_type_specification]
#[verifier::external_body]
pub struct ExRegex(::regex::Regex);

/// Whether `regex::RegexBuilder::build` accepts `pattern` with these flags
/// (it refuses invalid syntax and patterns over the default size limits).
pub uninterp spec fn regex_builds(pattern: Seq<char>, multi_line: bool, case_insensitive: bool) -> bool;

/// Whether the regular expression built from `pattern` with these flags
/// matches somewhere in `text` (`regex::Regex::is_match`).
pub uninterp spec fn regex_is_match(
    pattern: Seq<char>,
    multi_line: bool,
    case_insensitive: bool,
    text: Seq<char>,
) -> bool;

/// A compiled regular expression together with the pattern and flags it was
/// built from.
pub struct CompiledRegex {
    regex: ::regex::Regex,
    source: String,
    multi_line: bool,
    case_insensitive: bool,
}

impl CompiledRegex {
    pub closed spec fn source(&self) -> Seq<char> {
        self.source@
    }

    pub closed spec fn multi_line(&self) -> bool {
        self.multi_line
    }

    pub closed spec fn case_insensitive(&self) -> bool {
        self.case_insensitive
    }
}

/// Calls `regex::RegexBuilder::new(pattern)` with `multi_line` and
/// `case_insensitive` set, then `build`. Claims that it succeeds exactly when
/// `regex_builds` holds of the pattern and flags, and that what it returns
/// remembers them.
#[verifier::external_body]
fn build_regex(pattern: &str, multi_line: bool, case_insensitive: bool) -> (res: Option<CompiledRegex>)
    ensures
        res is Some <==> regex_builds(pattern@, multi_line, case_insensitive),
        res matches Some(r) ==> r.source() == pattern@ && r.multi_line() == multi_line
            && r.case_insensitive() == case_insensitive,
{
    let mut builder = ::regex::RegexBuilder::new(pattern);
    builder.multi_line(multi_line);
    builder.case_insensitive(case_insensitive);
    match builder.build() {
        Ok(regex) => Some(CompiledRegex { regex, source: pattern.to_string(), multi_line, case_insensitive }),
        Err(_) => None,
    }
}

/// Calls `regex::Regex::is_match`. Claims that the answer is
/// `regex_is_match` of the pattern and flags the expression was built from.
#[verifier::external_body]
fn regex_find(regex: &CompiledRegex, text: &str) -> (res: bool)
    ensures
        res == regex_is_match(regex.source(), regex.multi_line(), regex.case_insensitive(), text@),
{
    regex.regex.is_match(text)
}

/// A regular-expression rule.
#[derive(Debug, Clone, PartialEq, Eq)]
pub struct Pattern {
    pub regex: String,
    pub multiline: bool,
    pub case_insensitive: bool,
}

impl Pattern {
    /// The pattern compiles with its flags.
    pub open spec fn compiles(&self) -> bool {
        regex_builds(self.regex@, self.multiline, self.case_insensitive)
    }

    /// The rule matches `text`.
    pub open spec fn matches(&self, text: Seq<char>) -> bool {
        regex_is_match(self.regex@, self.multiline, self.case_insensitive, text)
    }

    pub fn new(regex: &str, multiline: bool, case_insensitive: bool) -> (res: Pattern)
        ensures
            res.regex@ == regex@,
            res.multiline == multiline,
            res.case_insensitive == case_insensitive,
    {
        Pattern { regex: regex.to_string(), multiline: multiline, case_insensitive: case_insensitive }
    }

    fn compile(&self) -> (res: CompiledRegex)
        requires
            self.compiles(),
        ensures
            res.source() == self.regex@,
            res.multi_line() == self.multiline,
            res.case_insensitive() == self.case_insensitive,
    {
        build_regex(self.regex.as_str(), self.multiline, self.case_insensitive).unwrap()
    }

    /// Whether the pattern compiles with its flags.
    pub fn is_valid(&self) -> (res: bool)
        ensures
            res == self.compiles(),
            res == regex_builds(self.regex@, self.multiline, self.case_insensitive),
    {
        build_regex(self.regex.as_str(), self.multiline, self.case_insensitive).is_some()
    }

    /// Whether the rule matches somewhere in `text`.
    pub fn is_match(&self, text: &str) -> (res: bool)
        requires
            self.compiles(),
        ensures
            res == self.matches(text@),
            res == regex_is_match(self.regex@, self.multiline, self.case_insensitive, text@),
    {
        regex_find(&self.compile(), text)
    }

    /// Whether the rule matches somewhere in `text`, or `None` where the
    /// pattern does not compile.
    pub fn try_is_match(&self, text: &str) -> (res: Option<bool>)
        ensures
            res == (if self.compiles() {
                Some(self.matches(text@))
            } else {
                None
            }),
            res == (if regex_builds(self.regex@, self.multiline, self.case_insensitive) {
                Some(regex_is_match(self.regex@, self.multiline, self.case_insensitive, text@))
            } else {
                None
            }),
    {
        if self.is_valid() {
            Some(self.is_match(text))
        } else {
            None
        }
    }

    pub fn change_settings(&mut self, multiline: bool, case_insensitive: bool)
        ensures
            final(self).regex == old(self).regex,
            final(self).multiline == multiline,
            final(self).case_insensitive == case_insensitive,
    {
        self.multiline = multiline;
        self.case_insensitive = case_insensitive;
    }
}

/// What a pattern rule blocks: the regular expression built from its text
/// with multi-line mode set to its `multiline` flag and case-insensitivity set
/// to its `case_insensitive` flag matches somewhere in the text; and the rule
/// can look at a text exactly when that expression builds.
pub proof fn lemma_pattern_rule_matches(p: Pattern, text: Seq<char>)
    ensures
        p.matches(text) == regex_is_match(p.regex@, p.multiline, p.case_insensitive, text),
        p.compiles() == regex_builds(p.regex@, p.multiline, p.case_insensitive),
{
}

/// `d` holds the fields of a pattern rule.
pub open spec fn pattern_readable(d: Document) -> bool {
    &&& d.str_field("regex"@) is Some
    &&& d.bool_field("multiline"@) is Some
    &&& d.bool_field("case_insensitive"@) is Some
}

/// `p` is the pattern rule that `d` holds.
pub open spec fn reads_pattern(d: Document, p: Pattern) -> bool {
    &&& d.str_field("regex"@) == Some(p.regex@)
    &&& d.bool_field("multiline"@) == Some(p.multiline)
    &&& d.bool_field("case_insensitive"@) == Some(p.case_insensitive)
}

impl Pattern {
    /// Reads a stored pattern rule.
    pub fn from_document(doc: &Document) -> (res: Pattern)
        requires
            pattern_readable(*doc),
        ensures
            reads_pattern(*doc, res),
            doc.str_field("regex"@) == Some(res.regex@),
            doc.bool_field("multiline"@) == Some(res.multiline),
            doc.bool_field("case_insensitive"@) == Some(res.case_insensitive),
    {
        Pattern {
            regex: doc.get_str("regex").unwrap().to_string(),
            multiline: doc.get_bool("multiline").unwrap(),
            case_insensitive: doc.get_bool("case_insensitive").unwrap(),
        }
    }
}

/// Whether `Pattern::from_document` can read `doc`.
pub fn pattern_document_readable(doc: &Document) -> (res: bool)
    ensures
        res == pattern_readable(*doc),
{
    doc.get_str("regex").is_some() && doc.get_bool("multiline").is_some() && doc.get_bool(
        "case_insensitive",
    ).is_some()
}

impl ScannerBackend for Pattern {
    open spec fn can_scan(&self, text: Seq<char>) -> bool {
        self.compiles()
    }

    open spec fn scans(&self, text: Seq<char>) -> bool {
        self.matches(text)
    }

    fn scan(&self, text: &str) -> (res: bool) {
        self.is_match(text)
    }
}

} // verus!
