//! Stored rules: a scanner, the server it belongs to and its punishment.

use vstd::prelude::*;
use crate::mongo::document::{
    bool_entry, document_entry, is_bool_field, is_str_field, lemma_lookup_at, lemma_lookup_insert_new,
    lemma_lookup_insert_other, str_entry, Bson, Document, Field,
};
use crate::scanners::general::ScannerBackend;
use crate::scanners::punishments::{
    lemma_punishment_document_roundtrip, punishment_document_readable, punishment_layout, punishment_readable, reads_punishment,
    same_punishment, NoPunishment, Punishment,
};
use crate::scanners::regex::{
    pattern_document_readable, pattern_readable, reads_pattern, regex_builds, regex_is_match, Pattern,
};
use crate::scanners::word::{reads_word, word_document_readable, word_readable, Word};
use crate::utils::text::str_eq;

verus! {

/// The kind of test a rule makes.
#[derive(Debug, Clone, PartialEq, Eq)]
pub enum ScannerType {
    Pattern(Pattern),
    Word(Word),
}

impl ScannerType {
    pub open spec fn can_match(&self, text: Seq<char>) -> bool {
        match self {
            ScannerType::Pattern(p) => p.compiles(),
            ScannerType::Word(w) => w.can_match(text),
        }
    }

    pub open spec fn matches(&self, text: Seq<char>) -> bool {
        match self {
            ScannerType::Pattern(p) => p.matches(text),
            ScannerType::Word(w) => w.matches(text),
        }
    }

    /// Whether the rule blocks `text`.
    pub fn is_match(&self, text: &str) -> (res: bool)
        requires
            self.can_match(text@),
        ensures
            res == self.matches(text@),
    {
        match self {
            ScannerType::Pattern(p) => p.is_match(text),
            ScannerType::Word(w) => w.is_match(text),
        }
    }

    /// Whether the rule blocks `text`, or `None` where it cannot look at it.
    pub fn try_is_match(&self, text: &str) -> (res: Option<bool>)
        ensures
            res == (if self.can_match(text@) {
                Some(self.matches(text@))
            } else {
                None
            }),
    {
        match self {
            ScannerType::Pattern(p) => p.try_is_match(text),
            ScannerType::Word(w) => w.try_is_match(text),
        }
    }
}

impl ScannerBackend for ScannerType {
    open spec fn can_scan(&self, text: Seq<char>) -> bool {
        self.can_match(text)
    }

    open spec fn scans(&self, text: Seq<char>) -> bool {
        self.matches(text)
    }

    fn scan(&self, text: &str) -> (res: bool) {
        self.is_match(text)
    }
}

/// A stored rule; `_id` holds the twelve bytes of its database id.
#[derive(Debug, Clone, PartialEq, Eq)]
pub struct Scanner {
    pub _id: [u8; 12],
    pub discord_id: String,
    pub scanner_backend: ScannerType,
    pub punishment: Punishment,
}

/// Every rule can look at `text`.
pub open spec fn all_can_match(scanners: Seq<Scanner>, text: Seq<char>) -> bool {
    forall|i: int| 0 <= i < scanners.len() ==> #[trigger] scanners[i].scanner_backend.can_match(text)
}

/// `res` lists, in increasing order, the positions of the rules that block `text`.
pub open spec fn lists_blocking(scanners: Seq<Scanner>, text: Seq<char>, res: Seq<usize>) -> bool {
    &&& forall|k: int| 0 <= k < res.len() ==> #[trigger] res[k] < scanners.len()
        && scanners[res[k] as int].scanner_backend.matches(text)
    &&& forall|k: int, l: int| 0 <= k < l < res.len() ==> #[trigger] res[k] < #[trigger] res[l]
    &&& forall|i: int|
        0 <= i < scanners.len() && #[trigger] scanners[i].scanner_backend.matches(text) ==> res.contains(
            i as usize,
        )
}

/// Whether every rule can look at `content`.
pub fn can_scan_all(scanners: &Vec<Scanner>, content: &str) -> (res: bool)
    ensures
        res == all_can_match(scanners@, content@),
{
    let mut i: usize = 0;
    while i < scanners.len()
        invariant
            i <= scanners@.len(),
            forall|j: int| 0 <= j < i ==> #[trigger] scanners@[j].scanner_backend.can_match(content@),
        decreases scanners.len() - i,
    {
        if scanners[i].scanner_backend.try_is_match(content).is_none() {
            return false;
        }
        i = i + 1;
    }
    true
}

/// The positions of the rules that block a message, in the order the rules
/// are stored; each of them deletes the message and warns its author.
pub fn blocking_scanners(scanners: &Vec<Scanner>, content: &str) -> (res: Vec<usize>)
    requires
        all_can_match(scanners@, content@),
    ensures
        lists_blocking(scanners@, content@, res@),
{
    let mut res: Vec<usize> = Vec::new();
    let mut i: usize = 0;
    while i < scanners.len()
        invariant
            i <= scanners@.len(),
            all_can_match(scanners@, content@),
            forall|k: int| 0 <= k < res@.len() ==> #[trigger] res@[k] < i
                && scanners@[res@[k] as int].scanner_backend.matches(content@),
            forall|k: int, l: int| 0 <= k < l < res@.len() ==> #[trigger] res@[k] < #[trigger] res@[l],
            forall|j: int|
                0 <= j < i && #[trigger] scanners@[j].scanner_backend.matches(content@) ==> res@.contains(
                    j as usize,
                ),
        decreases scanners.len() - i,
    {
        assert(scanners@[i as int].scanner_backend.can_match(content@));
        if scanners[i].scanner_backend.is_match(content) {
            let ghost old_res = res@;
            res.push(i);
            assert forall|j: int|
                0 <= j <= i && #[trigger] scanners@[j].scanner_backend.matches(content@) implies res@.contains(
                j as usize,
            ) by {
                if j < i {
                    assert(old_res.contains(j as usize));
                    let w = choose|w: int| 0 <= w < old_res.len() && old_res[w] == j as usize;
                    assert(res@[w] == j as usize);
                } else {
                    assert(res@[res@.len() - 1] == i);
                }
            }
        }
        i = i + 1;
    }
    res
}

} // verus!

verus! {

/// `b` is the stored form of the rule's test: its type name, then its fields.
pub open spec fn backend_layout(st: ScannerType, b: Document) -> bool {
    let e = b.entries@;
    match st {
        ScannerType::Pattern(p) => {
            &&& e.len() == 4
            &&& is_str_field(e[0], "type"@, "Pattern"@)
            &&& is_str_field(e[1], "regex"@, p.regex@)
            &&& is_bool_field(e[2], "multiline"@, p.multiline)
            &&& is_bool_field(e[3], "case_insensitive"@, p.case_insensitive)
        },
        ScannerType::Word(w) => {
            &&& e.len() == 4
            &&& is_str_field(e[0], "type"@, "Word"@)
            &&& is_str_field(e[1], "word"@, w.word@)
            &&& is_bool_field(e[2], "case_insensitive"@, w.case_insensitive)
            &&& is_bool_field(e[3], "remove_unicode"@, w.remove_unicode)
        },
    }
}

/// `d` is the stored form of `s`: its server, its test and its punishment
/// (the database adds the id when it stores the rule).
pub open spec fn scanner_layout(s: Scanner, d: Document) -> bool {
    let e = d.entries@;
    &&& e.len() == 3
    &&& is_str_field(e[0], "discord_id"@, s.discord_id@)
    &&& e[1].key@ == "scanner_backend"@
    &&& e[1].value matches Bson::Document(b)
    &&& backend_layout(s.scanner_backend, b)
    &&& e[2].key@ == "punishment"@
    &&& e[2].value matches Bson::Document(pd)
    &&& punishment_layout(s.punishment, pd)
}

/// `b` holds a pattern or a word rule.
pub open spec fn backend_readable(b: Document) -> bool {
    match b.str_field("type"@) {
        Some(t) => (t == "Pattern"@ && pattern_readable(b)) || (t == "Word"@ && word_readable(b)),
        None => false,
    }
}

pub open spec fn reads_backend(b: Document, st: ScannerType) -> bool {
    if b.str_field("type"@) == Some("Pattern"@) {
        st matches ScannerType::Pattern(p) && reads_pattern(b, p)
    } else {
        st matches ScannerType::Word(w) && reads_word(b, w)
    }
}

/// `d` can be read as a rule: it has an id, a server, a readable test, and a
/// readable punishment where it has one.
pub open spec fn scanner_readable(d: Document) -> bool {
    &&& d.object_id_field("_id"@) is Some
    &&& d.str_field("discord_id"@) is Some
    &&& d.document_field("scanner_backend"@) matches Some(b)
    &&& backend_readable(b)
    &&& d.document_field("punishment"@) matches Some(p) ==> punishment_readable(p)
}

/// `s` is the rule that `d` holds; a rule stored without a punishment
/// document has none.
pub open spec fn reads_scanner(d: Document, s: Scanner) -> bool {
    &&& d.object_id_field("_id"@) == Some(s._id)
    &&& d.str_field("discord_id"@) == Some(s.discord_id@)
    &&& reads_backend(d.document_field("scanner_backend"@)->0, s.scanner_backend)
    &&& match d.document_field("punishment"@) {
        Some(p) => reads_punishment(p, s.punishment),
        None => s.punishment matches Punishment::No(_),
    }
}

/// Whether `Scanner::from_document` can read `doc`.
pub fn scanner_document_readable(doc: &Document) -> (res: bool)
    ensures
        res == scanner_readable(*doc),
{
    if doc.get_object_id("_id").is_none() || doc.get_str("discord_id").is_none() {
        return false;
    }
    let backend_ok = match doc.get_document("scanner_backend") {
        Some(b) => match b.get_str("type") {
            Some(kind) => (str_eq(kind, "Pattern") && pattern_document_readable(b)) || (str_eq(
                kind,
                "Word",
            ) && word_document_readable(b)),
            None => false,
        },
        None => false,
    };
    if !backend_ok {
        return false;
    }
    match doc.get_document("punishment") {
        Some(p) => punishment_document_readable(p),
        None => true,
    }
}

impl Scanner {
    /// Reads a stored rule.
    pub fn from_document(doc: &Document) -> (res: Scanner)
        requires
            scanner_readable(*doc),
        ensures
            reads_scanner(*doc, res),
            doc.object_id_field("_id"@) == Some(res._id),
            doc.str_field("discord_id"@) == Some(res.discord_id@),
            ({
                let b = doc.document_field("scanner_backend"@)->0;
                b.str_field("type"@) == Some("Pattern"@) ==> (res.scanner_backend matches ScannerType::Pattern(p)
                    && b.str_field("regex"@) == Some(p.regex@) && b.bool_field("multiline"@) == Some(
                    p.multiline,
                ) && b.bool_field("case_insensitive"@) == Some(p.case_insensitive))
            }),
            ({
                let b = doc.document_field("scanner_backend"@)->0;
                b.str_field("type"@) == Some("Word"@) ==> (res.scanner_backend matches ScannerType::Word(w)
                    && b.str_field("word"@) == Some(w.word@) && b.bool_field("remove_unicode"@) == Some(
                    w.remove_unicode,
                ) && b.bool_field("case_insensitive"@) == Some(w.case_insensitive))
            }),
            doc.document_field("punishment"@) is None ==> res.punishment matches Punishment::No(_),
    {
        let backend = doc.get_document("scanner_backend").unwrap();
        let kind = backend.get_str("type").unwrap();
        proof {
            reveal_strlit("Pattern");
            reveal_strlit("Word");
            assert("Pattern"@.len() == 7 && "Word"@.len() == 4);
        }
        let scanner_backend = if str_eq(kind, "Pattern") {
            ScannerType::Pattern(Pattern::from_document(backend))
        } else {
            ScannerType::Word(Word::from_document(backend))
        };
        let punishment = match doc.get_document("punishment") {
            Some(p) => Punishment::from_document(p),
            None => Punishment::No(NoPunishment {}),
        };
        Scanner {
            _id: doc.get_object_id("_id").unwrap(),
            discord_id: doc.get_str("discord_id").unwrap().to_string(),
            scanner_backend,
            punishment,
        }
    }

    /// The stored form of the rule, without its id.
    pub fn to_document(&self) -> (res: Document)
        ensures
            scanner_layout(*self, res),
        res.str_field("discord_id"@) == Some(self.discord_id@),
        res.document_field("scanner_backend"@) is Some,
        res.document_field("punishment"@) is Some,
        match self.scanner_backend {
            ScannerType::Pattern(p) => {
                let b = res.document_field("scanner_backend"@)->0;
                &&& b.str_field("type"@) == Some("Pattern"@)
                &&& b.str_field("regex"@) == Some(p.regex@)
                &&& b.bool_field("multiline"@) == Some(p.multiline)
                &&& b.bool_field("case_insensitive"@) == Some(p.case_insensitive)
            },
            ScannerType::Word(w) => {
                let b = res.document_field("scanner_backend"@)->0;
                &&& b.str_field("type"@) == Some("Word"@)
                &&& b.str_field("word"@) == Some(w.word@)
                &&& b.bool_field("case_insensitive"@) == Some(w.case_insensitive)
                &&& b.bool_field("remove_unicode"@) == Some(w.remove_unicode)
            },
        },
    {
        let mut backend: Vec<Field> = Vec::new();
        match &self.scanner_backend {
            ScannerType::Pattern(p) => {
                backend.push(str_entry("type", "Pattern"));
                backend.push(str_entry("regex", p.regex.as_str()));
                backend.push(bool_entry("multiline", p.multiline));
                backend.push(bool_entry("case_insensitive", p.case_insensitive));
            },
            ScannerType::Word(w) => {
                backend.push(str_entry("type", "Word"));
                backend.push(str_entry("word", w.word.as_str()));
                backend.push(bool_entry("case_insensitive", w.case_insensitive));
                backend.push(bool_entry("remove_unicode", w.remove_unicode));
            },
        }
        let mut entries: Vec<Field> = Vec::new();
        entries.push(str_entry("discord_id", self.discord_id.as_str()));
        entries.push(document_entry("scanner_backend", Document { entries: backend }));
        entries.push(document_entry("punishment", self.punishment.to_document()));
        let res = Document { entries };
        proof {
            lemma_scanner_layout_fields(*self, res);
        }
        res
    }
}

} // verus!

verus! {

/// The two tests are of one kind with the same text and flags.
pub open spec fn same_backend(a: ScannerType, b: ScannerType) -> bool {
    match (a, b) {
        (ScannerType::Pattern(x), ScannerType::Pattern(y)) => x.regex@ == y.regex@ && x.multiline
            == y.multiline && x.case_insensitive == y.case_insensitive,
        (ScannerType::Word(x), ScannerType::Word(y)) => x.word@ == y.word@ && x.case_insensitive
            == y.case_insensitive && x.remove_unicode == y.remove_unicode,
        _ => false,
    }
}

/// The two rules have the same id, server, test and punishment.
pub open spec fn same_scanner(a: Scanner, b: Scanner) -> bool {
    &&& a._id == b._id
    &&& a.discord_id@ == b.discord_id@
    &&& same_backend(a.scanner_backend, b.scanner_backend)
    &&& same_punishment(a.punishment, b.punishment)
}

/// A rule's stored form, once the database has put its id among its fields
/// (at any place `k`), reads back as the same rule.
pub proof fn lemma_scanner_document_roundtrip(
    s: Scanner,
    d: Document,
    k: int,
    stored: Document,
    t: Scanner,
)
    requires
        scanner_layout(s, d),
        0 <= k <= d.entries@.len(),
        stored.entries@ == d.entries@.insert(k, stored.entries@[k]),
        stored.entries@[k].key@ == "_id"@,
        stored.entries@[k].value == Bson::ObjectId(s._id),
    ensures
        scanner_readable(stored),
        reads_scanner(stored, t) ==> same_scanner(s, t),
{
    reveal_strlit("_id");
    reveal_strlit("discord_id");
    reveal_strlit("scanner_backend");
    reveal_strlit("punishment");
    reveal_strlit("type");
    reveal_strlit("regex");
    reveal_strlit("multiline");
    reveal_strlit("case_insensitive");
    reveal_strlit("word");
    reveal_strlit("remove_unicode");
    reveal_strlit("Pattern");
    reveal_strlit("Word");
    assert("_id"@.len() == 3 && "discord_id"@.len() == 10 && "scanner_backend"@.len() == 15
        && "punishment"@.len() == 10);
    assert("discord_id"@ != "punishment"@) by {
        assert("discord_id"@[0] != "punishment"@[0]);
    }
    assert("type"@.len() == 4 && "regex"@.len() == 5 && "multiline"@.len() == 9
        && "case_insensitive"@.len() == 16 && "word"@.len() == 4 && "remove_unicode"@.len() == 14);
    assert("type"@ != "word"@) by {
        assert("type"@[0] != "word"@[0]);
    }
    assert("Pattern"@.len() == 7 && "Word"@.len() == 4);
    let de = d.entries@;
    let f = stored.entries@[k];
    lemma_lookup_at(de, 0, "discord_id"@);
    lemma_lookup_at(de, 1, "scanner_backend"@);
    lemma_lookup_at(de, 2, "punishment"@);
    lemma_lookup_insert_new(de, k, f);
    lemma_lookup_insert_other(de, k, f, "discord_id"@);
    lemma_lookup_insert_other(de, k, f, "scanner_backend"@);
    lemma_lookup_insert_other(de, k, f, "punishment"@);
    let b = d.entries@[1].value->Document_0;
    let be = b.entries@;
    lemma_lookup_at(be, 0, "type"@);
    match s.scanner_backend {
        ScannerType::Pattern(_) => {
            lemma_lookup_at(be, 1, "regex"@);
            lemma_lookup_at(be, 2, "multiline"@);
            lemma_lookup_at(be, 3, "case_insensitive"@);
        },
        ScannerType::Word(_) => {
            lemma_lookup_at(be, 1, "word"@);
            lemma_lookup_at(be, 2, "case_insensitive"@);
            lemma_lookup_at(be, 3, "remove_unicode"@);
        },
    }
    let pd = d.entries@[2].value->Document_0;
    lemma_punishment_document_roundtrip(s.punishment, pd, t.punishment);
}

} // verus!

verus! {

/// Goes through the rules in order, as the bot does for a message: the
/// positions of the rules that block it, up to the first rule that cannot
/// look at it (where the bot stops), and that rule's position, if any.
pub fn scan_message(scanners: &Vec<Scanner>, content: &str) -> (res: (Vec<usize>, Option<usize>))
    ensures
        match res.1 {
            Some(k) => {
                &&& k < scanners@.len()
                &&& !scanners@[k as int].scanner_backend.can_match(content@)
                &&& all_can_match(scanners@.take(k as int), content@)
                &&& lists_blocking(scanners@.take(k as int), content@, res.0@)
            },
            None => {
                &&& all_can_match(scanners@, content@)
                &&& lists_blocking(scanners@, content@, res.0@)
            },
        },
{
    let mut res: Vec<usize> = Vec::new();
    let mut i: usize = 0;
    while i < scanners.len()
        invariant
            i <= scanners@.len(),
            all_can_match(scanners@.take(i as int), content@),
            lists_blocking(scanners@.take(i as int), content@, res@),
        decreases scanners.len() - i,
    {
        let ghost pre = scanners@.take(i as int);
        let ghost next = scanners@.take(i + 1);
        assert forall|j: int| 0 <= j < i implies next[j] == pre[j] && pre[j] == scanners@[j] by {}
        match scanners[i].scanner_backend.try_is_match(content) {
            None => {
                return (res, Some(i));
            },
            Some(blocks) => {
                let ghost old_res = res@;
                if blocks {
                    res.push(i);
                }
                assert forall|j: int| 0 <= j < next.len() implies #[trigger] next[j].scanner_backend.can_match(
                    content@,
                ) by {
                    if j < i {
                        assert(pre[j].scanner_backend.can_match(content@));
                    }
                }
                assert forall|j: int|
                    0 <= j < next.len() && #[trigger] next[j].scanner_backend.matches(
                        content@,
                    ) implies res@.contains(j as usize) by {
                    if j < i {
                        assert(pre[j].scanner_backend.matches(content@));
                        assert(old_res.contains(j as usize));
                        let w = choose|w: int| 0 <= w < old_res.len() && old_res[w] == j as usize;
                        assert(res@[w] == j as usize);
                    } else {
                        assert(res@[res@.len() - 1] == i);
                    }
                }
                assert forall|k: int| 0 <= k < res@.len() implies #[trigger] res@[k] < next.len()
                    && next[res@[k] as int].scanner_backend.matches(content@) by {
                    if k < old_res.len() {
                        assert(old_res[k] < pre.len());
                        assert(pre[old_res[k] as int].scanner_backend.matches(content@));
                    }
                }
            },
        }
        i = i + 1;
    }
    assert(scanners@.take(scanners@.len() as int) =~= scanners@);
    (res, None)
}

} // verus!

verus! {

/// What a rule's stored form holds: its server under `discord_id`, and under
/// `scanner_backend` the type name of its test ("Pattern" or "Word") with the
/// test's text and flags under their own names.
pub proof fn lemma_scanner_layout_fields(s: Scanner, d: Document)
    requires
        scanner_layout(s, d),
    ensures
        d.str_field("discord_id"@) == Some(s.discord_id@),
        d.document_field("scanner_backend"@) is Some,
        d.document_field("punishment"@) is Some,
        match s.scanner_backend {
            ScannerType::Pattern(p) => {
                let b = d.document_field("scanner_backend"@)->0;
                &&& b.str_field("type"@) == Some("Pattern"@)
                &&& b.str_field("regex"@) == Some(p.regex@)
                &&& b.bool_field("multiline"@) == Some(p.multiline)
                &&& b.bool_field("case_insensitive"@) == Some(p.case_insensitive)
            },
            ScannerType::Word(w) => {
                let b = d.document_field("scanner_backend"@)->0;
                &&& b.str_field("type"@) == Some("Word"@)
                &&& b.str_field("word"@) == Some(w.word@)
                &&& b.bool_field("case_insensitive"@) == Some(w.case_insensitive)
                &&& b.bool_field("remove_unicode"@) == Some(w.remove_unicode)
            },
        },
{
    reveal_strlit("discord_id");
    reveal_strlit("scanner_backend");
    reveal_strlit("punishment");
    reveal_strlit("type");
    reveal_strlit("regex");
    reveal_strlit("multiline");
    reveal_strlit("case_insensitive");
    reveal_strlit("word");
    reveal_strlit("remove_unicode");
    assert("discord_id"@.len() == 10 && "scanner_backend"@.len() == 15 && "punishment"@.len() == 10);
    assert("discord_id"@ != "punishment"@) by {
        assert("discord_id"@[0] != "punishment"@[0]);
    }
    assert("type"@.len() == 4 && "regex"@.len() == 5 && "multiline"@.len() == 9
        && "case_insensitive"@.len() == 16 && "word"@.len() == 4 && "remove_unicode"@.len() == 14);
    assert("type"@ != "word"@) by {
        assert("type"@[0] != "word"@[0]);
    }
    let e = d.entries@;
    lemma_lookup_at(e, 0, "discord_id"@);
    lemma_lookup_at(e, 1, "scanner_backend"@);
    lemma_lookup_at(e, 2, "punishment"@);
    let be = e[1].value->Document_0.entries@;
    lemma_lookup_at(be, 0, "type"@);
    match s.scanner_backend {
        ScannerType::Pattern(_) => {
            lemma_lookup_at(be, 1, "regex"@);
            lemma_lookup_at(be, 2, "multiline"@);
            lemma_lookup_at(be, 3, "case_insensitive"@);
        },
        ScannerType::Word(_) => {
            lemma_lookup_at(be, 1, "word"@);
            lemma_lookup_at(be, 2, "case_insensitive"@);
            lemma_lookup_at(be, 3, "remove_unicode"@);
        },
    }
}

/// How a stored rule is read: its id and server from `_id` and `discord_id`;
/// a test stored with type name "Pattern" reads as a pattern rule and one with
/// "Word" as a word rule, with the text and flags under their own names; a
/// rule stored without a punishment has none.
pub proof fn lemma_scanner_read_by_type(d: Document, s: Scanner)
    requires
        reads_scanner(d, s),
    ensures
        d.object_id_field("_id"@) == Some(s._id),
        d.str_field("discord_id"@) == Some(s.discord_id@),
        ({
            let b = d.document_field("scanner_backend"@)->0;
            b.str_field("type"@) == Some("Pattern"@) ==> (s.scanner_backend matches ScannerType::Pattern(p)
                && b.str_field("regex"@) == Some(p.regex@) && b.bool_field("multiline"@) == Some(
                p.multiline,
            ) && b.bool_field("case_insensitive"@) == Some(p.case_insensitive))
        }),
        ({
            let b = d.document_field("scanner_backend"@)->0;
            b.str_field("type"@) == Some("Word"@) ==> (s.scanner_backend matches ScannerType::Word(w)
                && b.str_field("word"@) == Some(w.word@) && b.bool_field("remove_unicode"@) == Some(
                w.remove_unicode,
            ) && b.bool_field("case_insensitive"@) == Some(w.case_insensitive))
        }),
        d.document_field("punishment"@) is None ==> s.punishment matches Punishment::No(_),
{
    reveal_strlit("Pattern");
    reveal_strlit("Word");
    assert("Pattern"@.len() == 7 && "Word"@.len() == 4);
}

/// What a rule's test blocks: a pattern test, what the expression built from
/// its text with its own two flags matches; a word test, what the word rule
/// matches.
pub proof fn lemma_scanner_type_matches(st: ScannerType, text: Seq<char>)
    ensures
        st matches ScannerType::Pattern(p) ==> st.matches(text) == regex_is_match(
            p.regex@,
            p.multiline,
            p.case_insensitive,
            text,
        ) && st.can_match(text) == regex_builds(p.regex@, p.multiline, p.case_insensitive),
        st matches ScannerType::Word(w) ==> st.matches(text) == w.matches(text) && st.can_match(text)
            == w.can_match(text),
{
}

} // verus!
