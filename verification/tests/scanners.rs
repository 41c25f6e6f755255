use presence_bot::scanners::general::convert_all_unicode_to_ascii;
use presence_bot::scanners::regex::Pattern;

#[test]
fn regex_single_line_match() {
    let pattern = Pattern::new(r"^\d{3}-\d{3}-\d{4}$", false, false);
    assert_eq!(pattern.is_match("123-456-7890"), true);
}

#[test]
fn regex_single_line_no_match() {
    let pattern = Pattern::new(r"^\d{3}-\d{3}-\d{4}$", false, false);
    assert_eq!(pattern.is_match("123-456-789"), false);
}

#[test]
fn unicode_to_ascii_lookalike() {
    let text = "Hello, 𝕊𝕙𝕚 𝕁𝕚𝕖!";
    assert_eq!(convert_all_unicode_to_ascii(text), "Hello, shi jie!");
}

#[test]
fn unicode_to_ascii_no_lookalike() {
    let text = "Hello, world!";
    assert_eq!(convert_all_unicode_to_ascii(text), "Hello, world!");
}

#[test]
fn unicode_to_ascii_and_regex() {
    let text = "Hello, 𝕊𝕙𝕚 𝕁𝕚𝕖!";
    let text = convert_all_unicode_to_ascii(text);
    let pattern = Pattern::new(r"^\w{5}, \w{3} \w{3}!$", false, false);
    assert_eq!(pattern.is_match(&text), true);
}

use presence_bot::mongo::scanner::{blocking_scanners, can_scan_all, scan_message, Scanner, ScannerType};
use presence_bot::scanners::general::{can_convert_to_ascii, ScannerBackend};
use presence_bot::scanners::punishments::{NoPunishment, Punishment};
use presence_bot::scanners::word::Word;

#[test]
fn pattern_flags() {
    let mut pattern = Pattern::new("^hello$", false, false);
    assert!(!pattern.is_match("HELLO"));
    assert!(!pattern.is_match("a\nhello"));
    pattern.change_settings(true, true);
    assert_eq!(pattern.regex, "^hello$");
    assert!(pattern.is_match("HELLO"));
    assert!(pattern.is_match("a\nhello"));
    assert!(pattern.scan("a\nHeLLo"));
}

#[test]
fn pattern_invalid() {
    let pattern = Pattern::new("(", false, false);
    assert!(!pattern.is_valid());
    assert_eq!(pattern.try_is_match("("), None);
    assert_eq!(Pattern::new("a", false, false).try_is_match("cat"), Some(true));
}

#[test]
fn word_matching() {
    let word = Word::new("Bad", false, false);
    assert!(word.is_match("this is Bad"));
    assert!(!word.is_match("this is bad"));
    assert!(!word.is_match("B a d"));
    let mut word = Word::new("Bad", true, false);
    assert!(word.is_match("this is bAD"));
    word.change_settings(false, false);
    assert_eq!(word.word, "Bad");
    assert!(!word.is_match("this is bAD"));
    assert!(Word::new("", false, false).is_match("anything"));
}

#[test]
fn word_lookalikes() {
    let word = Word::new("shi", false, true);
    assert!(word.is_match("Hello, 𝕊𝕙𝕚 𝕁𝕚𝕖!"));
    assert!(!Word::new("shi", false, false).is_match("Hello, 𝕊𝕙𝕚 𝕁𝕚𝕖!"));
    assert_eq!(word.try_is_match("𝕤𝕙𝕚"), Some(true));
    assert!(can_convert_to_ascii("plain"));
}

fn rule(backend: ScannerType) -> Scanner {
    Scanner {
        _id: [0; 12],
        discord_id: "1".to_string(),
        scanner_backend: backend,
        punishment: Punishment::No(NoPunishment {}),
    }
}

#[test]
fn blocking_rules_in_order() {
    let rules = vec![
        rule(ScannerType::Word(Word::new("cat", false, false))),
        rule(ScannerType::Pattern(Pattern::new("d.g", false, false))),
        rule(ScannerType::Word(Word::new("bird", false, false))),
        rule(ScannerType::Pattern(Pattern::new("^c", false, false))),
    ];
    assert!(can_scan_all(&rules, "cat and dog"));
    assert_eq!(blocking_scanners(&rules, "cat and dog"), vec![0, 1, 3]);
    assert_eq!(blocking_scanners(&rules, "nothing"), Vec::<usize>::new());
    let bad = vec![rule(ScannerType::Pattern(Pattern::new("(", false, false)))];
    assert!(!can_scan_all(&bad, "x"));
    assert_eq!(ScannerType::Pattern(Pattern::new("(", false, false)).try_is_match("x"), None);
}

#[test]
fn scan_message_stops_at_unreadable_rule() {
    let rules = vec![
        rule(ScannerType::Word(Word::new("cat", false, false))),
        rule(ScannerType::Pattern(Pattern::new("x", false, false))),
        rule(ScannerType::Pattern(Pattern::new("(", false, false))),
        rule(ScannerType::Word(Word::new("dog", false, false))),
    ];
    assert_eq!(scan_message(&rules, "cat and dog"), (vec![0], Some(2)));
    assert_eq!(scan_message(&rules[..2].to_vec(), "cat x"), (vec![0, 1], None));
}
