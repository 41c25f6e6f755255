use presence_bot::mongo::document::{Bson, Document, Field};
use presence_bot::mongo::mongo_repo::{scanners_cache_key, settings_cache_key};
use presence_bot::mongo::scanner::{scanner_document_readable, Scanner, ScannerType};
use presence_bot::mongo::servers_settings::{settings_document_readable, ServerSettings};
use presence_bot::scanners::punishments::{
    punishment_document_readable, Ban, Kick, NoPunishment, Punishment, Timeout,
};
use presence_bot::scanners::regex::Pattern;
use presence_bot::scanners::word::Word;

fn with_id(id: [u8; 12], doc: Document) -> Document {
    let mut entries = vec![Field { key: "_id".to_string(), value: Bson::ObjectId(id) }];
    entries.extend(doc.entries);
    Document { entries }
}

fn with_id_at(k: usize, id: [u8; 12], doc: Document) -> Document {
    let mut entries = doc.entries;
    entries.insert(k, Field { key: "_id".to_string(), value: Bson::ObjectId(id) });
    Document { entries }
}

fn keys(doc: &Document) -> Vec<String> {
    doc.entries.iter().map(|f| f.key.clone()).collect()
}

#[test]
fn punishment_layouts() {
    let ban = Punishment::Ban(Ban { reason: "r".to_string(), duration: 5 });
    assert_eq!(keys(&ban.to_document()), vec!["type", "reason", "duration"]);
    let t = Punishment::Timeout(Timeout { reason: "r".to_string(), duration: 5 });
    assert_eq!(keys(&t.to_document()), vec!["type", "duration", "reason"]);
    assert_eq!(keys(&Punishment::No(NoPunishment {}).to_document()), vec!["type"]);
}

#[test]
fn punishment_roundtrip() {
    for p in [
        Punishment::Ban(Ban { reason: "spam".to_string(), duration: 60 }),
        Punishment::Kick(Kick { reason: "rude".to_string() }),
        Punishment::Timeout(Timeout { reason: "loud".to_string(), duration: -3 }),
        Punishment::No(NoPunishment {}),
    ] {
        let doc = p.to_document();
        assert!(punishment_document_readable(&doc));
        assert_eq!(Punishment::from_document(&doc), p);
    }
}

#[test]
fn punishment_unreadable_documents() {
    let unknown = Document {
        entries: vec![Field { key: "type".to_string(), value: Bson::String("Exile".to_string()) }],
    };
    assert!(!punishment_document_readable(&unknown));
    let short = Document {
        entries: vec![
            Field { key: "type".to_string(), value: Bson::String("Ban".to_string()) },
            Field { key: "reason".to_string(), value: Bson::String("x".to_string()) },
        ],
    };
    assert!(!punishment_document_readable(&short));
    let wrong = Document {
        entries: vec![
            Field { key: "type".to_string(), value: Bson::String("Kick".to_string()) },
            Field { key: "reason".to_string(), value: Bson::Int32(3) },
        ],
    };
    assert!(!punishment_document_readable(&wrong));
}

fn sample(backend: ScannerType, punishment: Punishment) -> Scanner {
    Scanner {
        _id: [1, 2, 3, 4, 5, 6, 7, 8, 9, 10, 11, 255],
        discord_id: "42".to_string(),
        scanner_backend: backend,
        punishment,
    }
}

#[test]
fn scanner_roundtrip() {
    for s in [
        sample(
            ScannerType::Pattern(Pattern::new("a+b", true, false)),
            Punishment::Kick(Kick { reason: "k".to_string() }),
        ),
        sample(
            ScannerType::Word(Word::new("bad", false, true)),
            Punishment::Timeout(Timeout { reason: "t".to_string(), duration: 30 }),
        ),
    ] {
        let doc = s.to_document();
        assert_eq!(keys(&doc), vec!["discord_id", "scanner_backend", "punishment"]);
        assert!(!scanner_document_readable(&doc));
        for k in 0..=3 {
            let stored = with_id_at(k, s._id, s.to_document());
            assert!(scanner_document_readable(&stored));
            assert_eq!(Scanner::from_document(&stored), s);
        }
        let stored = with_id(s._id, doc);
        assert!(scanner_document_readable(&stored));
        assert_eq!(Scanner::from_document(&stored), s);
    }
}

#[test]
fn scanner_without_punishment_has_none() {
    let s = sample(
        ScannerType::Word(Word::new("w", true, false)),
        Punishment::Ban(Ban { reason: "b".to_string(), duration: 1 }),
    );
    let mut doc = with_id(s._id, s.to_document());
    doc.entries.pop();
    assert!(scanner_document_readable(&doc));
    let back = Scanner::from_document(&doc);
    assert_eq!(back.punishment, Punishment::No(NoPunishment {}));
    assert_eq!(back.scanner_backend, s.scanner_backend);
}

#[test]
fn scanner_unknown_backend_unreadable() {
    let doc = Document {
        entries: vec![
            Field { key: "_id".to_string(), value: Bson::ObjectId([0; 12]) },
            Field { key: "discord_id".to_string(), value: Bson::String("1".to_string()) },
            Field {
                key: "scanner_backend".to_string(),
                value: Bson::Document(Document {
                    entries: vec![Field {
                        key: "type".to_string(),
                        value: Bson::String("Emoji".to_string()),
                    }],
                }),
            },
        ],
    };
    assert!(!scanner_document_readable(&doc));
}

#[test]
fn settings_roundtrip() {
    let s = ServerSettings { _id: [7; 12], discord_id: "9".to_string(), log_channel: "".to_string() };
    let doc = s.to_document();
    assert_eq!(keys(&doc), vec!["discord_id", "log_channel"]);
    let stored = with_id(s._id, doc);
    assert!(settings_document_readable(&stored));
    assert_eq!(ServerSettings::from_document(&stored), s);
    let stored = with_id_at(2, s._id, s.to_document());
    assert!(settings_document_readable(&stored));
    assert_eq!(ServerSettings::from_document(&stored), s);
}

#[test]
fn document_first_field_wins() {
    let doc = Document {
        entries: vec![
            Field { key: "a".to_string(), value: Bson::Int32(1) },
            Field { key: "a".to_string(), value: Bson::Int32(2) },
            Field { key: "b".to_string(), value: Bson::Boolean(true) },
        ],
    };
    assert_eq!(doc.get_i32("a"), Some(1));
    assert_eq!(doc.get_bool("b"), Some(true));
    assert_eq!(doc.get_str("b"), None);
    assert!(doc.get("c").is_none());
}

#[test]
fn cache_keys() {
    assert_eq!(scanners_cache_key("123"), "123_scanners");
    assert_eq!(settings_cache_key("123"), "123_settings");
    assert_ne!(scanners_cache_key("1"), settings_cache_key("1"));
}
