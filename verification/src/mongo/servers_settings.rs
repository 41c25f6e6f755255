//! The settings of one server: where the bot writes its log.

use vstd::prelude::*;
use crate::mongo::document::{
    is_str_field, lemma_lookup_at, lemma_lookup_insert_new, lemma_lookup_insert_other, str_entry,
    Bson, Document, Field,
};

verus! {

/// A server's settings; `_id` holds the twelve bytes of its database id, and
/// an empty `log_channel` means that no log is written.
#[derive(Debug, Clone, PartialEq, Eq)]
pub struct ServerSettings {
    pub _id: [u8; 12],
    pub discord_id: String,
    pub log_channel: String,
}

/// `d` is the stored form of `s`: its server and its log channel.
pub open spec fn settings_layout(s: ServerSettings, d: Document) -> bool {
    let e = d.entries@;
    &&& e.len() == 2
    &&& is_str_field(e[0], "discord_id"@, s.discord_id@)
    &&& is_str_field(e[1], "log_channel"@, s.log_channel@)
}

pub open spec fn settings_readable(d: Document) -> bool {
    &&& d.object_id_field("_id"@) is Some
    &&& d.str_field("discord_id"@) is Some
    &&& d.str_field("log_channel"@) is Some
}

pub open spec fn reads_settings(d: Document, s: ServerSettings) -> bool {
    &&& d.object_id_field("_id"@) == Some(s._id)
    &&& d.str_field("discord_id"@) == Some(s.discord_id@)
    &&& d.str_field("log_channel"@) == Some(s.log_channel@)
}

/// Whether `ServerSettings::from_document` can read `doc`.
pub fn settings_document_readable(doc: &Document) -> (res: bool)
    ensures
        res == settings_readable(*doc),
{
    doc.get_object_id("_id").is_some() && doc.get_str("discord_id").is_some() && doc.get_str(
        "log_channel",
    ).is_some()
}

impl ServerSettings {
    /// Reads stored settings.
    pub fn from_document(doc: &Document) -> (res: ServerSettings)
        requires
            settings_readable(*doc),
        ensures
            reads_settings(*doc, res),
            doc.object_id_field("_id"@) == Some(res._id),
            doc.str_field("discord_id"@) == Some(res.discord_id@),
            doc.str_field("log_channel"@) == Some(res.log_channel@),
    {
        ServerSettings {
            _id: doc.get_object_id("_id").unwrap(),
            discord_id: doc.get_str("discord_id").unwrap().to_string(),
            log_channel: doc.get_str("log_channel").unwrap().to_string(),
        }
    }

    /// The stored form of the settings, without their id.
    pub fn to_document(&self) -> (res: Document)
        ensures
            settings_layout(*self, res),
            res.entries@.len() == 2,
            is_str_field(res.entries@[0], "discord_id"@, self.discord_id@),
            is_str_field(res.entries@[1], "log_channel"@, self.log_channel@),
    {
        let mut entries: Vec<Field> = Vec::new();
        entries.push(str_entry("discord_id", self.discord_id.as_str()));
        entries.push(str_entry("log_channel", self.log_channel.as_str()));
        Document { entries }
    }
}

/// Settings' stored form, once the database has put their id among their
/// fields (at any place `k`), reads back as the same settings.
pub proof fn lemma_settings_document_roundtrip(
    s: ServerSettings,
    d: Document,
    k: int,
    stored: Document,
    t: ServerSettings,
)
    requires
        settings_layout(s, d),
        0 <= k <= d.entries@.len(),
        stored.entries@ == d.entries@.insert(k, stored.entries@[k]),
        stored.entries@[k].key@ == "_id"@,
        stored.entries@[k].value == Bson::ObjectId(s._id),
    ensures
        settings_readable(stored),
        reads_settings(stored, t) ==> t._id == s._id && t.discord_id@ == s.discord_id@
            && t.log_channel@ == s.log_channel@,
{
    reveal_strlit("_id");
    reveal_strlit("discord_id");
    reveal_strlit("log_channel");
    assert("_id"@.len() == 3 && "discord_id"@.len() == 10 && "log_channel"@.len() == 11);
    let de = d.entries@;
    let f = stored.entries@[k];
    lemma_lookup_at(de, 0, "discord_id"@);
    lemma_lookup_at(de, 1, "log_channel"@);
    lemma_lookup_insert_new(de, k, f);
    lemma_lookup_insert_other(de, k, f, "discord_id"@);
    lemma_lookup_insert_other(de, k, f, "log_channel"@);
}

} // verus!
