//! What happens to the author of a message that a rule blocks.

use vstd::prelude::*;
use crate::mongo::document::{
    i32_entry, is_i32_field, is_str_field, lemma_lookup_at, str_entry, Bson, Document, Field,
};
use crate::utils::text::str_eq;

verus! {

/// The punishment attached to a rule.
#[derive(Debug, Clone, PartialEq, Eq)]
pub enum Punishment {
    Ban(Ban),
    Kick(Kick),
    Timeout(Timeout),
    No(NoPunishment),
}

/// Ban the author; `duration` is in seconds.
#[derive(Debug, Clone, PartialEq, Eq)]
pub struct Ban {
    pub reason: String,
    pub duration: i32,
}

/// Remove the author from the server.
#[derive(Debug, Clone, PartialEq, Eq)]
pub struct Kick {
    pub reason: String,
}

/// Keep the author from writing for `duration` seconds.
#[derive(Debug, Clone, PartialEq, Eq)]
pub struct Timeout {
    pub duration: i32,
    pub reason: String,
}

/// Only delete the message.
#[derive(Debug, Clone, PartialEq, Eq)]
pub struct NoPunishment {}

} // verus!

verus! {

/// `d` is the stored form of `p`: its type name, then its fields in the
/// order reason, duration for a ban and duration, reason for a timeout.
pub open spec fn punishment_layout(p: Punishment, d: Document) -> bool {
    let e = d.entries@;
    match p {
        Punishment::Ban(b) => {
            &&& e.len() == 3
            &&& is_str_field(e[0], "type"@, "Ban"@)
            &&& is_str_field(e[1], "reason"@, b.reason@)
            &&& is_i32_field(e[2], "duration"@, b.duration)
        },
        Punishment::Kick(k) => {
            &&& e.len() == 2
            &&& is_str_field(e[0], "type"@, "Kick"@)
            &&& is_str_field(e[1], "reason"@, k.reason@)
        },
        Punishment::Timeout(t) => {
            &&& e.len() == 3
            &&& is_str_field(e[0], "type"@, "Timeout"@)
            &&& is_i32_field(e[1], "duration"@, t.duration)
            &&& is_str_field(e[2], "reason"@, t.reason@)
        },
        Punishment::No(_) => {
            &&& e.len() == 1
            &&& is_str_field(e[0], "type"@, "No"@)
        },
    }
}

/// `d` can be read as a punishment: its type is one of the four, with the
/// fields that type needs.
pub open spec fn punishment_readable(d: Document) -> bool {
    match d.str_field("type"@) {
        Some(t) => if t == "Ban"@ {
            d.str_field("reason"@) is Some && d.i32_field("duration"@) is Some
        } else if t == "Kick"@ {
            d.str_field("reason"@) is Some
        } else if t == "Timeout"@ {
            d.str_field("reason"@) is Some && d.i32_field("duration"@) is Some
        } else {
            t == "No"@
        },
        None => false,
    }
}

/// `p` is what `d` says.
pub open spec fn reads_punishment(d: Document, p: Punishment) -> bool {
    let t = d.str_field("type"@)->0;
    if t == "Ban"@ {
        &&& p matches Punishment::Ban(b)
        &&& d.str_field("reason"@) == Some(b.reason@)
        &&& d.i32_field("duration"@) == Some(b.duration)
    } else if t == "Kick"@ {
        &&& p matches Punishment::Kick(k)
        &&& d.str_field("reason"@) == Some(k.reason@)
    } else if t == "Timeout"@ {
        &&& p matches Punishment::Timeout(x)
        &&& d.str_field("reason"@) == Some(x.reason@)
        &&& d.i32_field("duration"@) == Some(x.duration)
    } else {
        p matches Punishment::No(_)
    }
}

/// The two punishments are of one kind, with the same reason and duration.
pub open spec fn same_punishment(p: Punishment, q: Punishment) -> bool {
    match (p, q) {
        (Punishment::Ban(a), Punishment::Ban(b)) => a.reason@ == b.reason@ && a.duration == b.duration,
        (Punishment::Kick(a), Punishment::Kick(b)) => a.reason@ == b.reason@,
        (Punishment::Timeout(a), Punishment::Timeout(b)) => a.reason@ == b.reason@ && a.duration
            == b.duration,
        (Punishment::No(_), Punishment::No(_)) => true,
        _ => false,
    }
}

impl Punishment {
    /// Reads a stored punishment.
    pub fn from_document(doc: &Document) -> (res: Punishment)
        requires
            punishment_readable(*doc),
        ensures
            reads_punishment(*doc, res),
            doc.str_field("type"@) == Some("Ban"@) ==> (res matches Punishment::Ban(b)
                && doc.str_field("reason"@) == Some(b.reason@) && doc.i32_field("duration"@) == Some(
                b.duration,
            )),
            doc.str_field("type"@) == Some("Kick"@) ==> (res matches Punishment::Kick(k)
                && doc.str_field("reason"@) == Some(k.reason@)),
            doc.str_field("type"@) == Some("Timeout"@) ==> (res matches Punishment::Timeout(t)
                && doc.str_field("reason"@) == Some(t.reason@) && doc.i32_field("duration"@) == Some(
                t.duration,
            )),
            doc.str_field("type"@) == Some("No"@) ==> res matches Punishment::No(_),
    {
        proof {
            reveal_strlit("Ban");
            reveal_strlit("Kick");
            reveal_strlit("Timeout");
            reveal_strlit("No");
            assert("Ban"@.len() == 3 && "Kick"@.len() == 4 && "Timeout"@.len() == 7 && "No"@.len() == 2);
        }
        let kind = doc.get_str("type").unwrap();
        if str_eq(kind, "Ban") {
            Punishment::Ban(
                Ban {
                    reason: doc.get_str("reason").unwrap().to_string(),
                    duration: doc.get_i32("duration").unwrap(),
                },
            )
        } else if str_eq(kind, "Kick") {
            Punishment::Kick(Kick { reason: doc.get_str("reason").unwrap().to_string() })
        } else if str_eq(kind, "Timeout") {
            Punishment::Timeout(
                Timeout {
                    duration: doc.get_i32("duration").unwrap(),
                    reason: doc.get_str("reason").unwrap().to_string(),
                },
            )
        } else {
            Punishment::No(NoPunishment {})
        }
    }

    /// The stored form of the punishment.
    pub fn to_document(&self) -> (res: Document)
        ensures
            punishment_layout(*self, res),
            match *self {
                Punishment::Ban(b) => res.str_field("type"@) == Some("Ban"@) && res.str_field(
                    "reason"@,
                ) == Some(b.reason@) && res.i32_field("duration"@) == Some(b.duration),
                Punishment::Kick(k) => res.str_field("type"@) == Some("Kick"@) && res.str_field(
                    "reason"@,
                ) == Some(k.reason@),
                Punishment::Timeout(t) => res.str_field("type"@) == Some("Timeout"@)
                    && res.str_field("reason"@) == Some(t.reason@) && res.i32_field("duration"@)
                    == Some(t.duration),
                Punishment::No(_) => res.str_field("type"@) == Some("No"@),
            },
    {
        let mut entries: Vec<Field> = Vec::new();
        match self {
            Punishment::Ban(b) => {
                entries.push(str_entry("type", "Ban"));
                entries.push(str_entry("reason", b.reason.as_str()));
                entries.push(i32_entry("duration", b.duration));
            },
            Punishment::Kick(k) => {
                entries.push(str_entry("type", "Kick"));
                entries.push(str_entry("reason", k.reason.as_str()));
            },
            Punishment::Timeout(t) => {
                entries.push(str_entry("type", "Timeout"));
                entries.push(i32_entry("duration", t.duration));
                entries.push(str_entry("reason", t.reason.as_str()));
            },
            Punishment::No(_) => {
                entries.push(str_entry("type", "No"));
            },
        }
        let res = Document { entries };
        proof {
            lemma_punishment_layout_fields(*self, res);
        }
        res
    }
}

} // verus!

verus! {

/// Reading back the stored form of a punishment succeeds and gives the same
/// punishment.
pub proof fn lemma_punishment_document_roundtrip(p: Punishment, d: Document, q: Punishment)
    requires
        punishment_layout(p, d),
    ensures
        punishment_readable(d),
        reads_punishment(d, q) ==> same_punishment(p, q),
{
    reveal_strlit("type");
    reveal_strlit("reason");
    reveal_strlit("duration");
    reveal_strlit("Ban");
    reveal_strlit("Kick");
    reveal_strlit("Timeout");
    reveal_strlit("No");
    assert("type"@.len() == 4 && "reason"@.len() == 6 && "duration"@.len() == 8);
    assert("type"@ != "reason"@ && "type"@ != "duration"@ && "reason"@ != "duration"@);
    assert("Ban"@.len() == 3 && "Kick"@.len() == 4 && "Timeout"@.len() == 7 && "No"@.len() == 2);
    let e = d.entries@;
    lemma_lookup_at(e, 0, "type"@);
    match p {
        Punishment::Ban(_) => {
            lemma_lookup_at(e, 1, "reason"@);
            lemma_lookup_at(e, 2, "duration"@);
        },
        Punishment::Kick(_) => {
            lemma_lookup_at(e, 1, "reason"@);
        },
        Punishment::Timeout(_) => {
            lemma_lookup_at(e, 1, "duration"@);
            lemma_lookup_at(e, 2, "reason"@);
        },
        Punishment::No(_) => {},
    }
}

} // verus!

verus! {

/// Whether `Punishment::from_document` can read `doc`.
pub fn punishment_document_readable(doc: &Document) -> (res: bool)
    ensures
        res == punishment_readable(*doc),
{
    proof {
        reveal_strlit("Ban");
        reveal_strlit("Kick");
        reveal_strlit("Timeout");
        reveal_strlit("No");
        assert("Ban"@.len() == 3 && "Kick"@.len() == 4 && "Timeout"@.len() == 7 && "No"@.len() == 2);
    }
    match doc.get_str("type") {
        Some(kind) => {
            if str_eq(kind, "Ban") || str_eq(kind, "Timeout") {
                doc.get_str("reason").is_some() && doc.get_i32("duration").is_some()
            } else if str_eq(kind, "Kick") {
                doc.get_str("reason").is_some()
            } else {
                str_eq(kind, "No")
            }
        },
        None => false,
    }
}

} // verus!

verus! {

/// What a punishment's stored form holds: the type name of its kind ("Ban",
/// "Kick", "Timeout" or "No") under `type`, and its reason and duration
/// under `reason` and `duration`.
pub proof fn lemma_punishment_layout_fields(p: Punishment, d: Document)
    requires
        punishment_layout(p, d),
    ensures
        match p {
            Punishment::Ban(b) => d.str_field("type"@) == Some("Ban"@) && d.str_field("reason"@)
                == Some(b.reason@) && d.i32_field("duration"@) == Some(b.duration),
            Punishment::Kick(k) => d.str_field("type"@) == Some("Kick"@) && d.str_field("reason"@)
                == Some(k.reason@),
            Punishment::Timeout(t) => d.str_field("type"@) == Some("Timeout"@) && d.str_field(
                "reason"@,
            ) == Some(t.reason@) && d.i32_field("duration"@) == Some(t.duration),
            Punishment::No(_) => d.str_field("type"@) == Some("No"@),
        },
{
    reveal_strlit("type");
    reveal_strlit("reason");
    reveal_strlit("duration");
    assert("type"@.len() == 4 && "reason"@.len() == 6 && "duration"@.len() == 8);
    assert("type"@ != "reason"@ && "type"@ != "duration"@ && "reason"@ != "duration"@);
    let e = d.entries@;
    lemma_lookup_at(e, 0, "type"@);
    match p {
        Punishment::Ban(_) => {
            lemma_lookup_at(e, 1, "reason"@);
            lemma_lookup_at(e, 2, "duration"@);
        },
        Punishment::Kick(_) => {
            lemma_lookup_at(e, 1, "reason"@);
        },
        Punishment::Timeout(_) => {
            lemma_lookup_at(e, 1, "duration"@);
            lemma_lookup_at(e, 2, "reason"@);
        },
        Punishment::No(_) => {},
    }
}

/// How a stored punishment is read: its type name decides its kind ("Ban" a
/// ban, "Kick" a kick, "Timeout" a timeout, "No" none), and its reason and
/// duration are the fields of those names.
pub proof fn lemma_punishment_read_by_type(d: Document, p: Punishment)
    requires
        reads_punishment(d, p),
    ensures
        d.str_field("type"@) == Some("Ban"@) ==> (p matches Punishment::Ban(b) && d.str_field(
            "reason"@,
        ) == Some(b.reason@) && d.i32_field("duration"@) == Some(b.duration)),
        d.str_field("type"@) == Some("Kick"@) ==> (p matches Punishment::Kick(k) && d.str_field(
            "reason"@,
        ) == Some(k.reason@)),
        d.str_field("type"@) == Some("Timeout"@) ==> (p matches Punishment::Timeout(t)
            && d.str_field("reason"@) == Some(t.reason@) && d.i32_field("duration"@) == Some(
            t.duration,
        )),
        d.str_field("type"@) == Some("No"@) ==> p matches Punishment::No(_),
{
    reveal_strlit("Ban");
    reveal_strlit("Kick");
    reveal_strlit("Timeout");
    reveal_strlit("No");
    assert("Ban"@.len() == 3 && "Kick"@.len() == 4 && "Timeout"@.len() == 7 && "No"@.len() == 2);
}

} // verus!
