//! The stored form of rules and settings: documents of named fields, as the
//! database keeps them. A key names at most one field in the documents this
//! crate writes; reading takes the first field with the key.

use vstd::prelude::*;
use crate::utils::text::str_eq;

verus! {

/// A field value.
#[derive(Debug)]
pub enum Bson {
    String(String),
    Boolean(bool),
    Int32(i32),
    ObjectId([u8; 12]),
    Document(Document),
}

/// A named value.
#[derive(Debug)]
pub struct Field {
    pub key: String,
    pub value: Bson,
}

/// Named fields, in the order they were written.
#[derive(Debug)]
pub struct Document {
    pub entries: Vec<Field>,
}

/// The value of the first field named `key`.
pub open spec fn lookup_in(entries: Seq<Field>, key: Seq<char>) -> Option<Bson>
    decreases entries.len(),
{
    if entries.len() == 0 {
        None
    } else if entries[0].key@ == key {
        Some(entries[0].value)
    } else {
        lookup_in(entries.drop_first(), key)
    }
}

/// The first field named `key` is at index `i`.
pub proof fn lemma_lookup_at(e: Seq<Field>, i: int, key: Seq<char>)
    requires
        0 <= i < e.len(),
        e[i].key@ == key,
        forall|j: int| 0 <= j < i ==> e[j].key@ != key,
    ensures
        lookup_in(e, key) == Some(e[i].value),
    decreases i,
{
    if i > 0 {
        assert forall|j: int| 0 <= j < i - 1 implies e.drop_first()[j].key@ != key by {
            assert(e.drop_first()[j] == e[j + 1]);
        }
        lemma_lookup_at(e.drop_first(), i - 1, key);
    }
}

/// A field put anywhere leaves the lookup of every other key as it was.
pub proof fn lemma_lookup_insert_other(e: Seq<Field>, k: int, f: Field, key: Seq<char>)
    requires
        0 <= k <= e.len(),
        f.key@ != key,
    ensures
        lookup_in(e.insert(k, f), key) == lookup_in(e, key),
    decreases k,
{
    let e2 = e.insert(k, f);
    if k == 0 {
        assert(e2.drop_first() =~= e);
    } else {
        assert(e2[0] == e[0]);
        assert(e2.drop_first() =~= e.drop_first().insert(k - 1, f));
        lemma_lookup_insert_other(e.drop_first(), k - 1, f, key);
    }
}

/// A field put anywhere, under a key no other field has, is found under it.
pub proof fn lemma_lookup_insert_new(e: Seq<Field>, k: int, f: Field)
    requires
        0 <= k <= e.len(),
        forall|j: int| 0 <= j < e.len() ==> e[j].key@ != f.key@,
    ensures
        lookup_in(e.insert(k, f), f.key@) == Some(f.value),
    decreases k,
{
    let e2 = e.insert(k, f);
    if k == 0 {
        assert(e2[0] == f);
    } else {
        assert(e2[0] == e[0]);
        assert(e2.drop_first() =~= e.drop_first().insert(k - 1, f));
        assert forall|j: int| 0 <= j < e.drop_first().len() implies e.drop_first()[j].key@
            != f.key@ by {
            assert(e.drop_first()[j] == e[j + 1]);
        }
        lemma_lookup_insert_new(e.drop_first(), k - 1, f);
    }
}

impl Document {
    pub open spec fn lookup(&self, key: Seq<char>) -> Option<Bson> {
        lookup_in(self.entries@, key)
    }

    /// The text in the field `key`, where it holds a text.
    pub open spec fn str_field(&self, key: Seq<char>) -> Option<Seq<char>> {
        match self.lookup(key) {
            Some(Bson::String(s)) => Some(s@),
            _ => None,
        }
    }

    pub open spec fn bool_field(&self, key: Seq<char>) -> Option<bool> {
        match self.lookup(key) {
            Some(Bson::Boolean(b)) => Some(b),
            _ => None,
        }
    }

    pub open spec fn i32_field(&self, key: Seq<char>) -> Option<i32> {
        match self.lookup(key) {
            Some(Bson::Int32(n)) => Some(n),
            _ => None,
        }
    }

    pub open spec fn object_id_field(&self, key: Seq<char>) -> Option<[u8; 12]> {
        match self.lookup(key) {
            Some(Bson::ObjectId(id)) => Some(id),
            _ => None,
        }
    }

    pub open spec fn document_field(&self, key: Seq<char>) -> Option<Document> {
        match self.lookup(key) {
            Some(Bson::Document(d)) => Some(d),
            _ => None,
        }
    }

    /// The value of the first field named `key`.
    pub fn get(&self, key: &str) -> (res: Option<&Bson>)
        ensures
            match res {
                Some(v) => self.lookup(key@) == Some(*v),
                None => self.lookup(key@) is None,
            },
    {
        let mut i: usize = 0;
        assert(self.entries@.skip(0) =~= self.entries@);
        while i < self.entries.len()
            invariant
                i <= self.entries@.len(),
                self.lookup(key@) == lookup_in(self.entries@.skip(i as int), key@),
            decreases self.entries.len() - i,
        {
            assert(self.entries@.skip(i as int).drop_first() =~= self.entries@.skip(i + 1));
            if str_eq(self.entries[i].key.as_str(), key) {
                return Some(&self.entries[i].value);
            }
            i = i + 1;
        }
        None
    }

    pub fn get_str(&self, key: &str) -> (res: Option<&str>)
        ensures
            match res {
                Some(s) => self.str_field(key@) == Some(s@),
                None => self.str_field(key@) is None,
            },
    {
        match self.get(key) {
            Some(Bson::String(s)) => Some(s.as_str()),
            _ => None,
        }
    }

    pub fn get_bool(&self, key: &str) -> (res: Option<bool>)
        ensures
            res == self.bool_field(key@),
    {
        match self.get(key) {
            Some(Bson::Boolean(b)) => Some(*b),
            _ => None,
        }
    }

    pub fn get_i32(&self, key: &str) -> (res: Option<i32>)
        ensures
            res == self.i32_field(key@),
    {
        match self.get(key) {
            Some(Bson::Int32(n)) => Some(*n),
            _ => None,
        }
    }

    pub fn get_object_id(&self, key: &str) -> (res: Option<[u8; 12]>)
        ensures
            res == self.object_id_field(key@),
    {
        match self.get(key) {
            Some(Bson::ObjectId(id)) => Some(*id),
            _ => None,
        }
    }

    pub fn get_document(&self, key: &str) -> (res: Option<&Document>)
        ensures
            match res {
                Some(d) => self.document_field(key@) == Some(*d),
                None => self.document_field(key@) is None,
            },
    {
        match self.get(key) {
            Some(Bson::Document(d)) => Some(d),
            _ => None,
        }
    }
}

} // verus!

verus! {

/// `f` is the text field `key` holding `s`.
pub open spec fn is_str_field(f: Field, key: Seq<char>, s: Seq<char>) -> bool {
    &&& f.key@ == key
    &&& f.value matches Bson::String(t)
    &&& t@ == s
}

pub open spec fn is_bool_field(f: Field, key: Seq<char>, b: bool) -> bool {
    f.key@ == key && f.value == Bson::Boolean(b)
}

pub open spec fn is_i32_field(f: Field, key: Seq<char>, n: i32) -> bool {
    f.key@ == key && f.value == Bson::Int32(n)
}

pub fn str_entry(key: &str, value: &str) -> (res: Field)
    ensures
        is_str_field(res, key@, value@),
{
    Field { key: key.to_string(), value: Bson::String(value.to_string()) }
}

pub fn bool_entry(key: &str, value: bool) -> (res: Field)
    ensures
        is_bool_field(res, key@, value),
{
    Field { key: key.to_string(), value: Bson::Boolean(value) }
}

pub fn i32_entry(key: &str, value: i32) -> (res: Field)
    ensures
        is_i32_field(res, key@, value),
{
    Field { key: key.to_string(), value: Bson::Int32(value) }
}

pub fn document_entry(key: &str, value: Document) -> (res: Field)
    ensures
        res.key@ == key@,
        res.value == Bson::Document(value),
{
    Field { key: key.to_string(), value: Bson::Document(value) }
}

} // verus!
