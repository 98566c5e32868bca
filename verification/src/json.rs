//! A JSON document held as plain data.
//!
//! [`Json`] is the executable tree, [`JsonDoc`] its mathematical view. Numbers
//! are kept as the text of their literals, so a document holds nothing but
//! booleans, characters and sequences.

use vstd::prelude::*;

verus! {

/// The mathematical model of a JSON document.
pub enum JsonDoc {
    Null,
    Bool(bool),
    /// A number, as the text of its literal.
    Number(Seq<char>),
    Str(Seq<char>),
    Array(Seq<JsonDoc>),
    /// The entries of an object, in the order in which they are held.
    Object(Seq<(Seq<char>, JsonDoc)>),
}

/// `index` is the position of the first entry of `entries` whose key is `key`.
pub open spec fn is_first_with_key(
    entries: Seq<(Seq<char>, JsonDoc)>,
    key: Seq<char>,
    index: int,
) -> bool {
    &&& 0 <= index < entries.len()
    &&& entries[index].0 == key
    &&& forall|earlier: int| 0 <= earlier < index ==> (#[trigger] entries[earlier]).0 != key
}

/// The value of the first entry of `entries` whose key is `key`, if there is one.
pub open spec fn first_with_key(entries: Seq<(Seq<char>, JsonDoc)>, key: Seq<char>) -> Option<
    JsonDoc,
> {
    if exists|index: int| is_first_with_key(entries, key, index) {
        Some(entries[choose|index: int| is_first_with_key(entries, key, index)].1)
    } else {
        None
    }
}

impl JsonDoc {
    /// The member `key` of an object; `None` for a missing key and for anything
    /// that is not an object.
    pub open spec fn member(self, key: Seq<char>) -> Option<JsonDoc> {
        match self {
            JsonDoc::Object(entries) => first_with_key(entries, key),
            _ => None,
        }
    }

    /// The element `index` of an array; `None` past its end and for anything
    /// that is not an array.
    pub open spec fn element(self, index: int) -> Option<JsonDoc> {
        match self {
            JsonDoc::Array(items) => if 0 <= index < items.len() {
                Some(items[index])
            } else {
                None
            },
            _ => None,
        }
    }

    /// The characters of a string; `None` for anything that is not a string.
    pub open spec fn text(self) -> Option<Seq<char>> {
        match self {
            JsonDoc::Str(text) => Some(text),
            _ => None,
        }
    }
}

/// Where an entry is known to be the first with its key, `first_with_key` is its value.
pub proof fn lemma_first_with_key(entries: Seq<(Seq<char>, JsonDoc)>, key: Seq<char>, index: int)
    requires
        is_first_with_key(entries, key, index),
    ensures
        first_with_key(entries, key) == Some(entries[index].1),
{
    let chosen = choose|i: int| is_first_with_key(entries, key, i);
    assert(is_first_with_key(entries, key, chosen));
    if chosen < index {
        assert(entries[chosen].0 != key);
    }
    if index < chosen {
        assert(entries[index].0 != key);
    }
}

/// Where no entry has the key, `first_with_key` is `None`.
pub proof fn lemma_no_entry_with_key(entries: Seq<(Seq<char>, JsonDoc)>, key: Seq<char>)
    requires
        forall|index: int| 0 <= index < entries.len() ==> (#[trigger] entries[index]).0 != key,
    ensures
        first_with_key(entries, key) is None,
{
    if exists|index: int| is_first_with_key(entries, key, index) {
        let chosen = choose|i: int| is_first_with_key(entries, key, i);
        assert(entries[chosen].0 != key);
    }
}

/// A JSON document.
#[derive(Debug)]
pub enum Json {
    Null,
    Bool(bool),
    /// A number, as the text of its literal.
    Number(String),
    Str(String),
    Array(Vec<Json>),
    /// The entries of an object, in the order in which they are held.
    Object(Vec<(String, Json)>),
}

impl Json {
    /// The document that this tree holds.
    pub open spec fn doc(self) -> JsonDoc
        decreases self,
    {
        match self {
            Json::Null => JsonDoc::Null,
            Json::Bool(b) => JsonDoc::Bool(b),
            Json::Number(text) => JsonDoc::Number(text@),
            Json::Str(text) => JsonDoc::Str(text@),
            Json::Array(items) => JsonDoc::Array(
                Seq::new(
                    items@.len(),
                    |i: int|
                        if 0 <= i < items@.len() {
                            items@[i].doc()
                        } else {
                            JsonDoc::Null
                        },
                ),
            ),
            Json::Object(entries) => JsonDoc::Object(
                Seq::new(
                    entries@.len(),
                    |i: int|
                        if 0 <= i < entries@.len() {
                            (entries@[i].0@, entries@[i].1.doc())
                        } else {
                            (Seq::empty(), JsonDoc::Null)
                        },
                ),
            ),
        }
    }
}

impl View for Json {
    type V = JsonDoc;

    open spec fn view(&self) -> JsonDoc {
        self.doc()
    }
}

impl Json {
    /// The member `key` of an object.
    pub fn get(&self, key: &str) -> (found: Option<&Json>)
        ensures
            match found {
                Some(value) => self@.member(key@) == Some(value@),
                None => self@.member(key@) is None,
            },
    {
        match self {
            Json::Object(entries) => {
                let wanted = key.to_owned();
                let ghost held = self@->Object_0;
                assert(*self == Json::Object(*entries));
                assert(self.view() == Json::Object(*entries).view());
                assert(Json::Object(*entries).view() is Object);
                assert(Json::Object(*entries).view()->Object_0.len() == entries@.len());
                assert(held.len() == entries@.len());
                let mut index: usize = 0;
                while index < entries.len()
                    invariant
                        index <= entries.len(),
                        wanted@ == key@,
                        self@ == JsonDoc::Object(held),
                        held.len() == entries@.len(),
                        forall|i: int|
                            0 <= i < entries@.len() ==> #[trigger] held[i] == (
                                entries@[i].0@,
                                entries@[i].1@,
                            ),
                        forall|i: int| 0 <= i < index ==> (#[trigger] held[i]).0 != key@,
                    decreases entries.len() - index,
                {
                    if entries[index].0 == wanted {
                        proof {
                            lemma_first_with_key(held, key@, index as int);
                        }
                        return Some(&entries[index].1);
                    }
                    index += 1;
                }
                proof {
                    lemma_no_entry_with_key(held, key@);
                }
                None
            },
            _ => None,
        }
    }

    /// The element `index` of an array.
    pub fn at(&self, index: usize) -> (found: Option<&Json>)
        ensures
            match found {
                Some(value) => self@.element(index as int) == Some(value@),
                None => self@.element(index as int) is None,
            },
    {
        match self {
            Json::Array(items) => if index < items.len() {
                Some(&items[index])
            } else {
                None
            },
            _ => None,
        }
    }

    /// The characters of a string.
    pub fn as_str(&self) -> (found: Option<&str>)
        ensures
            match found {
                Some(text) => self@.text() == Some(text@),
                None => self@.text() is None,
            },
    {
        match self {
            Json::Str(text) => Some(text.as_str()),
            _ => None,
        }
    }
}

} // verus!
