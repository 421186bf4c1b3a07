//! Maps from logical paths to JSON values, kept as one JSON object per file.
//!
//! Tags and sort orders are stored this way. A file that is missing,
//! unreadable or does not hold a JSON object stands for the empty map, so
//! reading never fails. An update reads the whole map, sets one key and
//! renders the whole map again.
//!
//! Parsing and rendering are `serde_json`'s. A stored value is carried
//! through as a `serde_json::Value` and never looked into.

use vstd::prelude::*;
use serde_json::Value;

verus! {

/// `serde_json::Value`: any JSON value. Nothing of its inside is visible
/// here.
#[verifier::external_type_specification]
#[verifier::external_body]
pub struct ExValue(serde_json::Value);

/// `serde_json::Error`: why parsing or rendering failed.
#[verifier::external_type_specification]
#[verifier::external_body]
pub struct ExJsonError(serde_json::Error);

/// The entries of a JSON map, by key.
pub type Entries = Map<Seq<char>, Value>;

/// What `serde_json::from_str::<Value>` makes of `text`: the value that the
/// text denotes, or nothing where the text is not JSON.
pub uninterp spec fn json_parse(text: Seq<char>) -> Option<Value>;

/// What `serde_json::to_string` makes of `value`: its JSON text, or nothing
/// where rendering fails.
pub uninterp spec fn json_text(value: Value) -> Option<Seq<char>>;

/// The entries of `value` if it is a JSON object, nothing if it is any other
/// kind of JSON value.
pub uninterp spec fn object_entries(value: Value) -> Option<Entries>;

/// Whether `value` is the JSON object without entries.
pub open spec fn is_empty_object(value: Value) -> bool {
    object_entries(value) == Some(Entries::empty())
}

/// Whether `value` is what a map with these entries answers for `key`: the
/// entry under that key, or an empty object where there is none.
pub open spec fn answers(entries: Entries, key: Seq<char>, value: Value) -> bool {
    if entries.contains_key(key) {
        value == entries[key]
    } else {
        is_empty_object(value)
    }
}

/// The entries that a parsed document stands for: those of the document if
/// it is a JSON object, and none if it is another kind of value or there is
/// no document at all.
pub open spec fn entries_of(document: Option<Value>) -> Entries {
    match document {
        Some(value) => match object_entries(value) {
            Some(entries) => entries,
            None => Entries::empty(),
        },
        None => Entries::empty(),
    }
}

/// The entries that a file with this text stands for: those of the JSON
/// object that the text denotes, and none where it denotes no object.
pub open spec fn entries_in(text: Seq<char>) -> Entries {
    entries_of(json_parse(text))
}

/// The entries that a file stands for, given its text, or nothing where the
/// file could not be read.
pub open spec fn stored(content: Option<Seq<char>>) -> Entries {
    match content {
        Some(text) => entries_in(text),
        None => Entries::empty(),
    }
}

/// What was read of a file, as a sequence of characters.
pub open spec fn read_text(content: Option<&str>) -> Option<Seq<char>> {
    match content {
        Some(text) => Some(text@),
        None => None,
    }
}

/// Whether `rendered` is what rendering some JSON object with exactly these
/// entries gives: its text, or nothing where rendering fails.
pub open spec fn renders_as(entries: Entries, rendered: Option<Seq<char>>) -> bool {
    exists|document: Value| #[trigger]
        object_entries(document) == Some(entries) && json_text(document) == rendered
}

/// Whether `text` reads back as what it was rendered from: every JSON object
/// that renders as `text` has the entries that `text` stands for.
pub open spec fn reads_back(text: Seq<char>) -> bool {
    forall|document: Value| #[trigger]
        json_text(document) == Some(text) && object_entries(document) is Some ==> object_entries(
            document,
        ) == Some(entries_in(text))
}

/// `serde_json::from_str::<Value>`. The outcome depends on the text alone:
/// the same text gives the same value, or fails, every time.
#[verifier::external_body]
fn parse_value(text: &str) -> (parsed: Result<Value, serde_json::Error>)
    ensures
        match parsed {
            Ok(value) => json_parse(text@) == Some(value),
            Err(_) => json_parse(text@) is None,
        },
{
    serde_json::from_str::<Value>(text)
}

/// `serde_json::to_string` on a `Value`. The outcome depends on the value
/// alone. Nothing is claimed of the text but that it is the value's.
#[verifier::external_body]
fn render_value(value: &Value) -> (rendered: Result<String, serde_json::Error>)
    ensures
        match rendered {
            Ok(text) => json_text(*value) == Some(text@),
            Err(_) => json_text(*value) is None,
        },
{
    serde_json::to_string(value)
}

/// `Value::Object` of `serde_json::Map::new()`: a JSON object without
/// entries.
#[verifier::external_body]
fn empty_object() -> (value: Value)
    ensures
        is_empty_object(value),
{
    Value::Object(serde_json::Map::new())
}

/// `Value::is_object`: whether the value is a JSON object.
#[verifier::external_body]
fn is_object(value: &Value) -> (answer: bool)
    ensures
        answer == object_entries(*value) is Some,
{
    value.is_object()
}

/// `Value::get` with a string key, and a clone of what it finds: the entry
/// under `key` if the value is an object that has one, else nothing.
#[verifier::external_body]
fn entry_of(value: &Value, key: &str) -> (entry: Option<Value>)
    ensures
        entry == match object_entries(*value) {
            Some(entries) => if entries.contains_key(key@) {
                Some(entries[key@])
            } else {
                None
            },
            None => None,
        },
{
    value.get(key).cloned()
}

/// `serde_json::Map::insert` on the map of an object: the entry under `key`
/// is set to `entry`, whether or not there was one, and the other entries
/// stay. A value that is no object is left as it is.
#[verifier::external_body]
fn set_entry(value: &mut Value, key: String, entry: Value)
    ensures
        object_entries(*final(value)) == match object_entries(*old(value)) {
            Some(entries) => Some(entries.insert(key@, entry)),
            None => None,
        },
{
    if let Value::Object(map) = value {
        map.insert(key, entry);
    }
}

/// The message of a `serde_json::Error`, as its `Display` gives it.
#[verifier::external_body]
fn error_text(error: &serde_json::Error) -> (message: String) {
    error.to_string()
}

/// A map from keys to JSON values, held as one JSON object.
pub struct JsonMap {
    document: Value,
}

impl View for JsonMap {
    type V = Entries;

    closed spec fn view(&self) -> Entries {
        object_entries(self.document)->0
    }
}

impl JsonMap {
    #[verifier::type_invariant]
    spec fn holds_an_object(self) -> bool {
        object_entries(self.document) is Some
    }

    /// What rendering this map gives: its JSON text, or nothing where
    /// rendering fails.
    pub closed spec fn rendering(&self) -> Option<Seq<char>> {
        json_text(self.document)
    }

    /// The map without entries.
    pub fn new() -> (map: JsonMap)
        ensures
            map@ == Entries::empty(),
    {
        JsonMap { document: empty_object() }
    }

    /// The map that a parsed document stands for, or the empty map where
    /// parsing gave no document.
    pub fn from_document(document: Option<Value>) -> (map: JsonMap)
        ensures
            map@ == entries_of(document),
    {
        match document {
            Some(value) => {
                if is_object(&value) {
                    JsonMap { document: value }
                } else {
                    JsonMap::new()
                }
            },
            None => JsonMap::new(),
        }
    }

    /// The map that `text` stands for.
    pub fn parse(text: &str) -> (map: JsonMap)
        ensures
            map@ == entries_in(text@),
    {
        match parse_value(text) {
            Ok(value) => JsonMap::from_document(Some(value)),
            Err(_) => JsonMap::from_document(None),
        }
    }

    /// The map that a file stands for, given its text, or nothing where the
    /// file could not be read.
    pub fn load(content: Option<&str>) -> (map: JsonMap)
        ensures
            map@ == stored(read_text(content)),
    {
        match content {
            Some(text) => JsonMap::parse(text),
            None => JsonMap::new(),
        }
    }

    /// The value under `key`, or an empty object where the map has none.
    pub fn get(&self, key: &str) -> (value: Value)
        ensures
            answers(self@, key@, value),
    {
        proof {
            use_type_invariant(self);
        }
        match entry_of(&self.document, key) {
            Some(value) => value,
            None => empty_object(),
        }
    }

    /// Sets the value under `key`, replacing the one that was there if there
    /// was one. The other entries stay as they are.
    pub fn insert(&mut self, key: String, value: Value)
        ensures
            final(self)@ == old(self)@.insert(key@, value),
    {
        proof {
            use_type_invariant(&*self);
        }
        // The entry is set on the document while the map holds an empty one,
        // so that the map holds an object at every point.
        let mut document = empty_object();
        core::mem::swap(&mut self.document, &mut document);
        set_entry(&mut document, key, value);
        self.document = document;
    }

    /// The JSON text of the whole map, or the reason why it cannot be
    /// rendered. The text is what rendering a JSON object with exactly the
    /// entries of this map gives.
    pub fn render(&self) -> (rendered: Result<String, String>)
        ensures
            match rendered {
                Ok(text) => self.rendering() == Some(text@),
                Err(_) => self.rendering() is None,
            },
            renders_as(self@, self.rendering()),
    {
        proof {
            use_type_invariant(self);
            self.lemma_rendering();
        }
        match render_value(&self.document) {
            Ok(text) => Ok(text),
            Err(error) => Err(error_text(&error)),
        }
    }

    proof fn lemma_rendering(&self)
        requires
            self.holds_an_object(),
        ensures
            renders_as(self@, self.rendering()),
    {
    }
}

/// The value stored under `key` in a file, given the file's text, or nothing
/// where the file could not be read. Where the file stands for no entry under
/// that key, the answer is an empty object.
pub fn lookup(content: Option<&str>, key: &str) -> (value: Value)
    ensures
        answers(stored(read_text(content)), key@, value),
{
    let map = JsonMap::load(content);
    map.get(key)
}

/// The new text of a file after `value` was stored under `key`, given the
/// file's text so far, or nothing where the file could not be read. The text
/// is that of the whole map: the entries that the file stood for, with the
/// one under `key` set. Where the map cannot be rendered, the reason is
/// returned and there is nothing to write.
pub fn update(content: Option<&str>, key: String, value: Value) -> (rendered: Result<
    String,
    String,
>)
    ensures
        match rendered {
            Ok(text) => renders_as(
                stored(read_text(content)).insert(key@, value),
                Some(text@),
            ),
            Err(_) => renders_as(stored(read_text(content)).insert(key@, value), None),
        },
{
    let mut map = JsonMap::load(content);
    map.insert(key, value);
    map.render()
}

/// A key that was never set answers with an empty object, and so does every
/// key of a file that could not be read.
pub proof fn lemma_unset_key_answers_empty(entries: Entries, key: Seq<char>, value: Value)
    requires
        !entries.contains_key(key),
    ensures
        answers(entries, key, value) <==> is_empty_object(value),
        answers(stored(None), key, value) <==> is_empty_object(value),
{
}

/// After a value was set under a key, that key answers with exactly that
/// value, and every other key answers as it did before.
pub proof fn lemma_set_then_get(
    entries: Entries,
    key: Seq<char>,
    value: Value,
    other: Seq<char>,
    answer: Value,
)
    ensures
        answers(entries.insert(key, value), key, answer) <==> answer == value,
        other != key ==> (answers(entries.insert(key, value), other, answer) <==> answers(
            entries,
            other,
            answer,
        )),
{
}

/// Of two values set under one key, one after the other, the second stays:
/// the map is as if the first had never been set.
pub proof fn lemma_last_set_wins(entries: Entries, key: Seq<char>, first: Value, second: Value)
    ensures
        entries.insert(key, first).insert(key, second) == entries.insert(key, second),
{
    assert(entries.insert(key, first).insert(key, second) =~= entries.insert(key, second));
}

/// A file that was updated, and whose new text reads back as it was
/// rendered, stands for the entries it stood for before with the one under
/// the key set: a lookup of that key gives the value exactly, and the other
/// keys are as they were.
pub proof fn lemma_update_then_lookup(
    before: Option<Seq<char>>,
    key: Seq<char>,
    value: Value,
    text: Seq<char>,
)
    requires
        renders_as(stored(before).insert(key, value), Some(text)),
        reads_back(text),
    ensures
        stored(Some(text)) == stored(before).insert(key, value),
        forall|answer: Value| answers(stored(Some(text)), key, answer) <==> answer == value,
        forall|other: Seq<char>, answer: Value|
            other != key ==> (answers(stored(Some(text)), other, answer) <==> answers(
                stored(before),
                other,
                answer,
            )),
{
    let entries = stored(before).insert(key, value);
    let document = choose|document: Value| #[trigger]
        object_entries(document) == Some(entries) && json_text(document) == Some(text);
    assert(object_entries(document) == Some(entries_in(text)));
}

/// Two updates of one key, the second reading what the first wrote, leave the
/// second value in the file, given that both texts read back as rendered.
pub proof fn lemma_second_update_wins(
    before: Option<Seq<char>>,
    key: Seq<char>,
    first: Value,
    second: Value,
    first_text: Seq<char>,
    second_text: Seq<char>,
)
    requires
        renders_as(stored(before).insert(key, first), Some(first_text)),
        reads_back(first_text),
        renders_as(stored(Some(first_text)).insert(key, second), Some(second_text)),
        reads_back(second_text),
    ensures
        stored(Some(second_text)) == stored(before).insert(key, second),
        forall|answer: Value| answers(stored(Some(second_text)), key, answer) <==> answer == second,
{
    lemma_update_then_lookup(before, key, first, first_text);
    lemma_update_then_lookup(Some(first_text), key, second, second_text);
    lemma_last_set_wins(stored(before), key, first, second);
}

/// An update works on the content it was handed. Of two updates of
/// different keys that were both handed the content from before either, the
/// one written last leaves the other's key as it was before: the other
/// update is lost.
pub proof fn lemma_stale_update_loses_the_other(
    before: Option<Seq<char>>,
    key: Seq<char>,
    value: Value,
    text: Seq<char>,
    other: Seq<char>,
)
    requires
        renders_as(stored(before).insert(key, value), Some(text)),
        reads_back(text),
        other != key,
    ensures
        stored(Some(text)).contains_key(other) == stored(before).contains_key(other),
        stored(before).contains_key(other) ==> stored(Some(text))[other] == stored(before)[other],
{
    lemma_update_then_lookup(before, key, value, text);
}

} // verus!
