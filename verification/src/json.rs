//! JSON trees, and reading them from text.

use crate::document::Doc;
use crate::text::same_text;
use vstd::prelude::*;

verus! {

/// A JSON document.
#[derive(Debug)]
pub enum Json {
    Null,
    Bool(bool),
    /// A number: its value where it is an unsigned 64-bit integer.
    Number(Option<u64>),
    Text(String),
    Array(Vec<Json>),
    /// The members of an object; of two with one name the later counts.
    Object(Vec<(String, Json)>),
}

/// What a JSON document says.
pub enum JsonView {
    Null,
    Bool(bool),
    Number(Option<u64>),
    Text(Seq<char>),
    Array(Seq<JsonView>),
    Object(Map<Seq<char>, JsonView>),
}

/// The members of an object by name; of two entries with one name the later counts.
pub open spec fn members_by_name(entries: Seq<(Seq<char>, JsonView)>) -> Map<Seq<char>, JsonView>
    decreases entries.len(),
{
    if entries.len() == 0 {
        Map::empty()
    } else {
        members_by_name(entries.drop_last()).insert(entries.last().0, entries.last().1)
    }
}

pub open spec fn json_view(json: Json) -> JsonView
    decreases json,
{
    match json {
        Json::Null => JsonView::Null,
        Json::Bool(b) => JsonView::Bool(b),
        Json::Number(n) => JsonView::Number(n),
        Json::Text(s) => JsonView::Text(s@),
        Json::Array(items) => JsonView::Array(items_view(items@)),
        Json::Object(members) => JsonView::Object(members_by_name(entries_view(members@))),
    }
}

pub open spec fn items_view(items: Seq<Json>) -> Seq<JsonView>
    decreases items,
{
    Seq::new(
        items.len(),
        |i: int|
            if 0 <= i < items.len() {
                json_view(items[i])
            } else {
                JsonView::Null
            },
    )
}

pub open spec fn entries_view(members: Seq<(String, Json)>) -> Seq<(Seq<char>, JsonView)>
    decreases members,
{
    Seq::new(
        members.len(),
        |i: int|
            if 0 <= i < members.len() {
                (members[i].0@, json_view(members[i].1))
            } else {
                (seq![], JsonView::Null)
            },
    )
}

impl View for Json {
    type V = JsonView;

    open spec fn view(&self) -> JsonView {
        json_view(*self)
    }
}

impl JsonView {
    /// The member `name` of an object; null where there is none, or where this is no object.
    pub open spec fn member(self, name: Seq<char>) -> JsonView {
        match self {
            JsonView::Object(members) => if members.contains_key(name) {
                members[name]
            } else {
                JsonView::Null
            },
            _ => JsonView::Null,
        }
    }

    pub open spec fn as_text(self) -> Option<Seq<char>> {
        match self {
            JsonView::Text(s) => Some(s),
            _ => None,
        }
    }

    pub open spec fn as_number(self) -> Option<u64> {
        match self {
            JsonView::Number(n) => n,
            _ => None,
        }
    }

    pub open spec fn as_flag(self) -> Option<bool> {
        match self {
            JsonView::Bool(b) => Some(b),
            _ => None,
        }
    }

    pub open spec fn as_items(self) -> Option<Seq<JsonView>> {
        match self {
            JsonView::Array(items) => Some(items),
            _ => None,
        }
    }
}

/// Declares `serde_json::Value`. Its contents are seen through [`value_tree`] only.
#[verifier::external_type_specification]
#[verifier::external_body]
pub struct ExValue(serde_json::Value);

/// Declares `serde_json::Error`, of which nothing is said.
#[verifier::external_type_specification]
#[verifier::external_body]
pub struct ExError(serde_json::Error);

/// The JSON tree that a `serde_json` value holds.
pub uninterp spec fn value_tree(value: serde_json::Value) -> JsonView;

/// The JSON tree that `serde_json` reads from a text, where it reads one.
pub uninterp spec fn json_document(text: Seq<char>) -> Option<JsonView>;

/// What a reader of JSON gives for a text: always the same tree, or none, and for the compact text
/// of a document the document's own tree.
pub open spec fn is_reading_of(result: Option<JsonView>, text: Seq<char>) -> bool {
    &&& result == json_document(text)
    &&& forall|doc: Doc|
        #[trigger] doc.text() == text && doc.is_plain(127) ==> result == Some(doc.tree())
}

/// One level of a `serde_json` value.
enum ValueParts {
    Null,
    Bool(bool),
    Number(Option<u64>),
    Text(String),
    Array(Vec<serde_json::Value>),
    Object(Vec<(String, serde_json::Value)>),
}

spec fn value_entries(entries: Seq<(String, serde_json::Value)>) -> Seq<(Seq<char>, JsonView)> {
    entries.map_values(|e: (String, serde_json::Value)| (e.0@, value_tree(e.1)))
}

spec fn parts_tree(parts: ValueParts) -> JsonView {
    match parts {
        ValueParts::Null => JsonView::Null,
        ValueParts::Bool(b) => JsonView::Bool(b),
        ValueParts::Number(n) => JsonView::Number(n),
        ValueParts::Text(s) => JsonView::Text(s@),
        ValueParts::Array(items) => JsonView::Array(
            items@.map_values(|v: serde_json::Value| value_tree(v)),
        ),
        ValueParts::Object(entries) => JsonView::Object(
            members_by_name(value_entries(entries@)),
        ),
    }
}

/// No two entries have one name.
pub open spec fn distinct_names(entries: Seq<(Seq<char>, JsonView)>) -> bool {
    forall|i: int, j: int|
        0 <= i < j < entries.len() ==> (#[trigger] entries[i]).0 != (#[trigger] entries[j]).0
}

/// Calls `serde_json::from_str` for a `serde_json::Value`. The result depends on the text alone.
/// A compact text whose nesting stays under the reader's limit is read as the document it was
/// written from, the escapes of its strings resolved: a quotation mark and a backslash after a
/// backslash, a control character by its four hexadecimal digits. Of the other texts nothing is
/// said but that the result is a function of the text.
#[verifier::external_body]
fn parse_value(text: &str) -> (value: Result<serde_json::Value, serde_json::Error>)
    ensures
        match value {
            Ok(v) => json_document(text@) == Some(value_tree(v)),
            Err(_) => json_document(text@) is None,
        },
        forall|doc: Doc|
            (#[trigger] doc.text()) == text@ && doc.is_plain(127) ==> value is Ok && value_tree(
                value->Ok_0,
            ) == doc.tree(),
{
    serde_json::from_str::<serde_json::Value>(text)
}

/// Takes a `serde_json::Value` apart by its variants, `Number::as_u64` giving the value of a
/// number and the iterator of `serde_json::Map` the members of an object, no two of which share a
/// name.
#[verifier::external_body]
fn value_parts(value: serde_json::Value) -> (parts: ValueParts)
    ensures
        parts_tree(parts) == value_tree(value),
        parts matches ValueParts::Object(entries) ==> distinct_names(value_entries(entries@)),
{
    match value {
        serde_json::Value::Null => ValueParts::Null,
        serde_json::Value::Bool(b) => ValueParts::Bool(b),
        serde_json::Value::Number(n) => ValueParts::Number(n.as_u64()),
        serde_json::Value::String(s) => ValueParts::Text(s),
        serde_json::Value::Array(items) => ValueParts::Array(items),
        serde_json::Value::Object(members) => ValueParts::Object(members.into_iter().collect()),
    }
}

/// Where no two entries have one name, each is the member of its name.
pub proof fn lemma_entry_is_member(entries: Seq<(Seq<char>, JsonView)>, i: int)
    requires
        distinct_names(entries),
        0 <= i < entries.len(),
    ensures
        members_by_name(entries).contains_key(entries[i].0),
        members_by_name(entries)[entries[i].0] == entries[i].1,
    decreases entries.len(),
{
    if i < entries.len() - 1 {
        let rest = entries.drop_last();
        assert forall|a: int, b: int| 0 <= a < b < rest.len() implies (#[trigger] rest[a]).0 != (
        #[trigger] rest[b]).0 by {
            assert(rest[a] == entries[a] && rest[b] == entries[b]);
        }
        lemma_entry_is_member(rest, i);
        assert(entries[i].0 != entries[entries.len() - 1].0);
    }
}

/// Converts a `serde_json` value, level by level.
fn json_from_value(value: serde_json::Value) -> (json: Json)
    ensures
        json@ == value_tree(value),
    decreases value_tree(value),
{
    let ghost tree = value_tree(value);
    match value_parts(value) {
        ValueParts::Null => Json::Null,
        ValueParts::Bool(b) => Json::Bool(b),
        ValueParts::Number(n) => Json::Number(n),
        ValueParts::Text(s) => Json::Text(s),
        ValueParts::Array(items) => {
            let ghost all = items@;
            let mut converted: Vec<Json> = Vec::new();
            for item in it: items
                invariant
                    it.seq() == all,
                    tree == value_tree(value),
                    tree is Array,
                    tree->Array_0 == all.map_values(|v: serde_json::Value| value_tree(v)),
                    converted@.len() == it.index(),
                    forall|j: int|
                        0 <= j < converted@.len() ==> (#[trigger] converted@[j])@ == value_tree(
                            all[j],
                        ),
            {
                assert(tree->Array_0[it.index() as int] == value_tree(item));
                assert(decreases_to!(tree => tree->Array_0[it.index() as int]));
                converted.push(json_from_value(item));
            }
            assert(items_view(converted@) =~= tree->Array_0);
            Json::Array(converted)
        },
        ValueParts::Object(entries) => {
            let ghost all = entries@;
            let mut members: Vec<(String, Json)> = Vec::new();
            for entry in it: entries
                invariant
                    it.seq() == all,
                    tree == value_tree(value),
                    tree == JsonView::Object(members_by_name(value_entries(all))),
                    distinct_names(value_entries(all)),
                    members@.len() == it.index(),
                    forall|j: int|
                        0 <= j < members@.len() ==> (#[trigger] members@[j]).0@ == all[j].0@
                            && members@[j].1@ == value_tree(all[j].1),
            {
                proof {
                    lemma_entry_is_member(value_entries(all), it.index() as int);
                    let name = entry.0@;
                    assert(value_entries(all)[it.index() as int] == (name, value_tree(entry.1)));
                    assert(decreases_to!(tree => tree->Object_0[name]));
                }
                members.push((entry.0, json_from_value(entry.1)));
            }
            assert(entries_view(members@) =~= value_entries(all));
            Json::Object(members)
        },
    }
}

/// Reads a JSON text.
pub fn read_json(text: &str) -> (json: Option<Json>)
    ensures
        match json {
            Some(j) => is_reading_of(Some(j@), text@),
            None => is_reading_of(None, text@),
        },
{
    match parse_value(text) {
        Ok(value) => Some(json_from_value(value)),
        Err(_) => None,
    }
}

/// Entries after `n` whose name is another do not change what stands under a name.
pub proof fn lemma_later_names(entries: Seq<(Seq<char>, JsonView)>, n: int, name: Seq<char>)
    requires
        0 <= n <= entries.len(),
        forall|j: int| n <= j < entries.len() ==> (#[trigger] entries[j]).0 != name,
    ensures
        members_by_name(entries).contains_key(name) == members_by_name(
            entries.take(n),
        ).contains_key(name),
        members_by_name(entries).contains_key(name) ==> members_by_name(entries)[name]
            == members_by_name(entries.take(n))[name],
    decreases entries.len() - n,
{
    if n == entries.len() {
        assert(entries.take(n) =~= entries);
    } else {
        let rest = entries.drop_last();
        assert forall|j: int| n <= j < rest.len() implies (#[trigger] rest[j]).0 != name by {
            assert(rest[j] == entries[j]);
        }
        lemma_later_names(rest, n, name);
        assert(rest.take(n) =~= entries.take(n));
        assert(entries[entries.len() - 1].0 != name);
    }
}

impl Json {
    /// The member `name` of an object.
    pub fn member(&self, name: &str) -> (member: Option<&Json>)
        ensures
            match member {
                Some(j) => j@ == self@.member(name@),
                None => self@.member(name@) == JsonView::Null,
            },
    {
        match self {
            Json::Object(members) => {
                let ghost entries = entries_view(members@);
                let mut n: usize = members.len();
                while n > 0
                    invariant
                        *self == Json::Object(*members),
                        entries == entries_view(members@),
                        n <= members@.len(),
                        forall|j: int|
                            n <= j < entries.len() ==> (#[trigger] entries[j]).0 != name@,
                    decreases n,
                {
                    if same_text(members[n - 1].0.as_str(), name) {
                        proof {
                            assert(entries[n - 1].0 == name@);
                            lemma_later_names(entries, n as int, name@);
                            assert(entries.take(n as int).last() == entries[n - 1]);
                        }
                        return Some(&members[n - 1].1);
                    }
                    assert(entries[n - 1].0 != name@);
                    n -= 1;
                }
                proof {
                    lemma_later_names(entries, 0, name@);
                }
                None
            },
            _ => None,
        }
    }

    /// The member `name`, where it is a text.
    pub fn text_member(&self, name: &str) -> (text: Option<&str>)
        ensures
            match text {
                Some(t) => self@.member(name@).as_text() == Some(t@),
                None => self@.member(name@).as_text() is None,
            },
    {
        match self.member(name) {
            Some(member) => member.as_text(),
            None => None,
        }
    }

    /// The document as a text, where it is one.
    pub fn as_text(&self) -> (text: Option<&str>)
        ensures
            match text {
                Some(t) => self@.as_text() == Some(t@),
                None => self@.as_text() is None,
            },
    {
        match self {
            Json::Text(s) => Some(s.as_str()),
            _ => None,
        }
    }

    /// The member `name`, where it is an unsigned 64-bit integer.
    pub fn number_member(&self, name: &str) -> (number: Option<u64>)
        ensures
            number == self@.member(name@).as_number(),
    {
        match self.member(name) {
            Some(member) => match member {
                Json::Number(n) => *n,
                _ => None,
            },
            None => None,
        }
    }

    /// The member `name`, where it is a truth value.
    pub fn flag_member(&self, name: &str) -> (flag: Option<bool>)
        ensures
            flag == self@.member(name@).as_flag(),
    {
        match self.member(name) {
            Some(member) => match member {
                Json::Bool(b) => Some(*b),
                _ => None,
            },
            None => None,
        }
    }

    /// The member `name`, where it is an array.
    pub fn items_member(&self, name: &str) -> (items: Option<&Vec<Json>>)
        ensures
            match items {
                Some(v) => self@.member(name@).as_items() == Some(items_view(v@)),
                None => self@.member(name@).as_items() is None,
            },
    {
        match self.member(name) {
            Some(member) => match member {
                Json::Array(items) => Some(items),
                _ => None,
            },
            None => None,
        }
    }
}

/// Of the entries of an object the last with a name counts under it, and no name without an entry
/// is a member; a document that is no object has no members.
pub proof fn law_last_entry_counts(
    entries: Seq<(Seq<char>, JsonView)>,
    last: int,
    name: Seq<char>,
)
    requires
        -1 <= last < entries.len(),
        last >= 0 ==> entries[last].0 == name,
        forall|i: int| last < i < entries.len() ==> (#[trigger] entries[i]).0 != name,
    ensures
        last >= 0 ==> JsonView::Object(members_by_name(entries)).member(name) == entries[last].1,
        last < 0 ==> JsonView::Object(members_by_name(entries)).member(name) == JsonView::Null,
        forall|doc: JsonView| !(doc is Object) ==> #[trigger] doc.member(name) == JsonView::Null,
{
    lemma_later_names(entries, last + 1, name);
    let front = entries.take(last + 1);
    if last >= 0 {
        assert(front.last() == entries[last]);
    } else {
        assert(front =~= seq![]);
    }
}

} // verus!
