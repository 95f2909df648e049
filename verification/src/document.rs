//! JSON documents as they are written: members in order, no white space.

use crate::escape::{
    escaped, escaped_text, is_unescaped, law_escaped_text_holds_no_control_character,
    needs_no_escape,
};
use crate::json::{
    distinct_names, lemma_entry_is_member, lemma_later_names, members_by_name, JsonView,
};
use crate::text::{decimal, decimal_text, lemma_decimal_digits};
use vstd::prelude::*;

verus! {

/// A document as it is written: members in their order, numbers that are unsigned integers.
pub enum Doc {
    Number(u64),
    Flag(bool),
    Text(Seq<char>),
    List(Seq<Doc>),
    Record(Seq<(Seq<char>, Doc)>),
}

/// The parts, with commas between them.
pub open spec fn comma_separated(parts: Seq<Seq<char>>) -> Seq<char>
    decreases parts.len(),
{
    if parts.len() == 0 {
        seq![]
    } else if parts.len() == 1 {
        parts[0]
    } else {
        comma_separated(parts.drop_last()) + seq![','] + parts.last()
    }
}

/// A text between quotation marks.
pub open spec fn quoted(s: Seq<char>) -> Seq<char> {
    seq!['"'] + s + seq!['"']
}

impl Doc {
    /// The text of the document without any white space.
    pub open spec fn text(self) -> Seq<char>
        decreases self,
    {
        match self {
            Doc::Number(n) => decimal(n as nat),
            Doc::Flag(b) => if b {
                "true"@
            } else {
                "false"@
            },
            Doc::Text(s) => quoted(escaped(s)),
            Doc::List(items) => seq!['['] + comma_separated(Doc::item_texts(items)) + seq![']'],
            Doc::Record(members) => seq!['{'] + comma_separated(Doc::member_texts(members))
                + seq!['}'],
        }
    }

    pub open spec fn item_texts(items: Seq<Doc>) -> Seq<Seq<char>>
        decreases items,
    {
        Seq::new(
            items.len(),
            |i: int|
                if 0 <= i < items.len() {
                    items[i].text()
                } else {
                    seq![]
                },
        )
    }

    pub open spec fn member_texts(members: Seq<(Seq<char>, Doc)>) -> Seq<Seq<char>>
        decreases members,
    {
        Seq::new(
            members.len(),
            |i: int|
                if 0 <= i < members.len() {
                    quoted(members[i].0) + seq![':'] + members[i].1.text()
                } else {
                    seq![]
                },
        )
    }

    /// What the document says.
    pub open spec fn tree(self) -> JsonView
        decreases self,
    {
        match self {
            Doc::Number(n) => JsonView::Number(Some(n)),
            Doc::Flag(b) => JsonView::Bool(b),
            Doc::Text(s) => JsonView::Text(s),
            Doc::List(items) => JsonView::Array(Doc::item_trees(items)),
            Doc::Record(members) => JsonView::Object(members_by_name(Doc::member_trees(members))),
        }
    }

    pub open spec fn item_trees(items: Seq<Doc>) -> Seq<JsonView>
        decreases items,
    {
        Seq::new(
            items.len(),
            |i: int|
                if 0 <= i < items.len() {
                    items[i].tree()
                } else {
                    JsonView::Null
                },
        )
    }

    pub open spec fn member_trees(members: Seq<(Seq<char>, Doc)>) -> Seq<(Seq<char>, JsonView)>
        decreases members,
    {
        Seq::new(
            members.len(),
            |i: int|
                if 0 <= i < members.len() {
                    (members[i].0, members[i].1.tree())
                } else {
                    (seq![], JsonView::Null)
                },
        )
    }

    /// No name of a member needs an escape, and lists and records are nested at most `depth` deep.
    pub open spec fn is_plain(self, depth: nat) -> bool
        decreases self,
    {
        match self {
            Doc::Number(_) => true,
            Doc::Flag(_) => true,
            Doc::Text(_) => true,
            Doc::List(items) => {
                &&& depth > 0
                &&& forall|i: int|
                    0 <= i < items.len() ==> (#[trigger] items[i]).is_plain((depth - 1) as nat)
            },
            Doc::Record(members) => {
                &&& depth > 0
                &&& forall|i: int|
                    #![trigger members[i]]
                    0 <= i < members.len() ==> {
                        &&& needs_no_escape(members[i].0)
                        &&& members[i].1.is_plain((depth - 1) as nat)
                    }
            },
        }
    }
}

/// Writes a record, member by member.
pub struct RecordWriter {
    pub text: String,
    pub has_members: bool,
    pub members: Ghost<Seq<(Seq<char>, Doc)>>,
}

impl RecordWriter {
    /// The text so far is that of the members so far, without the closing brace.
    pub open spec fn wf(self) -> bool {
        &&& self.text@ == seq!['{'] + comma_separated(Doc::member_texts(self.members@))
        &&& self.has_members == (self.members@.len() > 0)
    }

    pub fn new() -> (writer: Self)
        ensures
            writer.wf(),
            writer.members@ == Seq::<(Seq<char>, Doc)>::empty(),
    {
        proof {
            reveal_strlit("{");
        }
        let writer = RecordWriter {
            text: "{".to_string(),
            has_members: false,
            members: Ghost(Seq::empty()),
        };
        assert(writer.text@ =~= seq!['{'] + comma_separated(Doc::member_texts(writer.members@)));
        writer
    }

    /// Adds the member `name` with the value whose text is `value`.
    fn add_member(&mut self, name: &str, value: &str, Ghost(doc): Ghost<Doc>)
        requires
            old(self).wf(),
            value@ == doc.text(),
        ensures
            final(self).wf(),
            final(self).members@ == old(self).members@.push((name@, doc)),
    {
        proof {
            reveal_strlit(",");
            reveal_strlit("\"");
            reveal_strlit("\":");
        }
        if self.has_members {
            self.text.append(",");
        }
        self.text.append("\"");
        self.text.append(name);
        self.text.append("\":");
        self.text.append(value);
        self.has_members = true;
        let ghost before = self.members@;
        self.members = Ghost(self.members@.push((name@, doc)));
        proof {
            let texts = Doc::member_texts(self.members@);
            assert(texts.drop_last() =~= Doc::member_texts(before));
            assert(texts.last() =~= quoted(name@) + seq![':'] + doc.text());
            assert(self.text@ =~= seq!['{'] + comma_separated(texts));
        }
    }

    /// Adds a text member, with the escapes that the text needs.
    pub fn add_text(&mut self, name: &str, value: &str)
        requires
            old(self).wf(),
        ensures
            final(self).wf(),
            final(self).members@ == old(self).members@.push((name@, Doc::Text(value@))),
    {
        proof {
            reveal_strlit("\"");
        }
        let mut text = "\"".to_string();
        text.append(escaped_text(value).as_str());
        text.append("\"");
        assert(text@ =~= quoted(escaped(value@)));
        self.add_member(name, text.as_str(), Ghost(Doc::Text(value@)));
    }

    /// Adds a number member.
    pub fn add_number(&mut self, name: &str, value: u64)
        requires
            old(self).wf(),
        ensures
            final(self).wf(),
            final(self).members@ == old(self).members@.push((name@, Doc::Number(value))),
    {
        let text = decimal_text(value);
        self.add_member(name, text.as_str(), Ghost(Doc::Number(value)));
    }

    /// Adds a list member whose items were written before.
    pub fn add_list(&mut self, name: &str, items: &Vec<String>, docs: Ghost<Seq<Doc>>)
        requires
            old(self).wf(),
            items@.len() == docs@.len(),
            forall|i: int| 0 <= i < items@.len() ==> (#[trigger] items@[i])@ == docs@[i].text(),
        ensures
            final(self).wf(),
            final(self).members@ == old(self).members@.push((name@, Doc::List(docs@))),
    {
        proof {
            reveal_strlit("[");
            reveal_strlit(",");
            reveal_strlit("]");
        }
        let ghost texts = Doc::item_texts(docs@);
        let mut text = "[".to_string();
        let mut i: usize = 0;
        assert(texts.take(0) =~= seq![]);
        assert(text@ =~= seq!['['] + comma_separated(texts.take(0)));
        while i < items.len()
            invariant
                i <= items@.len(),
                items@.len() == docs@.len(),
                texts == Doc::item_texts(docs@),
                forall|i: int| 0 <= i < items@.len() ==> (#[trigger] items@[i])@ == docs@[i].text(),
                text@ == seq!['['] + comma_separated(texts.take(i as int)),
                ","@ == seq![','],
            decreases items.len() - i,
        {
            if i > 0 {
                text.append(",");
            }
            text.append(items[i].as_str());
            proof {
                assert(texts.take(i + 1).drop_last() =~= texts.take(i as int));
                assert(texts.take(i + 1).last() == items@[i as int]@);
                assert(text@ =~= seq!['['] + comma_separated(texts.take(i + 1)));
            }
            i += 1;
        }
        text.append("]");
        assert(texts.take(items@.len() as int) =~= texts);
        assert(text@ =~= Doc::List(docs@).text());
        self.add_member(name, text.as_str(), Ghost(Doc::List(docs@)));
    }

    /// The record's text.
    pub fn finish(self) -> (text: String)
        requires
            self.wf(),
        ensures
            text@ == Doc::Record(self.members@).text(),
    {
        proof {
            reveal_strlit("}");
        }
        let mut text = self.text;
        text.append("}");
        assert(text@ =~= Doc::Record(self.members@).text());
        text
    }
}

/// A text that stays on one line: no control character.
pub open spec fn is_one_line(s: Seq<char>) -> bool {
    forall|i: int| 0 <= i < s.len() ==> (#[trigger] s[i]) as u32 >= 0x20
}

proof fn lemma_one_line_separated(parts: Seq<Seq<char>>)
    requires
        forall|i: int| 0 <= i < parts.len() ==> is_one_line(#[trigger] parts[i]),
    ensures
        is_one_line(comma_separated(parts)),
    decreases parts.len(),
{
    if parts.len() > 1 {
        let front = parts.drop_last();
        assert forall|i: int| 0 <= i < front.len() implies is_one_line(#[trigger] front[i]) by {
            assert(front[i] == parts[i]);
        }
        lemma_one_line_separated(front);
        assert(is_one_line(parts[parts.len() - 1]));
    }
}

/// The text of a document stays on one line, whatever its texts hold and whatever its depth, where
/// no name needs an escape.
pub proof fn law_plain_text_is_one_line(doc: Doc, depth: nat)
    requires
        doc.is_plain(depth),
    ensures
        is_one_line(doc.text()),
    decreases doc,
{
    match doc {
        Doc::Number(n) => {
            lemma_decimal_digits(n as nat);
        },
        Doc::Flag(_) => {
            reveal_strlit("true");
            reveal_strlit("false");
        },
        Doc::Text(s) => {
            law_escaped_text_holds_no_control_character(s);
            assert forall|i: int| 0 <= i < doc.text().len() implies (#[trigger] doc.text()[i])
                as u32 >= 0x20 by {
                if 0 < i < doc.text().len() - 1 {
                    assert(doc.text()[i] == escaped(s)[i - 1]);
                }
            }
        },
        Doc::List(items) => {
            let parts = Doc::item_texts(items);
            assert forall|i: int| 0 <= i < parts.len() implies is_one_line(#[trigger] parts[i]) by {
                law_plain_text_is_one_line(items[i], (depth - 1) as nat);
            }
            lemma_one_line_separated(parts);
        },
        Doc::Record(members) => {
            let parts = Doc::member_texts(members);
            assert forall|i: int| 0 <= i < parts.len() implies is_one_line(#[trigger] parts[i]) by {
                law_plain_text_is_one_line(members[i].1, (depth - 1) as nat);
                assert(needs_no_escape(members[i].0));
                assert(forall|j: int|
                    0 <= j < members[i].0.len() ==> is_unescaped(#[trigger] members[i].0[j]));
            }
            lemma_one_line_separated(parts);
        },
    }
}

/// No two members have one name.
pub open spec fn distinct_members(members: Seq<(Seq<char>, Doc)>) -> bool {
    forall|i: int, j: int|
        0 <= i < j < members.len() ==> (#[trigger] members[i]).0 != (#[trigger] members[j]).0
}

/// A record with distinct names says of each of them what was written, and of no other name
/// anything.
pub proof fn lemma_record_members(members: Seq<(Seq<char>, Doc)>)
    requires
        distinct_members(members),
    ensures
        forall|i: int|
            0 <= i < members.len() ==> Doc::Record(members).tree().member(
                (#[trigger] members[i]).0,
            ) == members[i].1.tree(),
        forall|name: Seq<char>|
            (forall|i: int| 0 <= i < members.len() ==> (#[trigger] members[i]).0 != name)
                ==> #[trigger] Doc::Record(members).tree().member(name) == JsonView::Null,
{
    let entries = Doc::member_trees(members);
    assert(distinct_names(entries)) by {
        assert forall|i: int, j: int| 0 <= i < j < entries.len() implies (#[trigger] entries[i]).0
            != (#[trigger] entries[j]).0 by {
            assert(members[i].0 != members[j].0);
        }
    }
    assert forall|i: int| 0 <= i < members.len() implies Doc::Record(members).tree().member(
        (#[trigger] members[i]).0,
    ) == members[i].1.tree() by {
        lemma_entry_is_member(entries, i);
        assert(entries[i] == (members[i].0, members[i].1.tree()));
    }
    assert forall|name: Seq<char>|
        (forall|i: int| 0 <= i < members.len() ==> (#[trigger] members[i]).0
            != name) implies #[trigger] Doc::Record(members).tree().member(name)
        == JsonView::Null by {
        assert forall|j: int| 0 <= j < entries.len() implies (#[trigger] entries[j]).0 != name by {
            assert(members[j].0 != name);
        }
        lemma_later_names(entries, 0, name);
        assert(entries.take(0) =~= seq![]);
    }
}

/// Parts are joined by single commas, in order.
pub proof fn law_commas_stand_between_parts(a: Seq<Seq<char>>, b: Seq<Seq<char>>, part: Seq<char>)
    ensures
        a.len() > 0 && b.len() > 0 ==> comma_separated(a + b) == comma_separated(a) + seq![',']
            + comma_separated(b),
        comma_separated(seq![part]) == part,
        comma_separated(seq![]).len() == 0,
    decreases b.len(),
{
    if a.len() > 0 && b.len() > 0 {
        assert((a + b).drop_last() =~= a + b.drop_last());
        assert((a + b).last() == b.last());
        if b.len() > 1 {
            law_commas_stand_between_parts(a, b.drop_last(), part);
        } else {
            assert(a + b.drop_last() =~= a);
        }
        assert(comma_separated(a + b) =~= comma_separated(a) + seq![','] + comma_separated(b));
    }
}

} // verus!
