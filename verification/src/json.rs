//! JSON documents as values, and how their parts are read.

use vstd::prelude::*;
use vstd::string::*;

use crate::text;

verus! {

/// A number of a document: the integer it is, where it is one that fits, and
/// the number as it is written.
#[derive(Debug, Clone, PartialEq, Eq)]
pub struct JsonNumber {
    pub integer: Option<i64>,
    pub text: String,
}

/// A JSON document.
#[derive(Debug, PartialEq, Eq)]
pub enum Json {
    Null,
    Bool(bool),
    Number(JsonNumber),
    Text(String),
    Array(Vec<Json>),
    Object(Vec<Member>),
}

/// One member of an object.
#[derive(Debug, PartialEq, Eq)]
pub struct Member {
    pub name: String,
    pub value: Json,
}

/// What a JSON document says.
pub enum Document {
    Null,
    Bool(bool),
    Number { integer: Option<i64>, written: Seq<char> },
    Text(Seq<char>),
    Array(Seq<Document>),
    Object(Seq<(Seq<char>, Document)>),
}

impl Json {
    /// What the document says.
    pub open spec fn view(&self) -> Document
        decreases self,
    {
        match self {
            Json::Null => Document::Null,
            Json::Bool(value) => Document::Bool(*value),
            Json::Number(number) => Document::Number {
                integer: number.integer,
                written: number.text@,
            },
            Json::Text(value) => Document::Text(value@),
            Json::Array(items) => Document::Array(
                Seq::new(
                    items@.len(),
                    |i: int|
                        if 0 <= i < items@.len() {
                            items@[i].view()
                        } else {
                            Document::Null
                        },
                ),
            ),
            Json::Object(members) => Document::Object(
                Seq::new(
                    members@.len(),
                    |i: int|
                        if 0 <= i < members@.len() {
                            (members@[i].name@, members@[i].value.view())
                        } else {
                            (seq![], Document::Null)
                        },
                ),
            ),
        }
    }
}

/// Where the first member called `name` stands, at or behind `from`.
pub open spec fn member_at(members: Seq<(Seq<char>, Document)>, name: Seq<char>, from: int) -> Option<
    int,
>
    decreases members.len() - from,
{
    if from < 0 || from >= members.len() {
        None
    } else if members[from].0 == name {
        Some(from)
    } else {
        member_at(members, name, from + 1)
    }
}

impl Document {
    /// The member called `name`, of an object that has one.
    pub open spec fn member(self, name: Seq<char>) -> Option<Document> {
        match self {
            Document::Object(members) => match member_at(members, name, 0) {
                Some(i) => Some(members[i].1),
                None => None,
            },
            _ => None,
        }
    }

    /// The text this document is, if it is one.
    pub open spec fn text(self) -> Option<Seq<char>> {
        match self {
            Document::Text(value) => Some(value),
            _ => None,
        }
    }

    /// The integer this document is, if it is one that fits.
    pub open spec fn integer(self) -> Option<i64> {
        match self {
            Document::Number { integer, .. } => integer,
            _ => None,
        }
    }

    /// The truth value this document is, if it is one.
    pub open spec fn truth(self) -> Option<bool> {
        match self {
            Document::Bool(value) => Some(value),
            _ => None,
        }
    }

    /// The number this document is, as it is written, if it is one.
    pub open spec fn number(self) -> Option<Seq<char>> {
        match self {
            Document::Number { written, .. } => Some(written),
            _ => None,
        }
    }

    /// The text of the member called `name`, if there is one and it is a text.
    pub open spec fn text_of(self, name: Seq<char>) -> Option<Seq<char>> {
        match self.member(name) {
            Some(value) => value.text(),
            None => None,
        }
    }

    /// The integer of the member called `name`, if there is one and it is one.
    pub open spec fn integer_of(self, name: Seq<char>) -> Option<i64> {
        match self.member(name) {
            Some(value) => value.integer(),
            None => None,
        }
    }
}

/// The texts among `items`, in order.
pub open spec fn texts(items: Seq<Document>) -> Seq<Seq<char>>
    decreases items.len(),
{
    if items.len() == 0 {
        seq![]
    } else {
        match items.last().text() {
            Some(value) => texts(items.drop_last()).push(value),
            None => texts(items.drop_last()),
        }
    }
}

impl Json {
    /// The index of the first member called `name`, of an object that has one.
    fn index_of(members: &Vec<Member>, name: &str) -> (r: Option<usize>)
        ensures
            ({
                let seen = Seq::new(
                    members@.len(),
                    |i: int| (members@[i].name@, members@[i].value@),
                );
                match r {
                    Some(i) => i < members@.len() && member_at(seen, name@, 0) == Some(i as int),
                    None => member_at(seen, name@, 0) is None,
                }
            }),
    {
        let ghost seen = Seq::new(
            members@.len(),
            |i: int| (members@[i].name@, members@[i].value@),
        );
        let n: usize = members.len();
        let mut i: usize = 0;
        while i < n
            invariant
                i <= n,
                n == members@.len(),
                seen == Seq::new(
                    members@.len(),
                    |i: int| (members@[i].name@, members@[i].value@),
                ),
                member_at(seen, name@, 0) == member_at(seen, name@, i as int),
            decreases n - i,
        {
            if text::same(members[i].name.as_str(), name) {
                return Some(i);
            }
            i += 1;
        }
        None
    }

    /// The member called `name`, of an object that has one.
    pub fn get(&self, name: &str) -> (r: Option<&Json>)
        ensures
            match r {
                Some(value) => self@.member(name@) == Some(value@),
                None => self@.member(name@) is None,
            },
    {
        match self {
            Json::Object(members) => {
                let found = Self::index_of(members, name);
                proof {
                    let seen = Seq::new(
                        members@.len(),
                        |i: int| (members@[i].name@, members@[i].value@),
                    );
                    assert(self@ == Document::Object(seen)) by {
                        assert(self@->Object_0 =~= seen);
                    }
                }
                match found {
                    Some(i) => Some(&members[i].value),
                    None => None,
                }
            },
            _ => None,
        }
    }

    /// The same, taking the member out of the document.
    pub fn into_member(self, name: &str) -> (r: Option<Json>)
        ensures
            match r {
                Some(value) => self@.member(name@) == Some(value@),
                None => self@.member(name@) is None,
            },
    {
        let ghost whole = self@;
        match self {
            Json::Object(members) => {
                let found = Self::index_of(&members, name);
                proof {
                    let seen = Seq::new(
                        members@.len(),
                        |i: int| (members@[i].name@, members@[i].value@),
                    );
                    assert(whole == Document::Object(seen)) by {
                        assert(whole->Object_0 =~= seen);
                    }
                }
                match found {
                    Some(i) => {
                        let mut rest = members;
                        let taken = rest.swap_remove(i);
                        Some(taken.value)
                    },
                    None => None,
                }
            },
            _ => None,
        }
    }

    /// The text this document is, if it is one.
    pub fn as_text(&self) -> (r: Option<&String>)
        ensures
            match r {
                Some(value) => self@.text() == Some(value@),
                None => self@.text() is None,
            },
    {
        match self {
            Json::Text(value) => Some(value),
            _ => None,
        }
    }

    /// The integer this document is, if it is one that fits.
    pub fn as_integer(&self) -> (r: Option<i64>)
        ensures
            r == self@.integer(),
    {
        match self {
            Json::Number(number) => number.integer,
            _ => None,
        }
    }

    /// The truth value this document is, if it is one.
    pub fn as_truth(&self) -> (r: Option<bool>)
        ensures
            r == self@.truth(),
    {
        match self {
            Json::Bool(value) => Some(*value),
            _ => None,
        }
    }

    /// The number this document is, as it is written, if it is one.
    pub fn as_number(&self) -> (r: Option<&String>)
        ensures
            match r {
                Some(value) => self@.number() == Some(value@),
                None => self@.number() is None,
            },
    {
        match self {
            Json::Number(number) => Some(&number.text),
            _ => None,
        }
    }

    /// The texts among the items of an array, in order; nothing for any other
    /// document.
    pub fn text_items(&self) -> (r: Vec<String>)
        ensures
            text::views(r@) == (match self@ {
                Document::Array(items) => texts(items),
                _ => seq![],
            }),
    {
        let mut out: Vec<String> = Vec::new();
        if let Json::Array(items) = self {
            let ghost seen = self@->Array_0;
            let n: usize = items.len();
            let mut i: usize = 0;
            assert(text::views(out@) =~= texts(seen.take(0)));
            while i < n
                invariant
                    i <= n,
                    n == items@.len(),
                    seen.len() == n,
                    forall|j: int| 0 <= j < n ==> #[trigger] seen[j] == items@[j]@,
                    text::views(out@) == texts(seen.take(i as int)),
                decreases n - i,
            {
                proof {
                    assert(seen.take(i + 1).drop_last() =~= seen.take(i as int));
                    assert(seen.take(i + 1).last() == seen[i as int]);
                }
                let ghost before = out@;
                if let Some(value) = items[i].as_text() {
                    out.push(value.clone());
                    assert(text::views(out@) =~= text::views(before).push(value@));
                }
                i += 1;
            }
            assert(seen.take(n as int) =~= seen);
        } else {
            assert(text::views(out@) =~= seq![]);
        }
        out
    }
}

/// The declaration of `serde_json::Value`.
#[verifier::external_type_specification]
#[verifier::external_body]
pub struct ExValue(serde_json::Value);

/// What a `serde_json::Value` holds, as the tree it is: each array's items in
/// their order, each object's members in the order its map walks them, and of
/// each number `as_i64` and how it is written.
pub uninterp spec fn held(value: serde_json::Value) -> Document;

/// What `serde_json` reads a text as: a document, or the sentence that says why
/// it is none.
pub uninterp spec fn reading_of(text: Seq<char>) -> Result<Document, Seq<char>>;

/// `serde_json::from_str` into a `serde_json::Value`. What comes back is a
/// function of the text alone: on success the value, as the document that the
/// text is read as, and on failure the error's `Display`.
#[verifier::external_body]
fn value_of_text(text: &str) -> (r: Result<serde_json::Value, String>)
    ensures
        reading_of(text@) == (match r {
            Ok(value) => Ok::<Document, Seq<char>>(held(value)),
            Err(message) => Err::<Document, Seq<char>>(message@),
        }),
{
    serde_json::from_str(text).map_err(|error| error.to_string())
}

/// The parts of a `serde_json::Value`, moved one for one into a [`Json`].
#[verifier::external_body]
fn json_of_value(value: serde_json::Value) -> (r: Json)
    ensures
        r@ == held(value),
{
    match value {
        serde_json::Value::Null => Json::Null,
        serde_json::Value::Bool(value) => Json::Bool(value),
        serde_json::Value::Number(number) => {
            Json::Number(JsonNumber { integer: number.as_i64(), text: number.to_string() })
        },
        serde_json::Value::String(value) => Json::Text(value),
        serde_json::Value::Array(items) => {
            Json::Array(items.into_iter().map(json_of_value).collect())
        },
        serde_json::Value::Object(members) => Json::Object(
            members.into_iter().map(|(name, value)| Member { name, value: json_of_value(value) }).collect(),
        ),
    }
}

/// A text that is no JSON document, with the reader's sentence on why.
#[derive(Debug, Clone, PartialEq, Eq)]
pub struct NotJson {
    pub message: String,
}

/// `r` is what a text is read as, with the reader's own sentence where it is no
/// document.
pub open spec fn reads(r: Result<Json, NotJson>, text: Seq<char>) -> bool {
    reading_of(text) == (match r {
        Ok(json) => Ok::<Document, Seq<char>>(json@),
        Err(error) => Err::<Document, Seq<char>>(error.message@),
    })
}

/// Reads a text as a JSON document.
pub fn parse(text: &str) -> (r: Result<Json, NotJson>)
    ensures
        reads(r, text@),
{
    match value_of_text(text) {
        Ok(value) => Ok(json_of_value(value)),
        Err(message) => Err(NotJson { message }),
    }
}

proof fn lemma_member_at(members: Seq<(Seq<char>, Document)>, name: Seq<char>, from: int, i: int)
    requires
        0 <= from <= i <= members.len(),
        forall|j: int| from <= j < i ==> (#[trigger] members[j]).0 != name,
        i < members.len() ==> members[i].0 == name,
    ensures
        i < members.len() ==> member_at(members, name, from) == Some(i),
        i == members.len() ==> member_at(members, name, from) is None,
    decreases i - from,
{
    if from < i {
        lemma_member_at(members, name, from + 1, i);
    }
}

/// A member is looked up by its name: the first that has it is found, nothing is
/// found where none has, and nothing but an object has members.
pub proof fn law_a_member_is_found_by_its_name(
    members: Seq<(Seq<char>, Document)>,
    name: Seq<char>,
    i: int,
    other: Document,
)
    requires
        0 <= i <= members.len(),
        forall|j: int| 0 <= j < i ==> (#[trigger] members[j]).0 != name,
        i < members.len() ==> members[i].0 == name,
    ensures
        i < members.len() ==> Document::Object(members).member(name) == Some(members[i].1),
        i == members.len() ==> Document::Object(members).member(name) is None,
        !(other is Object) ==> other.member(name) is None,
{
    lemma_member_at(members, name, 0, i);
}

/// A document says a text, a whole number, a number or a truth only where it is
/// one, and a member says what the document it names says.
pub proof fn law_a_document_says_what_it_is(document: Document, name: Seq<char>, said: Document)
    requires
        document.member(name) == Some(said),
    ensures
        said matches Document::Text(value) ==> said.text() == Some(value) && document.text_of(name)
            == Some(value),
        !(said is Text) ==> said.text() is None && document.text_of(name) is None,
        said matches Document::Number { integer, written } ==> said.integer() == integer
            && document.integer_of(name) == integer && said.number() == Some(written),
        !(said is Number) ==> said.integer() is None && document.integer_of(name) is None
            && said.number() is None,
        said matches Document::Bool(value) ==> said.truth() == Some(value),
        !(said is Bool) ==> said.truth() is None,
{
}

/// The texts of a list are its items that are texts, in order: one more item at
/// its end adds itself exactly where it is one.
pub proof fn law_the_texts_of_a_list_keep_their_order(items: Seq<Document>, last: Document)
    ensures
        last matches Document::Text(value) ==> texts(items.push(last)) == texts(items).push(value),
        !(last is Text) ==> texts(items.push(last)) == texts(items),
        texts(seq![]).len() == 0,
{
    assert(items.push(last).drop_last() =~= items);
}

} // verus!
