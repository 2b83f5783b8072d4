//! A plain model of JSON documents.
//!
//! The bridge reads and writes JSON only through this type. Turning bytes
//! into a document and a document into bytes is left to the caller's JSON
//! library, which maps its own values to these one for one.

use vstd::prelude::*;

verus! {

/// A JSON document.
#[derive(Debug, PartialEq, Eq)]
pub enum Json {
    /// The value `null`.
    Null,
    /// `true` or `false`.
    Bool(bool),
    /// A number, kept as the text that writes it. The bridge never computes
    /// with it.
    Number(String),
    /// A string.
    Text(String),
    /// An array: its elements in order.
    Array(Vec<Json>),
    /// An object: its members in order.
    Object(Vec<Member>),
}

/// One member of an object: a name and the value under it.
#[derive(Debug, PartialEq, Eq)]
pub struct Member {
    pub name: String,
    pub value: Json,
}

/// The mathematical value of a [`Json`].
pub ghost enum JsonView {
    Null,
    Bool(bool),
    Number(Seq<char>),
    Text(Seq<char>),
    Array(Seq<JsonView>),
    Object(Seq<MemberView>),
}

/// The mathematical value of a [`Member`].
pub ghost struct MemberView {
    pub name: Seq<char>,
    pub value: JsonView,
}

impl View for Json {
    type V = JsonView;

    open spec fn view(&self) -> JsonView
        decreases self,
    {
        match self {
            Json::Null => JsonView::Null,
            Json::Bool(b) => JsonView::Bool(*b),
            Json::Number(digits) => JsonView::Number(digits@),
            Json::Text(text) => JsonView::Text(text@),
            Json::Array(items) => JsonView::Array(
                Seq::new(
                    items@.len(),
                    |i: int|
                        if 0 <= i < items@.len() {
                            items@[i]@
                        } else {
                            JsonView::Null
                        },
                ),
            ),
            Json::Object(members) => JsonView::Object(
                Seq::new(
                    members@.len(),
                    |i: int|
                        if 0 <= i < members@.len() {
                            MemberView { name: members@[i].name@, value: members@[i].value@ }
                        } else {
                            MemberView { name: Seq::empty(), value: JsonView::Null }
                        },
                ),
            ),
        }
    }
}

impl View for Member {
    type V = MemberView;

    open spec fn view(&self) -> MemberView {
        MemberView { name: self.name@, value: self.value@ }
    }
}

/// The value of the first of `members` that is called `name`, if any is.
pub open spec fn first_named(members: Seq<MemberView>, name: Seq<char>) -> Option<JsonView>
    decreases members.len(),
{
    if members.len() == 0 {
        None
    } else if members.first().name == name {
        Some(members.first().value)
    } else {
        first_named(members.drop_first(), name)
    }
}

impl JsonView {
    /// The text of a string, and nothing for any other document.
    pub open spec fn text(self) -> Option<Seq<char>> {
        match self {
            JsonView::Text(text) => Some(text),
            _ => None,
        }
    }

    /// The elements of an array, and nothing for any other document.
    pub open spec fn items(self) -> Option<Seq<JsonView>> {
        match self {
            JsonView::Array(items) => Some(items),
            _ => None,
        }
    }

    /// The member of an object that is called `name`, the first where several
    /// are, and nothing where none is or the document is no object.
    pub open spec fn member(self, name: Seq<char>) -> Option<JsonView> {
        match self {
            JsonView::Object(members) => first_named(members, name),
            _ => None,
        }
    }
}

/// The values of a sequence of documents, one by one.
pub open spec fn views(items: Seq<Json>) -> Seq<JsonView> {
    Seq::new(items.len(), |i: int| items[i]@)
}

/// The values of a sequence of members, one by one.
pub open spec fn member_views(members: Seq<Member>) -> Seq<MemberView> {
    Seq::new(members.len(), |i: int| members[i]@)
}

/// Where `k` is the first index at which `members` holds the name, the value
/// found under the name is the one at `k`.
pub proof fn lemma_first_named_at(members: Seq<MemberView>, name: Seq<char>, k: int)
    requires
        0 <= k < members.len(),
        members[k].name == name,
        forall|j: int| 0 <= j < k ==> (#[trigger] members[j]).name != name,
    ensures
        first_named(members, name) == Some(members[k].value),
    decreases k,
{
    if k > 0 {
        let rest = members.drop_first();
        assert(members[0].name != name);
        assert forall|j: int| 0 <= j < k - 1 implies (#[trigger] rest[j]).name != name by {
            assert(rest[j] == members[j + 1]);
        }
        lemma_first_named_at(rest, name, k - 1);
    }
}

/// Where no member carries the name, nothing is found under it.
pub proof fn lemma_first_named_nowhere(members: Seq<MemberView>, name: Seq<char>)
    requires
        forall|j: int| 0 <= j < members.len() ==> (#[trigger] members[j]).name != name,
    ensures
        first_named(members, name) is None,
    decreases members.len(),
{
    if members.len() > 0 {
        let rest = members.drop_first();
        assert(members[0].name != name);
        assert forall|j: int| 0 <= j < rest.len() implies (#[trigger] rest[j]).name != name by {
            assert(rest[j] == members[j + 1]);
        }
        lemma_first_named_nowhere(rest, name);
    }
}

impl Member {
    /// The member that holds `value` under `name`.
    pub fn new(name: &str, value: Json) -> (member: Member)
        ensures
            member@ == (MemberView { name: name@, value: value@ }),
    {
        Member { name: name.to_owned(), value }
    }
}

impl Json {
    /// The string that holds `text`.
    pub fn text(text: &str) -> (document: Json)
        ensures
            document@ == JsonView::Text(text@),
    {
        Json::Text(text.to_owned())
    }

    /// The array of `items`.
    pub fn array(items: Vec<Json>) -> (document: Json)
        ensures
            document@ == JsonView::Array(views(items@)),
    {
        let document = Json::Array(items);
        assert(document@->Array_0 =~= views(items@));
        document
    }

    /// The object of `members`.
    pub fn object(members: Vec<Member>) -> (document: Json)
        ensures
            document@ == JsonView::Object(member_views(members@)),
    {
        let document = Json::Object(members);
        assert(document@->Object_0 =~= member_views(members@));
        document
    }

    /// The text of a string, and nothing for any other document.
    pub fn as_str(&self) -> (r: Option<&str>)
        ensures
            (match r {
                Some(text) => self@.text() == Some(text@),
                None => self@.text() is None,
            }),
    {
        match self {
            Json::Text(text) => Some(text.as_str()),
            _ => None,
        }
    }

    /// The elements of an array, and nothing for any other document.
    pub fn as_array(&self) -> (r: Option<&Vec<Json>>)
        ensures
            (match r {
                Some(items) => self@.items() == Some(views(items@)),
                None => self@.items() is None,
            }),
    {
        match self {
            Json::Array(items) => {
                assert(self@.items()->0 =~= views(items@));
                Some(items)
            },
            _ => None,
        }
    }

    /// The member of an object that is called `name`, the first where several
    /// are, and nothing where none is or the document is no object.
    pub fn get(&self, name: &str) -> (r: Option<&Json>)
        ensures
            (match r {
                Some(value) => self@.member(name@) == Some(value@),
                None => self@.member(name@) is None,
            }),
    {
        match self {
            Json::Object(members) => {
                let wanted = name.to_owned();
                let ghost listed = member_views(members@);
                assert(self@->Object_0 =~= listed);
                let mut i: usize = 0;
                while i < members.len()
                    invariant
                        i <= members.len(),
                        wanted@ == name@,
                        listed == member_views(members@),
                        self@ == JsonView::Object(listed),
                        forall|j: int| 0 <= j < i ==> (#[trigger] listed[j]).name != name@,
                    decreases members.len() - i,
                {
                    if members[i].name == wanted {
                        proof {
                            assert(listed[i as int] == members@[i as int]@);
                            lemma_first_named_at(listed, name@, i as int);
                        }
                        return Some(&members[i].value);
                    }
                    i = i + 1;
                }
                proof {
                    lemma_first_named_nowhere(listed, name@);
                }
                None
            },
            _ => None,
        }
    }
}

} // verus!
