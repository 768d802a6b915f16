//! JSON documents as plain data, with the few operations the stream logic needs.

use serde_json::Number;
use vstd::prelude::*;

verus! {

broadcast use vstd::std_specs::vec::axiom_vec_index_decreases;

/// A JSON document. A number is carried as `serde_json` holds it and is never
/// looked into; the members of an object are kept in order, and where a name
/// occurs twice the last one counts.
#[derive(Debug, PartialEq, Eq)]
pub enum Json {
    Null,
    Bool(bool),
    Number(Number),
    Text(String),
    Array(Vec<Json>),
    Object(Vec<Member>),
}

/// One member of an object.
#[derive(Debug, PartialEq, Eq)]
pub struct Member {
    pub name: String,
    pub value: Json,
}

/// The mathematical value of a [`Json`].
pub ghost enum JsonView {
    Null,
    Bool(bool),
    Number(Number),
    Text(Seq<char>),
    Array(Seq<JsonView>),
    Object(Seq<MemberView>),
}

/// The mathematical value of a [`Member`].
pub ghost struct MemberView {
    pub name: Seq<char>,
    pub value: JsonView,
}

/// The members of an object, by name and value.
pub type Members = Seq<MemberView>;

/// The position of the member that a name selects: the last one with that name.
pub open spec fn member_index(members: Members, name: Seq<char>) -> Option<int>
    decreases members.len(),
{
    if members.len() == 0 {
        None
    } else if members.last().name == name {
        Some(members.len() - 1)
    } else {
        member_index(members.drop_last(), name)
    }
}

/// The members with `name` set to `value`: in place where the name is present,
/// at the end where it is not.
pub open spec fn put_member(members: Members, name: Seq<char>, value: JsonView) -> Members {
    match member_index(members, name) {
        Some(i) => members.update(i, MemberView { name, value }),
        None => members.push(MemberView { name, value }),
    }
}

/// What [`member_index`] finds: the last position that holds the name, or
/// none where no position holds it.
pub proof fn lemma_member_index(members: Members, name: Seq<char>)
    ensures
        match member_index(members, name) {
            Some(i) => {
                &&& 0 <= i < members.len()
                &&& members[i].name == name
                &&& forall|j: int| i < j < members.len() ==> (#[trigger] members[j]).name != name
            },
            None => forall|j: int| 0 <= j < members.len() ==> (#[trigger] members[j]).name != name,
        },
    decreases members.len(),
{
    if members.len() > 0 && members.last().name != name {
        lemma_member_index(members.drop_last(), name);
        assert forall|j: int| 0 <= j < members.len() - 1 implies members[j]
            == members.drop_last()[j] by {}
    }
}

/// The last position that holds a name is what [`member_index`] finds.
pub proof fn lemma_member_index_is(members: Members, name: Seq<char>, i: int)
    requires
        0 <= i < members.len(),
        members[i].name == name,
        forall|j: int| i < j < members.len() ==> (#[trigger] members[j]).name != name,
    ensures
        member_index(members, name) == Some(i),
    decreases members.len(),
{
    if i < members.len() - 1 {
        let shorter = members.drop_last();
        assert forall|j: int| i < j < shorter.len() implies (#[trigger] shorter[j]).name
            != name by {
        }
        lemma_member_index_is(shorter, name, i);
    }
}

/// Setting a member and reading it back: the member that was set has the new
/// value, and every other name selects what it selected before.
pub proof fn law_put_member(members: Members, name: Seq<char>, value: JsonView, other: Seq<char>)
    ensures
        ({
            let before = JsonView::Object(members);
            let after = JsonView::Object(put_member(members, name, value));
            &&& after.member(name) == Some(value)
            &&& other != name ==> after.member(other) == before.member(other)
        }),
{
    let changed = put_member(members, name, value);
    lemma_member_index(members, name);
    lemma_member_index(members, other);
    match member_index(members, name) {
        Some(i) => {
            lemma_member_index_is(changed, name, i);
            if other != name {
                match member_index(members, other) {
                    Some(k) => {
                        lemma_member_index_is(changed, other, k);
                    },
                    None => {
                        lemma_member_index(changed, other);
                    },
                }
            }
        },
        None => {
            lemma_member_index_is(changed, name, members.len() as int);
            if other != name {
                assert(changed.drop_last() == members);
            }
        },
    }
}

impl JsonView {
    /// The value of the member `name`, where this is an object that has one.
    pub open spec fn member(self, name: Seq<char>) -> Option<JsonView> {
        match self {
            JsonView::Object(members) => match member_index(members, name) {
                Some(i) => Some(members[i].value),
                None => None,
            },
            _ => None,
        }
    }

    /// The characters of a string value.
    pub open spec fn text(self) -> Option<Seq<char>> {
        match self {
            JsonView::Text(text) => Some(text),
            _ => None,
        }
    }

    /// The elements of an array value.
    pub open spec fn items(self) -> Option<Seq<JsonView>> {
        match self {
            JsonView::Array(items) => Some(items),
            _ => None,
        }
    }

    /// The characters of the member `name`, where it is present and a string.
    pub open spec fn text_member(self, name: Seq<char>) -> Option<Seq<char>> {
        match self.member(name) {
            Some(value) => value.text(),
            None => None,
        }
    }

    /// This object with the member `name` set to `value`. Anything but an
    /// object is left as it is.
    pub open spec fn with_member(self, name: Seq<char>, value: JsonView) -> JsonView {
        match self {
            JsonView::Object(members) => JsonView::Object(put_member(members, name, value)),
            _ => self,
        }
    }
}

impl View for Json {
    type V = JsonView;

    open spec fn view(&self) -> JsonView
        decreases self,
    {
        match self {
            Json::Null => JsonView::Null,
            Json::Bool(b) => JsonView::Bool(*b),
            Json::Number(number) => JsonView::Number(*number),
            Json::Text(text) => JsonView::Text(text@),
            Json::Array(items) => JsonView::Array(
                Seq::new(
                    items.len() as nat,
                    |i: int|
                        if 0 <= i < items.len() {
                            items[i]@
                        } else {
                            JsonView::Null
                        },
                ),
            ),
            Json::Object(members) => JsonView::Object(
                Seq::new(
                    members.len() as nat,
                    |i: int|
                        if 0 <= i < members.len() {
                            MemberView { name: members[i].name@, value: members[i].value@ }
                        } else {
                            MemberView { name: Seq::empty(), value: JsonView::Null }
                        },
                ),
            ),
        }
    }
}

/// The views of the elements of an array.
pub open spec fn items_view(items: &Vec<Json>) -> Seq<JsonView> {
    Seq::new(items.len() as nat, |i: int| items[i]@)
}

/// The views of the members of an object.
pub open spec fn members_view(members: &Vec<Member>) -> Members {
    Seq::new(
        members.len() as nat,
        |i: int| MemberView { name: members[i].name@, value: members[i].value@ },
    )
}

/// The position of the member that a name selects.
fn find_member(members: &Vec<Member>, name: &str) -> (found: Option<usize>)
    ensures
        found matches Some(i) ==> i < members.len() && member_index(members_view(members), name@)
            == Some(i as int),
        found is None ==> member_index(members_view(members), name@) is None,
{
    let ghost shown = members_view(members);
    let mut at: usize = members.len();
    assert(shown.take(at as int) == shown);
    while at > 0
        invariant
            at <= members.len(),
            shown == members_view(members),
            member_index(shown, name@) == member_index(shown.take(at as int), name@),
        decreases at,
    {
        at -= 1;
        assert(shown.take(at + 1).drop_last() == shown.take(at as int));
        if members[at].name.as_str().eq(name) {
            return Some(at);
        }
    }
    None
}

/// A copy of the members of an object.
fn copy_members(members: &Vec<Member>) -> (copies: Vec<Member>)
    ensures
        members_view(&copies) == members_view(members),
    decreases members,
{
    let mut copies: Vec<Member> = Vec::new();
    let mut i: usize = 0;
    while i < members.len()
        invariant
            i <= members.len(),
            copies.len() == i,
            forall|k: int| 0 <= k < i ==> members_view(&copies)[k] == members_view(members)[k],
        decreases members.len() - i,
    {
        assert(decreases_to!(members => members[i as int]));
        copies.push(Member { name: members[i].name.clone(), value: members[i].value.duplicate() });
        i += 1;
    }
    copies
}

impl Json {
    /// The value of the member `name`, where this is an object that has one.
    pub fn get(&self, name: &str) -> (found: Option<&Json>)
        ensures
            found matches Some(value) ==> self@.member(name@) == Some(value@),
            found is None ==> self@.member(name@) is None,
    {
        match self {
            Json::Object(members) => {
                assert(self@->Object_0 == members_view(members));
                match find_member(members, name) {
                    Some(i) => Some(&members[i].value),
                    None => None,
                }
            },
            _ => None,
        }
    }

    /// The characters of a string value.
    pub fn as_text(&self) -> (found: Option<&str>)
        ensures
            found matches Some(text) ==> self@.text() == Some(text@),
            found is None ==> self@.text() is None,
    {
        match self {
            Json::Text(text) => Some(text.as_str()),
            _ => None,
        }
    }

    /// The elements of an array value.
    pub fn as_items(&self) -> (found: Option<&Vec<Json>>)
        ensures
            found matches Some(items) ==> self@.items() == Some(items_view(items)),
            found is None ==> self@.items() is None,
    {
        match self {
            Json::Array(items) => {
                Some(items)
            },
            _ => None,
        }
    }

    /// The characters of the member `name`, where it is present and a string.
    pub fn get_text(&self, name: &str) -> (found: Option<&str>)
        ensures
            found matches Some(text) ==> self@.text_member(name@) == Some(text@),
            found is None ==> self@.text_member(name@) is None,
    {
        match self.get(name) {
            Some(value) => value.as_text(),
            None => None,
        }
    }

    /// A copy of this document.
    pub fn duplicate(&self) -> (copy: Json)
        ensures
            copy@ == self@,
        decreases self,
    {
        match self {
            Json::Null => Json::Null,
            Json::Bool(b) => Json::Bool(*b),
            Json::Number(number) => Json::Number(number.clone()),
            Json::Text(text) => Json::Text(text.clone()),
            Json::Array(items) => {
                let mut copies: Vec<Json> = Vec::new();
                let mut i: usize = 0;
                while i < items.len()
                    invariant
                        *self == Json::Array(*items),
                        i <= items.len(),
                        copies.len() == i,
                        forall|k: int| 0 <= k < i ==> copies[k]@ == items[k]@,
                    decreases items.len() - i,
                {
                    assert(decreases_to!(self => self->Array_0));
                    assert(decreases_to!(items => items[i as int]));
                    copies.push(items[i].duplicate());
                    i += 1;
                }
                let copy = Json::Array(copies);
                assert(copy@->Array_0 == self@->Array_0);
                copy
            },
            Json::Object(members) => {
                let copy = Json::Object(copy_members(members));
                assert(copy@->Object_0 == members_view(&copy->Object_0));
                assert(self@->Object_0 == members_view(members));
                copy
            },
        }
    }

    /// This object with the member `name` set to `value`. Anything but an
    /// object is copied as it is.
    pub fn with_member(&self, name: &str, value: Json) -> (changed: Json)
        ensures
            changed@ == self@.with_member(name@, value@),
    {
        match self {
            Json::Object(members) => {
                let mut copies = copy_members(members);
                match find_member(members, name) {
                    Some(at) => {
                        copies.set(at, Member { name: name.to_owned(), value });
                    },
                    None => {
                        copies.push(Member { name: name.to_owned(), value });
                    },
                }
                let changed = Json::Object(copies);
                assert(self@->Object_0 == members_view(members));
                assert(changed@->Object_0 == put_member(members_view(members), name@, value@));
                changed
            },
            _ => self.duplicate(),
        }
    }
}

} // verus!
