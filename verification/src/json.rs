//! JSON documents as plain trees, as the manifests and replies need them.

use crate::text::texts;
use vstd::prelude::*;

verus! {

/// A JSON document. Objects list their members in the order they are
/// written; numbers are integers.
#[derive(Debug, PartialEq)]
pub enum Json {
    Bool(bool),
    Int(i64),
    Text(String),
    Array(Vec<Json>),
    Object(Vec<(String, Json)>),
}

/// What a document says, with every text as its characters.
pub enum JsonView {
    Bool(bool),
    Int(i64),
    Text(Seq<char>),
    Array(Seq<JsonView>),
    Object(Seq<(Seq<char>, JsonView)>),
}

/// Reads a document.
pub open spec fn reading(doc: Json) -> JsonView
    decreases doc,
{
    match doc {
        Json::Bool(b) => JsonView::Bool(b),
        Json::Int(n) => JsonView::Int(n),
        Json::Text(s) => JsonView::Text(s@),
        Json::Array(v) => JsonView::Array(
            Seq::new(v@.len(), |i: int| if 0 <= i < v@.len() { reading(v@[i]) } else { JsonView::Bool(false) }),
        ),
        Json::Object(v) => JsonView::Object(
            Seq::new(
                v@.len(),
                |i: int| (v@[i].0@, if 0 <= i < v@.len() { reading(v@[i].1) } else { JsonView::Bool(false) }),
            ),
        ),
    }
}

impl View for Json {
    type V = JsonView;

    open spec fn view(&self) -> JsonView {
        reading(*self)
    }
}

/// The members of an object as they are read.
pub open spec fn members(fields: Seq<(String, Json)>) -> Seq<(Seq<char>, JsonView)> {
    Seq::new(fields.len(), |i: int| (fields[i].0@, fields[i].1@))
}

/// The items of an array as they are read.
pub open spec fn items(list: Seq<Json>) -> Seq<JsonView> {
    Seq::new(list.len(), |i: int| list[i]@)
}

impl JsonView {
    /// The member of an object with the given name: the first one, if several
    /// share it.
    pub open spec fn field(self, name: Seq<char>) -> Option<JsonView> {
        match self {
            JsonView::Object(ms) => if exists|i: int| 0 <= i < ms.len() && (#[trigger] ms[i]).0 == name {
                let i = choose|i: int|
                    0 <= i < ms.len() && (#[trigger] ms[i]).0 == name && forall|j: int|
                        0 <= j < i ==> (#[trigger] ms[j]).0 != name;
                Some(ms[i].1)
            } else {
                None
            },
            _ => None,
        }
    }

    /// What `field` finds, for statements that go through several documents.
    #[verifier::opaque]
    pub open spec fn found(self, name: Seq<char>) -> Option<JsonView> {
        self.field(name)
    }

    /// The item of an array at the given place.
    pub open spec fn item(self, i: int) -> Option<JsonView> {
        match self {
            JsonView::Array(xs) => if 0 <= i < xs.len() {
                Some(xs[i])
            } else {
                None
            },
            _ => None,
        }
    }
}

impl Json {
    /// A text value.
    pub fn text(s: &str) -> (r: Json)
        ensures
            r@ == JsonView::Text(s@),
    {
        Json::Text(s.to_owned())
    }

    /// An object with the given members.
    pub fn object(fields: Vec<(String, Json)>) -> (r: Json)
        ensures
            r@ == JsonView::Object(members(fields@)),
    {
        let r = Json::Object(fields);
        assert(r@->Object_0 =~= members(fields@));
        r
    }

    /// An array with the given items.
    pub fn array(list: Vec<Json>) -> (r: Json)
        ensures
            r@ == JsonView::Array(items(list@)),
    {
        let r = Json::Array(list);
        assert(r@->Array_0 =~= items(list@));
        r
    }

    /// An array of texts.
    pub fn text_array(list: &Vec<String>) -> (r: Json)
        ensures
            r@ == JsonView::Array(texts(list@).map_values(|s: Seq<char>| JsonView::Text(s))),
    {
        let mut out: Vec<Json> = Vec::new();
        let mut i: usize = 0;
        while i < list.len()
            invariant
                i <= list@.len(),
                out@.len() == i,
                forall|j: int| 0 <= j < i ==> (#[trigger] out@[j])@ == JsonView::Text(list@[j]@),
            decreases list@.len() - i,
        {
            out.push(Json::text(list[i].as_str()));
            i = i + 1;
        }
        assert(items(out@) =~= texts(list@).map_values(|s: Seq<char>| JsonView::Text(s)));
        Json::array(out)
    }

    /// The member of an object with the given name.
    pub fn field(&self, name: &str) -> (r: Option<&Json>)
        ensures
            match r {
                Some(v) => self@.field(name@) == Some(v@),
                None => self@.field(name@) is None,
            },
    {
        match self {
            Json::Object(ms) => {
                let mut i: usize = 0;
                while i < ms.len()
                    invariant
                        i <= ms@.len(),
                        *self == Json::Object(*ms),
                        forall|j: int| 0 <= j < i ==> (#[trigger] ms@[j]).0@ != name@,
                    decreases ms@.len() - i,
                {
                    if crate::text::same(ms[i].0.as_str(), name) {
                        proof {
                            let vs = self@->Object_0;
                            assert(vs[i as int].0 == name@);
                            assert forall|j: int| 0 <= j < i implies (#[trigger] vs[j]).0 != name@ by {
                                assert(ms@[j].0@ != name@);
                            }
                        }
                        return Some(&ms[i].1);
                    }
                    i = i + 1;
                }
                proof {
                    let vs = self@->Object_0;
                    assert forall|j: int| 0 <= j < vs.len() implies (#[trigger] vs[j]).0 != name@ by {
                        assert(ms@[j].0@ != name@);
                    }
                }
                None
            },
            _ => None,
        }
    }

    /// The item of an array at the given place.
    pub fn item(&self, i: usize) -> (r: Option<&Json>)
        ensures
            match r {
                Some(v) => self@.item(i as int) == Some(v@),
                None => self@.item(i as int) is None,
            },
    {
        match self {
            Json::Array(xs) => if i < xs.len() {
                Some(&xs[i])
            } else {
                None
            },
            _ => None,
        }
    }

    /// A named member.
    pub(crate) fn member(name: &str, value: Json) -> (r: (String, Json))
        ensures
            r.0@ == name@,
            r.1@ == value@,
    {
        (name.to_owned(), value)
    }
}

/// The member of the given name of what was reached so far.
pub open spec fn in_field(doc: Option<JsonView>, name: Seq<char>) -> Option<JsonView> {
    match doc {
        Some(d) => d.found(name),
        None => None,
    }
}

/// The item at the given place of what was reached so far.
pub open spec fn in_item(doc: Option<JsonView>, i: int) -> Option<JsonView> {
    match doc {
        Some(d) => d.item(i),
        None => None,
    }
}

/// A member that no earlier one shares its name with is found by its name.
pub proof fn lemma_member_is_field(doc: JsonView, i: int)
    requires
        doc is Object,
        0 <= i < doc->Object_0.len(),
        forall|j: int| 0 <= j < i ==> (#[trigger] doc->Object_0[j]).0 != doc->Object_0[i].0,
    ensures
        doc.field(doc->Object_0[i].0) == Some(doc->Object_0[i].1),
        doc.found(doc->Object_0[i].0) == Some(doc->Object_0[i].1),
{
    reveal(JsonView::found);
    let ms = doc->Object_0;
    let name = ms[i].0;
    let k = choose|k: int|
        0 <= k < ms.len() && (#[trigger] ms[k]).0 == name && forall|j: int|
            0 <= j < k ==> (#[trigger] ms[j]).0 != name;
    assert(ms[i].0 == name);
    if k < i {
        assert(ms[k].0 != ms[i].0);
    } else if i < k {
        assert(ms[i].0 != name);
    }
}

/// A member is found by its name whatever stands behind it, and a name that no
/// member has finds nothing.
pub proof fn law_members_are_found_by_name(
    before: Seq<(Seq<char>, JsonView)>,
    name: Seq<char>,
    value: JsonView,
    behind: Seq<(Seq<char>, JsonView)>,
)
    requires
        forall|j: int| 0 <= j < before.len() ==> (#[trigger] before[j]).0 != name,
    ensures
        JsonView::Object(before + seq![(name, value)] + behind).field(name) == Some(value),
        JsonView::Object(before).field(name) is None,
        in_field(Some(JsonView::Object(before + seq![(name, value)] + behind)), name) == Some(value),
        in_field(Some(JsonView::Object(before)), name) is None,
        in_field(None, name) is None,
{
    reveal(JsonView::found);
    let doc = JsonView::Object(before + seq![(name, value)] + behind);
    let ms = doc->Object_0;
    assert(ms[before.len() as int] == (name, value));
    assert forall|j: int| 0 <= j < before.len() implies (#[trigger] ms[j]).0 != name by {
        assert(ms[j] == before[j]);
    }
    lemma_member_is_field(doc, before.len() as int);
}

/// A document is read as it is written: a truth value, a number or a text as
/// itself, an array item by item, and an object member by member, in order.
pub proof fn law_documents_are_read_as_written(
    b: bool,
    n: i64,
    t: String,
    list: Vec<Json>,
    fields: Vec<(String, Json)>,
    i: int,
)
    ensures
        Json::Bool(b)@ == JsonView::Bool(b),
        Json::Int(n)@ == JsonView::Int(n),
        Json::Text(t)@ == JsonView::Text(t@),
        Json::Array(list)@ is Array && Json::Array(list)@->Array_0.len() == list@.len(),
        0 <= i < list@.len() ==> Json::Array(list)@.item(i) == Some(list@[i]@),
        Json::Object(fields)@ is Object && Json::Object(fields)@->Object_0.len() == fields@.len(),
        0 <= i < fields@.len() ==> Json::Object(fields)@->Object_0[i] == (fields@[i].0@, fields@[i].1@),
{
}

/// How many members the object has that was reached so far.
pub open spec fn member_count(doc: Option<JsonView>) -> nat {
    match doc {
        Some(JsonView::Object(ms)) => ms.len(),
        _ => 0,
    }
}

} // verus!
