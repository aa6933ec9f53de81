//! The JSON documents that requests carry.
use crate::keyed::{keyed_texts, Keyed};
use crate::names::texts;
use vstd::prelude::*;

verus! {

/// A JSON document that a request carries.
#[derive(Debug)]
pub enum Json {
    Number(u64),
    Text(String),
    List(Vec<Json>),
    /// Members in the order in which they were added.
    Object(Vec<(String, Json)>),
    /// An object whose members are texts.
    Texts(Keyed<String>),
}

/// The mathematical value of a [`Json`].
pub enum JsonView {
    Number(nat),
    Text(Seq<char>),
    List(Seq<JsonView>),
    Object(Seq<(Seq<char>, JsonView)>),
    Texts(Map<Seq<char>, Seq<char>>),
}

/// The document that `json` stands for.
pub open spec fn json_view(json: Json) -> JsonView
    decreases json,
{
    match json {
        Json::Number(n) => JsonView::Number(n as nat),
        Json::Text(text) => JsonView::Text(text@),
        Json::List(items) => JsonView::List(
            Seq::new(
                items@.len(),
                |i: int|
                    if 0 <= i < items@.len() {
                        json_view(items@[i])
                    } else {
                        JsonView::Number(0)
                    },
            ),
        ),
        Json::Object(members) => JsonView::Object(
            Seq::new(
                members@.len(),
                |i: int|
                    if 0 <= i < members@.len() {
                        (members@[i].0@, json_view(members@[i].1))
                    } else {
                        (Seq::empty(), JsonView::Number(0))
                    },
            ),
        ),
        Json::Texts(members) => JsonView::Texts(keyed_texts(members@)),
    }
}

impl View for Json {
    type V = JsonView;

    open spec fn view(&self) -> JsonView {
        json_view(*self)
    }
}

/// The list of the texts `items`.
pub open spec fn text_list(items: Seq<Seq<char>>) -> JsonView {
    JsonView::List(items.map_values(|text: Seq<char>| JsonView::Text(text)))
}

impl Json {
    /// The text `text`.
    pub fn text(text: &str) -> (json: Json)
        ensures
            json@ == JsonView::Text(text@),
    {
        Json::Text(text.to_owned())
    }

    /// The object without members.
    pub fn object() -> (json: Json)
        ensures
            json@ == JsonView::Object(Seq::empty()),
    {
        let json = Json::Object(Vec::new());
        assert(json@->Object_0 =~= Seq::empty());
        json
    }

    /// This object with one more member, at the end.
    pub fn with(self, key: &str, value: Json) -> (json: Json)
        requires
            self is Object,
        ensures
            json is Object,
            json@ == JsonView::Object(self@->Object_0.push((key@, value@))),
    {
        let ghost before = self@->Object_0;
        match self {
            Json::Object(mut members) => {
                members.push((key.to_owned(), value));
                let json = Json::Object(members);
                assert(json@->Object_0 =~= before.push((key@, value@)));
                json
            },
            other => other,
        }
    }

    /// The list of the documents `items`.
    pub fn list(items: Vec<Json>) -> (json: Json)
        ensures
            json@ == JsonView::List(items@.map_values(|item: Json| item@)),
    {
        let json = Json::List(items);
        assert(json@->List_0 =~= items@.map_values(|item: Json| item@));
        json
    }

    /// The list of the texts `items`.
    pub fn text_list(items: &Vec<String>) -> (json: Json)
        ensures
            json@ == text_list(texts(items@)),
    {
        let mut list: Vec<Json> = Vec::new();
        let mut next: usize = 0;
        while next < items.len()
            invariant
                next <= items@.len(),
                list@.len() == next,
                forall|i: int| 0 <= i < next ==> (#[trigger] list@[i])@ == JsonView::Text(items@[i]@),
            decreases items@.len() - next,
        {
            list.push(Json::text(&items[next]));
            next = next + 1;
        }
        let json = Json::List(list);
        assert(json@->List_0 =~= text_list(texts(items@))->List_0);
        json
    }
}

} // verus!
