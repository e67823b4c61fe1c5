//! JSON documents.
use vstd::prelude::*;

use crate::text::same_text;

verus! {

/// A number of a JSON document, carried through as `serde_json` holds it.
#[verifier::external_type_specification]
#[verifier::external_body]
pub struct ExNumber(serde_json::Number);

/// A JSON document as `serde_json` holds it.
#[verifier::external_type_specification]
#[verifier::external_body]
pub struct ExValue(serde_json::Value);

/// A JSON document. An object is the list of its members; of two with one name the later counts.
#[derive(Debug)]
pub enum Json {
    Null,
    Bool(bool),
    Number(serde_json::Number),
    Text(String),
    Array(Vec<Json>),
    Object(Vec<(String, Json)>),
}

/// What a JSON document says.
#[verifier::ext_equal]
pub enum JsonModel {
    Null,
    Bool(bool),
    Number(serde_json::Number),
    Text(Seq<char>),
    Array(Seq<JsonModel>),
    Object(Map<Seq<char>, JsonModel>),
}

/// The position of the last member named `key`, or a negative number where there is none.
pub open spec fn last_named<Document>(members: Seq<(String, Document)>, key: Seq<char>) -> int
    decreases members.len(),
{
    if members.len() == 0 {
        -1
    } else if members.last().0@ == key {
        members.len() - 1
    } else {
        last_named(members.drop_last(), key)
    }
}

impl Json {
    /// What the document says.
    pub open spec fn model(self) -> JsonModel
        decreases self,
    {
        match self {
            Json::Null => JsonModel::Null,
            Json::Bool(b) => JsonModel::Bool(b),
            Json::Number(n) => JsonModel::Number(n),
            Json::Text(text) => JsonModel::Text(text@),
            Json::Array(items) => JsonModel::Array(
                Seq::new(
                    items@.len(),
                    |i: int|
                        if 0 <= i < items@.len() {
                            items@[i].model()
                        } else {
                            JsonModel::Null
                        },
                ),
            ),
            Json::Object(members) => JsonModel::Object(
                Map::new(
                    |key: Seq<char>| 0 <= last_named(members@, key),
                    |key: Seq<char>|
                        {
                            let i = last_named(members@, key);
                            if 0 <= i < members@.len() {
                                members@[i].1.model()
                            } else {
                                JsonModel::Null
                            }
                        },
                ),
            ),
        }
    }
}

impl View for Json {
    type V = JsonModel;

    open spec fn view(&self) -> JsonModel {
        self.model()
    }
}

impl JsonModel {
    /// The member named `key`, where this is an object that has one.
    pub open spec fn member(self, key: Seq<char>) -> Option<JsonModel> {
        match self {
            JsonModel::Object(members) => if members.contains_key(key) {
                Some(members[key])
            } else {
                None
            },
            _ => None,
        }
    }

    /// The text, where this is one.
    pub open spec fn text(self) -> Option<Seq<char>> {
        match self {
            JsonModel::Text(text) => Some(text),
            _ => None,
        }
    }

    /// The object with the member `key` set to `value`; what is no object stays as it is.
    pub open spec fn with(self, key: Seq<char>, value: JsonModel) -> JsonModel {
        match self {
            JsonModel::Object(members) => JsonModel::Object(members.insert(key, value)),
            other => other,
        }
    }

    /// The text of the member named `key`, where this is an object that has one and it is a text.
    pub open spec fn text_member(self, key: Seq<char>) -> Option<Seq<char>> {
        match self.member(key) {
            Some(value) => value.text(),
            None => None,
        }
    }
}

/// The object without members.
pub open spec fn empty_object() -> JsonModel {
    JsonModel::Object(Map::empty())
}

proof fn lemma_last_named<Document>(members: Seq<(String, Document)>, key: Seq<char>)
    ensures
        -1 <= last_named(members, key) < members.len(),
        0 <= last_named(members, key) ==> members[last_named(members, key)].0@ == key,
        forall|j: int|
            last_named(members, key) < j < members.len() ==> (#[trigger] members[j]).0@ != key,
    decreases members.len(),
{
    if members.len() > 0 && members.last().0@ != key {
        lemma_last_named(members.drop_last(), key);
        assert forall|j: int| last_named(members, key) < j < members.len() implies (
        #[trigger] members[j]).0@ != key by {
            if j < members.len() - 1 {
                assert(members.drop_last()[j] == members[j]);
            }
        }
    }
}

proof fn lemma_same_names<One, Other>(
    left: Seq<(String, One)>,
    right: Seq<(String, Other)>,
    key: Seq<char>,
)
    requires
        left.len() == right.len(),
        forall|j: int| 0 <= j < left.len() ==> (#[trigger] left[j]).0@ == right[j].0@,
    ensures
        last_named(left, key) == last_named(right, key),
    decreases left.len(),
{
    if left.len() > 0 {
        assert(left[left.len() - 1].0@ == right[left.len() - 1].0@);
        assert forall|j: int| 0 <= j < left.len() - 1 implies (#[trigger] left.drop_last()[j]).0@
            == right.drop_last()[j].0@ by {
            assert(left[j].0@ == right[j].0@);
        }
        lemma_same_names(left.drop_last(), right.drop_last(), key);
    }
}

/// A copy of a number is that number, as the `Clone` of `serde_json::Number` has it.
pub assume_specification[ <serde_json::Number as Clone>::clone ](number: &serde_json::Number) -> (r:
    serde_json::Number)
    ensures
        r == *number,
;

impl Json {
    /// The member named `key`, where this is an object that has one.
    pub fn get(&self, key: &str) -> (r: Option<&Json>)
        ensures
            match r {
                Some(value) => self@.member(key@) == Some(value@),
                None => self@.member(key@) is None,
            },
    {
        match self {
            Json::Object(members) => {
                let mut i: usize = members.len();
                proof {
                    assert(members@.take(i as int) =~= members@);
                    lemma_last_named(members@, key@);
                }
                while i > 0
                    invariant
                        i <= members@.len(),
                        *self == Json::Object(*members),
                        last_named(members@, key@) == last_named(members@.take(i as int), key@),
                        -1 <= last_named(members@, key@) < members@.len(),
                    decreases i,
                {
                    i = i - 1;
                    proof {
                        assert(members@.take(i + 1).drop_last() =~= members@.take(i as int));
                        assert(members@.take(i + 1).last() == members@[i as int]);
                    }
                    if same_text(&members[i].0, key) {
                        return Some(&members[i].1);
                    }
                }
                None
            },
            _ => None,
        }
    }

    /// The text, where this is one.
    pub fn as_str(&self) -> (r: Option<&str>)
        ensures
            match r {
                Some(text) => self@.text() == Some(text@),
                None => self@.text() is None,
            },
    {
        match self {
            Json::Text(text) => Some(text.as_str()),
            _ => None,
        }
    }

    /// The text of the member named `key`.
    pub fn get_str(&self, key: &str) -> (r: Option<&str>)
        ensures
            match r {
                Some(text) => self@.text_member(key@) == Some(text@),
                None => self@.text_member(key@) is None,
            },
    {
        match self.get(key) {
            Some(value) => value.as_str(),
            None => None,
        }
    }

    /// The object without members.
    pub fn object() -> (r: Json)
        ensures
            r@ == empty_object(),
    {
        let r = Json::Object(Vec::new());
        proof {
            assert(r@->Object_0 =~= Map::empty());
        }
        r
    }

    /// The object with the member `key` set to `value`.
    pub fn with(self, key: &str, value: Json) -> (r: Json)
        ensures
            r@ == self@.with(key@, value@),
    {
        match self {
            Json::Object(members) => {
                let mut members = members;
                let ghost before = members@;
                members.push((key.to_owned(), value));
                let r = Json::Object(members);
                proof {
                    assert(members@.drop_last() =~= before);
                    assert forall|other: Seq<char>| true implies -1 <= #[trigger] last_named(
                        before,
                        other,
                    ) < before.len() by {
                        lemma_last_named(before, other);
                    }
                    assert(r@->Object_0 =~= self@->Object_0.insert(key@, value@));
                }
                r
            },
            other => other,
        }
    }

    /// The array of some documents.
    pub fn array(items: Vec<Json>) -> (r: Json)
        ensures
            r@ == JsonModel::Array(items@.map_values(|item: Json| item@)),
    {
        let r = Json::Array(items);
        proof {
            assert(r@->Array_0 =~= items@.map_values(|item: Json| item@));
        }
        r
    }

    /// The document that is a text.
    pub fn text(text: &str) -> (r: Json)
        ensures
            r@ == JsonModel::Text(text@),
    {
        Json::Text(text.to_owned())
    }

    /// A document that says the same.
    pub fn copy(&self) -> (r: Json)
        ensures
            r@ == self@,
        decreases self,
    {
        match self {
            Json::Null => Json::Null,
            Json::Bool(b) => Json::Bool(*b),
            Json::Number(n) => Json::Number(n.clone()),
            Json::Text(text) => Json::Text(text.clone()),
            Json::Array(items) => {
                let mut out: Vec<Json> = Vec::new();
                let mut i: usize = 0;
                while i < items.len()
                    invariant
                        i <= items@.len(),
                        *self == Json::Array(*items),
                        out@.len() == i,
                        forall|j: int| 0 <= j < i ==> (#[trigger] out@[j])@ == items@[j]@,
                    decreases items@.len() - i,
                {
                    assert(decreases_to!(*self => self->Array_0));
                    assert(decreases_to!(*items => items@));
                    assert(decreases_to!(items@ => items@[i as int]));
                    out.push(items[i].copy());
                    i = i + 1;
                }
                let r = Json::Array(out);
                proof {
                    assert(r@->Array_0 =~= self@->Array_0);
                }
                r
            },
            Json::Object(members) => {
                let mut out: Vec<(String, Json)> = Vec::new();
                let mut i: usize = 0;
                while i < members.len()
                    invariant
                        i <= members@.len(),
                        *self == Json::Object(*members),
                        out@.len() == i,
                        forall|j: int|
                            0 <= j < i ==> (#[trigger] out@[j]).0@ == members@[j].0@ && out@[j].1@
                                == members@[j].1@,
                    decreases members@.len() - i,
                {
                    assert(decreases_to!(*self => self->Object_0));
                    assert(decreases_to!(*members => members@));
                    assert(decreases_to!(members@ => members@[i as int]));
                    assert(decreases_to!(members@[i as int] => members@[i as int].1));
                    out.push((members[i].0.clone(), members[i].1.copy()));
                    i = i + 1;
                }
                let r = Json::Object(out);
                proof {
                    assert forall|key: Seq<char>| #[trigger]
                        last_named(out@, key) == last_named(members@, key) by {
                        lemma_same_names(out@, members@, key);
                    }
                    assert forall|key: Seq<char>| true implies -1 <= #[trigger] last_named(
                        members@,
                        key,
                    ) < members@.len() by {
                        lemma_last_named(members@, key);
                    }
                    assert(r@->Object_0 =~= self@->Object_0);
                }
                r
            },
        }
    }
}

/// What a `serde_json::Value` holds, object members by name.
pub uninterp spec fn value_model(value: serde_json::Value) -> JsonModel;

/// What `serde_json` reads in a text: the document, or the sentence that says why it is none.
pub uninterp spec fn document(text: Seq<char>) -> Result<JsonModel, Seq<char>>;

/// The compact text that `serde_json` writes for a document.
pub uninterp spec fn json_text(model: JsonModel) -> Seq<char>;

/// The number that `serde_json` makes of an integer.
pub uninterp spec fn number_of(n: i64) -> serde_json::Number;

/// The list of texts that `serde_json` reads in a JSON array of strings.
pub uninterp spec fn text_list(text: Seq<char>) -> Option<Seq<Seq<char>>>;

/// The JSON array that `serde_json` writes for a list of texts.
pub uninterp spec fn list_text(list: Seq<Seq<char>>) -> Seq<char>;

/// Calls `serde_json::from_str` for a `Value`. What comes back depends on the text alone: the
/// document named by `document`, or the error's own sentence.
#[verifier::external_body]
fn value_from_text(text: &str) -> (r: Result<serde_json::Value, String>)
    ensures
        match r {
            Ok(value) => document(text@) == Ok::<JsonModel, Seq<char>>(value_model(value)),
            Err(reason) => document(text@) == Err::<JsonModel, Seq<char>>(reason@),
        },
{
    serde_json::from_str::<serde_json::Value>(text).map_err(|error| error.to_string())
}

/// A `serde_json::Value` taken apart: its variant and what stands directly in it.
#[derive(Debug)]
pub enum Node {
    Null,
    Bool(bool),
    Number(serde_json::Number),
    Text(String),
    Array(Vec<serde_json::Value>),
    Object(Vec<(String, serde_json::Value)>),
}

impl Node {
    /// What a value says that was taken apart.
    pub open spec fn model(self) -> JsonModel {
        match self {
            Node::Null => JsonModel::Null,
            Node::Bool(b) => JsonModel::Bool(b),
            Node::Number(n) => JsonModel::Number(n),
            Node::Text(text) => JsonModel::Text(text@),
            Node::Array(items) => JsonModel::Array(
                items@.map_values(|item: serde_json::Value| value_model(item)),
            ),
            Node::Object(members) => JsonModel::Object(
                Map::new(
                    |key: Seq<char>| 0 <= last_named(members@, key),
                    |key: Seq<char>| value_model(members@[last_named(members@, key)].1),
                ),
            ),
        }
    }
}

/// Whether no two members have one name.
pub open spec fn names_differ<Document>(members: Seq<(String, Document)>) -> bool {
    forall|i: int, j: int|
        0 <= i < j < members.len() ==> (#[trigger] members[i]).0@ != (#[trigger] members[j]).0@
}

/// Takes a `serde_json::Value` apart by its variant. What it holds is what its parts hold, and no
/// two members of an object, a `serde_json::Map`, have one name.
#[verifier::external_body]
fn take_apart(value: serde_json::Value) -> (r: Node)
    ensures
        r.model() == value_model(value),
        r matches Node::Object(members) ==> names_differ(members@),
{
    match value {
        serde_json::Value::Null => Node::Null,
        serde_json::Value::Bool(flag) => Node::Bool(flag),
        serde_json::Value::Number(number) => Node::Number(number),
        serde_json::Value::String(text) => Node::Text(text),
        serde_json::Value::Array(items) => Node::Array(items),
        serde_json::Value::Object(members) => Node::Object(members.into_iter().collect()),
    }
}

/// Puts a `serde_json::Value` together by its variant. It holds what its parts hold. No two members
/// of an object may have one name: which of them a `serde_json::Map` would keep is left open.
#[verifier::external_body]
fn put_together(node: Node) -> (r: serde_json::Value)
    requires
        node matches Node::Object(members) ==> names_differ(members@),
    ensures
        value_model(r) == node.model(),
{
    match node {
        Node::Null => serde_json::Value::Null,
        Node::Bool(flag) => serde_json::Value::Bool(flag),
        Node::Number(number) => serde_json::Value::Number(number),
        Node::Text(text) => serde_json::Value::String(text),
        Node::Array(items) => serde_json::Value::Array(items),
        Node::Object(members) => serde_json::Value::Object(members.into_iter().collect()),
    }
}

/// The list from its end to its start.
fn turned<T>(list: Vec<T>) -> (r: Vec<T>)
    ensures
        r@ == list@.reverse(),
{
    let ghost all = list@;
    let mut rest = list;
    let mut out: Vec<T> = Vec::new();
    while rest.len() > 0
        invariant
            out@.len() <= all.len(),
            rest@ == all.take(all.len() - out@.len()),
            out@ == all.reverse().take(out@.len() as int),
        decreases rest@.len(),
    {
        let ghost before = out@;
        if let Some(item) = rest.pop() {
            out.push(item);
            proof {
                assert(out@ =~= all.reverse().take(before.len() as int + 1));
                assert(rest@ =~= all.take(all.len() - out@.len()));
            }
        }
    }
    proof {
        assert(all.reverse().take(out@.len() as int) =~= all.reverse());
    }
    out
}

/// The document that a `serde_json::Value` holds.
fn json_from(value: serde_json::Value) -> (r: Json)
    ensures
        r@ == value_model(value),
    decreases value_model(value),
{
    let ghost whole = value_model(value);
    match take_apart(value) {
        Node::Null => Json::Null,
        Node::Bool(flag) => Json::Bool(flag),
        Node::Number(number) => Json::Number(number),
        Node::Text(text) => Json::Text(text),
        Node::Array(items) => {
            let ghost all = items@;
            let mut rest = turned(items);
            let mut out: Vec<Json> = Vec::new();
            proof {
                assert(all.skip(0) =~= all);
            }
            while rest.len() > 0
                invariant
                    out@.len() <= all.len(),
                    whole == value_model(value),
                    whole == JsonModel::Array(
                        all.map_values(|item: serde_json::Value| value_model(item)),
                    ),
                    rest@ == all.skip(out@.len() as int).reverse(),
                    forall|i: int|
                        0 <= i < out@.len() ==> (#[trigger] out@[i])@ == value_model(all[i]),
                decreases rest@.len(),
            {
                let ghost at = out@.len() as int;
                if let Some(item) = rest.pop() {
                    proof {
                        assert(item == all[at]);
                        assert(decreases_to!(whole => whole->Array_0));
                        assert(decreases_to!(whole->Array_0 => whole->Array_0[at]));
                        assert(rest@ =~= all.skip(at + 1).reverse());
                    }
                    out.push(json_from(item));
                }
            }
            let r = Json::Array(out);
            proof {
                assert(r@->Array_0 =~= whole->Array_0);
            }
            r
        },
        Node::Object(members) => {
            let ghost all = members@;
            let mut rest = turned(members);
            let mut out: Vec<(String, Json)> = Vec::new();
            proof {
                assert(all.skip(0) =~= all);
            }
            while rest.len() > 0
                invariant
                    out@.len() <= all.len(),
                    names_differ(all),
                    whole == value_model(value),
                    whole == Node::Object(members).model(),
                    all == members@,
                    rest@ == all.skip(out@.len() as int).reverse(),
                    forall|i: int|
                        0 <= i < out@.len() ==> (#[trigger] out@[i]).0@ == all[i].0@ && out@[i].1@
                            == value_model(all[i].1),
                decreases rest@.len(),
            {
                let ghost at = out@.len() as int;
                if let Some((key, item)) = rest.pop() {
                    proof {
                        assert((key, item) == all[at]);
                        lemma_last_named(all, key@);
                        lemma_only_named(all, at);
                        assert(whole->Object_0.contains_key(key@));
                        assert(whole->Object_0[key@] == value_model(item));
                        assert(decreases_to!(whole => whole->Object_0[key@]));
                        assert(rest@ =~= all.skip(at + 1).reverse());
                    }
                    out.push((key, json_from(item)));
                }
            }
            let r = Json::Object(out);
            proof {
                lemma_same_members(out@, all);
                assert(r@->Object_0 =~= whole->Object_0);
            }
            r
        },
    }
}

proof fn lemma_only_named<Document>(members: Seq<(String, Document)>, at: int)
    requires
        names_differ(members),
        0 <= at < members.len(),
    ensures
        last_named(members, members[at].0@) == at,
{
    let key = members[at].0@;
    lemma_last_named(members, key);
    let last = last_named(members, key);
    if last < at {
        assert(members[at].0@ != key);
    } else if last > at {
        assert(members[at].0@ != members[last].0@);
    }
}

proof fn lemma_same_members(left: Seq<(String, Json)>, right: Seq<(String, serde_json::Value)>)
    requires
        left.len() == right.len(),
        forall|i: int|
            0 <= i < left.len() ==> (#[trigger] left[i]).0@ == right[i].0@ && left[i].1@
                == value_model(right[i].1),
    ensures
        forall|key: Seq<char>| #[trigger] last_named(left, key) == last_named(right, key),
        forall|key: Seq<char>| -1 <= #[trigger] last_named(right, key) < right.len(),
{
    assert forall|key: Seq<char>| #[trigger] last_named(left, key) == last_named(right, key) by {
        lemma_same_names(left, right, key);
    }
    assert forall|key: Seq<char>| -1 <= #[trigger] last_named(right, key) < right.len() by {
        lemma_last_named(right, key);
    }
}

/// The `serde_json::Value` that holds a document.
fn value_from(json: Json) -> (r: serde_json::Value)
    ensures
        value_model(r) == json@,
    decreases json,
{
    match json {
        Json::Null => put_together(Node::Null),
        Json::Bool(flag) => put_together(Node::Bool(flag)),
        Json::Number(number) => put_together(Node::Number(number)),
        Json::Text(text) => put_together(Node::Text(text)),
        Json::Array(items) => {
            let ghost all = items@;
            let mut rest = turned(items);
            let mut out: Vec<serde_json::Value> = Vec::new();
            proof {
                assert(all.skip(0) =~= all);
            }
            while rest.len() > 0
                invariant
                    out@.len() <= all.len(),
                    json == Json::Array(items),
                    all == items@,
                    rest@ == all.skip(out@.len() as int).reverse(),
                    forall|i: int|
                        0 <= i < out@.len() ==> value_model(#[trigger] out@[i]) == all[i]@,
                decreases rest@.len(),
            {
                let ghost at = out@.len() as int;
                if let Some(item) = rest.pop() {
                    proof {
                        assert(item == all[at]);
                        assert(decreases_to!(json => json->Array_0));
                        assert(decreases_to!(items => items@));
                        assert(decreases_to!(items@ => items@[at]));
                        assert(rest@ =~= all.skip(at + 1).reverse());
                    }
                    out.push(value_from(item));
                }
            }
            proof {
                assert(Node::Array(out).model()->Array_0 =~= json@->Array_0);
            }
            put_together(Node::Array(out))
        },
        Json::Object(members) => {
            let ghost all = members@;
            let mut rest = members;
            let mut out: Vec<(String, serde_json::Value)> = Vec::new();
            proof {
                assert(all.take(all.len() as int) =~= all);
            }
            while rest.len() > 0
                invariant
                    json == Json::Object(members),
                    all == members@,
                    rest@.len() <= all.len(),
                    rest@ == all.take(rest@.len() as int),
                    stands_for_last(out@, all, rest@.len() as int),
                decreases rest@.len(),
            {
                let ghost at = rest@.len() - 1;
                if let Some((key, item)) = rest.pop() {
                    proof {
                        assert((key, item) == all[at]);
                        assert(decreases_to!(json => json->Object_0));
                        assert(decreases_to!(members => members@));
                        assert(decreases_to!(members@ => members@[at]));
                        assert(decreases_to!(members@[at] => members@[at].1));
                        assert(rest@ =~= all.take(at));
                    }
                    let ghost before = out@;
                    if !has_member(&out, &key) {
                        out.push((key, value_from(item)));
                        proof {
                            lemma_next_stands(before, all, at, out@.last());
                        }
                    } else {
                        proof {
                            lemma_shadowed(before, all, at);
                        }
                    }
                }
            }
            proof {
                lemma_all_stand(out@, all);
                assert(Node::Object(out).model()->Object_0 =~= json@->Object_0);
            }
            put_together(Node::Object(out))
        },
    }
}

/// Whether a member has the name `key`.
pub open spec fn has_name<Document>(members: Seq<(String, Document)>, key: Seq<char>) -> bool {
    exists|i: int| 0 <= i < members.len() && (#[trigger] members[i]).0@ == key
}

/// Whether a member has the name `key`.
fn has_member(members: &Vec<(String, serde_json::Value)>, key: &str) -> (r: bool)
    ensures
        r == has_name(members@, key@),
{
    let mut i: usize = 0;
    while i < members.len()
        invariant
            i <= members@.len(),
            forall|j: int| 0 <= j < i ==> (#[trigger] members@[j]).0@ != key@,
        decreases members@.len() - i,
    {
        if same_text(&members[i].0, key) {
            return true;
        }
        i = i + 1;
    }
    false
}

/// Whether `out` has, of the members of `all` from `from` on, the last one of each name, and no
/// other.
spec fn stands_for_last(
    out: Seq<(String, serde_json::Value)>,
    all: Seq<(String, Json)>,
    from: int,
) -> bool {
    &&& names_differ(out)
    &&& forall|i: int|
        0 <= i < out.len() ==> {
            let last = last_named(all, (#[trigger] out[i]).0@);
            from <= last < all.len() && value_model(out[i].1) == all[last].1@
        }
    &&& forall|j: int| from <= j < all.len() ==> has_name(out, (#[trigger] all[j]).0@)
}

proof fn lemma_next_stands(
    out: Seq<(String, serde_json::Value)>,
    all: Seq<(String, Json)>,
    at: int,
    next: (String, serde_json::Value),
)
    requires
        0 <= at < all.len(),
        stands_for_last(out, all, at + 1),
        !has_name(out, all[at].0@),
        next.0@ == all[at].0@,
        value_model(next.1) == all[at].1@,
    ensures
        stands_for_last(out.push(next), all, at),
{
    let key = all[at].0@;
    let more = out.push(next);
    lemma_last_named(all, key);
    assert(last_named(all, key) == at) by {
        let last = last_named(all, key);
        if last > at {
            assert(has_name(out, all[last].0@));
        } else if last < at {
            assert(all[at].0@ != key);
        }
    }
    assert forall|j: int| at <= j < all.len() implies has_name(more, (#[trigger] all[j]).0@) by {
        if j == at {
            assert(more[out.len() as int].0@ == all[j].0@);
        } else {
            assert(has_name(out, all[j].0@));
            let i = choose|i: int| 0 <= i < out.len() && (#[trigger] out[i]).0@ == all[j].0@;
            assert(more[i].0@ == all[j].0@);
        }
    }
    assert forall|i: int| 0 <= i < more.len() implies {
        let last = last_named(all, (#[trigger] more[i]).0@);
        at <= last < all.len() && value_model(more[i].1) == all[last].1@
    } by {
        if i < out.len() {
            assert(more[i] == out[i]);
        }
    }
    assert forall|i: int, j: int| 0 <= i < j < more.len() implies (#[trigger] more[i]).0@ != (
    #[trigger] more[j]).0@ by {
        assert(more[i] == out[i]);
        if j < out.len() {
            assert(more[j] == out[j]);
        }
    }
}

proof fn lemma_shadowed(out: Seq<(String, serde_json::Value)>, all: Seq<(String, Json)>, at: int)
    requires
        0 <= at < all.len(),
        stands_for_last(out, all, at + 1),
        has_name(out, all[at].0@),
    ensures
        stands_for_last(out, all, at),
{
    assert forall|j: int| at <= j < all.len() implies has_name(out, (#[trigger] all[j]).0@) by {
        if j > at {
            assert(has_name(out, all[j].0@));
        }
    }
}

proof fn lemma_all_stand(out: Seq<(String, serde_json::Value)>, all: Seq<(String, Json)>)
    requires
        stands_for_last(out, all, 0),
    ensures
        forall|key: Seq<char>| 0 <= #[trigger] last_named(out, key) <==> 0 <= last_named(all, key),
        forall|key: Seq<char>|
            0 <= #[trigger] last_named(out, key) ==> last_named(out, key) < out.len() && last_named(
                all,
                key,
            ) < all.len() && value_model(out[last_named(out, key)].1) == all[last_named(
                all,
                key,
            )].1@,
{
    assert forall|key: Seq<char>| true implies {
        &&& 0 <= #[trigger] last_named(out, key) <==> 0 <= last_named(all, key)
        &&& 0 <= last_named(out, key) ==> last_named(out, key) < out.len() && last_named(all, key)
            < all.len() && value_model(out[last_named(out, key)].1) == all[last_named(all, key)].1@
    } by {
        lemma_last_named(out, key);
        lemma_last_named(all, key);
        if 0 <= last_named(out, key) {
            assert(out[last_named(out, key)].0@ == key);
        }
        if 0 <= last_named(all, key) {
            assert(has_name(out, all[last_named(all, key)].0@));
        }
    }
}

/// Calls the `Display` of `serde_json::Value`, which writes compact JSON. The text depends on
/// what the value holds alone.
#[verifier::external_body]
fn text_from_value(value: serde_json::Value) -> (r: String)
    ensures
        r@ == json_text(value_model(value)),
{
    value.to_string()
}

/// Calls `serde_json::Number::from` for an `i64`.
#[verifier::external_body]
fn number_from(n: i64) -> (r: serde_json::Number)
    ensures
        r == number_of(n),
{
    serde_json::Number::from(n)
}

/// Calls `serde_json::from_str` for a `Vec<String>`. What comes back depends on the text alone.
#[verifier::external_body]
fn list_from_text(text: &str) -> (r: Option<Vec<String>>)
    ensures
        match r {
            Some(list) => text_list(text@) == Some(crate::model::texts(list@)),
            None => text_list(text@) is None,
        },
{
    serde_json::from_str::<Vec<String>>(text).ok()
}

/// Calls `serde_json::to_string` for a list of strings, which cannot fail for one. The text
/// depends on the list alone, and what was written is what is read.
#[verifier::external_body]
fn text_from_list(list: &Vec<String>) -> (r: String)
    ensures
        r@ == list_text(crate::model::texts(list@)),
        text_list(r@) == Some(crate::model::texts(list@)),
{
    serde_json::to_string(list).unwrap_or_default()
}

impl Json {
    /// The document that `text` writes, or the sentence that says why it writes none.
    pub fn parse(text: &str) -> (r: Result<Json, String>)
        ensures
            match r {
                Ok(json) => document(text@) == Ok::<JsonModel, Seq<char>>(json@),
                Err(reason) => document(text@) == Err::<JsonModel, Seq<char>>(reason@),
            },
    {
        match value_from_text(text) {
            Ok(value) => Ok(json_from(value)),
            Err(reason) => Err(reason),
        }
    }

    /// The compact text of the document.
    pub fn render(self) -> (r: String)
        ensures
            r@ == json_text(self@),
    {
        text_from_value(value_from(self))
    }

    /// The document that a `serde_json::Value` holds.
    pub fn from_value(value: serde_json::Value) -> (r: Json)
        ensures
            r@ == value_model(value),
    {
        json_from(value)
    }

    /// The `serde_json::Value` that holds the document.
    pub fn into_value(self) -> (r: serde_json::Value)
        ensures
            value_model(r) == self@,
    {
        value_from(self)
    }

    /// The document that is an integer.
    pub fn integer(n: i64) -> (r: Json)
        ensures
            r@ == JsonModel::Number(number_of(n)),
    {
        Json::Number(number_from(n))
    }
}

/// The JSON array of a list of texts.
pub fn write_list(list: &Vec<String>) -> (r: String)
    ensures
        r@ == list_text(crate::model::texts(list@)),
        text_list(r@) == Some(crate::model::texts(list@)),
{
    text_from_list(list)
}

/// The texts of a JSON array of strings; none where `text` is anything else.
pub fn read_list(text: &str) -> (r: Vec<String>)
    ensures
        crate::model::texts(r@) == match text_list(text@) {
            Some(list) => list,
            None => Seq::empty(),
        },
{
    match list_from_text(text) {
        Some(list) => list,
        None => {
            let none: Vec<String> = Vec::new();
            proof {
                assert(crate::model::texts(none@) =~= Seq::empty());
            }
            none
        },
    }
}

} // verus!
