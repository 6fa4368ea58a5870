//! JSON documents as trees of plain values.

use vstd::prelude::*;
use vstd::string::*;

use crate::text;

verus! {

/// A JSON value. The members of an object are kept in a list, each name once.
#[derive(Debug)]
pub enum Json {
    Null,
    Bool(bool),
    /// A whole number that is not negative.
    Whole(u64),
    /// A negative whole number.
    Negative(i64),
    /// Any other number.
    Fraction(serde_json::Number),
    Text(String),
    Array(Vec<Json>),
    Object(Vec<(String, Json)>),
}

/// What a JSON value holds.
pub enum JsonView {
    Null,
    Bool(bool),
    Whole(u64),
    Negative(i64),
    Fraction(serde_json::Number),
    Text(Seq<char>),
    Array(Seq<JsonView>),
    Object(Map<Seq<char>, JsonView>),
}

/// The members of an object by name.
pub open spec fn members(list: Seq<(String, Json)>) -> Map<Seq<char>, JsonView>
    decreases list,
{
    if list.len() == 0 {
        Map::empty()
    } else {
        members(list.drop_last()).insert(list.last().0@, list.last().1.tree())
    }
}

/// The values of an array in order.
pub open spec fn trees(list: Seq<Json>) -> Seq<JsonView>
    decreases list,
{
    if list.len() == 0 {
        seq![]
    } else {
        trees(list.drop_last()).push(list.last().tree())
    }
}

impl Json {
    /// What the value holds.
    pub open spec fn tree(self) -> JsonView
        decreases self,
    {
        match self {
            Json::Null => JsonView::Null,
            Json::Bool(b) => JsonView::Bool(b),
            Json::Whole(n) => JsonView::Whole(n),
            Json::Negative(n) => JsonView::Negative(n),
            Json::Fraction(n) => JsonView::Fraction(n),
            Json::Text(s) => JsonView::Text(s@),
            Json::Array(list) => JsonView::Array(trees(list@)),
            Json::Object(list) => JsonView::Object(members(list@)),
        }
    }

    /// No object has two members of one name, and each number is of the kind that it is kept
    /// as.
    pub open spec fn valid(self) -> bool
        decreases self,
    {
        match self {
            Json::Negative(n) => n < 0,
            Json::Fraction(n) => is_fraction(n),
            Json::Array(list) => forall|i: int|
                0 <= i < list@.len() ==> (#[trigger] list@[i]).valid(),
            Json::Object(list) => {
                &&& forall|i: int| 0 <= i < list@.len() ==> (#[trigger] list@[i]).1.valid()
                &&& forall|i: int, j: int|
                    0 <= i < j < list@.len() ==> (#[trigger] list@[i]).0@ != (
                    #[trigger] list@[j]).0@
            },
            _ => true,
        }
    }
}

impl View for Json {
    type V = JsonView;

    open spec fn view(&self) -> JsonView {
        self.tree()
    }
}

/// A number of `serde_json`, carried as it is.
#[verifier::external_type_specification]
#[verifier::external_body]
pub struct ExJsonNumber(serde_json::Number);

/// A value of `serde_json`; what it holds is told by `json_of`.
#[verifier::external_type_specification]
#[verifier::external_body]
pub struct ExJsonValue(serde_json::Value);

/// Why `serde_json` could not read a text; nothing is read from it.
#[verifier::external_type_specification]
#[verifier::external_body]
pub struct ExJsonError(serde_json::Error);

/// What a `serde_json::Value` holds.
pub uninterp spec fn json_of(value: serde_json::Value) -> JsonView;

/// What `serde_json` reads from a text; nothing where the text is no JSON document.
pub uninterp spec fn json_document(text: Seq<char>) -> Option<JsonView>;

/// The text that `serde_json` writes for a value.
pub uninterp spec fn json_rendering(value: JsonView) -> Seq<char>;

/// What `serde_json::Number::is_f64` says of a number: it is not a whole number that 64 bits
/// hold.
pub uninterp spec fn is_fraction(number: serde_json::Number) -> bool;

/// `serde_json` reads arrays and objects that stand in each other so many levels deep, and no
/// deeper.
pub const MAX_LEVELS: usize = 127;

/// Arrays and objects stand in each other at most `levels` deep.
pub open spec fn nested_within(value: JsonView, levels: nat) -> bool
    decreases levels,
{
    match value {
        JsonView::Array(list) => levels > 0 && forall|i: int|
            0 <= i < list.len() ==> nested_within(#[trigger] list[i], (levels - 1) as nat),
        JsonView::Object(map) => levels > 0 && forall|k: Seq<char>| #[trigger]
            map.contains_key(k) ==> nested_within(map[k], (levels - 1) as nat),
        _ => true,
    }
}

/// The value holds no fraction, and arrays and objects stand in each other at most `levels`
/// deep.
pub open spec fn plain_within(value: JsonView, levels: nat) -> bool
    decreases levels,
{
    match value {
        JsonView::Fraction(_) => false,
        JsonView::Array(list) => levels > 0 && forall|i: int|
            0 <= i < list.len() ==> plain_within(#[trigger] list[i], (levels - 1) as nat),
        JsonView::Object(map) => levels > 0 && forall|k: Seq<char>| #[trigger]
            map.contains_key(k) ==> plain_within(map[k], (levels - 1) as nat),
        _ => true,
    }
}

/// The two values are the same but for fractions: where one has a fraction the other has one
/// too. Arrays and objects stand in each other at most `levels` deep.
pub open spec fn alike(a: JsonView, b: JsonView, levels: nat) -> bool
    decreases levels,
{
    match (a, b) {
        (JsonView::Fraction(_), JsonView::Fraction(_)) => true,
        (JsonView::Array(x), JsonView::Array(y)) => {
            &&& levels > 0
            &&& x.len() == y.len()
            &&& forall|i: int|
                #![trigger x[i]]
                #![trigger y[i]]
                0 <= i < x.len() ==> alike(x[i], y[i], (levels - 1) as nat)
        },
        (JsonView::Object(x), JsonView::Object(y)) => {
            &&& levels > 0
            &&& x.dom() == y.dom()
            &&& forall|k: Seq<char>| #[trigger]
                x.contains_key(k) ==> alike(x[k], y[k], (levels - 1) as nat)
        },
        _ => a == b,
    }
}

/// The text is that of a document that is the same as `value` but for fractions.
pub open spec fn reads_back(text: Seq<char>, value: JsonView) -> bool {
    match json_document(text) {
        Some(read) => alike(read, value, MAX_LEVELS as nat),
        None => false,
    }
}

/// `serde_json::from_str` into a `serde_json::Value`: gives the document that the text is,
/// or an error where it is none. A text whose arrays and objects stand deeper in each other
/// than the reader goes is none.
#[verifier::external_body]
fn read_value(text: &str) -> (out: Result<serde_json::Value, serde_json::Error>)
    ensures
        match out {
            Ok(value) => json_document(text@) == Some(json_of(value)) && nested_within(
                json_of(value),
                MAX_LEVELS as nat,
            ),
            Err(_) => json_document(text@) is None,
        },
{
    serde_json::from_str::<serde_json::Value>(text)
}

/// The variants of `serde_json::Value` one for one, and those of `serde_json::Number`, which
/// its accessors tell apart; an object's members come out of its map, in which each name
/// occurs once.
#[verifier::external_body]
fn from_value(value: serde_json::Value) -> (out: Json)
    ensures
        out@ == json_of(value),
        out.valid(),
        match out {
            Json::Fraction(n) => is_fraction(n),
            _ => true,
        },
{
    match value {
        serde_json::Value::Null => Json::Null,
        serde_json::Value::Bool(b) => Json::Bool(b),
        serde_json::Value::Number(n) => match (n.as_u64(), n.as_i64()) {
            (Some(u), _) => Json::Whole(u),
            (None, Some(i)) => Json::Negative(i),
            (None, None) => Json::Fraction(n),
        },
        serde_json::Value::String(s) => Json::Text(s),
        serde_json::Value::Array(a) => Json::Array(a.into_iter().map(from_value).collect()),
        serde_json::Value::Object(m) => Json::Object(
            m.into_iter().map(|(k, v)| (k, from_value(v))).collect(),
        ),
    }
}

/// The variants of `serde_json::Value` one for one, and those of `serde_json::Number`; an
/// object's members go into its map.
#[verifier::external_body]
fn to_value(tree: Json) -> (out: serde_json::Value)
    requires
        tree.valid(),
    ensures
        json_of(out) == tree@,
{
    match tree {
        Json::Null => serde_json::Value::Null,
        Json::Bool(b) => serde_json::Value::Bool(b),
        Json::Whole(n) => serde_json::Value::Number(serde_json::Number::from(n)),
        Json::Negative(n) => serde_json::Value::Number(serde_json::Number::from(n)),
        Json::Fraction(n) => serde_json::Value::Number(n),
        Json::Text(s) => serde_json::Value::String(s),
        Json::Array(a) => serde_json::Value::Array(a.into_iter().map(to_value).collect()),
        Json::Object(m) => serde_json::Value::Object(
            m.into_iter().map(|(k, v)| (k, to_value(v))).collect(),
        ),
    }
}

/// `to_string` of a `serde_json::Value`: the compact text of the value. Read again it gives
/// the same value but for fractions: whole numbers are written digit for digit, and a fraction
/// may come back as one with another last digit. This is stated for as many levels as the
/// reader goes.
#[verifier::external_body]
fn write_value(value: &serde_json::Value) -> (out: String)
    ensures
        out@ == json_rendering(json_of(*value)),
        nested_within(json_of(*value), MAX_LEVELS as nat) ==> reads_back(out@, json_of(*value)),
{
    value.to_string()
}

/// The document that `text` is.
pub fn parse_json(text: &str) -> (out: Option<Json>)
    ensures
        match out {
            Some(tree) => json_document(text@) == Some(tree@) && tree.valid() && nested_within(
                tree@,
                MAX_LEVELS as nat,
            ),
            None => json_document(text@) is None,
        },
{
    match read_value(text) {
        Ok(value) => Some(from_value(value)),
        Err(_) => None,
    }
}

/// The text of a document.
pub fn print_json(tree: Json) -> (out: String)
    requires
        tree.valid(),
    ensures
        out@ == json_rendering(tree@),
        nested_within(tree@, MAX_LEVELS as nat) ==> reads_back(out@, tree@),
{
    write_value(&to_value(tree))
}

/// The member `name` of an object; nothing where the value is no object or has no such
/// member.
pub open spec fn member(value: JsonView, name: Seq<char>) -> Option<JsonView> {
    match value {
        JsonView::Object(map) => if map.contains_key(name) {
            Some(map[name])
        } else {
            None
        },
        _ => None,
    }
}

/// The text that a value is; nothing where it is no text.
pub open spec fn as_text(value: JsonView) -> Option<Seq<char>> {
    match value {
        JsonView::Text(s) => Some(s),
        _ => None,
    }
}

/// The text of the member `name`.
pub open spec fn text_member(value: JsonView, name: Seq<char>) -> Option<Seq<char>> {
    match member(value, name) {
        Some(found) => as_text(found),
        None => None,
    }
}

/// The value is an object, or null, which counts as an object without members.
pub open spec fn takes_members(value: JsonView) -> bool {
    value is Object || value is Null
}

/// `value` with the member `name` made `new`.
pub open spec fn with_member(value: JsonView, name: Seq<char>, new: JsonView) -> JsonView {
    match value {
        JsonView::Object(map) => JsonView::Object(map.insert(name, new)),
        _ => JsonView::Object(Map::<Seq<char>, JsonView>::empty().insert(name, new)),
    }
}

proof fn lemma_members(list: Seq<(String, Json)>)
    requires
        forall|i: int, j: int|
            0 <= i < j < list.len() ==> (#[trigger] list[i]).0@ != (#[trigger] list[j]).0@,
    ensures
        forall|i: int|
            0 <= i < list.len() ==> members(list).contains_key((#[trigger] list[i]).0@)
                && members(list)[list[i].0@] == list[i].1@,
        forall|k: Seq<char>|
            members(list).contains_key(k) ==> exists|i: int|
                0 <= i < list.len() && (#[trigger] list[i]).0@ == k,
    decreases list.len(),
{
    if list.len() > 0 {
        let rest = list.drop_last();
        assert forall|i: int, j: int| 0 <= i < j < rest.len() implies (#[trigger] rest[i]).0@ != (
        #[trigger] rest[j]).0@ by {
            assert(rest[i] == list[i] && rest[j] == list[j]);
        }
        lemma_members(rest);
        assert forall|i: int| 0 <= i < list.len() implies members(list).contains_key(
            (#[trigger] list[i]).0@,
        ) && members(list)[list[i].0@] == list[i].1@ by {
            if i < rest.len() {
                assert(rest[i] == list[i]);
                assert(list[i].0@ != list[list.len() - 1].0@);
            }
        }
        assert forall|k: Seq<char>| members(list).contains_key(k) implies exists|i: int|
            0 <= i < list.len() && (#[trigger] list[i]).0@ == k by {
            if k == list.last().0@ {
                assert(list[list.len() - 1].0@ == k);
            } else {
                assert(members(rest).contains_key(k));
                let i = choose|i: int| 0 <= i < rest.len() && (#[trigger] rest[i]).0@ == k;
                assert(list[i].0@ == k);
            }
        }
    }
}

/// The values of an array are those of its tree.
pub proof fn lemma_trees(list: Seq<Json>)
    ensures
        trees(list).len() == list.len(),
        forall|i: int|
            #![trigger list[i]]
            #![trigger trees(list)[i]]
            0 <= i < list.len() ==> trees(list)[i] == list[i]@,
    decreases list.len(),
{
    if list.len() > 0 {
        let rest = list.drop_last();
        lemma_trees(rest);
        assert forall|i: int| 0 <= i < list.len() implies trees(list)[i] == (
        #[trigger] list[i])@ by {
            if i < rest.len() {
                assert(rest[i] == list[i]);
            }
        }
    }
}

/// Where the member `name` stands in the list of an object's members.
fn member_place(list: &Vec<(String, Json)>, name: &str) -> (at: Option<usize>)
    requires
        forall|i: int, j: int|
            0 <= i < j < list@.len() ==> (#[trigger] list@[i]).0@ != (#[trigger] list@[j]).0@,
    ensures
        match at {
            Some(i) => i < list@.len() && list@[i as int].0@ == name@ && members(
                list@,
            ).contains_key(name@) && members(list@)[name@] == list@[i as int].1@,
            None => !members(list@).contains_key(name@) && forall|i: int|
                0 <= i < list@.len() ==> (#[trigger] list@[i]).0@ != name@,
        },
{
    proof {
        lemma_members(list@);
    }
    let mut i: usize = 0;
    while i < list.len()
        invariant
            i <= list@.len(),
            forall|i: int, j: int|
                0 <= i < j < list@.len() ==> (#[trigger] list@[i]).0@ != (
                #[trigger] list@[j]).0@,
            forall|j: int| 0 <= j < i ==> (#[trigger] list@[j]).0@ != name@,
        decreases list@.len() - i,
    {
        if text::same(list[i].0.as_str(), name) {
            proof {
                lemma_members(list@);
            }
            return Some(i);
        }
        i = i + 1;
    }
    None
}

/// The member `name` of an object.
pub fn get<'a>(value: &'a Json, name: &str) -> (out: Option<&'a Json>)
    requires
        value.valid(),
    ensures
        match out {
            Some(found) => member(value@, name@) == Some(found@) && found.valid(),
            None => member(value@, name@) is None,
        },
{
    match value {
        Json::Object(list) => match member_place(list, name) {
            Some(i) => Some(&list[i].1),
            None => None,
        },
        _ => None,
    }
}

/// The text of the member `name`.
pub fn get_text(value: &Json, name: &str) -> (out: Option<String>)
    requires
        value.valid(),
    ensures
        match out {
            Some(s) => text_member(value@, name@) == Some(s@),
            None => text_member(value@, name@) is None,
        },
{
    match get(value, name) {
        Some(Json::Text(s)) => Some(s.clone()),
        _ => None,
    }
}

/// `value` with the member `name` made `new`.
pub fn set(value: Json, name: &str, new: Json) -> (out: Json)
    requires
        value.valid(),
        new.valid(),
        takes_members(value@),
    ensures
        out@ == with_member(value@, name@, new@),
        out.valid(),
{
    let mut list: Vec<(String, Json)> = match value {
        Json::Object(list) => list,
        _ => Vec::new(),
    };
    let ghost before = list@;
    proof {
        lemma_members(before);
        assert(value is Object ==> value@ == JsonView::Object(members(before)));
        assert(!(value is Object) ==> members(before) =~= Map::<Seq<char>, JsonView>::empty());
    }
    match member_place(&list, name) {
        Some(i) => {
            list.set(i, (name.to_string(), new));
            proof {
                assert(list@ == before.update(i as int, list@[i as int]));
                lemma_members(list@);
                assert(members(list@) =~= members(before).insert(name@, new@)) by {
                    assert forall|k: Seq<char>| members(list@).contains_key(k) == members(
                        before,
                    ).insert(name@, new@).contains_key(k) by {
                        if members(list@).contains_key(k) {
                            let j = choose|j: int|
                                0 <= j < list@.len() && (#[trigger] list@[j]).0@ == k;
                            if j != i {
                                assert(before[j].0@ == k);
                            }
                        }
                        if k != name@ && members(before).contains_key(k) {
                            let j = choose|j: int|
                                0 <= j < before.len() && (#[trigger] before[j]).0@ == k;
                            assert(list@[j].0@ == k);
                        }
                        assert(list@[i as int].0@ == name@);
                    }
                    assert forall|k: Seq<char>| members(list@).contains_key(k) implies members(
                        list@,
                    )[k] == members(before).insert(name@, new@)[k] by {
                        let j = choose|j: int|
                            0 <= j < list@.len() && (#[trigger] list@[j]).0@ == k;
                        if j != i {
                            assert(before[j] == list@[j]);
                            assert(before[i as int].0@ == name@);
                        }
                    }
                }
            }
        },
        None => {
            list.push((name.to_string(), new));
            assert(list@.drop_last() =~= before);
        },
    }
    Json::Object(list)
}

/// The member `name` taken out of an object: what is left, and the member.
pub fn take(value: Json, name: &str) -> (out: (Json, Option<Json>))
    requires
        value.valid(),
    ensures
        out.0.valid(),
        match out.1 {
            Some(found) => member(value@, name@) == Some(found@) && found.valid() && out.0@ is Object
                && (forall|new: JsonView|
                #[trigger]
                with_member(out.0@, name@, new) == with_member(value@, name@, new)),
            None => member(value@, name@) is None && out.0@ == value@,
        },
{
    match value {
        Json::Object(mut list) => {
            let ghost before = list@;
            match member_place(&list, name) {
                Some(i) => {
                    let (_key, found) = list.remove(i);
                    proof {
                        lemma_members(before);
                        assert(forall|j: int| 0 <= j < list@.len() ==> list@[j] == before[if j < i {
                            j
                        } else {
                            j + 1
                        }]);
                        lemma_members(list@);
                        assert(members(list@) =~= members(before).remove(name@)) by {
                            assert forall|k: Seq<char>| members(list@).contains_key(k) == members(
                                before,
                            ).remove(name@).contains_key(k) by {
                                if members(list@).contains_key(k) {
                                    let j = choose|j: int|
                                        0 <= j < list@.len() && (#[trigger] list@[j]).0@ == k;
                                    let was = if j < i {
                                        j
                                    } else {
                                        j + 1
                                    };
                                    assert(before[was].0@ == k);
                                    assert(before[i as int].0@ == name@);
                                }
                                if k != name@ && members(before).contains_key(k) {
                                    let j = choose|j: int|
                                        0 <= j < before.len() && (#[trigger] before[j]).0@ == k;
                                    let now = if j < i {
                                        j
                                    } else {
                                        j - 1
                                    };
                                    assert(list@[now].0@ == k);
                                }
                            }
                            assert forall|k: Seq<char>| members(list@).contains_key(k) implies
                                members(list@)[k] == members(before).remove(name@)[k] by {
                                let j = choose|j: int|
                                    0 <= j < list@.len() && (#[trigger] list@[j]).0@ == k;
                                let was = if j < i {
                                    j
                                } else {
                                    j + 1
                                };
                                assert(before[was] == list@[j]);
                            }
                        }
                        assert forall|new: JsonView| #[trigger]
                            with_member(Json::Object(list)@, name@, new) == with_member(
                                value@,
                                name@,
                                new,
                            ) by {
                            assert(members(before).remove(name@).insert(name@, new) =~= members(
                                before,
                            ).insert(name@, new));
                        }
                    }
                    (Json::Object(list), Some(found))
                },
                None => (Json::Object(list), None),
            }
        },
        other => (other, None),
    }
}

/// Without fractions or with them, a value is nested as deep as it is.
pub proof fn plain_is_nested(value: JsonView, levels: nat)
    requires
        plain_within(value, levels),
    ensures
        nested_within(value, levels),
    decreases levels,
{
    match value {
        JsonView::Array(list) => {
            assert forall|i: int| 0 <= i < list.len() implies nested_within(
                #[trigger] list[i],
                (levels - 1) as nat,
            ) by {
                plain_is_nested(list[i], (levels - 1) as nat);
            }
        },
        JsonView::Object(map) => {
            assert forall|k: Seq<char>| #[trigger] map.contains_key(k) implies nested_within(
                map[k],
                (levels - 1) as nat,
            ) by {
                plain_is_nested(map[k], (levels - 1) as nat);
            }
        },
        _ => {},
    }
}

/// Values that are the same but for fractions are the same where one has no fraction.
pub proof fn alike_is_same(a: JsonView, b: JsonView, levels: nat)
    requires
        alike(a, b, levels),
        plain_within(b, levels),
    ensures
        a == b,
    decreases levels,
{
    match (a, b) {
        (JsonView::Array(x), JsonView::Array(y)) => {
            assert forall|i: int| 0 <= i < x.len() implies x[i] == y[i] by {
                alike_is_same(x[i], y[i], (levels - 1) as nat);
            }
            assert(x =~= y);
        },
        (JsonView::Object(x), JsonView::Object(y)) => {
            assert forall|k: Seq<char>| x.contains_key(k) implies x[k] == y[k] by {
                assert(y.contains_key(k));
                alike_is_same(x[k], y[k], (levels - 1) as nat);
            }
            assert(x =~= y);
        },
        _ => {},
    }
}

/// Values that are the same but for fractions have the same texts as members.
pub proof fn alike_members(a: JsonView, b: JsonView, levels: nat, name: Seq<char>)
    requires
        alike(a, b, levels),
    ensures
        text_member(a, name) == text_member(b, name),
        match (member(a, name), member(b, name)) {
            (Some(x), Some(y)) => levels > 0 && alike(x, y, (levels - 1) as nat),
            (None, None) => true,
            _ => false,
        },
{
    match (a, b) {
        (JsonView::Object(x), JsonView::Object(y)) => {
            assert(x.contains_key(name) == x.dom().contains(name));
            assert(y.contains_key(name) == y.dom().contains(name));
            if x.contains_key(name) {
                assert(alike(x[name], y[name], (levels - 1) as nat));
            }
        },
        _ => {},
    }
}

/// A member that is not nested too deep makes no object nested too deep.
pub proof fn nested_with_member(value: JsonView, name: Seq<char>, new: JsonView, levels: nat)
    requires
        takes_members(value),
        levels > 0,
        nested_within(value, levels),
        nested_within(new, (levels - 1) as nat),
    ensures
        nested_within(with_member(value, name, new), levels),
        plain_within(value, levels) && plain_within(new, (levels - 1) as nat) ==> plain_within(
            with_member(value, name, new),
            levels,
        ),
{
    let map = if value is Object {
        value->Object_0
    } else {
        Map::empty()
    };
    let all = map.insert(name, new);
    assert(with_member(value, name, new) == JsonView::Object(all));
    assert forall|k: Seq<char>| #[trigger] all.contains_key(k) implies nested_within(
        all[k],
        (levels - 1) as nat,
    ) by {
        if k != name {
            assert(map.contains_key(k));
        }
    }
    if plain_within(value, levels) && plain_within(new, (levels - 1) as nat) {
        assert forall|k: Seq<char>| #[trigger] all.contains_key(k) implies plain_within(
            all[k],
            (levels - 1) as nat,
        ) by {
            if k != name {
                assert(map.contains_key(k));
            }
        }
    }
}

/// A member that was set is found again, and the others are as they were; where there was no
/// object, there is one that holds nothing else.
pub proof fn set_member_is_found(
    value: JsonView,
    name: Seq<char>,
    new: JsonView,
    other: Seq<char>,
)
    requires
        other != name,
    ensures
        member(with_member(value, name, new), name) == Some(new),
        value is Object ==> member(with_member(value, name, new), other) == member(value, other),
        !(value is Object) ==> member(with_member(value, name, new), other) is None,
        !(value is Object) ==> member(value, name) is None,
        new is Text ==> text_member(with_member(value, name, new), name) == Some(new->Text_0),
        !(new is Text) ==> text_member(with_member(value, name, new), name) is None,
{
}

/// A text that reads back is a document of its own, the same as what was written but for
/// fractions, down to 127 levels.
pub proof fn text_reads_back_to_its_depth(text: Seq<char>, value: JsonView)
    requires
        reads_back(text, value),
    ensures
        json_document(text) is Some,
        alike(json_document(text)->0, value, 127),
{
}

/// Every value without members, elements or a sign is one that may stand in a document.
pub proof fn plain_values_are_valid(value: Json)
    ensures
        value is Null || value is Bool || value is Whole || value is Text ==> value.valid(),
        value is Negative && value->Negative_0 < 0 ==> value.valid(),
        value is Array && value->Array_0@.len() == 0 ==> value.valid(),
        value is Object && value->Object_0@.len() == 0 ==> value.valid(),
{
}

} // verus!
