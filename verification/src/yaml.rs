//! YAML documents as trees of plain values.

use vstd::prelude::*;
use vstd::string::*;

use crate::text;

verus! {

/// A YAML value.
#[derive(Debug)]
pub enum Yaml {
    Null,
    Bool(bool),
    Number(serde_yaml::Number),
    Text(String),
    Items(Vec<Yaml>),
    Fields(Vec<(Yaml, Yaml)>),
    /// A value with a tag before it.
    Tagged(String, Box<Yaml>),
}

/// What a YAML value holds.
pub enum YamlView {
    Null,
    Bool(bool),
    Number(serde_yaml::Number),
    Text(Seq<char>),
    Items(Seq<YamlView>),
    Fields(Seq<(YamlView, YamlView)>),
    Tagged(Seq<char>, Box<YamlView>),
}

/// The items of a list in order.
pub open spec fn trees(list: Seq<Yaml>) -> Seq<YamlView>
    decreases list,
{
    if list.len() == 0 {
        seq![]
    } else {
        trees(list.drop_last()).push(list.last().tree())
    }
}

/// The fields of a mapping in order.
pub open spec fn field_trees(list: Seq<(Yaml, Yaml)>) -> Seq<(YamlView, YamlView)>
    decreases list,
{
    if list.len() == 0 {
        seq![]
    } else {
        field_trees(list.drop_last()).push((list.last().0.tree(), list.last().1.tree()))
    }
}

impl Yaml {
    /// What the value holds.
    pub open spec fn tree(self) -> YamlView
        decreases self,
    {
        match self {
            Yaml::Null => YamlView::Null,
            Yaml::Bool(b) => YamlView::Bool(b),
            Yaml::Number(n) => YamlView::Number(n),
            Yaml::Text(s) => YamlView::Text(s@),
            Yaml::Items(list) => YamlView::Items(trees(list@)),
            Yaml::Fields(list) => YamlView::Fields(field_trees(list@)),
            Yaml::Tagged(tag, inner) => YamlView::Tagged(tag@, Box::new(inner.tree())),
        }
    }
}

impl View for Yaml {
    type V = YamlView;

    open spec fn view(&self) -> YamlView {
        self.tree()
    }
}

/// A number of `serde_yaml`, carried as it is.
#[verifier::external_type_specification]
#[verifier::external_body]
pub struct ExYamlNumber(serde_yaml::Number);

/// A value of `serde_yaml`; what it holds is told by `yaml_of`.
#[verifier::external_type_specification]
#[verifier::external_body]
pub struct ExYamlValue(serde_yaml::Value);

/// Why `serde_yaml` could not read a text; nothing is read from it.
#[verifier::external_type_specification]
#[verifier::external_body]
pub struct ExYamlError(serde_yaml::Error);

/// What a `serde_yaml::Value` holds.
pub uninterp spec fn yaml_of(value: serde_yaml::Value) -> YamlView;

/// What `serde_yaml` reads from a text; nothing where the text is no YAML document.
pub uninterp spec fn yaml_document(text: Seq<char>) -> Option<YamlView>;

/// `serde_yaml::from_str` into a `serde_yaml::Value`: gives the document that the text is, or
/// an error where it is none.
#[verifier::external_body]
fn read_value(text: &str) -> (out: Result<serde_yaml::Value, serde_yaml::Error>)
    ensures
        match out {
            Ok(value) => yaml_document(text@) == Some(yaml_of(value)),
            Err(_) => yaml_document(text@) is None,
        },
{
    serde_yaml::from_str::<serde_yaml::Value>(text)
}

/// The variants of `serde_yaml::Value` one for one; a mapping's fields come in the order in
/// which it keeps them.
#[verifier::external_body]
fn from_value(value: serde_yaml::Value) -> (out: Yaml)
    ensures
        out@ == yaml_of(value),
{
    match value {
        serde_yaml::Value::Null => Yaml::Null,
        serde_yaml::Value::Bool(b) => Yaml::Bool(b),
        serde_yaml::Value::Number(n) => Yaml::Number(n),
        serde_yaml::Value::String(s) => Yaml::Text(s),
        serde_yaml::Value::Sequence(s) => Yaml::Items(s.into_iter().map(from_value).collect()),
        serde_yaml::Value::Mapping(m) => Yaml::Fields(
            m.into_iter().map(|(k, v)| (from_value(k), from_value(v))).collect(),
        ),
        serde_yaml::Value::Tagged(t) => Yaml::Tagged(
            t.tag.to_string(),
            Box::new(from_value(t.value)),
        ),
    }
}

/// The document that `text` is.
pub fn parse_yaml(text: &str) -> (out: Option<Yaml>)
    ensures
        match out {
            Some(tree) => yaml_document(text@) == Some(tree@),
            None => yaml_document(text@) is None,
        },
{
    match read_value(text) {
        Ok(value) => Some(from_value(value)),
        Err(_) => None,
    }
}

/// The value without the tags before it.
pub open spec fn untagged(value: YamlView) -> YamlView
    decreases value,
{
    match value {
        YamlView::Tagged(_, inner) => untagged(*inner),
        _ => value,
    }
}

/// The value of the first field with this key.
pub open spec fn first_field(list: Seq<(YamlView, YamlView)>, key: Seq<char>) -> Option<YamlView>
    decreases list.len(),
{
    if list.len() == 0 {
        None
    } else if list[0].0 == YamlView::Text(key) {
        Some(list[0].1)
    } else {
        first_field(list.skip(1), key)
    }
}

/// The field with this key; nothing where the value is no mapping or has no such field.
pub open spec fn field(value: YamlView, key: Seq<char>) -> Option<YamlView> {
    match untagged(value) {
        YamlView::Fields(list) => first_field(list, key),
        _ => None,
    }
}

/// The text that a value is.
pub open spec fn as_text(value: YamlView) -> Option<Seq<char>> {
    match untagged(value) {
        YamlView::Text(s) => Some(s),
        _ => None,
    }
}

/// The items that a value has.
pub open spec fn items(value: YamlView) -> Option<Seq<YamlView>> {
    match untagged(value) {
        YamlView::Items(list) => Some(list),
        _ => None,
    }
}

/// The text of the field with this key.
pub open spec fn text_field(value: YamlView, key: Seq<char>) -> Option<Seq<char>> {
    match field(value, key) {
        Some(found) => as_text(found),
        None => None,
    }
}

/// The items of a list are those of its tree.
pub proof fn lemma_trees(list: Seq<Yaml>)
    ensures
        trees(list).len() == list.len(),
        forall|i: int|
            #![trigger list[i]]
            #![trigger trees(list)[i]]
            0 <= i < list.len() ==> trees(list)[i] == list[i]@,
    decreases list.len(),
{
    if list.len() > 0 {
        let rest = list.drop_last();
        lemma_trees(rest);
        assert forall|i: int| 0 <= i < list.len() implies trees(list)[i] == (
        #[trigger] list[i])@ by {
            if i < rest.len() {
                assert(rest[i] == list[i]);
            }
        }
    }
}

proof fn lemma_field_trees(list: Seq<(Yaml, Yaml)>)
    ensures
        field_trees(list).len() == list.len(),
        forall|i: int|
            #![trigger list[i]]
            #![trigger field_trees(list)[i]]
            0 <= i < list.len() ==> field_trees(list)[i] == (list[i].0@, list[i].1@),
    decreases list.len(),
{
    if list.len() > 0 {
        let rest = list.drop_last();
        lemma_field_trees(rest);
        assert forall|i: int| 0 <= i < list.len() implies field_trees(list)[i] == (
            (#[trigger] list[i]).0@,
            list[i].1@,
        ) by {
            if i < rest.len() {
                assert(rest[i] == list[i]);
            }
        }
    }
}

proof fn lemma_first_field(list: Seq<(YamlView, YamlView)>, key: Seq<char>, at: int)
    requires
        0 <= at <= list.len(),
        forall|i: int| 0 <= i < at ==> (#[trigger] list[i]).0 != YamlView::Text(key),
    ensures
        first_field(list, key) == first_field(list.skip(at), key),
        at < list.len() && list[at].0 == YamlView::Text(key) ==> first_field(list, key) == Some(
            list[at].1,
        ),
    decreases at,
{
    if at > 0 {
        let rest = list.skip(1);
        assert forall|i: int| 0 <= i < at - 1 implies (#[trigger] rest[i]).0 != YamlView::Text(
            key,
        ) by {
            assert(rest[i] == list[i + 1]);
        }
        assert(list[0].0 != YamlView::Text(key));
        lemma_first_field(rest, key, at - 1);
        assert(rest.skip(at - 1) =~= list.skip(at));
        if at < list.len() {
            assert(rest[at - 1] == list[at]);
        }
    } else {
        assert(list.skip(0) =~= list);
    }
}

fn untag(value: &Yaml) -> (out: &Yaml)
    ensures
        out@ == untagged(value@),
        !(*out is Tagged),
    decreases value,
{
    match value {
        Yaml::Tagged(_, inner) => untag(inner),
        _ => value,
    }
}

/// The field with this key; nothing where the value is no mapping or has no such field.
pub fn get<'a>(value: &'a Yaml, key: &str) -> (out: Option<&'a Yaml>)
    ensures
        match out {
            Some(found) => field(value@, key@) == Some(found@),
            None => field(value@, key@) is None,
        },
{
    match untag(value) {
        Yaml::Fields(list) => {
            let ghost views = field_trees(list@);
            proof {
                lemma_field_trees(list@);
            }
            let mut i: usize = 0;
            while i < list.len()
                invariant
                    i <= list@.len(),
                    views == field_trees(list@),
                    views.len() == list@.len(),
                    forall|j: int|
                        0 <= j < i ==> (#[trigger] views[j]).0 != YamlView::Text(key@),
                    field(value@, key@) == first_field(views, key@),
                decreases list@.len() - i,
            {
                proof {
                    lemma_field_trees(list@);
                    lemma_first_field(views, key@, i as int);
                }
                let entry: &(Yaml, Yaml) = &list[i];
                assert(views[i as int] == (entry.0@, entry.1@));
                match &entry.0 {
                    Yaml::Text(name) => if text::same(name.as_str(), key) {
                        return Some(&entry.1);
                    },
                    _ => {},
                }
                i = i + 1;
            }
            proof {
                lemma_first_field(views, key@, i as int);
                assert(views.skip(i as int) =~= seq![]);
            }
            None
        },
        _ => None,
    }
}

/// The text that a value is.
pub fn read_text(value: &Yaml) -> (out: Option<&str>)
    ensures
        crate::repo::text_of(out) == as_text(value@),
{
    match untag(value) {
        Yaml::Text(s) => Some(s.as_str()),
        _ => None,
    }
}

/// The text of the field with this key.
pub fn get_text<'a>(value: &'a Yaml, key: &str) -> (out: Option<&'a str>)
    ensures
        crate::repo::text_of(out) == text_field(value@, key@),
{
    match get(value, key) {
        Some(found) => read_text(found),
        None => None,
    }
}

/// The items that a value has.
pub fn read_items(value: &Yaml) -> (out: Option<&Vec<Yaml>>)
    ensures
        match out {
            Some(list) => items(value@) == Some(trees(list@)),
            None => items(value@) is None,
        },
{
    match untag(value) {
        Yaml::Items(list) => Some(list),
        _ => None,
    }
}

/// A field is found by its key, the first of that key; a tag before the mapping or before the
/// text does not matter, and what is no text gives none.
pub proof fn field_is_found_by_its_key(
    list: Seq<(YamlView, YamlView)>,
    at: int,
    key: Seq<char>,
    tag: Seq<char>,
)
    requires
        0 <= at < list.len(),
        list[at].0 == YamlView::Text(key),
        forall|i: int| 0 <= i < at ==> (#[trigger] list[i]).0 != YamlView::Text(key),
    ensures
        field(YamlView::Fields(list), key) == Some(list[at].1),
        field(YamlView::Tagged(tag, Box::new(YamlView::Fields(list))), key) == Some(list[at].1),
        list[at].1 matches YamlView::Text(s) ==> text_field(YamlView::Fields(list), key) == Some(s),
        !(list[at].1 is Text) && !(list[at].1 is Tagged) ==> text_field(
            YamlView::Fields(list),
            key,
        ) is None,
{
    lemma_first_field(list, key, at);
    let tagged = YamlView::Tagged(tag, Box::new(YamlView::Fields(list)));
    assert(untagged(tagged) == untagged(YamlView::Fields(list)));
}

/// A mapping without the key has no such field, and what is no mapping has none at all.
pub proof fn missing_fields_are_not_found(value: YamlView, key: Seq<char>)
    ensures
        value matches YamlView::Fields(list) && (forall|i: int|
            0 <= i < list.len() ==> (#[trigger] list[i]).0 != YamlView::Text(key)) ==> field(
            value,
            key,
        ) is None,
        !(value is Fields) && !(value is Tagged) ==> field(value, key) is None,
        value matches YamlView::Items(list) ==> items(value) == Some(list),
        value is Fields || value is Text || value is Null ==> items(value) is None,
{
    if let YamlView::Fields(list) = value {
        if forall|i: int| 0 <= i < list.len() ==> (#[trigger] list[i]).0 != YamlView::Text(key) {
            lemma_first_field(list, key, list.len() as int);
            assert(list.skip(list.len() as int) =~= seq![]);
        }
    }
}

} // verus!
