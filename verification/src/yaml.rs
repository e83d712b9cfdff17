//! YAML documents as plain trees.
use crate::text;
use vstd::prelude::*;

verus! {

/// A YAML value.
#[derive(Debug, PartialEq, Eq)]
pub enum Yaml {
    Null,
    Bool(bool),
    /// A number, as YAML writes it.
    Number(String),
    Text(String),
    Sequence(Vec<Yaml>),
    /// The entries in document order.
    Mapping(Vec<(Yaml, Yaml)>),
    /// A value under a `!Tag`.
    Tagged(String, Box<Yaml>),
}

/// What a [`Yaml`] stands for.
#[verifier::ext_equal]
pub enum YamlView {
    Null,
    Bool(bool),
    Number(Seq<char>),
    Text(Seq<char>),
    Sequence(Seq<YamlView>),
    Mapping(Seq<(YamlView, YamlView)>),
    Tagged(Seq<char>, Box<YamlView>),
}

impl View for Yaml {
    type V = YamlView;

    open spec fn view(&self) -> YamlView {
        tree_of(*self)
    }
}

/// The tree that `yaml` writes down.
pub open spec fn tree_of(yaml: Yaml) -> YamlView
    decreases yaml,
{
    match yaml {
        Yaml::Null => YamlView::Null,
        Yaml::Bool(b) => YamlView::Bool(b),
        Yaml::Number(n) => YamlView::Number(n@),
        Yaml::Text(s) => YamlView::Text(s@),
        Yaml::Sequence(items) => YamlView::Sequence(
            Seq::new(
                items@.len(),
                |i: int| if 0 <= i < items@.len() { tree_of(items@[i]) } else { arbitrary() },
            ),
        ),
        Yaml::Mapping(entries) => YamlView::Mapping(
            Seq::new(
                entries@.len(),
                |i: int|
                    if 0 <= i < entries@.len() {
                        (tree_of(entries@[i].0), tree_of(entries@[i].1))
                    } else {
                        arbitrary()
                    },
            ),
        ),
        Yaml::Tagged(tag, inner) => YamlView::Tagged(tag@, Box::new(tree_of(*inner))),
    }
}

impl YamlView {
    /// The value without the tags around it.
    pub open spec fn untagged(self) -> YamlView
        decreases self,
    {
        match self {
            YamlView::Tagged(_, inner) => inner.untagged(),
            _ => self,
        }
    }

    /// What stands under the text `key`, where the value is a mapping that has such an entry.
    pub open spec fn get(self, key: Seq<char>) -> Option<YamlView> {
        match self.untagged() {
            YamlView::Mapping(entries) => entry_under(entries, key),
            _ => None,
        }
    }

    /// The text, where the value is one.
    pub open spec fn text(self) -> Option<Seq<char>> {
        match self.untagged() {
            YamlView::Text(text) => Some(text),
            _ => None,
        }
    }

    /// The text that stands under `key`, where there is one.
    pub open spec fn text_under(self, key: Seq<char>) -> Option<Seq<char>> {
        match self.get(key) {
            Some(value) => value.text(),
            None => None,
        }
    }
}

/// The value of the first of `entries` whose key is the text `key`.
pub open spec fn entry_under(entries: Seq<(YamlView, YamlView)>, key: Seq<char>) -> Option<YamlView>
    decreases entries.len(),
{
    if entries.len() == 0 {
        None
    } else if entries[0].0 == YamlView::Text(key) {
        Some(entries[0].1)
    } else {
        entry_under(entries.drop_first(), key)
    }
}

/// What `serde_yaml` hands a document out in: a collection of nested values.
#[verifier::external_type_specification]
#[verifier::external_body]
pub struct ExValue(serde_yaml::Value);

/// What a `serde_yaml::Value` holds.
pub uninterp spec fn yaml_tree(value: serde_yaml::Value) -> YamlView;

/// What `serde_yaml` reads from the text of a document: its value, or the message of the error.
pub uninterp spec fn yaml_document(content: Seq<char>) -> Result<YamlView, Seq<char>>;

/// What a document that was read stands for: its value, or the message of the error.
pub open spec fn read(document: Result<Yaml, String>) -> Result<YamlView, Seq<char>> {
    match document {
        Ok(yaml) => Ok(yaml@),
        Err(message) => Err(message@),
    }
}

/// The outermost layer of a `serde_yaml::Value`, with the values inside it unread.
pub enum YamlNode {
    Null,
    Bool(bool),
    Number(String),
    Text(String),
    Sequence(Vec<serde_yaml::Value>),
    Mapping(Vec<(serde_yaml::Value, serde_yaml::Value)>),
    Tagged(String, serde_yaml::Value),
}

impl YamlNode {
    /// The whole value that this is the outermost layer of.
    pub open spec fn tree(self) -> YamlView {
        match self {
            YamlNode::Null => YamlView::Null,
            YamlNode::Bool(b) => YamlView::Bool(b),
            YamlNode::Number(n) => YamlView::Number(n@),
            YamlNode::Text(s) => YamlView::Text(s@),
            YamlNode::Sequence(items) => YamlView::Sequence(
                items@.map_values(|item: serde_yaml::Value| yaml_tree(item)),
            ),
            YamlNode::Mapping(entries) => YamlView::Mapping(
                entries@.map_values(
                    |entry: (serde_yaml::Value, serde_yaml::Value)|
                        (yaml_tree(entry.0), yaml_tree(entry.1)),
                ),
            ),
            YamlNode::Tagged(tag, inner) => YamlView::Tagged(tag@, Box::new(yaml_tree(inner))),
        }
    }
}

/// `serde_yaml::from_str` into a `serde_yaml::Value`, with an error turned into its message.
/// What it reads is a function of the text alone, which is named and not described.
#[verifier::external_body]
fn read_value(content: &str) -> (read: Result<serde_yaml::Value, String>)
    ensures
        yaml_document(content@) == match read {
            Ok(value) => Ok::<YamlView, Seq<char>>(yaml_tree(value)),
            Err(message) => Err(message@),
        },
{
    serde_yaml::from_str(content).map_err(|e| e.to_string())
}

/// Tells the variants of `serde_yaml::Value` apart and hands out what each one carries: a
/// mapping's entries in their order, a number and a tag as their `Display` writes them. The
/// layer and what it carries make up the value that was taken apart.
#[verifier::external_body]
fn open_value(value: serde_yaml::Value) -> (node: YamlNode)
    ensures
        node.tree() == yaml_tree(value),
{
    match value {
        serde_yaml::Value::Null => YamlNode::Null,
        serde_yaml::Value::Bool(b) => YamlNode::Bool(b),
        serde_yaml::Value::Number(n) => YamlNode::Number(n.to_string()),
        serde_yaml::Value::String(s) => YamlNode::Text(s),
        serde_yaml::Value::Sequence(items) => YamlNode::Sequence(items),
        serde_yaml::Value::Mapping(map) => YamlNode::Mapping(map.into_iter().collect()),
        serde_yaml::Value::Tagged(t) => YamlNode::Tagged(t.tag.to_string(), t.value),
    }
}

impl Yaml {
    /// Reads the document `content`.
    pub fn parse(content: &str) -> (parsed: Result<Yaml, String>)
        ensures
            read(parsed) == yaml_document(content@),
    {
        match read_value(content) {
            Ok(value) => Ok(Yaml::from_value(value)),
            Err(message) => Err(message),
        }
    }

    /// The tree that `value` holds.
    pub fn from_value(value: serde_yaml::Value) -> (yaml: Yaml)
        ensures
            yaml@ == yaml_tree(value),
        decreases yaml_tree(value),
    {
        let node = open_value(value);
        let ghost whole = node.tree();
        match node {
            YamlNode::Null => Yaml::Null,
            YamlNode::Bool(b) => Yaml::Bool(b),
            YamlNode::Number(n) => Yaml::Number(n),
            YamlNode::Text(s) => Yaml::Text(s),
            YamlNode::Sequence(items) => {
                let mut read: Vec<Yaml> = Vec::new();
                let ghost all = items@;
                for item in it: items
                    invariant
                        it.seq() == all,
                        whole == yaml_tree(value),
                        whole == YamlView::Sequence(
                            all.map_values(|item: serde_yaml::Value| yaml_tree(item)),
                        ),
                        read@.len() == it.index(),
                        forall|i: int| 0 <= i < read@.len() ==> (#[trigger] read@[i])@ == yaml_tree(all[i]),
                {
                    assert(whole->Sequence_0[it.index() as int] == yaml_tree(item));
                    read.push(Yaml::from_value(item));
                }
                let yaml = Yaml::Sequence(read);
                assert(yaml@->Sequence_0 =~= whole->Sequence_0);
                yaml
            },
            YamlNode::Mapping(entries) => {
                let mut read: Vec<(Yaml, Yaml)> = Vec::new();
                let ghost all = entries@;
                for entry in it: entries
                    invariant
                        it.seq() == all,
                        whole == yaml_tree(value),
                        whole == YamlView::Mapping(
                            all.map_values(
                                |entry: (serde_yaml::Value, serde_yaml::Value)|
                                    (yaml_tree(entry.0), yaml_tree(entry.1)),
                            ),
                        ),
                        read@.len() == it.index(),
                        forall|i: int|
                            0 <= i < read@.len() ==> (#[trigger] read@[i]).0@ == yaml_tree(all[i].0)
                                && read@[i].1@ == yaml_tree(all[i].1),
                {
                    assert(whole->Mapping_0[it.index() as int].0 == yaml_tree(entry.0));
                    assert(whole->Mapping_0[it.index() as int].1 == yaml_tree(entry.1));
                    let (key, value) = entry;
                    read.push((Yaml::from_value(key), Yaml::from_value(value)));
                }
                let yaml = Yaml::Mapping(read);
                assert(yaml@->Mapping_0 =~= whole->Mapping_0);
                yaml
            },
            YamlNode::Tagged(tag, inner) => {
                assert(*whole->Tagged_1 == yaml_tree(inner));
                Yaml::Tagged(tag, Box::new(Yaml::from_value(inner)))
            },
        }
    }

    fn untag(&self) -> (inner: &Yaml)
        ensures
            inner@ == self@.untagged(),
            inner !is Tagged,
        decreases self,
    {
        match self {
            Yaml::Tagged(_, inner) => inner.untag(),
            _ => self,
        }
    }

    /// What stands under `key`: `None` where the value, tags aside, is no mapping or has no
    /// such key.
    pub fn get(&self, key: &str) -> (found: Option<&Yaml>)
        ensures
            self@.get(key@) == match found {
                Some(yaml) => Some(yaml@),
                None => None::<YamlView>,
            },
    {
        match self.untag() {
            Yaml::Mapping(entries) => {
                let ghost all = self@.untagged()->Mapping_0;
                let mut i: usize = 0;
                assert(all.skip(0) == all);
                while i < entries.len()
                    invariant
                        i <= entries@.len(),
                        self@.untagged() == YamlView::Mapping(all),
                        all.len() == entries@.len(),
                        forall|j: int|
                            0 <= j < all.len() ==> #[trigger] all[j] == (entries@[j].0@, entries@[j].1@),
                        entry_under(all, key@) == entry_under(all.skip(i as int), key@),
                    decreases entries@.len() - i,
                {
                    assert(all.skip(i as int).drop_first() == all.skip(i + 1));
                    assert(all.skip(i as int)[0] == all[i as int]);
                    if let Yaml::Text(text) = &entries[i].0 {
                        if text::same_text(text.as_str(), key) {
                            return Some(&entries[i].1);
                        }
                    }
                    i = i + 1;
                }
                None
            },
            _ => None,
        }
    }

    /// The text, where the value, tags aside, is one.
    pub fn as_str(&self) -> (text: Option<&str>)
        ensures
            self@.text() == match text {
                Some(text) => Some(text@),
                None => None::<Seq<char>>,
            },
    {
        match self.untag() {
            Yaml::Text(text) => Some(text.as_str()),
            _ => None,
        }
    }

    /// The text that stands under `key`, where there is one.
    pub(crate) fn text_under(&self, key: &str) -> (text: Option<&str>)
        ensures
            self@.text_under(key@) == match text {
                Some(text) => Some(text@),
                None => None::<Seq<char>>,
            },
    {
        match self.get(key) {
            Some(value) => value.as_str(),
            None => None,
        }
    }

    fn copied(&self) -> (copy: Yaml)
        ensures
            copy@ == self@,
        decreases self@,
    {
        match self {
            Yaml::Null => Yaml::Null,
            Yaml::Bool(b) => Yaml::Bool(*b),
            Yaml::Number(n) => Yaml::Number(n.clone()),
            Yaml::Text(s) => Yaml::Text(s.clone()),
            Yaml::Sequence(items) => {
                let mut copies: Vec<Yaml> = Vec::new();
                for i in 0..items.len()
                    invariant
                        *self == Yaml::Sequence(*items),
                        copies@.len() == i,
                        forall|j: int| 0 <= j < i ==> (#[trigger] copies@[j])@ == items@[j]@,
                {
                    assert(self@->Sequence_0[i as int] == items@[i as int]@);
                    copies.push(items[i].copied());
                }
                let copy = Yaml::Sequence(copies);
                assert(copy@->Sequence_0 =~= self@->Sequence_0);
                copy
            },
            Yaml::Mapping(entries) => {
                let mut copies: Vec<(Yaml, Yaml)> = Vec::new();
                for i in 0..entries.len()
                    invariant
                        *self == Yaml::Mapping(*entries),
                        copies@.len() == i,
                        forall|j: int|
                            0 <= j < i ==> (#[trigger] copies@[j]).0@ == entries@[j].0@
                                && copies@[j].1@ == entries@[j].1@,
                {
                    assert(self@->Mapping_0[i as int].0 == entries@[i as int].0@);
                    assert(self@->Mapping_0[i as int].1 == entries@[i as int].1@);
                    copies.push((entries[i].0.copied(), entries[i].1.copied()));
                }
                let copy = Yaml::Mapping(copies);
                assert(copy@->Mapping_0 =~= self@->Mapping_0);
                copy
            },
            Yaml::Tagged(tag, inner) => {
                assert(*self@->Tagged_1 == inner@);
                Yaml::Tagged(tag.clone(), Box::new(inner.copied()))
            },
        }
    }
}

impl Clone for Yaml {
    fn clone(&self) -> (copy: Yaml)
        ensures
            copy@ == self@,
    {
        self.copied()
    }
}

/// Tags are looked through: a tag makes no difference to what stands under a key, nor to the text
/// that a value is.
pub proof fn law_tags_are_looked_through(tag: Seq<char>, value: YamlView, key: Seq<char>)
    ensures
        YamlView::Tagged(tag, Box::new(value)).get(key) == value.get(key),
        YamlView::Tagged(tag, Box::new(value)).text() == value.text(),
        YamlView::Tagged(tag, Box::new(value)).text_under(key) == value.text_under(key),
{
}

/// A key that a mapping has is found wherever it stands: the first entry under it counts.
pub proof fn law_key_is_found_wherever_it_stands(
    entries: Seq<(YamlView, YamlView)>,
    key: Seq<char>,
    i: int,
)
    requires
        0 <= i < entries.len(),
        entries[i].0 == YamlView::Text(key),
        forall|j: int| 0 <= j < i ==> (#[trigger] entries[j]).0 != YamlView::Text(key),
    ensures
        YamlView::Mapping(entries).get(key) == Some(entries[i].1),
        YamlView::Mapping(entries).text_under(key) == entries[i].1.text(),
    decreases entries.len(),
{
    if i > 0 {
        let rest = entries.drop_first();
        assert forall|j: int| 0 <= j < i - 1 implies (#[trigger] rest[j]).0 != YamlView::Text(key) by {
            assert(rest[j] == entries[j + 1]);
        }
        assert(entries[0].0 != YamlView::Text(key));
        law_key_is_found_wherever_it_stands(rest, key, i - 1);
    }
}

/// Nothing is found under a key exactly if no entry has it.
pub proof fn law_nothing_is_found_under_an_absent_key(
    entries: Seq<(YamlView, YamlView)>,
    key: Seq<char>,
)
    ensures
        YamlView::Mapping(entries).get(key) is None <==> (forall|i: int|
            0 <= i < entries.len() ==> (#[trigger] entries[i]).0 != YamlView::Text(key)),
        YamlView::Mapping(entries).get(key) is None ==> YamlView::Mapping(entries).text_under(
            key,
        ) is None,
    decreases entries.len(),
{
    if entries.len() > 0 {
        let rest = entries.drop_first();
        law_nothing_is_found_under_an_absent_key(rest, key);
        assert(forall|i: int| 0 <= i < rest.len() ==> #[trigger] rest[i] == entries[i + 1]);
        if forall|i: int| 0 <= i < rest.len() ==> (#[trigger] rest[i]).0 != YamlView::Text(key) {
            assert forall|i: int| 0 <= i < entries.len() && entries[0].0 != YamlView::Text(
                key,
            ) implies (#[trigger] entries[i]).0 != YamlView::Text(key) by {
                if i > 0 {
                    assert(rest[i - 1] == entries[i]);
                }
            }
        } else {
            let i = choose|i: int|
                0 <= i < rest.len() && (#[trigger] rest[i]).0 == YamlView::Text(key);
            assert(entries[i + 1].0 == YamlView::Text(key));
        }
    }
}

/// A text is the text that it is and no mapping, a mapping is no text, and the other values are
/// neither.
pub proof fn law_texts_and_mappings_are_told_apart(value: YamlView, key: Seq<char>)
    requires
        value !is Tagged,
    ensures
        value is Text ==> value.text() == Some(value->Text_0),
        value !is Text ==> value.text() is None,
        value !is Mapping ==> value.get(key) is None && value.text_under(key) is None,
{
}

/// Two lookups agree: what stands under a key as a text is the text of what stands there.
pub proof fn law_text_under_a_key(value: YamlView, key: Seq<char>)
    ensures
        value.get(key) is Some ==> value.text_under(key) == value.get(key)->0.text(),
        value.get(key) is None ==> value.text_under(key) is None,
{
}

/// The tree of a value has the value's own parts: all items and all entries, in their order.
pub proof fn law_tree_has_the_parts_of_the_value(yaml: Yaml)
    ensures
        match yaml {
            Yaml::Null => yaml@ is Null,
            Yaml::Bool(b) => yaml@ == YamlView::Bool(b),
            Yaml::Number(n) => yaml@ == YamlView::Number(n@),
            Yaml::Text(s) => yaml@ == YamlView::Text(s@),
            Yaml::Sequence(items) => {
                &&& yaml@ is Sequence
                &&& yaml@->Sequence_0.len() == items@.len()
                &&& forall|i: int|
                    0 <= i < items@.len() ==> #[trigger] yaml@->Sequence_0[i] == items@[i]@
            },
            Yaml::Mapping(entries) => {
                &&& yaml@ is Mapping
                &&& yaml@->Mapping_0.len() == entries@.len()
                &&& forall|i: int|
                    0 <= i < entries@.len() ==> (#[trigger] yaml@->Mapping_0[i]).0 == entries@[i].0@
                        && yaml@->Mapping_0[i].1 == entries@[i].1@
            },
            Yaml::Tagged(tag, inner) => yaml@ == YamlView::Tagged(tag@, Box::new(inner@)),
        },
{
}

/// The outermost layer of a value and the values inside it make up the whole: no part is lost.
pub proof fn law_layer_has_the_parts_of_the_value(node: YamlNode)
    ensures
        match node {
            YamlNode::Null => node.tree() is Null,
            YamlNode::Bool(b) => node.tree() == YamlView::Bool(b),
            YamlNode::Number(n) => node.tree() == YamlView::Number(n@),
            YamlNode::Text(s) => node.tree() == YamlView::Text(s@),
            YamlNode::Sequence(items) => {
                &&& node.tree() is Sequence
                &&& node.tree()->Sequence_0.len() == items@.len()
                &&& forall|i: int|
                    0 <= i < items@.len() ==> #[trigger] node.tree()->Sequence_0[i] == yaml_tree(
                        items@[i],
                    )
            },
            YamlNode::Mapping(entries) => {
                &&& node.tree() is Mapping
                &&& node.tree()->Mapping_0.len() == entries@.len()
                &&& forall|i: int|
                    0 <= i < entries@.len() ==> (#[trigger] node.tree()->Mapping_0[i]).0
                        == yaml_tree(entries@[i].0) && node.tree()->Mapping_0[i].1 == yaml_tree(
                        entries@[i].1,
                    )
            },
            YamlNode::Tagged(tag, inner) => node.tree() == YamlView::Tagged(
                tag@,
                Box::new(yaml_tree(inner)),
            ),
        },
{
}

/// Reading a document hands on the whole value, or the message as it is.
pub proof fn law_document_is_handed_on(content: &str, parsed: Result<Yaml, String>)
    requires
        call_ensures(Yaml::parse, (content,), parsed),
    ensures
        parsed is Ok <==> yaml_document(content@) is Ok,
        parsed is Ok ==> parsed->Ok_0@ == yaml_document(content@)->Ok_0,
        parsed is Err ==> parsed->Err_0@ == yaml_document(content@)->Err_0,
{
}

/// A value that is read and then copied is still the value that was read.
pub proof fn law_read_and_copied(value: serde_yaml::Value, yaml: Yaml, copy: Yaml)
    requires
        call_ensures(Yaml::from_value, (value,), yaml),
        call_ensures(<Yaml as Clone>::clone, (&yaml,), copy),
    ensures
        yaml@ == yaml_tree(value),
        copy@ == yaml_tree(value),
{
}

/// Looking a key up in a mapping gives the value of an entry with that key, the first one, and
/// nothing only where there is none.
pub proof fn law_lookup_gives_the_first_entry(
    yaml: &Yaml,
    entries: Vec<(Yaml, Yaml)>,
    key: &str,
    found: Option<&Yaml>,
)
    requires
        *yaml == Yaml::Mapping(entries),
        call_ensures(Yaml::get, (yaml, key), found),
    ensures
        found is None ==> forall|i: int|
            0 <= i < entries@.len() ==> (#[trigger] entries@[i]).0@ != YamlView::Text(key@),
        found is Some ==> exists|i: int|
            {
                &&& 0 <= i < entries@.len()
                &&& (#[trigger] entries@[i]).0@ == YamlView::Text(key@)
                &&& entries@[i].1@ == found->0@
                &&& forall|j: int|
                    0 <= j < i ==> (#[trigger] entries@[j]).0@ != YamlView::Text(key@)
            },
{
    let all = yaml@->Mapping_0;
    law_tree_has_the_parts_of_the_value(*yaml);
    law_nothing_is_found_under_an_absent_key(all, key@);
    assert(yaml@.get(key@) == YamlView::Mapping(all).get(key@));
    if found is None {
        assert forall|i: int| 0 <= i < entries@.len() implies (#[trigger] entries@[i]).0@
            != YamlView::Text(key@) by {
            assert(all[i].0 != YamlView::Text(key@));
        }
    } else {
        let some = choose|i: int| 0 <= i < all.len() && (#[trigger] all[i]).0 == YamlView::Text(key@);
        let first = lemma_first_entry(all, key@, some);
        law_key_is_found_wherever_it_stands(all, key@, first);
        assert(entries@[first].0@ == YamlView::Text(key@));
        assert forall|j: int| 0 <= j < first implies (#[trigger] entries@[j]).0@ != YamlView::Text(
            key@,
        ) by {
            assert(all[j].0 != YamlView::Text(key@));
        }
    }
}

/// Where a key has an entry, it has a first one.
proof fn lemma_first_entry(entries: Seq<(YamlView, YamlView)>, key: Seq<char>, some: int) -> (first:
    int)
    requires
        0 <= some < entries.len(),
        entries[some].0 == YamlView::Text(key),
    ensures
        0 <= first <= some,
        entries[first].0 == YamlView::Text(key),
        forall|j: int| 0 <= j < first ==> (#[trigger] entries[j]).0 != YamlView::Text(key),
    decreases some,
{
    if forall|j: int| 0 <= j < some ==> (#[trigger] entries[j]).0 != YamlView::Text(key) {
        some
    } else {
        let earlier = choose|j: int|
            0 <= j < some && (#[trigger] entries[j]).0 == YamlView::Text(key);
        lemma_first_entry(entries, key, earlier)
    }
}

/// A value that is a text is read as that text, with or without a tag around it.
pub proof fn law_text_is_read_as_it_is(yaml: &Yaml, text: Option<&str>)
    requires
        call_ensures(Yaml::as_str, (yaml,), text),
    ensures
        *yaml matches Yaml::Text(s) ==> text is Some && text->0@ == s@,
        *yaml matches Yaml::Tagged(_, inner) ==> *inner matches Yaml::Text(s) ==> text is Some
            && text->0@ == s@,
        yaml !is Text && yaml !is Tagged ==> text is None,
{
    if let Yaml::Tagged(tag, inner) = *yaml {
        law_tree_has_the_parts_of_the_value(*yaml);
        law_tree_has_the_parts_of_the_value(*inner);
        law_tags_are_looked_through(tag@, inner@, Seq::empty());
    }
}

} // verus!
