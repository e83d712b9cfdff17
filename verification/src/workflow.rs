//! Workflow files: their parts, their triggers and the actions that they refer to.
use crate::text;
use crate::yaml::{Yaml, YamlView};
use std::collections::HashMap;
use vstd::prelude::*;

verus! {

#[derive(Debug)]
pub struct WorkflowDefinition {
    pub name: String,
    /// The names of the events that trigger the workflow.
    pub on: Vec<String>,
    /// The `on` section as it stands in the file.
    pub on_raw: Yaml,
    pub jobs: HashMap<String, Job>,
}

#[derive(Debug)]
pub struct Job {
    pub runs_on: Option<Vec<String>>,
    pub needs: Option<Vec<String>>,
    pub steps: Vec<Step>,
    pub env: HashMap<String, String>,
    pub matrix: Option<Yaml>,
    pub services: HashMap<String, Service>,
    pub if_condition: Option<String>,
    pub outputs: Option<HashMap<String, String>>,
    pub permissions: Option<HashMap<String, String>>,
    // Reusable workflow (job-level 'uses') support
    pub uses: Option<String>,
    pub with: Option<HashMap<String, String>>,
    pub secrets: Option<Yaml>,
}

#[derive(Debug)]
pub struct Service {
    pub image: String,
    pub ports: Option<Vec<String>>,
    pub env: HashMap<String, String>,
    pub volumes: Option<Vec<String>>,
    pub options: Option<String>,
}

#[derive(Debug)]
pub struct Step {
    pub name: Option<String>,
    pub uses: Option<String>,
    pub run: Option<String>,
    pub with: Option<HashMap<String, String>>,
    pub env: HashMap<String, String>,
    pub continue_on_error: Option<bool>,
}

/// What a step's `uses` refers to.
#[derive(Debug, PartialEq, Eq)]
pub struct ActionInfo {
    pub repository: String,
    pub version: String,
    pub is_docker: bool,
    pub is_local: bool,
}

/// What an [`ActionInfo`] stands for.
#[verifier::ext_equal]
pub struct ActionInfoView {
    pub repository: Seq<char>,
    pub version: Seq<char>,
    pub is_docker: bool,
    pub is_local: bool,
}

impl View for ActionInfo {
    type V = ActionInfoView;

    open spec fn view(&self) -> ActionInfoView {
        ActionInfoView {
            repository: self.repository@,
            version: self.version@,
            is_docker: self.is_docker,
            is_local: self.is_local,
        }
    }
}

impl Clone for ActionInfo {
    fn clone(&self) -> (copy: ActionInfo)
        ensures
            copy@ == self@,
    {
        ActionInfo {
            repository: self.repository.clone(),
            version: self.version.clone(),
            is_docker: self.is_docker,
            is_local: self.is_local,
        }
    }
}

/// What the reference `action_ref` refers to. A `@` ends the repository, and another one the
/// version. Without a version the default is `main`, and nothing for an image or a local path.
pub open spec fn action_info(action_ref: Seq<char>) -> ActionInfoView {
    let parts = text::pieces(action_ref, '@');
    let is_docker = "docker://"@.is_prefix_of(parts[0]);
    let is_local = "./"@.is_prefix_of(parts[0]);
    ActionInfoView {
        repository: parts[0],
        version: if parts.len() > 1 {
            parts[1]
        } else if is_docker || is_local {
            ""@
        } else {
            "main"@
        },
        is_docker,
        is_local,
    }
}

/// The names of the events in the `on` section `on`, or the message of the error.
pub open spec fn triggers_of(on: YamlView) -> Result<Seq<Seq<char>>, Seq<char>> {
    match on {
        YamlView::Text(event) => Ok(seq![event]),
        YamlView::Sequence(events) => Ok(events.filter_map(|event: YamlView| event.text())),
        YamlView::Mapping(events) => Ok(
            events.filter_map(|event: (YamlView, YamlView)| event.0.text()),
        ),
        _ => Err("'on' section has invalid format"@),
    }
}

/// The texts that `list` holds.
pub open spec fn texts(list: Seq<String>) -> Seq<Seq<char>> {
    list.map_values(|item: String| item@)
}

/// Appends `event`'s name, if it has one.
fn push_name(names: &mut Vec<String>, event: &Yaml)
    ensures
        texts(final(names)@) == match event@.text() {
            Some(name) => texts(old(names)@) + seq![name],
            None => texts(old(names)@),
        },
{
    if let Some(name) = event.as_str() {
        names.push(name.to_owned());
        assert(texts(names@) =~= texts(old(names)@) + seq![name@]);
    }
}

/// The names of the events in an `on` section: the section itself where it is a text, its items
/// where it is a list, its keys where it is a mapping. What is no text has no name and is left
/// out.
pub fn normalize_triggers(on_value: &Yaml) -> (result: Result<Vec<String>, String>)
    ensures
        triggers_of(on_value@) == match result {
            Ok(triggers) => Ok::<Seq<Seq<char>>, Seq<char>>(texts(triggers@)),
            Err(message) => Err(message@),
        },
{
    let mut triggers: Vec<String> = Vec::new();
    match on_value {
        // Simple string trigger: on: push
        Yaml::Text(event) => {
            triggers.push(event.clone());
            assert(texts(triggers@) =~= seq![event@]);
        },
        // Array of triggers: on: [push, pull_request]
        Yaml::Sequence(events) => {
            let ghost all = on_value@->Sequence_0;
            let ghost name = |event: YamlView| event.text();
            assert(all.take(0) =~= Seq::<YamlView>::empty());
            assert(texts(triggers@) =~= all.take(0).filter_map(name));
            for i in 0..events.len()
                invariant
                    on_value@ == YamlView::Sequence(all),
                    *on_value == Yaml::Sequence(*events),
                    name == (|event: YamlView| event.text()),
                    all.len() == events@.len(),
                    texts(triggers@) == all.take(i as int).filter_map(name),
            {
                assert(all.take(i + 1).drop_last() =~= all.take(i as int));
                assert(all[i as int] == events@[i as int]@);
                push_name(&mut triggers, &events[i]);
            }
            assert(all.take(all.len() as int) =~= all);
        },
        // Map of triggers with configuration: on: {push: {branches: [main]}}
        Yaml::Mapping(events) => {
            let ghost all = on_value@->Mapping_0;
            let ghost name = |event: (YamlView, YamlView)| event.0.text();
            assert(all.take(0) =~= Seq::<(YamlView, YamlView)>::empty());
            assert(texts(triggers@) =~= all.take(0).filter_map(name));
            for i in 0..events.len()
                invariant
                    on_value@ == YamlView::Mapping(all),
                    *on_value == Yaml::Mapping(*events),
                    name == (|event: (YamlView, YamlView)| event.0.text()),
                    all.len() == events@.len(),
                    texts(triggers@) == all.take(i as int).filter_map(name),
            {
                assert(all.take(i + 1).drop_last() =~= all.take(i as int));
                assert(all[i as int].0 == events@[i as int].0@);
                push_name(&mut triggers, &events[i].0);
            }
            assert(all.take(all.len() as int) =~= all);
        },
        _ => {
            return Err("'on' section has invalid format".to_owned());
        },
    }
    Ok(triggers)
}

impl WorkflowDefinition {
    /// Parse a GitHub action reference like "actions/checkout@v3".
    pub fn resolve_action(&self, action_ref: &str) -> (info: ActionInfo)
        ensures
            info@ == action_info(action_ref@),
    {
        let parts = text::split(action_ref, '@');
        let ghost pieces = text::pieces(action_ref@, '@');
        assert(pieces.len() == parts@.len());
        assert(pieces[0] == parts@[0]@);

        let is_docker = text::starts_with(parts[0], "docker://");
        let is_local = text::starts_with(parts[0], "./");

        // Docker references (docker://image:tag) embed the tag in the repository
        // string itself, not via @version, so version is empty for them.
        let version = if parts.len() > 1 {
            assert(pieces[1] == parts@[1]@);
            parts[1]
        } else if is_docker || is_local {
            ""
        } else {
            "main"  // Default to main if no version specified
        };

        ActionInfo {
            repository: parts[0].to_owned(),
            version: version.to_owned(),
            is_docker,
            is_local,
        }
    }
}

/// A field that is written as one text or as a list of texts.
#[derive(Debug, PartialEq, Eq)]
pub enum StringOrVec {
    One(String),
    Many(Vec<String>),
}

/// The texts that a field stands for, where it is there.
pub open spec fn listed(value: Option<StringOrVec>) -> Option<Seq<Seq<char>>> {
    match value {
        Some(StringOrVec::One(item)) => Some(seq![item@]),
        Some(StringOrVec::Many(items)) => Some(texts(items@)),
        None => None,
    }
}

/// What `list` stands for.
pub open spec fn optional_texts(list: Option<Vec<String>>) -> Option<Seq<Seq<char>>> {
    match list {
        Some(items) => Some(texts(items@)),
        None => None,
    }
}

fn as_list(value: Option<StringOrVec>) -> (list: Option<Vec<String>>)
    ensures
        optional_texts(list) == listed(value),
{
    match value {
        Some(StringOrVec::One(item)) => {
            let items = vec![item];
            assert(texts(items@) =~= seq![item@]);
            Some(items)
        },
        Some(StringOrVec::Many(items)) => Some(items),
        None => None,
    }
}

/// The list that a `needs` field stands for, which is written as a string or as an array.
pub fn deserialize_needs(value: Option<StringOrVec>) -> (needs: Option<Vec<String>>)
    ensures
        optional_texts(needs) == listed(value),
{
    as_list(value)
}

/// The list that a `runs-on` field stands for, which is written as a string or as an array.
pub fn deserialize_runs_on(value: Option<StringOrVec>) -> (runs_on: Option<Vec<String>>)
    ensures
        optional_texts(runs_on) == listed(value),
{
    as_list(value)
}

/// How far the reading of a workflow file has come.
#[derive(Debug)]
pub enum WorkflowInput {
    /// The schema could not be had.
    NoSchema { message: String },
    /// The file does not follow the schema.
    Invalid { message: String },
    /// The file follows the schema and could not be read.
    Unreadable { message: String },
    /// The file was read and does not have the structure of a workflow.
    Malformed { message: String },
    /// The file was read. Its triggers are still to be named.
    Parsed { workflow: WorkflowDefinition },
}

/// The workflow of a file, once its reading has come as far as it will.
pub fn parse_workflow(input: WorkflowInput) -> (result: Result<WorkflowDefinition, String>)
    ensures
        match input {
            WorkflowInput::NoSchema { message } => result matches Err(error) && error@ == message@,
            WorkflowInput::Invalid { message } => result matches Err(error) && error@ == message@,
            WorkflowInput::Unreadable { message } => result matches Err(error) && error@
                == "Failed to read workflow file: "@ + message@,
            WorkflowInput::Malformed { message } => result matches Err(error) && error@
                == "Failed to parse workflow structure: "@ + message@,
            WorkflowInput::Parsed { workflow: parsed } => match triggers_of(parsed.on_raw@) {
                Ok(triggers) => {
                    &&& result matches Ok(workflow)
                    &&& texts(workflow.on@) == triggers
                    &&& workflow.name == parsed.name
                    &&& workflow.on_raw == parsed.on_raw
                    &&& workflow.jobs == parsed.jobs
                },
                Err(message) => result matches Err(error) && error@ == message,
            },
        },
{
    match input {
        WorkflowInput::NoSchema { message } => Err(message),
        WorkflowInput::Invalid { message } => Err(message),
        WorkflowInput::Unreadable { message } => Err(
            text::concat("Failed to read workflow file: ", message.as_str()),
        ),
        WorkflowInput::Malformed { message } => Err(
            text::concat("Failed to parse workflow structure: ", message.as_str()),
        ),
        WorkflowInput::Parsed { workflow } => {
            // Normalize the trigger events
            match normalize_triggers(&workflow.on_raw) {
                Ok(on) => Ok(
                    WorkflowDefinition {
                        name: workflow.name,
                        on,
                        on_raw: workflow.on_raw,
                        jobs: workflow.jobs,
                    },
                ),
                Err(message) => Err(message),
            }
        },
    }
}

/// A reference with one `@` is its repository and its version with the `@` between them.
pub proof fn law_reference_is_taken_apart(repository: Seq<char>, version: Seq<char>)
    requires
        !repository.contains('@'),
        !version.contains('@'),
    ensures
        action_info(repository.push('@') + version).repository == repository,
        action_info(repository.push('@') + version).version == version,
{
    text::lemma_pieces_of_joined(repository, '@', version);
    text::lemma_pieces_of_one(version, '@');
    let parts = text::pieces(repository.push('@') + version, '@');
    assert(parts =~= seq![repository, version]);
}

/// What comes after a second `@` makes no difference.
pub proof fn law_second_separator_ends_version(
    repository: Seq<char>,
    version: Seq<char>,
    rest: Seq<char>,
)
    requires
        !repository.contains('@'),
        !version.contains('@'),
    ensures
        action_info(repository.push('@') + (version.push('@') + rest)) == action_info(
            repository.push('@') + version,
        ),
{
    text::lemma_pieces_of_joined(repository, '@', version.push('@') + rest);
    text::lemma_pieces_of_joined(version, '@', rest);
    text::lemma_pieces_of_joined(repository, '@', version);
    text::lemma_pieces_of_one(version, '@');
}

/// A reference without a version is the repository as a whole: at `main`, or at no version where
/// it is an image or a local path.
pub proof fn law_version_defaults(action_ref: Seq<char>)
    requires
        !action_ref.contains('@'),
    ensures
        action_info(action_ref).repository == action_ref,
        action_info(action_ref).version == if "docker://"@.is_prefix_of(action_ref)
            || "./"@.is_prefix_of(action_ref) {
            ""@
        } else {
            "main"@
        },
{
    text::lemma_pieces_of_one(action_ref, '@');
}

/// No `@` is left in what a reference refers to, and nothing is both an image and a local path.
pub proof fn law_reference_parts(action_ref: Seq<char>)
    ensures
        !action_info(action_ref).repository.contains('@'),
        !action_info(action_ref).version.contains('@'),
        !(action_info(action_ref).is_docker && action_info(action_ref).is_local),
{
    reveal_strlit("docker://");
    reveal_strlit("./");
    reveal_strlit("");
    reveal_strlit("main");
    text::lemma_pieces_hold_no_separator(action_ref, '@');
    let repository = action_info(action_ref).repository;
    if action_info(action_ref).is_docker && action_info(action_ref).is_local {
        assert("docker://"@[0] == repository.subrange(0, 9)[0]);
        assert("./"@[0] == repository.subrange(0, 2)[0]);
    }
    assert forall|i: int| 0 <= i < "main"@.len() implies "main"@[i] != '@' by {}
}

/// A trigger alone, in a list of its own and as the only key of a mapping means the same.
pub proof fn law_one_trigger_in_any_form(event: Seq<char>, configuration: YamlView)
    ensures
        triggers_of(YamlView::Text(event)) == Ok::<Seq<Seq<char>>, Seq<char>>(seq![event]),
        triggers_of(YamlView::Sequence(seq![YamlView::Text(event)])) == triggers_of(
            YamlView::Text(event),
        ),
        triggers_of(YamlView::Mapping(seq![(YamlView::Text(event), configuration)])) == triggers_of(
            YamlView::Text(event),
        ),
{
    let in_list = seq![YamlView::Text(event)];
    let in_mapping = seq![(YamlView::Text(event), configuration)];
    assert(in_list.drop_last() =~= Seq::<YamlView>::empty());
    assert(in_mapping.drop_last() =~= Seq::<(YamlView, YamlView)>::empty());
    reveal_with_fuel(Seq::filter_map, 2);
    assert(in_list.filter_map(|event: YamlView| event.text()) =~= seq![event]);
    assert(in_mapping.filter_map(|event: (YamlView, YamlView)| event.0.text()) =~= seq![event]);
}

/// How the triggers are configured makes no difference to their names.
pub proof fn law_configuration_is_not_read(
    events: Seq<(YamlView, YamlView)>,
    configured: Seq<(YamlView, YamlView)>,
)
    requires
        events.len() == configured.len(),
        forall|i: int| 0 <= i < events.len() ==> (#[trigger] events[i]).0 == configured[i].0,
    ensures
        triggers_of(YamlView::Mapping(events)) == triggers_of(YamlView::Mapping(configured)),
    decreases events.len(),
{
    if events.len() > 0 {
        law_configuration_is_not_read(events.drop_last(), configured.drop_last());
    }
}

/// A text and the list of that one text stand for the same.
pub proof fn law_one_text_is_a_list(item: String, items: Vec<String>)
    requires
        items@.len() == 1,
        items@[0]@ == item@,
    ensures
        listed(Some(StringOrVec::One(item))) == listed(Some(StringOrVec::Many(items))),
{
    assert(texts(items@) =~= seq![item@]);
}

/// A reference is local exactly if it begins with `./`, and an image exactly if it begins with
/// `docker://`.
pub proof fn law_local_and_image_go_by_the_beginning(
    workflow: &WorkflowDefinition,
    action_ref: &str,
    info: ActionInfo,
)
    requires
        call_ensures(WorkflowDefinition::resolve_action, (workflow, action_ref), info),
    ensures
        info.is_local <==> "./"@.is_prefix_of(action_ref@),
        info.is_docker <==> "docker://"@.is_prefix_of(action_ref@),
        action_info(action_ref@).is_local <==> "./"@.is_prefix_of(action_ref@),
        action_info(action_ref@).is_docker <==> "docker://"@.is_prefix_of(action_ref@),
{
    reveal_strlit("docker://");
    reveal_strlit("./");
    assert(info@ == action_info(action_ref@));
    assert(!"docker://"@.contains('@'));
    assert(!"./"@.contains('@'));
    text::lemma_prefix_of_first_piece("docker://"@, action_ref@, '@');
    text::lemma_prefix_of_first_piece("./"@, action_ref@, '@');
}

/// The repository is what stands before the first `@`, all of it, and the version what stands
/// between that and the next one. Where there is no `@` the reference is the repository, and the
/// version is `main`, or nothing for an image or a local path.
pub proof fn law_reference_is_divided_at_the_separators(
    workflow: &WorkflowDefinition,
    action_ref: &str,
    info: ActionInfo,
    at: int,
    end: int,
)
    requires
        call_ensures(WorkflowDefinition::resolve_action, (workflow, action_ref), info),
        0 <= at < end <= action_ref@.len() || at == end == action_ref@.len(),
        forall|i: int| 0 <= i < at ==> #[trigger] action_ref@[i] != '@',
        forall|i: int| at < i < end ==> #[trigger] action_ref@[i] != '@',
        at < action_ref@.len() ==> action_ref@[at] == '@',
        end < action_ref@.len() ==> action_ref@[end] == '@',
    ensures
        info.repository@ == action_ref@.subrange(0, at),
        at < action_ref@.len() ==> info.version@ == action_ref@.subrange(at + 1, end),
        at == action_ref@.len() ==> info.version@ == if "docker://"@.is_prefix_of(action_ref@)
            || "./"@.is_prefix_of(action_ref@) {
            ""@
        } else {
            "main"@
        },
{
    let whole = action_ref@;
    let first = whole.subrange(0, at);
    assert(info@ == action_info(whole));
    if at == whole.len() {
        assert(first =~= whole);
        law_version_defaults(whole);
    } else {
        let second = whole.subrange(at + 1, end);
        assert forall|i: int| 0 <= i < second.len() implies second[i] != '@' by {
            assert(second[i] == whole[at + 1 + i]);
        }
        if end == whole.len() {
            assert(whole =~= first.push('@') + second);
        } else {
            let rest = whole.subrange(end + 1, whole.len() as int);
            assert(whole =~= first.push('@') + (second.push('@') + rest));
            law_second_separator_ends_version(first, second, rest);
        }
        law_reference_is_taken_apart(first, second);
    }
}

/// What a reference refers to stands for its parts, and so does a copy.
pub proof fn law_info_stands_for_its_parts(info: ActionInfo, copy: ActionInfo)
    requires
        call_ensures(<ActionInfo as Clone>::clone, (&info,), copy),
    ensures
        info@.repository == info.repository@ && copy.repository@ == info.repository@,
        info@.version == info.version@ && copy.version@ == info.version@,
        info@.is_docker == info.is_docker && copy.is_docker == info.is_docker,
        info@.is_local == info.is_local && copy.is_local == info.is_local,
{
    assert(copy@ == info@);
}

proof fn lemma_filter_map_joins<A, B>(a: Seq<A>, b: Seq<A>, f: spec_fn(A) -> Option<B>)
    ensures
        (a + b).filter_map(f) == a.filter_map(f) + b.filter_map(f),
    decreases b.len(),
{
    if b.len() == 0 {
        assert(a + b =~= a);
        assert(a.filter_map(f) + b.filter_map(f) =~= a.filter_map(f));
    } else {
        lemma_filter_map_joins(a, b.drop_last(), f);
        assert((a + b).drop_last() =~= a + b.drop_last());
        assert((a + b).last() == b.last());
        assert((a + b).filter_map(f) =~= a.filter_map(f) + b.filter_map(f));
    }
}

/// Lists of triggers can be put together before or after they are named: none is lost, none is
/// added, and the order stays. The same holds of mappings.
pub proof fn law_triggers_are_named_one_by_one(
    events: Seq<YamlView>,
    more: Seq<YamlView>,
    keyed: Seq<(YamlView, YamlView)>,
    more_keyed: Seq<(YamlView, YamlView)>,
)
    ensures
        triggers_of(YamlView::Sequence(events + more)) is Ok,
        triggers_of(YamlView::Sequence(events + more))->Ok_0 == triggers_of(
            YamlView::Sequence(events),
        )->Ok_0 + triggers_of(YamlView::Sequence(more))->Ok_0,
        triggers_of(YamlView::Mapping(keyed + more_keyed)) is Ok,
        triggers_of(YamlView::Mapping(keyed + more_keyed))->Ok_0 == triggers_of(
            YamlView::Mapping(keyed),
        )->Ok_0 + triggers_of(YamlView::Mapping(more_keyed))->Ok_0,
{
    lemma_filter_map_joins(events, more, |event: YamlView| event.text());
    lemma_filter_map_joins(
        keyed,
        more_keyed,
        |event: (YamlView, YamlView)| event.0.text(),
    );
}

/// One item of a list and one key of a mapping name one trigger if they are texts, and none if
/// they are not.
pub proof fn law_one_item_is_one_trigger_or_none(event: YamlView, configuration: YamlView)
    ensures
        event.text() is Some ==> triggers_of(YamlView::Sequence(seq![event])) == Ok::<
            Seq<Seq<char>>,
            Seq<char>,
        >(seq![event.text()->0]),
        event.text() is None ==> triggers_of(YamlView::Sequence(seq![event])) == Ok::<
            Seq<Seq<char>>,
            Seq<char>,
        >(seq![]),
        triggers_of(YamlView::Mapping(seq![(event, configuration)])) == triggers_of(
            YamlView::Sequence(seq![event]),
        ),
{
    let list = seq![event];
    let mapping = seq![(event, configuration)];
    assert(list.drop_last() =~= Seq::<YamlView>::empty());
    assert(mapping.drop_last() =~= Seq::<(YamlView, YamlView)>::empty());
    reveal_with_fuel(Seq::filter_map, 2);
    let named = list.filter_map(|event: YamlView| event.text());
    let keyed = mapping.filter_map(|event: (YamlView, YamlView)| event.0.text());
    if event.text() is Some {
        assert(named =~= seq![event.text()->0]);
        assert(keyed =~= seq![event.text()->0]);
    } else {
        assert(named =~= seq![]);
        assert(keyed =~= seq![]);
    }
}

/// A mapping of any length whose keys are all texts has exactly those keys as its triggers, in
/// their order, and a list of texts has its items.
pub proof fn law_texts_are_the_triggers(
    names: Seq<Seq<char>>,
    events: Seq<YamlView>,
    keyed: Seq<(YamlView, YamlView)>,
)
    requires
        names.len() == events.len() == keyed.len(),
        forall|i: int| 0 <= i < names.len() ==> #[trigger] events[i] == YamlView::Text(names[i]),
        forall|i: int| 0 <= i < names.len() ==> (#[trigger] keyed[i]).0 == YamlView::Text(names[i]),
    ensures
        triggers_of(YamlView::Sequence(events)) == Ok::<Seq<Seq<char>>, Seq<char>>(names),
        triggers_of(YamlView::Mapping(keyed)) == Ok::<Seq<Seq<char>>, Seq<char>>(names),
    decreases names.len(),
{
    if names.len() == 0 {
        assert(triggers_of(YamlView::Sequence(events))->Ok_0 =~= names);
        assert(triggers_of(YamlView::Mapping(keyed))->Ok_0 =~= names);
    } else {
        law_texts_are_the_triggers(names.drop_last(), events.drop_last(), keyed.drop_last());
        law_one_item_is_one_trigger_or_none(events.last(), keyed.last().1);
        law_triggers_are_named_one_by_one(
            events.drop_last(),
            seq![events.last()],
            keyed.drop_last(),
            seq![keyed.last()],
        );
        assert(events.last() == YamlView::Text(names.last()));
        assert(keyed.last() == (events.last(), keyed.last().1));
        assert(events.drop_last() + seq![events.last()] =~= events);
        assert(keyed.drop_last() + seq![keyed.last()] =~= keyed);
        assert(names.drop_last() + seq![names.last()] =~= names);
    }
}

/// The triggers of a section whose items or keys are all texts are those texts, as many of them,
/// in their order; of a section that is a text, that text. A section of any other kind is refused.
pub proof fn law_section_is_named_in_full(on_value: &Yaml, result: Result<Vec<String>, String>)
    requires
        call_ensures(normalize_triggers, (on_value,), result),
    ensures
        match *on_value {
            Yaml::Text(event) => result is Ok && result->Ok_0@.len() == 1 && result->Ok_0@[0]@
                == event@,
            Yaml::Sequence(events) => {
                &&& result is Ok
                &&& result->Ok_0@.len() <= events@.len()
                &&& (forall|i: int| 0 <= i < events@.len() ==> (#[trigger] events@[i]) is Text)
                    ==> {
                    &&& result->Ok_0@.len() == events@.len()
                    &&& forall|i: int|
                        0 <= i < events@.len() ==> (#[trigger] result->Ok_0@[i])@
                            == events@[i]->Text_0@
                }
            },
            Yaml::Mapping(events) => {
                &&& result is Ok
                &&& result->Ok_0@.len() <= events@.len()
                &&& (forall|i: int| 0 <= i < events@.len() ==> (#[trigger] events@[i]).0 is Text)
                    ==> {
                    &&& result->Ok_0@.len() == events@.len()
                    &&& forall|i: int|
                        0 <= i < events@.len() ==> (#[trigger] result->Ok_0@[i])@
                            == events@[i].0->Text_0@
                }
            },
            _ => result is Err && result->Err_0@ == "'on' section has invalid format"@,
        },
{
    crate::yaml::law_tree_has_the_parts_of_the_value(*on_value);
    if result is Ok {
        law_texts_are_all_there(result->Ok_0@);
    }
    match *on_value {
        Yaml::Text(event) => {
            assert(texts(result->Ok_0@)[0] == event@);
        },
        Yaml::Sequence(events) => {
            let all = on_value@->Sequence_0;
            lemma_filter_map_is_no_longer(all, |event: YamlView| event.text());
            if forall|i: int| 0 <= i < events@.len() ==> (#[trigger] events@[i]) is Text {
                let names = Seq::new(events@.len(), |i: int| events@[i]->Text_0@);
                let keyed = Seq::new(events@.len(), |i: int| (all[i], all[i]));
                assert forall|i: int| 0 <= i < names.len() implies #[trigger] all[i]
                    == YamlView::Text(names[i]) by {
                    assert(events@[i] is Text);
                }
                law_texts_are_the_triggers(names, all, keyed);
                assert(texts(result->Ok_0@) == names);
                assert forall|i: int| 0 <= i < events@.len() implies (#[trigger] result->Ok_0@[i])@
                    == events@[i]->Text_0@ by {
                    assert(texts(result->Ok_0@)[i] == names[i]);
                }
            }
        },
        Yaml::Mapping(events) => {
            let all = on_value@->Mapping_0;
            lemma_filter_map_is_no_longer(all, |event: (YamlView, YamlView)| event.0.text());
            if forall|i: int| 0 <= i < events@.len() ==> (#[trigger] events@[i]).0 is Text {
                let names = Seq::new(events@.len(), |i: int| events@[i].0->Text_0@);
                let listed = Seq::new(events@.len(), |i: int| all[i].0);
                assert forall|i: int| 0 <= i < names.len() implies (#[trigger] all[i]).0
                    == YamlView::Text(names[i]) by {
                    assert(events@[i].0 is Text);
                }
                assert forall|i: int| 0 <= i < names.len() implies #[trigger] listed[i]
                    == YamlView::Text(names[i]) by {
                    assert(all[i].0 == YamlView::Text(names[i]));
                }
                law_texts_are_the_triggers(names, listed, all);
                assert(texts(result->Ok_0@) == names);
                assert forall|i: int| 0 <= i < events@.len() implies (#[trigger] result->Ok_0@[i])@
                    == events@[i].0->Text_0@ by {
                    assert(texts(result->Ok_0@)[i] == names[i]);
                }
            }
        },
        _ => {},
    }
}

proof fn lemma_filter_map_is_no_longer<A, B>(all: Seq<A>, f: spec_fn(A) -> Option<B>)
    ensures
        all.filter_map(f).len() <= all.len(),
    decreases all.len(),
{
    if all.len() > 0 {
        lemma_filter_map_is_no_longer(all.drop_last(), f);
    }
}

/// The texts of a list are those of its items, all of them.
pub proof fn law_texts_are_all_there(list: Seq<String>)
    ensures
        texts(list).len() == list.len(),
        forall|i: int| 0 <= i < list.len() ==> #[trigger] texts(list)[i] == list[i]@,
{
}

/// A field that is one text is a list of that text, a field that is a list is that list with all
/// its items, and a field that is not there is no list; `needs` and `runs-on` are read alike.
pub proof fn law_field_is_read_in_full(
    value: Option<StringOrVec>,
    needs: Option<Vec<String>>,
    runs_on: Option<Vec<String>>,
)
    requires
        call_ensures(deserialize_needs, (value,), needs),
        call_ensures(deserialize_runs_on, (value,), runs_on),
    ensures
        value is None <==> needs is None,
        value is None <==> runs_on is None,
        needs is Some ==> needs->0@.len() == runs_on->0@.len() && forall|i: int|
            0 <= i < needs->0@.len() ==> (#[trigger] needs->0@[i])@ == runs_on->0@[i]@,
        value matches Some(StringOrVec::One(item)) ==> needs->0@.len() == 1 && needs->0@[0]@
            == item@,
        value matches Some(StringOrVec::Many(items)) ==> needs->0@.len() == items@.len()
            && forall|i: int|
            0 <= i < items@.len() ==> (#[trigger] needs->0@[i])@ == items@[i]@,
{
    if value is Some {
        assert(texts(needs->0@) == texts(runs_on->0@));
        law_texts_are_all_there(needs->0@);
        law_texts_are_all_there(runs_on->0@);
        assert forall|i: int| 0 <= i < needs->0@.len() implies (#[trigger] needs->0@[i])@
            == runs_on->0@[i]@ by {
            assert(texts(needs->0@)[i] == texts(runs_on->0@)[i]);
        }
        if let Some(StringOrVec::One(item)) = value {
            assert(texts(needs->0@)[0] == item@);
        }
        if let Some(StringOrVec::Many(items)) = value {
            law_texts_are_all_there(items@);
            assert forall|i: int| 0 <= i < items@.len() implies (#[trigger] needs->0@[i])@
                == items@[i]@ by {
                assert(texts(needs->0@)[i] == texts(items@)[i]);
            }
        }
    }
}

/// A workflow that was parsed keeps all but its triggers, which are those that its `on` section
/// names; a file that was not is an error that says how far it got.
pub proof fn law_workflow_is_kept_but_for_its_triggers(
    input: WorkflowInput,
    result: Result<WorkflowDefinition, String>,
    triggers: Result<Vec<String>, String>,
)
    requires
        call_ensures(parse_workflow, (input,), result),
        input matches WorkflowInput::Parsed { workflow } ==> call_ensures(
            normalize_triggers,
            (&workflow.on_raw,),
            triggers,
        ),
    ensures
        match input {
            WorkflowInput::NoSchema { message } => result is Err && result->Err_0@ == message@,
            WorkflowInput::Invalid { message } => result is Err && result->Err_0@ == message@,
            WorkflowInput::Unreadable { message } => result is Err && result->Err_0@
                == "Failed to read workflow file: "@ + message@,
            WorkflowInput::Malformed { message } => result is Err && result->Err_0@
                == "Failed to parse workflow structure: "@ + message@,
            WorkflowInput::Parsed { workflow } => {
                &&& result is Ok <==> triggers is Ok
                &&& result is Err ==> result->Err_0@ == triggers->Err_0@
                &&& result is Ok ==> {
                    &&& result->Ok_0.name == workflow.name
                    &&& result->Ok_0.on_raw == workflow.on_raw
                    &&& result->Ok_0.jobs == workflow.jobs
                    &&& result->Ok_0.on@.len() == triggers->Ok_0@.len()
                    &&& forall|i: int|
                        0 <= i < triggers->Ok_0@.len() ==> (#[trigger] result->Ok_0.on@[i])@
                            == triggers->Ok_0@[i]@
                }
            },
        },
{
    if input is Parsed && result is Ok {
        let named = triggers->Ok_0@;
        assert(texts(result->Ok_0.on@) == texts(named));
        law_texts_are_all_there(named);
        law_texts_are_all_there(result->Ok_0.on@);
        assert forall|i: int| 0 <= i < named.len() implies (#[trigger] result->Ok_0.on@[i])@
            == named[i]@ by {
            assert(texts(result->Ok_0.on@)[i] == texts(named)[i]);
        }
    }
}

} // verus!
