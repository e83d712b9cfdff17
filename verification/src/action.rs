//! What an action is: the reading of its `action.yml`.
use crate::text;
use crate::yaml::{self, Yaml, YamlView};
use vstd::prelude::*;

verus! {

/// Represents the type of a GitHub Action as declared in its action.yml `runs.using` field.
#[derive(Debug, PartialEq, Eq)]
pub enum ActionType {
    Node { version: u32 },
    /// A Docker action that references a registry image (e.g., `rust:latest`).
    Docker { image: String },
    /// A Docker action that bundles its own Dockerfile and needs to be built.
    DockerBuild,
    Composite,
}

/// What an [`ActionType`] stands for.
#[verifier::ext_equal]
pub enum ActionTypeView {
    Node { version: u32 },
    Docker { image: Seq<char> },
    DockerBuild,
    Composite,
}

impl View for ActionType {
    type V = ActionTypeView;

    open spec fn view(&self) -> ActionTypeView {
        match self {
            ActionType::Node { version } => ActionTypeView::Node { version: *version },
            ActionType::Docker { image } => ActionTypeView::Docker { image: image@ },
            ActionType::DockerBuild => ActionTypeView::DockerBuild,
            ActionType::Composite => ActionTypeView::Composite,
        }
    }
}

impl Clone for ActionType {
    fn clone(&self) -> (copy: ActionType)
        ensures
            copy@ == self@,
    {
        match self {
            ActionType::Node { version } => ActionType::Node { version: *version },
            ActionType::Docker { image } => ActionType::Docker { image: image.clone() },
            ActionType::DockerBuild => ActionType::DockerBuild,
            ActionType::Composite => ActionType::Composite,
        }
    }
}

/// Result of resolving a remote action's action.yml.
#[derive(Debug, PartialEq, Eq)]
pub struct ResolvedAction {
    pub action_type: ActionType,
    /// The raw parsed action.yml, available for composite action execution.
    pub definition: Option<Yaml>,
}

/// What a [`ResolvedAction`] stands for.
#[verifier::ext_equal]
pub struct ResolvedActionView {
    pub action_type: ActionTypeView,
    pub definition: Option<YamlView>,
}

impl View for ResolvedAction {
    type V = ResolvedActionView;

    open spec fn view(&self) -> ResolvedActionView {
        ResolvedActionView {
            action_type: self.action_type@,
            definition: match self.definition {
                Some(definition) => Some(definition@),
                None => None,
            },
        }
    }
}

impl Clone for ResolvedAction {
    fn clone(&self) -> (copy: ResolvedAction)
        ensures
            copy@ == self@,
    {
        ResolvedAction {
            action_type: self.action_type.clone(),
            definition: match &self.definition {
                Some(definition) => Some(definition.clone()),
                None => None,
            },
        }
    }
}

/// What a resolution came to: the action, or the message of the error.
pub type Outcome = Result<ResolvedActionView, Seq<char>>;

/// What `result` stands for.
pub open spec fn outcome(result: Result<ResolvedAction, String>) -> Outcome {
    match result {
        Ok(action) => Ok(action@),
        Err(message) => Err(message@),
    }
}

/// Whether a Docker image names a Dockerfile that the action brings along, not an image of a
/// registry.
pub open spec fn is_bundled(image: Seq<char>) -> bool {
    ||| image == "Dockerfile"@
    ||| "./"@.is_prefix_of(image)
    ||| "../"@.is_prefix_of(image)
    ||| "/Dockerfile"@.is_suffix_of(image)
}

/// The type of the action whose `runs` section has the given `using` and `image`, or the message
/// of the error.
pub open spec fn action_type_of(using: Seq<char>, image: Option<Seq<char>>) -> Result<
    ActionTypeView,
    Seq<char>,
> {
    if using == "composite"@ {
        Ok(ActionTypeView::Composite)
    } else if using == "docker"@ {
        match image {
            None => Err("Docker action missing 'runs.image' field"@),
            Some(image) => {
                let name = text::stripped(image, "docker://"@);
                if is_bundled(name) {
                    Ok(ActionTypeView::DockerBuild)
                } else {
                    Ok(ActionTypeView::Docker { image: name })
                }
            },
        }
    } else if "node"@.is_prefix_of(using) {
        match text::parsed_u32(text::stripped(using, "node"@)) {
            Some(version) => Ok(ActionTypeView::Node { version }),
            None => Err(
                "Invalid node version in runs.using '"@ + using
                    + "': expected 'node<N>' (e.g., 'node20')"@,
            ),
        }
    } else {
        Err("Unknown runs.using value: "@ + using)
    }
}

/// What the parsed action.yml `definition` resolves to.
pub open spec fn definition_outcome(definition: YamlView) -> Outcome {
    match definition.get("runs"@) {
        None => Err("action.yml missing 'runs' section"@),
        Some(runs) => match runs.text_under("using"@) {
            None => Err("action.yml missing 'runs.using' field"@),
            Some(using) => match action_type_of(using, runs.text_under("image"@)) {
                Ok(action_type) => Ok(
                    ResolvedActionView { action_type, definition: Some(definition) },
                ),
                Err(message) => Err(message),
            },
        },
    }
}

/// What an action.yml resolves to that reads as `document`.
pub open spec fn document_outcome(document: Result<YamlView, Seq<char>>) -> Outcome {
    match document {
        Ok(definition) => definition_outcome(definition),
        Err(message) => Err("Invalid action YAML: "@ + message),
    }
}

/// Parse an action.yml body and extract the action type from the `runs` section.
pub fn parse_action_definition(content: &str) -> (result: Result<ResolvedAction, String>)
    ensures
        outcome(result) == document_outcome(yaml::yaml_document(content@)),
{
    resolve_document(Yaml::parse(content))
}

/// Extract the action type from an action.yml that was read as `document`.
pub fn resolve_document(document: Result<Yaml, String>) -> (result: Result<ResolvedAction, String>)
    ensures
        outcome(result) == document_outcome(yaml::read(document)),
{
    match document {
        Ok(definition) => resolve_definition(definition),
        Err(message) => Err(text::concat("Invalid action YAML: ", message.as_str())),
    }
}

/// Extract the action type from the `runs` section of a parsed action.yml.
pub fn resolve_definition(definition: Yaml) -> (result: Result<ResolvedAction, String>)
    ensures
        outcome(result) == definition_outcome(definition@),
{
    let action_type = match definition.get("runs") {
        None => {
            return Err("action.yml missing 'runs' section".to_owned());
        },
        Some(runs) => match runs.text_under("using") {
            None => {
                return Err("action.yml missing 'runs.using' field".to_owned());
            },
            Some(using) => parse_using(using, runs),
        },
    };
    match action_type {
        Ok(action_type) => Ok(ResolvedAction { action_type, definition: Some(definition) }),
        Err(message) => Err(message),
    }
}

/// Map the `runs.using` value to an `ActionType`.
pub fn parse_using(using: &str, runs: &Yaml) -> (result: Result<ActionType, String>)
    ensures
        action_type_of(using@, runs@.text_under("image"@)) == match result {
            Ok(action_type) => Ok::<ActionTypeView, Seq<char>>(action_type@),
            Err(message) => Err(message@),
        },
{
    if text::same_text(using, "composite") {
        Ok(ActionType::Composite)
    } else if text::same_text(using, "docker") {
        match runs.text_under("image") {
            None => Err("Docker action missing 'runs.image' field".to_owned()),
            Some(image) => {
                // Strip "docker://" prefix if present (some actions use it, some don't)
                let image = text::trim_start_matches(image, "docker://");

                // If the image is "Dockerfile" or a relative path, it means the action
                // bundles its own Dockerfile that needs to be built, not pulled from a registry.
                if text::same_text(image, "Dockerfile") || text::starts_with(image, "./")
                    || text::starts_with(image, "../") || text::ends_with(image, "/Dockerfile") {
                    Ok(ActionType::DockerBuild)
                } else {
                    Ok(ActionType::Docker { image: image.to_owned() })
                }
            },
        }
    } else if text::starts_with(using, "node") {
        match text::parse_u32(text::trim_start_matches(using, "node")) {
            Some(version) => Ok(ActionType::Node { version }),
            None => Err(
                text::concat3(
                    "Invalid node version in runs.using '",
                    using,
                    "': expected 'node<N>' (e.g., 'node20')",
                ),
            ),
        }
    } else {
        Err(text::concat("Unknown runs.using value: ", using))
    }
}

/// It makes no difference whether an image is written with `docker://` in front.
pub proof fn law_docker_prefix_is_optional(image: Seq<char>)
    ensures
        action_type_of("docker"@, Some("docker://"@ + image)) == action_type_of(
            "docker"@,
            Some(image),
        ),
{
    reveal_strlit("docker://");
    text::lemma_stripped_of_prefixed(image, "docker://"@);
}

/// An image of a registry is handed on without `docker://` in front, and is no Dockerfile of the
/// action's own.
pub proof fn law_registry_image_is_bare(using: Seq<char>, image: Option<Seq<char>>, name: Seq<char>)
    requires
        action_type_of(using, image) == Ok::<ActionTypeView, Seq<char>>(
            ActionTypeView::Docker { image: name },
        ),
    ensures
        !"docker://"@.is_prefix_of(name),
        !is_bundled(name),
{
    reveal_strlit("docker://");
    text::lemma_stripped_has_no_prefix(image->0, "docker://"@);
}

/// `node<N>` is the Node action of version N, for every N of 32 bits and however many zeros are
/// in front of it.
pub proof fn law_node_version_is_read(digits: Seq<char>, image: Option<Seq<char>>)
    requires
        digits.len() > 0,
        forall|i: int| 0 <= i < digits.len() ==> text::is_digit(#[trigger] digits[i]),
        text::decimal_value(digits) <= u32::MAX,
    ensures
        action_type_of("node"@ + digits, image) == Ok::<ActionTypeView, Seq<char>>(
            ActionTypeView::Node { version: text::decimal_value(digits) as u32 },
        ),
{
    reveal_strlit("node");
    reveal_strlit("composite");
    reveal_strlit("docker");
    let using = "node"@ + digits;
    assert(using[0] == 'n');
    assert("composite"@[0] == 'c');
    assert("docker"@[0] == 'd');
    assert("node"@.is_prefix_of(using)) by {
        assert(using.subrange(0, 4) =~= "node"@);
    }
    assert(text::is_digit(digits[0]));
    assert(!"node"@.is_prefix_of(digits)) by {
        if "node"@.is_prefix_of(digits) {
            assert("node"@[0] == digits.subrange(0, 4)[0]);
        }
    }
    text::lemma_stripped_of_prefixed(digits, "node"@);
    assert(text::unsigned_digits(digits) == digits);
}

/// The image counts for Docker actions alone.
pub proof fn law_image_is_for_docker(
    using: Seq<char>,
    image: Option<Seq<char>>,
    other: Option<Seq<char>>,
)
    requires
        using != "docker"@,
    ensures
        action_type_of(using, image) == action_type_of(using, other),
{
}

/// A resolved action brings along the whole parsed file, and its type is that of the `runs`
/// section in it.
pub proof fn law_resolved_action_has_definition(definition: YamlView)
    requires
        definition_outcome(definition) is Ok,
    ensures
        definition_outcome(definition)->Ok_0.definition == Some(definition),
        definition.get("runs"@) is Some,
        definition.get("runs"@)->0.text_under("using"@) is Some,
        Ok::<ActionTypeView, Seq<char>>(definition_outcome(definition)->Ok_0.action_type)
            == action_type_of(
            definition.get("runs"@)->0.text_under("using"@)->0,
            definition.get("runs"@)->0.text_under("image"@),
        ),
{
}

/// A composite action is one whatever its image.
pub proof fn law_composite_is_composite(runs: &Yaml, using: &str, result: Result<ActionType, String>)
    requires
        using@ == "composite"@,
        call_ensures(parse_using, (using, runs), result),
    ensures
        result == Ok::<ActionType, String>(ActionType::Composite),
{
    assert(action_type_of(using@, runs@.text_under("image"@)) == Ok::<ActionTypeView, Seq<char>>(
        ActionTypeView::Composite,
    ));
}

/// An image without `docker://` in front is built exactly if it is `Dockerfile`, begins with `./`
/// or `../`, or ends with `/Dockerfile`; any other is handed on character for character. Without
/// an image there is no Docker action.
pub proof fn law_docker_image_is_built_or_pulled(
    runs: &Yaml,
    using: &str,
    result: Result<ActionType, String>,
)
    requires
        using@ == "docker"@,
        call_ensures(parse_using, (using, runs), result),
    ensures
        match runs@.text_under("image"@) {
            None => result is Err && result->Err_0@ == "Docker action missing 'runs.image' field"@,
            Some(image) => !"docker://"@.is_prefix_of(image) ==> {
                &&& result is Ok
                &&& result->Ok_0 is DockerBuild || result->Ok_0 is Docker
                &&& result->Ok_0 is DockerBuild <==> {
                    ||| image == "Dockerfile"@
                    ||| "./"@.is_prefix_of(image)
                    ||| "../"@.is_prefix_of(image)
                    ||| "/Dockerfile"@.is_suffix_of(image)
                }
                &&& result->Ok_0 is Docker ==> result->Ok_0->image@ == image
            },
        },
{
    reveal_strlit("docker");
    reveal_strlit("composite");
    assert("docker"@.len() != "composite"@.len());
}

/// What `using` can be: the two words, `node` with something behind it, or an error that quotes
/// it.
pub proof fn law_unknown_using_is_refused(
    runs: &Yaml,
    using: &str,
    result: Result<ActionType, String>,
)
    requires
        using@ != "composite"@,
        using@ != "docker"@,
        !"node"@.is_prefix_of(using@),
        call_ensures(parse_using, (using, runs), result),
    ensures
        result is Err,
        result->Err_0@ == "Unknown runs.using value: "@ + using@,
{
}

/// A `using` that begins with `node` is a Node action or an invalid one that the message quotes.
pub proof fn law_node_is_read_or_refused(
    runs: &Yaml,
    using: &str,
    result: Result<ActionType, String>,
)
    requires
        "node"@.is_prefix_of(using@),
        call_ensures(parse_using, (using, runs), result),
    ensures
        result is Ok ==> result->Ok_0 is Node,
        result is Err ==> result->Err_0@ == "Invalid node version in runs.using '"@ + using@
            + "': expected 'node<N>' (e.g., 'node20')"@,
{
    lemma_node_is_no_other(using@);
}

proof fn lemma_node_is_no_other(using: Seq<char>)
    requires
        "node"@.is_prefix_of(using),
    ensures
        using != "composite"@,
        using != "docker"@,
{
    reveal_strlit("node");
    reveal_strlit("composite");
    reveal_strlit("docker");
    assert("node"@[0] == using.subrange(0, 4)[0]);
    assert("composite"@[0] == 'c');
    assert("docker"@[0] == 'd');
}

proof fn lemma_node_before(rest: Seq<char>)
    ensures
        "node"@.is_prefix_of("node"@ + rest),
        text::stripped("node"@ + rest, "node"@) == text::stripped(rest, "node"@),
        rest.len() > 0 && rest[0] != 'n' ==> text::stripped(rest, "node"@) == rest,
        rest.len() == 0 ==> text::stripped(rest, "node"@) == rest,
{
    reveal_strlit("node");
    assert(("node"@ + rest).subrange(0, 4) =~= "node"@);
    text::lemma_stripped_of_prefixed(rest, "node"@);
    if rest.len() > 0 && rest[0] != 'n' {
        if "node"@.is_prefix_of(rest) {
            assert("node"@[0] == rest.subrange(0, 4)[0]);
        }
    }
}

/// One digit behind `node` is the version that it writes.
pub proof fn law_one_digit_is_its_version(digit: char, image: Option<Seq<char>>)
    requires
        '0' <= digit <= '9',
    ensures
        action_type_of("node"@ + seq![digit], image) == Ok::<ActionTypeView, Seq<char>>(
            ActionTypeView::Node { version: (digit as int - '0' as int) as u32 },
        ),
{
    let rest = seq![digit];
    lemma_node_before(rest);
    lemma_node_is_no_other("node"@ + rest);
    assert(text::unsigned_digits(rest) == rest);
    assert(rest.drop_last() =~= Seq::<char>::empty());
    reveal_with_fuel(text::decimal_value, 2);
    assert(text::decimal_value(rest) == digit as int - '0' as int);
}

/// One more digit makes a version ten times as large and adds the digit; a version that leaves 32
/// bits that way is refused.
pub proof fn law_one_more_digit(
    digits: Seq<char>,
    digit: char,
    version: u32,
    image: Option<Seq<char>>,
)
    requires
        '0' <= digit <= '9',
        digits.len() > 0,
        digits[0] != 'n',
        action_type_of("node"@ + digits, image) == Ok::<ActionTypeView, Seq<char>>(
            ActionTypeView::Node { version },
        ),
    ensures
        ({
            let larger = 10 * version + (digit as int - '0' as int);
            action_type_of("node"@ + digits.push(digit), image) == if larger <= u32::MAX {
                Ok::<ActionTypeView, Seq<char>>(ActionTypeView::Node { version: larger as u32 })
            } else {
                Err(
                    "Invalid node version in runs.using '"@ + ("node"@ + digits.push(digit))
                        + "': expected 'node<N>' (e.g., 'node20')"@,
                )
            }
        }),
{
    let more = digits.push(digit);
    lemma_node_before(digits);
    lemma_node_before(more);
    lemma_node_is_no_other("node"@ + digits);
    lemma_node_is_no_other("node"@ + more);
    let number = text::unsigned_digits(digits);
    assert(text::parsed_u32(digits) == Some(version));
    assert(text::unsigned_digits(more) =~= number.push(digit));
    assert(number.push(digit).drop_last() =~= number);
    assert(text::decimal_value(number.push(digit)) == 10 * text::decimal_value(number) + (
    digit as int - '0' as int));
    assert forall|i: int| 0 <= i < number.push(digit).len() implies text::is_digit(
        #[trigger] number.push(digit)[i],
    ) by {
        if i < number.len() {
            assert(text::is_digit(number[i]));
        }
    }
}

/// Digits that write too large a number write one with any digit more.
pub proof fn law_too_large_stays_too_large(
    digits: Seq<char>,
    digit: char,
    image: Option<Seq<char>>,
)
    requires
        '0' <= digit <= '9',
        digits.len() > 0,
        forall|i: int| 0 <= i < digits.len() ==> '0' <= #[trigger] digits[i] <= '9',
        action_type_of("node"@ + digits, image) is Err,
    ensures
        action_type_of("node"@ + digits.push(digit), image) is Err,
{
    let more = digits.push(digit);
    assert('0' <= digits[0] <= '9');
    lemma_node_before(digits);
    lemma_node_before(more);
    lemma_node_is_no_other("node"@ + digits);
    lemma_node_is_no_other("node"@ + more);
    assert(more.drop_last() =~= digits);
    assert(text::unsigned_digits(digits) == digits);
    assert(text::unsigned_digits(more) == more);
    assert(forall|i: int| 0 <= i < digits.len() ==> text::is_digit(#[trigger] digits[i]));
}

/// A `+` in front of the digits makes no difference.
pub proof fn law_plus_sign_is_optional(digits: Seq<char>, image: Option<Seq<char>>)
    requires
        digits.len() > 0,
        '0' <= digits[0] <= '9',
    ensures
        action_type_of("node"@ + (seq!['+'] + digits), image) is Ok <==> action_type_of(
            "node"@ + digits,
            image,
        ) is Ok,
        action_type_of("node"@ + digits, image) is Ok ==> action_type_of(
            "node"@ + (seq!['+'] + digits),
            image,
        ) == action_type_of("node"@ + digits, image),
{
    let signed = seq!['+'] + digits;
    lemma_node_before(digits);
    lemma_node_before(signed);
    lemma_node_is_no_other("node"@ + digits);
    lemma_node_is_no_other("node"@ + signed);
    assert(text::unsigned_digits(signed) =~= digits);
    assert(text::unsigned_digits(digits) == digits);
}

/// Behind `node` there is no version without a digit, and none with a character that is no digit,
/// a `+` in front aside.
pub proof fn law_version_is_digits_alone(rest: Seq<char>, image: Option<Seq<char>>)
    requires
        !"node"@.is_prefix_of(rest),
        rest.len() == 0 || rest == seq!['+'] || exists|i: int|
            0 <= i < rest.len() && !('0' <= #[trigger] rest[i] <= '9') && !(i == 0 && rest[i] == '+'),
    ensures
        action_type_of("node"@ + rest, image) == Err::<ActionTypeView, Seq<char>>(
            "Invalid node version in runs.using '"@ + ("node"@ + rest)
                + "': expected 'node<N>' (e.g., 'node20')"@,
        ),
{
    lemma_node_before(rest);
    lemma_node_is_no_other("node"@ + rest);
    assert(text::stripped(rest, "node"@) == rest);
    let digits = text::unsigned_digits(rest);
    if rest.len() > 0 && rest != seq!['+'] {
        let i = choose|i: int|
            0 <= i < rest.len() && !('0' <= #[trigger] rest[i] <= '9') && !(i == 0 && rest[i] == '+');
        if rest[0] == '+' {
            assert(digits[i - 1] == rest[i]);
            assert(!text::is_digit(digits[i - 1]));
        } else {
            assert(digits[i] == rest[i]);
            assert(!text::is_digit(digits[i]));
        }
    } else {
        assert(digits.len() == 0);
    }
}

/// A second `node` in front makes no difference to the version.
pub proof fn law_repeated_node_is_one(rest: Seq<char>, image: Option<Seq<char>>)
    ensures
        action_type_of("node"@ + ("node"@ + rest), image) is Ok <==> action_type_of(
            "node"@ + rest,
            image,
        ) is Ok,
        action_type_of("node"@ + rest, image) is Ok ==> action_type_of(
            "node"@ + ("node"@ + rest),
            image,
        ) == action_type_of("node"@ + rest, image),
{
    lemma_node_before(rest);
    lemma_node_before("node"@ + rest);
    lemma_node_is_no_other("node"@ + rest);
    lemma_node_is_no_other("node"@ + ("node"@ + rest));
}

/// What a definition is refused for, in this order: no `runs`, no text under `runs.using`, and
/// what is wrong with the `runs` section.
pub proof fn law_definition_is_refused_with_the_reason(
    definition: Yaml,
    result: Result<ResolvedAction, String>,
)
    requires
        call_ensures(resolve_definition, (definition,), result),
    ensures
        match definition@.get("runs"@) {
            None => result is Err && result->Err_0@ == "action.yml missing 'runs' section"@,
            Some(runs) => match runs.text_under("using"@) {
                None => result is Err && result->Err_0@
                    == "action.yml missing 'runs.using' field"@,
                Some(using) => match action_type_of(using, runs.text_under("image"@)) {
                    Ok(action_type) => result is Ok && result->Ok_0.action_type@ == action_type
                        && result->Ok_0.definition is Some && result->Ok_0.definition->0@
                        == definition@,
                    Err(message) => result is Err && result->Err_0@ == message,
                },
            },
        },
{
}

/// Two ways to one result: an action.yml is resolved as what it reads as is, and a text that does
/// not read as YAML is refused with the reason.
pub proof fn law_content_is_resolved_as_it_reads(
    content: &str,
    result: Result<ResolvedAction, String>,
    definition: Yaml,
    resolved: Result<ResolvedAction, String>,
)
    requires
        call_ensures(parse_action_definition, (content,), result),
        call_ensures(resolve_definition, (definition,), resolved),
    ensures
        match yaml::yaml_document(content@) {
            Ok(document) => document == definition@ ==> {
                &&& result is Ok <==> resolved is Ok
                &&& result is Ok ==> result->Ok_0@ == resolved->Ok_0@
                &&& result is Err ==> result->Err_0@ == resolved->Err_0@
            },
            Err(message) => result is Err && result->Err_0@ == "Invalid action YAML: "@ + message,
        },
{
}

/// Nothing of an action is lost in what it stands for, nor in a copy.
pub proof fn law_action_stands_for_its_parts(
    action: ResolvedAction,
    copy: ResolvedAction,
    result: Result<ResolvedAction, String>,
)
    requires
        call_ensures(<ResolvedAction as Clone>::clone, (&action,), copy),
    ensures
        copy@ == action@,
        match action.action_type {
            ActionType::Node { version } => action@.action_type == (ActionTypeView::Node {
                version,
            }) && copy.action_type == action.action_type,
            ActionType::Docker { image } => action@.action_type == (ActionTypeView::Docker {
                image: image@,
            }) && copy.action_type is Docker && copy.action_type->image@ == image@,
            ActionType::DockerBuild => action@.action_type is DockerBuild
                && copy.action_type is DockerBuild,
            ActionType::Composite => action@.action_type is Composite
                && copy.action_type is Composite,
        },
        action.definition is Some <==> action@.definition is Some,
        action.definition is Some <==> copy.definition is Some,
        action.definition is Some ==> action@.definition->0 == action.definition->0@
            && copy.definition->0@ == action.definition->0@,
        match result {
            Ok(resolved) => outcome(result) == Ok::<ResolvedActionView, Seq<char>>(resolved@),
            Err(message) => outcome(result) == Err::<ResolvedActionView, Seq<char>>(message@),
        },
{
}

} // verus!
