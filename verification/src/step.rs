//! One state of a workflow definition.

use crate::definition::{
    catch_reader, catches_from, catches_json, catches_to_json, choice_reader, choices_from,
    choice_of, choices_json, choices_to_json, kind_name, kind_of_name, lemma_catches_round_trip,
    lemma_choices_round_trip, lemma_kind_names_distinct, Catch, CatchView, Choice, ChoiceView,
    Type,
};
use crate::error::{ErrorView, TranslateError};
use crate::fields::{bool_or_null, entry, outcome, text_or_null, text_view};
use crate::json::{
    distinct_keys, lemma_member_found, lemma_member_order, lemma_members_view, same_members, Json,
    JsonView,
};
use crate::list::{each, lemma_each_keeps_order, then_each_optional, views};
use vstd::prelude::*;

verus! {

/// One node of the workflow graph.
#[derive(Debug, PartialEq, Eq)]
pub struct Step {
    /// The kind of the state.
    pub step_type: Type,
    /// Marks a terminal state.
    pub end: Option<bool>,
    /// The name of the successor.
    pub next: Option<String>,
    /// An opaque value whose meaning depends on the integration; never
    /// `null`, for which an absent resource stands.
    pub resource: Option<Json>,
    /// Where the output is put.
    pub result_path: Option<String>,
    /// The branch rules of a choice state, in the order in which they are
    /// tried: the first that matches decides.
    pub choices: Option<Vec<Choice>>,
    /// The error routes, in the order in which they are tried.
    pub catch: Option<Vec<Catch>>,
    /// The successor of a choice state where no branch rule matches.
    pub default: Option<String>,
}

/// The mathematical value of a [`Step`].
pub struct StepView {
    pub step_type: Type,
    pub end: Option<bool>,
    pub next: Option<Seq<char>>,
    pub resource: Option<JsonView>,
    pub result_path: Option<Seq<char>>,
    pub choices: Option<Seq<ChoiceView>>,
    pub catch: Option<Seq<CatchView>>,
    pub default: Option<Seq<char>>,
}

impl View for Step {
    type V = StepView;

    open spec fn view(&self) -> StepView {
        StepView {
            step_type: self.step_type,
            end: self.end,
            next: text_view(self.next),
            resource: match self.resource {
                Some(r) => Some(r@),
                None => None,
            },
            result_path: text_view(self.result_path),
            choices: match self.choices {
                Some(list) => Some(views(list@)),
                None => None,
            },
            catch: match self.catch {
                Some(list) => Some(views(list@)),
                None => None,
            },
            default: text_view(self.default),
        }
    }
}

impl StepView {
    /// A resource, where there is one, is not `null`.
    pub open spec fn wf(self) -> bool {
        self.resource != Some(JsonView::Null)
    }
}

/// The kind of state that the member `Type` of a state names.
pub open spec fn kind_member(j: JsonView) -> Result<Type, ErrorView> {
    match j.text_member("Step"@, "Type"@) {
        Err(e) => Err(e),
        Ok(name) => match kind_of_name(name) {
            Some(kind) => Ok(kind),
            None => Err(ErrorView::UnknownVariant { found: name }),
        },
    }
}

/// The state that a JSON value stands for.
pub open spec fn step_of(j: JsonView) -> Result<StepView, ErrorView> {
    let step_type = kind_member(j);
    let end = j.optional_bool_member("Step"@, "End"@);
    let next = j.optional_text_member("Step"@, "Next"@);
    let result_path = j.optional_text_member("Step"@, "ResultPath"@);
    let choices = then_each_optional(
        j.optional_array_member("Step"@, "Choices"@),
        choice_reader(),
    );
    let catch = then_each_optional(j.optional_array_member("Step"@, "Catch"@), catch_reader());
    let default = j.optional_text_member("Step"@, "Default"@);
    if step_type is Err {
        Err(step_type->Err_0)
    } else if end is Err {
        Err(end->Err_0)
    } else if next is Err {
        Err(next->Err_0)
    } else if result_path is Err {
        Err(result_path->Err_0)
    } else if choices is Err {
        Err(choices->Err_0)
    } else if catch is Err {
        Err(catch->Err_0)
    } else if default is Err {
        Err(default->Err_0)
    } else {
        Ok(
            StepView {
                step_type: step_type->Ok_0,
                end: end->Ok_0,
                next: next->Ok_0,
                resource: j.optional_member("Resource"@),
                result_path: result_path->Ok_0,
                choices: choices->Ok_0,
                catch: catch->Ok_0,
                default: default->Ok_0,
            },
        )
    }
}

/// The JSON value of an optional list: the array of its values, or `null`.
pub open spec fn array_or_null(o: Option<Seq<JsonView>>) -> JsonView {
    match o {
        Some(items) => JsonView::Array(items),
        None => JsonView::Null,
    }
}

/// The JSON value that stands for a state.
pub open spec fn step_json(s: StepView) -> JsonView {
    JsonView::Object(
        seq![
            ("Type"@, JsonView::Text(kind_name(s.step_type))),
            ("End"@, bool_or_null(s.end)),
            ("Next"@, text_or_null(s.next)),
            (
                "Resource"@,
                match s.resource {
                    Some(r) => r,
                    None => JsonView::Null,
                },
            ),
            ("ResultPath"@, text_or_null(s.result_path)),
            (
                "Choices"@,
                array_or_null(
                    match s.choices {
                        Some(list) => Some(choices_json(list)),
                        None => None,
                    },
                ),
            ),
            (
                "Catch"@,
                array_or_null(
                    match s.catch {
                        Some(list) => Some(catches_json(list)),
                        None => None,
                    },
                ),
            ),
            ("Default"@, text_or_null(s.default)),
        ],
    )
}

/// A state that is written and read again is the same state.
pub proof fn lemma_step_round_trip(s: StepView)
    requires
        s.wf(),
    ensures
        step_of(step_json(s)) == Ok::<StepView, ErrorView>(s),
{
    reveal_strlit("Type");
    reveal_strlit("End");
    reveal_strlit("Next");
    reveal_strlit("Resource");
    reveal_strlit("ResultPath");
    reveal_strlit("Choices");
    reveal_strlit("Catch");
    reveal_strlit("Default");
    let members = step_json(s)->Object_0;
    assert("Type"@[0] == 'T' && "End"@[0] == 'E' && "Next"@[0] == 'N' && "Default"@[0] == 'D');
    assert("Resource"@.len() == 8 && "ResultPath"@.len() == 10 && "Resource"@[0] == 'R');
    assert("Choices"@.len() == 7 && "Catch"@.len() == 5 && "Catch"@[0] == 'C');
    lemma_member_found(members, 0, "Type"@);
    lemma_member_found(members, 1, "End"@);
    lemma_member_found(members, 2, "Next"@);
    lemma_member_found(members, 3, "Resource"@);
    lemma_member_found(members, 4, "ResultPath"@);
    lemma_member_found(members, 5, "Choices"@);
    lemma_member_found(members, 6, "Catch"@);
    lemma_member_found(members, 7, "Default"@);
    lemma_kind_names_distinct(s.step_type);
    if s.choices is Some {
        lemma_choices_round_trip(s.choices->Some_0);
    }
    if s.catch is Some {
        lemma_catches_round_trip(s.catch->Some_0);
    }
}

/// No key occurs twice among the members that are written for a state.
pub proof fn lemma_step_keys_are_distinct(s: StepView)
    ensures
        distinct_keys(step_json(s)->Object_0),
{
    reveal_strlit("Type");
    reveal_strlit("End");
    reveal_strlit("Next");
    reveal_strlit("Resource");
    reveal_strlit("ResultPath");
    reveal_strlit("Choices");
    reveal_strlit("Catch");
    reveal_strlit("Default");
    assert("Type"@[0] == 'T' && "End"@[0] == 'E' && "Next"@[0] == 'N' && "Default"@[0] == 'D');
    assert("Resource"@.len() == 8 && "ResultPath"@.len() == 10 && "Resource"@[0] == 'R');
    assert("Choices"@.len() == 7 && "Catch"@.len() == 5 && "Catch"@[0] == 'C');
}

/// A state is read from what its object holds under the eight keys of a
/// state, and from nothing else.
pub proof fn lemma_step_reads_by_key(a: JsonView, b: JsonView)
    requires
        a.get("Type"@) == b.get("Type"@),
        a.get("End"@) == b.get("End"@),
        a.get("Next"@) == b.get("Next"@),
        a.get("Resource"@) == b.get("Resource"@),
        a.get("ResultPath"@) == b.get("ResultPath"@),
        a.get("Choices"@) == b.get("Choices"@),
        a.get("Catch"@) == b.get("Catch"@),
        a.get("Default"@) == b.get("Default"@),
    ensures
        step_of(a) == step_of(b),
{
}

/// The order of the members of a state carries no meaning: the members that
/// were written for a state, read in any order, give the same state.
pub proof fn lemma_step_round_trip_in_any_order(
    s: StepView,
    members: Seq<(Seq<char>, JsonView)>,
)
    requires
        s.wf(),
        distinct_keys(members),
        same_members(members, step_json(s)->Object_0),
    ensures
        step_of(JsonView::Object(members)) == Ok::<StepView, ErrorView>(s),
{
    let written = step_json(s)->Object_0;
    lemma_step_keys_are_distinct(s);
    lemma_member_order(members, written, "Type"@);
    lemma_member_order(members, written, "End"@);
    lemma_member_order(members, written, "Next"@);
    lemma_member_order(members, written, "Resource"@);
    lemma_member_order(members, written, "ResultPath"@);
    lemma_member_order(members, written, "Choices"@);
    lemma_member_order(members, written, "Catch"@);
    lemma_member_order(members, written, "Default"@);
    lemma_step_reads_by_key(JsonView::Object(members), step_json(s));
    lemma_step_round_trip(s);
}

/// The branch rules of a state are kept as the document gives them: where
/// a state with a `Choices` array is read, it has one rule for each item,
/// the rule at each place is the one that the item at that place stands
/// for, and so none is moved, merged or dropped.
pub proof fn lemma_choices_keep_order(j: JsonView, items: Seq<JsonView>)
    requires
        step_of(j) is Ok,
        j.optional_array_member("Step"@, "Choices"@) == Ok::<Option<Seq<JsonView>>, ErrorView>(
            Some(items),
        ),
    ensures
        step_of(j)->Ok_0.choices is Some,
        step_of(j)->Ok_0.choices->Some_0.len() == items.len(),
        forall|i: int|
            0 <= i < items.len() ==> choice_of(#[trigger] items[i]) == Ok::<ChoiceView, ErrorView>(
                step_of(j)->Ok_0.choices->Some_0[i],
            ),
{
    lemma_each_keeps_order(items, choice_reader());
    assert forall|i: int| 0 <= i < items.len() implies choice_of(#[trigger] items[i]) == Ok::<
        ChoiceView,
        ErrorView,
    >(each(items, choice_reader())->Ok_0[i]) by {
        assert(choice_reader()(items[i]) == choice_of(items[i]));
    }
}

impl StepView {
    /// The place of the error route that handles an error: the first route,
    /// in the order of the state, that applies to it.
    pub open spec fn handled_by(self, error: Seq<char>, place: int) -> bool {
        &&& self.catch is Some
        &&& 0 <= place < self.catch->Some_0.len()
        &&& self.catch->Some_0[place].applies_to(error)
        &&& forall|k: int| 0 <= k < place ==> !(#[trigger] self.catch->Some_0[k]).applies_to(error)
    }

    /// Whether no error route of the state applies to an error.
    pub open spec fn unhandled(self, error: Seq<char>) -> bool {
        self.catch is Some ==> forall|k: int|
            0 <= k < self.catch->Some_0.len() ==> !(#[trigger] self.catch->Some_0[k]).applies_to(
                error,
            )
    }
}

impl Step {
    /// The error route that handles an error: the first, in the order of
    /// the state, that names the error.
    pub fn catch_for(&self, error: &String) -> (out: Option<&Catch>)
        ensures
            match out {
                Some(route) => exists|place: int|
                    self@.handled_by(error@, place) && route@ == self@.catch->Some_0[place],
                None => self@.unhandled(error@),
            },
    {
        match &self.catch {
            None => None,
            Some(routes) => {
                let mut i: usize = 0;
                while i < routes.len()
                    invariant
                        i <= routes.len(),
                        self.catch == Some(*routes),
                        forall|k: int|
                            0 <= k < i ==> !(#[trigger] self@.catch->Some_0[k]).applies_to(error@),
                    decreases routes.len() - i,
                {
                    if routes[i].applies_to(error) {
                        assert(self@.catch->Some_0[i as int] == routes[i as int]@);
                        assert(self@.handled_by(error@, i as int));
                        return Some(&routes[i]);
                    }
                    assert(self@.catch->Some_0[i as int] == routes[i as int]@);
                    i += 1;
                }
                None
            },
        }
    }

    /// Reads a state. `Type` is required and has to be one of the known
    /// kinds; every other member may be absent; members that the model does
    /// not know are passed over.
    pub fn from_json(j: &Json) -> (out: Result<Step, TranslateError>)
        ensures
            outcome(out, |s: Step| s@) == step_of(j@),
            out is Ok ==> out->Ok_0@.wf(),
    {
        let name = j.text_member("Step", "Type")?;
        let step_type = Type::from_name(name.as_str())?;
        let end = j.optional_bool_member("Step", "End")?;
        let next = j.optional_text_member("Step", "Next")?;
        let result_path = j.optional_text_member("Step", "ResultPath")?;
        let choices = match j.optional_array_member("Step", "Choices")? {
            Some(items) => Some(choices_from(items)?),
            None => None,
        };
        let catch = match j.optional_array_member("Step", "Catch")? {
            Some(items) => Some(catches_from(items)?),
            None => None,
        };
        let default = j.optional_text_member("Step", "Default")?;
        let resource = match j.optional_member("Resource") {
            Some(value) => Some(value.duplicate()),
            None => None,
        };
        Ok(Step { step_type, end, next, resource, result_path, choices, catch, default })
    }

    /// Writes the state. An absent member is written as `null`.
    pub fn to_json(&self) -> (out: Json)
        ensures
            out@ == step_json(self@),
    {
        let mut members: Vec<(String, Json)> = Vec::new();
        let kind = self.step_type.name();
        members.push(entry("Type", Json::text(&kind)));
        members.push(entry("End", Json::optional_bool(&self.end)));
        members.push(entry("Next", Json::optional_text(&self.next)));
        let resource = match &self.resource {
            Some(r) => r.duplicate(),
            None => Json::Null,
        };
        members.push(entry("Resource", resource));
        members.push(entry("ResultPath", Json::optional_text(&self.result_path)));
        let choices = match &self.choices {
            Some(list) => Json::Array(choices_to_json(list)),
            None => Json::Null,
        };
        members.push(entry("Choices", choices));
        let catch = match &self.catch {
            Some(list) => Json::Array(catches_to_json(list)),
            None => Json::Null,
        };
        members.push(entry("Catch", catch));
        members.push(entry("Default", Json::optional_text(&self.default)));
        proof {
            lemma_members_view(members@);
        }
        let out = Json::Object(members);
        assert(out@->Object_0 =~= step_json(self@)->Object_0);
        out
    }
}

} // verus!
