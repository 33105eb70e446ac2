//! The parts of a state: its kind, its branch rules and its error routes.

use crate::error::{ErrorView, TranslateError};
use crate::fields::{bool_or_null, entry, outcome, text_or_null, text_view};
use crate::json::{
    items_view, lemma_items_view, lemma_member_found, lemma_members_view, Json, JsonView,
};
use crate::list::{
    each, lemma_each_fails, lemma_each_next, lemma_each_reads_all, lemma_texts_round_trip,
    text_reader, texts_from, texts_json, texts_to_json, then_each, views,
};
use vstd::prelude::*;
use vstd::string::StringExecFns;

verus! {

/// The kind of a state.
#[derive(Clone, Copy, Debug, PartialEq, Eq, Structural)]
pub enum Type {
    Task,
    Pass,
    Choice,
    Fail,
    Succeed,
    Wait,
    MapState,
    Parallel,
}

/// The name under which a kind of state stands in a document.
pub open spec fn kind_name(kind: Type) -> Seq<char> {
    match kind {
        Type::Task => "Task"@,
        Type::Pass => "Pass"@,
        Type::Choice => "Choice"@,
        Type::Fail => "Fail"@,
        Type::Succeed => "Succeed"@,
        Type::Wait => "Wait"@,
        Type::MapState => "Map"@,
        Type::Parallel => "Parallel"@,
    }
}

/// The kind of state that a name stands for.
pub open spec fn kind_of_name(name: Seq<char>) -> Option<Type> {
    if name == "Task"@ {
        Some(Type::Task)
    } else if name == "Pass"@ {
        Some(Type::Pass)
    } else if name == "Choice"@ {
        Some(Type::Choice)
    } else if name == "Fail"@ {
        Some(Type::Fail)
    } else if name == "Succeed"@ {
        Some(Type::Succeed)
    } else if name == "Wait"@ {
        Some(Type::Wait)
    } else if name == "Map"@ {
        Some(Type::MapState)
    } else if name == "Parallel"@ {
        Some(Type::Parallel)
    } else {
        None
    }
}

/// Each kind of state is found again under its own name.
pub proof fn lemma_kind_names_distinct(kind: Type)
    ensures
        kind_of_name(kind_name(kind)) == Some(kind),
{
    reveal_strlit("Task");
    reveal_strlit("Pass");
    reveal_strlit("Choice");
    reveal_strlit("Fail");
    reveal_strlit("Succeed");
    reveal_strlit("Wait");
    reveal_strlit("Map");
    reveal_strlit("Parallel");
    assert("Task"@.len() == 4 && "Pass"@.len() == 4 && "Fail"@.len() == 4 && "Wait"@.len() == 4);
    assert("Task"@[0] == 'T' && "Pass"@[0] == 'P' && "Fail"@[0] == 'F' && "Wait"@[0] == 'W');
    assert("Choice"@.len() == 6 && "Succeed"@.len() == 7 && "Map"@.len() == 3 && "Parallel"@.len()
        == 8);
}

impl Type {
    /// The kind of state that `name` stands for; any name outside the closed
    /// set is an unknown variant.
    pub fn from_name(name: &str) -> (out: Result<Type, TranslateError>)
        ensures
            match kind_of_name(name@) {
                Some(kind) => out == Ok::<Type, TranslateError>(kind),
                None => out is Err && out->Err_0@ == (ErrorView::UnknownVariant { found: name@ }),
            },
    {
        let given = String::from_str(name);
        if given == String::from_str("Task") {
            Ok(Type::Task)
        } else if given == String::from_str("Pass") {
            Ok(Type::Pass)
        } else if given == String::from_str("Choice") {
            Ok(Type::Choice)
        } else if given == String::from_str("Fail") {
            Ok(Type::Fail)
        } else if given == String::from_str("Succeed") {
            Ok(Type::Succeed)
        } else if given == String::from_str("Wait") {
            Ok(Type::Wait)
        } else if given == String::from_str("Map") {
            Ok(Type::MapState)
        } else if given == String::from_str("Parallel") {
            Ok(Type::Parallel)
        } else {
            Err(TranslateError::UnknownVariant { found: given })
        }
    }

    /// The name under which the kind stands in a document.
    pub fn name(&self) -> (out: String)
        ensures
            out@ == kind_name(*self),
    {
        match self {
            Type::Task => String::from_str("Task"),
            Type::Pass => String::from_str("Pass"),
            Type::Choice => String::from_str("Choice"),
            Type::Fail => String::from_str("Fail"),
            Type::Succeed => String::from_str("Succeed"),
            Type::Wait => String::from_str("Wait"),
            Type::MapState => String::from_str("Map"),
            Type::Parallel => String::from_str("Parallel"),
        }
    }
}

/// One branch rule of a choice state: a variable, the comparisons that apply
/// to it, and the state to go to.
#[derive(Debug, PartialEq, Eq)]
pub struct Choice {
    pub variable: String,
    pub is_present: Option<bool>,
    pub bool_equals: Option<bool>,
    pub next: Option<String>,
}

/// The mathematical value of a [`Choice`].
pub struct ChoiceView {
    pub variable: Seq<char>,
    pub is_present: Option<bool>,
    pub bool_equals: Option<bool>,
    pub next: Option<Seq<char>>,
}

impl View for Choice {
    type V = ChoiceView;

    open spec fn view(&self) -> ChoiceView {
        ChoiceView {
            variable: self.variable@,
            is_present: self.is_present,
            bool_equals: self.bool_equals,
            next: text_view(self.next),
        }
    }
}

/// The branch rule that a JSON value stands for.
pub open spec fn choice_of(j: JsonView) -> Result<ChoiceView, ErrorView> {
    let variable = j.text_member("Choice"@, "Variable"@);
    let is_present = j.optional_bool_member("Choice"@, "IsPresent"@);
    let bool_equals = j.optional_bool_member("Choice"@, "BooleanEquals"@);
    let next = j.optional_text_member("Choice"@, "Next"@);
    if variable is Err {
        Err(variable->Err_0)
    } else if is_present is Err {
        Err(is_present->Err_0)
    } else if bool_equals is Err {
        Err(bool_equals->Err_0)
    } else if next is Err {
        Err(next->Err_0)
    } else {
        Ok(
            ChoiceView {
                variable: variable->Ok_0,
                is_present: is_present->Ok_0,
                bool_equals: bool_equals->Ok_0,
                next: next->Ok_0,
            },
        )
    }
}

/// The JSON value that stands for a branch rule.
pub open spec fn choice_json(c: ChoiceView) -> JsonView {
    JsonView::Object(
        seq![
            ("Variable"@, JsonView::Text(c.variable)),
            ("IsPresent"@, bool_or_null(c.is_present)),
            ("BooleanEquals"@, bool_or_null(c.bool_equals)),
            ("Next"@, text_or_null(c.next)),
        ],
    )
}

/// A branch rule that is written and read again is the same rule.
pub proof fn lemma_choice_round_trip(c: ChoiceView)
    ensures
        choice_of(choice_json(c)) == Ok::<ChoiceView, ErrorView>(c),
{
    reveal_strlit("Variable");
    reveal_strlit("IsPresent");
    reveal_strlit("BooleanEquals");
    reveal_strlit("Next");
    let members = choice_json(c)->Object_0;
    assert("Variable"@[0] == 'V' && "IsPresent"@[0] == 'I' && "BooleanEquals"@[0] == 'B'
        && "Next"@[0] == 'N');
    lemma_member_found(members, 0, "Variable"@);
    lemma_member_found(members, 1, "IsPresent"@);
    lemma_member_found(members, 2, "BooleanEquals"@);
    lemma_member_found(members, 3, "Next"@);
}

impl Choice {
    /// Writes the branch rule.
    pub fn to_json(&self) -> (out: Json)
        ensures
            out@ == choice_json(self@),
    {
        let mut members: Vec<(String, Json)> = Vec::new();
        members.push(entry("Variable", Json::text(&self.variable)));
        members.push(entry("IsPresent", Json::optional_bool(&self.is_present)));
        members.push(entry("BooleanEquals", Json::optional_bool(&self.bool_equals)));
        members.push(entry("Next", Json::optional_text(&self.next)));
        proof {
            lemma_members_view(members@);
        }
        let out = Json::Object(members);
        assert(out@->Object_0 =~= choice_json(self@)->Object_0);
        out
    }

    /// Reads a branch rule.
    pub fn from_json(j: &Json) -> (out: Result<Choice, TranslateError>)
        ensures
            outcome(out, |c: Choice| c@) == choice_of(j@),
    {
        let variable = j.text_member("Choice", "Variable")?;
        let is_present = j.optional_bool_member("Choice", "IsPresent")?;
        let bool_equals = j.optional_bool_member("Choice", "BooleanEquals")?;
        let next = j.optional_text_member("Choice", "Next")?;
        Ok(Choice { variable, is_present, bool_equals, next })
    }
}

/// Reads one branch rule; the reader of the items of a `Choices` array.
pub open spec fn choice_reader() -> spec_fn(JsonView) -> Result<ChoiceView, ErrorView> {
    |j: JsonView| choice_of(j)
}

/// The JSON values of a list of branch rules, in order.
pub open spec fn choices_json(choices: Seq<ChoiceView>) -> Seq<JsonView> {
    choices.map_values(|c: ChoiceView| choice_json(c))
}

/// Reads the branch rules of a choice state, in the order of the document.
pub fn choices_from(items: &Vec<Json>) -> (out: Result<Vec<Choice>, TranslateError>)
    ensures
        outcome(out, |v: Vec<Choice>| views(v@)) == each(items_view(items@), choice_reader()),
{
    let ghost all = items_view(items@);
    let ghost read = choice_reader();
    proof {
        lemma_items_view(items@);
    }
    let mut out: Vec<Choice> = Vec::new();
    let mut i: usize = 0;
    assert(views(out@) =~= Seq::<ChoiceView>::empty());
    while i < items.len()
        invariant
            i <= items.len(),
            all == items_view(items@),
            read == choice_reader(),
            all.len() == items.len(),
            forall|k: int| 0 <= k < items.len() ==> #[trigger] all[k] == items[k]@,
            each(all.take(i as int), read) == Ok::<Seq<ChoiceView>, ErrorView>(views(out@)),
        decreases items.len() - i,
    {
        proof {
            lemma_each_next(all, read, i as int);
        }
        let ghost before = views(out@);
        match Choice::from_json(&items[i]) {
            Ok(choice) => {
                out.push(choice);
                assert(views(out@) =~= before.push(choice@));
            },
            Err(e) => {
                proof {
                    lemma_each_fails(all, read, i + 1);
                }
                return Err(e);
            },
        }
        i += 1;
    }
    assert(all.take(i as int) =~= all);
    Ok(out)
}

/// Writes a list of branch rules, in order.
pub fn choices_to_json(choices: &Vec<Choice>) -> (out: Vec<Json>)
    ensures
        items_view(out@) == choices_json(views(choices@)),
{
    let mut out: Vec<Json> = Vec::new();
    let mut i: usize = 0;
    while i < choices.len()
        invariant
            i <= choices.len(),
            out.len() == i,
            forall|k: int| 0 <= k < i ==> (#[trigger] out[k])@ == choice_json(choices[k]@),
        decreases choices.len() - i,
    {
        out.push(choices[i].to_json());
        i += 1;
    }
    proof {
        lemma_items_view(out@);
    }
    assert(items_view(out@) =~= choices_json(views(choices@)));
    out
}

/// A list of branch rules that is written and read again is the same list,
/// in the same order.
pub proof fn lemma_choices_round_trip(choices: Seq<ChoiceView>)
    ensures
        each(choices_json(choices), choice_reader()) == Ok::<Seq<ChoiceView>, ErrorView>(choices),
{
    assert forall|i: int| 0 <= i < choices.len() implies choice_reader()(
        #[trigger] choices_json(choices)[i],
    ) == Ok::<ChoiceView, ErrorView>(choices[i]) by {
        lemma_choice_round_trip(choices[i]);
    }
    lemma_each_reads_all(choices_json(choices), choice_reader(), choices);
}

/// An error route: the errors it applies to, the state to go to, and where
/// the caught error is put.
#[derive(Debug, PartialEq, Eq)]
pub struct Catch {
    pub error_equals: Vec<String>,
    pub next: String,
    pub result_path: String,
}

/// The mathematical value of a [`Catch`].
pub struct CatchView {
    pub error_equals: Seq<Seq<char>>,
    pub next: Seq<char>,
    pub result_path: Seq<char>,
}

impl View for Catch {
    type V = CatchView;

    open spec fn view(&self) -> CatchView {
        CatchView {
            error_equals: views(self.error_equals@),
            next: self.next@,
            result_path: self.result_path@,
        }
    }
}

/// The error route that a JSON value stands for.
pub open spec fn catch_of(j: JsonView) -> Result<CatchView, ErrorView> {
    let error_equals = then_each(
        j.array_member("Catch"@, "ErrorEquals"@),
        text_reader("Catch"@, "ErrorEquals"@),
    );
    let next = j.text_member("Catch"@, "Next"@);
    let result_path = j.text_member("Catch"@, "ResultPath"@);
    if error_equals is Err {
        Err(error_equals->Err_0)
    } else if next is Err {
        Err(next->Err_0)
    } else if result_path is Err {
        Err(result_path->Err_0)
    } else {
        Ok(
            CatchView {
                error_equals: error_equals->Ok_0,
                next: next->Ok_0,
                result_path: result_path->Ok_0,
            },
        )
    }
}

/// The JSON value that stands for an error route.
pub open spec fn catch_json(c: CatchView) -> JsonView {
    JsonView::Object(
        seq![
            ("ErrorEquals"@, JsonView::Array(texts_json(c.error_equals))),
            ("Next"@, JsonView::Text(c.next)),
            ("ResultPath"@, JsonView::Text(c.result_path)),
        ],
    )
}

/// An error route that is written and read again is the same route.
pub proof fn lemma_catch_round_trip(c: CatchView)
    ensures
        catch_of(catch_json(c)) == Ok::<CatchView, ErrorView>(c),
{
    reveal_strlit("ErrorEquals");
    reveal_strlit("Next");
    reveal_strlit("ResultPath");
    let members = catch_json(c)->Object_0;
    assert("ErrorEquals"@[0] == 'E' && "Next"@[0] == 'N' && "ResultPath"@[0] == 'R');
    lemma_member_found(members, 0, "ErrorEquals"@);
    lemma_member_found(members, 1, "Next"@);
    lemma_member_found(members, 2, "ResultPath"@);
    lemma_texts_round_trip(c.error_equals, "Catch"@, "ErrorEquals"@);
}

impl CatchView {
    /// Whether the route applies to an error: the error is one of those that
    /// the route names.
    pub open spec fn applies_to(self, error: Seq<char>) -> bool {
        self.error_equals.contains(error)
    }
}

impl Catch {
    /// Whether the route applies to an error.
    pub fn applies_to(&self, error: &String) -> (out: bool)
        ensures
            out == self@.applies_to(error@),
    {
        let mut i: usize = 0;
        while i < self.error_equals.len()
            invariant
                i <= self.error_equals.len(),
                forall|k: int| 0 <= k < i ==> self@.error_equals[k] != error@,
            decreases self.error_equals.len() - i,
        {
            if self.error_equals[i] == *error {
                assert(self@.error_equals[i as int] == error@);
                return true;
            }
            i += 1;
        }
        false
    }

    /// Reads an error route.
    pub fn from_json(j: &Json) -> (out: Result<Catch, TranslateError>)
        ensures
            outcome(out, |c: Catch| c@) == catch_of(j@),
    {
        let items = j.array_member("Catch", "ErrorEquals")?;
        let error_equals = texts_from(items, "Catch", "ErrorEquals")?;
        let next = j.text_member("Catch", "Next")?;
        let result_path = j.text_member("Catch", "ResultPath")?;
        Ok(Catch { error_equals, next, result_path })
    }

    /// Writes the error route.
    pub fn to_json(&self) -> (out: Json)
        ensures
            out@ == catch_json(self@),
    {
        let mut members: Vec<(String, Json)> = Vec::new();
        members.push(entry("ErrorEquals", Json::Array(texts_to_json(&self.error_equals))));
        members.push(entry("Next", Json::text(&self.next)));
        members.push(entry("ResultPath", Json::text(&self.result_path)));
        proof {
            lemma_members_view(members@);
        }
        let out = Json::Object(members);
        assert(out@->Object_0 =~= catch_json(self@)->Object_0);
        out
    }
}

/// Reads one error route; the reader of the items of a `Catch` array.
pub open spec fn catch_reader() -> spec_fn(JsonView) -> Result<CatchView, ErrorView> {
    |j: JsonView| catch_of(j)
}

/// The JSON values of a list of error routes, in order.
pub open spec fn catches_json(catches: Seq<CatchView>) -> Seq<JsonView> {
    catches.map_values(|c: CatchView| catch_json(c))
}

/// Reads the error routes of a state, in the order of the document.
pub fn catches_from(items: &Vec<Json>) -> (out: Result<Vec<Catch>, TranslateError>)
    ensures
        outcome(out, |v: Vec<Catch>| views(v@)) == each(items_view(items@), catch_reader()),
{
    let ghost all = items_view(items@);
    let ghost read = catch_reader();
    proof {
        lemma_items_view(items@);
    }
    let mut out: Vec<Catch> = Vec::new();
    let mut i: usize = 0;
    assert(views(out@) =~= Seq::<CatchView>::empty());
    while i < items.len()
        invariant
            i <= items.len(),
            all == items_view(items@),
            read == catch_reader(),
            all.len() == items.len(),
            forall|k: int| 0 <= k < items.len() ==> #[trigger] all[k] == items[k]@,
            each(all.take(i as int), read) == Ok::<Seq<CatchView>, ErrorView>(views(out@)),
        decreases items.len() - i,
    {
        proof {
            lemma_each_next(all, read, i as int);
        }
        let ghost before = views(out@);
        match Catch::from_json(&items[i]) {
            Ok(route) => {
                out.push(route);
                assert(views(out@) =~= before.push(route@));
            },
            Err(e) => {
                proof {
                    lemma_each_fails(all, read, i + 1);
                }
                return Err(e);
            },
        }
        i += 1;
    }
    assert(all.take(i as int) =~= all);
    Ok(out)
}

/// Writes a list of error routes, in order.
pub fn catches_to_json(catches: &Vec<Catch>) -> (out: Vec<Json>)
    ensures
        items_view(out@) == catches_json(views(catches@)),
{
    let mut out: Vec<Json> = Vec::new();
    let mut i: usize = 0;
    while i < catches.len()
        invariant
            i <= catches.len(),
            out.len() == i,
            forall|k: int| 0 <= k < i ==> (#[trigger] out[k])@ == catch_json(catches[k]@),
        decreases catches.len() - i,
    {
        out.push(catches[i].to_json());
        i += 1;
    }
    proof {
        lemma_items_view(out@);
    }
    assert(items_view(out@) =~= catches_json(views(catches@)));
    out
}

/// A list of error routes that is written and read again is the same list,
/// in the same order.
pub proof fn lemma_catches_round_trip(catches: Seq<CatchView>)
    ensures
        each(catches_json(catches), catch_reader()) == Ok::<Seq<CatchView>, ErrorView>(catches),
{
    assert forall|i: int| 0 <= i < catches.len() implies catch_reader()(
        #[trigger] catches_json(catches)[i],
    ) == Ok::<CatchView, ErrorView>(catches[i]) by {
        lemma_catch_round_trip(catches[i]);
    }
    lemma_each_reads_all(catches_json(catches), catch_reader(), catches);
}

} // verus!
