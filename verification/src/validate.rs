//! The second pass over a definition: names that refer to states that do
//! not exist.

use crate::definition::{Catch, CatchView, Choice, ChoiceView};
use crate::fields::text_view;
use crate::list::views;
use crate::error::ErrorView;
use crate::machine::{
    definition_json, definition_of, find_state, has_state, lemma_definition_round_trip,
    states_view, DefinitionView, StateMachineDefinition,
};
use crate::step::{Step, StepView};
use vstd::prelude::*;

verus! {

/// The place of a reference to a state.
#[derive(Clone, Copy, Debug, PartialEq, Eq, Structural)]
pub enum ReferenceKind {
    /// The entry state of the definition.
    StartAt,
    /// The successor of a state.
    Next,
    /// The target of the branch rule at this place among the `choices`.
    Choice(usize),
    /// The target of the error route at this place among the `catch`.
    Catch(usize),
    /// The fallback successor of a choice state.
    Default,
}

/// A reference to a state that the definition does not hold.
#[derive(Debug, PartialEq, Eq)]
pub struct DanglingReference {
    /// The name of the state that holds the reference; empty for the entry
    /// state of the definition.
    pub state: String,
    /// Where in the state the reference stands.
    pub kind: ReferenceKind,
    /// The name that is referred to.
    pub target: String,
}

/// The mathematical value of a [`DanglingReference`].
pub struct DanglingView {
    pub state: Seq<char>,
    pub kind: ReferenceKind,
    pub target: Seq<char>,
}

impl View for DanglingReference {
    type V = DanglingView;

    open spec fn view(&self) -> DanglingView {
        DanglingView { state: self.state@, kind: self.kind, target: self.target@ }
    }
}

/// The finding for one reference: nothing where the target exists.
pub open spec fn dangling_one(
    states: Seq<(Seq<char>, StepView)>,
    state: Seq<char>,
    kind: ReferenceKind,
    target: Seq<char>,
) -> Seq<DanglingView> {
    if has_state(states, target) {
        Seq::empty()
    } else {
        seq![DanglingView { state, kind, target }]
    }
}

/// The finding for a reference that may be absent.
pub open spec fn dangling_optional(
    states: Seq<(Seq<char>, StepView)>,
    state: Seq<char>,
    kind: ReferenceKind,
    target: Option<Seq<char>>,
) -> Seq<DanglingView> {
    match target {
        Some(name) => dangling_one(states, state, kind, name),
        None => Seq::empty(),
    }
}

/// The findings among the branch rules of a state, in their order.
pub open spec fn dangling_choices(
    states: Seq<(Seq<char>, StepView)>,
    state: Seq<char>,
    choices: Seq<ChoiceView>,
) -> Seq<DanglingView>
    decreases choices.len(),
{
    if choices.len() == 0 {
        Seq::empty()
    } else {
        dangling_choices(states, state, choices.drop_last()) + dangling_optional(
            states,
            state,
            ReferenceKind::Choice((choices.len() - 1) as usize),
            choices.last().next,
        )
    }
}

/// The findings among the error routes of a state, in their order.
pub open spec fn dangling_catches(
    states: Seq<(Seq<char>, StepView)>,
    state: Seq<char>,
    catches: Seq<CatchView>,
) -> Seq<DanglingView>
    decreases catches.len(),
{
    if catches.len() == 0 {
        Seq::empty()
    } else {
        dangling_catches(states, state, catches.drop_last()) + dangling_one(
            states,
            state,
            ReferenceKind::Catch((catches.len() - 1) as usize),
            catches.last().next,
        )
    }
}

/// The findings in one state: successor, branch rules, error routes,
/// fallback, in this order.
pub open spec fn dangling_in_step(
    states: Seq<(Seq<char>, StepView)>,
    state: Seq<char>,
    step: StepView,
) -> Seq<DanglingView> {
    dangling_optional(states, state, ReferenceKind::Next, step.next) + (match step.choices {
        Some(list) => dangling_choices(states, state, list),
        None => Seq::empty(),
    }) + (match step.catch {
        Some(list) => dangling_catches(states, state, list),
        None => Seq::empty(),
    }) + dangling_optional(states, state, ReferenceKind::Default, step.default)
}

/// The findings in the states `some`, in their order, looked up in `states`.
pub open spec fn dangling_in_states(
    states: Seq<(Seq<char>, StepView)>,
    some: Seq<(Seq<char>, StepView)>,
) -> Seq<DanglingView>
    decreases some.len(),
{
    if some.len() == 0 {
        Seq::empty()
    } else {
        dangling_in_states(states, some.drop_last()) + dangling_in_step(
            states,
            some.last().0,
            some.last().1,
        )
    }
}

/// All dangling references of a definition: the entry state first, then
/// state by state.
pub open spec fn dangling(d: DefinitionView) -> Seq<DanglingView> {
    dangling_one(d.states, Seq::empty(), ReferenceKind::StartAt, d.start_at) + dangling_in_states(
        d.states,
        d.states,
    )
}

/// Adds the finding for one reference to `out`.
fn check_one(
    states: &Vec<(String, Step)>,
    state: &String,
    kind: ReferenceKind,
    target: &String,
    out: &mut Vec<DanglingReference>,
)
    ensures
        views(final(out)@) == views(old(out)@) + dangling_one(
            states_view(states@),
            state@,
            kind,
            target@,
        ),
{
    let ghost before = views(out@);
    if find_state(states, target).is_some() {
        assert(views(out@) =~= before + Seq::<DanglingView>::empty());
    } else {
        let found = DanglingReference { state: state.clone(), kind, target: target.clone() };
        out.push(found);
        assert(views(out@) =~= before + seq![found@]);
    }
}

/// Adds the finding for a reference that may be absent to `out`.
fn check_optional(
    states: &Vec<(String, Step)>,
    state: &String,
    kind: ReferenceKind,
    target: &Option<String>,
    out: &mut Vec<DanglingReference>,
)
    ensures
        views(final(out)@) == views(old(out)@) + dangling_optional(
            states_view(states@),
            state@,
            kind,
            text_view(*target),
        ),
{
    let ghost before = views(out@);
    match target {
        Some(name) => check_one(states, state, kind, name, out),
        None => {
            assert(views(out@) =~= before + Seq::<DanglingView>::empty());
        },
    }
}

/// Adds the findings among the branch rules of a state to `out`.
fn check_choices(
    states: &Vec<(String, Step)>,
    state: &String,
    choices: &Vec<Choice>,
    out: &mut Vec<DanglingReference>,
)
    ensures
        views(final(out)@) == views(old(out)@) + dangling_choices(
            states_view(states@),
            state@,
            views(choices@),
        ),
{
    let ghost before = views(out@);
    let ghost all = views(choices@);
    let ghost known = states_view(states@);
    let mut i: usize = 0;
    assert(views(out@) =~= before + dangling_choices(known, state@, all.take(0)));
    while i < choices.len()
        invariant
            i <= choices.len(),
            all == views(choices@),
            known == states_view(states@),
            views(out@) == before + dangling_choices(known, state@, all.take(i as int)),
        decreases choices.len() - i,
    {
        let ghost earlier = dangling_choices(known, state@, all.take(i as int));
        check_optional(states, state, ReferenceKind::Choice(i), &choices[i].next, out);
        proof {
            let longer = all.take(i + 1);
            assert(longer.drop_last() =~= all.take(i as int));
            assert(longer.last().next == text_view(choices[i as int].next));
            assert(views(out@) =~= before + dangling_choices(known, state@, longer));
        }
        i += 1;
    }
    assert(all.take(i as int) =~= all);
}

/// Adds the findings among the error routes of a state to `out`.
fn check_catches(
    states: &Vec<(String, Step)>,
    state: &String,
    catches: &Vec<Catch>,
    out: &mut Vec<DanglingReference>,
)
    ensures
        views(final(out)@) == views(old(out)@) + dangling_catches(
            states_view(states@),
            state@,
            views(catches@),
        ),
{
    let ghost before = views(out@);
    let ghost all = views(catches@);
    let ghost known = states_view(states@);
    let mut i: usize = 0;
    assert(views(out@) =~= before + dangling_catches(known, state@, all.take(0)));
    while i < catches.len()
        invariant
            i <= catches.len(),
            all == views(catches@),
            known == states_view(states@),
            views(out@) == before + dangling_catches(known, state@, all.take(i as int)),
        decreases catches.len() - i,
    {
        check_one(states, state, ReferenceKind::Catch(i), &catches[i].next, out);
        proof {
            let longer = all.take(i + 1);
            assert(longer.drop_last() =~= all.take(i as int));
            assert(longer.last().next == catches[i as int].next@);
            assert(views(out@) =~= before + dangling_catches(known, state@, longer));
        }
        i += 1;
    }
    assert(all.take(i as int) =~= all);
}

/// Adds the findings in one state to `out`.
fn check_step(
    states: &Vec<(String, Step)>,
    state: &String,
    step: &Step,
    out: &mut Vec<DanglingReference>,
)
    ensures
        views(final(out)@) == views(old(out)@) + dangling_in_step(
            states_view(states@),
            state@,
            step@,
        ),
{
    let ghost before = views(out@);
    let ghost known = states_view(states@);
    check_optional(states, state, ReferenceKind::Next, &step.next, out);
    let ghost after_next = views(out@);
    if let Some(list) = &step.choices {
        check_choices(states, state, list, out);
    }
    let ghost after_choices = views(out@);
    if let Some(list) = &step.catch {
        check_catches(states, state, list, out);
    }
    let ghost after_catches = views(out@);
    check_optional(states, state, ReferenceKind::Default, &step.default, out);
    proof {
        let from_next = dangling_optional(known, state@, ReferenceKind::Next, step@.next);
        let from_choices = match step@.choices {
            Some(list) => dangling_choices(known, state@, list),
            None => Seq::empty(),
        };
        let from_catches = match step@.catch {
            Some(list) => dangling_catches(known, state@, list),
            None => Seq::empty(),
        };
        let from_default = dangling_optional(known, state@, ReferenceKind::Default, step@.default);
        assert(after_next == before + from_next);
        assert(after_choices =~= after_next + from_choices);
        assert(after_catches =~= after_choices + from_catches);
        assert(views(out@) =~= before + (from_next + from_choices + from_catches + from_default));
    }
}

impl StateMachineDefinition {
    /// Lists the references to states that the definition does not hold:
    /// first the entry state, then state by state the successor, the targets
    /// of the branch rules, those of the error routes, and the fallback. The
    /// list is empty exactly where every reference resolves.
    pub fn validate(&self) -> (out: Vec<DanglingReference>)
        ensures
            views(out@) == dangling(self@),
            out.len() == 0 <==> resolves(self@),
    {
        let mut out: Vec<DanglingReference> = Vec::new();
        let ghost known = states_view(self.states@);
        let origin = String::new();
        assert(views(out@) =~= Seq::<DanglingView>::empty());
        check_one(&self.states, &origin, ReferenceKind::StartAt, &self.start_at, &mut out);
        let ghost first = views(out@);
        assert(first =~= dangling_one(known, Seq::empty(), ReferenceKind::StartAt, self.start_at@));
        let mut i: usize = 0;
        assert(views(out@) =~= first + dangling_in_states(known, known.take(0)));
        while i < self.states.len()
            invariant
                i <= self.states.len(),
                known == states_view(self.states@),
                views(out@) == first + dangling_in_states(known, known.take(i as int)),
            decreases self.states.len() - i,
        {
            check_step(&self.states, &self.states[i].0, &self.states[i].1, &mut out);
            proof {
                let longer = known.take(i + 1);
                assert(longer.drop_last() =~= known.take(i as int));
                assert(longer.last() == (self.states[i as int].0@, self.states[i as int].1@));
                assert(views(out@) =~= first + dangling_in_states(known, longer));
            }
            i += 1;
        }
        proof {
            assert(known.take(i as int) =~= known);
            lemma_dangling_is_empty_where_resolved(self@);
        }
        out
    }
}

/// Whether every reference of a state names one of `states`: its
/// successor, its fallback, and the targets of its branch rules and of its
/// error routes.
pub open spec fn step_resolves(states: Seq<(Seq<char>, StepView)>, step: StepView) -> bool {
    &&& step.next is Some ==> has_state(states, step.next->Some_0)
    &&& step.default is Some ==> has_state(states, step.default->Some_0)
    &&& step.choices is Some ==> forall|k: int|
        0 <= k < step.choices->Some_0.len() && (#[trigger] step.choices->Some_0[k]).next is Some
            ==> has_state(states, step.choices->Some_0[k].next->Some_0)
    &&& step.catch is Some ==> forall|k: int|
        0 <= k < step.catch->Some_0.len() ==> has_state(
            states,
            (#[trigger] step.catch->Some_0[k]).next,
        )
}

/// Every reference of the definition names one of its states.
pub open spec fn resolves(d: DefinitionView) -> bool {
    &&& has_state(d.states, d.start_at)
    &&& forall|i: int|
        0 <= i < d.states.len() ==> step_resolves(d.states, (#[trigger] d.states[i]).1)
}

/// Nothing is found among branch rules exactly where each target exists.
pub proof fn lemma_choices_resolve(
    states: Seq<(Seq<char>, StepView)>,
    state: Seq<char>,
    choices: Seq<ChoiceView>,
)
    ensures
        dangling_choices(states, state, choices).len() == 0 <==> forall|k: int|
            0 <= k < choices.len() && (#[trigger] choices[k]).next is Some ==> has_state(
                states,
                choices[k].next->Some_0,
            ),
    decreases choices.len(),
{
    if choices.len() > 0 {
        let shorter = choices.drop_last();
        lemma_choices_resolve(states, state, shorter);
        assert(choices.last() == choices[choices.len() - 1]);
        assert forall|k: int| 0 <= k < shorter.len() implies #[trigger] shorter[k]
            == choices[k] by {}
        if dangling_choices(states, state, choices).len() == 0 {
            assert forall|k: int|
                0 <= k < choices.len() && (#[trigger] choices[k]).next is Some implies has_state(
                states,
                choices[k].next->Some_0,
            ) by {
                if k < shorter.len() {
                    assert(shorter[k] == choices[k]);
                }
            }
        }
    }
}

/// Nothing is found among error routes exactly where each target exists.
pub proof fn lemma_catches_resolve(
    states: Seq<(Seq<char>, StepView)>,
    state: Seq<char>,
    catches: Seq<CatchView>,
)
    ensures
        dangling_catches(states, state, catches).len() == 0 <==> forall|k: int|
            0 <= k < catches.len() ==> has_state(states, (#[trigger] catches[k]).next),
    decreases catches.len(),
{
    if catches.len() > 0 {
        let shorter = catches.drop_last();
        lemma_catches_resolve(states, state, shorter);
        assert(catches.last() == catches[catches.len() - 1]);
        assert forall|k: int| 0 <= k < shorter.len() implies #[trigger] shorter[k]
            == catches[k] by {}
        if dangling_catches(states, state, catches).len() == 0 {
            assert forall|k: int| 0 <= k < catches.len() implies has_state(
                states,
                (#[trigger] catches[k]).next,
            ) by {
                if k < shorter.len() {
                    assert(shorter[k] == catches[k]);
                }
            }
        }
    }
}

/// Nothing is found in a state exactly where its references resolve.
pub proof fn lemma_step_resolves(
    states: Seq<(Seq<char>, StepView)>,
    state: Seq<char>,
    step: StepView,
)
    ensures
        dangling_in_step(states, state, step).len() == 0 <==> step_resolves(states, step),
{
    if step.choices is Some {
        lemma_choices_resolve(states, state, step.choices->Some_0);
    }
    if step.catch is Some {
        lemma_catches_resolve(states, state, step.catch->Some_0);
    }
}

/// Nothing is found in a list of states exactly where each of them resolves.
pub proof fn lemma_states_resolve(
    states: Seq<(Seq<char>, StepView)>,
    some: Seq<(Seq<char>, StepView)>,
)
    ensures
        dangling_in_states(states, some).len() == 0 <==> forall|i: int|
            0 <= i < some.len() ==> step_resolves(states, (#[trigger] some[i]).1),
    decreases some.len(),
{
    if some.len() > 0 {
        let shorter = some.drop_last();
        lemma_states_resolve(states, shorter);
        lemma_step_resolves(states, some.last().0, some.last().1);
        assert(some.last() == some[some.len() - 1]);
        assert forall|i: int| 0 <= i < shorter.len() implies #[trigger] shorter[i] == some[i] by {}
        if dangling_in_states(states, some).len() == 0 {
            assert forall|i: int| 0 <= i < some.len() implies step_resolves(
                states,
                (#[trigger] some[i]).1,
            ) by {
                if i < shorter.len() {
                    assert(shorter[i] == some[i]);
                }
            }
        }
    }
}

/// The list of dangling references is empty exactly where every reference
/// of the definition names one of its states.
pub proof fn lemma_dangling_is_empty_where_resolved(d: DefinitionView)
    ensures
        dangling(d).len() == 0 <==> resolves(d),
{
    lemma_states_resolve(d.states, d.states);
}

/// A definition whose entry state is missing from its states is reported,
/// and the missing entry state is the first finding.
pub proof fn lemma_missing_start_is_reported(d: DefinitionView)
    requires
        !has_state(d.states, d.start_at),
    ensures
        dangling(d).len() > 0,
        dangling(d)[0] == (DanglingView {
            state: Seq::empty(),
            kind: ReferenceKind::StartAt,
            target: d.start_at,
        }),
        !resolves(d),
{
}

/// Reading does not look at references: the document of a well-formed
/// definition whose entry state is missing is read as that definition, and
/// only the second pass reports it.
pub proof fn lemma_missing_start_is_read_and_reported(d: DefinitionView)
    requires
        d.wf(),
        !has_state(d.states, d.start_at),
    ensures
        definition_of(definition_json(d)) == Ok::<DefinitionView, ErrorView>(d),
        dangling(d).len() > 0,
{
    lemma_definition_round_trip(d);
    lemma_missing_start_is_reported(d);
}

} // verus!
