//! The workflow definition as a whole: a named graph of states.

use crate::error::{ErrorView, TranslateError};
use crate::fields::{entry, outcome, schema_error};
use crate::envelope::StateMachineDescriptor;
use crate::json::{
    distinct_keys, lemma_member_found, lemma_members_view, members_view, same_members,
    text_tree, tree_text, Json, JsonView,
};
use crate::step::{lemma_step_round_trip, step_json, step_of, Step, StepView};
use vstd::prelude::*;

verus! {

/// A workflow definition. `states` holds each state under its name; no name
/// occurs twice, and the order of the states carries no meaning.
#[derive(Debug, PartialEq, Eq)]
pub struct StateMachineDefinition {
    /// A description for the reader.
    pub comment: String,
    /// The name of the state at which a run begins.
    pub start_at: String,
    /// The states, each with its name.
    pub states: Vec<(String, Step)>,
}

/// The mathematical value of a [`StateMachineDefinition`].
pub struct DefinitionView {
    pub comment: Seq<char>,
    pub start_at: Seq<char>,
    pub states: Seq<(Seq<char>, StepView)>,
}

/// The names and values of a list of named states, in order.
pub open spec fn states_view(states: Seq<(String, Step)>) -> Seq<(Seq<char>, StepView)> {
    states.map_values(|named: (String, Step)| (named.0@, named.1@))
}

impl View for StateMachineDefinition {
    type V = DefinitionView;

    open spec fn view(&self) -> DefinitionView {
        DefinitionView {
            comment: self.comment@,
            start_at: self.start_at@,
            states: states_view(self.states@),
        }
    }
}

/// Whether a state of that name is among `states`.
pub open spec fn has_state(states: Seq<(Seq<char>, StepView)>, name: Seq<char>) -> bool {
    exists|i: int| 0 <= i < states.len() && (#[trigger] states[i]).0 == name
}

/// No name occurs twice among `states`.
pub open spec fn distinct_names(states: Seq<(Seq<char>, StepView)>) -> bool {
    forall|i: int, j: int|
        0 <= i < j < states.len() ==> (#[trigger] states[i]).0 != (#[trigger] states[j]).0
}

/// Whether `states` holds the state `step` under the name `name`.
pub open spec fn holds_state(
    states: Seq<(Seq<char>, StepView)>,
    name: Seq<char>,
    step: StepView,
) -> bool {
    exists|i: int| 0 <= i < states.len() && #[trigger] states[i] == (name, step)
}

/// Whether two lists of states are the same mapping from names to states:
/// each holds under every name what the other holds, in whatever order.
pub open spec fn same_states(
    a: Seq<(Seq<char>, StepView)>,
    b: Seq<(Seq<char>, StepView)>,
) -> bool {
    forall|name: Seq<char>, step: StepView|
        #![trigger holds_state(a, name, step)]
        #![trigger holds_state(b, name, step)]
        holds_state(a, name, step) <==> holds_state(b, name, step)
}

impl DefinitionView {
    /// The invariant of a definition: no state name occurs twice, and every
    /// state is well formed.
    pub open spec fn wf(self) -> bool {
        &&& distinct_names(self.states)
        &&& forall|i: int| 0 <= i < self.states.len() ==> (#[trigger] self.states[i]).1.wf()
    }

    /// Whether two definitions are the same: the same comment, the same
    /// entry state, and the same mapping from names to states. The order in
    /// which the states are held carries no meaning.
    pub open spec fn same_as(self, other: DefinitionView) -> bool {
        &&& self.comment == other.comment
        &&& self.start_at == other.start_at
        &&& same_states(self.states, other.states)
    }
}

/// The states that the members of a `States` object stand for, in the order
/// of the members. A name that occurs a second time is a schema error that
/// names it.
pub open spec fn states_of(members: Seq<(Seq<char>, JsonView)>) -> Result<
    Seq<(Seq<char>, StepView)>,
    ErrorView,
>
    decreases members.len(),
{
    if members.len() == 0 {
        Ok(Seq::empty())
    } else {
        let before = states_of(members.drop_last());
        let name = members.last().0;
        let step = step_of(members.last().1);
        if before is Err {
            Err(before->Err_0)
        } else if has_state(before->Ok_0, name) {
            Err(schema_error("States"@, name))
        } else if step is Err {
            Err(step->Err_0)
        } else {
            Ok(before->Ok_0.push((name, step->Ok_0)))
        }
    }
}

/// The states under the member `States` of a definition.
pub open spec fn states_member(j: JsonView) -> Result<Seq<(Seq<char>, StepView)>, ErrorView> {
    match j.get("States"@) {
        Some(JsonView::Object(members)) => states_of(members),
        _ => Err(schema_error("StateMachineDefinition"@, "States"@)),
    }
}

/// The definition that a JSON value stands for. Whether the names that it
/// refers to exist is not looked at here.
pub open spec fn definition_of(j: JsonView) -> Result<DefinitionView, ErrorView> {
    let comment = j.text_member("StateMachineDefinition"@, "Comment"@);
    let start_at = j.text_member("StateMachineDefinition"@, "StartAt"@);
    let states = states_member(j);
    if comment is Err {
        Err(comment->Err_0)
    } else if start_at is Err {
        Err(start_at->Err_0)
    } else if states is Err {
        Err(states->Err_0)
    } else {
        Ok(
            DefinitionView {
                comment: comment->Ok_0,
                start_at: start_at->Ok_0,
                states: states->Ok_0,
            },
        )
    }
}

/// The members of the `States` object that stands for a list of states.
pub open spec fn states_json(states: Seq<(Seq<char>, StepView)>) -> Seq<(Seq<char>, JsonView)> {
    states.map_values(|named: (Seq<char>, StepView)| (named.0, step_json(named.1)))
}

/// The JSON value that stands for a definition.
pub open spec fn definition_json(d: DefinitionView) -> JsonView {
    JsonView::Object(
        seq![
            ("Comment"@, JsonView::Text(d.comment)),
            ("StartAt"@, JsonView::Text(d.start_at)),
            ("States"@, JsonView::Object(states_json(d.states))),
        ],
    )
}

/// What `states_of` gives for one member more.
pub proof fn lemma_states_next(members: Seq<(Seq<char>, JsonView)>, i: int)
    requires
        0 <= i < members.len(),
    ensures
        states_of(members.take(i + 1)) == (match states_of(members.take(i)) {
            Err(e) => Err(e),
            Ok(before) => if has_state(before, members[i].0) {
                Err(schema_error("States"@, members[i].0))
            } else {
                match step_of(members[i].1) {
                    Err(e) => Err(e),
                    Ok(step) => Ok(before.push((members[i].0, step))),
                }
            },
        }),
{
    let longer = members.take(i + 1);
    assert(longer.drop_last() =~= members.take(i));
    assert(longer.last() == members[i]);
}

/// An error among the first members is the error of the whole.
pub proof fn lemma_states_fail(members: Seq<(Seq<char>, JsonView)>, i: int)
    requires
        0 <= i <= members.len(),
        states_of(members.take(i)) is Err,
    ensures
        states_of(members) == states_of(members.take(i)),
    decreases members.len() - i,
{
    if i < members.len() {
        lemma_states_next(members, i);
        lemma_states_fail(members, i + 1);
    } else {
        assert(members.take(i) =~= members);
    }
}

/// States with distinct names that are written and read again are the same
/// states, in the same order.
pub proof fn lemma_states_round_trip(states: Seq<(Seq<char>, StepView)>)
    requires
        distinct_names(states),
        forall|i: int| 0 <= i < states.len() ==> (#[trigger] states[i]).1.wf(),
    ensures
        states_of(states_json(states)) == Ok::<Seq<(Seq<char>, StepView)>, ErrorView>(states),
    decreases states.len(),
{
    let members = states_json(states);
    if states.len() == 0 {
        assert(states =~= Seq::empty());
    } else {
        let shorter = states.drop_last();
        assert(members.drop_last() =~= states_json(shorter));
        assert forall|i: int, j: int| 0 <= i < j < shorter.len() implies (#[trigger] shorter[i]).0
            != (#[trigger] shorter[j]).0 by {
            assert(shorter[i] == states[i] && shorter[j] == states[j]);
        }
        assert forall|i: int| 0 <= i < shorter.len() implies (#[trigger] shorter[i]).1.wf() by {
            assert(shorter[i] == states[i]);
        }
        lemma_states_round_trip(shorter);
        let last = states.last();
        assert(last == states[states.len() - 1]);
        assert(members.last() == (last.0, step_json(last.1)));
        assert(!has_state(shorter, last.0)) by {
            if has_state(shorter, last.0) {
                let i = choose|i: int|
                    0 <= i < shorter.len() && (#[trigger] shorter[i]).0 == last.0;
                assert(shorter[i] == states[i]);
            }
        }
        lemma_step_round_trip(last.1);
        assert(shorter.push(last) =~= states);
    }
}

/// Whether a member of a `States` object stands for a state: it has the
/// name of the state as its key, and its value is read as the state.
#[verifier::opaque]
pub open spec fn reads_as(member: (Seq<char>, JsonView), state: (Seq<char>, StepView)) -> bool {
    member.0 == state.0 && step_of(member.1) == Ok::<StepView, ErrorView>(state.1)
}

/// Whether a member stands for one of the states.
pub open spec fn stands_among(
    member: (Seq<char>, JsonView),
    states: Seq<(Seq<char>, StepView)>,
) -> bool {
    exists|j: int| 0 <= j < states.len() && #[trigger] reads_as(member, states[j])
}

/// Whether one of the members stands for a state.
pub open spec fn stood_for(
    state: (Seq<char>, StepView),
    members: Seq<(Seq<char>, JsonView)>,
) -> bool {
    exists|i: int| 0 <= i < members.len() && #[trigger] reads_as(members[i], state)
}

/// Whether the members of a `States` object stand for the states of a
/// list, in whatever order: each member for one of the states, and each
/// state is stood for.
pub open spec fn read_as_states(
    members: Seq<(Seq<char>, JsonView)>,
    states: Seq<(Seq<char>, StepView)>,
) -> bool {
    &&& forall|i: int| 0 <= i < members.len() ==> stands_among(#[trigger] members[i], states)
    &&& forall|j: int| 0 <= j < states.len() ==> stood_for(#[trigger] states[j], members)
}

/// A state that is written is read again under its name.
pub proof fn lemma_written_state_reads_as(state: (Seq<char>, StepView))
    requires
        state.1.wf(),
    ensures
        reads_as((state.0, step_json(state.1)), state),
{
    reveal(reads_as);
    lemma_step_round_trip(state.1);
}

/// The members that are written for well-formed states stand for them,
/// in whatever order they are held.
pub proof fn lemma_written_members_read_as_states(
    states: Seq<(Seq<char>, StepView)>,
    members: Seq<(Seq<char>, JsonView)>,
)
    requires
        forall|i: int| 0 <= i < states.len() ==> (#[trigger] states[i]).1.wf(),
        same_members(members, states_json(states)),
    ensures
        read_as_states(members, states),
{
    let written = states_json(states);
    assert forall|i: int| 0 <= i < members.len() implies stands_among(
        #[trigger] members[i],
        states,
    ) by {
        let j = choose|j: int| 0 <= j < written.len() && written[j] == members[i];
        assert(written[j] == (states[j].0, step_json(states[j].1)));
        lemma_written_state_reads_as(states[j]);
        assert(reads_as(members[i], states[j]));
    }
    assert forall|j: int| 0 <= j < states.len() implies stood_for(
        #[trigger] states[j],
        members,
    ) by {
        assert(written[j] == (states[j].0, step_json(states[j].1)));
        let i = choose|i: int| 0 <= i < members.len() && members[i] == written[j];
        lemma_written_state_reads_as(states[j]);
        assert(reads_as(members[i], states[j]));
    }
}

/// The states that are read from the first `n` members of a `States`
/// object whose members stand for `states`: one state for each member,
/// under the key of the member, and each of them a state of `states`.
pub proof fn lemma_states_read_in_any_order(
    states: Seq<(Seq<char>, StepView)>,
    members: Seq<(Seq<char>, JsonView)>,
    n: int,
)
    requires
        0 <= n <= members.len(),
        distinct_keys(members),
        read_as_states(members, states),
    ensures
        states_of(members.take(n)) is Ok,
        states_of(members.take(n))->Ok_0.len() == n,
        forall|k: int|
            0 <= k < n ==> (#[trigger] states_of(members.take(n))->Ok_0[k]).0 == members[k].0
                && holds_state(
                states,
                states_of(members.take(n))->Ok_0[k].0,
                states_of(members.take(n))->Ok_0[k].1,
            ),
    decreases n,
{
    if n == 0 {
        assert(members.take(0).len() == 0);
    } else {
        lemma_states_read_in_any_order(states, members, n - 1);
        lemma_states_next(members, n - 1);
        let before = states_of(members.take(n - 1))->Ok_0;
        let last = members[n - 1];
        assert(stands_among(members[n - 1], states));
        let j = choose|j: int|
            0 <= j < states.len() && #[trigger] reads_as(members[n - 1], states[j]);
        assert(last.0 == states[j].0 && step_of(last.1) == Ok::<StepView, ErrorView>(
            states[j].1,
        )) by {
            reveal(reads_as);
        }
        assert(!has_state(before, last.0)) by {
            if has_state(before, last.0) {
                let k = choose|k: int| 0 <= k < before.len() && (#[trigger] before[k]).0 == last.0;
                assert(members[k].0 == members[n - 1].0);
            }
        }
        let after = before.push((last.0, states[j].1));
        assert(states_of(members.take(n)) == Ok::<Seq<(Seq<char>, StepView)>, ErrorView>(after));
        assert forall|k: int| 0 <= k < n implies (#[trigger] after[k]).0 == members[k].0
            && holds_state(states, after[k].0, after[k].1) by {
            if k < n - 1 {
                assert(after[k] == before[k]);
            } else {
                assert(after[k] == states[j]);
            }
        }
    }
}

/// The order of the members of `States` carries no meaning: members that
/// stand for states with distinct names, read in any order, give the same
/// mapping from names to states.
pub proof fn lemma_states_round_trip_in_any_order(
    states: Seq<(Seq<char>, StepView)>,
    members: Seq<(Seq<char>, JsonView)>,
)
    requires
        distinct_names(states),
        distinct_keys(members),
        read_as_states(members, states),
    ensures
        states_of(members) is Ok,
        states_of(members)->Ok_0.len() == members.len(),
        distinct_names(states_of(members)->Ok_0),
        same_states(states_of(members)->Ok_0, states),
{
    lemma_states_read_in_any_order(states, members, members.len() as int);
    assert(members.take(members.len() as int) =~= members);
    let read = states_of(members)->Ok_0;
    assert forall|i: int, j: int| 0 <= i < j < read.len() implies (#[trigger] read[i]).0 != (
    #[trigger] read[j]).0 by {
        assert(members[i].0 != members[j].0);
    }
    assert forall|name: Seq<char>, step: StepView|
        #![trigger holds_state(read, name, step)]
        #![trigger holds_state(states, name, step)]
        holds_state(read, name, step) <==> holds_state(states, name, step) by {
        if holds_state(read, name, step) {
            let k = choose|k: int| 0 <= k < read.len() && #[trigger] read[k] == (name, step);
            assert(holds_state(states, read[k].0, read[k].1));
        }
        if holds_state(states, name, step) {
            let j = choose|j: int| 0 <= j < states.len() && #[trigger] states[j] == (name, step);
            assert(stood_for(states[j], members));
            let i = choose|i: int|
                0 <= i < members.len() && #[trigger] reads_as(members[i], states[j]);
            assert(members[i].0 == name) by {
                reveal(reads_as);
            }
            assert(read[i].0 == name);
            assert(holds_state(states, read[i].0, read[i].1));
            let j2 = choose|j2: int|
                0 <= j2 < states.len() && #[trigger] states[j2] == (read[i].0, read[i].1);
            if j2 != j {
                if j2 < j {
                    assert(states[j2].0 != states[j].0);
                } else {
                    assert(states[j].0 != states[j2].0);
                }
            }
            assert(read[i] == (name, step));
        }
    }
}

/// States that are the same mapping as well-formed states are well formed.
pub proof fn lemma_same_states_are_well_formed(
    a: Seq<(Seq<char>, StepView)>,
    b: Seq<(Seq<char>, StepView)>,
)
    requires
        same_states(a, b),
        forall|i: int| 0 <= i < b.len() ==> (#[trigger] b[i]).1.wf(),
    ensures
        forall|i: int| 0 <= i < a.len() ==> (#[trigger] a[i]).1.wf(),
{
    assert forall|i: int| 0 <= i < a.len() implies (#[trigger] a[i]).1.wf() by {
        assert(holds_state(a, a[i].0, a[i].1));
        assert(holds_state(b, a[i].0, a[i].1));
        let k = choose|k: int| 0 <= k < b.len() && #[trigger] b[k] == (a[i].0, a[i].1);
        assert(b[k].1.wf());
    }
}

/// The document of a definition whose `States` object holds `members`.
pub open spec fn definition_document(
    d: DefinitionView,
    members: Seq<(Seq<char>, JsonView)>,
) -> JsonView {
    JsonView::Object(
        seq![
            ("Comment"@, JsonView::Text(d.comment)),
            ("StartAt"@, JsonView::Text(d.start_at)),
            ("States"@, JsonView::Object(members)),
        ],
    )
}

/// A document of a well-formed definition is read as the same definition
/// as a mapping, in whatever order the document holds the states: the
/// members of `States` only have to stand for the states, each for one.
pub proof fn lemma_definition_round_trip_as_mapping(
    d: DefinitionView,
    members: Seq<(Seq<char>, JsonView)>,
)
    requires
        d.wf(),
        distinct_keys(members),
        read_as_states(members, d.states),
    ensures
        definition_of(definition_document(d, members)) is Ok,
        definition_of(definition_document(d, members))->Ok_0.same_as(d),
        definition_of(definition_document(d, members))->Ok_0.wf(),
{
    reveal_strlit("Comment");
    reveal_strlit("StartAt");
    reveal_strlit("States");
    let top = definition_document(d, members)->Object_0;
    assert("Comment"@.len() == 7 && "StartAt"@.len() == 7 && "States"@.len() == 6);
    assert("Comment"@[0] == 'C' && "StartAt"@[0] == 'S');
    lemma_member_found(top, 0, "Comment"@);
    lemma_member_found(top, 1, "StartAt"@);
    lemma_member_found(top, 2, "States"@);
    lemma_states_round_trip_in_any_order(d.states, members);
    lemma_same_states_are_well_formed(states_of(members)->Ok_0, d.states);
}

/// A well-formed definition that is written, and whose states are then
/// held in another order, is read as the same definition as a mapping.
pub proof fn lemma_written_definition_in_any_order(
    d: DefinitionView,
    members: Seq<(Seq<char>, JsonView)>,
)
    requires
        d.wf(),
        distinct_keys(members),
        same_members(members, states_json(d.states)),
    ensures
        definition_of(definition_document(d, members)) is Ok,
        definition_of(definition_document(d, members))->Ok_0.same_as(d),
        definition_of(definition_document(d, members))->Ok_0.wf(),
{
    lemma_written_members_read_as_states(d.states, members);
    lemma_definition_round_trip_as_mapping(d, members);
}

/// A well-formed definition that is written and read again is the same
/// definition, field for field.
pub proof fn lemma_definition_round_trip(d: DefinitionView)
    requires
        d.wf(),
    ensures
        definition_of(definition_json(d)) == Ok::<DefinitionView, ErrorView>(d),
{
    reveal_strlit("Comment");
    reveal_strlit("StartAt");
    reveal_strlit("States");
    let members = definition_json(d)->Object_0;
    assert("Comment"@.len() == 7 && "StartAt"@.len() == 7 && "States"@.len() == 6);
    assert("Comment"@[0] == 'C' && "StartAt"@[0] == 'S');
    lemma_member_found(members, 0, "Comment"@);
    lemma_member_found(members, 1, "StartAt"@);
    lemma_member_found(members, 2, "States"@);
    lemma_states_round_trip(d.states);
}

/// The place of the state `name` among `states`: the first, where the name
/// occurs more than once.
pub fn find_state(states: &Vec<(String, Step)>, name: &String) -> (out: Option<usize>)
    ensures
        match out {
            Some(i) => i < states.len() && states[i as int].0@ == name@ && forall|k: int|
                0 <= k < i ==> (#[trigger] states[k]).0@ != name@,
            None => !has_state(states_view(states@), name@),
        },
        out is Some <==> has_state(states_view(states@), name@),
{
    let mut i: usize = 0;
    while i < states.len()
        invariant
            i <= states.len(),
            forall|k: int| 0 <= k < i ==> (#[trigger] states[k]).0@ != name@,
        decreases states.len() - i,
    {
        if states[i].0 == *name {
            assert(states_view(states@)[i as int].0 == name@);
            return Some(i);
        }
        i += 1;
    }
    assert(!has_state(states_view(states@), name@)) by {
        if has_state(states_view(states@), name@) {
            let k = choose|k: int|
                0 <= k < states_view(states@).len() && (#[trigger] states_view(states@)[k]).0
                    == name@;
            assert(states[k].0@ == name@);
        }
    }
    None
}

/// Reads the members of a `States` object.
pub fn states_from(members: &Vec<(String, Json)>) -> (out: Result<
    Vec<(String, Step)>,
    TranslateError,
>)
    ensures
        outcome(out, |v: Vec<(String, Step)>| states_view(v@)) == states_of(
            members_view(members@),
        ),
        out is Ok ==> distinct_names(states_view(out->Ok_0@)),
        out is Ok ==> forall|i: int|
            0 <= i < out->Ok_0.len() ==> (#[trigger] states_view(out->Ok_0@)[i]).1.wf(),
{
    let ghost all = members_view(members@);
    proof {
        lemma_members_view(members@);
    }
    let mut out: Vec<(String, Step)> = Vec::new();
    let mut i: usize = 0;
    assert(states_view(out@) =~= Seq::<(Seq<char>, StepView)>::empty());
    while i < members.len()
        invariant
            i <= members.len(),
            all == members_view(members@),
            all.len() == members.len(),
            forall|k: int|
                0 <= k < members.len() ==> #[trigger] all[k] == (members[k].0@, members[k].1@),
            states_of(all.take(i as int)) == Ok::<Seq<(Seq<char>, StepView)>, ErrorView>(
                states_view(out@),
            ),
            distinct_names(states_view(out@)),
            forall|k: int| 0 <= k < out.len() ==> (#[trigger] states_view(out@)[k]).1.wf(),
        decreases members.len() - i,
    {
        proof {
            lemma_states_next(all, i as int);
        }
        let ghost before = states_view(out@);
        if let Some(k) = find_state(&out, &members[i].0) {
            proof {
                assert(before[k as int].0 == members[i as int].0@);
                lemma_states_fail(all, i + 1);
            }
            return Err(TranslateError::schema("States", members[i].0.as_str()));
        }
        match Step::from_json(&members[i].1) {
            Ok(step) => {
                out.push((members[i].0.clone(), step));
                assert(states_view(out@) =~= before.push((members[i as int].0@, step@)));
            },
            Err(e) => {
                proof {
                    lemma_states_fail(all, i + 1);
                }
                return Err(e);
            },
        }
        i += 1;
    }
    assert(all.take(i as int) =~= all);
    Ok(out)
}

/// Writes a list of named states as the members of a `States` object.
pub fn states_to_json(states: &Vec<(String, Step)>) -> (out: Vec<(String, Json)>)
    ensures
        members_view(out@) == states_json(states_view(states@)),
{
    let mut out: Vec<(String, Json)> = Vec::new();
    let mut i: usize = 0;
    while i < states.len()
        invariant
            i <= states.len(),
            out.len() == i,
            forall|k: int|
                0 <= k < i ==> (#[trigger] out[k]).0@ == states[k].0@ && out[k].1@ == step_json(
                    states[k].1@,
                ),
        decreases states.len() - i,
    {
        out.push((states[i].0.clone(), states[i].1.to_json()));
        i += 1;
    }
    proof {
        lemma_members_view(out@);
    }
    assert(members_view(out@) =~= states_json(states_view(states@)));
    out
}

impl StateMachineDefinition {
    /// Reads a definition. `Comment`, `StartAt` and `States` are required;
    /// members that the model does not know are passed over. Names that
    /// refer to states are not looked up here: see `validate`.
    pub fn from_json(j: &Json) -> (out: Result<StateMachineDefinition, TranslateError>)
        ensures
            outcome(out, |d: StateMachineDefinition| d@) == definition_of(j@),
            out is Ok ==> out->Ok_0@.wf(),
    {
        let comment = j.text_member("StateMachineDefinition", "Comment")?;
        let start_at = j.text_member("StateMachineDefinition", "StartAt")?;
        let states = match j.get("States") {
            Some(Json::Object(members)) => states_from(members)?,
            _ => {
                return Err(TranslateError::schema("StateMachineDefinition", "States"));
            },
        };
        Ok(StateMachineDefinition { comment, start_at, states })
    }

    /// Writes the definition.
    pub fn to_json(&self) -> (out: Json)
        ensures
            out@ == definition_json(self@),
    {
        let mut members: Vec<(String, Json)> = Vec::new();
        members.push(entry("Comment", Json::text(&self.comment)));
        members.push(entry("StartAt", Json::text(&self.start_at)));
        members.push(entry("States", Json::Object(states_to_json(&self.states))));
        proof {
            lemma_members_view(members@);
        }
        let out = Json::Object(members);
        assert(out@->Object_0 =~= definition_json(self@)->Object_0);
        out
    }

    /// The state of that name.
    pub fn state(&self, name: &String) -> (out: Option<&Step>)
        ensures
            match out {
                Some(step) => exists|i: int|
                    0 <= i < self@.states.len() && #[trigger] self@.states[i] == (name@, step@),
                None => !has_state(self@.states, name@),
            },
    {
        match find_state(&self.states, name) {
            Some(i) => {
                assert(self@.states[i as int] == (name@, self.states[i as int].1@));
                Some(&self.states[i].1)
            },
            None => None,
        }
    }
}

/// The definition that a JSON text stands for: the definition of its tree,
/// or the failure to read the text.
pub open spec fn definition_of_text(text: Seq<char>) -> Result<DefinitionView, ErrorView> {
    match text_tree(text) {
        Ok(tree) => definition_of(tree),
        Err(message) => Err(ErrorView::InvalidJson { message }),
    }
}

impl StateMachineDefinition {
    /// Reads a definition from JSON text.
    pub fn parse(text: &str) -> (out: Result<StateMachineDefinition, TranslateError>)
        ensures
            outcome(out, |d: StateMachineDefinition| d@) == definition_of_text(text@),
            out is Ok ==> out->Ok_0@.wf(),
    {
        match Json::from_text(text) {
            Ok(tree) => StateMachineDefinition::from_json(&tree),
            Err(message) => Err(TranslateError::InvalidJson { message }),
        }
    }

    /// Writes the definition as JSON text; `None` where a resource holds a
    /// number that cannot be written.
    pub fn print(&self) -> (out: Option<String>)
        ensures
            match out {
                Some(text) => tree_text(definition_json(self@)) == Some(text@),
                None => tree_text(definition_json(self@)) is None,
            },
    {
        self.to_json().to_text()
    }
}

impl StateMachineDescriptor {
    /// The definition that the descriptor carries as text.
    pub fn parse_definition(&self) -> (out: Result<StateMachineDefinition, TranslateError>)
        ensures
            outcome(out, |d: StateMachineDefinition| d@) == definition_of_text(self.definition@),
            out is Ok ==> out->Ok_0@.wf(),
    {
        StateMachineDefinition::parse(self.definition.as_str())
    }

    /// The descriptor of a state machine with this definition; `None` where
    /// the definition cannot be written as text.
    pub fn with_definition(
        state_machine_arn: String,
        name: String,
        definition: &StateMachineDefinition,
    ) -> (out: Option<StateMachineDescriptor>)
        ensures
            match out {
                Some(descriptor) => descriptor.state_machine_arn == state_machine_arn
                    && descriptor.name == name && tree_text(definition_json(definition@)) == Some(
                    descriptor.definition@,
                ),
                None => tree_text(definition_json(definition@)) is None,
            },
    {
        match definition.print() {
            Some(text) => Some(
                StateMachineDescriptor { state_machine_arn, name, definition: text },
            ),
            None => None,
        }
    }
}

} // verus!
