//! Engine-wide facts about matching and firing, stated and proved once.

use vstd::prelude::*;

use crate::machine::{
    fire_outcome, fired_at, lemma_transition_determined, match_count, EventKind,
    FiniteStateMachine, FsmError, Transition, Trigger,
};

verus! {

/// A table has no matching entry for (`state`, `kind`) exactly when no
/// entry accepts that pair.
pub proof fn lemma_match_count_zero<S, E: EventKind, TrigT>(
    table: Seq<Transition<S, E, TrigT>>,
    state: S,
    kind: u64,
)
    ensures
        match_count(table, state, kind) == 0 <==> (forall|j: int|
            0 <= j < table.len() ==> !table[j].accepts(state, kind)),
    decreases table.len(),
{
    if table.len() > 0 {
        lemma_match_count_zero(table.drop_last(), state, kind);
        assert(forall|j: int|
            0 <= j < table.len() - 1 ==> table.drop_last()[j] == table[j]);
    }
}

/// An entry that accepts (`state`, `kind`) makes the match count positive.
pub proof fn lemma_accepting_entry_counts<S, E: EventKind, TrigT>(
    table: Seq<Transition<S, E, TrigT>>,
    state: S,
    kind: u64,
    i: int,
)
    requires
        0 <= i < table.len(),
        table[i].accepts(state, kind),
    ensures
        match_count(table, state, kind) >= 1,
    decreases table.len(),
{
    if i < table.len() - 1 {
        assert(table.drop_last()[i] == table[i]);
        lemma_accepting_entry_counts(table.drop_last(), state, kind, i);
    }
}

/// Two distinct entries that both accept (`state`, `kind`) push the match
/// count to at least two.
pub proof fn lemma_two_accepting_entries<S, E: EventKind, TrigT>(
    table: Seq<Transition<S, E, TrigT>>,
    state: S,
    kind: u64,
    i: int,
    j: int,
)
    requires
        0 <= i < j < table.len(),
        table[i].accepts(state, kind),
        table[j].accepts(state, kind),
    ensures
        match_count(table, state, kind) >= 2,
    decreases table.len(),
{
    if j == table.len() - 1 {
        lemma_accepting_entry_counts(table.drop_last(), state, kind, i);
        assert(table.drop_last()[i] == table[i]);
    } else {
        assert(table.drop_last()[i] == table[i]);
        assert(table.drop_last()[j] == table[j]);
        lemma_two_accepting_entries(table.drop_last(), state, kind, i, j);
    }
}

/// When exactly one entry matches, any two accepting indices coincide.
pub proof fn lemma_single_match_is_unique<S, E: EventKind, TrigT>(
    table: Seq<Transition<S, E, TrigT>>,
    state: S,
    kind: u64,
    i: int,
    j: int,
)
    requires
        match_count(table, state, kind) == 1,
        0 <= i < table.len(),
        0 <= j < table.len(),
        table[i].accepts(state, kind),
        table[j].accepts(state, kind),
    ensures
        i == j,
{
    if i < j {
        lemma_two_accepting_entries(table, state, kind, i, j);
    } else if j < i {
        lemma_two_accepting_entries(table, state, kind, j, i);
    }
}

/// In a table with at most one transition for (`state`, `kind`), a
/// declared transition at `i` is the one that fires: the outcome is
/// success, and no other entry matches.  Together with the contract of
/// `trigger_event`, firing then always moves the machine to that entry's
/// declared destination.
pub proof fn lemma_unique_match_fires<S, E: EventKind, TrigT>(
    table: Seq<Transition<S, E, TrigT>>,
    state: S,
    kind: u64,
    i: int,
)
    requires
        match_count(table, state, kind) <= 1,
        0 <= i < table.len(),
        table[i].accepts(state, kind),
    ensures
        match_count(table, state, kind) == 1,
        fire_outcome(table, state, kind) == Ok::<(), FsmError<S>>(()),
        forall|j: int| 0 <= j < table.len() ==> (table[j].accepts(state, kind) <==> j == i),
{
    lemma_accepting_entry_counts(table, state, kind, i);
    assert forall|j: int| 0 <= j < table.len() implies (table[j].accepts(state, kind) <==> j
        == i) by {
        if table[j].accepts(state, kind) && j != i {
            if i < j {
                lemma_two_accepting_entries(table, state, kind, i, j);
            } else {
                lemma_two_accepting_entries(table, state, kind, j, i);
            }
        }
    }
}

/// Firing is deterministic: two machines that start from the same state,
/// managed state and table, and fire the same event through the same
/// entry, end identical — there is no hidden dependence on anything else.
pub proof fn lemma_fire_deterministic<S, E: EventKind, M, TrigT: Trigger<E, M>>(
    pre: FiniteStateMachine<S, E, M, TrigT>,
    post1: FiniteStateMachine<S, E, M, TrigT>,
    post2: FiniteStateMachine<S, E, M, TrigT>,
    event: E,
    i: int,
)
    requires
        0 <= i < pre.table().len(),
        fired_at(pre, post1, event, i),
        fired_at(pre, post2, event, i),
    ensures
        post1.state() == post2.state(),
        post1.managed() == post2.managed(),
        post1.table() == post2.table(),
{
    lemma_transition_determined(post1.table()[i], post2.table()[i]);
    assert(post1.table() =~= post2.table());
}

/// A table that holds two transitions for the same (`state`, `kind`) pair
/// is ill-formed for that pair: firing it always reports
/// `AmbiguousTransition`, wherever in the table the two entries stand.
pub proof fn lemma_duplicate_pair_is_ambiguous<S, E: EventKind, TrigT>(
    table: Seq<Transition<S, E, TrigT>>,
    state: S,
    kind: u64,
    i: int,
    j: int,
)
    requires
        0 <= i < table.len(),
        0 <= j < table.len(),
        i != j,
        table[i].accepts(state, kind),
        table[j].accepts(state, kind),
    ensures
        match_count(table, state, kind) >= 2,
        fire_outcome(table, state, kind) == Err::<(), FsmError<S>>(
            FsmError::AmbiguousTransition { state, event_kind: kind },
        ),
{
    if i < j {
        lemma_two_accepting_entries(table, state, kind, i, j);
    } else {
        lemma_two_accepting_entries(table, state, kind, j, i);
    }
}

/// An event whose kind no transition answers from `state` is rejected
/// with `NoMatchingTransition`.  By the contract of `trigger_event`, the
/// machine is then left exactly as it was.
pub proof fn lemma_unmatched_kind_rejected<S, E: EventKind, TrigT>(
    table: Seq<Transition<S, E, TrigT>>,
    state: S,
    kind: u64,
)
    requires
        forall|j: int| 0 <= j < table.len() ==> !table[j].accepts(state, kind),
    ensures
        match_count(table, state, kind) == 0,
        fire_outcome(table, state, kind) == Err::<(), FsmError<S>>(
            FsmError::NoMatchingTransition { state, event_kind: kind },
        ),
{
    lemma_match_count_zero(table, state, kind);
}

/// Matching is payload-insensitive: two fired events of the same kind are
/// matched identically, whatever payloads they carry — the table sees an
/// event only through its kind token.
pub proof fn lemma_matching_ignores_payload<S, E: EventKind, TrigT>(
    table: Seq<Transition<S, E, TrigT>>,
    state: S,
    e1: E,
    e2: E,
)
    requires
        e1.spec_kind() == e2.spec_kind(),
    ensures
        match_count(table, state, e1.spec_kind()) == match_count(table, state, e2.spec_kind()),
        fire_outcome(table, state, e1.spec_kind()) == fire_outcome(table, state, e2.spec_kind()),
{
}

/// A transition's template matters only through its kind: two entries
/// with the same source and template kind accept exactly the same
/// (state, kind) pairs, whatever payload each template carries.
pub proof fn lemma_template_payload_irrelevant<S, E: EventKind, TrigT>(
    t1: Transition<S, E, TrigT>,
    t2: Transition<S, E, TrigT>,
    state: S,
    kind: u64,
)
    requires
        t1.from_state() == t2.from_state(),
        t1.template().spec_kind() == t2.template().spec_kind(),
    ensures
        t1.accepts(state, kind) <==> t2.accepts(state, kind),
{
}

/// A fired transition without a trigger mutates nothing but the current
/// state: managed state and table come out exactly as they went in.
pub proof fn lemma_no_trigger_no_mutation<S, E: EventKind, M, TrigT: Trigger<E, M>>(
    pre: FiniteStateMachine<S, E, M, TrigT>,
    post: FiniteStateMachine<S, E, M, TrigT>,
    event: E,
    i: int,
)
    requires
        0 <= i < pre.table().len(),
        fired_at(pre, post, event, i),
        !pre.table()[i].has_trigger(),
    ensures
        post.managed() == pre.managed(),
        post.table() == pre.table(),
{
    assert(post.table() =~= pre.table());
}

} // verus!
