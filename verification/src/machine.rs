//! The transition table and the matching/firing engine.

use vstd::prelude::*;

verus! {

/// Classifies events for matching.  Two events request the same
/// trigger-class exactly when their kind tokens agree; an event's payload
/// never takes part in matching.
///
/// Implementations must make the executable token agree with the
/// specification-level token; the engine's contracts are stated over
/// `spec_kind` alone.
pub trait EventKind: Sized {
    /// The kind token of this event, as seen by contracts.
    spec fn spec_kind(self) -> u64;

    /// Computes the kind token of this event.
    fn kind(&self) -> (k: u64)
        ensures
            k == self.spec_kind(),
    ;
}

/// Equality on state values, tied to logical equality.
///
/// Implementations must answer exactly whether the two values are equal;
/// the engine matches transitions by this test.
pub trait StateEq: Sized + Copy {
    /// Decides whether two states are the same.
    fn eq_state(&self, other: &Self) -> (r: bool)
        ensures
            r <==> *self == *other,
    ;
}

/// A side effect attached to a transition.  When its transition fires, the
/// trigger is run exactly once, with the fired event (payload included) and
/// exclusive access to the machine's managed state.  A trigger value may
/// carry its own state across invocations, which is why `fire` takes it
/// mutably.
pub trait Trigger<E, M>: Sized {
    /// What one invocation does: from the trigger's own state, the fired
    /// event and the managed state, the trigger's next state and the new
    /// managed state.
    spec fn spec_fire(self, event: E, managed: M) -> (Self, M);

    /// Runs the side effect once.
    fn fire(&mut self, event: E, managed: &mut M)
        ensures
            (*final(self), *final(managed)) == old(self).spec_fire(event, *old(managed)),
    ;
}

/// The trigger that does nothing; for machines whose transitions carry no
/// side effects.
pub struct NoTrigger;

impl<E, M> Trigger<E, M> for NoTrigger {
    open spec fn spec_fire(self, event: E, managed: M) -> (Self, M) {
        (self, managed)
    }

    fn fire(&mut self, event: E, managed: &mut M) {
    }
}

/// Integer tokens work as states directly.
impl StateEq for u64 {
    fn eq_state(&self, other: &Self) -> (r: bool) {
        *self == *other
    }
}

/// Integer tokens work as events directly: such an event is its own kind
/// and carries no payload.
impl EventKind for u64 {
    open spec fn spec_kind(self) -> u64 {
        self
    }

    fn kind(&self) -> (k: u64) {
        *self
    }
}

/// One directed edge of the machine: a source state, a destination state,
/// an event template whose kind selects the edge, and an optional trigger.
pub struct Transition<S, E, TrigT> {
    from: S,
    to: S,
    event: E,
    t_func: Option<TrigT>,
}

impl<S, E, TrigT> Transition<S, E, TrigT> {
    /// The source state of this edge.
    pub closed spec fn from_state(self) -> S {
        self.from
    }

    /// The destination state of this edge.
    pub closed spec fn to_state(self) -> S {
        self.to
    }

    /// The event template this edge was built with.  Only its kind is ever
    /// consulted; its payload is immaterial.
    pub closed spec fn template(self) -> E {
        self.event
    }

    /// The trigger of this edge, if any.
    pub closed spec fn trig(self) -> Option<TrigT> {
        self.t_func
    }

    pub open spec fn has_trigger(self) -> bool {
        self.trig() is Some
    }

    /// A transition with no trigger.
    pub fn new(from_state: S, to_state: S, trigger: E) -> (t: Self)
        ensures
            t.from_state() == from_state,
            t.to_state() == to_state,
            t.template() == trigger,
            t.trig() == Option::<TrigT>::None,
    {
        Transition { from: from_state, to: to_state, event: trigger, t_func: None }
    }

    /// A transition that runs `trigger_func` each time it fires.
    pub fn new_trig(from_state: S, to_state: S, trigger: E, trigger_func: TrigT) -> (t: Self)
        ensures
            t.from_state() == from_state,
            t.to_state() == to_state,
            t.template() == trigger,
            t.trig() == Some(trigger_func),
    {
        Transition { from: from_state, to: to_state, event: trigger, t_func: Some(trigger_func) }
    }
}

impl<S, E: EventKind, TrigT> Transition<S, E, TrigT> {
    /// The kind token this edge answers to: the kind of its template.
    pub open spec fn template_kind(self) -> u64 {
        self.template().spec_kind()
    }

    /// Whether this edge fires for an event of kind `kind` arriving in
    /// state `state`.
    pub open spec fn accepts(self, state: S, kind: u64) -> bool {
        &&& self.from_state() == state
        &&& self.template_kind() == kind
    }
}

/// Why a fired event was refused.  Both defects are deterministic given
/// the current state, the event's kind and the table, so retrying the
/// same event can only fail the same way; the machine is left untouched.
#[derive(Debug, Clone, Copy, PartialEq, Eq)]
pub enum FsmError<S> {
    /// The event is not legal in the current state: no transition leaves
    /// `state` on this kind.
    NoMatchingTransition { state: S, event_kind: u64 },
    /// The table holds more than one transition leaving `state` on this
    /// kind; a configuration defect, reported at first use of the pair.
    AmbiguousTransition { state: S, event_kind: u64 },
}

/// How many entries of `table` match an event of kind `kind` arriving in
/// state `state`.
pub open spec fn match_count<S, E: EventKind, TrigT>(
    table: Seq<Transition<S, E, TrigT>>,
    state: S,
    kind: u64,
) -> nat
    decreases table.len(),
{
    if table.len() == 0 {
        0
    } else {
        match_count(table.drop_last(), state, kind) + if table.last().accepts(state, kind) {
            1nat
        } else {
            0nat
        }
    }
}

/// What firing an event of kind `kind` in state `state` reports: success
/// exactly when one entry matches, and otherwise which of the two defects
/// was found.
pub open spec fn fire_outcome<S, E: EventKind, TrigT>(
    table: Seq<Transition<S, E, TrigT>>,
    state: S,
    kind: u64,
) -> Result<(), FsmError<S>> {
    if match_count(table, state, kind) == 0 {
        Err(FsmError::NoMatchingTransition { state, event_kind: kind })
    } else if match_count(table, state, kind) >= 2 {
        Err(FsmError::AmbiguousTransition { state, event_kind: kind })
    } else {
        Ok(())
    }
}

/// How a machine that fired the entry at index `i` relates to the machine
/// it was before: the current state moved to that entry's destination; the
/// table kept its length, every other entry, and the fired entry's states,
/// template and trigger presence; and the managed state, together with the
/// fired entry's trigger, changed exactly as one run of that trigger on
/// `event` says — or not at all when the entry has no trigger.
pub open spec fn fired_at<S, E: EventKind, M, TrigT: Trigger<E, M>>(
    pre: FiniteStateMachine<S, E, M, TrigT>,
    post: FiniteStateMachine<S, E, M, TrigT>,
    event: E,
    i: int,
) -> bool {
    &&& post.state() == pre.table()[i].to_state()
    &&& post.table().len() == pre.table().len()
    &&& (forall|j: int| 0 <= j < pre.table().len() && j != i ==> post.table()[j] == pre.table()[j])
    &&& post.table()[i].from_state() == pre.table()[i].from_state()
    &&& post.table()[i].to_state() == pre.table()[i].to_state()
    &&& post.table()[i].template() == pre.table()[i].template()
    &&& match pre.table()[i].trig() {
        Some(tg) => {
            let run = tg.spec_fire(event, pre.managed());
            &&& post.managed() == run.1
            &&& post.table()[i].trig() == Some(run.0)
        },
        None => {
            &&& post.managed() == pre.managed()
            &&& post.table()[i] == pre.table()[i]
        },
    }
}

/// The machine: a current state, the caller's managed state, and the
/// transition table, fixed at construction.
pub struct FiniteStateMachine<S, E, M, TrigT> {
    current_state: S,
    managed_state: M,
    transitions: Vec<Transition<S, E, TrigT>>,
}

impl<S, E, M, TrigT> FiniteStateMachine<S, E, M, TrigT> {
    /// The state the machine is in.
    pub closed spec fn state(self) -> S {
        self.current_state
    }

    /// The managed state the machine owns.
    pub closed spec fn managed(self) -> M {
        self.managed_state
    }

    /// The transition table, in construction order.
    pub closed spec fn table(self) -> Seq<Transition<S, E, TrigT>> {
        self.transitions@
    }
}

impl<S: StateEq, E: EventKind, M, TrigT: Trigger<E, M>> FiniteStateMachine<S, E, M, TrigT> {
    /// A machine at `start_state`, owning `managed_state`, with the given
    /// table.  No validation happens here: a table with duplicate
    /// (state, kind) pairs is only rejected when such a pair is fired.
    pub fn new(start_state: S, managed_state: M, transitions: Vec<Transition<S, E, TrigT>>) -> (m:
        Self)
        ensures
            m.state() == start_state,
            m.managed() == managed_state,
            m.table() == transitions@,
    {
        FiniteStateMachine { current_state: start_state, managed_state, transitions }
    }

    /// Fires `e`: looks for the one transition that leaves the current
    /// state on `e`'s kind, moves to its destination, and then runs its
    /// trigger, if any, on the fired event and the managed state.  With no
    /// matching transition, or with more than one, the machine reports the
    /// defect and stays exactly as it was.
    pub fn trigger_event(&mut self, e: E) -> (r: Result<(), FsmError<S>>)
        ensures
            r == fire_outcome(old(self).table(), old(self).state(), e.spec_kind()),
            r is Err ==> *final(self) == *old(self),
            match_count(old(self).table(), old(self).state(), e.spec_kind()) == 1 ==> (forall|
                i: int,
            |
                0 <= i < old(self).table().len() && old(self).table()[i].accepts(
                    old(self).state(),
                    e.spec_kind(),
                ) ==> fired_at(*old(self), *final(self), e, i)),
    {
        let ghost tbl = old(self).table();
        let ghost s0 = old(self).state();
        let k = e.kind();
        let n = self.transitions.len();
        let mut cnt: usize = 0;
        let mut first: usize = n;
        let mut i: usize = 0;
        while i < n
            invariant
                *self == *old(self),
                n == tbl.len(),
                tbl == self.transitions@,
                s0 == self.current_state,
                k == e.spec_kind(),
                i <= n,
                cnt <= i,
                cnt as nat == match_count(tbl.take(i as int), s0, k),
                cnt == 0 ==> first == n && (forall|j: int|
                    0 <= j < i ==> !tbl[j].accepts(s0, k)),
                cnt > 0 ==> first < i && tbl[first as int].accepts(s0, k) && (forall|j: int|
                    0 <= j < first ==> !tbl[j].accepts(s0, k)),
            decreases n - i,
        {
            let here = self.transitions[i].from.eq_state(&self.current_state)
                && self.transitions[i].event.kind() == k;
            proof {
                assert(tbl.take(i + 1).drop_last() =~= tbl.take(i as int));
                assert(tbl.take(i + 1).last() == tbl[i as int]);
                assert(here == tbl[i as int].accepts(s0, k));
            }
            if here {
                if cnt == 0 {
                    first = i;
                }
                cnt = cnt + 1;
            }
            i = i + 1;
        }
        proof {
            assert(tbl.take(n as int) =~= tbl);
        }
        if cnt == 0 {
            proof {
                crate::laws::lemma_match_count_zero(tbl, s0, k);
            }
            return Err(FsmError::NoMatchingTransition { state: self.current_state, event_kind: k });
        }
        if cnt >= 2 {
            return Err(FsmError::AmbiguousTransition { state: self.current_state, event_kind: k });
        }
        assert forall|j: int| 0 <= j < tbl.len() && tbl[j].accepts(s0, k) implies j == first as int by {
            crate::laws::lemma_single_match_is_unique(tbl, s0, k, j, first as int);
        }
        let dest = self.transitions[first].to;
        self.current_state = dest;
        let tg_opt = self.transitions[first].t_func.take();
        match tg_opt {
            Some(mut tg) => {
                tg.fire(e, &mut self.managed_state);
                self.transitions[first].t_func = Some(tg);
            },
            None => {},
        }
        Ok(())
    }

    /// The current state, as a copy.
    pub fn get_current_state(&self) -> (s: S)
        ensures
            s == self.state(),
    {
        self.current_state
    }

    /// A read-only view of the managed state.
    pub fn get_managed_state(&self) -> (m: &M)
        ensures
            *m == self.managed(),
    {
        &self.managed_state
    }
}

/// Two transitions that agree on source, destination, template and
/// trigger are the same transition.
pub proof fn lemma_transition_determined<S, E, TrigT>(
    t1: Transition<S, E, TrigT>,
    t2: Transition<S, E, TrigT>,
)
    requires
        t1.from_state() == t2.from_state(),
        t1.to_state() == t2.to_state(),
        t1.template() == t2.template(),
        t1.trig() == t2.trig(),
    ensures
        t1 == t2,
{
}

} // verus!
