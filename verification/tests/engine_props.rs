use fsm_core::machine::{
    EventKind, FiniteStateMachine, FsmError, NoTrigger, StateEq, Transition, Trigger,
};

#[derive(Debug, PartialEq, Clone, Copy)]
enum Phase {
    Start,
    Ready,
    Running,
}

impl StateEq for Phase {
    fn eq_state(&self, other: &Self) -> bool {
        self == other
    }
}

#[derive(Debug, Clone, Copy, PartialEq)]
enum Signal {
    Go,
    Halt,
    Data(u32),
}

impl EventKind for Signal {
    // Never run: the ghost half of the trait, stated for the record.
    fn spec_kind(self) -> u64 {
        match self {
            Signal::Go => 0,
            Signal::Halt => 1,
            Signal::Data(_) => 2,
        }
    }

    fn kind(&self) -> u64 {
        match self {
            Signal::Go => 0,
            Signal::Halt => 1,
            Signal::Data(_) => 2,
        }
    }
}

fn ready_table() -> Vec<Transition<Phase, Signal, NoTrigger>> {
    vec![
        Transition::new(Phase::Start, Phase::Ready, Signal::Go),
        Transition::new(Phase::Ready, Phase::Running, Signal::Go),
        Transition::new(Phase::Running, Phase::Ready, Signal::Halt),
    ]
}

#[test]
fn matching_transition_moves_to_declared_state() {
    let mut fsm = FiniteStateMachine::new(Phase::Start, 0i32, ready_table());
    assert_eq!(fsm.trigger_event(Signal::Go), Ok(()));
    assert_eq!(fsm.get_current_state(), Phase::Ready);
    assert_eq!(fsm.trigger_event(Signal::Go), Ok(()));
    assert_eq!(fsm.get_current_state(), Phase::Running);
}

#[test]
fn firing_is_deterministic_across_runs() {
    let mut first = FiniteStateMachine::new(Phase::Start, 3i32, ready_table());
    let mut second = FiniteStateMachine::new(Phase::Start, 3i32, ready_table());
    let events = [Signal::Go, Signal::Go, Signal::Halt, Signal::Data(9)];
    for e in events {
        let r1 = first.trigger_event(e);
        let r2 = second.trigger_event(e);
        assert_eq!(r1, r2);
        assert_eq!(first.get_current_state(), second.get_current_state());
        assert_eq!(first.get_managed_state(), second.get_managed_state());
    }
}

#[test]
fn unknown_kind_is_rejected_and_machine_unchanged() {
    let mut fsm = FiniteStateMachine::new(Phase::Start, 7i32, ready_table());
    let r = fsm.trigger_event(Signal::Halt);
    assert_eq!(
        r,
        Err(FsmError::NoMatchingTransition { state: Phase::Start, event_kind: 1 })
    );
    assert_eq!(fsm.get_current_state(), Phase::Start);
    assert_eq!(*fsm.get_managed_state(), 7);
}

#[test]
fn empty_table_rejects_every_event() {
    let mut fsm = FiniteStateMachine::<Phase, Signal, i32, NoTrigger>::new(Phase::Start, 0, vec![]);
    assert_eq!(
        fsm.trigger_event(Signal::Go),
        Err(FsmError::NoMatchingTransition { state: Phase::Start, event_kind: 0 })
    );
    assert_eq!(fsm.get_current_state(), Phase::Start);
}

#[test]
fn duplicate_pair_is_ambiguous_whatever_the_payloads() {
    let table = vec![
        Transition::<Phase, Signal, NoTrigger>::new(Phase::Start, Phase::Ready, Signal::Data(0)),
        Transition::new(Phase::Start, Phase::Running, Signal::Data(99)),
    ];
    let mut fsm = FiniteStateMachine::new(Phase::Start, 5i32, table);
    let r = fsm.trigger_event(Signal::Data(3));
    assert_eq!(
        r,
        Err(FsmError::AmbiguousTransition { state: Phase::Start, event_kind: 2 })
    );
    assert_eq!(fsm.get_current_state(), Phase::Start);
    assert_eq!(*fsm.get_managed_state(), 5);
}

struct AddPayload {
    calls: u32,
}

impl Trigger<Signal, i32> for AddPayload {
    // Never run: the ghost half of the trait, stated for the record.
    fn spec_fire(self, event: Signal, managed: i32) -> (Self, i32) {
        let calls = self.calls + 1;
        let next = if let Signal::Data(v) = event { calls as i32 * 100 + v as i32 } else { managed };
        (AddPayload { calls }, next)
    }

    fn fire(&mut self, event: Signal, managed: &mut i32) {
        self.calls += 1;
        if let Signal::Data(v) = event {
            *managed = self.calls as i32 * 100 + v as i32;
        }
    }
}

#[test]
fn trigger_runs_once_per_fire_with_actual_payload() {
    let table = vec![Transition::new_trig(
        Phase::Start,
        Phase::Start,
        Signal::Data(0),
        AddPayload { calls: 0 },
    )];
    let mut fsm = FiniteStateMachine::new(Phase::Start, 0i32, table);
    fsm.trigger_event(Signal::Data(45)).unwrap();
    assert_eq!(*fsm.get_managed_state(), 145);
    fsm.trigger_event(Signal::Data(2)).unwrap();
    assert_eq!(*fsm.get_managed_state(), 202);
}

#[test]
fn state_changes_before_trigger_only_trigger_touches_managed() {
    let table = vec![Transition::new_trig(
        Phase::Start,
        Phase::Ready,
        Signal::Go,
        SetManaged(10),
    )];
    let mut fsm = FiniteStateMachine::new(Phase::Start, 4i32, table);
    fsm.trigger_event(Signal::Go).unwrap();
    assert_eq!(fsm.get_current_state(), Phase::Ready);
    assert_eq!(*fsm.get_managed_state(), 10);
}

struct SetManaged(i32);

impl Trigger<Signal, i32> for SetManaged {
    // Never run: the ghost half of the trait, stated for the record.
    fn spec_fire(self, _event: Signal, _managed: i32) -> (Self, i32) {
        let v = self.0;
        (self, v)
    }

    fn fire(&mut self, _event: Signal, managed: &mut i32) {
        *managed = self.0;
    }
}

#[test]
fn integer_tokens_drive_the_machine() {
    let table = vec![
        Transition::<u64, u64, NoTrigger>::new(1, 2, 40),
        Transition::new(2, 1, 41),
    ];
    let mut fsm = FiniteStateMachine::new(1u64, 0u8, table);
    assert_eq!(fsm.trigger_event(40), Ok(()));
    assert_eq!(fsm.get_current_state(), 2);
    assert_eq!(fsm.trigger_event(41), Ok(()));
    assert_eq!(fsm.get_current_state(), 1);
    assert_eq!(
        fsm.trigger_event(99),
        Err(FsmError::NoMatchingTransition { state: 1, event_kind: 99 })
    );
}
