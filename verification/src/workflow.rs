//! Generic state machine: a set of transitions indexed by source state and
//! event, with optional guards that may block a transition.
//!
//! Machines are pure data: callers own the current state and pass it to
//! [`Machine::transition`].

use vstd::prelude::*;
use crate::primitives::{concat, debug_string, debug_text, Error, StringMap, error_text};

verus! {

/// An opaque state label.
#[derive(Debug, Clone, PartialEq, Eq, Hash)]
pub struct State(pub String);

impl View for State {
    type V = Seq<char>;

    open spec fn view(&self) -> Seq<char> {
        self.0@
    }
}

impl State {
    /// Create a new state label.
    pub fn new(label: &str) -> (result: State)
        ensures
            result@ == label@,
    {
        State(label.to_owned())
    }

    /// A copy of this state.
    pub fn duplicate(&self) -> (result: State)
        ensures
            result@ == self@,
    {
        State(self.0.clone())
    }
}

/// A check run before a transition is committed; `Err` blocks it.
pub trait TransitionGuard {
    /// Whether this guard lets a transition proceed for `data`. A guard may
    /// narrow this down; by default it may let any data through.
    closed spec fn accepts(&self, data: Map<Seq<char>, serde_json::Value>) -> bool {
        true
    }

    /// Whether this guard may block a transition for `data` with `cause`. A
    /// guard may narrow this down; by default it may block any data.
    closed spec fn rejects(&self, data: Map<Seq<char>, serde_json::Value>, cause: Error) -> bool {
        true
    }

    /// Decide whether the transition may proceed for `data`.
    fn check(&self, data: &StringMap<serde_json::Value>) -> (result: Result<(), Error>)
        ensures
            result is Ok ==> self.accepts(data.as_map()),
            result matches Err(cause) ==> self.rejects(data.as_map(), cause),
    ;
}

/// A single allowed state transition.
#[derive(Clone)]
pub struct TransitionDef<G> {
    /// Source state.
    pub from: State,
    /// Destination state.
    pub to: State,
    /// Event name that triggers this transition.
    pub event: String,
    /// Optional guard, run before the transition is committed.
    pub guard: Option<G>,
}

/// Whether transition `t` leaves `from` on `event`.
pub open spec fn leaves_on<G>(t: TransitionDef<G>, from: Seq<char>, event: Seq<char>) -> bool {
    t.from@ == from && t.event@ == event
}

/// The transition that applies to `from` and `event`: when several are
/// defined, the one defined last.
pub open spec fn applicable<G>(ts: Seq<TransitionDef<G>>, from: Seq<char>, event: Seq<char>) -> Option<int>
    decreases ts.len(),
{
    if ts.len() == 0 {
        None
    } else if leaves_on(ts.last(), from, event) {
        Some(ts.len() - 1)
    } else {
        applicable(ts.drop_last(), from, event)
    }
}

/// `s` extended by `x` unless `x` is already in it.
pub open spec fn push_new(s: Seq<Seq<char>>, x: Seq<char>) -> Seq<Seq<char>> {
    if s.contains(x) {
        s
    } else {
        s.push(x)
    }
}

/// States named by `ts`, each once, in the order they first appear
/// (a transition contributes its source before its destination).
pub open spec fn states_of<G>(ts: Seq<TransitionDef<G>>) -> Seq<Seq<char>>
    decreases ts.len(),
{
    if ts.len() == 0 {
        Seq::empty()
    } else {
        push_new(push_new(states_of(ts.drop_last()), ts.last().from@), ts.last().to@)
    }
}

/// Message of the error for an undefined transition.
pub open spec fn no_transition_message(machine: Seq<char>, from: Seq<char>, event: Seq<char>) -> Seq<char> {
    "workflow "@ + machine + ": no transition from State("@ + debug_text(from) + ") on event "@
        + debug_text(event)
}

/// Message of the error for a transition blocked by its guard.
pub open spec fn guard_failed_message(machine: Seq<char>, cause: Error) -> Seq<char> {
    "workflow "@ + machine + ": guard failed: "@ + error_text(cause)
}

/// What `applicable` finds: the last matching transition, or none.
pub proof fn lemma_applicable<G>(ts: Seq<TransitionDef<G>>, from: Seq<char>, event: Seq<char>)
    ensures
        match applicable(ts, from, event) {
            Some(i) => 0 <= i < ts.len() && leaves_on(ts[i], from, event) && forall|j: int|
                i < j < ts.len() ==> !leaves_on(#[trigger] ts[j], from, event),
            None => forall|j: int| 0 <= j < ts.len() ==> !leaves_on(#[trigger] ts[j], from, event),
        },
    decreases ts.len(),
{
    if ts.len() > 0 {
        lemma_applicable(ts.drop_last(), from, event);
        if !leaves_on(ts.last(), from, event) {
            assert forall|j: int| 0 <= j < ts.len() - 1 implies #[trigger] ts[j] == ts.drop_last()[j] by {}
        }
    }
}

/// Immutable state machine definition.
pub struct Machine<G> {
    name: String,
    initial: State,
    transitions: Vec<TransitionDef<G>>,
}

impl<G: TransitionGuard> Machine<G> {
    /// The machine's name.
    pub closed spec fn spec_name(&self) -> Seq<char> {
        self.name@
    }

    /// The machine's initial state.
    pub closed spec fn spec_initial(&self) -> Seq<char> {
        self.initial@
    }

    /// The transitions, in definition order.
    pub closed spec fn spec_transitions(&self) -> Seq<TransitionDef<G>> {
        self.transitions@
    }

    /// Construct a new machine.
    pub fn new(name: &str, initial: State, transitions: Vec<TransitionDef<G>>) -> (result: Machine<G>)
        ensures
            result.spec_name() == name@,
            result.spec_initial() == initial@,
            result.spec_transitions() == transitions@,
    {
        Machine { name: name.to_owned(), initial, transitions }
    }

    /// Machine name.
    pub fn name(&self) -> (result: &str)
        ensures
            result@ == self.spec_name(),
    {
        self.name.as_str()
    }

    /// Initial state.
    pub fn initial(&self) -> (result: &State)
        ensures
            result@ == self.spec_initial(),
    {
        &self.initial
    }

    /// Index of the transition that applies to `from` and `event`.
    fn find(&self, from: &State, event: &str) -> (result: Option<usize>)
        ensures
            match result {
                Some(i) => i < self.spec_transitions().len() && applicable(
                    self.spec_transitions(),
                    from@,
                    event@,
                ) == Some(i as int),
                None => applicable(self.spec_transitions(), from@, event@) is None,
            },
    {
        let ghost ts = self.transitions@;
        proof {
            lemma_applicable(ts, from@, event@);
        }
        let mut i: usize = self.transitions.len();
        while i > 0
            invariant
                i <= ts.len(),
                ts == self.transitions@,
                forall|j: int| i <= j < ts.len() ==> !leaves_on(#[trigger] ts[j], from@, event@),
            decreases i,
        {
            i = i - 1;
            let t = &self.transitions[i];
            if t.from.0 == from.0 && crate::primitives::str_eq(t.event.as_str(), event) {
                proof {
                    lemma_applicable(ts, from@, event@);
                }
                return Some(i);
            }
        }
        proof {
            lemma_applicable(ts, from@, event@);
        }
        None
    }

    /// Whether `event` is defined from `from`.
    pub fn can_transition(&self, from: &State, event: &str) -> (result: bool)
        ensures
            result == applicable(self.spec_transitions(), from@, event@) is Some,
    {
        self.find(from, event).is_some()
    }

    /// Apply `event` from `from`, running the guard if present.
    ///
    /// An undefined transition is an error. A transition without a guard
    /// always succeeds with its destination. A guarded one succeeds with its
    /// destination only when its guard lets the data through, and fails only
    /// when its guard blocks the data, with the guard's cause in the message.
    pub fn transition(&self, from: &State, event: &str, data: &StringMap<serde_json::Value>) -> (result: Result<State, Error>)
        ensures
            match applicable(self.spec_transitions(), from@, event@) {
                None => result matches Err(Error::Validation { message })
                    && message@ == no_transition_message(self.spec_name(), from@, event@),
                Some(i) => {
                    let t = self.spec_transitions()[i];
                    match t.guard {
                        None => result matches Ok(s) && s@ == t.to@,
                        Some(g) => match result {
                            Ok(s) => s@ == t.to@ && g.accepts(data.as_map()),
                            Err(e) => e matches Error::Validation { message } && exists|cause: Error|
                                #[trigger] g.rejects(data.as_map(), cause) && message@ == guard_failed_message(
                                    self.spec_name(),
                                    cause,
                                ),
                        },
                    }
                },
            },
    {
        match self.find(from, event) {
            None => {
                let mut message = concat("workflow ", self.name.as_str());
                message.append(": no transition from State(");
                message.append(debug_string(from.0.as_str()).as_str());
                message.append(") on event ");
                message.append(debug_string(event).as_str());
                Err(Error::Validation { message })
            },
            Some(i) => {
                let t = &self.transitions[i];
                match &t.guard {
                    None => Ok(t.to.duplicate()),
                    Some(guard) => {
                        let outcome = guard.check(data);
                        self.guard_outcome(&t.to, outcome)
                    },
                }
            },
        }
    }

    /// The result of a guarded transition to `to`, given the guard's answer.
    pub fn guard_outcome(&self, to: &State, outcome: Result<(), Error>) -> (result: Result<State, Error>)
        ensures
            match outcome {
                Ok(()) => result matches Ok(s) && s@ == to@,
                Err(cause) => result matches Err(Error::Validation { message })
                    && message@ == guard_failed_message(self.spec_name(), cause),
            },
    {
        match outcome {
            Ok(()) => Ok(to.duplicate()),
            Err(cause) => {
                let mut message = concat("workflow ", self.name.as_str());
                message.append(": guard failed: ");
                message.append(cause.text().as_str());
                Err(Error::Validation { message })
            },
        }
    }

    /// Whether `state` is among `out`.
    fn holds_state(out: &Vec<State>, state: &State) -> (result: bool)
        ensures
            result == out@.map_values(|x: State| x@).contains(state@),
    {
        let ghost views = out@.map_values(|x: State| x@);
        let mut i: usize = 0;
        while i < out.len()
            invariant
                i <= out@.len(),
                views == out@.map_values(|x: State| x@),
                forall|j: int| 0 <= j < i ==> views[j] != state@,
            decreases out@.len() - i,
        {
            if out[i].0 == state.0 {
                assert(views[i as int] == state@);
                return true;
            }
            i = i + 1;
        }
        false
    }

    /// All states named by the transitions, each once, in definition order.
    pub fn states(&self) -> (result: Vec<State>)
        ensures
            result@.map_values(|x: State| x@) == states_of(self.spec_transitions()),
    {
        let ghost ts = self.transitions@;
        let mut out: Vec<State> = Vec::new();
        let mut i: usize = 0;
        assert(out@.map_values(|x: State| x@) =~= states_of(ts.take(0)));
        while i < self.transitions.len()
            invariant
                i <= ts.len(),
                ts == self.transitions@,
                out@.map_values(|x: State| x@) == states_of(ts.take(i as int)),
            decreases ts.len() - i,
        {
            let t = &self.transitions[i];
            assert(ts.take(i + 1).drop_last() =~= ts.take(i as int));
            if !Self::holds_state(&out, &t.from) {
                out.push(t.from.duplicate());
            }
            assert(out@.map_values(|x: State| x@) =~= push_new(states_of(ts.take(i as int)), t.from@));
            if !Self::holds_state(&out, &t.to) {
                out.push(t.to.duplicate());
            }
            assert(out@.map_values(|x: State| x@) =~= states_of(ts.take(i + 1)));
            i = i + 1;
        }
        assert(ts.take(ts.len() as int) =~= ts);
        out
    }

    /// All transitions that leave `from`, in definition order.
    pub fn valid_transitions(&self, from: &State) -> (result: Vec<&TransitionDef<G>>)
        ensures
            result@.map_values(|t: &TransitionDef<G>| *t) == self.spec_transitions().filter(
                |t: TransitionDef<G>| t.from@ == from@,
            ),
    {
        let ghost ts = self.transitions@;
        let ghost pred = |t: TransitionDef<G>| t.from@ == from@;
        let mut out: Vec<&TransitionDef<G>> = Vec::new();
        let mut i: usize = 0;
        proof {
            reveal(Seq::filter);
        }
        assert(out@.map_values(|t: &TransitionDef<G>| *t) =~= ts.take(0).filter(pred));
        while i < self.transitions.len()
            invariant
                i <= ts.len(),
                ts == self.transitions@,
                pred == (|t: TransitionDef<G>| t.from@ == from@),
                out@.map_values(|t: &TransitionDef<G>| *t) == ts.take(i as int).filter(pred),
            decreases ts.len() - i,
        {
            let t = &self.transitions[i];
            proof {
                assert(ts.take(i + 1) =~= ts.take(i as int).push(ts[i as int]));
                ts.take(i as int).lemma_filter_push(ts[i as int], pred);
            }
            if t.from.0 == from.0 {
                out.push(t);
            }
            assert(out@.map_values(|t: &TransitionDef<G>| *t) =~= ts.take(i + 1).filter(pred));
            i = i + 1;
        }
        assert(ts.take(ts.len() as int) =~= ts);
        out
    }
}

/// The states of a machine are listed once each, and exactly the states
/// that some transition leaves or enters are listed.
pub proof fn lemma_states_of<G>(ts: Seq<TransitionDef<G>>)
    ensures
        states_of(ts).no_duplicates(),
        forall|x: Seq<char>| states_of(ts).contains(x) <==> exists|i: int|
            0 <= i < ts.len() && (#[trigger] ts[i].from@ == x || ts[i].to@ == x),
    decreases ts.len(),
{
    if ts.len() > 0 {
        let prev = ts.drop_last();
        lemma_states_of(prev);
        let a = push_new(states_of(prev), ts.last().from@);
        let b = push_new(a, ts.last().to@);
        assert(b == states_of(ts));
        assert forall|x: Seq<char>| b.contains(x) <==> (states_of(prev).contains(x) || x == ts.last().from@ || x == ts.last().to@) by {
            if states_of(prev).contains(x) {
                let k = states_of(prev).index_of(x);
                assert(a[k] == x);
                assert(b[k] == x);
            }
            if x == ts.last().from@ && !states_of(prev).contains(x) {
                assert(a[a.len() - 1] == x);
                assert(b[a.len() - 1] == x);
            }
            if x == ts.last().to@ && !a.contains(x) {
                assert(b[b.len() - 1] == x);
            }
            if b.contains(x) && !states_of(prev).contains(x) && x != ts.last().from@ {
                let k = b.index_of(x);
                if k < a.len() {
                    if k < states_of(prev).len() {
                        assert(states_of(prev)[k] == x);
                    }
                }
            }
        }
        assert forall|x: Seq<char>| states_of(ts).contains(x) <==> exists|i: int|
            0 <= i < ts.len() && (#[trigger] ts[i].from@ == x || ts[i].to@ == x) by {
            if states_of(prev).contains(x) {
                let i = choose|i: int| 0 <= i < prev.len() && (#[trigger] prev[i].from@ == x || prev[i].to@ == x);
                assert(ts[i] == prev[i]);
            }
            if x == ts.last().from@ || x == ts.last().to@ {
                assert(ts[ts.len() - 1] == ts.last());
            }
            if !b.contains(x) {
                assert(!states_of(prev).contains(x));
                assert(!exists|i: int| 0 <= i < prev.len() && (#[trigger] prev[i].from@ == x || prev[i].to@ == x));
                assert forall|i: int| 0 <= i < ts.len() implies !(#[trigger] ts[i].from@ == x || ts[i].to@ == x) by {
                    if i < ts.len() - 1 {
                        assert(prev[i] == ts[i]);
                        if prev[i].from@ == x || prev[i].to@ == x {
                            assert(0 <= i < prev.len());
                            assert(prev[i].from@ == x || prev[i].to@ == x);
                            assert(exists|j: int| #![trigger prev[j]] 0 <= j < prev.len() && (prev[j].from@ == x || prev[j].to@ == x));
                        }
                    } else {
                        assert(ts[i] == ts.last());
                    }
                }
            }
        }
        assert(a.no_duplicates());
        assert(b.no_duplicates());
    }
}

} // verus!
