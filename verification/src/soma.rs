//! The impulse protocol, the synapse capability and the decisions of the
//! event loop that drives a soma.

use std::fmt::Debug;
use std::hash::Hash;

use vstd::prelude::*;
use vstd::std_specs::cmp::PartialEqSpec;
use vstd::std_specs::convert::IntoSpec;

use crate::error::Error;
use crate::probe::Settings;

verus! {

/// The identifier of a soma: the 128 bits of a UUID.
pub type SomaId = u128;

/// Whether the identifier has the form of a random UUID: its version is 4 and
/// its variant is that of RFC 4122.
pub open spec fn is_random_uuid(id: SomaId) -> bool {
    id & 0x0000_0000_0000_f000_c000_0000_0000_0000 == 0x0000_0000_0000_4000_8000_0000_0000_0000
}

/// `Uuid::new_v4`, as its 128 bits: a random identifier whose version is 4 and
/// whose variant is that of RFC 4122. Nothing else is known of it.
#[verifier::external_body]
pub(crate) fn fresh_id() -> (id: SomaId)
    ensures
        is_random_uuid(id),
{
    uuid::Uuid::new_v4().as_u128()
}

/// The `Debug` text of a value, as `format!("{:?}", ..)` gives it. What it
/// holds is up to the value's own `Debug`.
#[verifier::external_body]
pub(crate) fn debug_text<T: Debug>(value: &T) -> (text: String) {
    format!("{:?}", value)
}

/// Whether `==` on `K` tells exactly whether two values are the same. A
/// synapse kind is metadata, and this is asked of every kind: an axon finds the
/// constraint of a kind by comparing.
pub open spec fn eq_is_identity<K: PartialEq>() -> bool {
    &&& K::obeys_eq_spec()
    &&& forall|a: K, b: K| #[trigger] a.eq_spec(&b) <==> (a == b)
}

/// trait alias to express requirements of a Synapse type
pub trait Synapse: Debug + Copy + Clone + Hash + PartialEq + Eq {
    /// terminals are the senders or outputs in a connection between somas
    type Terminal: Debug;

    /// dendrites are the receivers or inputs in a connection between somas
    type Dendrite: Debug;

    /// form a synapse for this synapse into a terminal and dendrite
    fn synapse(self) -> (Self::Terminal, Self::Dendrite);
}

/// a group of control signals passed between somas
///
/// An impulse holds what the rules of the composition decide on. The control
/// sender and the scheduler that a soma is started with, and the sink that the
/// answer to a probe goes to, travel beside it.
#[derive(Debug)]
pub enum Impulse<R: Synapse> {
    /// add a dendrite for input to the soma
    ///
    /// you should always expect to handle this impulse if the soma has any
    /// inputs. if your soma has inputs, it is best to wrap it with an Axon
    /// which can be used for validation purposes.
    AddDendrite(SomaId, R, R::Dendrite),
    /// add a terminal for output to the soma
    ///
    /// you should always expect to handle this impulse if the soma has any
    /// outputs. if your soma has outputs, it is best to wrap it with an Axon
    /// which can be used for validation purposes.
    AddTerminal(SomaId, R, R::Terminal),
    /// notify the soma that it has received all of its inputs and outputs
    ///
    /// you should always expect to handle this impulse because it will be
    /// passed to each soma regardless of configuration
    Start(SomaId),
    /// stop the event loop and exit gracefully
    ///
    /// you should not expect to handle this impulse at any time, it is handled
    /// for you by the event loop
    Stop,
    /// terminate the event loop with an error
    ///
    /// this impulse will automatically be triggered if a soma update resolves
    /// with an error.
    ///
    /// you should not expect to handle this impulse at any time, it is handled
    /// for you by the event loop
    Error(Error),
    /// ask the soma to describe itself
    Probe(Settings),
}

impl<R: Synapse> Impulse<R> {
    /// The impulse of kind set `R` that stands for `imp`: the same variant with
    /// the same peer, its kind and its endpoint converted.
    pub open spec fn converted<T>(imp: Impulse<T>) -> Self where
        T: Synapse + Into<R>,
        T::Dendrite: Into<R::Dendrite>,
        T::Terminal: Into<R::Terminal>,
     {
        match imp {
            Impulse::AddDendrite(uuid, synapse, dendrite) => Impulse::AddDendrite(
                uuid,
                synapse.into_spec(),
                dendrite.into_spec(),
            ),
            Impulse::AddTerminal(uuid, synapse, terminal) => Impulse::AddTerminal(
                uuid,
                synapse.into_spec(),
                terminal.into_spec(),
            ),
            Impulse::Start(uuid) => Impulse::Start(uuid),
            Impulse::Stop => Impulse::Stop,
            Impulse::Error(e) => Impulse::Error(e),
            Impulse::Probe(settings) => Impulse::Probe(settings),
        }
    }

    /// convert from another type of impulse
    ///
    /// There is no conversion for `Start`: a soma is started by its own parent.
    pub fn convert_from<T>(imp: Impulse<T>) -> (r: Self) where
        T: Synapse + Into<R>,
        T::Dendrite: Into<R::Dendrite>,
        T::Terminal: Into<R::Terminal>,

        requires
            !(imp is Start),
        ensures
            match imp {
                Impulse::AddDendrite(uuid, synapse, dendrite) => {
                    &&& r matches Impulse::AddDendrite(u, s, d)
                    &&& u == uuid
                    &&& T::obeys_into_spec() ==> s == synapse.into_spec()
                    &&& <T::Dendrite as IntoSpec<R::Dendrite>>::obeys_into_spec() ==> d
                        == dendrite.into_spec()
                },
                Impulse::AddTerminal(uuid, synapse, terminal) => {
                    &&& r matches Impulse::AddTerminal(u, s, t)
                    &&& u == uuid
                    &&& T::obeys_into_spec() ==> s == synapse.into_spec()
                    &&& <T::Terminal as IntoSpec<R::Terminal>>::obeys_into_spec() ==> t
                        == terminal.into_spec()
                },
                _ => r == Self::converted(imp),
            },
    {
        match imp {
            Impulse::AddDendrite(uuid, synapse, dendrite) => {
                Impulse::AddDendrite(uuid, synapse.into(), dendrite.into())
            },
            Impulse::AddTerminal(uuid, synapse, terminal) => {
                Impulse::AddTerminal(uuid, synapse.into(), terminal.into())
            },
            Impulse::Stop => Impulse::Stop,
            Impulse::Error(e) => Impulse::Error(e),
            Impulse::Start(uuid) => Impulse::Start(uuid),
            Impulse::Probe(settings) => Impulse::Probe(settings),
        }
    }
}

/// Converting an endpoint impulse to another kind set and back gives the same
/// impulse, where the conversions of kinds and of endpoints undo each other.
pub proof fn lemma_convert_round_trip<A, B>(imp: Impulse<A>) where
    A: Synapse + Into<B>,
    B: Synapse + Into<A>,
    A::Dendrite: Into<B::Dendrite>,
    B::Dendrite: Into<A::Dendrite>,
    A::Terminal: Into<B::Terminal>,
    B::Terminal: Into<A::Terminal>,

    requires
        imp is AddDendrite || imp is AddTerminal,
        forall|k: A| <B as IntoSpec<A>>::into_spec(<A as IntoSpec<B>>::into_spec(k)) == k,
        forall|d: A::Dendrite|
            <B::Dendrite as IntoSpec<A::Dendrite>>::into_spec(
                <A::Dendrite as IntoSpec<B::Dendrite>>::into_spec(d),
            ) == d,
        forall|t: A::Terminal|
            <B::Terminal as IntoSpec<A::Terminal>>::into_spec(
                <A::Terminal as IntoSpec<B::Terminal>>::into_spec(t),
            ) == t,
    ensures
        Impulse::<A>::converted(Impulse::<B>::converted(imp)) == imp,
{
}

/// The event loop that drives a root soma, as the decisions it takes.
///
/// The loop owns the control channel. It starts the soma, then takes one
/// impulse after the other from the channel: `Stop` and `Error` end it, any
/// other impulse is handed to the soma, and a failed update ends it too.
#[derive(Debug)]
pub enum Driver {
    /// the loop takes impulses
    Running,
    /// the loop has ended with this result
    Finished(Result<(), Error>),
}

/// One turn of the event loop: an impulse that arrived, and the error with
/// which the soma's update fails on it, if it is handed over and fails.
pub struct Turn<R: Synapse> {
    pub impulse: Impulse<R>,
    pub failure: Option<Error>,
}

impl Driver {
    /// The state after `imp` arrived, and the impulse to hand to the soma.
    pub open spec fn received<R: Synapse>(self, imp: Impulse<R>) -> (Driver, Option<Impulse<R>>) {
        match self {
            Driver::Finished(_) => (self, None),
            Driver::Running => match imp {
                Impulse::Stop => (Driver::Finished(Ok(())), None),
                Impulse::Error(e) => (Driver::Finished(Err(e)), None),
                _ => (Driver::Running, Some(imp)),
            },
        }
    }

    /// The state after the soma's update resolved.
    pub open spec fn settled(self, outcome: Result<(), Error>) -> Driver {
        match (self, outcome) {
            (Driver::Running, Err(e)) => Driver::Finished(Err(e)),
            _ => self,
        }
    }

    /// The state after the control channel was closed.
    pub open spec fn drained(self) -> Driver {
        match self {
            Driver::Running => Driver::Finished(Ok(())),
            _ => self,
        }
    }

    /// The state after the given turns, and the impulses that were handed to
    /// the soma on the way, in order.
    pub open spec fn run<R: Synapse>(self, turns: Seq<Turn<R>>) -> (Driver, Seq<Impulse<R>>)
        decreases turns.len(),
    {
        if turns.len() == 0 {
            (self, Seq::empty())
        } else {
            let (arrived, handed) = self.received(turns[0].impulse);
            match handed {
                None => arrived.run(turns.drop_first()),
                Some(imp) => {
                    let outcome = match turns[0].failure {
                        Some(e) => Err(e),
                        None => Ok(()),
                    };
                    let (end, rest) = arrived.settled(outcome).run(turns.drop_first());
                    (end, seq![imp] + rest)
                },
            }
        }
    }

    /// A turn that neither ends the loop nor fails.
    pub open spec fn quiet<R: Synapse>(turn: Turn<R>) -> bool {
        &&& !(turn.impulse is Stop)
        &&& !(turn.impulse is Error)
        &&& turn.failure is None
    }

    /// start the loop: the state, and the impulse that starts the soma under
    /// an identifier of its own
    pub fn new<R: Synapse>() -> (r: (Self, Impulse<R>))
        ensures
            r.0 == Driver::Running,
            r.1 matches Impulse::Start(uuid) && is_random_uuid(uuid),
    {
        (Driver::Running, Impulse::Start(fresh_id()))
    }

    /// take an impulse from the control channel; the result is the impulse to
    /// hand to the soma, if there is one
    pub fn receive<R: Synapse>(&mut self, imp: Impulse<R>) -> (handed: Option<Impulse<R>>)
        ensures
            (*final(self), handed) == old(self).received(imp),
    {
        match self {
            Driver::Finished(_) => None,
            Driver::Running => match imp {
                Impulse::Stop => {
                    *self = Driver::Finished(Ok(()));
                    None
                },
                Impulse::Error(e) => {
                    *self = Driver::Finished(Err(e));
                    None
                },
                _ => Some(imp),
            },
        }
    }

    /// take the outcome of the soma's update
    pub fn updated(&mut self, outcome: Result<(), Error>)
        ensures
            *final(self) == old(self).settled(outcome),
    {
        match self {
            Driver::Running => {
                if let Err(e) = outcome {
                    *self = Driver::Finished(Err(e));
                }
            },
            Driver::Finished(_) => {},
        }
    }

    /// the control channel was closed: the loop ends
    pub fn closed(&mut self)
        ensures
            *final(self) == old(self).drained(),
    {
        match self {
            Driver::Running => {
                *self = Driver::Finished(Ok(()));
            },
            Driver::Finished(_) => {},
        }
    }

    /// the result of the loop, once it has ended
    pub fn result(self) -> (r: Option<Result<(), Error>>)
        ensures
            r == match self {
                Driver::Running => None::<Result<(), Error>>,
                Driver::Finished(result) => Some(result),
            },
    {
        match self {
            Driver::Running => None,
            Driver::Finished(result) => Some(result),
        }
    }

    /// Once the loop has ended, its result stays and the soma is not updated
    /// again, whatever arrives.
    pub proof fn lemma_finished_stays<R: Synapse>(self, turns: Seq<Turn<R>>)
        requires
            self is Finished,
        ensures
            self.run(turns) == (self, Seq::<Impulse<R>>::empty()),
        decreases turns.len(),
    {
        if turns.len() > 0 {
            self.lemma_finished_stays(turns.drop_first());
        }
    }

    /// Through turns that neither end the loop nor fail, the loop keeps
    /// running and hands every impulse to the soma, in the order of arrival.
    pub proof fn lemma_quiet_turns<R: Synapse>(turns: Seq<Turn<R>>)
        requires
            forall|j: int| 0 <= j < turns.len() ==> Self::quiet(#[trigger] turns[j]),
        ensures
            Driver::Running.run(turns).0 == Driver::Running,
            Driver::Running.run(turns).1 == turns.map_values(|turn: Turn<R>| turn.impulse),
        decreases turns.len(),
    {
        let handed = turns.map_values(|turn: Turn<R>| turn.impulse);
        if turns.len() > 0 {
            let rest = turns.drop_first();
            assert forall|j: int| 0 <= j < rest.len() implies Self::quiet(#[trigger] rest[j]) by {
                assert(rest[j] == turns[j + 1]);
            }
            Self::lemma_quiet_turns(rest);
            assert(Self::quiet(turns[0]));
            assert(handed =~= seq![turns[0].impulse] + rest.map_values(
                |turn: Turn<R>| turn.impulse,
            ));
        } else {
            assert(handed =~= Seq::<Impulse<R>>::empty());
        }
    }

    /// The result of running `before`, then one more turn, then `after`, from
    /// a running loop, where the turns of `before` are quiet.
    proof fn lemma_run_split<R: Synapse>(before: Seq<Turn<R>>, turn: Turn<R>, after: Seq<Turn<R>>)
        requires
            forall|j: int| 0 <= j < before.len() ==> Self::quiet(#[trigger] before[j]),
        ensures
            Driver::Running.run(before + seq![turn] + after).0 == Driver::Running.run(
                seq![turn] + after,
            ).0,
            Driver::Running.run(before + seq![turn] + after).1 == before.map_values(
                |t: Turn<R>| t.impulse,
            ) + Driver::Running.run(seq![turn] + after).1,
        decreases before.len(),
    {
        let all = before + seq![turn] + after;
        if before.len() == 0 {
            assert(all =~= seq![turn] + after);
            assert(before.map_values(|t: Turn<R>| t.impulse) + Driver::Running.run(
                seq![turn] + after,
            ).1 =~= Driver::Running.run(seq![turn] + after).1);
        } else {
            let rest = before.drop_first();
            assert forall|j: int| 0 <= j < rest.len() implies Self::quiet(#[trigger] rest[j]) by {
                assert(rest[j] == before[j + 1]);
            }
            Self::lemma_run_split(rest, turn, after);
            assert(Self::quiet(before[0]));
            assert(all[0] == before[0]);
            assert(all.drop_first() =~= rest + seq![turn] + after);
            assert(before.map_values(|t: Turn<R>| t.impulse) =~= seq![before[0].impulse]
                + rest.map_values(|t: Turn<R>| t.impulse));
            assert(seq![before[0].impulse] + (rest.map_values(|t: Turn<R>| t.impulse)
                + Driver::Running.run(seq![turn] + after).1) =~= before.map_values(
                |t: Turn<R>| t.impulse,
            ) + Driver::Running.run(seq![turn] + after).1);
        }
    }

    /// Stop propagation: when `Stop` arrives after quiet turns, the loop ends
    /// with `Ok`, and the soma has been handed the impulses before it and none
    /// after it.
    pub proof fn lemma_stop_ends_the_loop<R: Synapse>(
        before: Seq<Turn<R>>,
        stop: Turn<R>,
        after: Seq<Turn<R>>,
    )
        requires
            forall|j: int| 0 <= j < before.len() ==> Self::quiet(#[trigger] before[j]),
            stop.impulse is Stop,
        ensures
            Driver::Running.run(before + seq![stop] + after).0 == Driver::Finished(Ok(())),
            Driver::Running.run(before + seq![stop] + after).1 == before.map_values(
                |t: Turn<R>| t.impulse,
            ),
    {
        Self::lemma_run_split(before, stop, after);
        let tail = seq![stop] + after;
        assert(tail[0] == stop);
        assert(tail.drop_first() =~= after);
        Driver::Finished(Ok(())).lemma_finished_stays(after);
        assert(before.map_values(|t: Turn<R>| t.impulse) + Seq::<Impulse<R>>::empty()
            =~= before.map_values(|t: Turn<R>| t.impulse));
    }

    /// Error propagation: when an `Error` impulse arrives after quiet turns,
    /// the loop ends with that error and the soma is not updated again.
    pub proof fn lemma_error_impulse_ends_the_loop<R: Synapse>(
        before: Seq<Turn<R>>,
        turn: Turn<R>,
        after: Seq<Turn<R>>,
        e: Error,
    )
        requires
            forall|j: int| 0 <= j < before.len() ==> Self::quiet(#[trigger] before[j]),
            turn.impulse == Impulse::<R>::Error(e),
        ensures
            Driver::Running.run(before + seq![turn] + after).0 == Driver::Finished(Err(e)),
            Driver::Running.run(before + seq![turn] + after).1 == before.map_values(
                |t: Turn<R>| t.impulse,
            ),
    {
        Self::lemma_run_split(before, turn, after);
        let tail = seq![turn] + after;
        assert(tail[0] == turn);
        assert(tail.drop_first() =~= after);
        Driver::Finished(Err(e)).lemma_finished_stays(after);
        assert(before.map_values(|t: Turn<R>| t.impulse) + Seq::<Impulse<R>>::empty()
            =~= before.map_values(|t: Turn<R>| t.impulse));
    }

    /// Error propagation: when the soma's update fails after quiet turns, the
    /// loop ends with the error of that update, and the failed update is the
    /// last one.
    pub proof fn lemma_failed_update_ends_the_loop<R: Synapse>(
        before: Seq<Turn<R>>,
        turn: Turn<R>,
        after: Seq<Turn<R>>,
        e: Error,
    )
        requires
            forall|j: int| 0 <= j < before.len() ==> Self::quiet(#[trigger] before[j]),
            !(turn.impulse is Stop),
            !(turn.impulse is Error),
            turn.failure == Some(e),
        ensures
            Driver::Running.run(before + seq![turn] + after).0 == Driver::Finished(Err(e)),
            Driver::Running.run(before + seq![turn] + after).1 == before.map_values(
                |t: Turn<R>| t.impulse,
            ).push(turn.impulse),
    {
        Self::lemma_run_split(before, turn, after);
        let tail = seq![turn] + after;
        assert(tail[0] == turn);
        assert(tail.drop_first() =~= after);
        Driver::Finished(Err(e)).lemma_finished_stays(after);
        assert(before.map_values(|t: Turn<R>| t.impulse) + (seq![turn.impulse] + Seq::<
            Impulse<R>,
        >::empty()) =~= before.map_values(|t: Turn<R>| t.impulse).push(turn.impulse));
    }
}

/// The life of a soma, as the impulses that reach it show it.
///
/// A soma is born configuring. While it configures it is given its endpoints,
/// and nothing else. The start makes it run. While it runs, the only impulse
/// that reaches it is a probe: what it works on comes through its endpoints.
/// It ends when its inbox is dropped.
#[derive(Debug, Clone, Copy)]
pub enum Lifecycle {
    /// the soma is given its endpoints
    Configuring,
    /// the soma was started
    Running,
    /// the inbox of the soma was dropped
    Terminated,
}

impl Lifecycle {
    /// The state after an impulse, where the impulse is legal in the state.
    pub open spec fn after<R: Synapse>(self, imp: Impulse<R>) -> Option<Lifecycle> {
        match (self, imp) {
            (Lifecycle::Configuring, Impulse::AddDendrite(_, _, _)) => Some(Lifecycle::Configuring),
            (Lifecycle::Configuring, Impulse::AddTerminal(_, _, _)) => Some(Lifecycle::Configuring),
            (Lifecycle::Configuring, Impulse::Start(_)) => Some(Lifecycle::Running),
            (Lifecycle::Running, Impulse::Probe(_)) => Some(Lifecycle::Running),
            _ => None,
        }
    }

    /// The state after the given impulses in order, where each is legal in
    /// the state that it meets.
    pub open spec fn after_all<R: Synapse>(self, imps: Seq<Impulse<R>>) -> Option<Lifecycle>
        decreases imps.len(),
    {
        if imps.len() == 0 {
            Some(self)
        } else {
            match self.after_all(imps.drop_last()) {
                Some(state) => state.after(imps.last()),
                None => None,
            }
        }
    }

    /// The state after the inbox was dropped.
    pub open spec fn dropped(self) -> Lifecycle {
        Lifecycle::Terminated
    }

    /// take note of an impulse that reaches the soma; the result tells
    /// whether the impulse is legal, and an illegal one leaves the state as
    /// it is
    pub fn deliver<R: Synapse>(&mut self, imp: &Impulse<R>) -> (legal: bool)
        ensures
            match old(self).after(*imp) {
                Some(state) => legal && *final(self) == state,
                None => !legal && *final(self) == *old(self),
            },
    {
        match (*self, imp) {
            (Lifecycle::Configuring, Impulse::AddDendrite(_, _, _)) => true,
            (Lifecycle::Configuring, Impulse::AddTerminal(_, _, _)) => true,
            (Lifecycle::Configuring, Impulse::Start(_)) => {
                *self = Lifecycle::Running;
                true
            },
            (Lifecycle::Running, Impulse::Probe(_)) => true,
            _ => false,
        }
    }

    /// take note that the inbox of the soma was dropped
    pub fn close(&mut self)
        ensures
            *final(self) == old(self).dropped(),
    {
        *self = Lifecycle::Terminated;
    }
}

} // verus!
