//! Descriptions of the live structure of somas, as a probe gathers them.

use vstd::prelude::*;

use vstd::std_specs::cmp::PartialEqSpecImpl;

use crate::axon::{declared, Axon, AxonView, Constraint};
use crate::error::{Cause, Error};
use crate::soma::{Impulse, SomaId};

verus! {

/// data associated with a synapse between two somas
#[derive(Debug, Clone, Eq, PartialEq)]
pub struct SynapseData(pub String);

/// data associated with a synapse constraint
#[derive(Debug, Eq, PartialEq)]
pub enum ConstraintData {
    /// only one synapse of the given variant
    One {
        /// the enum variant for the synapse
        variant: String,
        /// the other soma involved in the synapse
        soma: SomaId,
    },
    /// any number of synapses of the given variant
    Variadic {
        /// the enum variant for the synapse
        variant: String,
        /// the other somas involved in the synapses
        somas: Vec<SomaId>,
    },
}

/// data associated with a soma, organelle, or axon
#[derive(Debug, Eq, PartialEq)]
pub enum SomaData {
    /// data associated with an organelle
    Organelle {
        /// the soma at the center of an organelle
        nucleus: Box<SomaData>,
        /// the rest of the somas contained in the organelle
        somas: Vec<SomaData>,
        /// unique id of the organelle
        uuid: SomaId,
        /// name of the organelle
        name: String,
    },
    /// data associated with the axon of a soma
    Axon {
        /// data associated with the terminals for this soma
        terminals: Vec<ConstraintData>,
        /// data associated with the dendrites for this soma
        dendrites: Vec<ConstraintData>,
        /// unique id of the axon
        uuid: SomaId,
        /// name of the axon
        name: String,
    },
    /// data associated with a custom soma
    Soma {
        /// the type of synapse used by this soma
        synapse: SynapseData,
        /// the name of the soma
        name: String,
    },
}

impl ConstraintData {
    /// Whether two descriptions say the same: the same variant with the same
    /// name of the kind and the same somas.
    pub open spec fn same(self, other: ConstraintData) -> bool {
        match (self, other) {
            (
                ConstraintData::One { variant: a, soma: x },
                ConstraintData::One { variant: b, soma: y },
            ) => a@ == b@ && x == y,
            (
                ConstraintData::Variadic { variant: a, somas: x },
                ConstraintData::Variadic { variant: b, somas: y },
            ) => a@ == b@ && x@ == y@,
            _ => false,
        }
    }
}

impl Clone for ConstraintData {
    fn clone(&self) -> (r: Self)
        ensures
            self.same(r),
    {
        match self {
            ConstraintData::One { variant, soma } => ConstraintData::One {
                variant: variant.clone(),
                soma: *soma,
            },
            ConstraintData::Variadic { variant, somas } => ConstraintData::Variadic {
                variant: variant.clone(),
                somas: somas.clone(),
            },
        }
    }
}

/// Whether two lists of descriptions say the same, one for one.
pub open spec fn same_constraints(a: Seq<ConstraintData>, b: Seq<ConstraintData>) -> bool {
    &&& a.len() == b.len()
    &&& forall|i: int| 0 <= i < a.len() ==> (#[trigger] a[i]).same(b[i])
}

fn clone_constraints(constraints: &Vec<ConstraintData>) -> (r: Vec<ConstraintData>)
    ensures
        same_constraints(constraints@, r@),
{
    let mut r: Vec<ConstraintData> = Vec::new();
    let mut i: usize = 0;
    while i < constraints.len()
        invariant
            i <= constraints.len(),
            same_constraints(constraints@.take(i as int), r@),
        decreases constraints.len() - i,
    {
        let ghost before = r@;
        let copy = constraints[i].clone();
        r.push(copy);
        proof {
            assert forall|j: int| 0 <= j < i + 1 implies (#[trigger] constraints@.take(
                i + 1,
            )[j]).same(r@[j]) by {
                if j < i {
                    assert(constraints@.take(i as int)[j] == constraints@.take(i + 1)[j]);
                    assert(r@[j] == before[j]);
                }
            }
        }
        i += 1;
    }
    proof {
        assert(constraints@.take(i as int) =~= constraints@);
    }
    r
}

impl SomaData {
    /// Whether two descriptions say the same: the same structure with the
    /// same names, identifiers and constraints throughout.
    pub open spec fn same(self, other: SomaData) -> bool
        decreases self,
    {
        match (self, other) {
            (
                SomaData::Organelle { nucleus: n1, somas: s1, uuid: u1, name: m1 },
                SomaData::Organelle { nucleus: n2, somas: s2, uuid: u2, name: m2 },
            ) => {
                &&& n1.same(*n2)
                &&& s1@.len() == s2@.len()
                &&& forall|i: int| 0 <= i < s1@.len() ==> (#[trigger] s1@[i]).same(s2@[i])
                &&& u1 == u2
                &&& m1@ == m2@
            },
            (
                SomaData::Axon { terminals: t1, dendrites: d1, uuid: u1, name: m1 },
                SomaData::Axon { terminals: t2, dendrites: d2, uuid: u2, name: m2 },
            ) => {
                &&& same_constraints(t1@, t2@)
                &&& same_constraints(d1@, d2@)
                &&& u1 == u2
                &&& m1@ == m2@
            },
            (
                SomaData::Soma { synapse: k1, name: m1 },
                SomaData::Soma { synapse: k2, name: m2 },
            ) => k1.0@ == k2.0@ && m1@ == m2@,
            _ => false,
        }
    }

    fn copy(&self) -> (r: Self)
        ensures
            self.same(r),
        decreases self,
    {
        match self {
            SomaData::Organelle { nucleus, somas, uuid, name } => {
                let center = nucleus.copy();
                let mut rest: Vec<SomaData> = Vec::new();
                let mut i: usize = 0;
                while i < somas.len()
                    invariant
                        i <= somas.len(),
                        *self matches SomaData::Organelle { somas: s, .. } && s == *somas,
                        rest@.len() == i,
                        forall|j: int| 0 <= j < i ==> (#[trigger] somas@[j]).same(rest@[j]),
                    decreases somas.len() - i,
                {
                    let ghost before = rest@;
                    let copy = somas[i].copy();
                    rest.push(copy);
                    proof {
                        assert forall|j: int| 0 <= j < i + 1 implies (#[trigger] somas@[j]).same(
                            rest@[j],
                        ) by {
                            if j < i {
                                assert(rest@[j] == before[j]);
                            }
                        }
                    }
                    i += 1;
                }
                SomaData::Organelle {
                    nucleus: Box::new(center),
                    somas: rest,
                    uuid: *uuid,
                    name: name.clone(),
                }
            },
            SomaData::Axon { terminals, dendrites, uuid, name } => SomaData::Axon {
                terminals: clone_constraints(terminals),
                dendrites: clone_constraints(dendrites),
                uuid: *uuid,
                name: name.clone(),
            },
            SomaData::Soma { synapse, name } => SomaData::Soma {
                synapse: SynapseData(synapse.0.clone()),
                name: name.clone(),
            },
        }
    }
}

impl Clone for SomaData {
    fn clone(&self) -> (r: Self)
        ensures
            self.same(r),
    {
        self.copy()
    }
}

/// settings for a probe operation
#[derive(Debug, Clone, Copy)]
pub struct Settings;

impl Settings {
    /// create settings
    pub fn new() -> (r: Self)
        ensures
            r == Settings,
    {
        Settings
    }
}

/// the synapse for a probe
#[derive(Debug, Copy, Clone, Hash)]
pub enum Synapse {
    /// a synapse used to perform probes
    Probe,
}

impl PartialEq for Synapse {
    fn eq(&self, other: &Self) -> (r: bool) {
        match (self, other) {
            (Synapse::Probe, Synapse::Probe) => true,
        }
    }
}

impl PartialEqSpecImpl for Synapse {
    open spec fn obeys_eq_spec() -> bool {
        true
    }

    open spec fn eq_spec(&self, other: &Self) -> bool {
        *self == *other
    }
}

impl Eq for Synapse {

}

/// `futures::channel::mpsc::Sender`: the sending end of a bounded channel.
#[verifier::external_type_specification]
#[verifier::external_body]
#[verifier::reject_recursive_types(T)]
pub struct ExMpscSender<T>(futures::channel::mpsc::Sender<T>);

/// `futures::channel::mpsc::Receiver`: the receiving end of a bounded channel.
#[verifier::external_type_specification]
#[verifier::external_body]
#[verifier::reject_recursive_types(T)]
pub struct ExMpscReceiver<T>(futures::channel::mpsc::Receiver<T>);

/// `futures::channel::oneshot::Sender`: the sending end of a channel for one
/// value.
#[verifier::external_type_specification]
#[verifier::external_body]
#[verifier::reject_recursive_types(T)]
pub struct ExOneshotSender<T>(futures::channel::oneshot::Sender<T>);

/// `Clone` for the sender of a channel: one more sender of the same channel.
pub assume_specification<T>[ <futures::channel::mpsc::Sender<T> as Clone>::clone ](
    tx: &futures::channel::mpsc::Sender<T>,
) -> (r: futures::channel::mpsc::Sender<T>)
;

/// a request that travels from a terminal to the probe soma
#[derive(Debug)]
pub enum Request {
    /// describe the structure, and put the description into the reply sink
    Probe(Settings, futures::channel::oneshot::Sender<SomaData>),
}

/// The buffer that the channel of a sender of requests was made with: the
/// number of requests that the channel holds for all of its senders together,
/// beside the one that it holds for each sender.
pub uninterp spec fn sender_buffer(tx: futures::channel::mpsc::Sender<Request>) -> nat;

/// The buffer that the channel of a receiver of requests was made with.
pub uninterp spec fn receiver_buffer(rx: futures::channel::mpsc::Receiver<Request>) -> nat;

/// The buffer of the channel between a probe terminal and a probe dendrite.
pub open spec fn probe_buffer() -> nat {
    10
}

/// sender for a probe operation
#[derive(Debug, Clone)]
pub struct Terminal {
    pub tx: futures::channel::mpsc::Sender<Request>,
}

impl Terminal {
    /// The buffer of the channel that the terminal sends into.
    pub open spec fn buffer(self) -> nat {
        sender_buffer(self.tx)
    }
}

/// receive for a probe operation
#[derive(Debug)]
pub struct Dendrite {
    pub rx: futures::channel::mpsc::Receiver<Request>,
}

impl Dendrite {
    /// The buffer of the channel that the dendrite receives from.
    pub open spec fn buffer(self) -> nat {
        receiver_buffer(self.rx)
    }
}

/// `futures::channel::mpsc::channel`: the two ends of a new bounded channel,
/// which keeps the buffer that it is made with. The buffer has to be smaller
/// than a quarter of the address space.
#[verifier::external_body]
fn request_channel(buffer: usize) -> (ends: (
    futures::channel::mpsc::Sender<Request>,
    futures::channel::mpsc::Receiver<Request>,
))
    requires
        buffer < (usize::MAX / 2) / 2,
    ensures
        sender_buffer(ends.0) == buffer,
        receiver_buffer(ends.1) == buffer,
{
    futures::channel::mpsc::channel(buffer)
}

/// create a junction between two probe-ready somas
///
/// The two are the ends of a new channel for requests, bounded by a buffer of
/// ten.
pub fn synapse() -> (ends: (Terminal, Dendrite))
    ensures
        ends.0.buffer() == probe_buffer(),
        ends.1.buffer() == probe_buffer(),
{
    let (tx, rx) = request_channel(10);
    (Terminal { tx }, Dendrite { rx })
}

impl crate::soma::Synapse for Synapse {
    type Terminal = Terminal;

    type Dendrite = Dendrite;

    fn synapse(self) -> (ends: (Terminal, Dendrite))
        ensures
            ends.0.buffer() == probe_buffer(),
            ends.1.buffer() == probe_buffer(),
    {
        match self {
            Synapse::Probe => synapse(),
        }
    }
}

/// soma that probes the internal structure of an organelle
#[derive(Debug)]
pub struct Soma {
    dendrites: Vec<Dendrite>,
}

/// What the probe soma runs once it is started: it takes the requests from
/// all of its dendrites and puts a probe impulse for each on the control
/// channel.
#[derive(Debug)]
pub struct ProbeTask {
    /// the dendrites to take requests from
    pub dendrites: Vec<Dendrite>,
}

impl Soma {
    /// The dendrites that the soma was given and has not handed on.
    pub closed spec fn dendrites(self) -> Seq<Dendrite> {
        self.dendrites@
    }

    /// What an impulse does: the soma afterwards with the task to run, or the
    /// error.
    pub open spec fn updated(
        self,
        imp: Impulse<Synapse>,
        result: Result<(Soma, Option<ProbeTask>), Error>,
    ) -> bool {
        match imp {
            Impulse::AddDendrite(_, Synapse::Probe, rx) => {
                &&& result matches Ok((soma, task))
                &&& soma.dendrites() == self.dendrites().push(rx)
                &&& task is None
            },
            Impulse::Start(_) => {
                &&& result matches Ok((soma, task))
                &&& soma.dendrites() == Seq::<Dendrite>::empty()
                &&& task matches Some(t)
                &&& t.dendrites@ == self.dendrites()
            },
            _ => result matches Err(e) && e@ == seq![Cause::Msg("unexpected impulse"@)],
        }
    }

    /// create a new probe soma, with the axon that guards it: any number of
    /// probe dendrites, no terminal
    pub fn axon() -> (r: (Self, Axon<Synapse>))
        ensures
            r.0.dendrites() == Seq::<Dendrite>::empty(),
            r.1.wf(),
            r.1@ == (AxonView {
                uuid: None,
                dendrites: declared(seq![Constraint::Variadic(Synapse::Probe)]),
                terminals: declared(Seq::empty()),
            }),
    {
        let mut dendrites: Vec<Constraint<Synapse>> = Vec::new();
        dendrites.push(Constraint::Variadic(Synapse::Probe));
        proof {
            assert(dendrites@ =~= seq![Constraint::Variadic(Synapse::Probe)]);
        }
        (Soma { dendrites: Vec::new() }, Axon::new(dendrites, Vec::new()))
    }

    /// react to a single impulse
    pub fn update(self, imp: Impulse<Synapse>) -> (r: Result<(Self, Option<ProbeTask>), Error>)
        ensures
            self.updated(imp, r),
    {
        match imp {
            Impulse::AddDendrite(_, Synapse::Probe, rx) => {
                let mut soma = self;
                soma.dendrites.push(rx);
                Ok((soma, None))
            },
            Impulse::Start(_) => {
                Ok((Soma { dendrites: Vec::new() }, Some(ProbeTask { dendrites: self.dendrites })))
            },
            _ => Err(Error::msg("unexpected impulse")),
        }
    }
}

} // verus!
