//! The axon: a validator for the synapses that a soma is given.
//!
//! An axon holds two tables, one for the dendrites and one for the terminals
//! of the soma that it guards. Each table maps a synapse kind to a constraint
//! and to the record of how far the constraint has been met. The axon checks
//! every endpoint that is added against the tables, and checks at start that
//! nothing required is missing.

use vstd::prelude::*;
use vstd::string::*;

use crate::error::{Cause, Error, ErrorKind};
use crate::probe::{ConstraintData, Settings, SomaData};
use crate::soma::{debug_text, eq_is_identity, Impulse, SomaId, Synapse};

verus! {

/// constraints that can be put on axons for validation purposes
#[derive(Debug, Clone, Copy)]
pub enum Constraint<S: Synapse> {
    /// only accept one synapse
    One(S),
    /// accept any number of synapses
    Variadic(S),
}

impl<S: Synapse> Constraint<S> {
    /// The kind that the constraint is about.
    pub open spec fn kind(self) -> S {
        match self {
            Constraint::One(synapse) => synapse,
            Constraint::Variadic(synapse) => synapse,
        }
    }

    /// The kind that the constraint is about.
    pub fn synapse(&self) -> (r: S)
        ensures
            r == self.kind(),
    {
        match self {
            Constraint::One(synapse) => *synapse,
            Constraint::Variadic(synapse) => *synapse,
        }
    }
}

/// how far a constraint has been met
#[derive(Debug)]
pub enum Requirement {
    /// no synapse was added yet
    Unmet,
    /// the one synapse was added, with this soma at its other end
    MetOne(SomaId),
    /// these somas are at the other ends of the synapses added so far
    MetVariadic(Vec<SomaId>),
}

/// The mathematical value of a `Requirement`.
pub enum Fulfilment {
    Unmet,
    MetOne(SomaId),
    MetVariadic(Seq<SomaId>),
}

impl View for Requirement {
    type V = Fulfilment;

    open spec fn view(&self) -> Fulfilment {
        match self {
            Requirement::Unmet => Fulfilment::Unmet,
            Requirement::MetOne(uuid) => Fulfilment::MetOne(*uuid),
            Requirement::MetVariadic(somas) => Fulfilment::MetVariadic(somas@),
        }
    }
}

/// one line of an axon's table
#[derive(Debug)]
pub struct Slot<S: Synapse> {
    pub constraint: Constraint<S>,
    pub requirement: Requirement,
}

/// The mathematical value of a `Slot`.
pub struct Entry<S: Synapse> {
    pub constraint: Constraint<S>,
    pub met: Fulfilment,
}

impl<S: Synapse> View for Slot<S> {
    type V = Entry<S>;

    open spec fn view(&self) -> Entry<S> {
        Entry { constraint: self.constraint, met: self.requirement@ }
    }
}

impl<S: Synapse> Entry<S> {
    /// The entry of a constraint that nothing was added for.
    pub open spec fn fresh(constraint: Constraint<S>) -> Self {
        match constraint {
            Constraint::One(_) => Entry { constraint, met: Fulfilment::Unmet },
            Constraint::Variadic(_) => Entry {
                constraint,
                met: Fulfilment::MetVariadic(Seq::empty()),
            },
        }
    }

    /// A constraint for one synapse is unmet or met by one soma; a variadic
    /// constraint holds a list of somas.
    pub open spec fn consistent(self) -> bool {
        match self.constraint {
            Constraint::One(_) => self.met is Unmet || self.met is MetOne,
            Constraint::Variadic(_) => self.met is MetVariadic,
        }
    }

    /// A required synapse that was not added.
    pub open spec fn missing(self) -> bool {
        self.constraint is One && self.met is Unmet
    }

    /// The entry after a synapse to `uuid` was added, where it can be added.
    pub open spec fn with(self, uuid: SomaId) -> Self {
        match self.met {
            Fulfilment::Unmet => Entry { met: Fulfilment::MetOne(uuid), ..self },
            Fulfilment::MetOne(_) => self,
            Fulfilment::MetVariadic(somas) => Entry {
                met: Fulfilment::MetVariadic(somas.push(uuid)),
                ..self
            },
        }
    }
}

/// The position of the entry for `synapse` in a table, if it has one.
pub open spec fn position<S: Synapse>(table: Seq<Entry<S>>, synapse: S) -> Option<int>
    decreases table.len(),
{
    if table.len() == 0 {
        None
    } else if table.last().constraint.kind() == synapse {
        match position(table.drop_last(), synapse) {
            Some(i) => Some(i),
            None => Some(table.len() - 1),
        }
    } else {
        position(table.drop_last(), synapse)
    }
}

/// A table has one entry for a kind at most, and its entries are consistent.
pub open spec fn table_wf<S: Synapse>(table: Seq<Entry<S>>) -> bool {
    &&& forall|i: int| 0 <= i < table.len() ==> (#[trigger] table[i]).consistent()
    &&& forall|i: int, j: int|
        0 <= i < j < table.len() ==> (#[trigger] table[i]).constraint.kind() != (
        #[trigger] table[j]).constraint.kind()
}

/// The table that a list of constraints declares: one fresh entry for each
/// kind, in the order in which the kinds first occur. Where a kind occurs
/// again, its later constraint replaces the earlier one.
pub open spec fn declared<S: Synapse>(constraints: Seq<Constraint<S>>) -> Seq<Entry<S>>
    decreases constraints.len(),
{
    if constraints.len() == 0 {
        Seq::empty()
    } else {
        let table = declared(constraints.drop_last());
        let entry = Entry::fresh(constraints.last());
        match position(table, constraints.last().kind()) {
            Some(i) => table.update(i, entry),
            None => table.push(entry),
        }
    }
}

/// Whether some required synapse of the table was not added.
pub open spec fn lacking<S: Synapse>(table: Seq<Entry<S>>) -> bool {
    exists|i: int| 0 <= i < table.len() && (#[trigger] table[i]).missing()
}

/// Why an axon refuses a synapse.
#[derive(Debug, Clone, Copy)]
pub enum Refusal {
    /// the table has no constraint for the kind
    NoConstraint,
    /// the constraint accepts one synapse, and one was added before
    OnlyOne,
}

/// The table after a synapse of kind `synapse` to the soma `uuid` was added,
/// or the reason why the axon refuses it.
pub open spec fn accepted<S: Synapse>(table: Seq<Entry<S>>, uuid: SomaId, synapse: S) -> Result<
    Seq<Entry<S>>,
    Refusal,
> {
    match position(table, synapse) {
        None => Err(Refusal::NoConstraint),
        Some(i) => if table[i].met is MetOne {
            Err(Refusal::OnlyOne)
        } else {
            Ok(table.update(i, table[i].with(uuid)))
        },
    }
}

/// The side of a soma that a table is about.
#[derive(Debug, Clone, Copy)]
pub enum Side {
    /// the inputs of the soma
    Dendrite,
    /// the outputs of the soma
    Terminal,
}

/// The message of a refusal, for a kind with the given name.
pub open spec fn refusal_text(refusal: Refusal, side: Side, name: Seq<char>) -> Seq<char> {
    match (refusal, side) {
        (Refusal::NoConstraint, _) => "no constraints found for "@ + name,
        (Refusal::OnlyOne, Side::Dendrite) => "expected only one dendrite for "@ + name,
        (Refusal::OnlyOne, Side::Terminal) => "expected only one terminal for "@ + name,
    }
}

/// The message for a required synapse that was not added, for a kind with the
/// given name.
pub open spec fn missing_text(side: Side, name: Seq<char>) -> Seq<char> {
    match side {
        Side::Dendrite => "expected dendrite synapse for "@ + name,
        Side::Terminal => "expected terminal synapse for "@ + name,
    }
}

/// The error for a synapse that an axon refuses.
pub fn invalid_synapse(refusal: Refusal, side: Side, name: &str) -> (e: Error)
    ensures
        e@ == seq![Cause::InvalidSynapse(refusal_text(refusal, side, name@))],
{
    let mut msg = match (refusal, side) {
        (Refusal::NoConstraint, _) => String::from_str("no constraints found for "),
        (Refusal::OnlyOne, Side::Dendrite) => String::from_str("expected only one dendrite for "),
        (Refusal::OnlyOne, Side::Terminal) => String::from_str("expected only one terminal for "),
    };
    msg.append(name);
    Error::from_kind(ErrorKind::InvalidSynapse(msg))
}

/// The error for a required synapse that was not added.
pub fn missing_synapse(side: Side, name: &str) -> (e: Error)
    ensures
        e@ == seq![Cause::MissingSynapse(missing_text(side, name@))],
{
    let mut msg = match side {
        Side::Dendrite => String::from_str("expected dendrite synapse for "),
        Side::Terminal => String::from_str("expected terminal synapse for "),
    };
    msg.append(name);
    Error::from_kind(ErrorKind::MissingSynapse(msg))
}

/// What `position` finds: the one entry of the kind, or that there is none.
pub proof fn lemma_position<S: Synapse>(table: Seq<Entry<S>>, synapse: S)
    ensures
        match position(table, synapse) {
            Some(i) => {
                &&& 0 <= i < table.len()
                &&& table[i].constraint.kind() == synapse
                &&& forall|j: int| 0 <= j < i ==> table[j].constraint.kind() != synapse
            },
            None => forall|j: int| 0 <= j < table.len() ==> table[j].constraint.kind() != synapse,
        },
    decreases table.len(),
{
    if table.len() > 0 {
        let front = table.drop_last();
        lemma_position(front, synapse);
        assert forall|j: int| 0 <= j < front.len() implies front[j] == table[j] by {}
        match position(table, synapse) {
            Some(i) => {
                assert forall|j: int| 0 <= j < i implies table[j].constraint.kind() != synapse by {
                    assert(front[j] == table[j]);
                }
            },
            None => {
                assert forall|j: int| 0 <= j < table.len() implies table[j].constraint.kind()
                    != synapse by {
                    if j < front.len() {
                        assert(front[j] == table[j]);
                    }
                }
            },
        }
    }
}

/// The table that a list of slots stands for.
pub open spec fn table_of<S: Synapse>(slots: Seq<Slot<S>>) -> Seq<Entry<S>> {
    slots.map_values(|slot: Slot<S>| slot@)
}

fn fresh_slot<S: Synapse>(constraint: Constraint<S>) -> (slot: Slot<S>)
    ensures
        slot@ == Entry::fresh(constraint),
{
    match constraint {
        Constraint::One(_) => Slot { constraint, requirement: Requirement::Unmet },
        Constraint::Variadic(_) => Slot {
            constraint,
            requirement: Requirement::MetVariadic(Vec::new()),
        },
    }
}

fn find<S: Synapse>(slots: &Vec<Slot<S>>, synapse: S) -> (found: Option<usize>)
    requires
        eq_is_identity::<S>(),
    ensures
        match found {
            Some(i) => position(table_of(slots@), synapse) == Some(i as int) && i < slots.len(),
            None => position(table_of(slots@), synapse) is None,
        },
{
    let ghost table = table_of(slots@);
    let mut i: usize = 0;
    while i < slots.len()
        invariant
            i <= slots.len(),
            table == table_of(slots@),
            eq_is_identity::<S>(),
            forall|j: int| 0 <= j < i ==> table[j].constraint.kind() != synapse,
        decreases slots.len() - i,
    {
        if slots[i].constraint.synapse() == synapse {
            proof {
                assert(table[i as int].constraint.kind() == synapse);
                lemma_position(table, synapse);
            }
            return Some(i);
        }
        assert(table[i as int].constraint.kind() != synapse);
        i += 1;
    }
    proof {
        lemma_position(table, synapse);
    }
    None
}

fn declare<S: Synapse>(constraints: &Vec<Constraint<S>>) -> (slots: Vec<Slot<S>>)
    requires
        eq_is_identity::<S>(),
    ensures
        table_of(slots@) == declared(constraints@),
        table_wf(table_of(slots@)),
{
    let mut slots: Vec<Slot<S>> = Vec::new();
    let mut n: usize = 0;
    proof {
        assert(table_of(slots@) =~= declared(constraints@.take(0)));
    }
    while n < constraints.len()
        invariant
            n <= constraints.len(),
            eq_is_identity::<S>(),
            table_of(slots@) == declared(constraints@.take(n as int)),
            table_wf(table_of(slots@)),
        decreases constraints.len() - n,
    {
        let constraint = constraints[n];
        let ghost before = table_of(slots@);
        proof {
            assert(constraints@.take(n + 1).drop_last() =~= constraints@.take(n as int));
            assert(constraints@.take(n + 1).last() == constraint);
            lemma_position(before, constraint.kind());
        }
        match find(&slots, constraint.synapse()) {
            Some(i) => {
                slots.set(i, fresh_slot(constraint));
                proof {
                    assert(table_of(slots@) =~= before.update(i as int, Entry::fresh(constraint)));
                }
            },
            None => {
                slots.push(fresh_slot(constraint));
                proof {
                    assert(table_of(slots@) =~= before.push(Entry::fresh(constraint)));
                }
            },
        }
        n += 1;
    }
    proof {
        assert(constraints@.take(n as int) =~= constraints@);
    }
    slots
}

fn accept<S: Synapse>(slots: &mut Vec<Slot<S>>, uuid: SomaId, synapse: S) -> (r: Result<
    (),
    Refusal,
>)
    requires
        eq_is_identity::<S>(),
        table_wf(table_of(old(slots)@)),
    ensures
        match accepted(table_of(old(slots)@), uuid, synapse) {
            Ok(table) => r is Ok && table_of(final(slots)@) == table,
            Err(refusal) => r == Err::<(), Refusal>(refusal) && final(slots)@ == old(slots)@,
        },
        table_wf(table_of(final(slots)@)),
{
    let ghost before = table_of(slots@);
    proof {
        lemma_position(before, synapse);
    }
    match find(slots, synapse) {
        None => Err(Refusal::NoConstraint),
        Some(i) => {
            let slot = &mut slots[i];
            match &mut slot.requirement {
                Requirement::Unmet => {
                    slot.requirement = Requirement::MetOne(uuid);
                },
                Requirement::MetOne(_) => {
                    return Err(Refusal::OnlyOne);
                },
                Requirement::MetVariadic(somas) => {
                    somas.push(uuid);
                },
            }
            proof {
                assert(table_of(slots@) =~= before.update(i as int, before[i as int].with(uuid)));
            }
            Ok(())
        },
    }
}

fn first_missing<S: Synapse>(slots: &Vec<Slot<S>>) -> (found: Option<usize>)
    ensures
        match found {
            Some(i) => i < slots.len() && slots[i as int]@.missing(),
            None => !lacking(table_of(slots@)),
        },
{
    let mut i: usize = 0;
    while i < slots.len()
        invariant
            i <= slots.len(),
            forall|j: int| 0 <= j < i ==> !(#[trigger] table_of(slots@)[j]).missing(),
        decreases slots.len() - i,
    {
        let slot = &slots[i];
        match (&slot.constraint, &slot.requirement) {
            (Constraint::One(_), Requirement::Unmet) => {
                return Some(i);
            },
            _ => {},
        }
        assert(!table_of(slots@)[i as int].missing());
        i += 1;
    }
    None
}

/// What an axon does with an impulse that it accepted.
#[derive(Debug)]
pub enum Relay<S: Synapse> {
    /// hand the impulse to the soma that the axon guards
    Forward(Impulse<S>),
    /// answer the probe with the axon's own description
    Describe(Settings),
}

/// wrap a soma with a set of requirements that will be validated upon startup
#[derive(Debug)]
pub struct Axon<S: Synapse> {
    uuid: Option<SomaId>,
    dendrites: Vec<Slot<S>>,
    terminals: Vec<Slot<S>>,
}

/// The mathematical value of an `Axon`.
pub struct AxonView<S: Synapse> {
    /// the identifier that the axon was started under
    pub uuid: Option<SomaId>,
    /// the table of the inputs
    pub dendrites: Seq<Entry<S>>,
    /// the table of the outputs
    pub terminals: Seq<Entry<S>>,
}

impl<S: Synapse> AxonView<S> {
    /// The table of one side.
    pub open spec fn table(self, side: Side) -> Seq<Entry<S>> {
        match side {
            Side::Dendrite => self.dendrites,
            Side::Terminal => self.terminals,
        }
    }

    /// The axon with the table of one side replaced.
    pub open spec fn with_table(self, side: Side, table: Seq<Entry<S>>) -> Self {
        match side {
            Side::Dendrite => AxonView { dendrites: table, ..self },
            Side::Terminal => AxonView { terminals: table, ..self },
        }
    }

    /// The axon was started and no required synapse is missing.
    pub open spec fn validated(self) -> bool {
        &&& self.uuid is Some
        &&& !lacking(self.dendrites)
        &&& !lacking(self.terminals)
    }

    /// What adding a synapse does: the axon afterwards and the result, for a
    /// kind whose `Debug` text is `name`.
    pub open spec fn added(
        self,
        side: Side,
        uuid: SomaId,
        synapse: S,
        name: Seq<char>,
        after: Self,
        result: Result<(), Error>,
    ) -> bool {
        match accepted(self.table(side), uuid, synapse) {
            Ok(table) => result is Ok && after == self.with_table(side, table),
            Err(refusal) => {
                &&& after == self
                &&& result matches Err(e)
                &&& e@ == seq![Cause::InvalidSynapse(refusal_text(refusal, side, name))]
            },
        }
    }

    /// What starting does: the axon afterwards and the result, where `name`
    /// is the `Debug` text of a kind whose required synapse is missing.
    pub open spec fn started(
        self,
        uuid: SomaId,
        name: Seq<char>,
        after: Self,
        result: Result<(), Error>,
    ) -> bool {
        &&& after == AxonView { uuid: Some(uuid), ..self }
        &&& if lacking(self.dendrites) {
            result matches Err(e) && e@ == seq![
                Cause::MissingSynapse(missing_text(Side::Dendrite, name)),
            ]
        } else if lacking(self.terminals) {
            result matches Err(e) && e@ == seq![
                Cause::MissingSynapse(missing_text(Side::Terminal, name)),
            ]
        } else {
            result is Ok
        }
    }

    /// What an impulse does: the axon afterwards and the result, where `name`
    /// is the `Debug` text of the kind that an error speaks of.
    pub open spec fn updated(
        self,
        imp: Impulse<S>,
        name: Seq<char>,
        after: Self,
        result: Result<Relay<S>, Error>,
    ) -> bool {
        let outcome = match result {
            Ok(_) => Ok(()),
            Err(e) => Err(e),
        };
        match imp {
            Impulse::AddDendrite(uuid, synapse, _) => {
                &&& self.added(Side::Dendrite, uuid, synapse, name, after, outcome)
                &&& result matches Ok(relay) ==> relay == Relay::Forward(imp)
            },
            Impulse::AddTerminal(uuid, synapse, _) => {
                &&& self.added(Side::Terminal, uuid, synapse, name, after, outcome)
                &&& result matches Ok(relay) ==> relay == Relay::Forward(imp)
            },
            Impulse::Start(uuid) => {
                &&& self.started(uuid, name, after, outcome)
                &&& result matches Ok(relay) ==> relay == Relay::Forward(imp)
            },
            Impulse::Probe(settings) => {
                &&& after == self
                &&& result matches Ok(relay)
                &&& relay == Relay::<S>::Describe(settings)
            },
            _ => {
                &&& after == self
                &&& result matches Err(e)
                &&& e@ == seq![Cause::Msg("unexpected impulse in axon"@)]
            },
        }
    }
}

/// Whether `data` describes the entries of `table`, one for one and in order:
/// each with the soma or somas at the other end of its synapses.
pub open spec fn describes<S: Synapse>(table: Seq<Entry<S>>, data: Seq<ConstraintData>) -> bool {
    &&& data.len() == table.len()
    &&& forall|i: int|
        0 <= i < table.len() ==> match (#[trigger] table[i]).met {
            Fulfilment::Unmet => false,
            Fulfilment::MetOne(uuid) => data[i] matches ConstraintData::One { soma, .. } && soma
                == uuid,
            Fulfilment::MetVariadic(peers) => data[i] matches ConstraintData::Variadic {
                somas,
                ..
            } && somas@ == peers,
        }
}

/// The description of one line of a table, under the given name of its kind.
/// A required synapse that is missing has no description.
pub fn constraint_data<S: Synapse>(slot: &Slot<S>, variant: String) -> (data: Option<
    ConstraintData,
>)
    ensures
        match slot@.met {
            Fulfilment::Unmet => data is None,
            Fulfilment::MetOne(uuid) => data matches Some(ConstraintData::One { variant: v, soma })
                && v == variant && soma == uuid,
            Fulfilment::MetVariadic(peers) => data matches Some(
                ConstraintData::Variadic { variant: v, somas },
            ) && v == variant && somas@ == peers,
        },
{
    match &slot.requirement {
        Requirement::Unmet => None,
        Requirement::MetOne(uuid) => Some(ConstraintData::One { variant, soma: *uuid }),
        Requirement::MetVariadic(somas) => Some(
            ConstraintData::Variadic { variant, somas: somas.clone() },
        ),
    }
}

fn describe<S: Synapse>(slots: &Vec<Slot<S>>) -> (data: Vec<ConstraintData>)
    requires
        table_wf(table_of(slots@)),
        !lacking(table_of(slots@)),
    ensures
        describes(table_of(slots@), data@),
{
    let ghost table = table_of(slots@);
    let mut data: Vec<ConstraintData> = Vec::new();
    let mut i: usize = 0;
    while i < slots.len()
        invariant
            i <= slots.len(),
            table == table_of(slots@),
            table_wf(table),
            !lacking(table),
            describes(table.take(i as int), data@),
        decreases slots.len() - i,
    {
        let slot = &slots[i];
        let variant = debug_text(&slot.constraint.synapse());
        proof {
            assert(table[i as int].consistent());
            assert(!table[i as int].missing());
        }
        let ghost before = data@;
        let line = constraint_data(slot, variant);
        data.push(line.unwrap());
        proof {
            assert forall|j: int| 0 <= j < i + 1 implies match (#[trigger] table.take(
                i + 1,
            )[j]).met {
                Fulfilment::Unmet => false,
                Fulfilment::MetOne(uuid) => data@[j] matches ConstraintData::One { soma, .. }
                    && soma == uuid,
                Fulfilment::MetVariadic(peers) => data@[j] matches ConstraintData::Variadic {
                    somas,
                    ..
                } && somas@ == peers,
            } by {
                if j < i {
                    assert(table.take(i as int)[j] == table.take(i + 1)[j]);
                    assert(data@[j] == before[j]);
                }
            }
        }
        i += 1;
    }
    proof {
        assert(table.take(i as int) =~= table);
    }
    data
}

impl<S: Synapse> View for Axon<S> {
    type V = AxonView<S>;

    closed spec fn view(&self) -> AxonView<S> {
        AxonView {
            uuid: self.uuid,
            dendrites: table_of(self.dendrites@),
            terminals: table_of(self.terminals@),
        }
    }
}

impl<S: Synapse> Axon<S> {
    /// Each table has one entry for a kind at most, and consistent entries;
    /// and `==` tells whether two kinds are the same.
    pub open spec fn wf(self) -> bool {
        &&& eq_is_identity::<S>()
        &&& table_wf(self@.dendrites)
        &&& table_wf(self@.terminals)
    }

    /// wrap a soma with constraints specified by dendrite and terminal
    /// constraints
    pub fn new(dendrites: Vec<Constraint<S>>, terminals: Vec<Constraint<S>>) -> (axon: Self)
        requires
            eq_is_identity::<S>(),
        ensures
            axon.wf(),
            axon@ == (AxonView {
                uuid: None,
                dendrites: declared(dendrites@),
                terminals: declared(terminals@),
            }),
    {
        Axon { uuid: None, dendrites: declare(&dendrites), terminals: declare(&terminals) }
    }

    /// the identifier that the axon was started under
    pub fn uuid(&self) -> (uuid: Option<SomaId>)
        ensures
            uuid == self@.uuid,
    {
        self.uuid
    }

    /// whether the axon was started and no required synapse is missing
    pub fn validated(&self) -> (r: bool)
        ensures
            r == self@.validated(),
    {
        if self.uuid.is_none() {
            return false;
        }
        if let Some(i) = first_missing(&self.dendrites) {
            assert(table_of(self.dendrites@)[i as int].missing());
            return false;
        }
        if let Some(i) = first_missing(&self.terminals) {
            assert(table_of(self.terminals@)[i as int].missing());
            return false;
        }
        true
    }

    /// validate a dendrite that is added to the soma
    pub fn add_dendrite(&mut self, uuid: SomaId, synapse: S) -> (r: Result<(), Error>)
        requires
            old(self).wf(),
        ensures
            final(self).wf(),
            exists|name: Seq<char>|
                old(self)@.added(Side::Dendrite, uuid, synapse, name, final(self)@, r),
    {
        match accept(&mut self.dendrites, uuid, synapse) {
            Ok(()) => {
                let r = Ok(());
                proof {
                    assert(old(self)@.added(
                        Side::Dendrite,
                        uuid,
                        synapse,
                        Seq::empty(),
                        self@,
                        r,
                    ));
                }
                r
            },
            Err(refusal) => {
                let name = debug_text(&synapse);
                let r = Err(invalid_synapse(refusal, Side::Dendrite, name.as_str()));
                proof {
                    assert(self@ =~= old(self)@);
                    assert(old(self)@.added(Side::Dendrite, uuid, synapse, name@, self@, r));
                }
                r
            },
        }
    }

    /// validate a terminal that is added to the soma
    pub fn add_terminal(&mut self, uuid: SomaId, synapse: S) -> (r: Result<(), Error>)
        requires
            old(self).wf(),
        ensures
            final(self).wf(),
            exists|name: Seq<char>|
                old(self)@.added(Side::Terminal, uuid, synapse, name, final(self)@, r),
    {
        match accept(&mut self.terminals, uuid, synapse) {
            Ok(()) => {
                let r = Ok(());
                proof {
                    assert(old(self)@.added(
                        Side::Terminal,
                        uuid,
                        synapse,
                        Seq::empty(),
                        self@,
                        r,
                    ));
                }
                r
            },
            Err(refusal) => {
                let name = debug_text(&synapse);
                let r = Err(invalid_synapse(refusal, Side::Terminal, name.as_str()));
                proof {
                    assert(self@ =~= old(self)@);
                    assert(old(self)@.added(Side::Terminal, uuid, synapse, name@, self@, r));
                }
                r
            },
        }
    }

    /// record the identifier and check that no required synapse is missing:
    /// the dendrites first, then the terminals
    pub fn start(&mut self, uuid: SomaId) -> (r: Result<(), Error>)
        requires
            old(self).wf(),
        ensures
            final(self).wf(),
            exists|name: Seq<char>| old(self)@.started(uuid, name, final(self)@, r),
    {
        self.uuid = Some(uuid);
        if let Some(i) = first_missing(&self.dendrites) {
            let name = debug_text(&self.dendrites[i].constraint.synapse());
            let r = Err(missing_synapse(Side::Dendrite, name.as_str()));
            proof {
                assert(table_of(self.dendrites@)[i as int].missing());
                assert(old(self)@.started(uuid, name@, self@, r));
            }
            return r;
        }
        if let Some(i) = first_missing(&self.terminals) {
            let name = debug_text(&self.terminals[i].constraint.synapse());
            let r = Err(missing_synapse(Side::Terminal, name.as_str()));
            proof {
                assert(table_of(self.terminals@)[i as int].missing());
                assert(old(self)@.started(uuid, name@, self@, r));
            }
            return r;
        }
        let r = Ok(());
        proof {
            assert(old(self)@.started(uuid, Seq::empty(), self@, r));
        }
        r
    }

    /// probe the internal structure of this soma
    ///
    /// The axon describes itself under the given name, with the constraints of
    /// its tables and the somas that met them.
    pub fn probe(&self, name: String) -> (data: SomaData)
        requires
            self.wf(),
            self@.validated(),
        ensures
            data matches SomaData::Axon { terminals, dendrites, uuid, name: n } && n == name
                && Some(uuid) == self@.uuid && describes(self@.terminals, terminals@)
                && describes(self@.dendrites, dendrites@),
    {
        let terminals = describe(&self.terminals);
        let dendrites = describe(&self.dendrites);
        SomaData::Axon { terminals, dendrites, uuid: self.uuid.unwrap(), name }
    }
}

impl<S: Synapse> Axon<S> {
    /// react to a single impulse
    ///
    /// Endpoints and the start are validated and handed on to the soma; a
    /// probe is answered by the axon itself; `Stop` and `Error` are not
    /// expected here.
    pub fn update(&mut self, imp: Impulse<S>) -> (r: Result<Relay<S>, Error>)
        requires
            old(self).wf(),
        ensures
            final(self).wf(),
            exists|name: Seq<char>| old(self)@.updated(imp, name, final(self)@, r),
    {
        match imp {
            Impulse::AddDendrite(uuid, synapse, dendrite) => {
                let checked = self.add_dendrite(uuid, synapse);
                let ghost name = choose|name: Seq<char>|
                    old(self)@.added(Side::Dendrite, uuid, synapse, name, self@, checked);
                let r = match checked {
                    Ok(()) => Ok(Relay::Forward(Impulse::AddDendrite(uuid, synapse, dendrite))),
                    Err(e) => Err(e),
                };
                proof {
                    assert(old(self)@.updated(imp, name, self@, r));
                }
                r
            },
            Impulse::AddTerminal(uuid, synapse, terminal) => {
                let checked = self.add_terminal(uuid, synapse);
                let ghost name = choose|name: Seq<char>|
                    old(self)@.added(Side::Terminal, uuid, synapse, name, self@, checked);
                let r = match checked {
                    Ok(()) => Ok(Relay::Forward(Impulse::AddTerminal(uuid, synapse, terminal))),
                    Err(e) => Err(e),
                };
                proof {
                    assert(old(self)@.updated(imp, name, self@, r));
                }
                r
            },
            Impulse::Start(uuid) => {
                let checked = self.start(uuid);
                let ghost name = choose|name: Seq<char>|
                    old(self)@.started(uuid, name, self@, checked);
                let r = match checked {
                    Ok(()) => Ok(Relay::Forward(Impulse::Start(uuid))),
                    Err(e) => Err(e),
                };
                proof {
                    assert(old(self)@.updated(imp, name, self@, r));
                }
                r
            },
            Impulse::Probe(settings) => {
                let r = Ok(Relay::Describe(settings));
                proof {
                    assert(old(self)@.updated(imp, Seq::empty(), self@, r));
                }
                r
            },
            Impulse::Stop => {
                let r = Err(Error::msg("unexpected impulse in axon"));
                proof {
                    assert(old(self)@.updated(imp, Seq::empty(), self@, r));
                }
                r
            },
            Impulse::Error(_) => {
                let r = Err(Error::msg("unexpected impulse in axon"));
                proof {
                    assert(old(self)@.updated(imp, Seq::empty(), self@, r));
                }
                r
            },
        }
    }
}

/// The table after the given synapses were added one after the other, each by
/// its soma and its kind; a synapse that is refused leaves the table as it is.
pub open spec fn accepted_all<S: Synapse>(table: Seq<Entry<S>>, adds: Seq<(SomaId, S)>) -> Seq<
    Entry<S>,
>
    decreases adds.len(),
{
    if adds.len() == 0 {
        table
    } else {
        let before = accepted_all(table, adds.drop_last());
        match accepted(before, adds.last().0, adds.last().1) {
            Ok(after) => after,
            Err(_) => before,
        }
    }
}

/// In a well-formed table, the entry of a kind is found at its position.
pub proof fn lemma_position_of_entry<S: Synapse>(table: Seq<Entry<S>>, i: int)
    requires
        table_wf(table),
        0 <= i < table.len(),
    ensures
        position(table, table[i].constraint.kind()) == Some(i),
{
    lemma_position(table, table[i].constraint.kind());
}

/// Adding a synapse changes the record of one entry at most: the table
/// stays well formed, with the same constraints at the same places.
pub proof fn lemma_accepted_keeps_constraints<S: Synapse>(
    table: Seq<Entry<S>>,
    uuid: SomaId,
    synapse: S,
)
    requires
        table_wf(table),
    ensures
        accepted(table, uuid, synapse) matches Ok(after) ==> {
            &&& table_wf(after)
            &&& after.len() == table.len()
            &&& forall|j: int|
                0 <= j < table.len() ==> (#[trigger] after[j]).constraint == table[j].constraint
            &&& forall|j: int|
                0 <= j < table.len() && table[j].constraint.kind() != synapse ==> after[j]
                    == table[j]
        },
{
    lemma_position(table, synapse);
    if let Ok(after) = accepted(table, uuid, synapse) {
        let i = position(table, synapse)->Some_0;
        assert(table[i].consistent());
        assert forall|j: int| 0 <= j < after.len() implies (#[trigger] after[j]).consistent() by {
            if j != i {
                assert(after[j] == table[j]);
            }
        }
        assert forall|a: int, b: int| 0 <= a < b < after.len() implies (
        #[trigger] after[a]).constraint.kind() != (#[trigger] after[b]).constraint.kind() by {
            assert(after[a].constraint == table[a].constraint);
            assert(after[b].constraint == table[b].constraint);
        }
    }
}

/// Adding synapses one after the other keeps a table well formed, with the
/// same constraints at the same places.
pub proof fn lemma_accepted_all_keeps_constraints<S: Synapse>(
    table: Seq<Entry<S>>,
    adds: Seq<(SomaId, S)>,
)
    requires
        table_wf(table),
    ensures
        table_wf(accepted_all(table, adds)),
        accepted_all(table, adds).len() == table.len(),
        forall|j: int|
            0 <= j < table.len() ==> (#[trigger] accepted_all(table, adds)[j]).constraint
                == table[j].constraint,
    decreases adds.len(),
{
    if adds.len() > 0 {
        let before = accepted_all(table, adds.drop_last());
        lemma_accepted_all_keeps_constraints(table, adds.drop_last());
        lemma_accepted_keeps_constraints(before, adds.last().0, adds.last().1);
        let after = accepted_all(table, adds);
        assert forall|j: int| 0 <= j < table.len() implies (#[trigger] after[j]).constraint
            == table[j].constraint by {
            assert(before[j].constraint == table[j].constraint);
        }
    }
}

/// A constraint for one synapse is missing at start if and only if no synapse
/// of its kind was added.
pub proof fn lemma_required_synapse<S: Synapse>(
    table: Seq<Entry<S>>,
    adds: Seq<(SomaId, S)>,
    i: int,
    synapse: S,
)
    requires
        table_wf(table),
        0 <= i < table.len(),
        table[i].constraint == Constraint::One(synapse),
        table[i].met is Unmet,
    ensures
        accepted_all(table, adds)[i].missing() <==> forall|j: int|
            0 <= j < adds.len() ==> (#[trigger] adds[j]).1 != synapse,
    decreases adds.len(),
{
    if adds.len() > 0 {
        let front = adds.drop_last();
        let before = accepted_all(table, front);
        lemma_required_synapse(table, front, i, synapse);
        lemma_accepted_all_keeps_constraints(table, front);
        lemma_accepted_keeps_constraints(before, adds.last().0, adds.last().1);
        assert(before[i].constraint == table[i].constraint);
        lemma_position_of_entry(before, i);
        assert(before[i].consistent());
        assert forall|j: int| 0 <= j < front.len() implies front[j] == adds[j] by {}
        if adds.last().1 == synapse {
            assert(!accepted_all(table, adds)[i].missing());
            assert(adds[adds.len() - 1].1 == synapse);
        } else {
            lemma_position(before, adds.last().1);
            assert(accepted_all(table, adds)[i] == before[i]);
            if forall|j: int| 0 <= j < front.len() ==> (#[trigger] front[j]).1 != synapse {
                assert forall|j: int| 0 <= j < adds.len() implies (#[trigger] adds[j]).1
                    != synapse by {
                    if j < front.len() {
                        assert(front[j] == adds[j]);
                    }
                }
            } else {
                let j = choose|j: int| 0 <= j < front.len() && (#[trigger] front[j]).1 == synapse;
                assert(adds[j].1 == synapse);
            }
        }
    }
}

/// A constraint for one synapse accepts the first synapse of its kind and
/// refuses the second.
pub proof fn lemma_second_synapse_is_refused<S: Synapse>(
    table: Seq<Entry<S>>,
    i: int,
    synapse: S,
    first: SomaId,
    second: SomaId,
)
    requires
        table_wf(table),
        0 <= i < table.len(),
        table[i].constraint == Constraint::One(synapse),
        table[i].met is Unmet,
    ensures
        accepted(table, first, synapse) matches Ok(after) && after[i].met == Fulfilment::MetOne(
            first,
        ) && accepted(after, second, synapse) == Err::<Seq<Entry<S>>, Refusal>(Refusal::OnlyOne),
{
    lemma_position_of_entry(table, i);
    lemma_accepted_keeps_constraints(table, first, synapse);
    let after = accepted(table, first, synapse)->Ok_0;
    lemma_position_of_entry(after, i);
}

/// A variadic constraint accepts every synapse of its kind, however many were
/// added before, and is never missing at start.
pub proof fn lemma_variadic_synapse<S: Synapse>(
    table: Seq<Entry<S>>,
    adds: Seq<(SomaId, S)>,
    i: int,
    synapse: S,
    uuid: SomaId,
)
    requires
        table_wf(table),
        0 <= i < table.len(),
        table[i].constraint == Constraint::Variadic(synapse),
    ensures
        !accepted_all(table, adds)[i].missing(),
        accepted(accepted_all(table, adds), uuid, synapse) is Ok,
{
    lemma_accepted_all_keeps_constraints(table, adds);
    let now = accepted_all(table, adds);
    assert(now[i].constraint == table[i].constraint);
    assert(now[i].consistent());
    lemma_position_of_entry(now, i);
}

} // verus!
