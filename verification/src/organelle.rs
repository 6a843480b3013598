//! The organelle: a soma that hosts other somas and wires them together.
//!
//! An organelle knows its children by their identifiers. It does not carry
//! impulses itself: whatever it sends to a child is queued as a delivery, in
//! the order of sending, and the scheduler takes the deliveries from the queue
//! and brings each to the inbox of its child. One child, the nucleus, stands
//! for the organelle towards the outside.
//!
//! Connections that are made before the start are buffered in the queue with
//! everything else, so they reach the children in the order in which they
//! were made, and each child has all of its endpoints before it is started.

use vstd::prelude::*;

use crate::error::{Cause, Error};
use crate::probe::{Settings, SomaData};
use crate::soma::{fresh_id, is_random_uuid, Impulse, Lifecycle, SomaId, Synapse};

verus! {

/// An impulse on its way to the inbox of a child.
#[derive(Debug)]
pub struct Delivery<R: Synapse> {
    /// the child that the impulse is for
    pub to: SomaId,
    /// the impulse
    pub impulse: Impulse<R>,
}

/// What is left to do after an organelle has reacted to an impulse, besides
/// carrying the deliveries that it queued.
#[derive(Debug)]
pub enum Reaction<R: Synapse> {
    /// nothing
    Routed,
    /// the organelle was started: from now on, whatever its children send on
    /// its control channel goes on to the sender that came with the start
    Piped,
    /// the children were asked to describe themselves: their replies are to be
    /// gathered and assembled
    Gather,
    /// the impulse goes to the outer control sender as it is
    Upward(Impulse<R>),
}

/// The impulses that the deliveries of a queue bring to one child, in order.
pub open spec fn inbox<R: Synapse>(outbox: Seq<Delivery<R>>, id: SomaId) -> Seq<Impulse<R>>
    decreases outbox.len(),
{
    if outbox.len() == 0 {
        Seq::empty()
    } else if outbox.last().to == id {
        inbox(outbox.drop_last(), id).push(outbox.last().impulse)
    } else {
        inbox(outbox.drop_last(), id)
    }
}

/// One `Start` for each of the given somas, each under its own identifier.
pub open spec fn starts<R: Synapse>(somas: Seq<SomaId>) -> Seq<Delivery<R>> {
    somas.map_values(|id: SomaId| Delivery::<R> { to: id, impulse: Impulse::Start(id) })
}

/// One `Probe` for each of the given somas.
pub open spec fn probes<R: Synapse>(somas: Seq<SomaId>, settings: Settings) -> Seq<Delivery<R>> {
    somas.map_values(|id: SomaId| Delivery::<R> { to: id, impulse: Impulse::Probe(settings) })
}

/// a soma designed to facilitate connections between other somas
///
/// where somas are the single cells of functionality, organelles are the
/// organisms capable of more complex tasks. however, organelles are still
/// essentially somas, so they can used in larger organelles as long as they
/// comply with their standards.
#[derive(Debug)]
pub struct Organelle<R: Synapse> {
    uuid: Option<SomaId>,
    main: SomaId,
    somas: Vec<SomaId>,
    outbox: Vec<Delivery<R>>,
}

/// The mathematical value of an `Organelle`.
pub struct OrganelleView<R: Synapse> {
    /// the identifier that the organelle was started under
    pub uuid: Option<SomaId>,
    /// the child that stands for the organelle towards the outside
    pub nucleus: SomaId,
    /// the children, in the order in which they were added
    pub somas: Seq<SomaId>,
    /// the deliveries that were queued and not yet taken, oldest first
    pub outbox: Seq<Delivery<R>>,
}

impl<R: Synapse> OrganelleView<R> {
    /// No child occurs twice, and the nucleus is a child.
    pub open spec fn wf(self) -> bool {
        &&& self.somas.no_duplicates()
        &&& self.somas.contains(self.nucleus)
    }

    /// The organelle with one more delivery at the end of its queue.
    pub open spec fn queued(self, to: SomaId, impulse: Impulse<R>) -> Self {
        OrganelleView { outbox: self.outbox.push(Delivery { to, impulse }), ..self }
    }

    /// The organelle with `id` among its children.
    pub open spec fn registered(self, id: SomaId) -> Self {
        if self.somas.contains(id) {
            self
        } else {
            OrganelleView { somas: self.somas.push(id), ..self }
        }
    }

    /// What sending a terminal does: the organelle afterwards and the result.
    pub open spec fn terminal_added(
        self,
        terminal: (SomaId, R::Terminal),
        dendrite: SomaId,
        synapse: R,
        after: Self,
        result: Result<(), Error>,
    ) -> bool {
        if self.somas.contains(dendrite) {
            &&& result is Ok
            &&& after == self.queued(dendrite, Impulse::AddTerminal(terminal.0, synapse, terminal.1))
        } else {
            &&& after == self
            &&& result matches Err(e)
            &&& e@ == seq![Cause::Msg("unable to find dendrite"@)]
        }
    }

    /// What sending a dendrite does: the organelle afterwards and the result.
    pub open spec fn dendrite_added(
        self,
        dendrite: (SomaId, R::Dendrite),
        terminal: SomaId,
        synapse: R,
        after: Self,
        result: Result<(), Error>,
    ) -> bool {
        if self.somas.contains(terminal) {
            &&& result is Ok
            &&& after == self.queued(terminal, Impulse::AddDendrite(dendrite.0, synapse, dendrite.1))
        } else {
            &&& after == self
            &&& result matches Err(e)
            &&& e@ == seq![Cause::Msg("unable to find terminal"@)]
        }
    }

    /// What connecting two somas does, where the synapse splits into the
    /// given endpoints: the organelle afterwards and the result. The terminal
    /// is sent first; where that fails, nothing else is done.
    pub open spec fn connected(
        self,
        dendrite: SomaId,
        terminal: SomaId,
        synapse: R,
        endpoints: (R::Terminal, R::Dendrite),
        after: Self,
        result: Result<(), Error>,
    ) -> bool {
        if !self.somas.contains(dendrite) {
            self.terminal_added((terminal, endpoints.0), dendrite, synapse, after, result)
        } else {
            self.queued(
                dendrite,
                Impulse::AddTerminal(terminal, synapse, endpoints.0),
            ).dendrite_added((dendrite, endpoints.1), terminal, synapse, after, result)
        }
    }

    /// The organelle after an impulse, and what is left to do.
    pub open spec fn updated(self, imp: Impulse<R>) -> (Self, Reaction<R>) {
        match imp {
            Impulse::AddDendrite(_, _, _) => (self.queued(self.nucleus, imp), Reaction::Routed),
            Impulse::AddTerminal(_, _, _) => (self.queued(self.nucleus, imp), Reaction::Routed),
            Impulse::Start(uuid) => (
                OrganelleView {
                    uuid: Some(uuid),
                    outbox: self.outbox + starts(self.somas),
                    ..self
                },
                Reaction::Piped,
            ),
            Impulse::Probe(settings) => (
                OrganelleView { outbox: self.outbox + probes(self.somas, settings), ..self },
                Reaction::Gather,
            ),
            Impulse::Stop => (self, Reaction::Upward(imp)),
            Impulse::Error(_) => (self, Reaction::Upward(imp)),
        }
    }

    /// The organelle after the given impulses in order.
    pub open spec fn fed(self, imps: Seq<Impulse<R>>) -> Self
        decreases imps.len(),
    {
        if imps.len() == 0 {
            self
        } else {
            self.fed(imps.drop_last()).updated(imps.last()).0
        }
    }
}

impl<R: Synapse> View for Organelle<R> {
    type V = OrganelleView<R>;

    closed spec fn view(&self) -> OrganelleView<R> {
        OrganelleView {
            uuid: self.uuid,
            nucleus: self.main,
            somas: self.somas@,
            outbox: self.outbox@,
        }
    }
}

impl<R: Synapse> Organelle<R> {
    /// No child occurs twice, and the nucleus is a child.
    pub open spec fn wf(self) -> bool {
        self@.wf()
    }

    /// create a new organelle, around a nucleus with a fresh identifier
    pub fn new() -> (organelle: Self)
        ensures
            organelle.wf(),
            is_random_uuid(organelle@.nucleus),
            organelle@ == (OrganelleView::<R> {
                uuid: None,
                nucleus: organelle@.nucleus,
                somas: seq![organelle@.nucleus],
                outbox: Seq::empty(),
            }),
    {
        Self::with_nucleus(fresh_id())
    }

    /// create a new organelle, around a nucleus with the given identifier
    pub fn with_nucleus(main: SomaId) -> (organelle: Self)
        ensures
            organelle.wf(),
            organelle@ == (OrganelleView::<R> {
                uuid: None,
                nucleus: main,
                somas: seq![main],
                outbox: Seq::empty(),
            }),
    {
        let mut somas: Vec<SomaId> = Vec::new();
        somas.push(main);
        let organelle = Organelle { uuid: None, main, somas, outbox: Vec::new() };
        proof {
            assert(organelle@.somas =~= seq![main]);
            assert(organelle@.somas[0] == main);
        }
        organelle
    }

    /// get the main soma's uuid
    pub fn nucleus(&self) -> (main: SomaId)
        ensures
            main == self@.nucleus,
    {
        self.main
    }

    /// the identifier that the organelle was started under
    pub fn uuid(&self) -> (uuid: Option<SomaId>)
        ensures
            uuid == self@.uuid,
    {
        self.uuid
    }

    /// whether a soma with this identifier was added to the organelle
    pub fn contains(&self, id: SomaId) -> (found: bool)
        ensures
            found == self@.somas.contains(id),
    {
        let mut i: usize = 0;
        while i < self.somas.len()
            invariant
                i <= self.somas.len(),
                forall|j: int| 0 <= j < i ==> self.somas@[j] != id,
            decreases self.somas.len() - i,
        {
            if self.somas[i] == id {
                return true;
            }
            i += 1;
        }
        false
    }

    /// add a soma to the organelle, under a fresh identifier
    pub fn add_soma(&mut self) -> (uuid: SomaId)
        requires
            old(self).wf(),
        ensures
            final(self).wf(),
            is_random_uuid(uuid),
            final(self)@ == old(self)@.registered(uuid),
    {
        let uuid = fresh_id();
        self.register(uuid);
        uuid
    }

    /// add a soma to the organelle, under the given identifier; a soma that was
    /// added under the same identifier before is replaced
    pub fn register(&mut self, uuid: SomaId)
        requires
            old(self).wf(),
        ensures
            final(self).wf(),
            final(self)@ == old(self)@.registered(uuid),
    {
        if !self.contains(uuid) {
            self.somas.push(uuid);
            proof {
                let before = old(self)@.somas;
                let after = self@.somas;
                assert(after =~= before.push(uuid));
                assert forall|i: int, j: int|
                    0 <= i < after.len() && 0 <= j < after.len() && i != j implies after[i]
                    != after[j] by {
                    if i < before.len() {
                        assert(before.contains(before[i]));
                    }
                    if j < before.len() {
                        assert(before.contains(before[j]));
                    }
                }
                let k = choose|k: int| 0 <= k < before.len() && before[k] == self@.nucleus;
                assert(after[k] == self@.nucleus);
            }
        }
    }

    /// connect two somas together using the specified synapse
    ///
    /// The synapse is split. Its terminal goes to the first soma, with the
    /// second as its peer, and its dendrite to the second, with the first as
    /// its peer.
    pub fn connect(&mut self, dendrite: SomaId, terminal: SomaId, synapse: R) -> (r: Result<
        (),
        Error,
    >)
        requires
            old(self).wf(),
        ensures
            final(self).wf(),
            exists|endpoints: (R::Terminal, R::Dendrite)|
                call_ensures(R::synapse, (synapse,), endpoints) && old(self)@.connected(
                    dendrite,
                    terminal,
                    synapse,
                    endpoints,
                    final(self)@,
                    r,
                ),
    {
        let (tx, rx) = synapse.synapse();
        let ghost endpoints = (tx, rx);
        match self.add_terminal((terminal, tx), dendrite, synapse) {
            Ok(()) => {},
            Err(e) => {
                let r = Err(e);
                proof {
                    assert(old(self)@.connected(dendrite, terminal, synapse, endpoints, self@, r));
                }
                return r;
            },
        }
        let r = self.add_dendrite((dendrite, rx), terminal, synapse);
        proof {
            assert(old(self)@.connected(dendrite, terminal, synapse, endpoints, self@, r));
        }
        r
    }

    /// send a dendrite to the specified soma
    pub fn add_dendrite(
        &mut self,
        dendrite: (SomaId, R::Dendrite),
        terminal: SomaId,
        synapse: R,
    ) -> (r: Result<(), Error>)
        requires
            old(self).wf(),
        ensures
            final(self).wf(),
            old(self)@.dendrite_added(dendrite, terminal, synapse, final(self)@, r),
    {
        if !self.contains(terminal) {
            return Err(Error::msg("unable to find terminal"));
        }
        self.outbox.push(
            Delivery { to: terminal, impulse: Impulse::AddDendrite(dendrite.0, synapse, dendrite.1) },
        );
        Ok(())
    }

    /// send a terminal to the specified soma
    pub fn add_terminal(
        &mut self,
        terminal: (SomaId, R::Terminal),
        dendrite: SomaId,
        synapse: R,
    ) -> (r: Result<(), Error>)
        requires
            old(self).wf(),
        ensures
            final(self).wf(),
            old(self)@.terminal_added(terminal, dendrite, synapse, final(self)@, r),
    {
        if !self.contains(dendrite) {
            return Err(Error::msg("unable to find dendrite"));
        }
        self.outbox.push(
            Delivery { to: dendrite, impulse: Impulse::AddTerminal(terminal.0, synapse, terminal.1) },
        );
        Ok(())
    }

    fn start_all(&mut self)
        ensures
            final(self)@ == (OrganelleView {
                outbox: old(self)@.outbox + starts(old(self)@.somas),
                ..old(self)@
            }),
    {
        let mut i: usize = 0;
        proof {
            assert(self@.outbox =~= old(self)@.outbox + starts::<R>(self@.somas.take(0)));
        }
        while i < self.somas.len()
            invariant
                i <= self.somas.len(),
                self@.somas == old(self)@.somas,
                self@.uuid == old(self)@.uuid,
                self@.nucleus == old(self)@.nucleus,
                self@.outbox == old(self)@.outbox + starts::<R>(self@.somas.take(i as int)),
            decreases self.somas.len() - i,
        {
            let id = self.somas[i];
            self.outbox.push(Delivery { to: id, impulse: Impulse::Start(id) });
            proof {
                assert(self@.outbox =~= old(self)@.outbox + starts::<R>(
                    self@.somas.take(i + 1),
                ));
            }
            i += 1;
        }
        proof {
            assert(self@.somas.take(i as int) =~= self@.somas);
        }
    }

    fn probe_all(&mut self, settings: Settings)
        ensures
            final(self)@ == (OrganelleView {
                outbox: old(self)@.outbox + probes(old(self)@.somas, settings),
                ..old(self)@
            }),
    {
        let mut i: usize = 0;
        proof {
            assert(self@.outbox =~= old(self)@.outbox + probes::<R>(
                self@.somas.take(0),
                settings,
            ));
        }
        while i < self.somas.len()
            invariant
                i <= self.somas.len(),
                self@.somas == old(self)@.somas,
                self@.uuid == old(self)@.uuid,
                self@.nucleus == old(self)@.nucleus,
                self@.outbox == old(self)@.outbox + probes::<R>(
                    self@.somas.take(i as int),
                    settings,
                ),
            decreases self.somas.len() - i,
        {
            let id = self.somas[i];
            self.outbox.push(Delivery { to: id, impulse: Impulse::Probe(settings) });
            proof {
                assert(self@.outbox =~= old(self)@.outbox + probes::<R>(
                    self@.somas.take(i + 1),
                    settings,
                ));
            }
            i += 1;
        }
        proof {
            assert(self@.somas.take(i as int) =~= self@.somas);
        }
    }

    /// react to a single impulse
    ///
    /// An endpoint goes to the nucleus. A start is recorded and goes to every
    /// child, each under its own identifier. A probe goes to every child.
    /// `Stop` and `Error` go upward as they are. An organelle is started once.
    pub fn update(&mut self, imp: Impulse<R>) -> (reaction: Reaction<R>)
        requires
            old(self).wf(),
            imp is Start ==> old(self)@.uuid is None,
        ensures
            final(self).wf(),
            (final(self)@, reaction) == old(self)@.updated(imp),
    {
        match imp {
            Impulse::AddDendrite(uuid, synapse, dendrite) => {
                self.outbox.push(
                    Delivery {
                        to: self.main,
                        impulse: Impulse::AddDendrite(uuid, synapse, dendrite),
                    },
                );
                Reaction::Routed
            },
            Impulse::AddTerminal(uuid, synapse, terminal) => {
                self.outbox.push(
                    Delivery {
                        to: self.main,
                        impulse: Impulse::AddTerminal(uuid, synapse, terminal),
                    },
                );
                Reaction::Routed
            },
            Impulse::Start(uuid) => {
                self.uuid = Some(uuid);
                self.start_all();
                Reaction::Piped
            },
            Impulse::Probe(settings) => {
                self.probe_all(settings);
                Reaction::Gather
            },
            Impulse::Stop => Reaction::Upward(Impulse::Stop),
            Impulse::Error(e) => Reaction::Upward(Impulse::Error(e)),
        }
    }

    /// take the queued deliveries, oldest first, to carry them to the inboxes
    /// of the children
    pub fn take_deliveries(&mut self) -> (deliveries: Vec<Delivery<R>>)
        ensures
            deliveries@ == old(self)@.outbox,
            final(self)@ == (OrganelleView { outbox: Seq::empty(), ..old(self)@ }),
    {
        let mut deliveries: Vec<Delivery<R>> = Vec::new();
        std::mem::swap(&mut self.outbox, &mut deliveries);
        deliveries
    }
}

/// The replies of the children other than the nucleus, in the order of the
/// replies.
pub open spec fn others(replies: Seq<(SomaId, SomaData)>, nucleus: SomaId) -> Seq<SomaData>
    decreases replies.len(),
{
    if replies.len() == 0 {
        Seq::empty()
    } else if replies.last().0 == nucleus {
        others(replies.drop_last(), nucleus)
    } else {
        others(replies.drop_last(), nucleus).push(replies.last().1)
    }
}

/// The reply of the nucleus: the last one under its identifier.
pub open spec fn nucleus_reply(replies: Seq<(SomaId, SomaData)>, nucleus: SomaId) -> Option<
    SomaData,
>
    decreases replies.len(),
{
    if replies.len() == 0 {
        None
    } else if replies.last().0 == nucleus {
        Some(replies.last().1)
    } else {
        nucleus_reply(replies.drop_last(), nucleus)
    }
}

impl<R: Synapse> Organelle<R> {
    /// whether the nucleus is among those that replied
    pub fn has_nucleus_reply(&self, replies: &Vec<(SomaId, SomaData)>) -> (found: bool)
        ensures
            found == nucleus_reply(replies@, self@.nucleus) is Some,
    {
        let mut found = false;
        let mut i: usize = 0;
        while i < replies.len()
            invariant
                i <= replies.len(),
                found == nucleus_reply(replies@.take(i as int), self.main) is Some,
            decreases replies.len() - i,
        {
            proof {
                assert(replies@.take(i + 1).drop_last() =~= replies@.take(i as int));
            }
            if replies[i].0 == self.main {
                found = true;
            }
            i += 1;
        }
        proof {
            assert(replies@.take(i as int) =~= replies@);
        }
        found
    }

    /// probe the internal structure of this soma
    ///
    /// The replies of the children are assembled into the description of the
    /// organelle, under the given name: the nucleus apart, the others in the
    /// order of their replies.
    pub fn assemble(&self, replies: Vec<(SomaId, SomaData)>, name: String) -> (data: SomaData)
        requires
            self@.uuid is Some,
            nucleus_reply(replies@, self@.nucleus) is Some,
        ensures
            data matches SomaData::Organelle { nucleus, somas, uuid, name: n } && n == name
                && Some(uuid) == self@.uuid && Some(*nucleus) == nucleus_reply(
                replies@,
                self@.nucleus,
            ) && somas@ == others(replies@, self@.nucleus),
    {
        let ghost all = replies@;
        let mut replies = replies;
        let mut nucleus: Option<SomaData> = None;
        let mut somas: Vec<SomaData> = Vec::new();
        let mut taken: usize = 0;
        let total = replies.len();
        while taken < total
            invariant
                taken <= total,
                total == all.len(),
                replies@ == all.subrange(taken as int, total as int),
                nucleus == nucleus_reply(all.take(taken as int), self.main),
                somas@ == others(all.take(taken as int), self.main),
            decreases total - taken,
        {
            proof {
                assert(all.take(taken + 1).drop_last() =~= all.take(taken as int));
                assert(replies@[0] == all[taken as int]);
            }
            let (uuid, data) = replies.remove(0);
            proof {
                assert(replies@ =~= all.subrange(taken + 1, total as int));
            }
            if uuid == self.main {
                nucleus = Some(data);
            } else {
                somas.push(data);
            }
            taken += 1;
        }
        proof {
            assert(all.take(taken as int) =~= all);
        }
        SomaData::Organelle {
            nucleus: Box::new(nucleus.unwrap()),
            somas,
            uuid: self.uuid.unwrap(),
            name,
        }
    }
}

/// A connection between two somas, with the endpoints that its synapse was
/// split into.
pub struct Connection<R: Synapse> {
    /// the soma that gets the terminal
    pub producer: SomaId,
    /// the soma that gets the dendrite
    pub consumer: SomaId,
    /// the kind of the connection
    pub synapse: R,
    /// the send side
    pub terminal: R::Terminal,
    /// the receive side
    pub dendrite: R::Dendrite,
}

impl<R: Synapse> Connection<R> {
    /// The two deliveries that make the connection: the terminal to the
    /// producer, then the dendrite to the consumer.
    pub open spec fn deliveries(self) -> Seq<Delivery<R>> {
        seq![
            Delivery {
                to: self.producer,
                impulse: Impulse::AddTerminal(self.consumer, self.synapse, self.terminal),
            },
            Delivery {
                to: self.consumer,
                impulse: Impulse::AddDendrite(self.producer, self.synapse, self.dendrite),
            },
        ]
    }

    /// What the soma `id` observes of the connection.
    pub open spec fn seen_by(self, id: SomaId) -> Seq<Impulse<R>> {
        (if self.producer == id {
            seq![Impulse::AddTerminal(self.consumer, self.synapse, self.terminal)]
        } else {
            Seq::empty()
        }) + (if self.consumer == id {
            seq![Impulse::AddDendrite(self.producer, self.synapse, self.dendrite)]
        } else {
            Seq::empty()
        })
    }
}

/// The deliveries that make the given connections, in order.
pub open spec fn wired<R: Synapse>(connections: Seq<Connection<R>>) -> Seq<Delivery<R>>
    decreases connections.len(),
{
    if connections.len() == 0 {
        Seq::empty()
    } else {
        wired(connections.drop_last()) + connections.last().deliveries()
    }
}

/// What the soma `id` observes of the given connections, in order.
pub open spec fn endpoints<R: Synapse>(connections: Seq<Connection<R>>, id: SomaId) -> Seq<
    Impulse<R>,
>
    decreases connections.len(),
{
    if connections.len() == 0 {
        Seq::empty()
    } else {
        endpoints(connections.drop_last(), id) + connections.last().seen_by(id)
    }
}

/// Ordering: what a queue brings to a child is what its older part brings,
/// followed by what its newer part brings. So the impulses reach a child in
/// the order in which they were sent.
pub proof fn lemma_inbox_keeps_order<R: Synapse>(
    older: Seq<Delivery<R>>,
    newer: Seq<Delivery<R>>,
    id: SomaId,
)
    ensures
        inbox(older + newer, id) == inbox(older, id) + inbox(newer, id),
    decreases newer.len(),
{
    if newer.len() == 0 {
        assert(older + newer =~= older);
        assert(inbox(older, id) + inbox(newer, id) =~= inbox(older, id));
    } else {
        lemma_inbox_keeps_order(older, newer.drop_last(), id);
        assert((older + newer).drop_last() =~= older + newer.drop_last());
        assert((older + newer).last() == newer.last());
        if newer.last().to == id {
            assert(inbox(older, id) + inbox(newer.drop_last(), id).push(newer.last().impulse)
                =~= (inbox(older, id) + inbox(newer.drop_last(), id)).push(newer.last().impulse));
        }
    }
}

/// A start reaches each child once, under its own identifier, and reaches no
/// one else.
pub proof fn lemma_start_once<R: Synapse>(somas: Seq<SomaId>, id: SomaId)
    requires
        somas.no_duplicates(),
    ensures
        inbox(starts::<R>(somas), id) == if somas.contains(id) {
            seq![Impulse::<R>::Start(id)]
        } else {
            Seq::empty()
        },
    decreases somas.len(),
{
    let queue = starts::<R>(somas);
    if somas.len() == 0 {
        assert(!somas.contains(id));
    } else {
        let front = somas.drop_last();
        assert(queue.drop_last() =~= starts::<R>(front));
        assert forall|i: int, j: int|
            0 <= i < front.len() && 0 <= j < front.len() && i != j implies front[i]
            != front[j] by {
            assert(front[i] == somas[i] && front[j] == somas[j]);
        }
        lemma_start_once::<R>(front, id);
        if somas.last() == id {
            if front.contains(id) {
                let k = choose|k: int| 0 <= k < front.len() && front[k] == id;
                assert(somas[k] == id);
                assert(false);
            }
            assert(somas[somas.len() - 1] == id);
            assert(somas.contains(id));
            assert(Seq::<Impulse<R>>::empty().push(Impulse::<R>::Start(id)) =~= seq![
                Impulse::<R>::Start(id),
            ]);
        } else {
            if front.contains(id) {
                let k = choose|k: int| 0 <= k < front.len() && front[k] == id;
                assert(somas[k] == id);
            }
            if somas.contains(id) {
                let k = choose|k: int| 0 <= k < somas.len() && somas[k] == id;
                assert(front[k] == id);
            }
        }
    }
}

/// The deliveries of connections bring to a soma what it observes of them.
pub proof fn lemma_inbox_of_wired<R: Synapse>(connections: Seq<Connection<R>>, id: SomaId)
    ensures
        inbox(wired(connections), id) == endpoints(connections, id),
    decreases connections.len(),
{
    if connections.len() > 0 {
        let last = connections.last();
        lemma_inbox_of_wired(connections.drop_last(), id);
        lemma_inbox_keeps_order(wired(connections.drop_last()), last.deliveries(), id);
        let pair = last.deliveries();
        let first = pair.drop_last();
        assert(first.len() == 1 && first.last() == pair[0]);
        assert(first.drop_last().len() == 0);
        assert(inbox(first.drop_last(), id) =~= Seq::<Impulse<R>>::empty());
        assert(inbox(first, id) =~= if last.producer == id {
            seq![pair[0].impulse]
        } else {
            Seq::empty()
        });
        assert(pair.last() == pair[1]);
        assert(inbox(pair, id) =~= last.seen_by(id));
    }
}

/// Connections made before the start reach a soma before its start. What a
/// child observes of connections followed by a start is, in order: one
/// terminal for each connection that it produces for and one dendrite for each
/// that it consumes from, each with the peer, the kind and the endpoint of
/// that connection, and then its one start.
pub proof fn lemma_endpoints_before_start<R: Synapse>(
    somas: Seq<SomaId>,
    connections: Seq<Connection<R>>,
    id: SomaId,
)
    requires
        somas.no_duplicates(),
        somas.contains(id),
    ensures
        inbox(wired(connections) + starts::<R>(somas), id) == endpoints(connections, id).push(
            Impulse::Start(id),
        ),
{
    lemma_inbox_keeps_order(wired(connections), starts::<R>(somas), id);
    lemma_inbox_of_wired(connections, id);
    lemma_start_once::<R>(somas, id);
    assert(endpoints(connections, id) + seq![Impulse::<R>::Start(id)] =~= endpoints(
        connections,
        id,
    ).push(Impulse::Start(id)));
}

/// The nucleus is the surface of an organelle: an endpoint that reaches the
/// organelle from outside reaches the nucleus next, as it is, and reaches no
/// other child.
pub proof fn lemma_nucleus_is_the_surface<R: Synapse>(
    organelle: OrganelleView<R>,
    imp: Impulse<R>,
    id: SomaId,
)
    requires
        imp is AddDendrite || imp is AddTerminal,
    ensures
        inbox(organelle.updated(imp).0.outbox, id) == if id == organelle.nucleus {
            inbox(organelle.outbox, id).push(imp)
        } else {
            inbox(organelle.outbox, id)
        },
{
    let after = organelle.updated(imp).0.outbox;
    assert(after.drop_last() =~= organelle.outbox);
    assert(after.last() == Delivery { to: organelle.nucleus, impulse: imp });
}

/// The state after impulses with one more at their end.
proof fn lemma_after_one_more<R: Synapse>(state: Lifecycle, imps: Seq<Impulse<R>>, imp: Impulse<R>)
    ensures
        state.after_all(imps.push(imp)) == match state.after_all(imps) {
            Some(reached) => reached.after(imp),
            None => None,
        },
{
    assert(imps.push(imp).drop_last() =~= imps);
}

/// What a soma observes of connections leaves it configuring.
pub proof fn lemma_endpoints_configure<R: Synapse>(connections: Seq<Connection<R>>, id: SomaId)
    ensures
        Lifecycle::Configuring.after_all(endpoints(connections, id)) == Some(
            Lifecycle::Configuring,
        ),
    decreases connections.len(),
{
    if connections.len() > 0 {
        let front = endpoints(connections.drop_last(), id);
        let last = connections.last();
        lemma_endpoints_configure(connections.drop_last(), id);
        let terminal = Impulse::AddTerminal(last.consumer, last.synapse, last.terminal);
        let dendrite = Impulse::AddDendrite(last.producer, last.synapse, last.dendrite);
        lemma_after_one_more(Lifecycle::Configuring, front, terminal);
        lemma_after_one_more(Lifecycle::Configuring, front, dendrite);
        lemma_after_one_more(Lifecycle::Configuring, front.push(terminal), dendrite);
        if last.producer == id && last.consumer == id {
            assert(front + last.seen_by(id) =~= front.push(terminal).push(dendrite));
        } else if last.producer == id {
            assert(front + last.seen_by(id) =~= front.push(terminal));
        } else if last.consumer == id {
            assert(front + last.seen_by(id) =~= front.push(dendrite));
        } else {
            assert(front + last.seen_by(id) =~= front);
        }
    }
}

/// Every child of an organelle is configured and then started: connections
/// followed by a start bring it its endpoints while it configures, and the
/// start last, which makes it run.
pub proof fn lemma_configured_then_started<R: Synapse>(
    somas: Seq<SomaId>,
    connections: Seq<Connection<R>>,
    id: SomaId,
)
    requires
        somas.no_duplicates(),
        somas.contains(id),
    ensures
        Lifecycle::Configuring.after_all(inbox(wired(connections) + starts::<R>(somas), id))
            == Some(Lifecycle::Running),
{
    lemma_endpoints_before_start(somas, connections, id);
    lemma_endpoints_configure(connections, id);
    lemma_after_one_more(Lifecycle::Configuring, endpoints(connections, id), Impulse::Start(id));
}

/// An organelle passes the endpoints that it is given to its nucleus, in
/// order, and to no other child; its children stay as they are.
pub proof fn lemma_endpoints_reach_the_nucleus<R: Synapse>(
    organelle: OrganelleView<R>,
    given: Seq<Impulse<R>>,
    id: SomaId,
)
    requires
        forall|i: int|
            0 <= i < given.len() ==> (#[trigger] given[i]) is AddDendrite || given[i] is AddTerminal,
    ensures
        organelle.fed(given).somas == organelle.somas,
        organelle.fed(given).nucleus == organelle.nucleus,
        organelle.fed(given).uuid == organelle.uuid,
        inbox(organelle.fed(given).outbox, id) == if id == organelle.nucleus {
            inbox(organelle.outbox, id) + given
        } else {
            inbox(organelle.outbox, id)
        },
    decreases given.len(),
{
    if given.len() == 0 {
        assert(inbox(organelle.outbox, id) + given =~= inbox(organelle.outbox, id));
    } else {
        let front = given.drop_last();
        assert forall|i: int| 0 <= i < front.len() implies (#[trigger] front[i]) is AddDendrite
            || front[i] is AddTerminal by {
            assert(front[i] == given[i]);
        }
        lemma_endpoints_reach_the_nucleus(organelle, front, id);
        assert(given[given.len() - 1] is AddDendrite || given[given.len() - 1] is AddTerminal);
        lemma_nucleus_is_the_surface(organelle.fed(front), given.last(), id);
        assert((inbox(organelle.outbox, id) + front).push(given.last()) =~= inbox(
            organelle.outbox,
            id,
        ) + given);
    }
}

/// Nesting: of endpoints followed by a start, the nucleus of an organelle
/// observes the endpoints as they are and in order, after what was sent to it
/// inside the organelle, and then its own start; every other child observes
/// its own start and nothing of the endpoints. So each soma observes what it
/// would observe if the nucleus stood in the place of the organelle, with the
/// identifier of the nucleus in the place of that of the organelle.
pub proof fn lemma_nested_organelle<R: Synapse>(
    organelle: OrganelleView<R>,
    given: Seq<Impulse<R>>,
    uuid: SomaId,
    id: SomaId,
)
    requires
        organelle.somas.no_duplicates(),
        organelle.somas.contains(id),
        forall|i: int|
            0 <= i < given.len() ==> (#[trigger] given[i]) is AddDendrite || given[i] is AddTerminal,
    ensures
        organelle.fed(given.push(Impulse::Start(uuid))).uuid == Some(uuid),
        inbox(organelle.fed(given.push(Impulse::Start(uuid))).outbox, id) == (if id
            == organelle.nucleus {
            inbox(organelle.outbox, id) + given
        } else {
            inbox(organelle.outbox, id)
        }).push(Impulse::Start(id)),
{
    let all = given.push(Impulse::Start(uuid));
    assert(all.drop_last() =~= given);
    lemma_endpoints_reach_the_nucleus(organelle, given, id);
    let before = organelle.fed(given);
    lemma_inbox_keeps_order(before.outbox, starts::<R>(before.somas), id);
    lemma_start_once::<R>(before.somas, id);
    assert(inbox(before.outbox, id) + seq![Impulse::<R>::Start(id)] =~= inbox(
        before.outbox,
        id,
    ).push(Impulse::Start(id)));
}

} // verus!
