use std::cell::{Cell, RefCell};
use std::collections::{HashMap, VecDeque};
use std::rc::Rc;
use std::sync::mpsc::{channel, Receiver, Sender};

use organelle::axon::{Axon, Constraint, Relay};
use organelle::organelle::{Organelle, Reaction};
use organelle::probe::{ConstraintData, Settings, SomaData};
use organelle::soma::{Driver, Lifecycle};
use organelle::{Error, ErrorKind, Impulse, SomaId, Synapse};

// The scheduler of these tests. It has one thread and no clock: a control
// channel is a queue, a soma is updated when an impulse is taken from its
// queue, and `poll` stands for one turn of the work that a soma has spawned.

type Control<R> = Rc<RefCell<VecDeque<Impulse<R>>>>;

fn control<R: Synapse>() -> Control<R> {
    Rc::new(RefCell::new(VecDeque::new()))
}

trait Soma: Sized {
    type Synapse: Synapse;

    fn update(
        self,
        imp: Impulse<Self::Synapse>,
        control: &Control<Self::Synapse>,
    ) -> Result<Self, Error>;

    fn poll(&mut self) {}

    fn describe(&self) -> SomaData {
        SomaData::Soma {
            synapse: organelle::probe::SynapseData("synapse".to_string()),
            name: "soma".to_string(),
        }
    }
}

struct Guarded<T: Soma> {
    axon: Axon<T::Synapse>,
    soma: T,
    name: &'static str,
}

impl<T: Soma> Guarded<T> {
    fn new(
        name: &'static str,
        soma: T,
        dendrites: Vec<Constraint<T::Synapse>>,
        terminals: Vec<Constraint<T::Synapse>>,
    ) -> Self {
        Guarded { axon: Axon::new(dendrites, terminals), soma, name }
    }
}

impl<T: Soma> Soma for Guarded<T> {
    type Synapse = T::Synapse;

    fn update(
        mut self,
        imp: Impulse<T::Synapse>,
        control: &Control<T::Synapse>,
    ) -> Result<Self, Error> {
        match self.axon.update(imp)? {
            Relay::Forward(imp) => {
                let soma = self.soma.update(imp, control)?;
                Ok(Guarded { axon: self.axon, soma, name: self.name })
            },
            Relay::Describe(_) => Ok(self),
        }
    }

    fn poll(&mut self) {
        self.soma.poll();
    }

    fn describe(&self) -> SomaData {
        assert!(self.axon.validated());
        self.axon.probe(self.name.to_string())
    }
}

trait Child<R: Synapse> {
    fn deliver(&mut self, imp: Impulse<R>, main: &Control<R>);
    fn poll(&mut self, main: &Control<R>);
    fn describe(&self) -> Option<SomaData>;
    fn starts(&self) -> usize;
}

struct Adapter<T: Soma> {
    soma: Option<T>,
    inner: Control<T::Synapse>,
    starts: usize,
    lifecycle: Lifecycle,
}

fn adapter<T: Soma>(soma: T) -> Adapter<T> {
    Adapter { soma: Some(soma), inner: control(), starts: 0, lifecycle: Lifecycle::Configuring }
}

impl<R, T> Child<R> for Adapter<T>
where
    R: Synapse + Into<T::Synapse>,
    R::Dendrite: Into<<T::Synapse as Synapse>::Dendrite>,
    R::Terminal: Into<<T::Synapse as Synapse>::Terminal>,
    T: Soma,
    T::Synapse: Into<R>,
    <T::Synapse as Synapse>::Dendrite: Into<R::Dendrite>,
    <T::Synapse as Synapse>::Terminal: Into<R::Terminal>,
{
    fn deliver(&mut self, imp: Impulse<R>, main: &Control<R>) {
        assert!(self.lifecycle.deliver(&imp));
        let imp = match imp {
            Impulse::Start(uuid) => {
                self.starts += 1;
                Impulse::Start(uuid)
            },
            other => Impulse::<T::Synapse>::convert_from(other),
        };
        if let Some(soma) = self.soma.take() {
            match soma.update(imp, &self.inner) {
                Ok(soma) => self.soma = Some(soma),
                Err(e) => main.borrow_mut().push_back(Impulse::Error(e)),
            }
        }
    }

    fn poll(&mut self, main: &Control<R>) {
        if let Some(soma) = self.soma.as_mut() {
            soma.poll();
        }
        loop {
            let imp = self.inner.borrow_mut().pop_front();
            match imp {
                Some(imp) => main.borrow_mut().push_back(Impulse::<R>::convert_from(imp)),
                None => break,
            }
        }
    }

    fn describe(&self) -> Option<SomaData> {
        self.soma.as_ref().map(|soma| soma.describe())
    }

    fn starts(&self) -> usize {
        self.starts
    }
}

struct Hosted<R: Synapse> {
    organelle: Organelle<R>,
    children: HashMap<SomaId, Box<dyn Child<R>>>,
    main: Control<R>,
    outer: Option<Control<R>>,
    name: &'static str,
}

impl<R: Synapse + 'static> Hosted<R> {
    fn new<T>(name: &'static str, nucleus: T) -> Self
    where
        T: Soma + 'static,
        R: Into<T::Synapse>,
        R::Dendrite: Into<<T::Synapse as Synapse>::Dendrite>,
        R::Terminal: Into<<T::Synapse as Synapse>::Terminal>,
        T::Synapse: Into<R>,
        <T::Synapse as Synapse>::Dendrite: Into<R::Dendrite>,
        <T::Synapse as Synapse>::Terminal: Into<R::Terminal>,
    {
        let organelle = Organelle::new();
        let mut children: HashMap<SomaId, Box<dyn Child<R>>> = HashMap::new();
        children.insert(
            organelle.nucleus(),
            Box::new(adapter(nucleus)),
        );
        Hosted { organelle, children, main: control(), outer: None, name }
    }

    fn nucleus(&self) -> SomaId {
        self.organelle.nucleus()
    }

    fn add_soma<T>(&mut self, soma: T) -> SomaId
    where
        T: Soma + 'static,
        R: Into<T::Synapse>,
        R::Dendrite: Into<<T::Synapse as Synapse>::Dendrite>,
        R::Terminal: Into<<T::Synapse as Synapse>::Terminal>,
        T::Synapse: Into<R>,
        <T::Synapse as Synapse>::Dendrite: Into<R::Dendrite>,
        <T::Synapse as Synapse>::Terminal: Into<R::Terminal>,
    {
        let uuid = self.organelle.add_soma();
        self.children.insert(uuid, Box::new(adapter(soma)));
        uuid
    }

    fn connect(&mut self, dendrite: SomaId, terminal: SomaId, synapse: R) -> Result<(), Error> {
        self.organelle.connect(dendrite, terminal, synapse)
    }

    fn carry(&mut self) {
        for delivery in self.organelle.take_deliveries() {
            if let Some(child) = self.children.get_mut(&delivery.to) {
                child.deliver(delivery.impulse, &self.main);
            }
        }
    }
}

impl<R: Synapse + 'static> Soma for Hosted<R> {
    type Synapse = R;

    fn update(mut self, imp: Impulse<R>, control: &Control<R>) -> Result<Self, Error> {
        if let Impulse::Start(_) = imp {
            assert!(self.organelle.uuid().is_none());
            self.outer = Some(control.clone());
        }
        match self.organelle.update(imp) {
            Reaction::Upward(imp) => control.borrow_mut().push_back(imp),
            Reaction::Routed | Reaction::Piped | Reaction::Gather => {},
        }
        self.carry();
        Ok(self)
    }

    fn poll(&mut self) {
        self.carry();
        for child in self.children.values_mut() {
            child.poll(&self.main);
        }
        if let Some(outer) = &self.outer {
            loop {
                let imp = self.main.borrow_mut().pop_front();
                match imp {
                    Some(imp) => outer.borrow_mut().push_back(imp),
                    None => break,
                }
            }
        }
    }

    fn describe(&self) -> SomaData {
        let mut replies = vec![];
        for (uuid, child) in &self.children {
            if let Some(data) = child.describe() {
                replies.push((*uuid, data));
            }
        }
        assert!(self.organelle.uuid().is_some());
        assert!(self.organelle.has_nucleus_reply(&replies));
        self.organelle.assemble(replies, self.name.to_string())
    }
}

fn run_and_keep<T: Soma>(root: T) -> (Result<(), Error>, Option<T>) {
    let control = control::<T::Synapse>();
    let (mut driver, start) = Driver::new::<T::Synapse>();
    control.borrow_mut().push_back(start);
    let mut root = Some(root);
    for _ in 0..1000 {
        loop {
            let imp = control.borrow_mut().pop_front();
            let imp = match imp {
                Some(imp) => imp,
                None => break,
            };
            if let Some(imp) = driver.receive(imp) {
                match root.take().unwrap().update(imp, &control) {
                    Ok(soma) => {
                        root = Some(soma);
                        driver.updated(Ok(()));
                    },
                    Err(e) => driver.updated(Err(e)),
                }
            }
            if let Driver::Finished(_) = driver {
                break;
            }
        }
        if let Driver::Finished(_) = driver {
            break;
        }
        root.as_mut().unwrap().poll();
    }
    driver.closed();
    (driver.result().unwrap(), root)
}

fn run<T: Soma>(root: T) -> Result<(), Error> {
    run_and_keep(root).0
}

// The kinds of the tests.

#[derive(Debug, Copy, Clone, Hash, PartialEq, Eq)]
enum CounterSynapse {
    Increment,
}

#[derive(Debug)]
enum CounterTerminal {
    Incrementer(Sender<()>),
}

#[derive(Debug)]
enum CounterDendrite {
    Counter(Receiver<()>),
}

impl Synapse for CounterSynapse {
    type Terminal = CounterTerminal;
    type Dendrite = CounterDendrite;

    fn synapse(self) -> (Self::Terminal, Self::Dendrite) {
        match self {
            CounterSynapse::Increment => {
                let (tx, rx) = channel();

                (CounterTerminal::Incrementer(tx), CounterDendrite::Counter(rx))
            },
        }
    }
}

#[derive(Debug, Copy, Clone, Hash, PartialEq, Eq)]
enum IncrementerSynapse {
    Increment,
}

#[derive(Debug)]
enum IncrementerTerminal {
    Incrementer(Sender<()>),
}

#[derive(Debug)]
enum IncrementerDendrite {
    Counter(Receiver<()>),
}

impl Synapse for IncrementerSynapse {
    type Terminal = IncrementerTerminal;
    type Dendrite = IncrementerDendrite;

    fn synapse(self) -> (Self::Terminal, Self::Dendrite) {
        match self {
            IncrementerSynapse::Increment => {
                let (tx, rx) = channel();

                (IncrementerTerminal::Incrementer(tx), IncrementerDendrite::Counter(rx))
            },
        }
    }
}

impl From<IncrementerSynapse> for CounterSynapse {
    fn from(synapse: IncrementerSynapse) -> Self {
        match synapse {
            IncrementerSynapse::Increment => CounterSynapse::Increment,
        }
    }
}

impl From<CounterSynapse> for IncrementerSynapse {
    fn from(synapse: CounterSynapse) -> Self {
        match synapse {
            CounterSynapse::Increment => IncrementerSynapse::Increment,
        }
    }
}

impl From<IncrementerTerminal> for CounterTerminal {
    fn from(synapse: IncrementerTerminal) -> Self {
        match synapse {
            IncrementerTerminal::Incrementer(tx) => CounterTerminal::Incrementer(tx),
        }
    }
}

impl From<CounterTerminal> for IncrementerTerminal {
    fn from(synapse: CounterTerminal) -> Self {
        match synapse {
            CounterTerminal::Incrementer(tx) => IncrementerTerminal::Incrementer(tx),
        }
    }
}

impl From<IncrementerDendrite> for CounterDendrite {
    fn from(synapse: IncrementerDendrite) -> Self {
        match synapse {
            IncrementerDendrite::Counter(rx) => CounterDendrite::Counter(rx),
        }
    }
}

impl From<CounterDendrite> for IncrementerDendrite {
    fn from(synapse: CounterDendrite) -> Self {
        match synapse {
            CounterDendrite::Counter(rx) => IncrementerDendrite::Counter(rx),
        }
    }
}

// The somas of the tests.

struct Incrementer {
    tx: Option<Sender<()>>,
    running: bool,
}

impl Incrementer {
    fn axon() -> Guarded<Self> {
        Guarded::new(
            "incrementer",
            Incrementer { tx: None, running: false },
            vec![],
            vec![Constraint::One(IncrementerSynapse::Increment)],
        )
    }
}

impl Soma for Incrementer {
    type Synapse = IncrementerSynapse;

    fn update(
        self,
        imp: Impulse<IncrementerSynapse>,
        _control: &Control<IncrementerSynapse>,
    ) -> Result<Self, Error> {
        match imp {
            Impulse::AddTerminal(
                _,
                IncrementerSynapse::Increment,
                IncrementerTerminal::Incrementer(tx),
            ) => Ok(Incrementer { tx: Some(tx), running: self.running }),
            Impulse::Start(_) => Ok(Incrementer { tx: self.tx, running: true }),

            _ => Err(Error::msg("unexpected impulse")),
        }
    }

    fn poll(&mut self) {
        if self.running {
            if let Some(tx) = &self.tx {
                let _ = tx.send(());
            }
        }
    }
}

struct Counter {
    rx: Option<Receiver<()>>,
    stopper: Option<Control<CounterSynapse>>,
    seen: Rc<Cell<u32>>,
    updates_after_stop: Rc<Cell<u32>>,
}

impl Counter {
    fn new(seen: &Rc<Cell<u32>>) -> Self {
        Counter {
            rx: None,
            stopper: None,
            seen: seen.clone(),
            updates_after_stop: Rc::new(Cell::new(0)),
        }
    }

    fn axon(seen: &Rc<Cell<u32>>) -> Guarded<Self> {
        Guarded::new(
            "counter",
            Counter::new(seen),
            vec![Constraint::One(CounterSynapse::Increment)],
            vec![],
        )
    }
}

impl Soma for Counter {
    type Synapse = CounterSynapse;

    fn update(
        mut self,
        imp: Impulse<CounterSynapse>,
        control: &Control<CounterSynapse>,
    ) -> Result<Self, Error> {
        match imp {
            Impulse::AddDendrite(
                _,
                CounterSynapse::Increment,
                CounterDendrite::Counter(rx),
            ) => {
                self.rx = Some(rx);
                Ok(self)
            },
            Impulse::Start(_) => {
                self.stopper = Some(control.clone());
                Ok(self)
            },

            _ => Err(Error::msg("unexpected impulse")),
        }
    }

    fn poll(&mut self) {
        if let (Some(rx), Some(stopper)) = (&self.rx, &self.stopper) {
            while self.seen.get() < 5 {
                match rx.try_recv() {
                    Ok(()) => {
                        self.seen.set(self.seen.get() + 1);
                        if self.seen.get() == 5 {
                            stopper.borrow_mut().push_back(Impulse::Stop);
                        }
                    },
                    Err(_) => break,
                }
            }
        }
    }
}

struct Forwarder {
    rx: Option<Receiver<()>>,
    tx: Option<Sender<()>>,
    running: bool,
    forwarded: Rc<Cell<u32>>,
}

impl Forwarder {
    fn axon(forwarded: &Rc<Cell<u32>>) -> Guarded<Self> {
        Guarded::new(
            "forwarder",
            Forwarder { rx: None, tx: None, running: false, forwarded: forwarded.clone() },
            vec![Constraint::One(CounterSynapse::Increment)],
            vec![Constraint::One(CounterSynapse::Increment)],
        )
    }
}

impl Soma for Forwarder {
    type Synapse = CounterSynapse;

    fn update(
        mut self,
        imp: Impulse<CounterSynapse>,
        _control: &Control<CounterSynapse>,
    ) -> Result<Self, Error> {
        match imp {
            Impulse::AddDendrite(_, CounterSynapse::Increment, CounterDendrite::Counter(rx)) => {
                self.rx = Some(rx);
                Ok(self)
            },
            Impulse::AddTerminal(
                _,
                CounterSynapse::Increment,
                CounterTerminal::Incrementer(tx),
            ) => {
                self.tx = Some(tx);
                Ok(self)
            },
            Impulse::Start(_) => {
                self.running = true;
                Ok(self)
            },
            _ => Err(Error::msg("unexpected impulse")),
        }
    }

    fn poll(&mut self) {
        if let (true, Some(rx), Some(tx)) = (self.running, &self.rx, &self.tx) {
            while let Ok(()) = rx.try_recv() {
                self.forwarded.set(self.forwarded.get() + 1);
                let _ = tx.send(());
            }
        }
    }
}

#[test]
fn incrementer_test_organelle() {
    let seen = Rc::new(Cell::new(0));
    let mut organelle = Hosted::new("organelle", Incrementer::axon());

    let incrementer = organelle.nucleus();
    let counter = organelle.add_soma(Counter::axon(&seen));

    organelle
        .connect(incrementer, counter, IncrementerSynapse::Increment)
        .unwrap();

    run(organelle).unwrap();
    assert_eq!(seen.get(), 5);
}

#[test]
fn forwarder_chain_counts_five_ticks() {
    let seen = Rc::new(Cell::new(0));
    let forwarded = Rc::new(Cell::new(0));
    let mut organelle = Hosted::new("organelle", Incrementer::axon());

    let incrementer = organelle.nucleus();
    let forwarder = organelle.add_soma(Forwarder::axon(&forwarded));
    let counter = organelle.add_soma(Counter::axon(&seen));

    organelle.connect(incrementer, forwarder, IncrementerSynapse::Increment).unwrap();
    organelle.connect(forwarder, counter, IncrementerSynapse::Increment).unwrap();

    run(organelle).unwrap();
    assert_eq!(seen.get(), 5);
    assert!(forwarded.get() >= 5);
}

#[test]
fn nested_organelle_counts_five_ticks() {
    let seen = Rc::new(Cell::new(0));
    let forwarded = Rc::new(Cell::new(0));

    let mut inner: Hosted<CounterSynapse> = Hosted::new("inner", Forwarder::axon(&forwarded));
    let forwarder = inner.nucleus();
    let counter = inner.add_soma(Counter::axon(&seen));
    inner.connect(forwarder, counter, CounterSynapse::Increment).unwrap();

    let mut outer = Hosted::new("outer", Incrementer::axon());
    let incrementer = outer.nucleus();
    let nested = outer.add_soma(inner);
    outer.connect(incrementer, nested, IncrementerSynapse::Increment).unwrap();

    run(outer).unwrap();
    assert_eq!(seen.get(), 5);
    assert!(forwarded.get() >= 5);
}

#[test]
fn start_is_observed_once_by_every_soma() {
    let seen = Rc::new(Cell::new(0));
    let mut organelle = Hosted::new("organelle", Incrementer::axon());
    let incrementer = organelle.nucleus();
    let counter = organelle.add_soma(Counter::axon(&seen));
    organelle.connect(incrementer, counter, IncrementerSynapse::Increment).unwrap();

    let (result, organelle) = run_and_keep(organelle);
    result.unwrap();
    let organelle = organelle.unwrap();
    assert_eq!(organelle.children.len(), 2);
    for child in organelle.children.values() {
        assert_eq!(child.starts(), 1);
    }
}

// A soma that gives one thing at its start, and a soma that stops the loop
// when it is given something.

#[derive(Debug, Copy, Clone, Hash, PartialEq, Eq)]
enum GiveSynapse {
    GiveSomething,
}

#[derive(Debug)]
enum GiveTerminal {
    Giver(Sender<()>),
}

#[derive(Debug)]
enum GiveDendrite {
    Taker(Receiver<()>),
}

impl Synapse for GiveSynapse {
    type Terminal = GiveTerminal;
    type Dendrite = GiveDendrite;

    fn synapse(self) -> (Self::Terminal, Self::Dendrite) {
        match self {
            GiveSynapse::GiveSomething => {
                let (tx, rx) = channel();

                (GiveTerminal::Giver(tx), GiveDendrite::Taker(rx))
            },
        }
    }
}

struct GiverSoma {
    tx: Option<Sender<()>>,
}

impl GiverSoma {
    fn axon() -> Guarded<Self> {
        Guarded::new(
            "giver",
            GiverSoma { tx: None },
            vec![],
            vec![Constraint::One(GiveSynapse::GiveSomething)],
        )
    }
}

impl Soma for GiverSoma {
    type Synapse = GiveSynapse;

    fn update(self, imp: Impulse<GiveSynapse>, _control: &Control<GiveSynapse>) -> Result<Self, Error> {
        match imp {
            Impulse::AddTerminal(_, GiveSynapse::GiveSomething, GiveTerminal::Giver(tx)) => {
                Ok(Self { tx: Some(tx) })
            },
            Impulse::Start(_) => {
                self.tx
                    .unwrap()
                    .send(())
                    .map_err(|_| Error::msg("unable to give something"))?;

                Ok(Self { tx: None })
            },
            _ => Err(Error::msg("unexpected impulse")),
        }
    }
}

struct TakerSoma {
    rx: Option<Receiver<()>>,
    stopper: Option<Control<GiveSynapse>>,
}

impl TakerSoma {
    fn axon() -> Guarded<Self> {
        Guarded::new(
            "taker",
            TakerSoma { rx: None, stopper: None },
            vec![Constraint::One(GiveSynapse::GiveSomething)],
            vec![],
        )
    }
}

impl Soma for TakerSoma {
    type Synapse = GiveSynapse;

    fn update(self, imp: Impulse<GiveSynapse>, control: &Control<GiveSynapse>) -> Result<Self, Error> {
        match imp {
            Impulse::AddDendrite(_, GiveSynapse::GiveSomething, GiveDendrite::Taker(rx)) => {
                Ok(Self { rx: Some(rx), stopper: self.stopper })
            },
            Impulse::Start(_) => Ok(Self { rx: self.rx, stopper: Some(control.clone()) }),
            _ => Err(Error::msg("unexpected impulse")),
        }
    }

    fn poll(&mut self) {
        if let (Some(rx), Some(stopper)) = (&self.rx, &self.stopper) {
            while let Ok(()) = rx.try_recv() {
                stopper.borrow_mut().push_back(Impulse::Stop);
            }
        }
    }
}

#[test]
fn test_invalid_input() {
    let mut organelle = Hosted::new("organelle", GiverSoma::axon());

    let giver1 = organelle.nucleus();
    let giver2 = organelle.add_soma(GiverSoma::axon());

    organelle
        .connect(giver1, giver2, GiveSynapse::GiveSomething)
        .unwrap();

    if let Err(e) = run(organelle) {
        match e.kind() {
            &ErrorKind::InvalidSynapse(ref msg) => {
                println!("got expected error: {}", *msg);
                assert_eq!(msg, "no constraints found for GiveSomething");
            },
            _ => panic!("GiverSoma spewed an unexpected error: {:#?}", e),
        }
    } else {
        panic!("GiverSoma should not accept this input")
    }
}

#[test]
fn test_require_one() {
    // make sure require works as intended
    {
        let mut organelle = Hosted::new("organelle", GiverSoma::axon());

        let giver = organelle.nucleus();
        let taker = organelle.add_soma(TakerSoma::axon());

        organelle
            .connect(giver, taker, GiveSynapse::GiveSomething)
            .unwrap();

        run(organelle).unwrap();
    }

    // make sure require one fails as intended
    {
        if let Err(e) = run(TakerSoma::axon()) {
            match e.kind() {
                &ErrorKind::MissingSynapse(ref msg) => {
                    println!("got expected error: {}", *msg);
                    assert_eq!(msg, "expected dendrite synapse for GiveSomething");
                },
                _ => panic!("unexpected error: {:#?}", e),
            }
        } else {
            panic!("TakerSoma has no input, so it should fail")
        }

        if let Err(e) = run(GiverSoma::axon()) {
            match e.kind() {
                &ErrorKind::MissingSynapse(ref msg) => {
                    println!("got expected error: {}", *msg);
                    assert_eq!(msg, "expected terminal synapse for GiveSomething");
                },
                _ => panic!("unexpected error: {:#?}", e),
            }
        } else {
            panic!("GiverSoma has no input, so it should fail")
        }
    }
}

#[test]
fn missing_required_synapse_names_the_kind() {
    let seen = Rc::new(Cell::new(0));
    let e = run(Counter::axon(&seen)).unwrap_err();
    match e.kind() {
        ErrorKind::MissingSynapse(msg) => assert!(msg.contains("Increment")),
        other => panic!("unexpected error: {:?}", other),
    }
    assert_eq!(seen.get(), 0);
}

#[test]
fn duplicate_required_synapse_is_invalid() {
    let seen = Rc::new(Cell::new(0));
    let mut organelle = Hosted::new("organelle", Incrementer::axon());
    let incrementer = organelle.nucleus();
    let counter = organelle.add_soma(Counter::axon(&seen));

    organelle.connect(incrementer, counter, IncrementerSynapse::Increment).unwrap();
    organelle.connect(incrementer, counter, IncrementerSynapse::Increment).unwrap();

    let e = run(organelle).unwrap_err();
    match e.kind() {
        ErrorKind::InvalidSynapse(msg) => {
            assert!(msg.starts_with("expected only one "));
            assert!(msg.ends_with(" for Increment"));
        },
        other => panic!("unexpected error: {:?}", other),
    }
}

// A soma that reports an error on its control sender when it is first
// updated, and a soma whose update fails.

struct Reporter;

impl Soma for Reporter {
    type Synapse = CounterSynapse;

    fn update(
        self,
        _imp: Impulse<CounterSynapse>,
        control: &Control<CounterSynapse>,
    ) -> Result<Self, Error> {
        control.borrow_mut().push_back(Impulse::Error(Error::with_chain(
            Error::msg("the cause"),
            ErrorKind::SomaError,
        )));
        Ok(self)
    }
}

struct Failing {
    updates: Rc<Cell<u32>>,
}

impl Soma for Failing {
    type Synapse = CounterSynapse;

    fn update(
        self,
        _imp: Impulse<CounterSynapse>,
        _control: &Control<CounterSynapse>,
    ) -> Result<Self, Error> {
        self.updates.set(self.updates.get() + 1);
        Err(Error::msg("the update failed"))
    }
}

#[test]
fn init_error_propagation() {
    let e = run(Reporter).unwrap_err();
    assert_eq!(*e.kind(), ErrorKind::SomaError);
    assert_eq!(*e.cause().unwrap().kind(), ErrorKind::Msg("the cause".to_string()));
    assert_eq!(e.to_string(), "an error occurred while calling into a soma");

    let mut organelle: Hosted<CounterSynapse> = Hosted::new("organelle", Reporter);
    organelle.add_soma(Reporter);
    let e = run(organelle).unwrap_err();
    assert_eq!(*e.kind(), ErrorKind::SomaError);
    assert_eq!(*e.cause().unwrap().kind(), ErrorKind::Msg("the cause".to_string()));
}

#[test]
fn a_failed_update_ends_the_loop_with_its_error() {
    let updates = Rc::new(Cell::new(0));
    let e = run(Failing { updates: updates.clone() }).unwrap_err();
    assert_eq!(*e.kind(), ErrorKind::Msg("the update failed".to_string()));
    assert_eq!(updates.get(), 1);

    // the error that arrives first ends the loop
    let updates = Rc::new(Cell::new(0));
    let seen = Rc::new(Cell::new(0));
    let mut organelle: Hosted<CounterSynapse> =
        Hosted::new("organelle", Failing { updates: updates.clone() });
    organelle.add_soma(Counter::axon(&seen));
    let e = run(organelle).unwrap_err();
    assert_eq!(*e.kind(), ErrorKind::Msg("the update failed".to_string()));
    assert_eq!(updates.get(), 1);
}

// A soma that stops the loop at its start.

struct Stopper {
    updates: Rc<Cell<u32>>,
}

impl Soma for Stopper {
    type Synapse = CounterSynapse;

    fn update(
        self,
        imp: Impulse<CounterSynapse>,
        control: &Control<CounterSynapse>,
    ) -> Result<Self, Error> {
        self.updates.set(self.updates.get() + 1);
        match imp {
            Impulse::AddDendrite(_, CounterSynapse::Increment, CounterDendrite::Counter(_)) => {
                println!("counter got input");

                Ok(self)
            },
            Impulse::Start(_) => {
                control.borrow_mut().push_back(Impulse::Stop);
                control.borrow_mut().push_back(Impulse::Probe(Settings::new()));
                Ok(self)
            },

            _ => Err(Error::msg("unexpected impulse")),
        }
    }
}

#[test]
fn soma_test_organelle() {
    let updates = Rc::new(Cell::new(0));
    let mut organelle = Hosted::new("organelle", Incrementer::axon());

    let incrementer = organelle.nucleus();
    let counter = organelle.add_soma(Guarded::new(
        "counter",
        Stopper { updates: updates.clone() },
        vec![Constraint::One(CounterSynapse::Increment)],
        vec![],
    ));

    organelle
        .connect(incrementer, counter, IncrementerSynapse::Increment)
        .unwrap();

    run(organelle).unwrap();
    assert_eq!(updates.get(), 2);
}

#[test]
fn test_soma() {
    let updates = Rc::new(Cell::new(0));
    let counter = Stopper { updates: updates.clone() };

    run(counter).unwrap();
    assert_eq!(updates.get(), 1);
}

#[test]
fn probe() {
    let seen = Rc::new(Cell::new(0));
    let forwarded = Rc::new(Cell::new(0));

    let mut inner: Hosted<CounterSynapse> = Hosted::new("inner", Forwarder::axon(&forwarded));
    let forwarder = inner.nucleus();
    let counter = inner.add_soma(Counter::axon(&seen));
    inner.connect(forwarder, counter, CounterSynapse::Increment).unwrap();

    let mut outer = Hosted::new("outer", Incrementer::axon());
    let incrementer = outer.nucleus();
    let nested = outer.add_soma(inner);
    outer.connect(incrementer, nested, IncrementerSynapse::Increment).unwrap();

    let (result, outer) = run_and_keep(outer);
    result.unwrap();
    let outer = outer.unwrap();

    match outer.describe() {
        SomaData::Organelle { nucleus, somas, uuid, name } => {
            assert_eq!(name, "outer");
            assert_eq!(Some(uuid), outer.organelle.uuid());
            match *nucleus {
                SomaData::Axon { terminals, dendrites, uuid, name } => {
                    assert_eq!(name, "incrementer");
                    assert_eq!(uuid, incrementer);
                    assert!(dendrites.is_empty());
                    assert_eq!(
                        terminals,
                        vec![ConstraintData::One {
                            variant: "Increment".to_string(),
                            soma: nested,
                        }]
                    );
                },
                other => panic!("unexpected nucleus {:?}", other),
            }
            assert_eq!(somas.len(), 1);
            match &somas[0] {
                SomaData::Organelle { nucleus, somas, uuid, name } => {
                    assert_eq!(name, "inner");
                    assert_eq!(*uuid, nested);
                    match &**nucleus {
                        SomaData::Axon { terminals, dendrites, uuid, .. } => {
                            assert_eq!(*uuid, forwarder);
                            assert_eq!(
                                *dendrites,
                                vec![ConstraintData::One {
                                    variant: "Increment".to_string(),
                                    soma: incrementer,
                                }]
                            );
                            assert_eq!(
                                *terminals,
                                vec![ConstraintData::One {
                                    variant: "Increment".to_string(),
                                    soma: counter,
                                }]
                            );
                        },
                        other => panic!("unexpected nucleus {:?}", other),
                    }
                    assert_eq!(somas.len(), 1);
                    match &somas[0] {
                        SomaData::Axon { dendrites, uuid, name, .. } => {
                            assert_eq!(name, "counter");
                            assert_eq!(*uuid, counter);
                            assert_eq!(
                                *dendrites,
                                vec![ConstraintData::One {
                                    variant: "Increment".to_string(),
                                    soma: forwarder,
                                }]
                            );
                        },
                        other => panic!("unexpected soma {:?}", other),
                    }
                },
                other => panic!("unexpected soma {:?}", other),
            }
        },
        other => panic!("unexpected description {:?}", other),
    }
}
