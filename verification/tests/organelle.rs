use organelle::organelle::{Delivery, Organelle, Reaction};
use organelle::probe::{ConstraintData, Settings, SomaData};
use organelle::soma::{Driver, Lifecycle};
use organelle::{Error, ErrorKind, Impulse, Synapse};

#[derive(Debug, Copy, Clone, Hash, PartialEq, Eq)]
enum Outer {
    Increment,
    Report,
}

#[derive(Debug, Copy, Clone, Hash, PartialEq, Eq)]
enum Inner {
    Tick,
    Tell,
}

#[derive(Debug, PartialEq, Eq)]
struct OuterTx(u32);

#[derive(Debug, PartialEq, Eq)]
struct OuterRx(u32);

#[derive(Debug, PartialEq, Eq)]
struct InnerTx(u32);

#[derive(Debug, PartialEq, Eq)]
struct InnerRx(u32);

impl Synapse for Outer {
    type Terminal = OuterTx;
    type Dendrite = OuterRx;

    fn synapse(self) -> (OuterTx, OuterRx) {
        match self {
            Outer::Increment => (OuterTx(1), OuterRx(1)),
            Outer::Report => (OuterTx(2), OuterRx(2)),
        }
    }
}

impl Synapse for Inner {
    type Terminal = InnerTx;
    type Dendrite = InnerRx;

    fn synapse(self) -> (InnerTx, InnerRx) {
        match self {
            Inner::Tick => (InnerTx(1), InnerRx(1)),
            Inner::Tell => (InnerTx(2), InnerRx(2)),
        }
    }
}

impl From<Outer> for Inner {
    fn from(kind: Outer) -> Inner {
        match kind {
            Outer::Increment => Inner::Tick,
            Outer::Report => Inner::Tell,
        }
    }
}

impl From<Inner> for Outer {
    fn from(kind: Inner) -> Outer {
        match kind {
            Inner::Tick => Outer::Increment,
            Inner::Tell => Outer::Report,
        }
    }
}

impl From<OuterTx> for InnerTx {
    fn from(tx: OuterTx) -> InnerTx {
        InnerTx(tx.0)
    }
}

impl From<InnerTx> for OuterTx {
    fn from(tx: InnerTx) -> OuterTx {
        OuterTx(tx.0)
    }
}

impl From<OuterRx> for InnerRx {
    fn from(rx: OuterRx) -> InnerRx {
        InnerRx(rx.0)
    }
}

impl From<InnerRx> for OuterRx {
    fn from(rx: InnerRx) -> OuterRx {
        OuterRx(rx.0)
    }
}

fn inbox(deliveries: &[Delivery<Outer>], id: u128) -> Vec<&Impulse<Outer>> {
    deliveries.iter().filter(|d| d.to == id).map(|d| &d.impulse).collect()
}

fn is_msg(e: &Error, text: &str) -> bool {
    *e.kind() == ErrorKind::Msg(text.to_string()) && e.cause().is_none()
}

#[test]
fn a_new_organelle_holds_its_nucleus_only() {
    let mut organelle: Organelle<Outer> = Organelle::new();
    let nucleus = organelle.nucleus();
    assert!(organelle.contains(nucleus));
    assert!(organelle.uuid().is_none());
    assert!(organelle.take_deliveries().is_empty());
    assert_eq!((nucleus >> 76) & 0xf, 4);
    assert_eq!((nucleus >> 62) & 0x3, 2);

    let other: Organelle<Outer> = Organelle::new();
    assert_ne!(other.nucleus(), nucleus);

    let organelle: Organelle<Outer> = Organelle::with_nucleus(7);
    assert_eq!(organelle.nucleus(), 7);
    assert!(organelle.contains(7));
    assert!(!organelle.contains(8));
}

#[test]
fn somas_are_added_under_identifiers_of_their_own() {
    let mut organelle: Organelle<Outer> = Organelle::with_nucleus(7);
    let a = organelle.add_soma();
    let b = organelle.add_soma();
    assert_ne!(a, b);
    assert_ne!(a, 7);
    assert!(organelle.contains(a) && organelle.contains(b));
    assert_eq!((a >> 76) & 0xf, 4);

    organelle.register(7);
    organelle.register(9);
    organelle.update(Impulse::Start(1));
    let targets: Vec<u128> = organelle.take_deliveries().iter().map(|d| d.to).collect();
    assert_eq!(targets, vec![7, a, b, 9]);
}

#[test]
fn connect_sends_the_terminal_first_and_the_dendrite_second() {
    let mut organelle: Organelle<Outer> = Organelle::with_nucleus(1);
    organelle.register(2);
    organelle.connect(1, 2, Outer::Report).unwrap();
    let deliveries = organelle.take_deliveries();
    assert_eq!(deliveries.len(), 2);
    assert_eq!(deliveries[0].to, 1);
    assert!(matches!(
        deliveries[0].impulse,
        Impulse::AddTerminal(2, Outer::Report, OuterTx(2))
    ));
    assert_eq!(deliveries[1].to, 2);
    assert!(matches!(
        deliveries[1].impulse,
        Impulse::AddDendrite(1, Outer::Report, OuterRx(2))
    ));
    assert!(organelle.take_deliveries().is_empty());
}

#[test]
fn connect_fails_for_a_soma_that_was_not_added() {
    let mut organelle: Organelle<Outer> = Organelle::with_nucleus(1);
    let e = organelle.connect(5, 1, Outer::Increment).unwrap_err();
    assert!(is_msg(&e, "unable to find dendrite"));
    assert!(organelle.take_deliveries().is_empty());

    let e = organelle.connect(1, 5, Outer::Increment).unwrap_err();
    assert!(is_msg(&e, "unable to find terminal"));
    let deliveries = organelle.take_deliveries();
    assert_eq!(deliveries.len(), 1);
    assert_eq!(deliveries[0].to, 1);
    assert!(matches!(
        deliveries[0].impulse,
        Impulse::AddTerminal(5, Outer::Increment, OuterTx(1))
    ));

    let e = organelle.add_dendrite((1, OuterRx(9)), 5, Outer::Increment).unwrap_err();
    assert!(is_msg(&e, "unable to find terminal"));
    let e = organelle.add_terminal((1, OuterTx(9)), 5, Outer::Increment).unwrap_err();
    assert!(is_msg(&e, "unable to find dendrite"));
    organelle.add_dendrite((3, OuterRx(9)), 1, Outer::Increment).unwrap();
    organelle.add_terminal((4, OuterTx(8)), 1, Outer::Report).unwrap();
    let deliveries = organelle.take_deliveries();
    assert!(matches!(
        deliveries[0].impulse,
        Impulse::AddDendrite(3, Outer::Increment, OuterRx(9))
    ));
    assert!(matches!(
        deliveries[1].impulse,
        Impulse::AddTerminal(4, Outer::Report, OuterTx(8))
    ));
}

#[test]
fn every_connection_made_before_the_start_is_observed_before_the_start() {
    let mut organelle: Organelle<Outer> = Organelle::with_nucleus(1);
    organelle.register(2);
    organelle.register(3);
    organelle.connect(1, 2, Outer::Increment).unwrap();
    organelle.connect(2, 3, Outer::Report).unwrap();
    organelle.connect(1, 2, Outer::Increment).unwrap();
    assert!(matches!(organelle.update(Impulse::Start(99)), Reaction::Piped));
    assert_eq!(organelle.uuid(), Some(99));
    let deliveries = organelle.take_deliveries();

    let first = inbox(&deliveries, 1);
    assert_eq!(first.len(), 3);
    assert!(matches!(first[0], Impulse::AddTerminal(2, Outer::Increment, _)));
    assert!(matches!(first[1], Impulse::AddTerminal(2, Outer::Increment, _)));
    assert!(matches!(first[2], Impulse::Start(1)));

    let second = inbox(&deliveries, 2);
    assert_eq!(second.len(), 4);
    assert!(matches!(second[0], Impulse::AddDendrite(1, Outer::Increment, _)));
    assert!(matches!(second[1], Impulse::AddTerminal(3, Outer::Report, _)));
    assert!(matches!(second[2], Impulse::AddDendrite(1, Outer::Increment, _)));
    assert!(matches!(second[3], Impulse::Start(2)));

    let third = inbox(&deliveries, 3);
    assert_eq!(third.len(), 2);
    assert!(matches!(third[0], Impulse::AddDendrite(2, Outer::Report, _)));
    assert!(matches!(third[1], Impulse::Start(3)));

    assert!(inbox(&deliveries, 4).is_empty());
}

#[test]
fn endpoints_from_outside_go_to_the_nucleus() {
    let mut organelle: Organelle<Outer> = Organelle::with_nucleus(1);
    organelle.register(2);
    assert!(matches!(
        organelle.update(Impulse::AddDendrite(50, Outer::Increment, OuterRx(5))),
        Reaction::Routed
    ));
    assert!(matches!(
        organelle.update(Impulse::AddTerminal(51, Outer::Report, OuterTx(6))),
        Reaction::Routed
    ));
    let deliveries = organelle.take_deliveries();
    assert_eq!(deliveries.len(), 2);
    assert_eq!(deliveries[0].to, 1);
    assert_eq!(deliveries[1].to, 1);
    assert!(matches!(
        deliveries[0].impulse,
        Impulse::AddDendrite(50, Outer::Increment, OuterRx(5))
    ));
    assert!(matches!(
        deliveries[1].impulse,
        Impulse::AddTerminal(51, Outer::Report, OuterTx(6))
    ));
}

#[test]
fn stop_and_error_go_upward_as_they_are() {
    let mut organelle: Organelle<Outer> = Organelle::with_nucleus(1);
    assert!(matches!(organelle.update(Impulse::Stop), Reaction::Upward(Impulse::Stop)));
    match organelle.update(Impulse::Error(Error::msg("broken"))) {
        Reaction::Upward(Impulse::Error(e)) => assert!(is_msg(&e, "broken")),
        other => panic!("unexpected reaction {:?}", other),
    }
    assert!(organelle.take_deliveries().is_empty());
}

fn leaf(uuid: u128) -> SomaData {
    SomaData::Axon {
        terminals: vec![],
        dendrites: vec![ConstraintData::Variadic { variant: "K".to_string(), somas: vec![uuid] }],
        uuid,
        name: "leaf".to_string(),
    }
}

#[test]
fn a_probe_goes_to_every_child_and_the_replies_are_assembled() {
    let mut organelle: Organelle<Outer> = Organelle::with_nucleus(1);
    organelle.register(2);
    organelle.register(3);
    organelle.update(Impulse::Start(10));
    organelle.take_deliveries();
    assert!(matches!(organelle.update(Impulse::Probe(Settings::new())), Reaction::Gather));
    let deliveries = organelle.take_deliveries();
    assert_eq!(deliveries.iter().map(|d| d.to).collect::<Vec<u128>>(), vec![1, 2, 3]);
    assert!(deliveries.iter().all(|d| matches!(d.impulse, Impulse::Probe(_))));

    let replies = vec![(3, leaf(3)), (1, leaf(1)), (2, leaf(2))];
    assert!(organelle.has_nucleus_reply(&replies));
    assert!(!organelle.has_nucleus_reply(&vec![(3, leaf(3))]));
    assert!(!organelle.has_nucleus_reply(&vec![]));
    let data = organelle.assemble(replies, "whole".to_string());
    assert_eq!(
        data,
        SomaData::Organelle {
            nucleus: Box::new(leaf(1)),
            somas: vec![leaf(3), leaf(2)],
            uuid: 10,
            name: "whole".to_string(),
        }
    );

    let data = organelle.assemble(vec![(1, leaf(7)), (1, leaf(8))], "twice".to_string());
    assert_eq!(
        data,
        SomaData::Organelle {
            nucleus: Box::new(leaf(8)),
            somas: vec![],
            uuid: 10,
            name: "twice".to_string(),
        }
    );
}

#[test]
fn conversion_keeps_the_variant_and_converts_kind_and_endpoint() {
    let imp: Impulse<Inner> = Impulse::convert_from(Impulse::AddDendrite(4, Outer::Report, OuterRx(7)));
    assert!(matches!(imp, Impulse::AddDendrite(4, Inner::Tell, InnerRx(7))));
    let imp: Impulse<Inner> = Impulse::convert_from(Impulse::AddTerminal(5, Outer::Increment, OuterTx(8)));
    assert!(matches!(imp, Impulse::AddTerminal(5, Inner::Tick, InnerTx(8))));
    let imp: Impulse<Inner> = Impulse::convert_from(Impulse::<Outer>::Stop);
    assert!(matches!(imp, Impulse::Stop));
    let imp: Impulse<Inner> = Impulse::convert_from(Impulse::<Outer>::Probe(Settings::new()));
    assert!(matches!(imp, Impulse::Probe(_)));
    let imp: Impulse<Inner> = Impulse::convert_from(Impulse::<Outer>::Error(Error::msg("e")));
    match imp {
        Impulse::Error(e) => assert!(is_msg(&e, "e")),
        other => panic!("unexpected impulse {:?}", other),
    }
}

#[test]
fn conversion_there_and_back_is_the_identity_on_endpoints() {
    let there: Impulse<Inner> = Impulse::convert_from(Impulse::AddDendrite(4, Outer::Report, OuterRx(7)));
    let back: Impulse<Outer> = Impulse::convert_from(there);
    assert!(matches!(back, Impulse::AddDendrite(4, Outer::Report, OuterRx(7))));
    let there: Impulse<Inner> = Impulse::convert_from(Impulse::AddTerminal(9, Outer::Increment, OuterTx(3)));
    let back: Impulse<Outer> = Impulse::convert_from(there);
    assert!(matches!(back, Impulse::AddTerminal(9, Outer::Increment, OuterTx(3))));
}

#[test]
fn the_driver_starts_the_soma_and_ends_on_stop() {
    let (mut driver, start) = Driver::new::<Outer>();
    let uuid = match start {
        Impulse::Start(uuid) => uuid,
        other => panic!("unexpected impulse {:?}", other),
    };
    assert_eq!((uuid >> 76) & 0xf, 4);
    assert!(matches!(driver, Driver::Running));
    assert!(matches!(driver.receive(Impulse::<Outer>::Start(uuid)), Some(Impulse::Start(_))));
    driver.updated(Ok(()));
    assert!(matches!(
        driver.receive(Impulse::AddDendrite(1, Outer::Report, OuterRx(1))),
        Some(Impulse::AddDendrite(1, Outer::Report, OuterRx(1)))
    ));
    driver.updated(Ok(()));
    assert!(matches!(driver, Driver::Running));
    assert!(driver.receive(Impulse::<Outer>::Stop).is_none());
    assert!(matches!(driver, Driver::Finished(Ok(()))));
    assert!(driver.receive(Impulse::<Outer>::Probe(Settings::new())).is_none());
    assert!(driver.receive(Impulse::<Outer>::Error(Error::msg("late"))).is_none());
    driver.updated(Err(Error::msg("late")));
    driver.closed();
    assert_eq!(driver.result(), Some(Ok(())));
}

#[test]
fn the_driver_ends_with_the_error_that_arrives_or_that_an_update_gives() {
    let (mut driver, _) = Driver::new::<Outer>();
    assert!(driver.receive(Impulse::<Outer>::Error(Error::msg("arrived"))).is_none());
    assert_eq!(driver.result(), Some(Err(Error::msg("arrived"))));

    let (mut driver, start) = Driver::new::<Outer>();
    assert!(driver.receive(start).is_some());
    driver.updated(Err(Error::with_chain(Error::msg("inner"), ErrorKind::SomaError)));
    assert!(driver.receive(Impulse::<Outer>::Stop).is_none());
    match driver.result() {
        Some(Err(e)) => {
            assert_eq!(*e.kind(), ErrorKind::SomaError);
            assert!(is_msg(e.cause().unwrap(), "inner"));
        },
        other => panic!("unexpected result {:?}", other),
    }

    let (mut driver, _) = Driver::new::<Outer>();
    assert_eq!(Driver::Running.result(), None);
    driver.closed();
    assert_eq!(driver.result(), Some(Ok(())));
}

#[test]
fn errors_show_their_kind() {
    assert_eq!(Error::msg("plain").to_string(), "plain");
    assert_eq!(ErrorKind::Msg("plain".to_string()).description(), "plain");
    assert_eq!(ErrorKind::Io("disk".to_string()).to_string(), "disk");
    assert_eq!(ErrorKind::SerdeJson("json".to_string()).description(), "json");
    assert_eq!(ErrorKind::Canceled.to_string(), "oneshot canceled");
    assert_eq!(ErrorKind::Canceled.description(), "oneshot canceled");
    assert_eq!(
        ErrorKind::SomaError.to_string(),
        "an error occurred while calling into a soma"
    );
    assert_eq!(
        ErrorKind::InvalidSynapse("x".to_string()).to_string(),
        "invalid synapse given to somas - x"
    );
    assert_eq!(
        ErrorKind::InvalidSynapse("x".to_string()).description(),
        "invalid synapse given to somas"
    );
    assert_eq!(ErrorKind::MissingSynapse("y".to_string()).to_string(), "invalid synapse - y");
    assert_eq!(ErrorKind::MissingSynapse("y".to_string()).description(), "missing synapse");

    let e = Error::with_chain(
        Error::from_kind(ErrorKind::Canceled),
        ErrorKind::MissingSynapse("z".to_string()),
    );
    assert_eq!(e.to_string(), "invalid synapse - z");
    assert_eq!(*e.kind(), ErrorKind::MissingSynapse("z".to_string()));
    assert_eq!(*e.cause().unwrap().kind(), ErrorKind::Canceled);
    assert!(e.cause().unwrap().cause().is_none());
}

#[test]
fn a_soma_is_configured_then_started() {
    let mut life = Lifecycle::Configuring;
    assert!(life.deliver(&Impulse::AddDendrite(1, Outer::Report, OuterRx(1))));
    assert!(life.deliver(&Impulse::AddTerminal(1, Outer::Report, OuterTx(1))));
    assert!(matches!(life, Lifecycle::Configuring));
    assert!(!life.deliver(&Impulse::<Outer>::Probe(Settings::new())));
    assert!(!life.deliver(&Impulse::<Outer>::Stop));
    assert!(matches!(life, Lifecycle::Configuring));
    assert!(life.deliver(&Impulse::<Outer>::Start(5)));
    assert!(matches!(life, Lifecycle::Running));
    assert!(!life.deliver(&Impulse::<Outer>::Start(5)));
    assert!(!life.deliver(&Impulse::AddDendrite(1, Outer::Report, OuterRx(1))));
    assert!(!life.deliver(&Impulse::<Outer>::Error(Error::msg("e"))));
    assert!(life.deliver(&Impulse::<Outer>::Probe(Settings::new())));
    assert!(matches!(life, Lifecycle::Running));
    life.close();
    assert!(matches!(life, Lifecycle::Terminated));
    assert!(!life.deliver(&Impulse::<Outer>::Start(5)));
}

#[test]
fn what_an_organelle_delivers_follows_the_life_of_each_child() {
    let mut organelle: Organelle<Outer> = Organelle::with_nucleus(1);
    organelle.register(2);
    organelle.connect(1, 2, Outer::Increment).unwrap();
    organelle.connect(2, 2, Outer::Report).unwrap();
    organelle.update(Impulse::Start(9));
    let deliveries = organelle.take_deliveries();
    for id in [1u128, 2] {
        let mut life = Lifecycle::Configuring;
        for imp in inbox(&deliveries, id) {
            assert!(life.deliver(imp));
        }
        assert!(matches!(life, Lifecycle::Running));
    }
    let second = inbox(&deliveries, 2);
    assert_eq!(second.len(), 4);
    assert!(matches!(second[1], Impulse::AddTerminal(2, Outer::Report, _)));
    assert!(matches!(second[2], Impulse::AddDendrite(2, Outer::Report, _)));
}
