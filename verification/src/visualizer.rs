//! The visualizer: a soma that shows the probed structure of an organelle in a
//! browser. This module holds what it decides; serving the pages is left to
//! the program around it.

pub mod dot;
pub mod render;

use vstd::prelude::*;
use vstd::string::*;

use crate::axon::{declared, Axon, AxonView, Constraint};
use crate::error::{Cause, Error};
use crate::organelle::{Organelle, OrganelleView};
use crate::probe::{self, Synapse, Terminal};
use crate::soma::{debug_text, is_random_uuid, Impulse, SomaId};

verus! {

/// visualizer settings
#[derive(Debug, Clone, Copy)]
pub struct Settings {
    pub open_on_start: bool,
    pub port: u16,
}

impl Settings {
    /// open a browser with the visualizer upon starting up
    pub fn open_on_start(self, flag: bool) -> (r: Self)
        ensures
            r == (Settings { open_on_start: flag, ..self }),
    {
        Settings { open_on_start: flag, ..self }
    }

    /// set the port that the visualizer is hosted on
    pub fn port(self, port: u16) -> (r: Self)
        ensures
            r == (Settings { port: port, ..self }),
    {
        Settings { port: port, ..self }
    }
}

impl Default for Settings {
    fn default() -> (r: Self)
        ensures
            r == (Settings { open_on_start: false, port: 8080 }),
    {
        Settings { open_on_start: false, port: 8080 }
    }
}

/// What the visualizer runs once it is started: a service on the port, which
/// answers from what the probe terminal tells it.
#[derive(Debug)]
pub struct VisualizerTask {
    pub probe: Terminal,
    pub port: u16,
    pub open_on_start: bool,
}

impl VisualizerTask {
    pub fn new(settings: Settings, probe: Terminal) -> (task: Self)
        ensures
            task == (VisualizerTask {
                probe,
                port: settings.port,
                open_on_start: settings.open_on_start,
            }),
    {
        VisualizerTask { probe: probe, port: settings.port, open_on_start: settings.open_on_start }
    }
}

/// soma that hosts a service and a ui that can be viewed in a browser
#[derive(Debug)]
pub struct Soma {
    pub settings: Settings,
    pub probe: Option<Terminal>,
}

/// A visualizer and a probe soma, each with its axon, in an organelle of their
/// own, wired to each other.
#[derive(Debug)]
pub struct Parts {
    /// the organelle, with the visualizer as its nucleus
    pub organelle: Organelle<Synapse>,
    /// the visualizer
    pub visualizer: Soma,
    /// the axon of the visualizer
    pub visualizer_axon: Axon<Synapse>,
    /// the identifier of the probe soma
    pub probe_uuid: SomaId,
    /// the probe soma
    pub probe: probe::Soma,
    /// the axon of the probe soma
    pub probe_axon: Axon<Synapse>,
}

impl Parts {
    /// The organelle holds the visualizer as its nucleus and the probe soma,
    /// it has not been started, and what it has queued is the connection of
    /// the two by the given endpoints of a probe synapse.
    pub open spec fn wired(self, endpoints: (Terminal, probe::Dendrite)) -> bool {
        let nucleus = self.organelle@.nucleus;
        let start = OrganelleView::<Synapse> {
            uuid: None,
            nucleus,
            somas: seq![nucleus],
            outbox: Seq::empty(),
        }.registered(self.probe_uuid);
        start.connected(
            nucleus,
            self.probe_uuid,
            Synapse::Probe,
            endpoints,
            self.organelle@,
            Ok(()),
        )
    }
}

impl Soma {
    /// What an impulse does: the soma afterwards with the task to run, or the
    /// error, where `text` is the `Debug` text of the impulse.
    pub open spec fn updated(
        self,
        imp: Impulse<Synapse>,
        text: Seq<char>,
        result: Result<(Soma, Option<VisualizerTask>), Error>,
    ) -> bool {
        match imp {
            Impulse::AddTerminal(_, Synapse::Probe, tx) => {
                &&& result matches Ok((soma, task))
                &&& soma == (Soma { settings: self.settings, probe: Some(tx) })
                &&& task is None
            },
            Impulse::Start(_) => {
                &&& result matches Ok((soma, task))
                &&& soma == (Soma { settings: self.settings, probe: None })
                &&& self.probe matches Some(probe)
                &&& task == Some(
                    VisualizerTask {
                        probe,
                        port: self.settings.port,
                        open_on_start: self.settings.open_on_start,
                    },
                )
            },
            _ => result matches Err(e) && e@ == seq![Cause::Msg("unexpected impulse "@ + text)],
        }
    }

    /// create a visualizer to use with another probe soma, with the axon that
    /// guards it: one probe terminal, no dendrite
    pub fn axon(settings: Settings) -> (r: Result<(Self, Axon<Synapse>), Error>)
        ensures
            r matches Ok((soma, axon)) && soma == (Soma { settings, probe: None }) && axon.wf()
                && axon@ == (AxonView {
                uuid: None,
                dendrites: declared(Seq::empty()),
                terminals: declared(seq![Constraint::One(Synapse::Probe)]),
            }),
    {
        let mut terminals: Vec<Constraint<Synapse>> = Vec::new();
        terminals.push(Constraint::One(Synapse::Probe));
        proof {
            assert(terminals@ =~= seq![Constraint::One(Synapse::Probe)]);
        }
        Ok((Soma { settings: settings, probe: None }, Axon::new(Vec::new(), terminals)))
    }

    /// create a standalone organelle to plug into any system
    ///
    /// The visualizer is the nucleus. A probe soma is added, and the probe
    /// synapse is split between the two: the terminal for the visualizer, the
    /// dendrite for the probe soma.
    pub fn organelle(settings: Settings) -> (r: Result<Parts, Error>)
        ensures
            r matches Ok(parts) && parts.organelle.wf() && is_random_uuid(parts.organelle@.nucleus)
                && is_random_uuid(parts.probe_uuid) && exists|
                endpoints: (Terminal, probe::Dendrite),
            | parts.wired(endpoints),
    {
        let mut organelle: Organelle<Synapse> = Organelle::new();
        let (visualizer, visualizer_axon) = match Self::axon(settings) {
            Ok(pair) => pair,
            Err(e) => {
                return Err(e);
            },
        };
        let nucleus = organelle.nucleus();
        let probe_uuid = organelle.add_soma();
        let (probe, probe_axon) = probe::Soma::axon();
        let ghost start = organelle@;
        proof {
            assert(start.somas.contains(nucleus));
            if !seq![nucleus].contains(probe_uuid) {
                assert(start.somas == seq![nucleus].push(probe_uuid));
                assert(start.somas[1] == probe_uuid);
            } else {
                assert(probe_uuid == nucleus);
            }
            assert(start.somas.contains(probe_uuid));
        }
        let connected = organelle.connect(nucleus, probe_uuid, Synapse::Probe);
        let ghost endpoints = choose|endpoints: (Terminal, probe::Dendrite)|
            call_ensures(
                <Synapse as crate::soma::Synapse>::synapse,
                (Synapse::Probe,),
                endpoints,
            ) && start.connected(
                nucleus,
                probe_uuid,
                Synapse::Probe,
                endpoints,
                organelle@,
                connected,
            );
        connected.unwrap();
        let parts = Parts { organelle, visualizer, visualizer_axon, probe_uuid, probe, probe_axon };
        proof {
            assert(parts.wired(endpoints));
        }
        Ok(parts)
    }

    /// react to a single impulse
    ///
    /// The probe terminal is kept until the start; the start hands it to the
    /// service. A visualizer is started after it was given its terminal.
    pub fn update(self, imp: Impulse<Synapse>) -> (r: Result<(Self, Option<VisualizerTask>), Error>)
        requires
            imp is Start ==> self.probe is Some,
        ensures
            exists|text: Seq<char>| self.updated(imp, text, r),
    {
        match imp {
            Impulse::AddTerminal(_, Synapse::Probe, tx) => {
                let r = Ok((Soma { settings: self.settings, probe: Some(tx) }, None));
                proof {
                    assert(self.updated(imp, Seq::empty(), r));
                }
                r
            },
            Impulse::Start(_) => {
                let task = VisualizerTask::new(self.settings, self.probe.unwrap());
                let r = Ok((Soma { settings: self.settings, probe: None }, Some(task)));
                proof {
                    assert(self.updated(imp, Seq::empty(), r));
                }
                r
            },
            _ => {
                let text = debug_text(&imp);
                let mut msg = String::from_str("unexpected impulse ");
                msg.append(text.as_str());
                let r = Err(Error::from_kind(crate::error::ErrorKind::Msg(msg)));
                proof {
                    assert(self.updated(imp, text@, r));
                }
                r
            },
        }
    }
}

/// The pages of the service.
#[derive(Debug, Clone, Copy)]
pub enum Route {
    /// the page that shows the graph
    Index,
    /// the script that draws the graph
    Script,
    /// the probed structure as JSON
    ProbeJson,
    /// the probed structure as a DOT graph
    ProbeDot,
    /// nothing is served under the path
    NotFound,
}

/// The page that a request is for: only `GET` is served, and only the paths
/// of the pages.
pub open spec fn routed(get: bool, path: Seq<char>) -> Route {
    if !get {
        Route::NotFound
    } else if path == "/"@ || path == "/index.html"@ {
        Route::Index
    } else if path == "/viz-lite.js"@ {
        Route::Script
    } else if path == "/api/probe/json"@ {
        Route::ProbeJson
    } else if path == "/api/probe/dot"@ {
        Route::ProbeDot
    } else {
        Route::NotFound
    }
}

fn same_text(a: &str, b: &str) -> (r: bool)
    ensures
        r == (a@ == b@),
{
    let a = String::from_str(a);
    let b = String::from_str(b);
    a == b
}

/// find the page that a request is for
pub fn route(get: bool, path: &str) -> (r: Route)
    ensures
        r == routed(get, path@),
{
    if !get {
        Route::NotFound
    } else if same_text(path, "/") || same_text(path, "/index.html") {
        Route::Index
    } else if same_text(path, "/viz-lite.js") {
        Route::Script
    } else if same_text(path, "/api/probe/json") {
        Route::ProbeJson
    } else if same_text(path, "/api/probe/dot") {
        Route::ProbeDot
    } else {
        Route::NotFound
    }
}

/// the body of the answer to a request that nothing is served for
pub fn not_found(uri: &str) -> (body: String)
    ensures
        body@ == "Error 404 "@ + uri@ + " Not Found"@,
{
    let mut body = String::from_str("Error 404 ");
    body.append(uri);
    body.append(" Not Found");
    body
}

} // verus!
