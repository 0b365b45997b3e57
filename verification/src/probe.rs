//! One latency measurement of a server, as a sequence of decisions: the address
//! remembered from an earlier measurement is tried first; then the server list's
//! address and the candidates inside the server's blocks, one echo request each.
//! The first address that answers gives the latency and is remembered; an error
//! while sending stops the run. The caller sends the echo requests and reports
//! what came back.

use vstd::prelude::*;
use crate::ping::{probe_order, probe_targets};
use crate::messages::ping_failure_message;

verus! {

/// Echo requests sent to the remembered address.
pub const REMEMBERED_ECHOES: u16 = 3;

/// Echo requests sent to each other address.
pub const TARGET_ECHOES: u16 = 1;

/// What the caller does next.
pub enum ProbeAction {
    /// Send `count` echo requests to `addr` and report the outcome with
    /// [`Probe::on_echo`].
    Echo { addr: u32, count: u16 },
    /// The measurement is over: the latency (bit pattern of the milliseconds) or why
    /// there is none, and the address to remember for the server when a new one
    /// answered.
    Done { result: Result<u32, String>, remember: Option<u32> },
}

/// Which address the last echo requests went to.
#[derive(Clone, Copy, PartialEq, Eq, Structural, Debug)]
pub enum ProbeStage {
    /// The address remembered from an earlier measurement.
    Remembered,
    /// `targets[i]`.
    Target(usize),
    /// The run is over.
    Over,
}

/// A measurement in progress.
pub struct Probe {
    /// The address remembered for this server.
    pub known: Option<u32>,
    /// Why the server list's ping address is no address, when it is none.
    pub bad_address: Option<String>,
    /// The addresses tried after the remembered one, in order.
    pub targets: Vec<u32>,
    /// The error given when no address answers.
    pub failure: String,
    pub stage: ProbeStage,
}

impl Probe {
    /// The stage points into the targets.
    pub open spec fn wf(&self) -> bool {
        self.stage matches ProbeStage::Target(i) ==> i < self.targets@.len()
    }

    /// `post` and `a` are what trying the targets from index `i` on gives: an echo
    /// request to target `i`, or, past the last one, the failure.
    pub open spec fn tries_from(&self, i: int, post: Probe, a: ProbeAction) -> bool {
        if i < self.targets@.len() {
            &&& post == (Probe { stage: ProbeStage::Target(i as usize), ..*self })
            &&& a == (ProbeAction::Echo { addr: self.targets@[i], count: TARGET_ECHOES })
        } else {
            &&& post == (Probe { stage: ProbeStage::Over, ..*self })
            &&& a == (ProbeAction::Done { result: Err(self.failure), remember: None })
        }
    }

    /// `post` and `a` are what follows when the remembered address gave nothing (or
    /// there is none): the error of a ping address that is no address, else the
    /// targets from the first.
    pub open spec fn after_remembered(&self, post: Probe, a: ProbeAction) -> bool {
        match self.bad_address {
            Some(e) => {
                &&& post == (Probe { stage: ProbeStage::Over, ..*self })
                &&& a == (ProbeAction::Done { result: Err(e), remember: None })
            },
            None => self.tries_from(0, post, a),
        }
    }

    fn try_from(&mut self, i: usize) -> (a: ProbeAction)
        ensures
            old(self).tries_from(i as int, *final(self), a),
    {
        if i < self.targets.len() {
            self.stage = ProbeStage::Target(i);
            ProbeAction::Echo { addr: self.targets[i], count: TARGET_ECHOES }
        } else {
            self.stage = ProbeStage::Over;
            ProbeAction::Done { result: Err(self.failure.clone()), remember: None }
        }
    }

    fn after_remembered_step(&mut self) -> (a: ProbeAction)
        ensures
            old(self).after_remembered(*final(self), a),
    {
        match &self.bad_address {
            Some(e) => {
                let e = e.clone();
                self.stage = ProbeStage::Over;
                ProbeAction::Done { result: Err(e), remember: None }
            },
            None => self.try_from(0),
        }
    }

    /// Starts measuring the server whose ping address is `ip`: `address` is that
    /// address as parsed (`None` for an IPv6 one) or why it is none, `block` the
    /// server's address ranges, `known` the address remembered for it.
    pub fn start(ip: &str, address: Result<Option<u32>, String>, block: &str, known: Option<u32>) -> (r: (Probe, ProbeAction))
        ensures
            r.0.wf(),
            r.0.known == known,
            r.0.failure@ == "<"@ + ip@ + "> فشل قياس البنق"@,
            r.0.bad_address == match address {
                Ok(_) => None,
                Err(e) => Some(e),
            },
            r.0.targets@ == match address {
                Ok(a) => probe_order(a, block@, known),
                Err(_) => Seq::<u32>::empty(),
            },
            match known {
                Some(k) => r.0.stage == ProbeStage::Remembered && r.1 == (ProbeAction::Echo { addr: k, count: REMEMBERED_ECHOES }),
                None => (Probe { stage: ProbeStage::Remembered, ..r.0 }).after_remembered(r.0, r.1),
            },
    {
        let failure = ping_failure_message(ip);
        let (bad_address, targets) = match address {
            Ok(a) => (None, probe_targets(a, block, known)),
            Err(e) => (Some(e), Vec::new()),
        };
        let mut p = Probe { known, bad_address, targets, failure, stage: ProbeStage::Remembered };
        match known {
            Some(k) => (p, ProbeAction::Echo { addr: k, count: REMEMBERED_ECHOES }),
            None => {
                let a = p.after_remembered_step();
                (p, a)
            },
        }
    }

    /// What came back from the last echo requests: a send error stops the run with
    /// that error; an answer ends it with that latency (a target that answered is
    /// to be remembered); silence moves on to the next address.
    pub fn on_echo(&mut self, echoed: Result<Option<u32>, String>) -> (a: ProbeAction)
        requires
            old(self).wf(),
            !(old(self).stage is Over),
        ensures
            final(self).wf(),
            match echoed {
                Err(e) => *final(self) == (Probe { stage: ProbeStage::Over, ..*old(self) }) && a == (ProbeAction::Done {
                    result: Err(e),
                    remember: None,
                }),
                Ok(Some(ms)) => *final(self) == (Probe { stage: ProbeStage::Over, ..*old(self) }) && a == (
                ProbeAction::Done {
                    result: Ok(ms),
                    remember: match old(self).stage {
                        ProbeStage::Target(i) => Some(old(self).targets@[i as int]),
                        _ => None,
                    },
                }),
                Ok(None) => match old(self).stage {
                    ProbeStage::Remembered => old(self).after_remembered(*final(self), a),
                    ProbeStage::Target(i) => old(self).tries_from(i + 1, *final(self), a),
                    ProbeStage::Over => false,
                },
            },
    {
        match echoed {
            Err(e) => {
                self.stage = ProbeStage::Over;
                ProbeAction::Done { result: Err(e), remember: None }
            },
            Ok(Some(ms)) => {
                let remember = match self.stage {
                    ProbeStage::Target(i) => Some(self.targets[i]),
                    _ => None,
                };
                self.stage = ProbeStage::Over;
                ProbeAction::Done { result: Ok(ms), remember }
            },
            Ok(None) => match self.stage {
                ProbeStage::Target(i) => {
                    let n = self.targets.len();
                    assert(i < n);
                    self.try_from(i + 1)
                },
                _ => self.after_remembered_step(),
            },
        }
    }
}

} // verus!
