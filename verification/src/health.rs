//! The health checker of a backend: what to probe with, and what a probe's
//! outcome says about the backend.
//!
//! The probing itself, with its sockets and timers, is the caller's: it waits,
//! probes as the task says, and reports the outcome.

use crate::balancer::HealthChange;
use crate::balancer::LoadBalancer;
use crate::config::HealthCheckConfig;
use crate::config::LBRule;
use vstd::prelude::*;
use vstd::slice::slice_subrange;
use vstd::string::StringExecFns;

verus! {

/// The wait before the first probe, in milliseconds.
pub const INITIAL_DELAY_MS: u64 = 100;

/// The most bytes of a response that a probe looks at.
pub const RESPONSE_LIMIT: usize = 1024;

/// How a backend is probed.
#[derive(Clone, Copy, Debug, PartialEq, Eq, Structural)]
pub enum ProbeProtocol {
    /// A connection is opened.
    Tcp,
    /// A connection is opened and a GET request is sent.
    Http,
}

/// What a probe came to.
pub enum ProbeOutcome<'a> {
    /// The connection could not be opened.
    ConnectFailed,
    /// The connection was opened; nothing more was tried.
    Connected,
    /// The request could not be sent, or no response could be read.
    TransferFailed,
    /// These bytes were read in response, in one read.
    Response(&'a [u8]),
    /// The deadline passed first.
    TimedOut,
}

/// The bytes `200 OK`.
pub open spec fn status_ok() -> Seq<u8> {
    seq![0x32u8, 0x30, 0x30, 0x20, 0x4F, 0x4B]
}

/// Whether `bytes` holds `200 OK` somewhere.
pub open spec fn holds_ok(bytes: Seq<u8>) -> bool {
    exists|i: int|
        0 <= i && i + 6 <= bytes.len() && #[trigger] bytes.subrange(i, i + 6) == status_ok()
}

/// The part of a response that a probe looks at.
pub open spec fn looked_at(response: Seq<u8>) -> Seq<u8> {
    if response.len() <= RESPONSE_LIMIT {
        response
    } else {
        response.subrange(0, RESPONSE_LIMIT as int)
    }
}

/// The request of an HTTP probe of `addr` for `path`.
pub open spec fn http_request(addr: Seq<char>, path: Seq<char>) -> Seq<char> {
    "GET "@ + path + " HTTP/1.1\r\nHost: "@ + addr + "\r\nConnection: close\r\n\r\n"@
}

/// Whether a probe by `protocol` that came to `outcome` found the backend
/// healthy: a TCP probe if the connection was opened, an HTTP probe if the
/// start of the response holds `200 OK`.
pub open spec fn passes(protocol: ProbeProtocol, outcome: ProbeOutcome) -> bool {
    match protocol {
        ProbeProtocol::Tcp => outcome is Connected || outcome is Response
            || outcome is TransferFailed,
        ProbeProtocol::Http => outcome matches ProbeOutcome::Response(bytes) && holds_ok(
            looked_at(bytes@),
        ),
    }
}

fn matches_at(bytes: &[u8], at: usize) -> (found: bool)
    requires
        at + 6 <= bytes@.len(),
    ensures
        found == (bytes@.subrange(at as int, at + 6) == status_ok()),
{
    let found = bytes[at] == 0x32 && bytes[at + 1] == 0x30 && bytes[at + 2] == 0x30 && bytes[at
        + 3] == 0x20 && bytes[at + 4] == 0x4F && bytes[at + 5] == 0x4B;
    proof {
        let part = bytes@.subrange(at as int, at + 6);
        if found {
            assert(part =~= status_ok());
        } else {
            assert(part[0] == bytes@[at as int]);
            assert(part[1] == bytes@[at + 1]);
            assert(part[2] == bytes@[at + 2]);
            assert(part[3] == bytes@[at + 3]);
            assert(part[4] == bytes@[at + 4]);
            assert(part[5] == bytes@[at + 5]);
        }
    }
    found
}

/// Whether a TCP probe with this outcome found the backend healthy.
pub fn check_tcp(outcome: &ProbeOutcome) -> (healthy: bool)
    ensures
        healthy == passes(ProbeProtocol::Tcp, *outcome),
{
    match outcome {
        ProbeOutcome::Connected => true,
        ProbeOutcome::Response(_) => true,
        ProbeOutcome::TransferFailed => true,
        ProbeOutcome::ConnectFailed => false,
        ProbeOutcome::TimedOut => false,
    }
}

/// Whether the response to an HTTP probe says that the backend is healthy.
pub fn check_http(response: &[u8]) -> (healthy: bool)
    ensures
        healthy == holds_ok(looked_at(response@)),
{
    let part = if response.len() <= RESPONSE_LIMIT {
        response
    } else {
        slice_subrange(response, 0, RESPONSE_LIMIT)
    };
    assert(part@ == looked_at(response@));
    if part.len() < 6 {
        return false;
    }
    let mut i: usize = 0;
    while i + 6 <= part.len()
        invariant
            part@ == looked_at(response@),
            6 <= part@.len() <= RESPONSE_LIMIT,
            i + 5 <= part@.len(),
            forall|j: int| 0 <= j < i ==> #[trigger] part@.subrange(j, j + 6) != status_ok(),
        decreases part@.len() - i,
    {
        if matches_at(part, i) {
            return true;
        }
        i = i + 1;
    }
    false
}

/// The health checker of one backend.
#[derive(Debug)]
pub struct HealthCheckTask {
    backend_addr: String,
    protocol: ProbeProtocol,
    path: String,
    interval_ms: u64,
    timeout_ms: u64,
}

/// What a health checker is made of.
pub struct Checker {
    pub backend_addr: Seq<char>,
    pub protocol: ProbeProtocol,
    pub path: Seq<char>,
    pub interval_ms: u64,
    pub timeout_ms: u64,
}

impl View for HealthCheckTask {
    type V = Checker;

    closed spec fn view(&self) -> Checker {
        Checker {
            backend_addr: self.backend_addr@,
            protocol: self.protocol,
            path: self.path@,
            interval_ms: self.interval_ms,
            timeout_ms: self.timeout_ms,
        }
    }
}

/// The checker that `config` asks for: an HTTP probe where the protocol is
/// `http`, of the configured path or else of `/`, and a TCP probe for any
/// other protocol.
pub open spec fn checker_for(backend_addr: Seq<char>, config: HealthCheckConfig) -> Checker {
    Checker {
        backend_addr,
        protocol: if config.protocol@ == "http"@ {
            ProbeProtocol::Http
        } else {
            ProbeProtocol::Tcp
        },
        path: match config.path {
            Some(p) => p@,
            None => "/"@,
        },
        interval_ms: config.interval_ms,
        timeout_ms: config.timeout_ms,
    }
}

/// The health checker for the backend at `backend_addr`.
pub fn start_health_check(backend_addr: String, config: &HealthCheckConfig) -> (task:
    HealthCheckTask)
    ensures
        task@ == checker_for(backend_addr@, *config),
{
    let http = String::from_str("http");
    let protocol = if config.protocol == http {
        ProbeProtocol::Http
    } else {
        ProbeProtocol::Tcp
    };
    let path = match &config.path {
        Some(p) => p.clone(),
        None => String::from_str("/"),
    };
    HealthCheckTask {
        backend_addr,
        protocol,
        path,
        interval_ms: config.interval_ms,
        timeout_ms: config.timeout_ms,
    }
}

impl HealthCheckTask {
    /// The address that is probed.
    pub fn backend_addr(&self) -> (addr: &String)
        ensures
            addr@ == self@.backend_addr,
    {
        &self.backend_addr
    }

    pub fn protocol(&self) -> (protocol: ProbeProtocol)
        ensures
            protocol == self@.protocol,
    {
        self.protocol
    }

    /// The wait between two probes, in milliseconds.
    pub fn interval_ms(&self) -> (ms: u64)
        ensures
            ms == self@.interval_ms,
    {
        self.interval_ms
    }

    /// The deadline of one probe, in milliseconds.
    pub fn timeout_ms(&self) -> (ms: u64)
        ensures
            ms == self@.timeout_ms,
    {
        self.timeout_ms
    }

    /// The request that an HTTP probe sends; a TCP probe sends nothing.
    pub fn request(&self) -> (request: Option<String>)
        ensures
            match request {
                Some(text) => self@.protocol == ProbeProtocol::Http && text@ == http_request(
                    self@.backend_addr,
                    self@.path,
                ),
                None => self@.protocol == ProbeProtocol::Tcp,
            },
    {
        match self.protocol {
            ProbeProtocol::Tcp => None,
            ProbeProtocol::Http => {
                let mut text = String::from_str("GET ");
                text.append(self.path.as_str());
                text.append(" HTTP/1.1\r\nHost: ");
                text.append(self.backend_addr.as_str());
                text.append("\r\nConnection: close\r\n\r\n");
                Some(text)
            },
        }
    }

    /// Whether a probe with this outcome found the backend healthy.
    pub fn judge(&self, outcome: &ProbeOutcome) -> (healthy: bool)
        ensures
            healthy == passes(self@.protocol, *outcome),
    {
        match self.protocol {
            ProbeProtocol::Tcp => check_tcp(outcome),
            ProbeProtocol::Http => match outcome {
                ProbeOutcome::Response(bytes) => check_http(bytes),
                _ => false,
            },
        }
    }

    /// Reports the outcome of a probe to the balancer, which records the
    /// health it shows; a report on a backend that the balancer no longer has
    /// is dropped.
    pub fn report(&self, lb: &mut LoadBalancer, outcome: &ProbeOutcome) -> (change: HealthChange)
        requires
            old(lb)@.wf(),
        ensures
            final(lb)@ == old(lb)@.after_health(
                self@.backend_addr,
                passes(self@.protocol, *outcome),
            ),
            final(lb)@.wf(),
            change == old(lb)@.health_change(
                self@.backend_addr,
                passes(self@.protocol, *outcome),
            ),
    {
        let healthy = self.judge(outcome);
        lb.set_backend_health(self.backend_addr.as_str(), healthy)
    }
}

/// Where a health checker is in its round.
#[derive(Clone, Copy, Debug, PartialEq, Eq, Structural)]
pub enum HealthStage {
    /// It waits: before the first probe, or between two probes.
    Waiting,
    /// A probe is under way.
    Probing,
}

/// What the caller of a health checker is to do next.
#[derive(Clone, Copy, Debug, PartialEq, Eq, Structural)]
pub enum HealthAction {
    /// Wait this many milliseconds, then say so with `after_wait`.
    Wait(u64),
    /// Probe the backend with this deadline in milliseconds, then hand the
    /// outcome to `after_probe`.
    Probe(u64),
}

/// The round of a health checker: it waits, probes, reports, and waits again.
#[derive(Debug)]
pub struct HealthCheckLoop {
    task: HealthCheckTask,
    stage: HealthStage,
}

impl HealthCheckLoop {
    /// The checker that goes round.
    pub closed spec fn checker(&self) -> Checker {
        self.task@
    }

    /// Where the checker is in its round.
    pub closed spec fn stage(&self) -> HealthStage {
        self.stage
    }

    /// Starts the round of `task`: it begins with a short wait.
    pub fn begin(task: HealthCheckTask) -> (res: (HealthCheckLoop, HealthAction))
        ensures
            res.0.checker() == task@,
            res.0.stage() == HealthStage::Waiting,
            res.1 == HealthAction::Wait(INITIAL_DELAY_MS),
    {
        (
            HealthCheckLoop { task, stage: HealthStage::Waiting },
            HealthAction::Wait(INITIAL_DELAY_MS),
        )
    }

    /// The checker that goes round.
    pub fn task(&self) -> (task: &HealthCheckTask)
        ensures
            task@ == self.checker(),
    {
        &self.task
    }

    /// Where the checker is in its round.
    pub fn current_stage(&self) -> (stage: HealthStage)
        ensures
            stage == self.stage(),
    {
        self.stage
    }

    /// A wait is over: the backend is probed, with the configured deadline.
    pub fn after_wait(&mut self) -> (action: HealthAction)
        requires
            old(self).stage() == HealthStage::Waiting,
        ensures
            final(self).checker() == old(self).checker(),
            final(self).stage() == HealthStage::Probing,
            action == HealthAction::Probe(old(self).checker().timeout_ms),
    {
        self.stage = HealthStage::Probing;
        HealthAction::Probe(self.task.timeout_ms)
    }

    /// A probe is over: its outcome is reported to the balancer, and the
    /// checker waits for the configured interval.
    pub fn after_probe(&mut self, lb: &mut LoadBalancer, outcome: &ProbeOutcome) -> (res: (
        HealthChange,
        HealthAction,
    ))
        requires
            old(self).stage() == HealthStage::Probing,
            old(lb)@.wf(),
        ensures
            final(self).checker() == old(self).checker(),
            final(self).stage() == HealthStage::Waiting,
            final(lb)@ == old(lb)@.after_health(
                old(self).checker().backend_addr,
                passes(old(self).checker().protocol, *outcome),
            ),
            final(lb)@.wf(),
            res.0 == old(lb)@.health_change(
                old(self).checker().backend_addr,
                passes(old(self).checker().protocol, *outcome),
            ),
            res.1 == HealthAction::Wait(old(self).checker().interval_ms),
    {
        let change = self.task.report(lb, outcome);
        self.stage = HealthStage::Waiting;
        (change, HealthAction::Wait(self.task.interval_ms))
    }
}

/// The texts of a list.
pub open spec fn texts(list: Seq<String>) -> Seq<Seq<char>> {
    Seq::new(list.len(), |i: int| list[i]@)
}

/// The addresses that are to have a checker under `rule`: those of all its
/// backends where health checks are configured and switched on, and none
/// otherwise.
pub open spec fn checked_addrs(rule: LBRule) -> Seq<Seq<char>> {
    match rule.health_check {
        Some(hc) => if hc.enabled {
            Seq::new(rule.backends@.len(), |i: int| rule.backends@[i].spec_addr())
        } else {
            Seq::empty()
        },
        None => Seq::empty(),
    }
}

/// Of the first `n` texts of `from`, those that `other` lacks, each once, in
/// the order in which they come first.
pub open spec fn missing(from: Seq<Seq<char>>, other: Seq<Seq<char>>, n: int) -> Seq<Seq<char>>
    decreases n,
{
    if n <= 0 {
        Seq::empty()
    } else {
        let before = missing(from, other, n - 1);
        if other.contains(from[n - 1]) || before.contains(from[n - 1]) {
            before
        } else {
            before.push(from[n - 1])
        }
    }
}

fn includes(list: &Vec<String>, text: &String) -> (found: bool)
    ensures
        found == texts(list@).contains(text@),
{
    let mut i: usize = 0;
    while i < list.len()
        invariant
            i <= list@.len(),
            forall|j: int| 0 <= j < i ==> texts(list@)[j] != text@,
        decreases list@.len() - i,
    {
        if list[i] == *text {
            assert(texts(list@)[i as int] == text@);
            return true;
        }
        i = i + 1;
    }
    false
}

fn missing_from(from: &Vec<String>, other: &Vec<String>) -> (found: Vec<String>)
    ensures
        texts(found@) == missing(texts(from@), texts(other@), from@.len() as int),
{
    let mut found: Vec<String> = Vec::new();
    let mut i: usize = 0;
    assert(texts(found@) =~= Seq::<Seq<char>>::empty());
    while i < from.len()
        invariant
            i <= from@.len(),
            texts(found@) == missing(texts(from@), texts(other@), i as int),
        decreases from@.len() - i,
    {
        let ghost before = texts(found@);
        if !includes(other, &from[i]) && !includes(&found, &from[i]) {
            found.push(from[i].clone());
            assert(texts(found@) =~= before.push(texts(from@)[i as int]));
        }
        i = i + 1;
    }
    found
}

/// The checkers to start and to stop.
#[derive(Debug)]
pub struct CheckerChanges {
    /// Addresses that need a checker and have none.
    pub start: Vec<String>,
    /// Addresses that have a checker and need none.
    pub stop: Vec<String>,
}

/// Decides which checkers to start and which to stop, from the addresses that
/// have a checker running and the rule as it is now: every backend of the rule
/// is to have one checker where checks are switched on, and no other address
/// is to have one.
pub fn reconcile_checkers(live: &Vec<String>, rule: &LBRule) -> (changes: CheckerChanges)
    ensures
        texts(changes.start@) == missing(
            checked_addrs(*rule),
            texts(live@),
            checked_addrs(*rule).len() as int,
        ),
        texts(changes.stop@) == missing(texts(live@), checked_addrs(*rule), live@.len() as int),
{
    let mut wanted: Vec<String> = Vec::new();
    let enabled = match &rule.health_check {
        Some(hc) => hc.enabled,
        None => false,
    };
    if enabled {
        let mut i: usize = 0;
        while i < rule.backends.len()
            invariant
                i <= rule.backends@.len(),
                wanted@.len() == i,
                forall|j: int|
                    0 <= j < i ==> (#[trigger] wanted@[j])@ == rule.backends@[j].spec_addr(),
            decreases rule.backends@.len() - i,
        {
            wanted.push(rule.backends[i].addr().clone());
            i = i + 1;
        }
    }
    assert(texts(wanted@) =~= checked_addrs(*rule));
    CheckerChanges { start: missing_from(&wanted, live), stop: missing_from(live, &wanted) }
}

} // verus!
