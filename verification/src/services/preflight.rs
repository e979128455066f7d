//! The port preflight: a dry run that tells whether a set of host ports can
//! be published.
//!
//! Two authorities are asked, in this order. First the container engine:
//! every running container that is not the excluded one and publishes a
//! requested port is a conflict. Then the host: every requested port that no
//! container holds is probed by binding a listening socket to it.
//!
//! Neither authority can be asked from here, so the preflight is a state
//! machine. [`PortPreflight::step`] says what the caller must do next, and
//! [`PortPreflight::containers`] and [`PortPreflight::probed`] take the
//! answers. The model of a whole run, with the answers given up front, is
//! [`outcome`].

use crate::services::docker::{ContainerInfo, ContainerInfoView, PortBindingView};
use crate::text::{decimal, prefix_of_len, push_decimal, starts_with, take_chars};
use vstd::prelude::*;

verus! {

/// What became of an attempt to bind a listening socket to a port on all
/// interfaces.
#[derive(Debug, PartialEq, Eq)]
pub enum ProbeOutcome {
    /// The bind succeeded, and the socket was released again.
    Free,
    /// The bind failed because the address is in use.
    AddrInUse,
    /// The bind failed for want of permission.
    PermissionDenied,
    /// The bind failed for another reason, described by the text.
    Failed(String),
}

/// The mathematical model of a [`ProbeOutcome`].
pub enum ProbeOutcomeView {
    Free,
    AddrInUse,
    PermissionDenied,
    Failed(Seq<char>),
}

impl DeepView for ProbeOutcome {
    type V = ProbeOutcomeView;

    open spec fn deep_view(&self) -> ProbeOutcomeView {
        match self {
            ProbeOutcome::Free => ProbeOutcomeView::Free,
            ProbeOutcome::AddrInUse => ProbeOutcomeView::AddrInUse,
            ProbeOutcome::PermissionDenied => ProbeOutcomeView::PermissionDenied,
            ProbeOutcome::Failed(text) => ProbeOutcomeView::Failed(text@),
        }
    }
}

/// A requested port that something already holds.
#[derive(Debug, PartialEq, Eq)]
pub struct PortConflict {
    pub port: u16,
    pub occupied_by: String,
    /// Either `container` or `host-process`.
    pub occupant_type: String,
    pub occupant_container_id: Option<String>,
    pub occupant_image: Option<String>,
    pub suggestion: String,
}

impl Clone for PortConflict {
    fn clone(&self) -> (out: Self)
        ensures
            out == *self,
    {
        PortConflict {
            port: self.port,
            occupied_by: self.occupied_by.clone(),
            occupant_type: self.occupant_type.clone(),
            occupant_container_id: self.occupant_container_id.clone(),
            occupant_image: self.occupant_image.clone(),
            suggestion: self.suggestion.clone(),
        }
    }
}

/// The mathematical model of a [`PortConflict`].
pub struct PortConflictView {
    pub port: u16,
    pub occupied_by: Seq<char>,
    pub occupant_type: Seq<char>,
    pub occupant_container_id: Option<Seq<char>>,
    pub occupant_image: Option<Seq<char>>,
    pub suggestion: Seq<char>,
}

impl DeepView for PortConflict {
    type V = PortConflictView;

    open spec fn deep_view(&self) -> PortConflictView {
        PortConflictView {
            port: self.port,
            occupied_by: self.occupied_by@,
            occupant_type: self.occupant_type@,
            occupant_container_id: self.occupant_container_id.deep_view(),
            occupant_image: self.occupant_image.deep_view(),
            suggestion: self.suggestion@,
        }
    }
}

/// The finding of a preflight.
#[derive(Debug, PartialEq, Eq)]
pub struct PreflightResult {
    /// True exactly when there is no conflict.
    pub ok: bool,
    /// The requested ports without zeros and repetitions.
    pub requested_ports: Vec<u16>,
    pub conflicts: Vec<PortConflict>,
    /// Probes that could not be carried out. They never make `ok` false.
    pub warnings: Vec<String>,
}

impl Clone for PreflightResult {
    fn clone(&self) -> (out: Self)
        ensures
            out.deep_view() == self.deep_view(),
    {
        let conflicts = self.conflicts.clone();
        assert(conflicts@ =~= self.conflicts@);
        assert(conflicts.deep_view() =~= self.conflicts.deep_view());
        PreflightResult {
            ok: self.ok,
            requested_ports: self.requested_ports.clone(),
            conflicts,
            warnings: self.warnings.clone(),
        }
    }
}

/// The mathematical model of a [`PreflightResult`].
pub struct PreflightResultView {
    pub ok: bool,
    pub requested_ports: Seq<u16>,
    pub conflicts: Seq<PortConflictView>,
    pub warnings: Seq<Seq<char>>,
}

impl DeepView for PreflightResult {
    type V = PreflightResultView;

    open spec fn deep_view(&self) -> PreflightResultView {
        PreflightResultView {
            ok: self.ok,
            requested_ports: self.requested_ports@,
            conflicts: self.conflicts.deep_view(),
            warnings: self.warnings.deep_view(),
        }
    }
}

/// The requested ports in the order of their first occurrence, without zeros
/// and repetitions.
pub open spec fn normalized_ports(requested: Seq<u16>) -> Seq<u16>
    decreases requested.len(),
{
    if requested.len() == 0 {
        Seq::empty()
    } else {
        let before = normalized_ports(requested.drop_last());
        let port = requested.last();
        if port == 0 || before.contains(port) {
            before
        } else {
            before.push(port)
        }
    }
}

/// Whether the container `id` is the excluded one: the two identifiers are
/// equal, or one is a prefix of the other (an identifier may be given in full
/// or truncated).
pub open spec fn is_excluded(id: Seq<char>, exclude: Option<Seq<char>>) -> bool {
    match exclude {
        Some(excluded) => id == excluded || excluded.is_prefix_of(id) || id.is_prefix_of(excluded),
        None => false,
    }
}

/// The name under which a container is reported: its first name, or the
/// first twelve characters of its identifier when it has no name.
pub open spec fn occupant_name(container: ContainerInfoView) -> Seq<char> {
    if container.names.len() > 0 {
        container.names[0]
    } else {
        prefix_of_len(container.id, 12)
    }
}

/// The advice given for a port that a container holds.
pub open spec fn container_suggestion(port: u16, name: Seq<char>) -> Seq<char> {
    "Port "@ + decimal(port as nat) + " is already used by container '"@ + name
        + "'. Stop it first, or configure a different listening port."@
}

/// The advice given for a port that a host process holds.
pub open spec fn host_suggestion(port: u16) -> Seq<char> {
    "Port "@ + decimal(port as nat)
        + " is occupied by a host process. Stop that process or choose a different port."@
}

/// The warning given when a port could not be probed for want of permission.
pub open spec fn permission_warning(port: u16) -> Seq<char> {
    "Permission denied while probing host port "@ + decimal(port as nat)
        + ". Host-level occupancy could not be fully verified."@
}

/// The warning given when a probe failed for another reason.
pub open spec fn failure_warning(port: u16, reason: Seq<char>) -> Seq<char> {
    "Could not probe host port "@ + decimal(port as nat) + ": "@ + reason
}

/// The conflict reported when `container` publishes the requested `port`.
pub open spec fn container_conflict(container: ContainerInfoView, port: u16) -> PortConflictView {
    PortConflictView {
        port,
        occupied_by: occupant_name(container),
        occupant_type: "container"@,
        occupant_container_id: Some(container.id),
        occupant_image: Some(container.image),
        suggestion: container_suggestion(port, occupant_name(container)),
    }
}

/// The conflict reported when a host process holds the requested `port`.
pub open spec fn host_conflict(port: u16) -> PortConflictView {
    PortConflictView {
        port,
        occupied_by: "host process"@,
        occupant_type: "host-process"@,
        occupant_container_id: None,
        occupant_image: None,
        suggestion: host_suggestion(port),
    }
}

/// Whether `conflicts` holds an entry for `port`.
pub open spec fn flagged(conflicts: Seq<PortConflictView>, port: u16) -> bool {
    exists|i: int| 0 <= i < conflicts.len() && (#[trigger] conflicts[i]).port == port
}

/// `found`, extended by the conflicts that the bindings `ports` of
/// `container` give: one for each published port that is requested and has no
/// entry yet.
pub open spec fn scan_ports(
    container: ContainerInfoView,
    ports: Seq<PortBindingView>,
    requested: Seq<u16>,
    found: Seq<PortConflictView>,
) -> Seq<PortConflictView>
    decreases ports.len(),
{
    if ports.len() == 0 {
        found
    } else {
        let before = scan_ports(container, ports.drop_last(), requested, found);
        match ports.last().public_port {
            Some(port) => if requested.contains(port) && !flagged(before, port) {
                before.push(container_conflict(container, port))
            } else {
                before
            },
            None => before,
        }
    }
}

/// The conflicts that the running containers give, in the engine's order,
/// leaving out the excluded container.
pub open spec fn scan_containers(
    running: Seq<ContainerInfoView>,
    exclude: Option<Seq<char>>,
    requested: Seq<u16>,
) -> Seq<PortConflictView>
    decreases running.len(),
{
    if running.len() == 0 {
        Seq::empty()
    } else {
        let before = scan_containers(running.drop_last(), exclude, requested);
        let container = running.last();
        if is_excluded(container.id, exclude) {
            before
        } else {
            scan_ports(container, container.ports, requested, before)
        }
    }
}

/// The number of ports from index `from` on that need no probe because they
/// have an entry in `conflicts`, up to the first that has none.
pub open spec fn flagged_run(requested: Seq<u16>, conflicts: Seq<PortConflictView>, from: nat) -> nat
    decreases requested.len() - from,
{
    if from < requested.len() && flagged(conflicts, requested[from as int]) {
        1 + flagged_run(requested, conflicts, from + 1)
    } else {
        0
    }
}

/// The mathematical model of a [`PortPreflight`].
pub struct PortPreflightView {
    /// The normalized requested ports.
    pub requested: Seq<u16>,
    pub exclude: Option<Seq<char>>,
    /// Whether the engine's answer has been taken.
    pub scanned: bool,
    pub conflicts: Seq<PortConflictView>,
    pub warnings: Seq<Seq<char>>,
    /// The requested ports before this index are settled.
    pub next: nat,
}

/// What the caller of a preflight must do next.
#[derive(PartialEq, Eq, Structural, Clone, Copy, Debug)]
pub enum PreflightStep {
    /// Ask the engine for its running containers and hand them to
    /// [`PortPreflight::containers`].
    ListRunning,
    /// Try to bind a listening socket to this port on all interfaces,
    /// release it, and hand the outcome to [`PortPreflight::probed`].
    Probe(u16),
    /// Nothing is left to ask: take the finding with
    /// [`PortPreflight::finish`].
    Done,
}

impl PortPreflightView {
    /// The state in which a preflight starts.
    pub open spec fn begin(requested: Seq<u16>, exclude: Option<Seq<char>>) -> PortPreflightView {
        PortPreflightView {
            requested: normalized_ports(requested),
            exclude,
            scanned: false,
            conflicts: Seq::empty(),
            warnings: Seq::empty(),
            next: 0,
        }
    }

    /// The index of the next port to probe; the number of requested ports
    /// when none is left.
    pub open spec fn pending(self) -> nat {
        self.next + flagged_run(self.requested, self.conflicts, self.next)
    }

    /// What the caller must do next. With nothing requested the preflight is
    /// done at once, and the engine is never asked.
    pub open spec fn step(self) -> PreflightStep {
        if self.requested.len() == 0 {
            PreflightStep::Done
        } else if !self.scanned {
            PreflightStep::ListRunning
        } else if self.pending() < self.requested.len() {
            PreflightStep::Probe(self.requested[self.pending() as int])
        } else {
            PreflightStep::Done
        }
    }

    /// The state after the engine listed `running`. Outside the step
    /// `ListRunning` the answer is ignored.
    pub open spec fn after_scan(self, running: Seq<ContainerInfoView>) -> PortPreflightView {
        if self.step() is ListRunning {
            PortPreflightView {
                scanned: true,
                conflicts: scan_containers(running, self.exclude, self.requested),
                ..self
            }
        } else {
            self
        }
    }

    /// The state after the pending port was probed. Outside a step `Probe`
    /// the answer is ignored.
    pub open spec fn after_probe(self, outcome: ProbeOutcomeView) -> PortPreflightView {
        match self.step() {
            PreflightStep::Probe(port) => {
                let next = self.pending() + 1;
                match outcome {
                    ProbeOutcomeView::Free => PortPreflightView { next, ..self },
                    ProbeOutcomeView::AddrInUse => PortPreflightView {
                        next,
                        conflicts: self.conflicts.push(host_conflict(port)),
                        ..self
                    },
                    ProbeOutcomeView::PermissionDenied => PortPreflightView {
                        next,
                        warnings: self.warnings.push(permission_warning(port)),
                        ..self
                    },
                    ProbeOutcomeView::Failed(reason) => PortPreflightView {
                        next,
                        warnings: self.warnings.push(failure_warning(port, reason)),
                        ..self
                    },
                }
            },
            _ => self,
        }
    }

    /// What has been found so far.
    pub open spec fn result(self) -> PreflightResultView {
        PreflightResultView {
            ok: self.conflicts.len() == 0,
            requested_ports: self.requested,
            conflicts: self.conflicts,
            warnings: self.warnings,
        }
    }

    /// The state after every pending port was probed, where `host` says what
    /// a probe of each port gives.
    pub open spec fn probe_all(self, host: spec_fn(u16) -> ProbeOutcomeView) -> PortPreflightView
        decreases self.requested.len() - self.next,
    {
        match self.step() {
            PreflightStep::Probe(port) => self.after_probe(host(port)).probe_all(host),
            _ => self,
        }
    }
}

/// The finding of a whole preflight for `requested` with `exclude`, where the
/// engine lists `running` and `host` says what a probe of each port gives.
pub open spec fn outcome(
    requested: Seq<u16>,
    exclude: Option<Seq<char>>,
    running: Seq<ContainerInfoView>,
    host: spec_fn(u16) -> ProbeOutcomeView,
) -> PreflightResultView {
    PortPreflightView::begin(requested, exclude).after_scan(running).probe_all(host).result()
}

/// A preflight in progress.
#[derive(Debug, PartialEq, Eq)]
pub struct PortPreflight {
    requested: Vec<u16>,
    exclude: Option<String>,
    scanned: bool,
    conflicts: Vec<PortConflict>,
    warnings: Vec<String>,
    next: usize,
}

impl DeepView for PortPreflight {
    type V = PortPreflightView;

    closed spec fn deep_view(&self) -> PortPreflightView {
        PortPreflightView {
            requested: self.requested@,
            exclude: self.exclude.deep_view(),
            scanned: self.scanned,
            conflicts: self.conflicts.deep_view(),
            warnings: self.warnings.deep_view(),
            next: self.next as nat,
        }
    }
}

/// Whether `ports` holds `port`.
fn holds(ports: &Vec<u16>, port: u16) -> (out: bool)
    ensures
        out == ports@.contains(port),
{
    let mut i: usize = 0;
    while i < ports.len()
        invariant
            i <= ports.len(),
            forall|j: int| 0 <= j < i ==> ports@[j] != port,
        decreases ports.len() - i,
    {
        if ports[i] == port {
            return true;
        }
        i += 1;
    }
    false
}

/// Whether `conflicts` holds an entry for `port`.
fn is_flagged(conflicts: &Vec<PortConflict>, port: u16) -> (out: bool)
    ensures
        out == flagged(conflicts.deep_view(), port),
{
    let mut i: usize = 0;
    while i < conflicts.len()
        invariant
            i <= conflicts.len(),
            forall|j: int| 0 <= j < i ==> (#[trigger] conflicts.deep_view()[j]).port != port,
        decreases conflicts.len() - i,
    {
        if conflicts[i].port == port {
            assert(conflicts.deep_view()[i as int].port == port);
            return true;
        }
        i += 1;
    }
    false
}

/// Whether the container `id` is the excluded one.
fn id_excluded(id: &str, exclude: &Option<String>) -> (out: bool)
    ensures
        out == is_excluded(id@, exclude.deep_view()),
{
    match exclude {
        Some(excluded) => id.eq(excluded.as_str()) || starts_with(id, excluded.as_str())
            || starts_with(excluded.as_str(), id),
        None => false,
    }
}

/// The conflict reported when `container` publishes the requested `port`.
fn conflict_with_container(container: &ContainerInfo, port: u16) -> (out: PortConflict)
    ensures
        out.deep_view() == container_conflict(container.deep_view(), port),
{
    let name: String = if container.names.len() > 0 {
        container.names[0].clone()
    } else {
        take_chars(container.id.as_str(), 12).to_owned()
    };
    let mut suggestion = "Port ".to_string();
    push_decimal(&mut suggestion, port as u64);
    suggestion.append(" is already used by container '");
    suggestion.append(name.as_str());
    suggestion.append("'. Stop it first, or configure a different listening port.");
    PortConflict {
        port,
        occupied_by: name,
        occupant_type: "container".to_string(),
        occupant_container_id: Some(container.id.clone()),
        occupant_image: Some(container.image.clone()),
        suggestion,
    }
}

/// The conflict reported when a host process holds the requested `port`.
fn conflict_with_host(port: u16) -> (out: PortConflict)
    ensures
        out.deep_view() == host_conflict(port),
{
    let mut suggestion = "Port ".to_string();
    push_decimal(&mut suggestion, port as u64);
    suggestion.append(
        " is occupied by a host process. Stop that process or choose a different port.",
    );
    PortConflict {
        port,
        occupied_by: "host process".to_string(),
        occupant_type: "host-process".to_string(),
        occupant_container_id: None,
        occupant_image: None,
        suggestion,
    }
}

/// Extends `found` by the conflicts that the port bindings of `container`
/// give.
fn scan_container(container: &ContainerInfo, requested: &Vec<u16>, found: &mut Vec<PortConflict>)
    ensures
        final(found).deep_view() == scan_ports(
            container.deep_view(),
            container.deep_view().ports,
            requested@,
            old(found).deep_view(),
        ),
{
    let ghost model = container.deep_view();
    let ghost start = found.deep_view();
    let mut j: usize = 0;
    while j < container.ports.len()
        invariant
            j <= container.ports.len(),
            model == container.deep_view(),
            found.deep_view() == scan_ports(model, model.ports.take(j as int), requested@, start),
        decreases container.ports.len() - j,
    {
        let ghost before = found.deep_view();
        proof {
            assert(model.ports.take(j + 1).drop_last() =~= model.ports.take(j as int));
            assert(model.ports.take(j + 1).last() == container.ports@[j as int].deep_view());
        }
        match container.ports[j].public_port {
            Some(port) => {
                if holds(requested, port) && !is_flagged(found, port) {
                    let conflict = conflict_with_container(container, port);
                    found.push(conflict);
                    assert(found.deep_view() =~= before.push(container_conflict(model, port)));
                }
            },
            None => {},
        }
        j += 1;
    }
    assert(model.ports.take(j as int) =~= model.ports);
}

impl PortPreflight {
    /// Starts a preflight for `requested`, leaving out the container
    /// `exclude` if one is given.
    pub fn new(requested: &[u16], exclude: Option<&str>) -> (out: PortPreflight)
        ensures
            out.deep_view() == PortPreflightView::begin(requested@, exclude.deep_view()),
    {
        let mut ports: Vec<u16> = Vec::new();
        let mut i: usize = 0;
        while i < requested.len()
            invariant
                i <= requested.len(),
                ports@ == normalized_ports(requested@.take(i as int)),
            decreases requested.len() - i,
        {
            proof {
                assert(requested@.take(i + 1).drop_last() =~= requested@.take(i as int));
            }
            let port: u16 = requested[i];
            if port != 0 && !holds(&ports, port) {
                ports.push(port);
            }
            i += 1;
        }
        assert(requested@.take(i as int) =~= requested@);
        let excluded: Option<String> = match exclude {
            Some(id) => Some(id.to_owned()),
            None => None,
        };
        let out = PortPreflight {
            requested: ports,
            exclude: excluded,
            scanned: false,
            conflicts: Vec::new(),
            warnings: Vec::new(),
            next: 0,
        };
        assert(out.conflicts.deep_view() =~= Seq::empty());
        assert(out.warnings.deep_view() =~= Seq::empty());
        out
    }

    /// The index of the next port to probe.
    fn pending(&self) -> (out: usize)
        ensures
            out == self.deep_view().pending(),
    {
        let mut k: usize = self.next;
        while k < self.requested.len() && is_flagged(&self.conflicts, self.requested[k])
            invariant
                self.next <= k,
                self.next < self.requested.len() ==> k <= self.requested.len(),
                flagged_run(self.requested@, self.conflicts.deep_view(), self.next as nat) == (k
                    - self.next) + flagged_run(
                    self.requested@,
                    self.conflicts.deep_view(),
                    k as nat,
                ),
            decreases self.requested.len() - k,
        {
            k += 1;
        }
        k
    }

    /// What the caller must do next.
    pub fn step(&self) -> (out: PreflightStep)
        ensures
            out == self.deep_view().step(),
    {
        if self.requested.len() == 0 {
            PreflightStep::Done
        } else if !self.scanned {
            PreflightStep::ListRunning
        } else {
            let k = self.pending();
            if k < self.requested.len() {
                PreflightStep::Probe(self.requested[k])
            } else {
                PreflightStep::Done
            }
        }
    }

    /// Takes the engine's list of running containers. Outside the step
    /// `ListRunning` the list is ignored.
    pub fn containers(&mut self, running: &Vec<ContainerInfo>)
        ensures
            final(self).deep_view() == old(self).deep_view().after_scan(running.deep_view()),
    {
        if self.requested.len() == 0 || self.scanned {
            return ;
        }
        let ghost all = running.deep_view();
        let mut found: Vec<PortConflict> = Vec::new();
        let mut i: usize = 0;
        assert(found.deep_view() =~= Seq::empty());
        while i < running.len()
            invariant
                i <= running.len(),
                all == running.deep_view(),
                *self == *old(self),
                found.deep_view() == scan_containers(
                    all.take(i as int),
                    self.exclude.deep_view(),
                    self.requested@,
                ),
            decreases running.len() - i,
        {
            proof {
                assert(all.take(i + 1).drop_last() =~= all.take(i as int));
                assert(all.take(i + 1).last() == running@[i as int].deep_view());
            }
            if !id_excluded(running[i].id.as_str(), &self.exclude) {
                scan_container(&running[i], &self.requested, &mut found);
            }
            i += 1;
        }
        assert(all.take(i as int) =~= all);
        self.conflicts = found;
        self.scanned = true;
    }

    /// Takes the outcome of the probe of the pending port. Outside a step
    /// `Probe` the outcome is ignored.
    pub fn probed(&mut self, outcome: ProbeOutcome)
        ensures
            final(self).deep_view() == old(self).deep_view().after_probe(outcome.deep_view()),
    {
        if self.requested.len() == 0 || !self.scanned {
            return ;
        }
        let k = self.pending();
        if k >= self.requested.len() {
            return ;
        }
        let port: u16 = self.requested[k];
        let ghost conflicts = self.conflicts.deep_view();
        let ghost warnings = self.warnings.deep_view();
        match outcome {
            ProbeOutcome::Free => {},
            ProbeOutcome::AddrInUse => {
                self.conflicts.push(conflict_with_host(port));
                assert(self.conflicts.deep_view() =~= conflicts.push(host_conflict(port)));
            },
            ProbeOutcome::PermissionDenied => {
                let mut warning = "Permission denied while probing host port ".to_string();
                push_decimal(&mut warning, port as u64);
                warning.append(". Host-level occupancy could not be fully verified.");
                self.warnings.push(warning);
                assert(self.warnings.deep_view() =~= warnings.push(permission_warning(port)));
            },
            ProbeOutcome::Failed(reason) => {
                let mut warning = "Could not probe host port ".to_string();
                push_decimal(&mut warning, port as u64);
                warning.append(": ");
                warning.append(reason.as_str());
                self.warnings.push(warning);
                assert(self.warnings.deep_view() =~= warnings.push(
                    failure_warning(port, reason@),
                ));
            },
        }
        self.next = k + 1;
    }

    /// The finding, once the preflight is done; `None` while something is
    /// left to ask.
    pub fn finish(self) -> (out: Option<PreflightResult>)
        ensures
            out is Some == (self.deep_view().step() is Done),
            out is Some ==> out->0.deep_view() == self.deep_view().result(),
    {
        match self.step() {
            PreflightStep::Done => {
                let ok = self.conflicts.len() == 0;
                Some(
                    PreflightResult {
                        ok,
                        requested_ports: self.requested,
                        conflicts: self.conflicts,
                        warnings: self.warnings,
                    },
                )
            },
            _ => None,
        }
    }
}

} // verus!
