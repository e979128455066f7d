//! What holds of every preflight, proved over the model of a whole run.

use crate::services::docker::{ContainerInfoView, PortBindingView};
use crate::services::preflight::{
    container_conflict, flagged, flagged_run, host_conflict, is_excluded, normalized_ports,
    outcome, scan_containers, scan_ports, PortConflictView, PortPreflightView, PreflightStep,
    ProbeOutcomeView,
};
use vstd::prelude::*;

verus! {

/// One of `ports` publishes the host port `port`.
pub open spec fn published_in(ports: Seq<PortBindingView>, port: u16) -> bool {
    exists|j: int| 0 <= j < ports.len() && (#[trigger] ports[j]).public_port == Some(port)
}

/// A running container that is not excluded publishes the host port `port`.
pub open spec fn held_by_container(
    running: Seq<ContainerInfoView>,
    exclude: Option<Seq<char>>,
    port: u16,
) -> bool {
    exists|i: int|
        0 <= i < running.len() && !is_excluded((#[trigger] running[i]).id, exclude)
            && published_in(running[i].ports, port)
}

/// `entry` is the conflict that a running container that is not excluded
/// gives for a port it publishes.
pub open spec fn names_running_container(
    entry: PortConflictView,
    running: Seq<ContainerInfoView>,
    exclude: Option<Seq<char>>,
) -> bool {
    exists|i: int|
        0 <= i < running.len() && !is_excluded((#[trigger] running[i]).id, exclude)
            && published_in(running[i].ports, entry.port) && entry == container_conflict(
            running[i],
            entry.port,
        )
}

/// No two entries of `conflicts` are for the same port.
pub open spec fn distinct_ports(conflicts: Seq<PortConflictView>) -> bool {
    forall|i: int, j: int|
        0 <= i < j < conflicts.len() ==> (#[trigger] conflicts[i]).port != (
        #[trigger] conflicts[j]).port
}

/// `conflicts` holds exactly one entry for `port`, and it is `entry`.
pub open spec fn sole_entry_for(
    conflicts: Seq<PortConflictView>,
    port: u16,
    entry: PortConflictView,
) -> bool {
    exists|i: int|
        0 <= i < conflicts.len() && #[trigger] conflicts[i] == entry && entry.port == port
            && forall|j: int|
            0 <= j < conflicts.len() && (#[trigger] conflicts[j]).port == port ==> j == i
}

/// `longer` begins with `shorter`.
pub open spec fn extends(longer: Seq<PortConflictView>, shorter: Seq<PortConflictView>) -> bool {
    shorter.len() <= longer.len() && forall|i: int|
        0 <= i < shorter.len() ==> #[trigger] longer[i] == shorter[i]
}

proof fn lemma_flagged_push(conflicts: Seq<PortConflictView>, entry: PortConflictView, port: u16)
    ensures
        flagged(conflicts.push(entry), port) <==> flagged(conflicts, port) || entry.port == port,
{
    let longer = conflicts.push(entry);
    if flagged(conflicts, port) {
        let i = choose|i: int| 0 <= i < conflicts.len() && (#[trigger] conflicts[i]).port == port;
        assert(longer[i].port == port);
    }
    if entry.port == port {
        assert(longer[conflicts.len() as int].port == port);
    }
    if flagged(longer, port) {
        let i = choose|i: int| 0 <= i < longer.len() && (#[trigger] longer[i]).port == port;
        if i < conflicts.len() {
            assert(conflicts[i].port == port);
        }
    }
}

proof fn lemma_flagged_extends(
    longer: Seq<PortConflictView>,
    shorter: Seq<PortConflictView>,
    port: u16,
)
    requires
        extends(longer, shorter),
        flagged(shorter, port),
    ensures
        flagged(longer, port),
{
    let i = choose|i: int| 0 <= i < shorter.len() && (#[trigger] shorter[i]).port == port;
    assert(longer[i].port == port);
}

proof fn lemma_distinct_push(conflicts: Seq<PortConflictView>, entry: PortConflictView)
    requires
        distinct_ports(conflicts),
        !flagged(conflicts, entry.port),
    ensures
        distinct_ports(conflicts.push(entry)),
{
    let longer = conflicts.push(entry);
    assert forall|i: int, j: int| 0 <= i < j < longer.len() implies (#[trigger] longer[i]).port != (
    #[trigger] longer[j]).port by {
        if j < conflicts.len() {
            assert(conflicts[i].port != conflicts[j].port);
        } else {
            assert(conflicts[i].port != entry.port);
        }
    }
}

/// An entry for `port` in a list without repetitions is the only one.
proof fn lemma_sole_entry(conflicts: Seq<PortConflictView>, at: int)
    requires
        distinct_ports(conflicts),
        0 <= at < conflicts.len(),
    ensures
        sole_entry_for(conflicts, conflicts[at].port, conflicts[at]),
{
    let port = conflicts[at].port;
    assert forall|j: int| 0 <= j < conflicts.len() && (#[trigger] conflicts[j]).port == port implies j
        == at by {
        if j < at {
            assert(conflicts[j].port != conflicts[at].port);
        }
        if at < j {
            assert(conflicts[at].port != conflicts[j].port);
        }
    }
}

proof fn lemma_published_in_longer(ports: Seq<PortBindingView>, port: u16)
    requires
        ports.len() > 0,
        published_in(ports.drop_last(), port),
    ensures
        published_in(ports, port),
{
    let shorter = ports.drop_last();
    let j = choose|j: int| 0 <= j < shorter.len() && (#[trigger] shorter[j]).public_port == Some(port);
    assert(ports[j].public_port == Some(port));
}

proof fn lemma_published_in_shorter(ports: Seq<PortBindingView>, port: u16)
    requires
        ports.len() > 0,
        published_in(ports, port),
        ports.last().public_port != Some(port),
    ensures
        published_in(ports.drop_last(), port),
{
    let shorter = ports.drop_last();
    let j = choose|j: int| 0 <= j < ports.len() && (#[trigger] ports[j]).public_port == Some(port);
    assert(shorter[j].public_port == Some(port));
}

/// What one container adds to the conflicts found so far.
proof fn lemma_scan_ports(
    container: ContainerInfoView,
    ports: Seq<PortBindingView>,
    requested: Seq<u16>,
    found: Seq<PortConflictView>,
)
    ensures
        extends(scan_ports(container, ports, requested, found), found),
        forall|k: int|
            found.len() <= k < scan_ports(container, ports, requested, found).len() ==> {
                let entry = #[trigger] scan_ports(container, ports, requested, found)[k];
                entry == container_conflict(container, entry.port) && published_in(
                    ports,
                    entry.port,
                ) && requested.contains(entry.port)
            },
        forall|port: u16|
            flagged(#[trigger] scan_ports(container, ports, requested, found), port) <==> flagged(
                found,
                port,
            ) || (requested.contains(port) && published_in(ports, port)),
        distinct_ports(found) ==> distinct_ports(scan_ports(container, ports, requested, found)),
    decreases ports.len(),
{
    let all = scan_ports(container, ports, requested, found);
    if ports.len() == 0 {
        assert forall|port: u16| !published_in(ports, port) by {}
    } else {
        let shorter = ports.drop_last();
        let before = scan_ports(container, shorter, requested, found);
        lemma_scan_ports(container, shorter, requested, found);
        let added = match ports.last().public_port {
            Some(port) => requested.contains(port) && !flagged(before, port),
            None => false,
        };
        assert forall|k: int| found.len() <= k < all.len() implies {
            let entry = #[trigger] all[k];
            entry == container_conflict(container, entry.port) && published_in(ports, entry.port)
                && requested.contains(entry.port)
        } by {
            if k < before.len() {
                assert(all[k] == before[k]);
                lemma_published_in_longer(ports, before[k].port);
            } else {
                assert(ports[ports.len() - 1].public_port == Some(all[k].port));
            }
        }
        assert forall|port: u16| flagged(all, port) <==> flagged(found, port) || (
        requested.contains(port) && published_in(ports, port)) by {
            if added {
                lemma_flagged_push(
                    before,
                    container_conflict(container, ports.last().public_port->0),
                    port,
                );
            }
            if published_in(shorter, port) {
                lemma_published_in_longer(ports, port);
            }
            if ports.last().public_port == Some(port) {
                assert(ports[ports.len() - 1].public_port == Some(port));
            } else if published_in(ports, port) {
                lemma_published_in_shorter(ports, port);
            }
        }
        if added && distinct_ports(found) {
            lemma_distinct_push(before, container_conflict(container, ports.last().public_port->0));
        }
    }
}

/// What the container scan finds.
pub proof fn lemma_scan_containers(
    running: Seq<ContainerInfoView>,
    exclude: Option<Seq<char>>,
    requested: Seq<u16>,
)
    ensures
        forall|k: int|
            0 <= k < scan_containers(running, exclude, requested).len() ==> {
                let entry = #[trigger] scan_containers(running, exclude, requested)[k];
                names_running_container(entry, running, exclude) && requested.contains(entry.port)
            },
        forall|port: u16|
            flagged(#[trigger] scan_containers(running, exclude, requested), port) <==> (
            requested.contains(port) && held_by_container(running, exclude, port)),
        distinct_ports(scan_containers(running, exclude, requested)),
    decreases running.len(),
{
    let all = scan_containers(running, exclude, requested);
    if running.len() == 0 {
        assert forall|port: u16| !flagged(all, port) by {}
        assert forall|port: u16| !held_by_container(running, exclude, port) by {}
    } else {
        let shorter = running.drop_last();
        let before = scan_containers(shorter, exclude, requested);
        let container = running.last();
        let n = running.len() - 1;
        lemma_scan_containers(shorter, exclude, requested);
        if !is_excluded(container.id, exclude) {
            lemma_scan_ports(container, container.ports, requested, before);
        }
        assert forall|k: int| 0 <= k < all.len() implies {
            let entry = #[trigger] all[k];
            names_running_container(entry, running, exclude) && requested.contains(entry.port)
        } by {
            let entry = all[k];
            if k < before.len() {
                assert(all[k] == before[k]);
                let i = choose|i: int|
                    0 <= i < shorter.len() && !is_excluded((#[trigger] shorter[i]).id, exclude)
                        && published_in(shorter[i].ports, entry.port) && entry
                        == container_conflict(shorter[i], entry.port);
                assert(running[i] == shorter[i]);
            } else {
                assert(running[n] == container);
            }
        }
        assert forall|port: u16| flagged(all, port) <==> (requested.contains(port)
            && held_by_container(running, exclude, port)) by {
            if held_by_container(shorter, exclude, port) {
                let i = choose|i: int|
                    0 <= i < shorter.len() && !is_excluded((#[trigger] shorter[i]).id, exclude)
                        && published_in(shorter[i].ports, port);
                assert(running[i] == shorter[i]);
            }
            if !is_excluded(container.id, exclude) && published_in(container.ports, port) {
                assert(running[n] == container);
            }
            if held_by_container(running, exclude, port) {
                let i = choose|i: int|
                    0 <= i < running.len() && !is_excluded((#[trigger] running[i]).id, exclude)
                        && published_in(running[i].ports, port);
                if i < n {
                    assert(shorter[i] == running[i]);
                }
            }
        }
    }
}

/// The ports between `from` and the end of the flagged run are flagged, and
/// the port after the run, if there is one, is not.
proof fn lemma_flagged_run(requested: Seq<u16>, conflicts: Seq<PortConflictView>, from: nat)
    ensures
        from <= requested.len() ==> from + flagged_run(requested, conflicts, from)
            <= requested.len(),
        forall|i: int|
            from <= i < from + flagged_run(requested, conflicts, from) ==> flagged(
                conflicts,
                #[trigger] requested[i],
            ),
        from + flagged_run(requested, conflicts, from) < requested.len() ==> !flagged(
            conflicts,
            requested[(from + flagged_run(requested, conflicts, from)) as int],
        ),
    decreases requested.len() - from,
{
    if from < requested.len() && flagged(conflicts, requested[from as int]) {
        lemma_flagged_run(requested, conflicts, from + 1);
    }
}

/// One host conflict is an entry that the host scan added.
pub open spec fn names_host_process(
    entry: PortConflictView,
    requested: Seq<u16>,
    host: spec_fn(u16) -> ProbeOutcomeView,
) -> bool {
    entry == host_conflict(entry.port) && requested.contains(entry.port) && host(entry.port)
        is AddrInUse
}

/// What the host scan adds to the state it starts from.
proof fn lemma_probe_all(state: PortPreflightView, host: spec_fn(u16) -> ProbeOutcomeView)
    requires
        state.scanned,
        state.requested.len() > 0,
        state.next <= state.requested.len(),
    ensures
        state.probe_all(host).step() is Done,
        state.probe_all(host).requested == state.requested,
        extends(state.probe_all(host).conflicts, state.conflicts),
        forall|k: int|
            state.conflicts.len() <= k < state.probe_all(host).conflicts.len()
                ==> names_host_process(
                #[trigger] state.probe_all(host).conflicts[k],
                state.requested,
                host,
            ) && !flagged(state.conflicts, state.probe_all(host).conflicts[k].port),
        forall|i: int|
            state.next <= i < state.requested.len() && host(#[trigger] state.requested[i])
                is AddrInUse ==> flagged(state.probe_all(host).conflicts, state.requested[i]),
        distinct_ports(state.conflicts) ==> distinct_ports(state.probe_all(host).conflicts),
        (forall|i: int|
            state.next <= i < state.requested.len() ==> host(#[trigger] state.requested[i])
                is Free || host(state.requested[i]) is AddrInUse) ==> state.probe_all(
            host,
        ).warnings == state.warnings,
    decreases state.requested.len() - state.next,
{
    let requested = state.requested;
    let end = state.probe_all(host);
    lemma_flagged_run(requested, state.conflicts, state.next);
    let at = state.pending() as int;
    match state.step() {
        PreflightStep::Probe(port) => {
            let after = state.after_probe(host(port));
            assert(port == requested[at]);
            assert(requested.contains(port));
            lemma_probe_all(after, host);
            assert(end == after.probe_all(host));
            assert(extends(after.conflicts, state.conflicts));
            assert forall|k: int| state.conflicts.len() <= k < end.conflicts.len() implies (
            names_host_process(#[trigger] end.conflicts[k], requested, host) && !flagged(
                state.conflicts,
                end.conflicts[k].port,
            )) by {
                if k < after.conflicts.len() {
                    assert(end.conflicts[k] == after.conflicts[k]);
                } else {
                    if flagged(state.conflicts, end.conflicts[k].port) {
                        lemma_flagged_extends(
                            after.conflicts,
                            state.conflicts,
                            end.conflicts[k].port,
                        );
                    }
                }
            }
            assert forall|i: int|
                state.next <= i < requested.len() && host(#[trigger] requested[i])
                    is AddrInUse implies flagged(end.conflicts, requested[i]) by {
                if i < at {
                    lemma_flagged_extends(end.conflicts, state.conflicts, requested[i]);
                } else if i == at {
                    lemma_flagged_push(state.conflicts, host_conflict(port), port);
                    lemma_flagged_extends(end.conflicts, after.conflicts, port);
                }
            }
            if distinct_ports(state.conflicts) {
                if host(port) is AddrInUse {
                    lemma_distinct_push(state.conflicts, host_conflict(port));
                }
            }
            if forall|i: int|
                state.next <= i < requested.len() ==> host(#[trigger] requested[i]) is Free || host(
                    requested[i],
                ) is AddrInUse {
                assert(host(requested[at]) is Free || host(requested[at]) is AddrInUse);
                assert forall|i: int| after.next <= i < requested.len() implies host(
                    #[trigger] requested[i],
                ) is Free || host(requested[i]) is AddrInUse by {}
            }
        },
        _ => {},
    }
}

/// The normalized ports hold no zero and no port twice, and exactly the
/// requested ports other than zero.
pub proof fn lemma_normalized_ports(requested: Seq<u16>)
    ensures
        forall|i: int|
            0 <= i < normalized_ports(requested).len() ==> #[trigger] normalized_ports(
                requested,
            )[i] != 0,
        forall|i: int, j: int|
            0 <= i < j < normalized_ports(requested).len() ==> normalized_ports(requested)[i]
                != normalized_ports(requested)[j],
        forall|port: u16|
            #[trigger] normalized_ports(requested).contains(port) <==> (port != 0
                && requested.contains(port)),
    decreases requested.len(),
{
    let all = normalized_ports(requested);
    if requested.len() > 0 {
        let shorter = requested.drop_last();
        let before = normalized_ports(shorter);
        let last = requested.last();
        lemma_normalized_ports(shorter);
        assert forall|port: u16| #[trigger] all.contains(port) <==> (port != 0
            && requested.contains(port)) by {
            if shorter.contains(port) {
                let i = choose|i: int| 0 <= i < shorter.len() && shorter[i] == port;
                assert(requested[i] == port);
            }
            if requested.contains(port) && port != last {
                let i = choose|i: int| 0 <= i < requested.len() && requested[i] == port;
                assert(shorter[i] == port);
            }
            assert(requested[requested.len() - 1] == last);
            if all.contains(port) && !before.contains(port) {
                let i = choose|i: int| 0 <= i < all.len() && all[i] == port;
                if i < before.len() {
                    assert(before[i] == port);
                }
            }
            if before.contains(port) {
                let i = choose|i: int| 0 <= i < before.len() && before[i] == port;
                assert(all[i] == port);
            }
            if last != 0 && !before.contains(last) {
                assert(all[before.len() as int] == last);
            }
        }
        assert forall|i: int, j: int| 0 <= i < j < all.len() implies all[i] != all[j] by {
            if j == before.len() {
                assert(before[i] == all[i]);
                assert(before.contains(all[i]));
            }
        }
    }
}

/// Whatever the engine and the host answer: the finding is `ok` exactly when
/// it holds no conflict; it lists the requested ports other than zero, each
/// once; it holds at most one conflict for a port; and every conflict is for
/// a requested port, and is either the one that a running container outside
/// the exclusion gives, or the one that a host probe answered with "address
/// in use" gives.
pub proof fn lemma_outcome_is_well_formed(
    requested: Seq<u16>,
    exclude: Option<Seq<char>>,
    running: Seq<ContainerInfoView>,
    host: spec_fn(u16) -> ProbeOutcomeView,
)
    ensures
        outcome(requested, exclude, running, host).ok == (outcome(
            requested,
            exclude,
            running,
            host,
        ).conflicts.len() == 0),
        outcome(requested, exclude, running, host).requested_ports == normalized_ports(requested),
        distinct_ports(outcome(requested, exclude, running, host).conflicts),
        forall|k: int|
            0 <= k < outcome(requested, exclude, running, host).conflicts.len() ==> {
                let entry = #[trigger] outcome(requested, exclude, running, host).conflicts[k];
                &&& normalized_ports(requested).contains(entry.port)
                &&& names_running_container(entry, running, exclude) || names_host_process(
                    entry,
                    normalized_ports(requested),
                    host,
                )
            },
{
    let ports = normalized_ports(requested);
    let start = PortPreflightView::begin(requested, exclude);
    let scanned = start.after_scan(running);
    if ports.len() > 0 {
        lemma_scan_containers(running, exclude, ports);
        lemma_probe_all(scanned, host);
        let end = scanned.probe_all(host);
        assert forall|k: int| 0 <= k < end.conflicts.len() implies {
            let entry = #[trigger] end.conflicts[k];
            &&& ports.contains(entry.port)
            &&& names_running_container(entry, running, exclude) || names_host_process(
                entry,
                ports,
                host,
            )
        } by {
            if k < scanned.conflicts.len() {
                assert(end.conflicts[k] == scanned.conflicts[k]);
            }
        }
    } else {
        assert(distinct_ports(Seq::<PortConflictView>::empty()));
    }
}

/// Where no running container outside the exclusion publishes a requested
/// port and every probe finds its port free, the finding is `ok`, with no
/// conflict and no warning.
pub proof fn lemma_free_ports_pass(
    requested: Seq<u16>,
    exclude: Option<Seq<char>>,
    running: Seq<ContainerInfoView>,
    host: spec_fn(u16) -> ProbeOutcomeView,
)
    requires
        forall|port: u16|
            #[trigger] normalized_ports(requested).contains(port) ==> !held_by_container(
                running,
                exclude,
                port,
            ) && host(port) is Free,
    ensures
        outcome(requested, exclude, running, host).ok,
        outcome(requested, exclude, running, host).conflicts == Seq::<PortConflictView>::empty(),
        outcome(requested, exclude, running, host).warnings == Seq::<Seq<char>>::empty(),
        outcome(requested, exclude, running, host).requested_ports == normalized_ports(requested),
{
    let ports = normalized_ports(requested);
    let start = PortPreflightView::begin(requested, exclude);
    let scanned = start.after_scan(running);
    if ports.len() > 0 {
        lemma_scan_containers(running, exclude, ports);
        lemma_probe_all(scanned, host);
        let end = scanned.probe_all(host);
        if scanned.conflicts.len() > 0 {
            let entry = scanned.conflicts[0];
            assert(flagged(scanned.conflicts, entry.port));
        }
        assert forall|i: int| 0 <= i < ports.len() implies host(#[trigger] ports[i]) is Free by {
            assert(ports.contains(ports[i]));
        }
        if end.conflicts.len() > 0 {
            let entry = end.conflicts[0];
            assert(names_host_process(entry, ports, host));
        }
        assert(end.conflicts =~= Seq::<PortConflictView>::empty());
    }
}

/// Where a running container outside the exclusion publishes a requested
/// port, the finding holds exactly one conflict for that port, and it names a
/// container as the occupant.
pub proof fn lemma_container_conflict_is_reported(
    requested: Seq<u16>,
    exclude: Option<Seq<char>>,
    running: Seq<ContainerInfoView>,
    host: spec_fn(u16) -> ProbeOutcomeView,
    port: u16,
)
    requires
        normalized_ports(requested).contains(port),
        held_by_container(running, exclude, port),
    ensures
        !outcome(requested, exclude, running, host).ok,
        exists|entry: PortConflictView|
            #[trigger] sole_entry_for(
                outcome(requested, exclude, running, host).conflicts,
                port,
                entry,
            ) && entry.occupant_type == "container"@ && names_running_container(
                entry,
                running,
                exclude,
            ),
{
    let ports = normalized_ports(requested);
    let start = PortPreflightView::begin(requested, exclude);
    let scanned = start.after_scan(running);
    lemma_scan_containers(running, exclude, ports);
    lemma_probe_all(scanned, host);
    let end = scanned.probe_all(host);
    assert(flagged(scanned.conflicts, port));
    let at = choose|i: int|
        0 <= i < scanned.conflicts.len() && (#[trigger] scanned.conflicts[i]).port == port;
    assert(end.conflicts[at] == scanned.conflicts[at]);
    lemma_sole_entry(end.conflicts, at);
    let entry = end.conflicts[at];
    assert(names_running_container(entry, running, exclude));
    let i = choose|i: int|
        0 <= i < running.len() && !is_excluded((#[trigger] running[i]).id, exclude)
            && published_in(running[i].ports, entry.port) && entry == container_conflict(
            running[i],
            entry.port,
        );
    assert(entry.occupant_type == "container"@);
    let found = outcome(requested, exclude, running, host).conflicts;
    assert(found == end.conflicts);
    assert(entry.port == port);
    assert(sole_entry_for(found, port, entry) && entry.occupant_type == "container"@
        && names_running_container(entry, running, exclude));
}

/// Where no running container outside the exclusion publishes a requested
/// port: if its probe answers "address in use", the finding holds exactly one
/// conflict for the port, the one that names a host process; with any other
/// answer it holds none.
pub proof fn lemma_host_conflict_is_reported(
    requested: Seq<u16>,
    exclude: Option<Seq<char>>,
    running: Seq<ContainerInfoView>,
    host: spec_fn(u16) -> ProbeOutcomeView,
    port: u16,
)
    requires
        normalized_ports(requested).contains(port),
        !held_by_container(running, exclude, port),
    ensures
        host(port) is AddrInUse ==> sole_entry_for(
            outcome(requested, exclude, running, host).conflicts,
            port,
            host_conflict(port),
        ),
        !(host(port) is AddrInUse) ==> !flagged(
            outcome(requested, exclude, running, host).conflicts,
            port,
        ),
{
    let ports = normalized_ports(requested);
    let start = PortPreflightView::begin(requested, exclude);
    let scanned = start.after_scan(running);
    lemma_scan_containers(running, exclude, ports);
    lemma_probe_all(scanned, host);
    let end = scanned.probe_all(host);
    assert(!flagged(scanned.conflicts, port));
    let index = choose|i: int| 0 <= i < ports.len() && ports[i] == port;
    if host(port) is AddrInUse {
        assert(host(ports[index]) is AddrInUse);
        assert(flagged(end.conflicts, port));
        let at = choose|i: int|
            0 <= i < end.conflicts.len() && (#[trigger] end.conflicts[i]).port == port;
        if at < scanned.conflicts.len() {
            assert(scanned.conflicts[at].port == port);
        }
        lemma_sole_entry(end.conflicts, at);
    } else {
        if flagged(end.conflicts, port) {
            let at = choose|i: int|
                0 <= i < end.conflicts.len() && (#[trigger] end.conflicts[i]).port == port;
            if at < scanned.conflicts.len() {
                assert(scanned.conflicts[at].port == port);
            }
        }
    }
}

/// A container under the exclusion is never named as the occupant of a
/// port; and a port that it publishes is reported only if a container outside
/// the exclusion publishes it too, or its probe answers "address in use".
pub proof fn lemma_excluded_container_is_not_reported(
    requested: Seq<u16>,
    exclude: Option<Seq<char>>,
    running: Seq<ContainerInfoView>,
    host: spec_fn(u16) -> ProbeOutcomeView,
    port: u16,
)
    ensures
        forall|k: int|
            0 <= k < outcome(requested, exclude, running, host).conflicts.len() ==> match (
            #[trigger] outcome(requested, exclude, running, host).conflicts[k]).occupant_container_id {
                Some(id) => !is_excluded(id, exclude),
                None => true,
            },
        !held_by_container(running, exclude, port) && !(host(port) is AddrInUse) ==> !flagged(
            outcome(requested, exclude, running, host).conflicts,
            port,
        ),
{
    let ports = normalized_ports(requested);
    let found = outcome(requested, exclude, running, host).conflicts;
    lemma_outcome_is_well_formed(requested, exclude, running, host);
    assert forall|k: int| 0 <= k < found.len() implies match (#[trigger] found[k]).occupant_container_id {
        Some(id) => !is_excluded(id, exclude),
        None => true,
    } by {
        let entry = found[k];
        if names_running_container(entry, running, exclude) {
            let i = choose|i: int|
                0 <= i < running.len() && !is_excluded((#[trigger] running[i]).id, exclude)
                    && published_in(running[i].ports, entry.port) && entry == container_conflict(
                    running[i],
                    entry.port,
                );
            assert(entry.occupant_container_id == Some(running[i].id));
        }
    }
    if !held_by_container(running, exclude, port) && !(host(port) is AddrInUse) {
        if flagged(found, port) {
            let at = choose|i: int| 0 <= i < found.len() && (#[trigger] found[i]).port == port;
            let entry = found[at];
            assert(names_running_container(entry, running, exclude) || names_host_process(
                entry,
                ports,
                host,
            ));
            if names_running_container(entry, running, exclude) {
                let i = choose|i: int|
                    0 <= i < running.len() && !is_excluded((#[trigger] running[i]).id, exclude)
                        && published_in(running[i].ports, entry.port) && entry
                        == container_conflict(running[i], entry.port);
                assert(held_by_container(running, exclude, port));
            }
        }
    }
}

} // verus!
